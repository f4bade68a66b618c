//! Laws of the trigger engine, stated over the same spec functions its
//! contracts use.
use vstd::prelude::*;
use crate::engine::{
    EngineState, Step, SENTINEL, spec_simple_rule, spec_server_rule, spec_mana_rule,
    spec_next_rule, spec_more_rule, spec_scan, spec_done_keywords, spec_mode_cmd,
};
use crate::outcome::{RunMode, SessionOutcome};
use crate::text::{contains_seq, lemma_replace_all_clears, lemma_replace_preserves_absence};

verus! {

/// Idempotent consumption: once a rule has fired, the phrase it
/// consumed no longer stands anywhere in the buffer, so a later scan of
/// the same text can never re-fire that rule. Holds for any phrase that
/// does not contain the sentinel, whether or not the rule fired.
pub proof fn lemma_consumption_idempotent(s: Step, phrase: Seq<char>, cmd: Seq<char>)
    requires
        phrase.len() >= 1,
        forall|k: int| 0 <= k < phrase.len() ==> phrase[k] != SENTINEL,
    ensures
        !contains_seq(spec_simple_rule(s, phrase, cmd).st.buf, phrase),
{
    if contains_seq(s.st.buf, phrase) {
        lemma_replace_all_clears(s.st.buf, phrase, SENTINEL);
    }
}

/// No trigger phrase contains the sentinel character.
proof fn lemma_phrase_sentinel_free(p: Seq<char>)
    requires
        p == "Enter Restore code"@ || p == "Which acc u want to Login"@ || p
            == "Press y to spend mana on event stages"@ || p == "next: Go to the next event"@,
    ensures
        p.len() >= 1,
        forall|k: int| 0 <= k < p.len() ==> p[k] != SENTINEL,
{
    reveal_strlit("Enter Restore code");
    reveal_strlit("Which acc u want to Login");
    reveal_strlit("Press y to spend mana on event stages");
    reveal_strlit("next: Go to the next event");
}

/// Idempotent consumption for the mana rule, in either mode.
pub proof fn lemma_consumption_idempotent_mana(s: Step, mode: RunMode)
    ensures
        !contains_seq(spec_mana_rule(s, mode).st.buf, "Press y to spend mana on event stages"@),
{
    lemma_phrase_sentinel_free("Press y to spend mana on event stages"@);
    if contains_seq(s.st.buf, "Press y to spend mana on event stages"@) {
        lemma_replace_all_clears(s.st.buf, "Press y to spend mana on event stages"@, SENTINEL);
    }
}

/// Idempotent consumption for the next-event rule.
pub proof fn lemma_consumption_idempotent_next(s: Step)
    ensures
        !contains_seq(spec_next_rule(s).st.buf, "next: Go to the next event"@),
{
    lemma_phrase_sentinel_free("next: Go to the next event"@);
    if contains_seq(s.st.buf, "next: Go to the next event"@) {
        lemma_replace_all_clears(s.st.buf, "next: Go to the next event"@, SENTINEL);
    }
}

/// Idempotent consumption for the server-selection rule: whenever it
/// fires (a non-default target is configured), its prompt is cleared.
pub proof fn lemma_consumption_idempotent_server(s: Step, target: Option<Seq<char>>)
    requires
        crate::engine::is_nondefault(target),
    ensures
        !contains_seq(spec_server_rule(s, target).st.buf, "Which acc u want to Login"@),
{
    lemma_phrase_sentinel_free("Which acc u want to Login"@);
    if contains_seq(s.st.buf, "Which acc u want to Login"@) {
        lemma_replace_all_clears(s.st.buf, "Which acc u want to Login"@, SENTINEL);
    }
}

/// Mode dependence, part one: only the main-command rule and the mana
/// rule read the run mode. When neither of their phrases stands in the
/// buffer, a daily scan and a handout scan agree entirely: same
/// commands, same buffer, same flags, same outcome.
pub proof fn lemma_mode_dependence(st: EngineState, target: Option<Seq<char>>, code: Seq<char>)
    requires
        !contains_seq(st.buf, "Enter Command to use"@),
        !contains_seq(st.buf, "Press y to spend mana on event stages"@),
    ensures
        spec_scan(st, RunMode::Daily, target, code) == spec_scan(
            st,
            RunMode::Handout,
            target,
            code,
        ),
{
    let mana = "Press y to spend mana on event stages"@;
    lemma_phrase_sentinel_free(mana);
    let s0 = Step { st, cmds: Seq::empty() };
    assert(spec_simple_rule(s0, "Enter Command to use"@, spec_mode_cmd(RunMode::Daily)) == s0);
    assert(spec_simple_rule(s0, "Enter Command to use"@, spec_mode_cmd(RunMode::Handout)) == s0);
    let s2 = spec_simple_rule(s0, "Enter Restore code"@, code);
    assert(!contains_seq(s2.st.buf, mana)) by {
        if contains_seq(s0.st.buf, "Enter Restore code"@) {
            lemma_phrase_sentinel_free("Enter Restore code"@);
            lemma_replace_preserves_absence(st.buf, "Enter Restore code"@, mana, SENTINEL);
        }
    }
    let s3 = spec_server_rule(s2, target);
    assert(!contains_seq(s3.st.buf, mana)) by {
        if s3 != s2 {
            lemma_phrase_sentinel_free("Which acc u want to Login"@);
            lemma_replace_preserves_absence(
                s2.st.buf,
                "Which acc u want to Login"@,
                mana,
                SENTINEL,
            );
        }
    }
    assert(spec_mana_rule(s3, RunMode::Daily) == s3);
    assert(spec_mana_rule(s3, RunMode::Handout) == s3);
}

/// Mode dependence, part two: with the main command prompt in the
/// buffer, the first command of the scan is `d` in daily mode and `ho`
/// in handout mode, and the two differ.
pub proof fn lemma_mode_commands(st: EngineState, target: Option<Seq<char>>, code: Seq<char>)
    requires
        contains_seq(st.buf, "Enter Command to use"@),
    ensures
        spec_scan(st, RunMode::Daily, target, code).0.cmds.len() >= 1,
        spec_scan(st, RunMode::Handout, target, code).0.cmds.len() >= 1,
        spec_scan(st, RunMode::Daily, target, code).0.cmds[0] == "d"@,
        spec_scan(st, RunMode::Handout, target, code).0.cmds[0] == "ho"@,
        "d"@ != "ho"@,
{
    assert("d"@ != "ho"@) by {
        reveal_strlit("d");
        reveal_strlit("ho");
        assert("d"@.len() == 1);
        assert("ho"@.len() == 2);
    }
    lemma_scan_first_cmd(st, RunMode::Daily, target, code);
    lemma_scan_first_cmd(st, RunMode::Handout, target, code);
}

/// With the main command prompt present, the scan's first command is
/// the mode command: later rules only append to the command list.
proof fn lemma_scan_first_cmd(
    st: EngineState,
    mode: RunMode,
    target: Option<Seq<char>>,
    code: Seq<char>,
)
    requires
        contains_seq(st.buf, "Enter Command to use"@),
    ensures
        spec_scan(st, mode, target, code).0.cmds.len() >= 1,
        spec_scan(st, mode, target, code).0.cmds[0] == spec_mode_cmd(mode),
{
    let s0 = Step { st, cmds: Seq::empty() };
    let s1 = spec_simple_rule(s0, "Enter Command to use"@, spec_mode_cmd(mode));
    assert(s1.cmds.len() == 1 && s1.cmds[0] == spec_mode_cmd(mode));
    let s2 = spec_simple_rule(s1, "Enter Restore code"@, code);
    assert(s2.cmds.len() >= 1 && s2.cmds[0] == s1.cmds[0]);
    let s3 = spec_server_rule(s2, target);
    assert(s3.cmds.len() >= 1 && s3.cmds[0] == s2.cmds[0]);
    let s4 = spec_mana_rule(s3, mode);
    assert(s4.cmds.len() >= 1 && s4.cmds[0] == s3.cmds[0]);
    let s5 = spec_next_rule(s4);
    assert(s5.cmds.len() >= 1 && s5.cmds[0] == s4.cmds[0]);
    let s6 = spec_simple_rule(s5, "DO U WANT TO REFILL MANA"@, "y"@);
    assert(s6.cmds.len() >= 1 && s6.cmds[0] == s5.cmds[0]);
    let s7 = spec_simple_rule(s6, "Enter 1, 2 or 3 to select potion"@, "3"@);
    assert(s7.cmds.len() >= 1 && s7.cmds[0] == s6.cmds[0]);
    let s8 = spec_simple_rule(s7, "number of stam100 potions to refill"@, "1"@);
    assert(s8.cmds.len() >= 1 && s8.cmds[0] == s7.cmds[0]);
    let gated = spec_more_rule(s8);
    assert(gated.0.cmds.len() >= 1 && gated.0.cmds[0] == s8.cmds[0]);
}

/// Completion gating: at the final gating rule, the exit prompt together
/// with confirmed completion (a completion keyword in the buffer, in any
/// case, or either sent-flag) ends the session with success and changes
/// nothing else; the same prompt without confirmation consumes the
/// prompt, sends `y`, and does not terminate.
pub proof fn lemma_completion_gating(s: Step)
    requires
        contains_seq(s.st.buf, "Press y to perform more commands"@),
    ensures
        (spec_done_keywords(s.st.buf) || s.st.auto_sent || s.st.handout_sent) ==> spec_more_rule(
            s,
        ) == (s, Some(SessionOutcome::SessionComplete)),
        !(spec_done_keywords(s.st.buf) || s.st.auto_sent || s.st.handout_sent) ==> spec_more_rule(
            s,
        ).1 is None && spec_more_rule(s).0.cmds == s.cmds.push("y"@) && !contains_seq(
            spec_more_rule(s).0.st.buf,
            "Press y to perform more commands"@,
        ),
{
    if !(spec_done_keywords(s.st.buf) || s.st.auto_sent || s.st.handout_sent) {
        assert("Press y to perform more commands"@.len() >= 1 && forall|k: int|
            0 <= k < "Press y to perform more commands"@.len()
                ==> "Press y to perform more commands"@[k] != SENTINEL) by {
            reveal_strlit("Press y to perform more commands");
        }
        lemma_replace_all_clears(s.st.buf, "Press y to perform more commands"@, SENTINEL);
    }
}

} // verus!
