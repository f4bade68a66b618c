//! The trigger engine: appends each output chunk to the rolling buffer,
//! evaluates the ordered trigger table against the buffer, replaces each
//! acted-on phrase with the sentinel so it cannot re-fire, and reports
//! the commands to send together with any terminal outcome.
use vstd::prelude::*;
use crate::buffer::{RollingBuffer, rolled};
use crate::outcome::{RunMode, SessionOutcome};
use crate::select::{spec_select, select_server};
use crate::text::{
    contains_seq, contains_ci, replace_all, contains_sub, contains_ci_exec, str_to_chars,
    chars_eq_str,
};

verus! {

/// The opaque sentinel written over a trigger phrase once it has fired.
/// No trigger phrase contains it, so a consumed phrase never matches again.
pub const SENTINEL: char = '\u{fffd}';

/// The mutable part of the engine, as contracts speak of it.
#[verifier::ext_equal]
pub ghost struct EngineState {
    pub buf: Seq<char>,
    pub auto_sent: bool,
    pub handout_sent: bool,
}

/// State plus the commands accumulated so far in one scan.
#[verifier::ext_equal]
pub ghost struct Step {
    pub st: EngineState,
    pub cmds: Seq<Seq<char>>,
}

/// The command list of a scan, as a sequence of character sequences.
pub open spec fn cmds_view(cmds: Vec<Vec<char>>) -> Seq<Seq<char>> {
    Seq::new(cmds@.len() as nat, |i: int| cmds@[i]@)
}

/// Consuming a phrase: every occurrence is overwritten by the sentinel.
pub open spec fn consume_spec(buf: Seq<char>, phrase: Seq<char>) -> Seq<char> {
    replace_all(buf, phrase, SENTINEL)
}

/// A rule that, when its phrase is present, consumes it and emits one
/// fixed command.
pub open spec fn spec_simple_rule(s: Step, phrase: Seq<char>, cmd: Seq<char>) -> Step {
    if contains_seq(s.st.buf, phrase) {
        Step {
            st: EngineState {
                buf: consume_spec(s.st.buf, phrase),
                auto_sent: s.st.auto_sent,
                handout_sent: s.st.handout_sent,
            },
            cmds: s.cmds.push(cmd),
        }
    } else {
        s
    }
}

/// The command the main prompt gets, depending on the run mode.
pub open spec fn spec_mode_cmd(mode: RunMode) -> Seq<char> {
    if mode == RunMode::Daily {
        "d"@
    } else {
        "ho"@
    }
}

/// A preferred server is configured and is not the default marker.
pub open spec fn is_nondefault(target: Option<Seq<char>>) -> bool {
    target matches Some(t) && t != "Default"@
}

/// The server-selection rule: with a non-default target configured, the
/// index parsed out of the pre-consumption buffer is sent and the prompt
/// is consumed; otherwise the prompt is left untouched.
pub open spec fn spec_server_rule(s: Step, target: Option<Seq<char>>) -> Step {
    if contains_seq(s.st.buf, "Which acc u want to Login"@) && is_nondefault(target) {
        Step {
            st: EngineState {
                buf: consume_spec(s.st.buf, "Which acc u want to Login"@),
                auto_sent: s.st.auto_sent,
                handout_sent: s.st.handout_sent,
            },
            cmds: s.cmds.push(spec_select(s.st.buf, 0, target->Some_0)),
        }
    } else {
        s
    }
}

/// The mana prompt: `y` in daily mode; in handout mode `ho` the first
/// time (setting the flag) and `y` afterwards.
pub open spec fn spec_mana_rule(s: Step, mode: RunMode) -> Step {
    if contains_seq(s.st.buf, "Press y to spend mana on event stages"@) {
        let buf2 = consume_spec(s.st.buf, "Press y to spend mana on event stages"@);
        if mode == RunMode::Daily {
            Step {
                st: EngineState {
                    buf: buf2,
                    auto_sent: s.st.auto_sent,
                    handout_sent: s.st.handout_sent,
                },
                cmds: s.cmds.push("y"@),
            }
        } else if !s.st.handout_sent {
            Step {
                st: EngineState { buf: buf2, auto_sent: s.st.auto_sent, handout_sent: true },
                cmds: s.cmds.push("ho"@),
            }
        } else {
            Step {
                st: EngineState {
                    buf: buf2,
                    auto_sent: s.st.auto_sent,
                    handout_sent: s.st.handout_sent,
                },
                cmds: s.cmds.push("y"@),
            }
        }
    } else {
        s
    }
}

/// The next-event prompt: `auto` the first time (setting the flag),
/// `exit` afterwards.
pub open spec fn spec_next_rule(s: Step) -> Step {
    if contains_seq(s.st.buf, "next: Go to the next event"@) {
        let buf2 = consume_spec(s.st.buf, "next: Go to the next event"@);
        if !s.st.auto_sent {
            Step {
                st: EngineState { buf: buf2, auto_sent: true, handout_sent: s.st.handout_sent },
                cmds: s.cmds.push("auto"@),
            }
        } else {
            Step {
                st: EngineState {
                    buf: buf2,
                    auto_sent: s.st.auto_sent,
                    handout_sent: s.st.handout_sent,
                },
                cmds: s.cmds.push("exit"@),
            }
        }
    } else {
        s
    }
}

/// A completion keyword stands somewhere in the buffer, in any case.
pub open spec fn spec_done_keywords(buf: Seq<char>) -> bool {
    contains_ci(buf, "success"@) || contains_ci(buf, "finish"@) || contains_ci(buf, "done"@)
        || contains_ci(buf, "already"@)
}

/// The final gating prompt: with completion confirmed (keyword or either
/// sent-flag) the session completes and nothing more is consumed or
/// sent; otherwise the prompt is consumed and `y` returns to the menu.
pub open spec fn spec_more_rule(s: Step) -> (Step, Option<SessionOutcome>) {
    if contains_seq(s.st.buf, "Press y to perform more commands"@) {
        if spec_done_keywords(s.st.buf) || s.st.auto_sent || s.st.handout_sent {
            (s, Some(SessionOutcome::SessionComplete))
        } else {
            (
                Step {
                    st: EngineState {
                        buf: consume_spec(s.st.buf, "Press y to perform more commands"@),
                        auto_sent: s.st.auto_sent,
                        handout_sent: s.st.handout_sent,
                    },
                    cmds: s.cmds.push("y"@),
                },
                None,
            )
        }
    } else {
        (s, None)
    }
}

/// The terminal error scans, in priority order. They never consume:
/// every one of them ends the session.
pub open spec fn spec_error_scan(buf: Seq<char>) -> Option<SessionOutcome> {
    if contains_seq(buf, "Zigza error"@) || contains_seq(buf, "Incorrect Restore Code"@) {
        Some(SessionOutcome::ZigzaDetected)
    } else if contains_seq(buf, "maximum limit of restore accounts"@) {
        Some(SessionOutcome::ServerFull)
    } else if contains_seq(buf, "restricted only for logged in users"@) {
        Some(SessionOutcome::LoginRequired)
    } else if contains_seq(buf, "Invalid Command"@) && contains_seq(buf, "Exiting Now"@) {
        Some(SessionOutcome::InvalidCommandRestart)
    } else {
        None
    }
}

/// One full scan of the buffer: the ordered trigger table, then — unless
/// the gating rule already completed the session — the error scans.
pub open spec fn spec_scan(
    st: EngineState,
    mode: RunMode,
    target: Option<Seq<char>>,
    code: Seq<char>,
) -> (Step, Option<SessionOutcome>) {
    let s0 = Step { st, cmds: Seq::empty() };
    let s1 = spec_simple_rule(s0, "Enter Command to use"@, spec_mode_cmd(mode));
    let s2 = spec_simple_rule(s1, "Enter Restore code"@, code);
    let s3 = spec_server_rule(s2, target);
    let s4 = spec_mana_rule(s3, mode);
    let s5 = spec_next_rule(s4);
    let s6 = spec_simple_rule(s5, "DO U WANT TO REFILL MANA"@, "y"@);
    let s7 = spec_simple_rule(s6, "Enter 1, 2 or 3 to select potion"@, "3"@);
    let s8 = spec_simple_rule(s7, "number of stam100 potions to refill"@, "1"@);
    let gated = spec_more_rule(s8);
    if gated.1 is Some {
        gated
    } else {
        (gated.0, spec_error_scan(gated.0.st.buf))
    }
}

/// A whole output event: the chunk rolls into the buffer, then one scan.
pub open spec fn spec_on_output(
    st: EngineState,
    mode: RunMode,
    target: Option<Seq<char>>,
    code: Seq<char>,
    chunk: Seq<char>,
) -> (Step, Option<SessionOutcome>) {
    spec_scan(
        EngineState {
            buf: rolled(st.buf, chunk),
            auto_sent: st.auto_sent,
            handout_sent: st.handout_sent,
        },
        mode,
        target,
        code,
    )
}

fn push_cmd(cmds: &mut Vec<Vec<char>>, c: Vec<char>)
    ensures
        cmds_view(*final(cmds)) == cmds_view(*old(cmds)).push(c@),
{
    let ghost before = cmds_view(*cmds);
    let ghost cv = c@;
    cmds.push(c);
    proof {
        assert forall|i: int| 0 <= i < cmds@.len() implies cmds_view(*cmds)[i] == before.push(
            cv,
        )[i] by {}
        assert(cmds_view(*cmds) =~= before.push(cv));
    }
}

/// The engine owned by one session: the rolling buffer, the two gating
/// flags, and the read-only session inputs.
pub struct TriggerEngine {
    pub buffer: RollingBuffer,
    pub auto_sent: bool,
    pub handout_sent: bool,
    pub mode: RunMode,
    pub target_server: Option<Vec<char>>,
    pub access_code: Vec<char>,
}

impl TriggerEngine {
    pub open spec fn wf(&self) -> bool {
        self.buffer.wf()
    }

    pub open spec fn st(&self) -> EngineState {
        EngineState {
            buf: self.buffer@,
            auto_sent: self.auto_sent,
            handout_sent: self.handout_sent,
        }
    }

    pub open spec fn target_view(&self) -> Option<Seq<char>> {
        match self.target_server {
            Some(t) => Some(t@),
            None => None,
        }
    }

    /// Builds the engine for one session: empty buffer, cleared flags.
    /// An empty access code is rejected upfront.
    pub fn new(mode: RunMode, target_server: Option<Vec<char>>, access_code: Vec<char>) -> (r:
        Result<TriggerEngine, SessionOutcome>)
        ensures
            match r {
                Ok(e) => access_code@.len() > 0 && e.wf() && e.buffer@ == Seq::<char>::empty()
                    && !e.auto_sent && !e.handout_sent && e.mode == mode && e.target_server
                    == target_server && e.access_code == access_code,
                Err(o) => access_code@.len() == 0 && o == SessionOutcome::MissingCode,
            },
    {
        if access_code.len() == 0 {
            return Err(SessionOutcome::MissingCode);
        }
        Ok(
            TriggerEngine {
                buffer: RollingBuffer::new(),
                auto_sent: false,
                handout_sent: false,
                mode,
                target_server,
                access_code,
            },
        )
    }

    fn apply_simple(&mut self, cmds: &mut Vec<Vec<char>>, phrase: &[char], cmd: Vec<char>)
        requires
            old(self).wf(),
            phrase@.len() >= 1,
        ensures
            final(self).wf(),
            ({
                let s2 = spec_simple_rule(
                    Step { st: old(self).st(), cmds: cmds_view(*old(cmds)) },
                    phrase@,
                    cmd@,
                );
                final(self).st() == s2.st && cmds_view(*final(cmds)) == s2.cmds
            }),
            final(self).mode == old(self).mode,
            final(self).target_server == old(self).target_server,
            final(self).access_code == old(self).access_code,
    {
        if contains_sub(self.buffer.as_slice(), phrase) {
            self.buffer.consume(phrase, SENTINEL);
            push_cmd(cmds, cmd);
        }
    }

    fn apply_server(&mut self, cmds: &mut Vec<Vec<char>>)
        requires
            old(self).wf(),
        ensures
            final(self).wf(),
            ({
                let s2 = spec_server_rule(
                    Step { st: old(self).st(), cmds: cmds_view(*old(cmds)) },
                    old(self).target_view(),
                );
                final(self).st() == s2.st && cmds_view(*final(cmds)) == s2.cmds
            }),
            final(self).mode == old(self).mode,
            final(self).target_server == old(self).target_server,
            final(self).access_code == old(self).access_code,
    {
        let p = str_to_chars("Which acc u want to Login");
        proof {
            reveal_strlit("Which acc u want to Login");
        }
        if contains_sub(self.buffer.as_slice(), p.as_slice()) {
            let mut chosen: Option<Vec<char>> = None;
            match &self.target_server {
                Some(t) => {
                    if !chars_eq_str(t.as_slice(), "Default") {
                        chosen = Some(select_server(self.buffer.as_slice(), t.as_slice()));
                    }
                },
                None => {},
            }
            match chosen {
                Some(idx) => {
                    push_cmd(cmds, idx);
                    self.buffer.consume(p.as_slice(), SENTINEL);
                },
                None => {},
            }
        }
    }

    fn apply_mana(&mut self, cmds: &mut Vec<Vec<char>>)
        requires
            old(self).wf(),
        ensures
            final(self).wf(),
            ({
                let s2 = spec_mana_rule(
                    Step { st: old(self).st(), cmds: cmds_view(*old(cmds)) },
                    old(self).mode,
                );
                final(self).st() == s2.st && cmds_view(*final(cmds)) == s2.cmds
            }),
            final(self).mode == old(self).mode,
            final(self).target_server == old(self).target_server,
            final(self).access_code == old(self).access_code,
    {
        let p = str_to_chars("Press y to spend mana on event stages");
        proof {
            reveal_strlit("Press y to spend mana on event stages");
        }
        if contains_sub(self.buffer.as_slice(), p.as_slice()) {
            self.buffer.consume(p.as_slice(), SENTINEL);
            match self.mode {
                RunMode::Daily => {
                    push_cmd(cmds, str_to_chars("y"));
                },
                RunMode::Handout => {
                    if !self.handout_sent {
                        push_cmd(cmds, str_to_chars("ho"));
                        self.handout_sent = true;
                    } else {
                        push_cmd(cmds, str_to_chars("y"));
                    }
                },
            }
        }
    }

    fn apply_next(&mut self, cmds: &mut Vec<Vec<char>>)
        requires
            old(self).wf(),
        ensures
            final(self).wf(),
            ({
                let s2 = spec_next_rule(Step { st: old(self).st(), cmds: cmds_view(*old(cmds)) });
                final(self).st() == s2.st && cmds_view(*final(cmds)) == s2.cmds
            }),
            final(self).mode == old(self).mode,
            final(self).target_server == old(self).target_server,
            final(self).access_code == old(self).access_code,
    {
        let p = str_to_chars("next: Go to the next event");
        proof {
            reveal_strlit("next: Go to the next event");
        }
        if contains_sub(self.buffer.as_slice(), p.as_slice()) {
            self.buffer.consume(p.as_slice(), SENTINEL);
            if !self.auto_sent {
                push_cmd(cmds, str_to_chars("auto"));
                self.auto_sent = true;
            } else {
                push_cmd(cmds, str_to_chars("exit"));
            }
        }
    }

    fn apply_more(&mut self, cmds: &mut Vec<Vec<char>>) -> (r: Option<SessionOutcome>)
        requires
            old(self).wf(),
        ensures
            final(self).wf(),
            ({
                let g = spec_more_rule(Step { st: old(self).st(), cmds: cmds_view(*old(cmds)) });
                final(self).st() == g.0.st && cmds_view(*final(cmds)) == g.0.cmds && r == g.1
            }),
            final(self).mode == old(self).mode,
            final(self).target_server == old(self).target_server,
            final(self).access_code == old(self).access_code,
    {
        let p = str_to_chars("Press y to perform more commands");
        proof {
            reveal_strlit("Press y to perform more commands");
            reveal_strlit("success");
            reveal_strlit("finish");
            reveal_strlit("done");
            reveal_strlit("already");
        }
        if contains_sub(self.buffer.as_slice(), p.as_slice()) {
            let k1 = str_to_chars("success");
            let k2 = str_to_chars("finish");
            let k3 = str_to_chars("done");
            let k4 = str_to_chars("already");
            let b = self.buffer.as_slice();
            let done = contains_ci_exec(b, k1.as_slice()) || contains_ci_exec(b, k2.as_slice())
                || contains_ci_exec(b, k3.as_slice()) || contains_ci_exec(b, k4.as_slice())
                || self.auto_sent || self.handout_sent;
            if done {
                return Some(SessionOutcome::SessionComplete);
            }
            self.buffer.consume(p.as_slice(), SENTINEL);
            push_cmd(cmds, str_to_chars("y"));
            None
        } else {
            None
        }
    }

    fn error_scan(&self) -> (r: Option<SessionOutcome>)
        ensures
            r == spec_error_scan(self.st().buf),
    {
        proof {
            reveal_strlit("Zigza error");
            reveal_strlit("Incorrect Restore Code");
            reveal_strlit("maximum limit of restore accounts");
            reveal_strlit("restricted only for logged in users");
            reveal_strlit("Invalid Command");
            reveal_strlit("Exiting Now");
        }
        let b = self.buffer.as_slice();
        let e1 = str_to_chars("Zigza error");
        let e2 = str_to_chars("Incorrect Restore Code");
        if contains_sub(b, e1.as_slice()) || contains_sub(b, e2.as_slice()) {
            return Some(SessionOutcome::ZigzaDetected);
        }
        let e3 = str_to_chars("maximum limit of restore accounts");
        if contains_sub(b, e3.as_slice()) {
            return Some(SessionOutcome::ServerFull);
        }
        let e4 = str_to_chars("restricted only for logged in users");
        if contains_sub(b, e4.as_slice()) {
            return Some(SessionOutcome::LoginRequired);
        }
        let e5 = str_to_chars("Invalid Command");
        let e6 = str_to_chars("Exiting Now");
        if contains_sub(b, e5.as_slice()) && contains_sub(b, e6.as_slice()) {
            return Some(SessionOutcome::InvalidCommandRestart);
        }
        None
    }

    fn scan(&mut self) -> (r: (Vec<Vec<char>>, Option<SessionOutcome>))
        requires
            old(self).wf(),
        ensures
            final(self).wf(),
            ({
                let s = spec_scan(
                    old(self).st(),
                    old(self).mode,
                    old(self).target_view(),
                    old(self).access_code@,
                );
                final(self).st() == s.0.st && cmds_view(r.0) == s.0.cmds && r.1 == s.1
            }),
            final(self).mode == old(self).mode,
            final(self).target_server == old(self).target_server,
            final(self).access_code == old(self).access_code,
    {
        let mut cmds: Vec<Vec<char>> = Vec::new();
        proof {
            assert(cmds_view(cmds) =~= Seq::<Seq<char>>::empty());
        }
        let p1 = str_to_chars("Enter Command to use");
        proof {
            reveal_strlit("Enter Command to use");
            reveal_strlit("d");
            reveal_strlit("ho");
        }
        let c1 = match self.mode {
            RunMode::Daily => str_to_chars("d"),
            RunMode::Handout => str_to_chars("ho"),
        };
        self.apply_simple(&mut cmds, p1.as_slice(), c1);
        let p2 = str_to_chars("Enter Restore code");
        proof {
            reveal_strlit("Enter Restore code");
        }
        let c2 = self.access_code.clone();
        proof {
            assert(c2@ == self.access_code@);
        }
        self.apply_simple(&mut cmds, p2.as_slice(), c2);
        self.apply_server(&mut cmds);
        self.apply_mana(&mut cmds);
        self.apply_next(&mut cmds);
        let p6 = str_to_chars("DO U WANT TO REFILL MANA");
        proof {
            reveal_strlit("DO U WANT TO REFILL MANA");
            reveal_strlit("y");
        }
        self.apply_simple(&mut cmds, p6.as_slice(), str_to_chars("y"));
        let p7 = str_to_chars("Enter 1, 2 or 3 to select potion");
        proof {
            reveal_strlit("Enter 1, 2 or 3 to select potion");
            reveal_strlit("3");
        }
        self.apply_simple(&mut cmds, p7.as_slice(), str_to_chars("3"));
        let p8 = str_to_chars("number of stam100 potions to refill");
        proof {
            reveal_strlit("number of stam100 potions to refill");
            reveal_strlit("1");
        }
        self.apply_simple(&mut cmds, p8.as_slice(), str_to_chars("1"));
        let gated = self.apply_more(&mut cmds);
        match gated {
            Some(o) => (cmds, Some(o)),
            None => {
                let e = self.error_scan();
                (cmds, e)
            },
        }
    }

    /// Feeds one chunk of application output to the engine: rolls it into
    /// the buffer, runs one scan of the trigger table, and returns the
    /// commands to send plus any terminal outcome.
    pub fn on_output(&mut self, chunk: &[char]) -> (r: (Vec<Vec<char>>, Option<SessionOutcome>))
        requires
            old(self).wf(),
        ensures
            final(self).wf(),
            ({
                let s = spec_on_output(
                    old(self).st(),
                    old(self).mode,
                    old(self).target_view(),
                    old(self).access_code@,
                    chunk@,
                );
                final(self).st() == s.0.st && cmds_view(r.0) == s.0.cmds && r.1 == s.1
            }),
            final(self).mode == old(self).mode,
            final(self).target_server == old(self).target_server,
            final(self).access_code == old(self).access_code,
    {
        self.buffer.append(chunk);
        self.scan()
    }
}

} // verus!
