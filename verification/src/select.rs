//! Server-selection parsing: scans the buffer for entries of the shape
//! `<digits>-->…(<label>)`, where the gap and the label stay on one line,
//! and picks the index of the first entry whose label matches the target.
use vstd::prelude::*;
use crate::text::{contains_seq, occurs_at, lower_seq, contains_sub, eq_ci, str_to_chars};

verus! {

pub open spec fn is_digit(ch: char) -> bool {
    '0' <= ch && ch <= '9'
}

/// First index at or after `i` holding a non-digit (or the end).
pub open spec fn run_end(t: Seq<char>, i: int) -> int
    decreases t.len() - i,
{
    if i < 0 || i >= t.len() {
        i
    } else if is_digit(t[i]) {
        run_end(t, i + 1)
    } else {
        i
    }
}

/// First index `j >= i` with `t[j] == ch`, reached without crossing a
/// line break; -1 if a line break or the end comes first.
pub open spec fn find_before_nl(t: Seq<char>, i: int, ch: char) -> int
    decreases t.len() - i,
{
    if i < 0 || i >= t.len() {
        -1
    } else if t[i] == ch {
        i
    } else if t[i] == '\n' {
        -1
    } else {
        find_before_nl(t, i + 1, ch)
    }
}

/// One parsed selection entry: its index digits, its label, and the
/// position right after the entry.
pub ghost struct EntrySpec {
    pub index: Seq<char>,
    pub label: Seq<char>,
    pub next: int,
}

/// The entry starting exactly at `l`, if the shape matches there: a
/// maximal digit run, the arrow, then on the same line a parenthesis
/// whose matching close is the first close after it.
pub open spec fn entry_at(t: Seq<char>, l: int) -> Option<EntrySpec> {
    if 0 <= l < t.len() && is_digit(t[l]) {
        let m = run_end(t, l);
        if m + 3 <= t.len() && t.subrange(m, m + 3) == "-->"@ {
            let q = find_before_nl(t, m + 3, '(');
            if q >= 0 {
                let r = find_before_nl(t, q + 1, ')');
                if r >= 0 {
                    Some(
                        EntrySpec {
                            index: t.subrange(l, m),
                            label: t.subrange(q + 1, r),
                            next: r + 1,
                        },
                    )
                } else {
                    None
                }
            } else {
                None
            }
        } else {
            None
        }
    } else {
        None
    }
}

/// Whether an entry's label matches the target: plain containment, or the
/// "All of them" entry when the target reads "all" in any case.
pub open spec fn label_matches(label: Seq<char>, target: Seq<char>) -> bool {
    contains_seq(label, target) || (lower_seq(target) == "all"@ && contains_seq(
        label,
        "All of them"@,
    ))
}

/// Index digits of the first matching entry at or after `i`; the default
/// index "1" when no entry matches.
pub open spec fn spec_select(t: Seq<char>, i: int, target: Seq<char>) -> Seq<char>
    decreases t.len() - i,
{
    if i < 0 || i >= t.len() {
        "1"@
    } else {
        match entry_at(t, i) {
            None => spec_select(t, i + 1, target),
            Some(e) => if label_matches(e.label, target) {
                e.index
            } else {
                spec_select(t, if i < e.next <= t.len() { e.next } else { i + 1 }, target)
            },
        }
    }
}

fn is_digit_x(ch: char) -> (r: bool)
    ensures
        r == is_digit(ch),
{
    '0' <= ch && ch <= '9'
}

pub fn run_end_x(t: &[char], i: usize) -> (r: usize)
    requires
        i <= t@.len(),
    ensures
        r == run_end(t@, i as int),
        i <= r <= t@.len(),
{
    let mut j: usize = i;
    while j < t.len() && is_digit_x(t[j])
        invariant
            i <= j <= t@.len(),
            run_end(t@, i as int) == run_end(t@, j as int),
        decreases t@.len() - j,
    {
        j += 1;
    }
    j
}

fn find_before_nl_x(t: &[char], i: usize, ch: char) -> (r: Option<usize>)
    requires
        i <= t@.len(),
    ensures
        match r {
            Some(k) => k as int == find_before_nl(t@, i as int, ch) && i <= k < t@.len(),
            None => find_before_nl(t@, i as int, ch) == -1,
        },
{
    let mut j: usize = i;
    while j < t.len()
        invariant
            i <= j <= t@.len(),
            find_before_nl(t@, i as int, ch) == find_before_nl(t@, j as int, ch),
        decreases t@.len() - j,
    {
        if t[j] == ch {
            return Some(j);
        }
        if t[j] == '\n' {
            return None;
        }
        j += 1;
    }
    None
}

/// Copies `t[a..b]` out as a vector.
pub fn sub_vec(t: &[char], a: usize, b: usize) -> (r: Vec<char>)
    requires
        a <= b <= t@.len(),
    ensures
        r@ == t@.subrange(a as int, b as int),
{
    let mut out: Vec<char> = Vec::new();
    let mut j: usize = a;
    while j < b
        invariant
            a <= j <= b <= t@.len(),
            out@ == t@.subrange(a as int, j as int),
        decreases b - j,
    {
        out.push(t[j]);
        proof {
            assert(t@.subrange(a as int, j as int).push(t@[j as int]) =~= t@.subrange(
                a as int,
                j as int + 1,
            ));
        }
        j += 1;
    }
    out
}

/// An entry as the scanner hands it out.
pub struct Entry {
    pub index: Vec<char>,
    pub label: Vec<char>,
    pub next: usize,
}

fn entry_at_x(t: &[char], l: usize) -> (r: Option<Entry>)
    requires
        l < t@.len(),
    ensures
        match r {
            Some(e) => entry_at(t@, l as int) matches Some(s) && s.index == e.index@ && s.label
                == e.label@ && s.next == e.next as int && l < e.next <= t@.len(),
            None => entry_at(t@, l as int) is None,
        },
{
    if !is_digit_x(t[l]) {
        return None;
    }
    let m = run_end_x(t, l);
    if t.len() < 3 || m > t.len() - 3 {
        return None;
    }
    proof {
        reveal_strlit("-->");
    }
    if !(t[m] == '-' && t[m + 1] == '-' && t[m + 2] == '>') {
        proof {
            assert(t@.subrange(m as int, m as int + 3)[0] == t@[m as int]);
            assert(t@.subrange(m as int, m as int + 3)[1] == t@[m as int + 1]);
            assert(t@.subrange(m as int, m as int + 3)[2] == t@[m as int + 2]);
        }
        return None;
    }
    proof {
        assert(t@.subrange(m as int, m as int + 3) =~= "-->"@);
    }
    let q = match find_before_nl_x(t, m + 3, '(') {
        Some(q) => q,
        None => {
            return None;
        },
    };
    let r = match find_before_nl_x(t, q + 1, ')') {
        Some(r) => r,
        None => {
            return None;
        },
    };
    Some(Entry { index: sub_vec(t, l, m), label: sub_vec(t, q + 1, r), next: r + 1 })
}

/// Whether the target reads "all", in any case.
pub fn target_is_all(target: &[char]) -> (r: bool)
    ensures
        r == (lower_seq(target@) == "all"@),
{
    proof {
        reveal_strlit("all");
        assert(crate::text::lower_char('a') == 'a');
        assert(crate::text::lower_char('l') == 'l');
        if target@.len() == 3 {
            assert(lower_seq(target@)[0] == crate::text::lower_char(target@[0]));
            assert(lower_seq(target@)[1] == crate::text::lower_char(target@[1]));
            assert(lower_seq(target@)[2] == crate::text::lower_char(target@[2]));
        }
    }
    if target.len() != 3 {
        proof {
            assert(lower_seq(target@).len() == target@.len());
        }
        return false;
    }
    let c0 = eq_ci(target[0], 'a');
    let c1 = eq_ci(target[1], 'l');
    let c2 = eq_ci(target[2], 'l');
    if c0 && c1 && c2 {
        proof {
            assert(lower_seq(target@) =~= "all"@);
        }
        true
    } else {
        proof {
            assert(lower_seq(target@) != "all"@) by {
                if lower_seq(target@) == "all"@ {
                    assert(lower_seq(target@)[0] == 'a');
                    assert(lower_seq(target@)[1] == 'l');
                    assert(lower_seq(target@)[2] == 'l');
                }
            }
        }
        false
    }
}

fn label_matches_x(label: &[char], target: &[char]) -> (r: bool)
    ensures
        r == label_matches(label@, target@),
{
    let direct = if target.len() == 0 {
        proof {
            assert(label@.subrange(0, 0) =~= target@);
            assert(occurs_at(label@, target@, 0));
        }
        true
    } else {
        contains_sub(label, target)
    };
    if direct {
        return true;
    }
    if target_is_all(target) {
        let all_of_them = str_to_chars("All of them");
        proof {
            reveal_strlit("All of them");
        }
        return contains_sub(label, all_of_them.as_slice());
    }
    false
}

/// Picks the index to send for the server-selection prompt: the digits of
/// the first entry in the buffer whose label contains the target (or the
/// first "All of them" entry when the target is "all" in any case), and
/// the default index "1" when nothing matches.
pub fn select_server(t: &[char], target: &[char]) -> (r: Vec<char>)
    ensures
        r@ == spec_select(t@, 0, target@),
{
    let mut pos: usize = 0;
    while pos < t.len()
        invariant
            pos <= t@.len(),
            spec_select(t@, 0, target@) == spec_select(t@, pos as int, target@),
        decreases t@.len() - pos,
    {
        match entry_at_x(t, pos) {
            None => {
                pos += 1;
            },
            Some(e) => {
                if label_matches_x(e.label.as_slice(), target) {
                    return e.index;
                }
                pos = e.next;
            },
        }
    }
    let one = str_to_chars("1");
    one
}

} // verus!
