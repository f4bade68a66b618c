//! A verified parser for the JSON payloads the subprotocol carries: the
//! open packet's object (session id and ping interval) and the event
//! frame's array (event name plus an optional payload object).
use vstd::prelude::*;
use crate::outcome::SessionOutcome;
use crate::select::{is_digit, run_end, run_end_x};
use crate::text::{chars_eq, chars_eq_str, str_to_chars};

verus! {

broadcast use vstd::string::group_string_axioms;

/// A JSON whitespace character.
pub open spec fn is_ws(ch: char) -> bool {
    ch == ' ' || ch == '\t' || ch == '\n' || ch == '\r'
}

/// First index at or after `i` holding a non-whitespace (or the end).
pub open spec fn skip_ws(t: Seq<char>, i: int) -> int
    decreases t.len() - i,
{
    if 0 <= i < t.len() && is_ws(t[i]) {
        skip_ws(t, i + 1)
    } else {
        i
    }
}

pub fn skip_ws_x(t: &[char], i: usize) -> (r: usize)
    requires
        i <= t@.len(),
    ensures
        r == skip_ws(t@, i as int),
        i <= r <= t@.len(),
{
    let mut j: usize = i;
    while j < t.len() && (t[j] == ' ' || t[j] == '\t' || t[j] == '\n' || t[j] == '\r')
        invariant
            i <= j <= t@.len(),
            skip_ws(t@, i as int) == skip_ws(t@, j as int),
        decreases t@.len() - j,
    {
        j += 1;
    }
    j
}

/// Value of one hex digit, or -1.
pub open spec fn hexv(ch: char) -> int {
    if '0' <= ch && ch <= '9' {
        ch as int - 48
    } else if 'a' <= ch && ch <= 'f' {
        ch as int - 87
    } else if 'A' <= ch && ch <= 'F' {
        ch as int - 55
    } else {
        -1
    }
}

fn hexv_x(ch: char) -> (r: Option<u32>)
    ensures
        match r {
            Some(v) => v as int == hexv(ch) && v < 16,
            None => hexv(ch) == -1,
        },
{
    if '0' <= ch && ch <= '9' {
        Some((ch as u32) - 48)
    } else if 'a' <= ch && ch <= 'f' {
        Some((ch as u32) - 87)
    } else if 'A' <= ch && ch <= 'F' {
        Some((ch as u32) - 55)
    } else {
        None
    }
}

/// Value of the four hex digits at `i`, or -1.
pub open spec fn hex4(t: Seq<char>, i: int) -> int {
    if 0 <= i && i + 4 <= t.len() {
        if hexv(t[i]) >= 0 && hexv(t[i + 1]) >= 0 && hexv(t[i + 2]) >= 0 && hexv(t[i + 3]) >= 0 {
            hexv(t[i]) * 4096 + hexv(t[i + 1]) * 256 + hexv(t[i + 2]) * 16 + hexv(t[i + 3])
        } else {
            -1
        }
    } else {
        -1
    }
}

fn hex4_x(t: &[char], i: usize) -> (r: Option<u32>)
    requires
        i + 4 <= t@.len(),
    ensures
        match r {
            Some(v) => v as int == hex4(t@, i as int) && v < 0x10000,
            None => hex4(t@, i as int) == -1,
        },
{
    let a = match hexv_x(t[i]) {
        Some(v) => v,
        None => {
            return None;
        },
    };
    let b = match hexv_x(t[i + 1]) {
        Some(v) => v,
        None => {
            return None;
        },
    };
    let c = match hexv_x(t[i + 2]) {
        Some(v) => v,
        None => {
            return None;
        },
    };
    let d = match hexv_x(t[i + 3]) {
        Some(v) => v,
        None => {
            return None;
        },
    };
    Some(a * 4096 + b * 256 + c * 16 + d)
}

/// Relies on char::from_u32: it returns the character with the given
/// code exactly when the code is a Unicode scalar value, and None on
/// surrogate codes and codes above the maximum.
#[verifier::external_body]
fn char_from_u32(u: u32) -> (r: Option<char>)
    ensures
        r == (if (u < 0xD800 || (0xE000 <= u && u < 0x110000)) {
            Some(u as char)
        } else {
            None::<char>
        }),
{
    char::from_u32(u)
}

fn scalar_char(u: u32) -> (r: char)
    requires
        u < 0xD800 || (0xE000 <= u && u < 0x110000),
    ensures
        r == u as char,
{
    match char_from_u32(u) {
        Some(c) => c,
        None => {
            proof {
                assert(false);
            }
            '0'
        },
    }
}

/// Prepends decoded text to a string parse result.
pub open spec fn spec_prepend(pre: Seq<char>, r: Option<(Seq<char>, int)>) -> Option<
    (Seq<char>, int),
> {
    match r {
        None => None,
        Some((s, e)) => Some((pre + s, e)),
    }
}

proof fn lemma_prepend_assoc(a: Seq<char>, b: Seq<char>, x: Option<(Seq<char>, int)>)
    ensures
        spec_prepend(a, spec_prepend(b, x)) == spec_prepend(a + b, x),
{
    match x {
        None => {},
        Some((s, e)) => {
            assert(a + (b + s) =~= (a + b) + s);
        },
    }
}

/// Decodes the escape sequence at `j` (which holds the backslash):
/// the decoded character and the position after the escape.
fn unescape_at(t: &[char], j: usize) -> (r: Option<(char, usize)>)
    requires
        j < t@.len(),
        t@[j as int] == '\\',
    ensures
        match r {
            Some(p) => j < p.1 <= t@.len() && parse_str_body(t@, j as int) == spec_prepend(
                seq![p.0],
                parse_str_body(t@, p.1 as int),
            ),
            None => parse_str_body(t@, j as int) is None,
        },
{
    proof {
        reveal_with_fuel(parse_str_body, 2);
    }
    let tl = t.len();
    if j + 1 >= tl {
        return None;
    }
    let e = t[j + 1];
    if e == '"' || e == '\\' || e == '/' {
        Some((e, j + 2))
    } else if e == 'b' {
        Some(('\u{8}', j + 2))
    } else if e == 'f' {
        Some(('\u{c}', j + 2))
    } else if e == 'n' {
        Some(('\n', j + 2))
    } else if e == 'r' {
        Some(('\r', j + 2))
    } else if e == 't' {
        Some(('\t', j + 2))
    } else if e == 'u' {
        if tl - (j + 1) < 5 {
            proof {
                assert(j + 6 > t@.len());
            }
            return None;
        }
        let h = match hex4_x(t, j + 2) {
            Some(h) => h,
            None => {
                return None;
            },
        };
        if 0xD800 <= h && h < 0xDC00 {
            if tl - (j + 1) < 11 {
                proof {
                    assert(j + 12 > t@.len());
                }
                return None;
            }
            if !(t[j + 6] == '\\' && t[j + 7] == 'u') {
                return None;
            }
            let l = match hex4_x(t, j + 8) {
                Some(l) => l,
                None => {
                    return None;
                },
            };
            if !(0xDC00 <= l && l < 0xE000) {
                return None;
            }
            let cp: u32 = 0x10000 + (h - 0xD800) * 0x400 + (l - 0xDC00);
            Some((scalar_char(cp), j + 12))
        } else if 0xDC00 <= h && h < 0xE000 {
            None
        } else {
            Some((scalar_char(h), j + 6))
        }
    } else {
        None
    }
}

/// The body of a JSON string from position `i` (right after the opening
/// quote) to its closing quote: the decoded text and the position after
/// the closing quote; None on any ill-formed body.
#[verifier::opaque]
pub open spec fn parse_str_body(t: Seq<char>, i: int) -> Option<(Seq<char>, int)>
    decreases t.len() - i,
{
    if i < 0 || i >= t.len() {
        None
    } else if t[i] == '"' {
        Some((Seq::empty(), i + 1))
    } else if t[i] == '\\' {
        if i + 1 >= t.len() {
            None
        } else {
            let e = t[i + 1];
            if e == '"' || e == '\\' || e == '/' {
                spec_prepend(seq![e], parse_str_body(t, i + 2))
            } else if e == 'b' {
                spec_prepend(seq!['\u{8}'], parse_str_body(t, i + 2))
            } else if e == 'f' {
                spec_prepend(seq!['\u{c}'], parse_str_body(t, i + 2))
            } else if e == 'n' {
                spec_prepend(seq!['\n'], parse_str_body(t, i + 2))
            } else if e == 'r' {
                spec_prepend(seq!['\r'], parse_str_body(t, i + 2))
            } else if e == 't' {
                spec_prepend(seq!['\t'], parse_str_body(t, i + 2))
            } else if e == 'u' {
                if i + 6 > t.len() {
                    None
                } else {
                    let h = hex4(t, i + 2);
                    if h < 0 {
                        None
                    } else if 0xD800 <= h < 0xDC00 {
                        if i + 12 > t.len() {
                            None
                        } else if t[i + 6] == '\\' && t[i + 7] == 'u' {
                            let l = hex4(t, i + 8);
                            if 0xDC00 <= l < 0xE000 {
                                let cp = 0x10000 + (h - 0xD800) * 0x400 + (l - 0xDC00);
                                spec_prepend(seq![cp as char], parse_str_body(t, i + 12))
                            } else {
                                None
                            }
                        } else {
                            None
                        }
                    } else if 0xDC00 <= h < 0xE000 {
                        None
                    } else {
                        spec_prepend(seq![h as char], parse_str_body(t, i + 6))
                    }
                }
            } else {
                None
            }
        }
    } else if (t[i] as int) < 32 {
        None
    } else {
        spec_prepend(seq![t[i]], parse_str_body(t, i + 1))
    }
}

/// A whole JSON string starting at its opening quote.
pub open spec fn parse_string(t: Seq<char>, i: int) -> Option<(Seq<char>, int)> {
    if 0 <= i < t.len() && t[i] == '"' {
        parse_str_body(t, i + 1)
    } else {
        None
    }
}

/// The end of a JSON string, ignoring its decoded text; -1 if ill-formed.
pub open spec fn skip_string(t: Seq<char>, i: int) -> int {
    match parse_string(t, i) {
        None => -1,
        Some((s, e)) => e,
    }
}

proof fn lemma_psb_quote(t: Seq<char>, j: int)
    requires
        0 <= j < t.len(),
        t[j] == '"',
    ensures
        parse_str_body(t, j) == Some((Seq::<char>::empty(), j + 1)),
{
    reveal_with_fuel(parse_str_body, 2);
}

proof fn lemma_psb_ctrl(t: Seq<char>, j: int)
    requires
        0 <= j < t.len(),
        t[j] != '"',
        t[j] != '\\',
        (t[j] as int) < 32,
    ensures
        parse_str_body(t, j) is None,
{
    reveal_with_fuel(parse_str_body, 2);
}

proof fn lemma_psb_plain(t: Seq<char>, j: int)
    requires
        0 <= j < t.len(),
        t[j] != '"',
        t[j] != '\\',
        (t[j] as int) >= 32,
    ensures
        parse_str_body(t, j) == spec_prepend(seq![t[j]], parse_str_body(t, j + 1)),
{
    reveal_with_fuel(parse_str_body, 2);
}

/// One scanning step inside a string body.
enum StrStep {
    Done(usize),
    More(usize),
    Fail,
}

fn str_step(t: &[char], j: usize, acc: &mut Vec<char>) -> (r: StrStep)
    requires
        j < t@.len(),
    ensures
        r matches StrStep::Done(e) ==> final(acc)@ == old(acc)@,
        r matches StrStep::Done(e) ==> e as int == j + 1,
        r matches StrStep::Done(e) ==> parse_str_body(t@, j as int) == Some(
            (Seq::<char>::empty(), j as int + 1),
        ),
        r matches StrStep::More(j2) ==> j < j2 <= t@.len(),
        r matches StrStep::More(j2) ==> spec_prepend(old(acc)@, parse_str_body(t@, j as int))
            == spec_prepend(final(acc)@, parse_str_body(t@, j2 as int)),
        r is Fail ==> parse_str_body(t@, j as int) is None,
{
    let ch = t[j];
    if ch == '"' {
        proof {
            lemma_psb_quote(t@, j as int);
        }
        return StrStep::Done(j + 1);
    }
    if ch == '\\' {
        match unescape_at(t, j) {
            Some((c, j2)) => {
                let ghost pre = acc@;
                acc.push(c);
                proof {
                    lemma_prepend_assoc(pre, seq![c], parse_str_body(t@, j2 as int));
                    assert(pre + seq![c] =~= acc@);
                    assert(spec_prepend(pre, parse_str_body(t@, j as int)) == spec_prepend(
                        acc@,
                        parse_str_body(t@, j2 as int),
                    ));
                }
                StrStep::More(j2)
            },
            None => StrStep::Fail,
        }
    } else if ch <= '\u{1f}' {
        proof {
            lemma_psb_ctrl(t@, j as int);
        }
        StrStep::Fail
    } else {
        let ghost pre = acc@;
        acc.push(ch);
        proof {
            lemma_psb_plain(t@, j as int);
            lemma_prepend_assoc(pre, seq![ch], parse_str_body(t@, j as int + 1));
            assert(pre + seq![ch] =~= acc@);
            assert(spec_prepend(pre, parse_str_body(t@, j as int)) == spec_prepend(
                acc@,
                parse_str_body(t@, j as int + 1),
            ));
        }
        StrStep::More(j + 1)
    }
}

pub fn parse_string_x(t: &[char], i: usize) -> (r: Option<(Vec<char>, usize)>)
    requires
        i <= t@.len(),
    ensures
        match r {
            Some(p) => parse_string(t@, i as int) == Some((p.0@, p.1 as int)) && i < p.1
                <= t@.len(),
            None => parse_string(t@, i as int) is None,
        },
{
    if i >= t.len() || t[i] != '"' {
        return None;
    }
    let mut acc: Vec<char> = Vec::new();
    let mut j: usize = i + 1;
    proof {
        assert(spec_prepend(acc@, parse_str_body(t@, j as int)) == parse_str_body(
            t@,
            i as int + 1,
        )) by {
            match parse_str_body(t@, j as int) {
                None => {},
                Some((s, e)) => {
                    assert(acc@ + s =~= s);
                },
            }
        }
    }
    while j < t.len()
        invariant
            i < t@.len(),
            t@[i as int] == '"',
            i + 1 <= j <= t@.len(),
            parse_str_body(t@, i as int + 1) == spec_prepend(acc@, parse_str_body(t@, j as int)),
        decreases t@.len() - j,
    {
        let ghost pre = acc@;
        match str_step(t, j, &mut acc) {
            StrStep::Done(e) => {
                proof {
                    assert(pre + Seq::<char>::empty() =~= pre);
                }
                return Some((acc, e));
            },
            StrStep::More(j2) => {
                j = j2;
            },
            StrStep::Fail => {
                return None;
            },
        }
    }
    proof {
        reveal_with_fuel(parse_str_body, 2);
        assert(parse_str_body(t@, j as int) is None);
    }
    None
}

/// The end of a JSON number starting at `i`; -1 if no number starts there.
pub open spec fn skip_number(t: Seq<char>, i: int) -> int {
    if i < 0 || i >= t.len() {
        -1
    } else {
        let j = if t[i] == '-' {
            i + 1
        } else {
            i
        };
        if j >= t.len() {
            -1
        } else {
            let k = if t[j] == '0' {
                j + 1
            } else if is_digit(t[j]) {
                run_end(t, j + 1)
            } else {
                -1
            };
            if k < 0 {
                -1
            } else {
                let f = if k < t.len() && t[k] == '.' {
                    if k + 1 < t.len() && is_digit(t[k + 1]) {
                        run_end(t, k + 2)
                    } else {
                        -1
                    }
                } else {
                    k
                };
                if f < 0 {
                    -1
                } else {
                    if f < t.len() && (t[f] == 'e' || t[f] == 'E') {
                        let g = if f + 1 < t.len() && (t[f + 1] == '+' || t[f + 1] == '-') {
                            f + 2
                        } else {
                            f + 1
                        };
                        if g < t.len() && is_digit(t[g]) {
                            run_end(t, g + 1)
                        } else {
                            -1
                        }
                    } else {
                        f
                    }
                }
            }
        }
    }
}

pub fn skip_number_x(t: &[char], i: usize) -> (r: Option<usize>)
    requires
        i <= t@.len(),
    ensures
        match r {
            Some(e) => e as int == skip_number(t@, i as int) && i < e <= t@.len(),
            None => skip_number(t@, i as int) == -1,
        },
{
    if i >= t.len() {
        return None;
    }
    let j: usize = if t[i] == '-' {
        i + 1
    } else {
        i
    };
    if j >= t.len() {
        return None;
    }
    let k: usize = if t[j] == '0' {
        j + 1
    } else if '0' <= t[j] && t[j] <= '9' {
        run_end_x(t, j + 1)
    } else {
        return None;
    };
    let f: usize = if k < t.len() && t[k] == '.' {
        if k + 1 < t.len() && '0' <= t[k + 1] && t[k + 1] <= '9' {
            run_end_x(t, k + 2)
        } else {
            return None;
        }
    } else {
        k
    };
    if f < t.len() && (t[f] == 'e' || t[f] == 'E') {
        let g: usize = if f + 1 < t.len() && (t[f + 1] == '+' || t[f + 1] == '-') {
            f + 2
        } else {
            f + 1
        };
        if g < t.len() && '0' <= t[g] && t[g] <= '9' {
            Some(run_end_x(t, g + 1))
        } else {
            None
        }
    } else {
        Some(f)
    }
}

/// `s` stands verbatim in `t` at position `i`.
pub open spec fn lit_at(t: Seq<char>, i: int, s: Seq<char>) -> bool {
    0 <= i && i + s.len() <= t.len() && t.subrange(i, i + s.len() as int) == s
}

fn lit_at_x(t: &[char], i: usize, s: &str) -> (r: bool)
    requires
        i <= t@.len(),
    ensures
        r == lit_at(t@, i as int, s@),
{
    let n = s.unicode_len();
    let tl = t.len();
    if n > tl - i {
        return false;
    }
    let mut k: usize = 0;
    while k < n
        invariant
            n == s@.len(),
            t@.len() == tl,
            i + n <= t@.len(),
            k <= n,
            forall|m: int| 0 <= m < k ==> t@[i + m] == s@[m],
        decreases n - k,
    {
        if t[i + k] != s.get_char(k) {
            proof {
                assert(t@.subrange(i as int, i + s@.len() as int)[k as int] == t@[i + k]);
            }
            return false;
        }
        k += 1;
    }
    proof {
        assert(t@.subrange(i as int, i + s@.len() as int) =~= s@);
    }
    true
}

/// The end of the JSON value starting at `i`; -1 if ill-formed. The
/// range tests on intermediate positions always hold of the positions
/// the sub-parsers return; they make the recursion visibly bounded.
pub open spec fn skip_value(t: Seq<char>, i: int) -> int
    decreases t.len() - i, 0int,
{
    if i < 0 || i >= t.len() {
        -1
    } else if t[i] == '"' {
        skip_string(t, i)
    } else if t[i] == '{' {
        match obj_walk(t, i + 1, true, Seq::empty()) {
            None => -1,
            Some(p) => p.0,
        }
    } else if t[i] == '[' {
        arr_walk(t, i + 1, true)
    } else if t[i] == 't' {
        if lit_at(t, i, "true"@) {
            i + 4
        } else {
            -1
        }
    } else if t[i] == 'f' {
        if lit_at(t, i, "false"@) {
            i + 5
        } else {
            -1
        }
    } else if t[i] == 'n' {
        if lit_at(t, i, "null"@) {
            i + 4
        } else {
            -1
        }
    } else if t[i] == '-' || is_digit(t[i]) {
        skip_number(t, i)
    } else {
        -1
    }
}

/// Walks an object's fields from `j` (right after `{` or a comma):
/// returns the position after the closing brace, and the span of the
/// value of the last field whose decoded key equals `key`.
pub open spec fn obj_walk(t: Seq<char>, j: int, first: bool, key: Seq<char>) -> Option<
    (int, Option<(int, int)>),
>
    decreases t.len() - j, 1int,
{
    let k = skip_ws(t, j);
    if !(j <= k && k < t.len()) {
        None
    } else if first && t[k] == '}' {
        Some((k + 1, None))
    } else if t[k] != '"' {
        None
    } else {
        match parse_string(t, k) {
            None => None,
            Some((kstr, ke)) => {
                if !(k < ke && ke <= t.len()) {
                    None
                } else {
                    let c = skip_ws(t, ke);
                    if !(ke <= c && c < t.len() && t[c] == ':') {
                        None
                    } else {
                        let vs = skip_ws(t, c + 1);
                        if !(c < vs && vs <= t.len()) {
                            None
                        } else {
                            let v = skip_value(t, vs);
                            if !(vs <= v && v <= t.len()) {
                                None
                            } else {
                                let sp = if kstr == key {
                                    Some((vs, v))
                                } else {
                                    None::<(int, int)>
                                };
                                let w = skip_ws(t, v);
                                if !(v <= w && w < t.len()) {
                                    None
                                } else if t[w] == ',' {
                                    match obj_walk(t, w + 1, false, key) {
                                        None => None,
                                        Some((e, sp2)) => Some(
                                            (
                                                e,
                                                if sp2 is Some {
                                                    sp2
                                                } else {
                                                    sp
                                                },
                                            ),
                                        ),
                                    }
                                } else if t[w] == '}' {
                                    Some((w + 1, sp))
                                } else {
                                    None
                                }
                            }
                        }
                    }
                }
            },
        }
    }
}

/// Walks an array's elements from `j` (right after `[` or a comma):
/// returns the position after the closing bracket, or -1.
pub open spec fn arr_walk(t: Seq<char>, j: int, first: bool) -> int
    decreases t.len() - j, 1int,
{
    let k = skip_ws(t, j);
    if !(j <= k && k < t.len()) {
        -1
    } else if first && t[k] == ']' {
        k + 1
    } else {
        let v = skip_value(t, k);
        if !(k <= v && v <= t.len()) {
            -1
        } else {
            let w = skip_ws(t, v);
            if !(v <= w && w < t.len()) {
                -1
            } else if t[w] == ',' {
                arr_walk(t, w + 1, false)
            } else if t[w] == ']' {
                w + 1
            } else {
                -1
            }
        }
    }
}

pub fn skip_value_x(t: &[char], i: usize) -> (r: Option<usize>)
    requires
        i <= t@.len(),
    ensures
        match r {
            Some(e) => e as int == skip_value(t@, i as int) && i < e <= t@.len(),
            None => skip_value(t@, i as int) == -1,
        },
    decreases t@.len() - i, 0int,
{
    if i >= t.len() {
        return None;
    }
    let ch = t[i];
    if ch == '"' {
        match parse_string_x(t, i) {
            Some(p) => Some(p.1),
            None => None,
        }
    } else if ch == '{' {
        let empty: Vec<char> = Vec::new();
        match obj_walk_x(t, i + 1, true, empty.as_slice()) {
            Some(p) => Some(p.0),
            None => None,
        }
    } else if ch == '[' {
        arr_walk_x(t, i + 1, true)
    } else if ch == 't' {
        if lit_at_x(t, i, "true") {
            proof {
                reveal_strlit("true");
            }
            Some(i + 4)
        } else {
            None
        }
    } else if ch == 'f' {
        if lit_at_x(t, i, "false") {
            proof {
                reveal_strlit("false");
            }
            Some(i + 5)
        } else {
            None
        }
    } else if ch == 'n' {
        if lit_at_x(t, i, "null") {
            proof {
                reveal_strlit("null");
            }
            Some(i + 4)
        } else {
            None
        }
    } else if ch == '-' || ('0' <= ch && ch <= '9') {
        skip_number_x(t, i)
    } else {
        None
    }
}

pub fn obj_walk_x(t: &[char], j: usize, first: bool, key: &[char]) -> (r: Option<
    (usize, Option<(usize, usize)>),
>)
    requires
        j <= t@.len(),
    ensures
        match r {
            Some(p) => obj_walk(t@, j as int, first, key@) matches Some(q) && q.0 == p.0 as int
                && j < p.0 <= t@.len() && (match p.1 {
                Some(sp) => q.1 == Some((sp.0 as int, sp.1 as int)) && sp.0 < sp.1 <= t@.len(),
                None => q.1 is None,
            }),
            None => obj_walk(t@, j as int, first, key@) is None,
        },
    decreases t@.len() - j, 1int,
{
    let k = skip_ws_x(t, j);
    if k >= t.len() {
        return None;
    }
    if first && t[k] == '}' {
        return Some((k + 1, None));
    }
    if t[k] != '"' {
        return None;
    }
    let (kstr, ke) = match parse_string_x(t, k) {
        Some(p) => p,
        None => {
            return None;
        },
    };
    let c = skip_ws_x(t, ke);
    if !(c < t.len() && t[c] == ':') {
        return None;
    }
    let vs = skip_ws_x(t, c + 1);
    let v = match skip_value_x(t, vs) {
        Some(v) => v,
        None => {
            return None;
        },
    };
    let sp: Option<(usize, usize)> = if chars_eq(kstr.as_slice(), key) {
        Some((vs, v))
    } else {
        None
    };
    let w = skip_ws_x(t, v);
    if w >= t.len() {
        return None;
    }
    if t[w] == ',' {
        match obj_walk_x(t, w + 1, false, key) {
            None => None,
            Some((e, sp2)) => Some(
                (
                    e,
                    match sp2 {
                        Some(sp2v) => Some(sp2v),
                        None => sp,
                    },
                ),
            ),
        }
    } else if t[w] == '}' {
        Some((w + 1, sp))
    } else {
        None
    }
}

pub fn arr_walk_x(t: &[char], j: usize, first: bool) -> (r: Option<usize>)
    requires
        j <= t@.len(),
    ensures
        match r {
            Some(e) => e as int == arr_walk(t@, j as int, first) && j < e <= t@.len(),
            None => arr_walk(t@, j as int, first) == -1,
        },
    decreases t@.len() - j, 1int,
{
    let k = skip_ws_x(t, j);
    if k >= t.len() {
        return None;
    }
    if first && t[k] == ']' {
        return Some(k + 1);
    }
    let v = match skip_value_x(t, k) {
        Some(v) => v,
        None => {
            return None;
        },
    };
    let w = skip_ws_x(t, v);
    if w >= t.len() {
        return None;
    }
    if t[w] == ',' {
        arr_walk_x(t, w + 1, false)
    } else if t[w] == ']' {
        Some(w + 1)
    } else {
        None
    }
}

/// The numeric value of the digit span `t[a..b)`.
pub open spec fn span_val(t: Seq<char>, a: int, b: int) -> int
    decreases b - a,
{
    if b <= a {
        0
    } else {
        span_val(t, a, b - 1) * 10 + (t[b - 1] as int - 48)
    }
}

/// The span holds only digits.
pub open spec fn span_is_digits(t: Seq<char>, a: int, b: int) -> bool {
    0 <= a < b <= t.len() && forall|k: int| a <= k < b ==> #[trigger] is_digit(t[k])
}

proof fn lemma_span_val_bounds(t: Seq<char>, a: int, j: int, b: int)
    requires
        span_is_digits(t, a, b),
        a <= j <= b,
    ensures
        span_val(t, a, j) >= 0,
        span_val(t, a, b) >= span_val(t, a, j),
    decreases b - j,
{
    if j == b {
        lemma_span_val_nonneg(t, a, j);
    } else {
        lemma_span_val_bounds(t, a, j + 1, b);
        lemma_span_val_nonneg(t, a, j);
        assert(is_digit(t[j]));
        assert(t[j] as int - 48 >= 0);
        assert(span_val(t, a, j + 1) == span_val(t, a, j) * 10 + (t[j] as int - 48));
        assert(span_val(t, a, j) * 10 >= span_val(t, a, j)) by (nonlinear_arith)
            requires
                span_val(t, a, j) >= 0,
        ;
    }
}

proof fn lemma_span_val_nonneg(t: Seq<char>, a: int, j: int)
    requires
        0 <= a <= j <= t.len(),
        forall|k: int| a <= k < j ==> #[trigger] is_digit(t[k]),
    ensures
        span_val(t, a, j) >= 0,
    decreases j - a,
{
    if j > a {
        lemma_span_val_nonneg(t, a, j - 1);
        assert(is_digit(t[j - 1]));
        assert(t[j - 1] as int - 48 >= 0);
        assert(span_val(t, a, j - 1) * 10 >= 0) by (nonlinear_arith)
            requires
                span_val(t, a, j - 1) >= 0,
        ;
    }
}

/// The span as an unsigned integer, when it is all digits and fits.
pub open spec fn spec_span_u64(t: Seq<char>, a: int, b: int) -> Option<u64> {
    if span_is_digits(t, a, b) && span_val(t, a, b) <= u64::MAX {
        Some(span_val(t, a, b) as u64)
    } else {
        None
    }
}

pub fn span_u64(t: &[char], a: usize, b: usize) -> (r: Option<u64>)
    requires
        a <= b <= t@.len(),
    ensures
        r == spec_span_u64(t@, a as int, b as int),
{
    if a >= b {
        return None;
    }
    let mut v: u64 = 0;
    let mut j: usize = a;
    while j < b
        invariant
            a <= j <= b <= t@.len(),
            forall|k: int| a <= k < j ==> #[trigger] is_digit(t@[k]),
            v as int == span_val(t@, a as int, j as int),
        decreases b - j,
    {
        let ch = t[j];
        if !('0' <= ch && ch <= '9') {
            proof {
                assert(!is_digit(t@[j as int]));
                assert(!span_is_digits(t@, a as int, b as int));
            }
            return None;
        }
        let d: u64 = (ch as u32 as u64) - 48;
        proof {
            assert(d as int == ch as int - 48);
            assert(d <= 9);
        }
        if v > (u64::MAX - d) / 10 {
            proof {
                assert(v as int * 10 + d > u64::MAX) by (nonlinear_arith)
                    requires
                        v as int > (u64::MAX as int - d as int) / 10,
                        0 <= d <= 9,
                ;
                assert(span_val(t@, a as int, j as int + 1) == v as int * 10 + d);
                if span_is_digits(t@, a as int, b as int) {
                    lemma_span_val_bounds(t@, a as int, j as int + 1, b as int);
                }
            }
            return None;
        }
        v = v * 10 + d;
        j += 1;
    }
    Some(v)
}

/// The decoded session id of the open packet's object, when the text is
/// one valid JSON object whose last `sid` field holds a string.
pub open spec fn open_sid(t: Seq<char>) -> Option<Seq<char>> {
    let i0 = skip_ws(t, 0);
    if !(0 <= i0 < t.len() && t[i0] == '{') {
        None
    } else {
        match obj_walk(t, i0 + 1, true, "sid"@) {
            None => None,
            Some((end, sp)) => {
                if skip_ws(t, end) != t.len() {
                    None
                } else {
                    match sp {
                        None => None,
                        Some((a, b)) => match parse_string(t, a) {
                            None => None,
                            Some((sid, e)) => Some(sid),
                        },
                    }
                }
            },
        }
    }
}

/// The open packet's ping interval, when its last `pingInterval` field
/// is a plain unsigned integer that fits.
pub open spec fn open_ping(t: Seq<char>) -> Option<u64> {
    let i0 = skip_ws(t, 0);
    if !(0 <= i0 < t.len() && t[i0] == '{') {
        None
    } else {
        match obj_walk(t, i0 + 1, true, "pingInterval"@) {
            None => None,
            Some((end, sp)) => {
                if skip_ws(t, end) != t.len() {
                    None
                } else {
                    match sp {
                        None => None,
                        Some((a, b)) => spec_span_u64(t, a, b),
                    }
                }
            },
        }
    }
}

/// Parses the open packet's JSON object: the session id, and the ping
/// interval when one was given as a plain integer.
pub fn parse_open(t: &[char]) -> (r: Option<(Vec<char>, Option<u64>)>)
    ensures
        match r {
            Some(p) => open_sid(t@) == Some(p.0@) && p.1 == open_ping(t@),
            None => open_sid(t@) is None,
        },
{
    let i0 = skip_ws_x(t, 0);
    if !(i0 < t.len() && t[i0] == '{') {
        return None;
    }
    let sid_key = str_to_chars("sid");
    proof {
        reveal_strlit("sid");
    }
    let (end, sid_span) = match obj_walk_x(t, i0 + 1, true, sid_key.as_slice()) {
        Some(p) => p,
        None => {
            return None;
        },
    };
    if skip_ws_x(t, end) != t.len() {
        return None;
    }
    let (a, _b) = match sid_span {
        Some(sp) => sp,
        None => {
            return None;
        },
    };
    let sid = match parse_string_x(t, a) {
        Some(p) => p.0,
        None => {
            return None;
        },
    };
    let ping_key = str_to_chars("pingInterval");
    proof {
        reveal_strlit("pingInterval");
    }
    let ping: Option<u64> = match obj_walk_x(t, i0 + 1, true, ping_key.as_slice()) {
        Some((end2, Some((pa, pb)))) => {
            if skip_ws_x(t, end2) == t.len() {
                span_u64(t, pa, pb)
            } else {
                None
            }
        },
        Some((end2, None)) => None,
        None => None,
    };
    Some((sid, ping))
}

/// The ping interval used when the open packet does not carry one.
pub const DEFAULT_PING_MS: u64 = 25000;

/// What the handshake's first frame yields: the session id and the
/// negotiated ping interval, or nothing when the frame is not an open
/// packet carrying a session id.
pub open spec fn spec_open_frame(t: Seq<char>) -> Option<(Seq<char>, u64)> {
    if t.len() >= 1 && t[0] == '0' {
        match open_sid(t.skip(1)) {
            None => None,
            Some(sid) => Some(
                (
                    sid,
                    match open_ping(t.skip(1)) {
                        Some(p) => p,
                        None => DEFAULT_PING_MS,
                    },
                ),
            ),
        }
    } else {
        None
    }
}

/// Parses the handshake's first frame. The frame must start with the
/// open marker and carry a JSON object with a string session id; the
/// ping interval defaults when absent or not a plain integer. Anything
/// else fails the handshake.
pub fn parse_open_frame(t: &[char]) -> (r: Result<(Vec<char>, u64), SessionOutcome>)
    ensures
        match r {
            Ok(p) => spec_open_frame(t@) == Some((p.0@, p.1)),
            Err(e) => spec_open_frame(t@) is None && e == SessionOutcome::HandshakeFailed,
        },
{
    if t.len() < 1 || t[0] != '0' {
        return Err(SessionOutcome::HandshakeFailed);
    }
    let body = crate::select::sub_vec(t, 1, t.len());
    proof {
        assert(body@ =~= t@.skip(1));
    }
    match parse_open(body.as_slice()) {
        None => Err(SessionOutcome::HandshakeFailed),
        Some((sid, ping)) => {
            let p = match ping {
                Some(p) => p,
                None => DEFAULT_PING_MS,
            };
            Ok((sid, p))
        },
    }
}

/// The decoded name of an event frame's first element, when the text is
/// one valid JSON array whose first element is a string.
pub open spec fn event_name(t: Seq<char>) -> Option<Seq<char>> {
    let i0 = skip_ws(t, 0);
    if !(0 <= i0 < t.len() && t[i0] == '[' && arr_walk(t, i0 + 1, true) >= 0 && skip_ws(
        t,
        arr_walk(t, i0 + 1, true),
    ) == t.len()) {
        None
    } else {
        let k = skip_ws(t, i0 + 1);
        if !(0 <= k < t.len() && t[k] == '"') {
            None
        } else {
            match parse_string(t, k) {
                None => None,
                Some((name, e)) => Some(name),
            }
        }
    }
}

/// The position of the event's payload element, or -1 when there is none.
pub open spec fn event_payload_pos(t: Seq<char>) -> int {
    let i0 = skip_ws(t, 0);
    if event_name(t) is None {
        -1
    } else {
        let k = skip_ws(t, i0 + 1);
        match parse_string(t, k) {
            None => -1,
            Some((name, e)) => {
                if !(0 <= e <= t.len()) {
                    -1
                } else {
                    let w = skip_ws(t, e);
                    if 0 <= w < t.len() && t[w] == ',' {
                        let p = skip_ws(t, w + 1);
                        if 0 <= p < t.len() {
                            p
                        } else {
                            -1
                        }
                    } else {
                        -1
                    }
                }
            },
        }
    }
}

/// The decoded `data` string of an output event's payload object.
pub open spec fn output_data(t: Seq<char>) -> Option<Seq<char>> {
    let p = event_payload_pos(t);
    if !(0 <= p < t.len() && t[p] == '{') {
        None
    } else {
        match obj_walk(t, p + 1, true, "data"@) {
            None => None,
            Some((end, sp)) => match sp {
                None => None,
                Some((a, b)) => match parse_string(t, a) {
                    None => None,
                    Some((s, e)) => Some(s),
                },
            },
        }
    }
}

/// An application event, as the session driver consumes it.
pub enum ParsedEvent {
    /// Terminal output to feed the trigger engine.
    Output(Vec<char>),
    /// The service announced an idle timeout.
    IdleTimeout,
    /// The service announced a disconnect.
    Disconnect,
    /// A keep-alive event; ignored.
    ActivityPing,
    /// A user-count broadcast; ignored.
    UserCountUpdate,
    /// Anything else, including text that is not a well-formed event.
    Other,
}

/// Parses one event frame's JSON payload into the event the driver acts
/// on. Ill-formed payloads, unknown names, and output events without a
/// string `data` field are all reported as `Other` and ignored.
pub fn parse_event(t: &[char]) -> (r: ParsedEvent)
    ensures
        r matches ParsedEvent::Output(s) ==> event_name(t@) == Some("output"@) && output_data(t@)
            == Some(s@),
        r is IdleTimeout ==> event_name(t@) == Some("idle_timeout"@),
        r is Disconnect ==> event_name(t@) == Some("disconnect"@),
        r is ActivityPing ==> event_name(t@) == Some("activity_ping"@),
        r is UserCountUpdate ==> event_name(t@) == Some("user_count_update"@),
        r is Other ==> !(event_name(t@) == Some("output"@) && output_data(t@) is Some),
        r is Other ==> event_name(t@) != Some("idle_timeout"@) && event_name(t@) != Some(
            "disconnect"@,
        ) && event_name(t@) != Some("activity_ping"@) && event_name(t@) != Some(
            "user_count_update"@,
        ),
{
    let i0 = skip_ws_x(t, 0);
    if !(i0 < t.len() && t[i0] == '[') {
        return ParsedEvent::Other;
    }
    let end = match arr_walk_x(t, i0 + 1, true) {
        Some(e) => e,
        None => {
            return ParsedEvent::Other;
        },
    };
    if skip_ws_x(t, end) != t.len() {
        return ParsedEvent::Other;
    }
    let k = skip_ws_x(t, i0 + 1);
    if !(k < t.len() && t[k] == '"') {
        return ParsedEvent::Other;
    }
    let (name, e) = match parse_string_x(t, k) {
        Some(p) => p,
        None => {
            return ParsedEvent::Other;
        },
    };
    if chars_eq_str(name.as_slice(), "output") {
        proof {
            assert("output"@ != "idle_timeout"@) by {
                reveal_strlit("output");
                reveal_strlit("idle_timeout");
                assert("output"@.len() == 6);
                assert("idle_timeout"@.len() == 12);
            }
            assert("output"@ != "disconnect"@) by {
                reveal_strlit("output");
                reveal_strlit("disconnect");
                assert("output"@.len() == 6);
                assert("disconnect"@.len() == 10);
            }
            assert("output"@ != "activity_ping"@) by {
                reveal_strlit("output");
                reveal_strlit("activity_ping");
                assert("output"@.len() == 6);
                assert("activity_ping"@.len() == 13);
            }
            assert("output"@ != "user_count_update"@) by {
                reveal_strlit("output");
                reveal_strlit("user_count_update");
                assert("output"@.len() == 6);
                assert("user_count_update"@.len() == 17);
            }
        }
        let w = skip_ws_x(t, e);
        if !(w < t.len() && t[w] == ',') {
            return ParsedEvent::Other;
        }
        let p = skip_ws_x(t, w + 1);
        if !(p < t.len() && t[p] == '{') {
            return ParsedEvent::Other;
        }
        let data_key = str_to_chars("data");
        proof {
            reveal_strlit("data");
        }
        let sp = match obj_walk_x(t, p + 1, true, data_key.as_slice()) {
            Some((end2, Some(sp))) => sp,
            Some((end2, None)) => {
                return ParsedEvent::Other;
            },
            None => {
                return ParsedEvent::Other;
            },
        };
        match parse_string_x(t, sp.0) {
            Some((data, de)) => ParsedEvent::Output(data),
            None => ParsedEvent::Other,
        }
    } else if chars_eq_str(name.as_slice(), "idle_timeout") {
        ParsedEvent::IdleTimeout
    } else if chars_eq_str(name.as_slice(), "disconnect") {
        ParsedEvent::Disconnect
    } else if chars_eq_str(name.as_slice(), "activity_ping") {
        ParsedEvent::ActivityPing
    } else if chars_eq_str(name.as_slice(), "user_count_update") {
        ParsedEvent::UserCountUpdate
    } else {
        ParsedEvent::Other
    }
}

} // verus!
