//! Where the tracing filter parser panics.
//!
//! The parser splits its input at commas and reads each non-empty part (a
//! directive) with a small state machine. The machine walks the trimmed
//! directive, but it cuts the untrimmed one at byte offsets taken from the
//! trimmed one; when such an offset falls inside a multi-byte character, the
//! cut panics. This module states that state machine over characters and byte
//! offsets, and decides it. Whether a field pattern in braces is accepted is
//! the parser's own verdict on the directive cut short after its field list.

use vstd::prelude::*;
use crate::config::{env_filter_check, env_filter_parse_error};
use crate::text::{trim, trim_range, trim_start};
use crate::utils::{ascii_lower, lower_ascii_char};

verus! {

/// The number of bytes that `c` takes in UTF-8.
pub open spec fn utf8_len(c: char) -> int {
    let n = c as u32;
    if n < 0x80 {
        1
    } else if n < 0x800 {
        2
    } else if n < 0x10000 {
        3
    } else {
        4
    }
}

/// What remains of `s` from byte offset `x` on, when `x` falls on a character
/// boundary of `s` (the end counts); `None` when a cut there would panic.
pub open spec fn byte_cut(s: Seq<char>, x: int) -> Option<Seq<char>>
    decreases s.len(),
{
    if x == 0 {
        Some(s)
    } else if x < 0 || s.len() == 0 {
        None
    } else {
        byte_cut(s.drop_first(), x - utf8_len(s[0]))
    }
}

/// Cutting `s` between byte offsets `a` and `b` does not panic.
pub open spec fn cuts(s: Seq<char>, a: int, b: int) -> bool {
    byte_cut(s, a) is Some && byte_cut(s, b) is Some
}

/// How the parser ends on one directive.
#[derive(PartialEq, Eq, Structural, Debug, Clone, Copy)]
pub enum DirectiveOutcome {
    Parsed,
    Rejected,
    Panics,
}

/// The states of the directive parser; offsets are bytes of the trimmed
/// directive.
pub enum DirectiveState {
    Start,
    LevelOrTarget { start: int },
    Span { span_start: int },
    Field { field_start: int },
    Fields,
    Target,
    Level { level_start: int },
}

/// One step of the directive parser: the next state, or the end of the parse.
pub enum DirectiveStep {
    Next(DirectiveState),
    Stop(DirectiveOutcome),
}

/// Whether `c` is alphanumeric in the sense of `char::is_alphanumeric`
/// (Unicode `Alphabetic` or `Numeric`).
pub uninterp spec fn unicode_alphanumeric(c: char) -> bool;

/// `char::is_alphanumeric`; its result is the named Unicode property.
#[verifier::external_body]
fn char_is_alphanumeric(c: char) -> (r: bool)
    ensures
        r == unicode_alphanumeric(c),
{
    c.is_alphanumeric()
}

/// The step of the directive parser of `d` on the character `c` of the trimmed
/// directive, found at byte `i`. `fields` is the verdict on the field list when
/// `c` is the `]` that closes it (see `field_verdict`).
pub open spec fn directive_step(
    d: Seq<char>,
    state: DirectiveState,
    c: char,
    i: int,
    fields: DirectiveOutcome,
) -> DirectiveStep {
    match state {
        DirectiveState::Start => {
            if c == '[' {
                DirectiveStep::Next(DirectiveState::Span { span_start: i + 1 })
            } else if c != '-' && c != ':' && c != '_' && !unicode_alphanumeric(c) {
                DirectiveStep::Stop(DirectiveOutcome::Rejected)
            } else {
                DirectiveStep::Next(DirectiveState::LevelOrTarget { start: i })
            }
        },
        DirectiveState::LevelOrTarget { start } => {
            if c == '=' || c == '[' {
                if !cuts(d, start, i) {
                    DirectiveStep::Stop(DirectiveOutcome::Panics)
                } else if c == '=' {
                    DirectiveStep::Next(DirectiveState::Level { level_start: i + 1 })
                } else {
                    DirectiveStep::Next(DirectiveState::Span { span_start: i + 1 })
                }
            } else {
                DirectiveStep::Next(state)
            }
        },
        DirectiveState::Target => {
            if c == '=' {
                DirectiveStep::Next(DirectiveState::Level { level_start: i + 1 })
            } else {
                DirectiveStep::Stop(DirectiveOutcome::Rejected)
            }
        },
        DirectiveState::Span { span_start } => {
            if c == ']' || c == '{' {
                if !cuts(d, span_start, i) {
                    DirectiveStep::Stop(DirectiveOutcome::Panics)
                } else if c == ']' {
                    DirectiveStep::Next(DirectiveState::Target)
                } else {
                    DirectiveStep::Next(DirectiveState::Field { field_start: i + 1 })
                }
            } else {
                DirectiveStep::Next(state)
            }
        },
        DirectiveState::Field { field_start } => {
            if c == '}' {
                if !cuts(d, field_start, i) {
                    DirectiveStep::Stop(DirectiveOutcome::Panics)
                } else if field_start == i {
                    DirectiveStep::Stop(DirectiveOutcome::Rejected)
                } else {
                    DirectiveStep::Next(DirectiveState::Fields)
                }
            } else {
                DirectiveStep::Next(state)
            }
        },
        DirectiveState::Fields => {
            if c == ']' {
                if fields == DirectiveOutcome::Parsed {
                    DirectiveStep::Next(DirectiveState::Target)
                } else {
                    DirectiveStep::Stop(fields)
                }
            } else {
                DirectiveStep::Stop(DirectiveOutcome::Rejected)
            }
        },
        DirectiveState::Level { .. } => DirectiveStep::Next(state),
    }
}

/// `s` equals the lower-case ASCII `name` up to ASCII case
/// (`str::eq_ignore_ascii_case`).
pub open spec fn ascii_case_eq(s: Seq<char>, name: Seq<char>) -> bool {
    s.len() == name.len() && forall|k: int| 0 <= k < s.len() ==> ascii_lower(#[trigger] s[k]) == name[k]
}

/// `s` without a leading `+`.
pub open spec fn sign_stripped(s: Seq<char>) -> Seq<char> {
    if s.len() > 0 && s[0] == '+' {
        s.drop_first()
    } else {
        s
    }
}

/// Decimal digits whose value is at most 5.
pub open spec fn small_decimal(digits: Seq<char>) -> bool {
    &&& digits.len() > 0
    &&& forall|k: int| 0 <= k < digits.len() - 1 ==> #[trigger] digits[k] == '0'
    &&& '0' <= digits.last() <= '5'
}

/// `usize::from_str` reads `s` as a number from 0 to 5: an optional `+`, then
/// decimal digits whose value is at most 5.
pub open spec fn level_number(s: Seq<char>) -> bool {
    small_decimal(sign_stripped(s))
}

/// The level text of a directive is accepted: empty, a number from 0 to 5,
/// or a level name in any ASCII case (`LevelFilter::from_str`).
pub open spec fn level_text_ok(s: Seq<char>) -> bool {
    ||| s.len() == 0
    ||| level_number(s)
    ||| ascii_case_eq(s, "error"@)
    ||| ascii_case_eq(s, "warn"@)
    ||| ascii_case_eq(s, "info"@)
    ||| ascii_case_eq(s, "debug"@)
    ||| ascii_case_eq(s, "trace"@)
    ||| ascii_case_eq(s, "off"@)
}

/// How the directive parser of `d` ends in `state` once the trimmed directive
/// is read.
pub open spec fn directive_end(d: Seq<char>, state: DirectiveState) -> DirectiveOutcome {
    match state {
        DirectiveState::LevelOrTarget { start } => {
            if byte_cut(d, start) is Some {
                DirectiveOutcome::Parsed
            } else {
                DirectiveOutcome::Panics
            }
        },
        DirectiveState::Level { level_start } => {
            match byte_cut(d, level_start) {
                Some(text) => if level_text_ok(text) {
                    DirectiveOutcome::Parsed
                } else {
                    DirectiveOutcome::Rejected
                },
                None => DirectiveOutcome::Panics,
            }
        },
        DirectiveState::Target => DirectiveOutcome::Parsed,
        _ => DirectiveOutcome::Rejected,
    }
}

/// The character position in `d` of the first character of `rest`, a suffix of
/// the trimmed `d`.
pub open spec fn position_in(d: Seq<char>, rest: Seq<char>) -> int {
    (d.len() - trim_start(d).len()) + (trim(d).len() - rest.len())
}

/// The verdict of the parser on the field list of `d`, whose closing `]` is the
/// first character of `rest`. The field patterns are those of `probe`, the part
/// of `d` up to that `]`, which the parser reads up to the same point and then
/// accepts unless a pattern is refused: so the verdict is the parser's outcome
/// on `probe` (and on `d` itself when `probe` is all of `d`). Since the parser
/// reaches that `]` on `probe` through the same cuts as on `d`, `probe` never
/// panics there; the first branch only lets the check run the parser on
/// `probe` after testing it, as every call of it must.
pub open spec fn field_verdict(d: Seq<char>, rest: Seq<char>) -> DirectiveOutcome
    decreases d.len() as int, 0int, 0int,
{
    let probe = d.take(position_in(d, rest) + 1);
    if 0 <= position_in(d, rest) && position_in(d, rest) + 1 < d.len() {
        if filter_panics_from(probe, 0) {
            DirectiveOutcome::Panics
        } else if env_filter_parse_error(probe) is Some {
            DirectiveOutcome::Rejected
        } else {
            DirectiveOutcome::Parsed
        }
    } else if env_filter_parse_error(d) is Some {
        DirectiveOutcome::Rejected
    } else {
        DirectiveOutcome::Parsed
    }
}

/// The directive parser of `d` in `state`, with `rest` of the trimmed
/// directive still to read, starting at byte `i`.
pub open spec fn directive_run(d: Seq<char>, rest: Seq<char>, state: DirectiveState, i: int) -> DirectiveOutcome
    decreases d.len() as int, 0int, rest.len() as int,
{
    if rest.len() == 0 {
        directive_end(d, state)
    } else {
        let fields = if state is Fields && rest[0] == ']' {
            field_verdict(d, rest)
        } else {
            DirectiveOutcome::Parsed
        };
        match directive_step(d, state, rest[0], i, fields) {
            DirectiveStep::Next(next) => directive_run(d, rest.drop_first(), next, i + utf8_len(rest[0])),
            DirectiveStep::Stop(outcome) => outcome,
        }
    }
}

/// How the parser ends on the directive `d` (a part without commas).
pub open spec fn directive_outcome(d: Seq<char>) -> DirectiveOutcome
    decreases d.len() as int, 1int, 0int,
{
    directive_run(d, trim(d), DirectiveState::Start, 0)
}

/// The position of the first comma of `s` at or after `p`, or the end.
pub open spec fn next_comma(s: Seq<char>, p: int) -> int
    decreases s.len() - p,
{
    if p < 0 || p >= s.len() || s[p] == ',' {
        p
    } else {
        next_comma(s, p + 1)
    }
}

/// `next_comma` lies between `p` and the end, on a comma unless at the end,
/// with no comma before it from `p` on.
pub proof fn lemma_next_comma(s: Seq<char>, p: int)
    requires
        0 <= p <= s.len(),
    ensures
        p <= next_comma(s, p) <= s.len(),
        next_comma(s, p) < s.len() ==> s[next_comma(s, p)] == ',',
        forall|k: int| p <= k < next_comma(s, p) ==> s[k] != ',',
    decreases s.len() - p,
{
    if p < s.len() && s[p] != ',' {
        lemma_next_comma(s, p + 1);
    }
}

/// The parser panics on the directives of `s` from position `p` on: some
/// directive panics, and every directive before it is parsed.
pub open spec fn filter_panics_from(s: Seq<char>, p: int) -> bool
    decreases s.len() as int, 2int, s.len() - p,
{
    if p < 0 || p > s.len() {
        false
    } else {
        let q = next_comma(s, p);
        proof {
            lemma_next_comma(s, p);
        }
        let outcome = if q > p {
            directive_outcome(s.subrange(p, q))
        } else {
            DirectiveOutcome::Parsed
        };
        if outcome == DirectiveOutcome::Panics {
            true
        } else if outcome == DirectiveOutcome::Rejected || q >= s.len() {
            false
        } else {
            filter_panics_from(s, q + 1)
        }
    }
}

/// The tracing filter parser (`EnvFilter::try_new`) panics on `s`.
pub open spec fn filter_parser_panics(s: Seq<char>) -> bool {
    filter_panics_from(s, 0)
}


/// The directive parser's state as the scan keeps it, with byte offsets as
/// machine integers.
#[derive(Clone, Copy)]
enum ScanState {
    Start,
    LevelOrTarget { start: u128 },
    Span { span_start: u128 },
    Field { field_start: u128 },
    Fields,
    Target,
    Level { level_start: u128 },
}

impl ScanState {
    spec fn model(self) -> DirectiveState {
        match self {
            ScanState::Start => DirectiveState::Start,
            ScanState::LevelOrTarget { start } => DirectiveState::LevelOrTarget { start: start as int },
            ScanState::Span { span_start } => DirectiveState::Span { span_start: span_start as int },
            ScanState::Field { field_start } => DirectiveState::Field { field_start: field_start as int },
            ScanState::Fields => DirectiveState::Fields,
            ScanState::Target => DirectiveState::Target,
            ScanState::Level { level_start } => DirectiveState::Level { level_start: level_start as int },
        }
    }
}

fn char_utf8_len(c: char) -> (r: u128)
    ensures
        r as int == utf8_len(c),
{
    let n = c as u32;
    if n < 0x80 {
        1
    } else if n < 0x800 {
        2
    } else if n < 0x10000 {
        3
    } else {
        4
    }
}

/// Cuts the characters of `s` from `p` to `q` at byte `x`: the character
/// position where the rest begins, or `None` when `x` is not a boundary.
fn cut_at(s: &str, p: usize, q: usize, x: u128) -> (r: Option<usize>)
    requires
        p <= q <= s@.len(),
    ensures
        match r {
            Some(j) => p <= j <= q && byte_cut(s@.subrange(p as int, q as int), x as int) == Some(
                s@.subrange(j as int, q as int),
            ),
            None => byte_cut(s@.subrange(p as int, q as int), x as int) is None,
        },
{
    let mut j: usize = p;
    let mut acc: u128 = 0;
    while j < q && acc < x
        invariant
            p <= j <= q <= s@.len(),
            acc as int <= 4 * (j - p),
            byte_cut(s@.subrange(p as int, q as int), x as int) == byte_cut(
                s@.subrange(j as int, q as int),
                x - acc,
            ),
        decreases q - j,
    {
        let c = s.get_char(j);
        proof {
            let t = s@.subrange(j as int, q as int);
            assert(t.drop_first() =~= s@.subrange(j + 1, q as int));
            assert(t[0] == c);
        }
        acc = acc + char_utf8_len(c);
        j = j + 1;
    }
    if acc == x {
        Some(j)
    } else {
        None
    }
}

/// Whether the characters of `s` from `j` to `q` equal `name` up to ASCII case.
fn ascii_case_matches(s: &str, j: usize, q: usize, name: &str) -> (r: bool)
    requires
        j <= q <= s@.len(),
    ensures
        r == ascii_case_eq(s@.subrange(j as int, q as int), name@),
{
    let ghost t = s@.subrange(j as int, q as int);
    let n = name.unicode_len();
    if q - j != n {
        return false;
    }
    let mut k: usize = 0;
    while k < n
        invariant
            j <= q <= s@.len(),
            q - j == n == name@.len(),
            t == s@.subrange(j as int, q as int),
            k <= n,
            forall|m: int| 0 <= m < k ==> ascii_lower(#[trigger] t[m]) == name@[m],
        decreases n - k,
    {
        let c = s.get_char(j + k);
        assert(t[k as int] == c);
        if lower_ascii_char(c) != name.get_char(k) {
            return false;
        }
        k = k + 1;
    }
    true
}

/// Whether the characters of `s` from `j` to `q` are a level number from 0 to 5.
fn level_number_at(s: &str, j: usize, q: usize) -> (r: bool)
    requires
        j <= q <= s@.len(),
    ensures
        r == level_number(s@.subrange(j as int, q as int)),
{
    let ghost t = s@.subrange(j as int, q as int);
    let mut a: usize = j;
    if a < q && s.get_char(a) == '+' {
        a = a + 1;
    }
    proof {
        if j < q {
            assert(t[0] == s@[j as int]);
            assert(t.drop_first() =~= s@.subrange(j + 1, q as int));
        }
    }
    let ghost digits = s@.subrange(a as int, q as int);
    assert(digits == sign_stripped(t));
    if a == q {
        return false;
    }
    let mut k: usize = a;
    while k + 1 < q
        invariant
            j <= a <= k < q <= s@.len(),
            digits == s@.subrange(a as int, q as int),
            t == s@.subrange(j as int, q as int),
            digits == sign_stripped(t),
            forall|m: int| 0 <= m < k - a ==> #[trigger] digits[m] == '0',
        decreases q - k,
    {
        let c = s.get_char(k);
        assert(digits[k - a] == c);
        if c != '0' {
            assert(k - a < digits.len() - 1);
            return false;
        }
        k = k + 1;
    }
    let last = s.get_char(q - 1);
    assert(digits.last() == last);
    '0' <= last && last <= '5'
}

/// Whether the characters of `s` from `j` to `q` are an accepted level text.
fn level_text_ok_at(s: &str, j: usize, q: usize) -> (r: bool)
    requires
        j <= q <= s@.len(),
    ensures
        r == level_text_ok(s@.subrange(j as int, q as int)),
{
    j == q || level_number_at(s, j, q) || ascii_case_matches(s, j, q, "error")
        || ascii_case_matches(s, j, q, "warn") || ascii_case_matches(s, j, q, "info")
        || ascii_case_matches(s, j, q, "debug") || ascii_case_matches(s, j, q, "trace")
        || ascii_case_matches(s, j, q, "off")
}

fn cuts_at(s: &str, p: usize, q: usize, a: u128, b: u128) -> (r: bool)
    requires
        p <= q <= s@.len(),
    ensures
        r == cuts(s@.subrange(p as int, q as int), a as int, b as int),
{
    cut_at(s, p, q, a).is_some() && cut_at(s, p, q, b).is_some()
}

/// One step of the directive parser of the characters of `s` from `p` to `q`,
/// on `c` at byte `i` of the trimmed directive.
fn scan_step(
    s: &str,
    p: usize,
    q: usize,
    state: ScanState,
    c: char,
    i: u128,
    fields: DirectiveOutcome,
) -> (r: Result<ScanState, DirectiveOutcome>)
    requires
        p <= q <= s@.len(),
        i as int <= 4 * (q as int),
    ensures
        match r {
            Ok(next) => directive_step(
                s@.subrange(p as int, q as int),
                state.model(),
                c,
                i as int,
                fields,
            ) == DirectiveStep::Next(next.model()),
            Err(outcome) => directive_step(
                s@.subrange(p as int, q as int),
                state.model(),
                c,
                i as int,
                fields,
            ) == DirectiveStep::Stop(outcome),
        },
{
    match state {
        ScanState::Start => {
            if c == '[' {
                Ok(ScanState::Span { span_start: i + 1 })
            } else if c != '-' && c != ':' && c != '_' && !char_is_alphanumeric(c) {
                Err(DirectiveOutcome::Rejected)
            } else {
                Ok(ScanState::LevelOrTarget { start: i })
            }
        },
        ScanState::LevelOrTarget { start } => {
            if c == '=' || c == '[' {
                if !cuts_at(s, p, q, start, i) {
                    Err(DirectiveOutcome::Panics)
                } else if c == '=' {
                    Ok(ScanState::Level { level_start: i + 1 })
                } else {
                    Ok(ScanState::Span { span_start: i + 1 })
                }
            } else {
                Ok(state)
            }
        },
        ScanState::Target => {
            if c == '=' {
                Ok(ScanState::Level { level_start: i + 1 })
            } else {
                Err(DirectiveOutcome::Rejected)
            }
        },
        ScanState::Span { span_start } => {
            if c == ']' || c == '{' {
                if !cuts_at(s, p, q, span_start, i) {
                    Err(DirectiveOutcome::Panics)
                } else if c == ']' {
                    Ok(ScanState::Target)
                } else {
                    Ok(ScanState::Field { field_start: i + 1 })
                }
            } else {
                Ok(state)
            }
        },
        ScanState::Field { field_start } => {
            if c == '}' {
                if !cuts_at(s, p, q, field_start, i) {
                    Err(DirectiveOutcome::Panics)
                } else if field_start == i {
                    Err(DirectiveOutcome::Rejected)
                } else {
                    Ok(ScanState::Fields)
                }
            } else {
                Ok(state)
            }
        },
        ScanState::Fields => {
            if c == ']' {
                match fields {
                    DirectiveOutcome::Parsed => Ok(ScanState::Target),
                    _ => Err(fields),
                }
            } else {
                Err(DirectiveOutcome::Rejected)
            }
        },
        ScanState::Level { .. } => Ok(state),
    }
}

/// How the directive parser of the characters of `s` from `p` to `q` ends in
/// `state`.
fn scan_end(s: &str, p: usize, q: usize, state: ScanState) -> (r: DirectiveOutcome)
    requires
        p <= q <= s@.len(),
    ensures
        r == directive_end(s@.subrange(p as int, q as int), state.model()),
{
    match state {
        ScanState::LevelOrTarget { start } => {
            if cut_at(s, p, q, start).is_some() {
                DirectiveOutcome::Parsed
            } else {
                DirectiveOutcome::Panics
            }
        },
        ScanState::Level { level_start } => {
            match cut_at(s, p, q, level_start) {
                Some(j) => if level_text_ok_at(s, j, q) {
                    DirectiveOutcome::Parsed
                } else {
                    DirectiveOutcome::Rejected
                },
                None => DirectiveOutcome::Panics,
            }
        },
        ScanState::Target => DirectiveOutcome::Parsed,
        _ => DirectiveOutcome::Rejected,
    }
}

/// A directive without commas is the only directive of itself: the parser
/// panics on it exactly when it panics on that directive.
pub proof fn lemma_single_directive(d: Seq<char>)
    requires
        d.len() > 0,
        forall|k: int| 0 <= k < d.len() ==> d[k] != ',',
    ensures
        filter_panics_from(d, 0) == (directive_outcome(d) == DirectiveOutcome::Panics),
{
    lemma_next_comma(d, 0);
    assert(d.subrange(0, d.len() as int) =~= d);
}

/// The verdict of the parser on the field list of the directive made of the
/// characters of `s` from `p` to `q`, closed by the `]` at `k`.
fn field_verdict_at(s: &str, p: usize, q: usize, k: usize) -> (r: DirectiveOutcome)
    requires
        p <= k < q <= s@.len(),
        forall|m: int| p <= m < q ==> s@[m] != ',',
        k + 1 == q ==> directive_outcome(s@.subrange(p as int, q as int))
            != DirectiveOutcome::Panics,
    ensures
        ({
            let d = s@.subrange(p as int, q as int);
            let probe = d.take(k - p + 1);
            r == (if k + 1 < q {
                if filter_panics_from(probe, 0) {
                    DirectiveOutcome::Panics
                } else if env_filter_parse_error(probe) is Some {
                    DirectiveOutcome::Rejected
                } else {
                    DirectiveOutcome::Parsed
                }
            } else if env_filter_parse_error(d) is Some {
                DirectiveOutcome::Rejected
            } else {
                DirectiveOutcome::Parsed
            })
        }),
    decreases q - p, 0int,
{
    let ghost d = s@.subrange(p as int, q as int);
    if k + 1 < q {
        let probe = s.substring_char(p, k + 1);
        assert(probe@ =~= d.take(k - p + 1));
        if filter_parser_would_panic(probe) {
            DirectiveOutcome::Panics
        } else {
            match env_filter_check(probe) {
                Ok(()) => DirectiveOutcome::Parsed,
                Err(_) => DirectiveOutcome::Rejected,
            }
        }
    } else {
        let whole = s.substring_char(p, q);
        proof {
            lemma_single_directive(d);
        }
        match env_filter_check(whole) {
            Ok(()) => DirectiveOutcome::Parsed,
            Err(_) => DirectiveOutcome::Rejected,
        }
    }
}

/// How the tracing filter parser ends on the directive made of the characters
/// of `s` from `p` to `q`.
pub fn directive_outcome_at(s: &str, p: usize, q: usize) -> (r: DirectiveOutcome)
    requires
        p <= q <= s@.len(),
        forall|m: int| p <= m < q ==> s@[m] != ',',
    ensures
        r == directive_outcome(s@.subrange(p as int, q as int)),
    decreases q - p, 1int,
{
    let ghost d = s@.subrange(p as int, q as int);
    let (a, b) = trim_range(s, p, q);
    let mut state = ScanState::Start;
    let mut k: usize = a;
    let mut i: u128 = 0;
    while k < b
        invariant
            p <= a <= k <= b <= q <= s@.len(),
            forall|m: int| p <= m < q ==> s@[m] != ',',
            d == s@.subrange(p as int, q as int),
            s@.subrange(a as int, b as int) == trim(d),
            s@.subrange(a as int, q as int) == trim_start(d),
            i as int <= 4 * (k - a),
            directive_outcome(d) == directive_run(d, s@.subrange(k as int, b as int), state.model(), i as int),
        decreases b - k,
    {
        let c = s.get_char(k);
        let ghost rest = s@.subrange(k as int, b as int);
        proof {
            assert(rest[0] == c);
            assert(rest.drop_first() =~= s@.subrange(k + 1, b as int));
            assert(position_in(d, rest) == k - p);
        }
        let fields = if matches!(state, ScanState::Fields) && c == ']' {
            proof {
                if k + 1 == q {
                    assert(rest.drop_first().len() == 0);
                    reveal_with_fuel(directive_run, 2);
                }
            }
            let v = field_verdict_at(s, p, q, k);
            assert(v == field_verdict(d, rest));
            v
        } else {
            DirectiveOutcome::Parsed
        };
        assert(fields == (if state.model() is Fields && rest[0] == ']' {
            field_verdict(d, rest)
        } else {
            DirectiveOutcome::Parsed
        }));
        match scan_step(s, p, q, state, c, i, fields) {
            Ok(next) => {
                state = next;
            },
            Err(outcome) => {
                return outcome;
            },
        }
        i = i + char_utf8_len(c);
        k = k + 1;
    }
    scan_end(s, p, q, state)
}

/// Whether the tracing filter parser panics on `s` (`filter_parser_panics`).
pub fn filter_parser_would_panic(s: &str) -> (r: bool)
    ensures
        r == filter_parser_panics(s@),
    decreases s@.len(), 2int,
{
    let n = s.unicode_len();
    let mut p: usize = 0;
    loop
        invariant
            n == s@.len(),
            p <= n,
            filter_parser_panics(s@) == filter_panics_from(s@, p as int),
        decreases n - p,
    {
        let mut q: usize = p;
        while q < n && s.get_char(q) != ','
            invariant
                n == s@.len(),
                p <= q <= n,
                next_comma(s@, p as int) == next_comma(s@, q as int),
            decreases n - q,
        {
            q = q + 1;
        }
        assert(next_comma(s@, q as int) == q);
        proof {
            lemma_next_comma(s@, p as int);
        }
        let outcome = if q > p {
            directive_outcome_at(s, p, q)
        } else {
            DirectiveOutcome::Parsed
        };
        match outcome {
            DirectiveOutcome::Panics => {
                return true;
            },
            DirectiveOutcome::Rejected => {
                return false;
            },
            DirectiveOutcome::Parsed => {},
        }
        if q >= n {
            return false;
        }
        p = q + 1;
    }
}

} // verus!
