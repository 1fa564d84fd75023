//! The levelspec grammar and its parser.
//!
//! An input is one, two or three dot-separated segments: `SHOW`, `SHOW.SEQ`
//! or `SHOW.SEQ.SHOT`. Each segment is a token (`%`, or an alphanumeric run;
//! the show token must start with a letter), and the whole input must be
//! consumed: a trailing separator, a stray character or a fourth segment
//! fails the parse. Because no token may contain a dot, the dots of a valid
//! input are exactly its separators, so the grammar is characterized here by
//! the positions of the first dots of the input.

use vstd::prelude::*;
use vstd::string::StrSliceExecFns;

use crate::errors::LSpecError;
use crate::leveltype::{
    is_alnum, is_digit_char, is_letter, is_plain_token, is_wildcard_token,
    token_view, valid_show_token, valid_tail_token, LevelView,
};
use crate::lspec::{LevelSpec, LevelSpecView};

verus! {

/// The position of the first dot at or after `lo`, or the input's length if
/// there is none.
pub open spec fn first_dot_from(s: Seq<char>, lo: int) -> int
    decreases s.len() - lo,
{
    if lo < 0 || lo >= s.len() {
        s.len() as int
    } else if s[lo] == '.' {
        lo
    } else {
        first_dot_from(s, lo + 1)
    }
}

/// The end of the alphanumeric run starting at `lo`: the position of the
/// first character at or after `lo` that is not a letter or digit, or the
/// input's length if every remaining character is.
pub open spec fn alnum_run_from(s: Seq<char>, lo: int) -> int
    decreases s.len() - lo,
{
    if lo < 0 || lo >= s.len() {
        s.len() as int
    } else if !is_alnum(s[lo]) {
        lo
    } else {
        alnum_run_from(s, lo + 1)
    }
}

/// Whether the whole input conforms to the grammar: split at its first one
/// or two dots, the input is a valid show token, a show and a tail token, or
/// a show and two tail tokens — and holds no further dot.
pub open spec fn grammar_ok(s: Seq<char>) -> bool {
    let n = s.len() as int;
    let i = first_dot_from(s, 0);
    let j = first_dot_from(s, i + 1);
    let k = first_dot_from(s, j + 1);
    if i == n {
        valid_show_token(s)
    } else if j == n {
        valid_show_token(s.subrange(0, i)) && valid_tail_token(s.subrange(i + 1, n))
    } else {
        &&& k == n
        &&& valid_show_token(s.subrange(0, i))
        &&& valid_tail_token(s.subrange(i + 1, j))
        &&& valid_tail_token(s.subrange(j + 1, n))
    }
}

/// The value a successful parse denotes: each segment of the input, mapped
/// to its level. Meaningful when [`grammar_ok`] holds of the input.
pub open spec fn parse_model(s: Seq<char>) -> LevelSpecView {
    let n = s.len() as int;
    let i = first_dot_from(s, 0);
    let j = first_dot_from(s, i + 1);
    if i == n {
        LevelSpecView {
            show: token_view(s),
            sequence: LevelView::Absent,
            shot: LevelView::Absent,
        }
    } else if j == n {
        LevelSpecView {
            show: token_view(s.subrange(0, i)),
            sequence: token_view(s.subrange(i + 1, n)),
            shot: LevelView::Absent,
        }
    } else {
        LevelSpecView {
            show: token_view(s.subrange(0, i)),
            sequence: token_view(s.subrange(i + 1, j)),
            shot: token_view(s.subrange(j + 1, n)),
        }
    }
}

proof fn lemma_first_dot_from_found(s: Seq<char>, lo: int, i: int)
    requires
        0 <= lo <= i <= s.len(),
        forall|k: int| lo <= k < i ==> s[k] != '.',
        i < s.len() ==> s[i] == '.',
    ensures
        first_dot_from(s, lo) == i,
    decreases i - lo,
{
    if lo < i {
        lemma_first_dot_from_found(s, lo + 1, i);
    }
}

pub(crate) proof fn lemma_first_dot_from_props(s: Seq<char>, lo: int)
    requires
        0 <= lo <= s.len(),
    ensures
        lo <= first_dot_from(s, lo) <= s.len(),
        forall|k: int| lo <= k < first_dot_from(s, lo) ==> s[k] != '.',
        first_dot_from(s, lo) < s.len() ==> s[first_dot_from(s, lo)] == '.',
    decreases s.len() - lo,
{
    if lo < s.len() && s[lo] != '.' {
        lemma_first_dot_from_props(s, lo + 1);
    }
}

proof fn lemma_alnum_run_found(s: Seq<char>, lo: int, i: int)
    requires
        0 <= lo <= i <= s.len(),
        forall|k: int| lo <= k < i ==> is_alnum(s[k]),
        i < s.len() ==> !is_alnum(s[i]),
    ensures
        alnum_run_from(s, lo) == i,
    decreases i - lo,
{
    if lo < i {
        lemma_alnum_run_found(s, lo + 1, i);
    }
}

fn is_letter_char(c: char) -> (r: bool)
    ensures
        r == is_letter(c),
{
    ('a' <= c && c <= 'z') || ('A' <= c && c <= 'Z')
}

fn is_digit_char_exec(c: char) -> (r: bool)
    ensures
        r == is_digit_char(c),
{
    '0' <= c && c <= '9'
}

fn is_alnum_char(c: char) -> (r: bool)
    ensures
        r == is_alnum(c),
{
    is_letter_char(c) || is_digit_char_exec(c)
}

/// The position of the first dot at or after `from`, or `n` if there is none.
fn find_dot_from(s: &str, from: usize, n: usize) -> (r: usize)
    requires
        n == s@.len(),
        from <= n,
    ensures
        from <= r <= n,
        r as int == first_dot_from(s@, from as int),
{
    let mut i = from;
    while i < n
        invariant
            n == s@.len(),
            from <= i <= n,
            forall|k: int| from <= k < i ==> s@[k] != '.',
        decreases n - i,
    {
        if s.get_char(i) == '.' {
            proof {
                lemma_first_dot_from_found(s@, from as int, i as int);
            }
            return i;
        }
        i += 1;
    }
    proof {
        lemma_first_dot_from_found(s@, from as int, n as int);
    }
    n
}

/// Whether the segment `[from, to)` is exactly the wildcard marker.
fn check_wildcard(s: &str, from: usize, to: usize) -> (r: bool)
    requires
        from <= to <= s@.len(),
    ensures
        r == is_wildcard_token(s@.subrange(from as int, to as int)),
{
    if to - from == 1 {
        let c = s.get_char(from);
        proof {
            assert(s@.subrange(from as int, to as int)[0] == s@[from as int]);
        }
        c == '%'
    } else {
        false
    }
}

/// Whether the segment `[from, to)` is a non-empty alphanumeric run.
fn check_plain(s: &str, from: usize, to: usize) -> (r: bool)
    requires
        from <= to <= s@.len(),
    ensures
        r == is_plain_token(s@.subrange(from as int, to as int)),
{
    if from == to {
        return false;
    }
    let mut i = from;
    while i < to
        invariant
            from <= i <= to <= s@.len(),
            forall|k: int| from <= k < i ==> is_alnum(#[trigger] s@[k]),
        decreases to - i,
    {
        let c = s.get_char(i);
        if !is_alnum_char(c) {
            proof {
                assert(s@.subrange(from as int, to as int)[i - from] == s@[i as int]);
            }
            return false;
        }
        i += 1;
    }
    proof {
        assert forall|k: int| 0 <= k < to - from implies is_alnum(
            #[trigger] s@.subrange(from as int, to as int)[k],
        ) by {
            assert(s@.subrange(from as int, to as int)[k] == s@[from + k]);
        }
    }
    true
}

/// Whether the segment `[from, to)` is acceptable at the show position.
fn check_show(s: &str, from: usize, to: usize) -> (r: bool)
    requires
        from <= to <= s@.len(),
    ensures
        r == valid_show_token(s@.subrange(from as int, to as int)),
{
    if check_wildcard(s, from, to) {
        return true;
    }
    if from == to {
        return false;
    }
    let c0 = s.get_char(from);
    proof {
        assert(s@.subrange(from as int, to as int)[0] == s@[from as int]);
    }
    if !is_letter_char(c0) {
        return false;
    }
    check_plain(s, from, to)
}

/// Whether the segment `[from, to)` is acceptable at the sequence or shot
/// position.
fn check_tail(s: &str, from: usize, to: usize) -> (r: bool)
    requires
        from <= to <= s@.len(),
    ensures
        r == valid_tail_token(s@.subrange(from as int, to as int)),
{
    if check_wildcard(s, from, to) {
        true
    } else {
        check_plain(s, from, to)
    }
}

/// Parse a whole levelspec string, trying the three alternatives of the
/// grammar: show.sequence.shot, show.sequence, show. Succeeds exactly on
/// the inputs [`grammar_ok`] accepts, and then returns the value
/// [`parse_model`] assigns to the input.
pub fn gen_levelspec(s: &str) -> (r: Result<LevelSpec, LSpecError>)
    ensures
        r is Ok <==> grammar_ok(s@),
        r matches Ok(lp) ==> lp@ == parse_model(s@) && lp@.wf(),
        r matches Err(e) ==> e is GrammarMismatch,
{
    let n = s.unicode_len();
    let d1 = find_dot_from(s, 0, n);
    if d1 == n {
        if check_show(s, 0, n) {
            proof {
                assert(s@.subrange(0, n as int) =~= s@);
            }
            Ok(LevelSpec::from_show(s))
        } else {
            proof {
                assert(s@.subrange(0, n as int) =~= s@);
            }
            Err(LSpecError::GrammarMismatch)
        }
    } else {
        let d2 = find_dot_from(s, d1 + 1, n);
        if d2 == n {
            if check_show(s, 0, d1) && check_tail(s, d1 + 1, n) {
                let show = s.substring_char(0, d1);
                let sequence = s.substring_char(d1 + 1, n);
                Ok(LevelSpec::from_sequence(show, sequence))
            } else {
                Err(LSpecError::GrammarMismatch)
            }
        } else {
            let d3 = find_dot_from(s, d2 + 1, n);
            if d3 == n && check_show(s, 0, d1) && check_tail(s, d1 + 1, d2)
                && check_tail(s, d2 + 1, n) {
                let show = s.substring_char(0, d1);
                let sequence = s.substring_char(d1 + 1, d2);
                let shot = s.substring_char(d2 + 1, n);
                Ok(LevelSpec::from_shot(show, sequence, shot))
            } else {
                Err(LSpecError::GrammarMismatch)
            }
        }
    }
}

/// The token rule of the show position, on its own: take the maximal
/// alphanumeric run at the head of the input, and accept it if it is
/// non-empty and does not start with a digit. On success, returns the
/// remaining input alongside the matched run.
pub fn alpha_alphanumeric(s: &str) -> (r: Option<(&str, &str)>)
    ensures
        ({
            let e = alnum_run_from(s@, 0);
            &&& (e == 0 ==> r is None)
            &&& (e > 0 && is_digit_char(s@[0]) ==> r is None)
            &&& (e > 0 && !is_digit_char(s@[0]) ==> (r matches Some(p) && p.0@ == s@.subrange(
                e,
                s@.len() as int,
            ) && p.1@ == s@.subrange(0, e)))
        }),
{
    let n = s.unicode_len();
    let e = alnum_run_end(s, n);
    if e == 0 {
        return None;
    }
    if is_digit_char_exec(s.get_char(0)) {
        return None;
    }
    let rest = s.substring_char(e, n);
    let matched = s.substring_char(0, e);
    Some((rest, matched))
}

/// No valid token contains the separator: the wildcard token is the single
/// character `%`, and a plain token holds only letters and digits.
proof fn lemma_token_no_dot(t: Seq<char>)
    requires
        valid_tail_token(t),
    ensures
        forall|k: int| 0 <= k < t.len() ==> #[trigger] t[k] != '.',
{
}

/// Every valid token is non-empty and holds only letters, digits, or the
/// wildcard marker.
proof fn lemma_token_chars(t: Seq<char>)
    requires
        valid_tail_token(t),
    ensures
        t.len() > 0,
        forall|k: int| 0 <= k < t.len() ==> is_alnum(#[trigger] t[k]) || t[k] == '%',
{
}

/// A single valid show token parses on its own: the whole input becomes the
/// show level, and the other levels are absent. In particular this holds of
/// the bare wildcard `%`.
pub proof fn lemma_parse_single(s: Seq<char>)
    requires
        valid_show_token(s),
    ensures
        grammar_ok(s),
        parse_model(s) == (LevelSpecView {
            show: token_view(s),
            sequence: LevelView::Absent,
            shot: LevelView::Absent,
        }),
{
    lemma_token_no_dot(s);
    lemma_first_dot_from_found(s, 0, s.len() as int);
}

/// A valid show token and a valid tail token, joined by the separator,
/// parse as a show and a sequence, with the shot absent.
pub proof fn lemma_parse_pair(a: Seq<char>, b: Seq<char>)
    requires
        valid_show_token(a),
        valid_tail_token(b),
    ensures
        grammar_ok(a + seq!['.'] + b),
        parse_model(a + seq!['.'] + b) == (LevelSpecView {
            show: token_view(a),
            sequence: token_view(b),
            shot: LevelView::Absent,
        }),
{
    let s = a + seq!['.'] + b;
    let n = s.len() as int;
    let la = a.len() as int;
    lemma_token_no_dot(a);
    lemma_token_no_dot(b);
    assert(s[la] == '.');
    assert forall|k: int| 0 <= k < la implies s[k] != '.' by {
        assert(s[k] == a[k]);
    }
    lemma_first_dot_from_found(s, 0, la);
    assert forall|k: int| la + 1 <= k < n implies s[k] != '.' by {
        assert(s[k] == b[k - la - 1]);
    }
    lemma_first_dot_from_found(s, la + 1, n);
    assert(s.subrange(0, la) =~= a);
    assert(s.subrange(la + 1, n) =~= b);
}

/// A valid show token and two valid tail tokens, joined by separators,
/// parse as a full show, sequence and shot.
pub proof fn lemma_parse_triple(a: Seq<char>, b: Seq<char>, c: Seq<char>)
    requires
        valid_show_token(a),
        valid_tail_token(b),
        valid_tail_token(c),
    ensures
        grammar_ok(a + seq!['.'] + b + seq!['.'] + c),
        parse_model(a + seq!['.'] + b + seq!['.'] + c) == (LevelSpecView {
            show: token_view(a),
            sequence: token_view(b),
            shot: token_view(c),
        }),
{
    let s = a + seq!['.'] + b + seq!['.'] + c;
    let n = s.len() as int;
    let la = a.len() as int;
    let lb = b.len() as int;
    lemma_token_no_dot(a);
    lemma_token_no_dot(b);
    lemma_token_no_dot(c);
    assert(s[la] == '.');
    assert(s[la + 1 + lb] == '.');
    assert forall|k: int| 0 <= k < la implies s[k] != '.' by {
        assert(s[k] == a[k]);
    }
    lemma_first_dot_from_found(s, 0, la);
    assert forall|k: int| la + 1 <= k < la + 1 + lb implies s[k] != '.' by {
        assert(s[k] == b[k - la - 1]);
    }
    lemma_first_dot_from_found(s, la + 1, la + 1 + lb);
    assert forall|k: int| la + lb + 2 <= k < n implies s[k] != '.' by {
        assert(s[k] == c[k - la - lb - 2]);
    }
    lemma_first_dot_from_found(s, la + 1 + lb + 1, n);
    assert(s.subrange(0, la) =~= a);
    assert(s.subrange(la + 1, la + 1 + lb) =~= b);
    assert(s.subrange(la + 1 + lb + 1, n) =~= c);
}

/// The shape every accepted input has: it is non-empty, starts with neither
/// a digit nor a separator, does not end with a separator, and holds only
/// letters, digits, separators and the wildcard marker. The contrapositive
/// rejects a leading digit, a trailing separator, and any illegal character.
pub proof fn lemma_accepted_shape(s: Seq<char>)
    requires
        grammar_ok(s),
    ensures
        s.len() > 0,
        !is_digit_char(s[0]),
        s[0] != '.',
        s[s.len() - 1] != '.',
        forall|k: int| 0 <= k < s.len() ==> is_alnum(#[trigger] s[k]) || s[k] == '.' || s[k]
            == '%',
{
    let n = s.len() as int;
    let i = first_dot_from(s, 0);
    lemma_first_dot_from_props(s, 0);
    if i == n {
        lemma_token_chars(s);
    } else {
        let j = first_dot_from(s, i + 1);
        lemma_first_dot_from_props(s, i + 1);
        let a = s.subrange(0, i);
        lemma_token_chars(a);
        assert(s[0] == a[0]);
        if j == n {
            let b = s.subrange(i + 1, n);
            lemma_token_chars(b);
            assert(s[n - 1] == b[n - 1 - (i + 1)]);
            assert forall|k: int| 0 <= k < n implies is_alnum(#[trigger] s[k]) || s[k] == '.'
                || s[k] == '%' by {
                if k < i {
                    assert(s[k] == a[k]);
                } else if k > i {
                    assert(s[k] == b[k - i - 1]);
                }
            }
        } else {
            lemma_first_dot_from_props(s, j + 1);
            let b = s.subrange(i + 1, j);
            let c = s.subrange(j + 1, n);
            lemma_token_chars(b);
            lemma_token_chars(c);
            assert(s[n - 1] == c[n - 1 - (j + 1)]);
            assert forall|k: int| 0 <= k < n implies is_alnum(#[trigger] s[k]) || s[k] == '.'
                || s[k] == '%' by {
                if k < i {
                    assert(s[k] == a[k]);
                } else if i < k && k < j {
                    assert(s[k] == b[k - i - 1]);
                } else if k > j {
                    assert(s[k] == c[k - j - 1]);
                }
            }
        }
    }
}

/// An input holding three separators conforms to no alternative: the
/// grammar admits at most three levels.
pub proof fn lemma_too_many_levels(s: Seq<char>, k1: int, k2: int, k3: int)
    requires
        0 <= k1 < k2 < k3 < s.len(),
        s[k1] == '.',
        s[k2] == '.',
        s[k3] == '.',
    ensures
        !grammar_ok(s),
{
    if grammar_ok(s) {
        let n = s.len() as int;
        let i = first_dot_from(s, 0);
        lemma_first_dot_from_props(s, 0);
        assert(i < n);
        let j = first_dot_from(s, i + 1);
        lemma_first_dot_from_props(s, i + 1);
        assert(j < n);
        lemma_first_dot_from_props(s, j + 1);
        assert forall|p: int| 0 <= p < n && s[p] == '.' implies p == i || p == j by {}
        assert(false);
    }
}

/// The end of the alphanumeric run at the head of the input.
fn alnum_run_end(s: &str, n: usize) -> (r: usize)
    requires
        n == s@.len(),
    ensures
        r <= n,
        r as int == alnum_run_from(s@, 0),
{
    let mut i: usize = 0;
    while i < n
        invariant
            n == s@.len(),
            i <= n,
            forall|k: int| 0 <= k < i ==> is_alnum(#[trigger] s@[k]),
        decreases n - i,
    {
        if !is_alnum_char(s.get_char(i)) {
            proof {
                lemma_alnum_run_found(s@, 0, i as int);
            }
            return i;
        }
        i += 1;
    }
    proof {
        lemma_alnum_run_found(s@, 0, n as int);
    }
    n
}

} // verus!
