//! The aggregate levelspec value: three levels and their accessors.

use vstd::prelude::*;
use vstd::string::StrSliceExecFns;

use crate::errors::LSpecError;
use crate::leveltype::{
    is_wildcard_token, lemma_token_renders_itself, token_view, LevelType, LevelView,
};
use crate::parse_string::{
    first_dot_from, gen_levelspec, grammar_ok, lemma_first_dot_from_props, parse_model,
};

verus! {

/// The mathematical model of a [`LevelSpec`]: one [`LevelView`] per level.
#[verifier::ext_equal]
pub struct LevelSpecView {
    pub show: LevelView,
    pub sequence: LevelView,
    pub shot: LevelView,
}

impl LevelSpecView {
    /// The shape every constructed levelspec has: the show level is present,
    /// a shot is never specified without a sequence, and no term holds the
    /// bare wildcard marker.
    pub open spec fn wf(self) -> bool {
        &&& !(self.show is Absent)
        &&& (self.sequence is Absent ==> self.shot is Absent)
        &&& (self.show matches LevelView::Term(t) ==> !is_wildcard_token(t))
        &&& (self.sequence matches LevelView::Term(t) ==> !is_wildcard_token(t))
        &&& (self.shot matches LevelView::Term(t) ==> !is_wildcard_token(t))
    }

    /// What [`LevelSpec::to_vec`] emits: always the show's rendering, the
    /// sequence's only if the sequence is present, and the shot's only if
    /// both sequence and shot are present.
    pub open spec fn vec_model(self) -> Seq<Seq<char>> {
        if self.sequence is Absent {
            seq![self.show.render()]
        } else if self.shot is Absent {
            seq![self.show.render(), self.sequence.render()]
        } else {
            seq![self.show.render(), self.sequence.render(), self.shot.render()]
        }
    }

    /// What [`LevelSpec::to_vec_str`] emits: levels in order, truncated at
    /// the first one whose rendering is empty. An absent level renders
    /// empty, so it truncates the output too, even when a later level is
    /// present.
    pub open spec fn vec_str_model(self) -> Seq<Seq<char>> {
        if self.show.render().len() == 0 {
            Seq::<Seq<char>>::empty()
        } else if self.sequence.render().len() == 0 {
            seq![self.show.render()]
        } else if self.shot.render().len() == 0 {
            seq![self.show.render(), self.sequence.render()]
        } else {
            seq![self.show.render(), self.sequence.render(), self.shot.render()]
        }
    }
}

/// The uppercase form of a character: ASCII lowercase letters are mapped to
/// their uppercase counterparts, every other character is left alone.
pub open spec fn to_upper_char(c: char) -> char {
    if 'a' <= c && c <= 'z' {
        ((c as u32) - 32) as char
    } else {
        c
    }
}

/// Character-wise uppercasing of a piece of text.
pub open spec fn upper_chars(t: Seq<char>) -> Seq<char> {
    Seq::new(t.len(), |i: int| to_upper_char(t[i]))
}

/// What uppercasing does to one level: a term's text is uppercased,
/// wildcard and absent levels are untouched.
pub open spec fn upper_level(v: LevelView) -> LevelView {
    match v {
        LevelView::Term(t) => LevelView::Term(upper_chars(t)),
        LevelView::Wildcard => LevelView::Wildcard,
        LevelView::Absent => LevelView::Absent,
    }
}

/// What [`LevelSpec::upper`] does to the whole value.
pub open spec fn upper_model(v: LevelSpecView) -> LevelSpecView {
    LevelSpecView {
        show: upper_level(v.show),
        sequence: upper_level(v.sequence),
        shot: upper_level(v.shot),
    }
}

/// LevelSpec models a shorthand describing one or more paths on disk,
/// characterized by show, sequence, and shot. This abstraction can be
/// thought of as mapping to something like `${ROOT}/show/sequence/shot`.
///
/// The derived ordering compares field by field: show, then sequence, then
/// shot, each by the ordering of [`LevelType`].
#[derive(Debug, Clone, Eq, PartialEq, PartialOrd, Ord)]
pub struct LevelSpec {
    show: LevelType,
    sequence: LevelType,
    shot: LevelType,
}

impl View for LevelSpec {
    type V = LevelSpecView;

    closed spec fn view(&self) -> LevelSpecView {
        LevelSpecView { show: self.show@, sequence: self.sequence@, shot: self.shot@ }
    }
}

/// Relies on String::push: appends the given character at the end of the
/// string, and does nothing else.
#[verifier::external_body]
fn push_char(s: &mut String, c: char)
    ensures
        final(s)@ == old(s)@.push(c),
{
    s.push(c);
}

/// Uppercase a piece of text character by character.
fn upper_str(t: &str) -> (r: String)
    ensures
        r@ == upper_chars(t@),
{
    let n = t.unicode_len();
    let mut out = String::new();
    let mut i: usize = 0;
    while i < n
        invariant
            n == t@.len(),
            i <= n,
            out@ =~= upper_chars(t@).subrange(0, i as int),
        decreases n - i,
    {
        let c = t.get_char(i);
        let u: char = if 'a' <= c && c <= 'z' {
            (((c as u8) - 32) as char)
        } else {
            c
        };
        proof {
            assert(u == to_upper_char(t@[i as int]));
        }
        push_char(&mut out, u);
        i += 1;
    }
    proof {
        assert(out@ =~= upper_chars(t@));
    }
    out
}

/// Uppercase one level, per [`upper_level`].
fn upper_level_of(lv: &LevelType) -> (r: LevelType)
    ensures
        r@ == upper_level(lv@),
{
    match lv {
        LevelType::Term(t) => LevelType::Term(upper_str(t.as_str())),
        LevelType::Wildcard => LevelType::Wildcard,
        LevelType::Absent => LevelType::Absent,
    }
}

impl LevelSpec {
    /// New up a levelspec by parsing the given string. Succeeds exactly on
    /// the inputs the grammar accepts, and then returns the value the
    /// grammar assigns to the input; any other input is a grammar mismatch.
    pub fn new(in_str: &str) -> (r: Result<LevelSpec, LSpecError>)
        ensures
            r is Ok <==> grammar_ok(in_str@),
            r matches Ok(lp) ==> lp@ == parse_model(in_str@) && lp@.wf(),
            r matches Err(e) ==> e is GrammarMismatch,
    {
        gen_levelspec(in_str)
    }

    /// Generate a LevelSpec from a provided show.
    pub fn from_show(show: &str) -> (r: LevelSpec)
        ensures
            r@ == (LevelSpecView {
                show: token_view(show@),
                sequence: LevelView::Absent,
                shot: LevelView::Absent,
            }),
            r@.wf(),
    {
        LevelSpec {
            show: LevelType::from_token(show),
            sequence: LevelType::Absent,
            shot: LevelType::Absent,
        }
    }

    /// New up a LevelSpec from a show and sequence.
    pub fn from_sequence(show: &str, sequence: &str) -> (r: LevelSpec)
        ensures
            r@ == (LevelSpecView {
                show: token_view(show@),
                sequence: token_view(sequence@),
                shot: LevelView::Absent,
            }),
            r@.wf(),
    {
        LevelSpec {
            show: LevelType::from_token(show),
            sequence: LevelType::from_token(sequence),
            shot: LevelType::Absent,
        }
    }

    /// New up a shot from a show, sequence, and shot.
    pub fn from_shot(show: &str, sequence: &str, shot: &str) -> (r: LevelSpec)
        ensures
            r@ == (LevelSpecView {
                show: token_view(show@),
                sequence: token_view(sequence@),
                shot: token_view(shot@),
            }),
            r@.wf(),
    {
        LevelSpec {
            show: LevelType::from_token(show),
            sequence: LevelType::from_token(sequence),
            shot: LevelType::from_token(shot),
        }
    }

    /// Convert the levelspec to uppercase, in place. Only terms change;
    /// wildcard and absent levels are untouched.
    pub fn upper(&mut self)
        ensures
            final(self)@ == upper_model(old(self)@),
            old(self)@.wf() ==> final(self)@.wf(),
    {
        self.show = upper_level_of(&self.show);
        self.sequence = upper_level_of(&self.sequence);
        self.shot = upper_level_of(&self.shot);
        proof {
            if old(self)@.wf() {
                lemma_upper_preserves_wf(old(self)@);
            }
        }
    }

    /// Retrieve the show's textual form if it exists. Otherwise return None.
    pub fn show(&self) -> (r: Option<&str>)
        ensures
            r is Some <==> !(self@.show is Absent),
            r matches Some(t) ==> t@ == self@.show.render(),
    {
        self.show.to_str()
    }

    /// Retrieve the sequence's textual form if it exists. Otherwise return None.
    pub fn sequence(&self) -> (r: Option<&str>)
        ensures
            r is Some <==> !(self@.sequence is Absent),
            r matches Some(t) ==> t@ == self@.sequence.render(),
    {
        self.sequence.to_str()
    }

    /// Retrieve the shot's textual form if it exists. Otherwise return None.
    pub fn shot(&self) -> (r: Option<&str>)
        ensures
            r is Some <==> !(self@.shot is Absent),
            r matches Some(t) ==> t@ == self@.shot.render(),
    {
        self.shot.to_str()
    }

    /// Return a vector of Strings representing the levels, per
    /// [`LevelSpecView::vec_model`].
    pub fn to_vec(&self) -> (r: Vec<String>)
        ensures
            r.deep_view() == self@.vec_model(),
    {
        let mut ret: Vec<String> = Vec::new();
        ret.push(self.show.to_string());
        if !self.sequence.is_none() {
            ret.push(self.sequence.to_string());
            if !self.shot.is_none() {
                ret.push(self.shot.to_string());
            }
        }
        proof {
            assert(ret.deep_view() =~~= self@.vec_model());
        }
        ret
    }

    /// Convert to a vector of borrowed strs, stopping at the first level
    /// that renders empty or is absent, per
    /// [`LevelSpecView::vec_str_model`].
    pub fn to_vec_str<'a>(&'a self) -> (r: Vec<&'a str>)
        ensures
            r.deep_view() == self@.vec_str_model(),
    {
        let mut vec_strs: Vec<&'a str> = Vec::new();
        if let Some(show) = self.show.to_str() {
            if !show.is_empty() {
                vec_strs.push(show);
                if let Some(sequence) = self.sequence.to_str() {
                    if !sequence.is_empty() {
                        vec_strs.push(sequence);
                        if let Some(shot) = self.shot.to_str() {
                            if !shot.is_empty() {
                                vec_strs.push(shot);
                            }
                        }
                    }
                }
            }
        }
        proof {
            assert(vec_strs.deep_view() =~~= self@.vec_str_model());
        }
        vec_strs
    }
}

/// The dot-joined form of a sequence of rendered levels.
pub open spec fn join_dots(parts: Seq<Seq<char>>) -> Seq<char>
    decreases parts.len(),
{
    if parts.len() == 0 {
        Seq::<char>::empty()
    } else if parts.len() == 1 {
        parts[0]
    } else {
        parts[0] + seq!['.'] + join_dots(parts.drop_first())
    }
}

/// Round trip: the strings a parsed levelspec emits, joined back with the
/// separator, reproduce the parsed input exactly. Wildcard levels render as
/// the marker itself, so this holds of them too.
pub proof fn lemma_round_trip(s: Seq<char>)
    requires
        grammar_ok(s),
    ensures
        join_dots(parse_model(s).vec_model()) == s,
{
    let n = s.len() as int;
    let i = first_dot_from(s, 0);
    lemma_first_dot_from_props(s, 0);
    if i == n {
        lemma_token_renders_itself(s);
    } else {
        let j = first_dot_from(s, i + 1);
        lemma_first_dot_from_props(s, i + 1);
        let a = s.subrange(0, i);
        lemma_token_renders_itself(a);
        if j == n {
            let b = s.subrange(i + 1, n);
            lemma_token_renders_itself(b);
            let parts = parse_model(s).vec_model();
            assert(parts =~= seq![a, b]);
            assert(parts.drop_first() =~= seq![b]);
            assert(join_dots(seq![b]) == b);
            assert(join_dots(parts) == a + seq!['.'] + b);
            assert(a + seq!['.'] + b =~= s);
        } else {
            lemma_first_dot_from_props(s, j + 1);
            let b = s.subrange(i + 1, j);
            let c = s.subrange(j + 1, n);
            lemma_token_renders_itself(b);
            lemma_token_renders_itself(c);
            let parts = parse_model(s).vec_model();
            assert(parts =~= seq![a, b, c]);
            assert(parts.drop_first() =~= seq![b, c]);
            assert(parts.drop_first().drop_first() =~= seq![c]);
            assert(join_dots(seq![c]) == c);
            assert(join_dots(seq![b, c]) == b + seq!['.'] + c) by {
                assert(seq![b, c].drop_first() =~= seq![c]);
            }
            assert(join_dots(parts) == a + seq!['.'] + (b + seq!['.'] + c));
            assert(a + seq!['.'] + (b + seq!['.'] + c) =~= s);
        }
    }
}

/// Uppercasing is idempotent: a second pass changes nothing, because the
/// uppercase form of a character is never a lowercase letter.
pub proof fn lemma_upper_idempotent(v: LevelSpecView)
    ensures
        upper_model(upper_model(v)) == upper_model(v),
{
    lemma_upper_level_idempotent(v.show);
    lemma_upper_level_idempotent(v.sequence);
    lemma_upper_level_idempotent(v.shot);
}

proof fn lemma_upper_level_idempotent(v: LevelView)
    ensures
        upper_level(upper_level(v)) == upper_level(v),
{
    if let LevelView::Term(t) = v {
        assert(upper_chars(upper_chars(t)) =~= upper_chars(t));
    }
}

/// A level holding no lowercase letter in any term.
pub open spec fn level_has_no_lowercase(v: LevelView) -> bool {
    v matches LevelView::Term(t) ==> forall|i: int|
        0 <= i < t.len() ==> !('a' <= #[trigger] t[i] && t[i] <= 'z')
}

/// Uppercasing a value already free of lowercase letters is a no-op.
pub proof fn lemma_upper_noop_when_uppercase(v: LevelSpecView)
    requires
        level_has_no_lowercase(v.show),
        level_has_no_lowercase(v.sequence),
        level_has_no_lowercase(v.shot),
    ensures
        upper_model(v) == v,
{
    lemma_upper_level_noop(v.show);
    lemma_upper_level_noop(v.sequence);
    lemma_upper_level_noop(v.shot);
    assert(upper_model(v) =~= v);
}

proof fn lemma_upper_level_noop(v: LevelView)
    requires
        level_has_no_lowercase(v),
    ensures
        upper_level(v) == v,
{
    if let LevelView::Term(t) = v {
        assert(upper_chars(t) =~= t);
    }
}

/// Uppercasing keeps the well-formed shape: it maps no term to the bare
/// wildcard marker, and it never changes which levels are present.
proof fn lemma_upper_preserves_wf(v: LevelSpecView)
    requires
        v.wf(),
    ensures
        upper_model(v).wf(),
{
    lemma_upper_level_not_wildcard(v.show);
    lemma_upper_level_not_wildcard(v.sequence);
    lemma_upper_level_not_wildcard(v.shot);
}

proof fn lemma_upper_level_not_wildcard(v: LevelView)
    requires
        v matches LevelView::Term(t) ==> !is_wildcard_token(t),
    ensures
        upper_level(v) matches LevelView::Term(t) ==> !is_wildcard_token(t),
{
    if let LevelView::Term(t) = v {
        if is_wildcard_token(upper_chars(t)) {
            assert(t.len() == 1);
            assert(to_upper_char(t[0]) == '%');
            assert(t[0] == '%');
            assert(is_wildcard_token(t));
        }
    }
}

} // verus!

