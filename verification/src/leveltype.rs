//! The value occupying one level of a levelspec: a concrete term, the
//! wildcard marker `%`, or nothing at all.

use vstd::prelude::*;
use vstd::string::StrSliceExecFns;

verus! {

/// A valid input describing a level within the levelspec.
///
/// The derived ordering compares variants in declaration order:
/// `Term(_) < Wildcard < Absent`, with two `Term`s ordered by their text.
#[derive(Debug, Clone, Eq, PartialEq, PartialOrd, Ord)]
pub enum LevelType {
    Term(String),
    Wildcard,
    Absent,
}

/// The mathematical model of a [`LevelType`]: the term's characters, the
/// wildcard marker, or absence.
#[verifier::ext_equal]
pub enum LevelView {
    Term(Seq<char>),
    Wildcard,
    Absent,
}

impl View for LevelType {
    type V = LevelView;

    open spec fn view(&self) -> LevelView {
        match self {
            LevelType::Term(s) => LevelView::Term(s@),
            LevelType::Wildcard => LevelView::Wildcard,
            LevelType::Absent => LevelView::Absent,
        }
    }
}

pub open spec fn is_letter(c: char) -> bool {
    ('a' <= c && c <= 'z') || ('A' <= c && c <= 'Z')
}

pub open spec fn is_digit_char(c: char) -> bool {
    '0' <= c && c <= '9'
}

pub open spec fn is_alnum(c: char) -> bool {
    is_letter(c) || is_digit_char(c)
}

/// A non-empty run of ASCII letters and digits: the token form accepted at
/// the sequence and shot positions.
pub open spec fn is_plain_token(t: Seq<char>) -> bool {
    t.len() > 0 && (forall|i: int| 0 <= i < t.len() ==> is_alnum(#[trigger] t[i]))
}

/// A plain token whose first character is a letter: the token form accepted
/// at the show position.
pub open spec fn is_show_token(t: Seq<char>) -> bool {
    is_plain_token(t) && is_letter(t[0])
}

/// Exactly the single wildcard marker `%`.
pub open spec fn is_wildcard_token(t: Seq<char>) -> bool {
    t.len() == 1 && t[0] == '%'
}

/// What the show position accepts: a wildcard or a letter-led token.
pub open spec fn valid_show_token(t: Seq<char>) -> bool {
    is_wildcard_token(t) || is_show_token(t)
}

/// What the sequence and shot positions accept: a wildcard or a plain token.
pub open spec fn valid_tail_token(t: Seq<char>) -> bool {
    is_wildcard_token(t) || is_plain_token(t)
}

/// How a piece of input text becomes a level: exactly `%` becomes the
/// wildcard, anything else becomes a term. A term therefore never holds the
/// bare wildcard marker.
pub open spec fn token_view(t: Seq<char>) -> LevelView {
    if is_wildcard_token(t) {
        LevelView::Wildcard
    } else {
        LevelView::Term(t)
    }
}

impl LevelView {
    /// The textual form of the level: a term's own characters, `%` for the
    /// wildcard, and the empty sequence for an absent level.
    pub open spec fn render(self) -> Seq<char> {
        match self {
            LevelView::Term(t) => t,
            LevelView::Wildcard => seq!['%'],
            LevelView::Absent => Seq::<char>::empty(),
        }
    }
}

/// A valid token denotes a level that renders back to the token itself:
/// a term keeps its text, and the wildcard token renders as `%`, which is
/// the token's own text. Such a level is never absent.
pub proof fn lemma_token_renders_itself(t: Seq<char>)
    requires
        valid_tail_token(t),
    ensures
        token_view(t).render() == t,
        !(token_view(t) is Absent),
{
    if is_wildcard_token(t) {
        assert(seq!['%'] =~= t);
    }
}

impl LevelType {
    /// Build a level from input text, routing exactly `"%"` to `Wildcard`
    /// and any other text to `Term`.
    pub fn from_token(t: &str) -> (r: LevelType)
        ensures
            r@ == token_view(t@),
    {
        let n = t.unicode_len();
        if n == 1 && t.get_char(0) == '%' {
            LevelType::Wildcard
        } else {
            LevelType::Term(t.to_owned())
        }
    }

    /// Convert to a string: a term's own text, `"%"` for the wildcard, and
    /// the empty string for an absent level.
    pub fn to_string(&self) -> (r: String)
        ensures
            r@ == self@.render(),
    {
        match self {
            LevelType::Term(val) => val.clone(),
            LevelType::Wildcard => {
                let r = "%".to_owned();
                proof {
                    reveal_strlit("%");
                    assert(r@ =~= seq!['%']);
                }
                r
            },
            LevelType::Absent => String::new(),
        }
    }

    /// Convert to a borrowed str: the rendered text, or `None` for an
    /// absent level.
    pub fn to_str(&self) -> (r: Option<&str>)
        ensures
            r is Some <==> !(self@ is Absent),
            r matches Some(t) ==> t@ == self@.render(),
    {
        match self {
            LevelType::Term(val) => Some(val.as_str()),
            LevelType::Wildcard => {
                let t = "%";
                proof {
                    reveal_strlit("%");
                    assert(t@ =~= seq!['%']);
                }
                Some(t)
            },
            LevelType::Absent => None,
        }
    }

    pub fn is_term(&self) -> (r: bool)
        ensures
            r == (self@ is Term),
    {
        match self {
            LevelType::Term(_) => true,
            _ => false,
        }
    }

    pub fn is_wildcard(&self) -> (r: bool)
        ensures
            r == (self@ is Wildcard),
    {
        match self {
            LevelType::Wildcard => true,
            _ => false,
        }
    }

    pub fn is_none(&self) -> (r: bool)
        ensures
            r == (self@ is Absent),
    {
        match self {
            LevelType::Absent => true,
            _ => false,
        }
    }
}

} // verus!
