//! The failures a caller of the parser can receive.

use vstd::prelude::*;
use vstd::string::StringExecFns;

verus! {

/// Why a levelspec string was not accepted.
#[derive(Debug, Clone, Eq, PartialEq)]
pub enum LSpecError {
    /// The input conforms to none of the grammar's ordered alternatives:
    /// a full show.sequence.shot path, a show.sequence pair, or a bare show.
    GrammarMismatch,
    /// A lower-level text-processing failure, carried as its message.
    /// The grammar itself never produces this; it is kept for callers that
    /// wrap other failures in the same taxonomy.
    BoxedUnderlying(String),
}

impl LSpecError {
    /// A short human-readable account of the failure. A grammar mismatch
    /// names the ordered-alternative match that gave up.
    pub fn message(&self) -> (r: String)
        ensures
            self is GrammarMismatch ==> r@ == "Alternative"@,
            self matches LSpecError::BoxedUnderlying(m) ==> r@ == "Boxed Error '"@ + m@ + "'"@,
    {
        match self {
            LSpecError::GrammarMismatch => "Alternative".to_owned(),
            LSpecError::BoxedUnderlying(m) => {
                let r = "Boxed Error '".to_owned().concat(m.as_str()).concat("'");
                proof {
                    assert(r@ =~= "Boxed Error '"@ + m@ + "'"@);
                }
                r
            },
        }
    }
}

} // verus!
