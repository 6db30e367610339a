//! Conditions that stop compilation or execution for good.
use vstd::prelude::*;
use vstd::string::StringExecFns;

verus! {

/// A condition that ends compilation at once.  None of them can be recovered
/// from; ordinary mistakes in the source text are diagnostics instead.
#[derive(Clone, Copy, Debug, PartialEq, Eq, Structural)]
pub enum Fatal {
    /// The source text ended while a token was being read.
    EndOfFile,
    /// More diagnostics were issued than the compiler tolerates.
    TooManyErrors,
    /// The name table is full.
    TooManyNames,
    /// Blocks are nested more deeply than the display has levels.
    TooManyNestedBlocks,
    /// The code buffer is full.
    TooManyCode,
    /// A constant is the target of an assignment: it has no address to
    /// store to.
    NoAddress,
    /// A condition has no relational operator: no instruction compares its
    /// two values.
    NoRelation,
    /// A production went on without reading on in the source text.  The
    /// model of the compiler ends so where it would not come to an end
    /// otherwise; the compiler itself never does.
    Stalled,
}

impl Fatal {
    /// The text of the message, as a sequence of characters.
    pub open spec fn text(self) -> Seq<char> {
        match self {
            Fatal::EndOfFile => "end of file"@,
            Fatal::TooManyErrors => "too many errors"@,
            Fatal::TooManyNames => "too many names"@,
            Fatal::TooManyNestedBlocks => "too many nested blocks"@,
            Fatal::TooManyCode => "too many code"@,
            Fatal::NoAddress => "assignment to a constant"@,
            Fatal::NoRelation => "condition without relation"@,
            Fatal::Stalled => "no progress"@,
        }
    }

    /// The one-line message that goes with the condition.
    pub fn message(&self) -> (s: String)
        ensures
            s@ == self.text(),
    {
        match self {
            Fatal::EndOfFile => String::from_str("end of file"),
            Fatal::TooManyErrors => String::from_str("too many errors"),
            Fatal::TooManyNames => String::from_str("too many names"),
            Fatal::TooManyNestedBlocks => String::from_str("too many nested blocks"),
            Fatal::TooManyCode => String::from_str("too many code"),
            Fatal::NoAddress => String::from_str("assignment to a constant"),
            Fatal::NoRelation => String::from_str("condition without relation"),
            Fatal::Stalled => String::from_str("no progress"),
        }
    }
}

} // verus!
