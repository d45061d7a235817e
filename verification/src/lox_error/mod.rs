use vstd::prelude::*;
use vstd::string::StringExecFns;
use crate::text::{decimal, push_decimal};

verus! {

/// A diagnosable failure: the line it was found on and what went wrong.
#[derive(Debug, Clone)]
pub struct LoxError {
    pub message: String,
    pub line: usize,
}

/// The mathematical content of a [`LoxError`].
pub struct LoxErrorView {
    pub message: Seq<char>,
    pub line: usize,
}

impl View for LoxError {
    type V = LoxErrorView;

    open spec fn view(&self) -> LoxErrorView {
        LoxErrorView { message: self.message@, line: self.line }
    }
}

impl LoxErrorView {
    /// The text under which the error is reported.
    pub open spec fn rendered(self) -> Seq<char> {
        "[line "@ + decimal(self.line as nat) + "] Error: "@ + self.message
    }
}

impl LoxError {
    pub fn new(line: usize, message: String) -> (error: LoxError)
        ensures
            error@ == (LoxErrorView { message: message@, line }),
    {
        LoxError { message, line }
    }

    /// The report line for this error.
    pub fn to_string(&self) -> (s: String)
        ensures
            s@ == self@.rendered(),
    {
        let mut out = String::from_str("[line ");
        push_decimal(&mut out, self.line);
        out.append("] Error: ");
        out.append(self.message.as_str());
        out
    }
}

/// The views of a sequence of errors.
pub open spec fn error_views(errors: Seq<LoxError>) -> Seq<LoxErrorView> {
    errors.map_values(|e: LoxError| e@)
}

/// A copy of `errors`.
pub fn copy_errors(errors: &Vec<LoxError>) -> (copy: Vec<LoxError>)
    ensures
        error_views(copy@) == error_views(errors@),
{
    let mut copy: Vec<LoxError> = Vec::new();
    let mut i: usize = 0;
    while i < errors.len()
        invariant
            i <= errors.len(),
            error_views(copy@) == error_views(errors@.take(i as int)),
        decreases errors.len() - i,
    {
        let error = LoxError::new(errors[i].line, errors[i].message.clone());
        let ghost before = copy@;
        copy.push(error);
        proof {
            assert(error@ == errors@[i as int]@);
            assert(errors@.take(i + 1) =~= errors@.take(i as int).push(errors@[i as int]));
            assert(error_views(copy@) =~= error_views(before).push(error@));
            assert(error_views(errors@.take(i + 1)) =~= error_views(errors@.take(i as int)).push(
                errors@[i as int]@,
            ));
        }
        i = i + 1;
    }
    assert(errors@.take(errors.len() as int) =~= errors@);
    copy
}

} // verus!
