use vstd::prelude::*;
use vstd::string::*;

verus! {

/// The failures that statement processing surfaces to its caller.
///
/// Every error aborts the current file's import: a file either fully
/// succeeds (every data row becomes a transaction) or fully fails.
#[derive(Debug, Clone)]
pub enum StmtError {
    /// The file cannot be decoded, a required column is missing, a field
    /// fails to parse as a date or a number, or the file name is too short
    /// to derive a source code.
    FormatError { message: String },
    /// The expected header marker was not found in a spreadsheet statement:
    /// the layout changed, or the wrong processor was selected.
    FormatNotRecognizedError,
    /// A registry lookup was made with an unknown statement-type key.
    UnsupportedStatementTypeError { key: String },
}

/// Classification of an error by its kind alone, ignoring its message.
#[derive(Clone, Copy, PartialEq, Eq, Structural, Debug)]
pub enum ErrKind {
    Format,
    NotRecognized,
    Unsupported,
}

pub open spec fn err_kind_of(e: StmtError) -> ErrKind {
    match e {
        StmtError::FormatError { .. } => ErrKind::Format,
        StmtError::FormatNotRecognizedError => ErrKind::NotRecognized,
        StmtError::UnsupportedStatementTypeError { .. } => ErrKind::Unsupported,
    }
}

/// A `FormatError` with the given message.
pub fn format_error(m: &str) -> (r: StmtError)
    ensures
        r matches StmtError::FormatError { message } && message@ == m@,
{
    StmtError::FormatError { message: m.to_owned() }
}

impl StmtError {
    /// A human-readable description of the error.
    pub fn message(&self) -> (r: String)
        ensures
            self matches StmtError::FormatError { message } ==> r@ == message@,
            self is FormatNotRecognizedError ==> r@ == "statement format not recognized"@,
            self matches StmtError::UnsupportedStatementTypeError { key } ==> r@
                == "Unsupported statement type: "@ + key@,
    {
        match self {
            StmtError::FormatError { message } => message.clone(),
            StmtError::FormatNotRecognizedError => String::from_str(
                "statement format not recognized",
            ),
            StmtError::UnsupportedStatementTypeError { key } => {
                let mut r = String::new();
                r.append("Unsupported statement type: ");
                r.append(key.as_str());
                proof {
                    assert(r@ =~= "Unsupported statement type: "@ + key@);
                }
                r
            },
        }
    }
}

} // verus!
