use vstd::prelude::*;

verus! {

/// Failure raised by a host function while it is invoked through its
/// erased, shape-checked form.
#[derive(Debug, PartialEq, Eq)]
pub enum FnError {
    /// The function rejected a structurally broken input.
    Malformed(String),
    /// A cryptographic primitive reported a failure.
    Crypto(String),
    /// The function could not locate the data it needed.
    Unknown(String),
    /// The erased call itself went wrong: wrong arity or an argument of
    /// the wrong type shape.
    Impl(String),
}

/// Failure kinds propagated by the evaluator and the trace engine.
#[derive(Debug, PartialEq, Eq)]
pub enum Error {
    /// A host function failed or term evaluation failed inside a call.
    Fn(FnError),
    /// Variable resolution, symbol rebinding, or a shape mismatch failed.
    Term(String),
    /// The program-under-test could not be created or reset.
    Put(String),
    /// An underlying stream reported an I/O failure.
    IO(String),
    /// An agent lifecycle rule was violated.
    Agent(String),
    /// The deframer or a codec failed.
    Stream(String),
    /// Knowledge extraction could not decompose a message; recoverable.
    Extraction,
    /// The security policy reported a violation; fatal for the trace.
    SecurityClaim(String),
}

/// The message text of a host-function failure.
pub open spec fn fn_error_message(e: FnError) -> Seq<char> {
    match e {
        FnError::Malformed(m) => "malformed: "@ + m@,
        FnError::Crypto(m) => "crypto error: "@ + m@,
        FnError::Unknown(m) => "unknown data: "@ + m@,
        FnError::Impl(m) => "internal: "@ + m@,
    }
}

/// The message text of an evaluator or trace-engine failure.
pub open spec fn error_message(e: Error) -> Seq<char> {
    match e {
        Error::Fn(f) => "error while evaluating a term or executing a function symbol: "@
            + fn_error_message(f),
        Error::Term(m) => "error regarding a term: "@ + m@,
        Error::Put(m) => "error regarding the program under test: "@ + m@,
        Error::IO(m) => "error in io: "@ + m@,
        Error::Agent(m) => "error regarding an agent: "@ + m@,
        Error::Stream(m) => "error in the stream: "@ + m@,
        Error::Extraction => "error while extracting knowledge"@,
        Error::SecurityClaim(m) => "security claim violated: "@ + m@,
    }
}

impl FnError {
    /// Human-readable rendering of the failure.
    pub fn describe(&self) -> (r: String)
        ensures
            r@ == fn_error_message(*self),
    {
        let mut out: String;
        match self {
            FnError::Malformed(m) => {
                out = String::from_str("malformed: ");
                out.append(m.as_str());
            }
            FnError::Crypto(m) => {
                out = String::from_str("crypto error: ");
                out.append(m.as_str());
            }
            FnError::Unknown(m) => {
                out = String::from_str("unknown data: ");
                out.append(m.as_str());
            }
            FnError::Impl(m) => {
                out = String::from_str("internal: ");
                out.append(m.as_str());
            }
        }
        out
    }
}

impl Error {
    /// Human-readable rendering of the failure.
    pub fn describe(&self) -> (r: String)
        ensures
            r@ == error_message(*self),
    {
        let mut out: String;
        match self {
            Error::Fn(f) => {
                out = String::from_str(
                    "error while evaluating a term or executing a function symbol: ",
                );
                let inner = f.describe();
                out.append(inner.as_str());
            }
            Error::Term(m) => {
                out = String::from_str("error regarding a term: ");
                out.append(m.as_str());
            }
            Error::Put(m) => {
                out = String::from_str("error regarding the program under test: ");
                out.append(m.as_str());
            }
            Error::IO(m) => {
                out = String::from_str("error in io: ");
                out.append(m.as_str());
            }
            Error::Agent(m) => {
                out = String::from_str("error regarding an agent: ");
                out.append(m.as_str());
            }
            Error::Stream(m) => {
                out = String::from_str("error in the stream: ");
                out.append(m.as_str());
            }
            Error::Extraction => {
                out = String::from_str("error while extracting knowledge");
            }
            Error::SecurityClaim(m) => {
                out = String::from_str("security claim violated: ");
                out.append(m.as_str());
            }
        }
        out
    }
}

impl From<FnError> for Error {
    /// A failing host function aborts evaluation with `Error::Fn`.
    fn from(err: FnError) -> (r: Error) {
        Error::Fn(err)
    }
}

impl vstd::std_specs::convert::FromSpecImpl<FnError> for Error {
    open spec fn obeys_from_spec() -> bool {
        true
    }

    open spec fn from_spec(err: FnError) -> Error {
        Error::Fn(err)
    }
}

} // verus!
