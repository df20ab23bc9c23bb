//! A small error type that carries a message, and a way to add context to
//! the error of a `Result`.
use vstd::prelude::*;

verus! {

/// An error described by its message.
#[derive(Debug)]
pub struct SmallError(pub String);

/// Results whose error is a message.
pub type SmallResult<T> = Result<T, SmallError>;

impl View for SmallError {
    type V = Seq<char>;

    open spec fn view(&self) -> Seq<char> {
        self.0@
    }
}

impl SmallError {
    /// The message of the error.
    pub fn message(&self) -> (m: &str)
        ensures
            m@ == self@,
    {
        self.0.as_str()
    }
}

impl From<String> for SmallError {
    fn from(message: String) -> (e: SmallError) {
        SmallError(message)
    }
}

impl vstd::std_specs::convert::FromSpecImpl<String> for SmallError {
    open spec fn obeys_from_spec() -> bool {
        true
    }

    open spec fn from_spec(message: String) -> SmallError {
        SmallError(message)
    }
}

/// A message preceded by its context: `"<context>: <message>"`.
pub open spec fn in_context(context: Seq<char>, message: Seq<char>) -> Seq<char> {
    context + seq![':', ' '] + message
}

/// A result with its error replaced by the error's message.
pub open spec fn message_of<T>(r: Result<T, SmallError>) -> Result<T, Seq<char>> {
    match r {
        Ok(v) => Ok(v),
        Err(e) => Err(e@),
    }
}

/// Adding context to the error of a result.
pub trait ResultExtDisplay<T>: Sized {
    /// The result with its error message put in `context`.
    spec fn with_context(self, context: Seq<char>) -> Result<T, Seq<char>>;

    /// Keeps a success; turns an error into a `SmallError` whose message
    /// names `context` first.
    fn context(self, context: &str) -> (r: Result<T, SmallError>)
        ensures
            message_of(r) == self.with_context(context@),
    ;
}

impl<T> ResultExtDisplay<T> for Result<T, String> {
    open spec fn with_context(self, context: Seq<char>) -> Result<T, Seq<char>> {
        match self {
            Ok(v) => Ok(v),
            Err(e) => Err(in_context(context, e@)),
        }
    }

    fn context(self, context: &str) -> (r: Result<T, SmallError>) {
        match self {
            Ok(v) => Ok(v),
            Err(e) => {
                let mut message = context.to_owned();
                message.push(':');
                message.push(' ');
                message.append(e.as_str());
                assert(message@ == in_context(context@, e@));
                Err(SmallError(message))
            },
        }
    }
}

impl<T> ResultExtDisplay<T> for Result<T, SmallError> {
    open spec fn with_context(self, context: Seq<char>) -> Result<T, Seq<char>> {
        match self {
            Ok(v) => Ok(v),
            Err(e) => Err(in_context(context, e@)),
        }
    }

    fn context(self, context: &str) -> (r: Result<T, SmallError>) {
        match self {
            Ok(v) => Ok(v),
            Err(e) => Err(e.0).context(context),
        }
    }
}

} // verus!
