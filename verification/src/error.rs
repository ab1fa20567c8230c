//! The error that handlers and the connection loop pass along: a message and,
//! optionally, the error that caused it.

use crate::text::push_text;
use vstd::prelude::*;

verus! {

/// Why the store could not serve a call.
#[derive(Debug, Clone, Copy, PartialEq, Eq, Structural)]
pub enum StorageError {
    /// The lock of the table is poisoned: a thread panicked while it held it.
    StorageUnavailable,
}

impl StorageError {
    /// What the error says.
    pub open spec fn text(self) -> Seq<char> {
        "storage unavailable: the lock of the table is poisoned"@
    }

    /// What the error says.
    pub fn to_string(&self) -> (r: String)
        ensures
            r@ == self.text(),
    {
        "storage unavailable: the lock of the table is poisoned".to_owned()
    }

    /// The error as the cause of a failure that `context` describes.
    pub fn in_context(self, context: &str) -> (r: AnyErr)
        ensures
            r.message@ == context@,
            r.source matches Some(cause) && cause.message@ == self.text() && cause.source is None,
    {
        AnyErr::wrap(context.to_owned(), AnyErr::new(self.to_string().as_str()))
    }
}

/// An error with the chain of errors that led to it.
pub struct AnyErr {
    pub message: String,
    pub source: Option<Box<AnyErr>>,
}

/// One "Caused by" paragraph for each error of a chain, outermost first.
pub open spec fn causes_text(e: Option<Box<AnyErr>>) -> Seq<char>
    decreases e,
{
    match e {
        None => Seq::<char>::empty(),
        Some(cause) => "Caused by:\n\t"@ + cause.message@ + "\n"@ + causes_text(cause.source),
    }
}

/// The number of errors in a chain.
pub open spec fn chain_length(e: Option<Box<AnyErr>>) -> nat
    decreases e,
{
    match e {
        None => 0,
        Some(cause) => 1 + chain_length(cause.source),
    }
}

impl AnyErr {
    /// The full report: the message, then every cause in turn.
    pub open spec fn report(&self) -> Seq<char> {
        "Error: "@ + self.message@ + "\n"@ + causes_text(self.source)
    }

    /// An error without a cause.
    pub fn new(message: &str) -> (r: AnyErr)
        ensures
            r.message@ == message@,
            r.source is None,
    {
        AnyErr { message: message.to_owned(), source: None }
    }

    /// An error caused by `error`.
    pub fn wrap(message: String, error: AnyErr) -> (r: AnyErr)
        ensures
            r.message@ == message@,
            r.source == Some(Box::new(error)),
            chain_length(r.source) == 1 + chain_length(error.source),
    {
        AnyErr { message, source: Some(Box::new(error)) }
    }

    /// The error that caused this one, if any.
    pub fn source(&self) -> (r: Option<&AnyErr>)
        ensures
            match r {
                Some(cause) => self.source == Some(Box::new(*cause)),
                None => self.source is None,
            },
    {
        match &self.source {
            Some(cause) => Some(&**cause),
            None => None,
        }
    }

    /// The message alone.
    pub fn to_string(&self) -> (r: String)
        ensures
            r@ == self.message@,
    {
        self.message.clone()
    }

    /// The message followed by the chain of causes, one paragraph each.
    pub fn debug_string(&self) -> (r: String)
        ensures
            r@ == self.report(),
    {
        let mut out = "Error: ".to_owned();
        push_text(&mut out, self.message.as_str());
        push_text(&mut out, "\n");
        push_causes(&mut out, &self.source);
        out
    }
}

fn push_causes(out: &mut String, e: &Option<Box<AnyErr>>)
    ensures
        final(out)@ == old(out)@ + causes_text(*e),
    decreases e,
{
    match e {
        None => {},
        Some(cause) => {
            push_text(out, "Caused by:\n\t");
            push_text(out, cause.message.as_str());
            push_text(out, "\n");
            push_causes(out, &cause.source);
        },
    }
}

} // verus!
