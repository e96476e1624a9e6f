//! The introspector's own operation-level error.

use vstd::prelude::*;

verus! {

/// Raised when a whole operation cannot proceed, such as rendering without
/// an introspection result.  Its view is the message text.
#[derive(Debug)]
pub struct GQLInspectorError {
    message: String,
}

impl View for GQLInspectorError {
    type V = Seq<char>;

    closed spec fn view(&self) -> Seq<char> {
        self.message@
    }
}

impl GQLInspectorError {
    /// Wraps a message into an error value.
    pub fn new(msg: &str) -> (r: GQLInspectorError)
        ensures
            r@ == msg@,
    {
        GQLInspectorError { message: msg.to_owned() }
    }

    /// The message text, for display by the caller.
    pub fn message(&self) -> (r: &str)
        ensures
            r@ == self@,
    {
        self.message.as_str()
    }
}

} // verus!
