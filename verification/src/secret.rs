//! Secret values that cannot be printed by accident.

use vstd::prelude::*;

verus! {

/// A value that must never reach a log line, an error message or a
/// backtrace. It has no `Display` and no `Debug`: the two printable forms
/// are fixed placeholders, and the only way to obtain the real string is
/// to ask for it by name.
#[derive(Clone, PartialEq, Eq)]
pub struct Secret {
    value: String,
}

impl View for Secret {
    type V = Seq<char>;

    closed spec fn view(&self) -> Seq<char> {
        self.value@
    }
}

impl Secret {
    /// Wraps `value`.
    pub fn new(value: &str) -> (r: Self)
        ensures
            r@ == value@,
    {
        Secret { value: value.to_owned() }
    }

    /// The plaintext. Every call site is a place a secret could leak, so
    /// the name is deliberately ugly.
    pub fn expose(&self) -> (r: &str)
        ensures
            r@ == self@,
    {
        self.value.as_str()
    }

    /// What a secret shows where a value would be displayed.
    pub fn display_text(&self) -> (r: String)
        ensures
            r@ == "***"@,
    {
        String::from_str("***")
    }

    /// What a secret shows where a value would be debug-printed.
    pub fn debug_text(&self) -> (r: String)
        ensures
            r@ == "Secret(***)"@,
    {
        String::from_str("Secret(***)")
    }
}

} // verus!
