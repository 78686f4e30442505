//! A structured payload in its encoded form.

use vstd::prelude::*;
use vstd::string::*;

verus! {

/// Encoded text of a structured payload. The text is carried as it is and never
/// looked into.
#[allow(clippy::upper_case_acronyms)]
#[derive(Debug)]
pub struct JSON(String);

impl View for JSON {
    type V = Seq<char>;

    closed spec fn view(&self) -> Seq<char> {
        self.0@
    }
}

impl JSON {
    /// Takes `text` as encoded payload without checking it.
    pub fn from_str_unchecked(text: &str) -> (r: Self)
        ensures
            r@ == text@,
    {
        JSON(String::from_str(text))
    }

    /// Returns the number of bytes of the encoded text.
    pub fn content_length(&self) -> (n: usize)
        ensures
            n == vstd::utf8::encode_utf8(self@).len(),
    {
        self.0.as_str().as_bytes().len()
    }

    /// Returns the encoded text.
    pub fn response_format(&self) -> (r: &str)
        ensures
            r@ == self@,
    {
        self.0.as_str()
    }
}

} // verus!
