//! The envelope that every outcome shown to a client resolves to.

use vstd::prelude::*;

verus! {

/// A numeric code with a short message.
#[derive(Debug, PartialEq, Eq)]
pub struct SimpleResponse {
    pub code: u16,
    pub message: String,
}

/// The mathematical value of a [`SimpleResponse`].
pub struct SimpleResponseView {
    pub code: u16,
    pub message: Seq<char>,
}

impl View for SimpleResponse {
    type V = SimpleResponseView;

    open spec fn view(&self) -> SimpleResponseView {
        SimpleResponseView { code: self.code, message: self.message@ }
    }
}

impl Clone for SimpleResponse {
    fn clone(&self) -> (r: Self)
        ensures
            r@ == self@,
    {
        SimpleResponse { code: self.code, message: self.message.clone() }
    }
}

} // verus!
