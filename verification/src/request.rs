use crate::session::pair_views;
use vstd::prelude::*;
use vstd::string::*;

verus! {

/// A request that the caller is to send: `GET url`, with these headers.
#[derive(Debug)]
pub struct Request {
    pub url: String,
    pub headers: Vec<(String, String)>,
}

/// What a `Request` holds.
pub struct RequestView {
    pub url: Seq<char>,
    pub headers: Seq<(Seq<char>, Seq<char>)>,
}

impl View for Request {
    type V = RequestView;

    open spec fn view(&self) -> RequestView {
        RequestView { url: self.url@, headers: pair_views(self.headers@) }
    }
}

/// Whether a status is one of 200 to 299.
pub open spec fn is_success(status: u16) -> bool {
    200 <= status < 300
}

/// Whether `status` is one of 200 to 299.
pub fn is_success_status(status: u16) -> (success: bool)
    ensures
        success == is_success(status),
{
    200 <= status && status < 300
}

} // verus!
