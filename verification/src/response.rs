//! The wire response that every handler produces: a status code, a list of
//! headers, and a body. The transport layer only copies it out.

use vstd::prelude::*;

verus! {

#[derive(Debug)]
pub struct HttpResponse {
    pub status: u16,
    pub headers: Vec<(Vec<u8>, Vec<u8>)>,
    pub body: Vec<u8>,
}

/// The headers as mathematical pairs.
pub open spec fn headers_view(hs: Seq<(Vec<u8>, Vec<u8>)>) -> Seq<(Seq<u8>, Seq<u8>)> {
    hs.map_values(|h: (Vec<u8>, Vec<u8>)| (h.0@, h.1@))
}

impl HttpResponse {
    pub open spec fn header_seq(&self) -> Seq<(Seq<u8>, Seq<u8>)> {
        headers_view(self.headers@)
    }
}

/// A bare status, as `HEAD /` and missing keys answer.
pub fn status_only(status: u16) -> (r: HttpResponse)
    ensures
        r.status == status,
        r.header_seq() == Seq::<(Seq<u8>, Seq<u8>)>::empty(),
        r.body@ == Seq::<u8>::empty(),
{
    let r = HttpResponse { status, headers: Vec::new(), body: Vec::new() };
    proof {
        assert(r.header_seq() =~= Seq::<(Seq<u8>, Seq<u8>)>::empty());
    }
    r
}

} // verus!
