//! The structured protocol error: a machine-readable code, a message, and
//! the status it travels with, rendered as a small XML document.

use vstd::prelude::*;

use crate::response::HttpResponse;
use crate::xml::{
    close_tag, lit_application_xml, lit_application_xml_vec, lit_code, lit_code_vec,
    lit_content_type, lit_content_type_vec, lit_error, lit_error_vec, lit_message,
    lit_message_vec, open_tag, push_close_tag, push_leaf, push_open_tag, render_leaf,
};

verus! {

#[derive(Debug)]
pub struct S3Error {
    pub code: Vec<u8>,
    pub message: Vec<u8>,
    pub status: u16,
}

/// The XML document an error is reported as.
pub open spec fn render_error(message: Seq<u8>, code: Seq<u8>) -> Seq<u8> {
    open_tag(lit_error()) + render_leaf(lit_message(), message) + render_leaf(lit_code(), code)
        + close_tag(lit_error())
}

impl S3Error {
    /// Turns the error into its wire response: the carried status, an XML
    /// content type, and the rendered error document.
    pub fn into_response(self) -> (r: HttpResponse)
        ensures
            r.status == self.status,
            r.header_seq() == seq![(lit_content_type(), lit_application_xml())],
            r.body@ == render_error(self.message@, self.code@),
    {
        let mut body: Vec<u8> = Vec::new();
        let error_tag = lit_error_vec();
        push_open_tag(&mut body, &error_tag);
        push_leaf(&mut body, &lit_message_vec(), &self.message);
        push_leaf(&mut body, &lit_code_vec(), &self.code);
        push_close_tag(&mut body, &error_tag);
        proof {
            assert(body@ =~= render_error(self.message@, self.code@));
        }
        let mut headers: Vec<(Vec<u8>, Vec<u8>)> = Vec::new();
        headers.push((lit_content_type_vec(), lit_application_xml_vec()));
        let r = HttpResponse { status: self.status, headers, body };
        proof {
            assert(r.header_seq() =~= seq![(lit_content_type(), lit_application_xml())]);
        }
        r
    }
}

} // verus!
