//! Bucket-root requests: the single-page "list objects" document, the mock
//! location document, and the fallback for anything else.

use vstd::prelude::*;

use crate::bytes::copy_bytes;
use crate::error::S3Error;
use crate::numeral::dec_of;
use crate::numeral::u64_to_dec;
use crate::response::HttpResponse;
use crate::shared_state::{RecordV, SharedState};
use crate::util::fallback;
use crate::xml::{
    close_tag, lit_application_xml, lit_application_xml_vec, lit_content_type,
    lit_content_type_vec, lit_contents, lit_contents_vec, lit_encoding_type,
    lit_encoding_type_vec, lit_etag, lit_etag_vec, lit_false, lit_is_truncated,
    lit_is_truncated_vec, lit_key, lit_key_count, lit_key_count_vec, lit_key_vec,
    lit_last_modified, lit_last_modified_vec, lit_list_bucket_result, lit_list_bucket_result_vec,
    lit_location_doc, lit_location_doc_vec, lit_max_keys, lit_max_keys_vec, lit_name,
    lit_name_vec, lit_size, lit_size_vec, lit_standard, lit_standard_vec, lit_storage_class,
    lit_storage_class_vec, lit_true, lit_url, lit_url_vec, open_tag, push_close_tag, push_leaf,
    push_open_tag, quote_bytes, quoted, render_leaf,
};

verus! {

/// The two bucket-root queries the service answers.
pub struct RootQuery {
    pub list_type: Option<usize>,
    pub location: Option<Vec<u8>>,
}

/// One object of the listing document.
pub struct Content {
    pub key: Vec<u8>,
    pub size: usize,
    pub last_modified: Vec<u8>,
    pub etag: Vec<u8>,
    pub storage_class: Vec<u8>,
}

pub struct ContentV {
    pub key: Seq<u8>,
    pub size: nat,
    pub last_modified: Seq<u8>,
    pub etag: Seq<u8>,
    pub storage_class: Seq<u8>,
}

impl View for Content {
    type V = ContentV;

    open spec fn view(&self) -> ContentV {
        ContentV {
            key: self.key@,
            size: self.size as nat,
            last_modified: self.last_modified@,
            etag: self.etag@,
            storage_class: self.storage_class@,
        }
    }
}

/// The single-page listing of the whole bucket.
pub struct ListBucketResult {
    pub bucket_name: Vec<u8>,
    pub is_truncated: bool,
    pub max_keys: usize,
    pub key_count: usize,
    pub encoding_type: Vec<u8>,
    pub contents: Vec<Content>,
}

pub struct ListingV {
    pub bucket_name: Seq<u8>,
    pub is_truncated: bool,
    pub max_keys: nat,
    pub key_count: nat,
    pub encoding_type: Seq<u8>,
    pub contents: Seq<ContentV>,
}

impl View for ListBucketResult {
    type V = ListingV;

    open spec fn view(&self) -> ListingV {
        ListingV {
            bucket_name: self.bucket_name@,
            is_truncated: self.is_truncated,
            max_keys: self.max_keys as nat,
            key_count: self.key_count as nat,
            encoding_type: self.encoding_type@,
            contents: self.contents@.map_values(|c: Content| c@),
        }
    }
}

pub open spec fn bool_lit(b: bool) -> Seq<u8> {
    if b {
        lit_true()
    } else {
        lit_false()
    }
}

/// How one object renders inside the listing.
pub open spec fn render_content(c: ContentV) -> Seq<u8> {
    open_tag(lit_contents()) + render_leaf(lit_key(), c.key) + render_leaf(
        lit_size(),
        dec_of(c.size),
    ) + render_leaf(lit_last_modified(), c.last_modified) + render_leaf(lit_etag(), c.etag)
        + render_leaf(lit_storage_class(), c.storage_class) + close_tag(lit_contents())
}

/// The objects from index `i` on, in order.
pub open spec fn render_contents(cs: Seq<ContentV>, i: int) -> Seq<u8>
    decreases cs.len() - i,
{
    if i < 0 || i >= cs.len() {
        Seq::empty()
    } else {
        render_content(cs[i]) + render_contents(cs, i + 1)
    }
}

/// How the whole listing renders.
pub open spec fn render_listing(l: ListingV) -> Seq<u8> {
    open_tag(lit_list_bucket_result()) + render_leaf(lit_name(), l.bucket_name) + render_contents(
        l.contents,
        0,
    ) + render_leaf(lit_is_truncated(), bool_lit(l.is_truncated)) + render_leaf(
        lit_max_keys(),
        dec_of(l.max_keys),
    ) + render_leaf(lit_key_count(), dec_of(l.key_count)) + render_leaf(
        lit_encoding_type(),
        l.encoding_type,
    ) + close_tag(lit_list_bucket_result())
}

/// The listing the snapshot gives rise to: never truncated, a fixed
/// max-keys of 1000, one entry per record in index order, all stamped with
/// the snapshot time and the fixed storage class.
pub open spec fn listing_of(state: &SharedState) -> ListingV {
    ListingV {
        bucket_name: state.bucket_name@,
        is_truncated: false,
        max_keys: 1000,
        key_count: state.records().len(),
        encoding_type: lit_url(),
        contents: state.records().map_values(
            |r: RecordV|
                ContentV {
                    key: r.key,
                    size: r.size,
                    last_modified: state.last_modified@,
                    etag: quoted(r.etag),
                    storage_class: lit_standard(),
                },
        ),
    }
}

impl ListBucketResult {
    /// Builds the listing of the snapshot.
    pub fn new(state: &SharedState) -> (l: ListBucketResult)
        ensures
            l@ == listing_of(state),
    {
        let mut contents: Vec<Content> = Vec::new();
        let mut i: usize = 0;
        let n = state.etags_and_sizes.len();
        while i < n
            invariant
                i <= n,
                n == state.etags_and_sizes.len(),
                contents@.map_values(|c: Content| c@) =~= listing_of(state).contents.take(i as int),
            decreases n - i,
        {
            let rec = &state.etags_and_sizes[i];
            let c = Content {
                key: copy_bytes(&rec.key),
                size: rec.size,
                last_modified: copy_bytes(&state.last_modified),
                etag: quote_bytes(&rec.etag),
                storage_class: lit_standard_vec(),
            };
            contents.push(c);
            proof {
                assert(contents@.map_values(|c: Content| c@) =~= listing_of(state).contents.take(
                    i + 1,
                ));
            }
            i = i + 1;
        }
        let l = ListBucketResult {
            bucket_name: copy_bytes(&state.bucket_name),
            is_truncated: false,
            max_keys: 1000,
            key_count: n,
            encoding_type: lit_url_vec(),
            contents,
        };
        proof {
            assert(listing_of(state).contents.take(n as int) =~= listing_of(state).contents);
            assert(l@ =~= listing_of(state));
        }
        l
    }

    /// Turns the listing into its wire response.
    pub fn into_response(self) -> (r: HttpResponse)
        ensures
            r.status == 200,
            r.header_seq() == seq![(lit_content_type(), lit_application_xml())],
            r.body@ == render_listing(self@),
    {
        let body = self.to_xml();
        let mut headers: Vec<(Vec<u8>, Vec<u8>)> = Vec::new();
        headers.push((lit_content_type_vec(), lit_application_xml_vec()));
        let r = HttpResponse { status: 200, headers, body };
        proof {
            assert(r.header_seq() =~= seq![(lit_content_type(), lit_application_xml())]);
        }
        r
    }

    /// Renders the listing document.
    #[verifier::rlimit(100)]
    pub fn to_xml(&self) -> (r: Vec<u8>)
        ensures
            r@ == render_listing(self@),
    {
        let mut out: Vec<u8> = Vec::new();
        let root_tag = lit_list_bucket_result_vec();
        push_open_tag(&mut out, &root_tag);
        push_leaf(&mut out, &lit_name_vec(), &self.bucket_name);
        let ghost cs = self@.contents;
        let ghost before = out@;
        let mut i: usize = 0;
        while i < self.contents.len()
            invariant
                i <= self.contents.len(),
                cs == self@.contents,
                out@ + render_contents(cs, i as int) == before + render_contents(cs, 0),
            decreases self.contents.len() - i,
        {
            let c = &self.contents[i];
            proof {
                assert(render_contents(cs, i as int) == render_content(cs[i as int])
                    + render_contents(cs, i + 1));
            }
            let ghost out0 = out@;
            let contents_tag = lit_contents_vec();
            push_open_tag(&mut out, &contents_tag);
            push_leaf(&mut out, &lit_key_vec(), &c.key);
            let size_dec = u64_to_dec(c.size as u64);
            push_leaf(&mut out, &lit_size_vec(), &size_dec);
            push_leaf(&mut out, &lit_last_modified_vec(), &c.last_modified);
            push_leaf(&mut out, &lit_etag_vec(), &c.etag);
            push_leaf(&mut out, &lit_storage_class_vec(), &c.storage_class);
            push_close_tag(&mut out, &contents_tag);
            proof {
                assert(cs[i as int] == c@);
                assert(out@ =~= out0 + render_content(cs[i as int]));
                assert(out@ + render_contents(cs, i + 1) =~= out0 + render_contents(cs, i as int));
            }
            i = i + 1;
        }
        proof {
            assert(render_contents(cs, self.contents.len() as int) =~= Seq::<u8>::empty());
            assert(out@ =~= out@ + render_contents(cs, self.contents.len() as int));
        }
        push_leaf(&mut out, &lit_is_truncated_vec(), &bool_lit_vec(self.is_truncated));
        let max_keys_dec = u64_to_dec(self.max_keys as u64);
        push_leaf(&mut out, &lit_max_keys_vec(), &max_keys_dec);
        let key_count_dec = u64_to_dec(self.key_count as u64);
        push_leaf(&mut out, &lit_key_count_vec(), &key_count_dec);
        push_leaf(&mut out, &lit_encoding_type_vec(), &self.encoding_type);
        push_close_tag(&mut out, &root_tag);
        proof {
            assert(out@ =~= render_listing(self@));
        }
        out
    }
}

pub fn bool_lit_vec(b: bool) -> (r: Vec<u8>)
    ensures
        r@ == bool_lit(b),
{
    if b {
        crate::xml::lit_true_vec()
    } else {
        crate::xml::lit_false_vec()
    }
}

/// `HEAD /` answers 200 with nothing else.
pub fn head_root() -> (r: HttpResponse)
    ensures
        r.status == 200,
        r.header_seq() == Seq::<(Seq<u8>, Seq<u8>)>::empty(),
        r.body@ == Seq::<u8>::empty(),
{
    crate::response::status_only(200)
}

/// `GET /`: a `location` query gets the fixed location document, a
/// `list-type` query gets the listing, anything else falls through to the
/// "not implemented" error.
pub fn get_root(query: &RootQuery, state: &SharedState) -> (r: Result<HttpResponse, S3Error>)
    ensures
        query.location is Some ==> (r matches Ok(resp) && resp.status == 200 && resp.header_seq()
            =~= seq![(lit_content_type(), lit_application_xml())] && resp.body@
            == lit_location_doc()),
        query.location is None && query.list_type is Some ==> (r matches Ok(resp) && resp.status
            == 200 && resp.header_seq() =~= seq![(lit_content_type(), lit_application_xml())]
            && resp.body@ == render_listing(listing_of(state))),
        query.location is None && query.list_type is None ==> (r matches Err(e) && e.status == 501
            && e.code@ == crate::xml::lit_not_implemented() && e.message@
            == crate::xml::lit_fallback_message()),
    {
    if query.location.is_some() {
        let mut headers: Vec<(Vec<u8>, Vec<u8>)> = Vec::new();
        headers.push((lit_content_type_vec(), lit_application_xml_vec()));
        return Ok(HttpResponse { status: 200, headers, body: lit_location_doc_vec() });
    }
    if query.list_type.is_some() {
        let listing = ListBucketResult::new(state);
        let body = listing.to_xml();
        let mut headers: Vec<(Vec<u8>, Vec<u8>)> = Vec::new();
        headers.push((lit_content_type_vec(), lit_application_xml_vec()));
        return Ok(HttpResponse { status: 200, headers, body });
    }
    Err(fallback())
}

} // verus!
