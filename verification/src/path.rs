//! Object requests: resolving a URL path of one to four segments into an
//! object key, and answering with the object's bytes or an error.
//!
//! The key is the '/'-joined sequence of path components past the first
//! (the bucket-name mount prefix); empty components collapse, so leading,
//! trailing and doubled slashes do not matter.

use vstd::prelude::*;

use crate::bytes::{copy_bytes, push_all, SLASH};
use crate::error::{render_error, S3Error};
use crate::numeral::dec_of;
use crate::numeral::u64_to_dec;
use crate::response::{status_only, HttpResponse};
use crate::shared_state::SharedState;
use crate::xml::{
    lit_application_json, lit_application_json_vec, lit_application_xml, lit_content_length,
    lit_content_length_vec, lit_content_type, lit_content_type_vec, lit_could_not_read,
    lit_could_not_read_vec, lit_etag, lit_etag_vec, lit_last_modified_header,
    lit_last_modified_header_vec, lit_read_err_mid, lit_read_err_mid_vec, lit_read_err_pre,
    lit_read_err_pre_vec, lit_read_err_suf, lit_read_err_suf_vec, quote_bytes, quoted,
};

verus! {

/// The first position at or past `i` holding a slash, or the end.
pub open spec fn comp_end(s: Seq<u8>, i: int) -> int
    decreases s.len() - i,
{
    if i < 0 || i >= s.len() || s[i] == SLASH {
        i
    } else {
        comp_end(s, i + 1)
    }
}

proof fn lemma_comp_end(s: Seq<u8>, i: int)
    requires
        0 <= i <= s.len(),
    ensures
        i <= comp_end(s, i) <= s.len(),
        forall|t: int| i <= t < comp_end(s, i) ==> #[trigger] s[t] != SLASH,
        comp_end(s, i) < s.len() ==> s[comp_end(s, i)] == SLASH,
    decreases s.len() - i,
{
    if i < s.len() && s[i] != SLASH {
        lemma_comp_end(s, i + 1);
    }
}

/// The nonempty slash-separated components of `s`, from position `i` on.
pub open spec fn split_from(s: Seq<u8>, i: int) -> Seq<Seq<u8>>
    decreases s.len() - i,
    via split_from_dec
{
    if i < 0 || i >= s.len() {
        Seq::empty()
    } else if s[i] == SLASH {
        split_from(s, i + 1)
    } else {
        seq![s.subrange(i, comp_end(s, i))] + split_from(s, comp_end(s, i))
    }
}

#[via_fn]
proof fn split_from_dec(s: Seq<u8>, i: int) {
    if 0 <= i && i < s.len() && s[i] != SLASH {
        lemma_comp_end(s, i + 1);
    }
}

/// The components from index `i` on, rejoined with '/'.
pub open spec fn join_from(cs: Seq<Seq<u8>>, i: int) -> Seq<u8>
    decreases cs.len() - i,
{
    if i < 0 || i >= cs.len() {
        Seq::empty()
    } else if i == cs.len() - 1 {
        cs[i]
    } else {
        cs[i] + seq![SLASH] + join_from(cs, i + 1)
    }
}

/// The object key a URL path names: its components past the first,
/// rejoined with '/'.
pub open spec fn resolve_key_spec(p: Seq<u8>) -> Seq<u8> {
    join_from(split_from(p, 0), 1)
}

/// Resolves the request's URL path to the object key it names.
pub fn resolve_key(uri_path: &Vec<u8>) -> (key: Vec<u8>)
    ensures
        key@ == resolve_key_spec(uri_path@),
{
    let ghost s = uri_path@;
    let mut comps: Vec<Vec<u8>> = Vec::new();
    let mut i: usize = 0;
    proof {
        assert(comps@.map_values(|c: Vec<u8>| c@) + split_from(s, 0) =~= split_from(s, 0));
    }
    while i < uri_path.len()
        invariant
            i <= uri_path.len(),
            comps@.map_values(|c: Vec<u8>| c@) + split_from(s, i as int) == split_from(s, 0),
        decreases uri_path.len() - i,
    {
        if uri_path[i] == SLASH {
            i = i + 1;
        } else {
            let start = i;
            let mut j = i;
            while j < uri_path.len() && uri_path[j] != SLASH
                invariant
                    start <= j <= uri_path.len(),
                    comp_end(s, start as int) == comp_end(s, j as int),
                decreases uri_path.len() - j,
            {
                j = j + 1;
            }
            proof {
                assert(comp_end(s, j as int) == j);
            }
            let mut comp: Vec<u8> = Vec::new();
            let mut k = start;
            while k < j
                invariant
                    start <= k <= j <= uri_path.len(),
                    comp@ == s.subrange(start as int, k as int),
                decreases j - k,
            {
                comp.push(uri_path[k]);
                proof {
                    assert(s.subrange(start as int, k + 1) =~= s.subrange(start as int, k as int)
                        .push(s[k as int]));
                }
                k = k + 1;
            }
            comps.push(comp);
            proof {
                assert(split_from(s, start as int) == seq![s.subrange(start as int, j as int)]
                    + split_from(s, j as int));
                assert(comps@.map_values(|c: Vec<u8>| c@) + split_from(s, j as int) =~= comps@
                    .drop_last().map_values(|c: Vec<u8>| c@) + split_from(s, start as int));
            }
            i = j;
        }
    }
    proof {
        assert(split_from(s, s.len() as int) =~= Seq::<Seq<u8>>::empty());
        assert(comps@.map_values(|c: Vec<u8>| c@) =~= comps@.map_values(|c: Vec<u8>| c@)
            + split_from(s, s.len() as int));
    }
    let ghost csv = comps@.map_values(|c: Vec<u8>| c@);
    if comps.len() <= 1 {
        let r: Vec<u8> = Vec::new();
        return r;
    }
    let mut key: Vec<u8> = Vec::new();
    let mut t: usize = 1;
    proof {
        assert(key@ + join_from(csv, 1) =~= join_from(csv, 1));
    }
    while t < comps.len()
        invariant
            1 <= t <= comps.len(),
            comps.len() == csv.len(),
            key@ + join_from(csv, t as int) == join_from(csv, 1),
        decreases comps.len() - t,
    {
        push_all(&mut key, &comps[t]);
        if t + 1 < comps.len() {
            key.push(SLASH);
            proof {
                assert(join_from(csv, t as int) == csv[t as int] + seq![SLASH] + join_from(
                    csv,
                    t + 1,
                ));
                assert(key@ + join_from(csv, t + 1) =~= join_from(csv, 1));
            }
        } else {
            proof {
                assert(t == csv.len() - 1);
                assert(join_from(csv, t as int) == csv[t as int]);
                assert(join_from(csv, t + 1) =~= Seq::<u8>::empty());
                assert(key@ + join_from(csv, t + 1) =~= join_from(csv, 1));
            }
        }
        t = t + 1;
    }
    proof {
        assert(join_from(csv, csv.len() as int) =~= Seq::<u8>::empty());
        assert(key@ =~= key@ + join_from(csv, csv.len() as int));
    }
    key
}

/// Where the object's backing file lies on disk.
pub open spec fn disk_path(root: Seq<u8>, key: Seq<u8>) -> Seq<u8> {
    root + seq![SLASH] + key
}

/// The message reported when an indexed file cannot be read at serve time.
pub open spec fn read_error_message(path: Seq<u8>, err: Seq<u8>) -> Seq<u8> {
    lit_read_err_pre() + path + lit_read_err_mid() + err + lit_read_err_suf()
}

/// Resolves the request and looks its key up: the path of the backing file
/// when the key is indexed, nothing when it is not.
pub fn locate(state: &SharedState, uri_path: &Vec<u8>) -> (r: Option<Vec<u8>>)
    ensures
        match r {
            Some(p) => state.spec_lookup(resolve_key_spec(uri_path@)) is Some && p@ == disk_path(
                state.root_path@,
                resolve_key_spec(uri_path@),
            ),
            None => state.spec_lookup(resolve_key_spec(uri_path@)) is None,
        },
{
    let key = resolve_key(uri_path);
    match state.get(&key) {
        Some(_) => {
            let mut p = copy_bytes(&state.root_path);
            p.push(SLASH);
            push_all(&mut p, &key);
            proof {
                assert(p@ =~= disk_path(state.root_path@, key@));
            }
            Some(p)
        },
        None => None,
    }
}

/// 404: the resolved key is absent from the index.
pub fn not_found() -> (r: HttpResponse)
    ensures
        r.status == 404,
        r.header_seq() == Seq::<(Seq<u8>, Seq<u8>)>::empty(),
        r.body@ == Seq::<u8>::empty(),
{
    status_only(404)
}

/// The response for an object whose key is indexed, given what reading its
/// file fresh off the disk yielded: 200 with the current bytes and the
/// S3-style headers frozen at snapshot time, or the structured disk-read
/// error.
pub fn get_path(state: &SharedState, uri_path: &Vec<u8>, read: Result<Vec<u8>, Vec<u8>>) -> (r:
    HttpResponse)
    requires
        state.spec_lookup(resolve_key_spec(uri_path@)) is Some,
    ensures
        ({
            let rec = state.spec_lookup(resolve_key_spec(uri_path@))->Some_0;
            match read {
                Ok(content) => r.status == 200 && r.header_seq() =~= seq![
                    (lit_content_type(), lit_application_json()),
                    (lit_last_modified_header(), state.last_modified@),
                    (lit_etag(), quoted(rec.etag)),
                    (lit_content_length(), dec_of(rec.size)),
                ] && r.body@ == content@,
                Err(e) => r.status == 500 && r.header_seq() =~= seq![
                    (lit_content_type(), lit_application_xml()),
                ] && r.body@ == render_error(
                    read_error_message(
                        disk_path(state.root_path@, resolve_key_spec(uri_path@)),
                        e@,
                    ),
                    lit_could_not_read(),
                ),
            }
        }),
{
    let key = resolve_key(uri_path);
    match state.get(&key) {
        None => vstd::pervasive::unreached(),
        Some((etag, size)) => {
            match read {
                Ok(content) => {
                    let mut headers: Vec<(Vec<u8>, Vec<u8>)> = Vec::new();
                    headers.push((lit_content_type_vec(), lit_application_json_vec()));
                    headers.push((lit_last_modified_header_vec(), copy_bytes(&state.last_modified)));
                    headers.push((lit_etag_vec(), quote_bytes(&etag)));
                    headers.push((lit_content_length_vec(), u64_to_dec(size as u64)));
                    HttpResponse { status: 200, headers, body: content }
                },
                Err(e) => {
                    let mut message = lit_read_err_pre_vec();
                    let mut p = copy_bytes(&state.root_path);
                    p.push(SLASH);
                    push_all(&mut p, &key);
                    push_all(&mut message, &p);
                    push_all(&mut message, &lit_read_err_mid_vec());
                    push_all(&mut message, &e);
                    push_all(&mut message, &lit_read_err_suf_vec());
                    proof {
                        assert(p@ =~= disk_path(state.root_path@, key@));
                        assert(message@ =~= read_error_message(
                            disk_path(state.root_path@, key@),
                            e@,
                        ));
                    }
                    let err = S3Error {
                        code: lit_could_not_read_vec(),
                        message,
                        status: 500,
                    };
                    err.into_response()
                },
            }
        },
    }
}

} // verus!
