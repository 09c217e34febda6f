//! The XML element shape shared by the listing and error documents, and the
//! byte constants of the protocol's tag and value names.

use vstd::prelude::*;

use crate::bytes::push_all;
use crate::xmlesc::{escape, escape_bytes};

verus! {

/// `<tag>`
pub open spec fn open_tag(t: Seq<u8>) -> Seq<u8> {
    seq![60u8] + t + seq![62u8]
}

/// `</tag>`
pub open spec fn close_tag(t: Seq<u8>) -> Seq<u8> {
    seq![60u8, 47u8] + t + seq![62u8]
}

/// `<tag>` escaped-value `</tag>`
pub open spec fn render_leaf(t: Seq<u8>, v: Seq<u8>) -> Seq<u8> {
    open_tag(t) + escape(v) + close_tag(t)
}

/// The value `s` carries inside a quoted protocol field.
pub open spec fn quoted(s: Seq<u8>) -> Seq<u8> {
    seq![34u8] + s + seq![34u8]
}

pub fn push_open_tag(out: &mut Vec<u8>, t: &Vec<u8>)
    ensures
        final(out)@ == old(out)@ + open_tag(t@),
{
    out.push(60);
    push_all(out, t);
    out.push(62);
    proof {
        assert(out@ =~= old(out)@ + open_tag(t@));
    }
}

pub fn push_close_tag(out: &mut Vec<u8>, t: &Vec<u8>)
    ensures
        final(out)@ == old(out)@ + close_tag(t@),
{
    out.push(60);
    out.push(47);
    push_all(out, t);
    out.push(62);
    proof {
        assert(out@ =~= old(out)@ + close_tag(t@));
    }
}

pub fn push_leaf(out: &mut Vec<u8>, t: &Vec<u8>, v: &Vec<u8>)
    ensures
        final(out)@ == old(out)@ + render_leaf(t@, v@),
{
    push_open_tag(out, t);
    let e = escape_bytes(v);
    push_all(out, &e);
    push_close_tag(out, t);
    proof {
        assert(out@ =~= old(out)@ + render_leaf(t@, v@));
    }
}

/// Wraps `s` in quotes.
pub fn quote_bytes(s: &Vec<u8>) -> (r: Vec<u8>)
    ensures
        r@ == quoted(s@),
{
    let mut v: Vec<u8> = Vec::new();
    v.push(34);
    push_all(&mut v, s);
    v.push(34);
    proof {
        assert(v@ =~= quoted(s@));
    }
    v
}

/// The bytes of `ListBucketResult`.
pub open spec fn lit_list_bucket_result() -> Seq<u8> {
    seq![76u8, 105u8, 115u8, 116u8, 66u8, 117u8, 99u8, 107u8, 101u8, 116u8, 82u8, 101u8, 115u8, 117u8, 108u8, 116u8]
}

pub fn lit_list_bucket_result_vec() -> (r: Vec<u8>)
    ensures
        r@ == lit_list_bucket_result(),
{
    let mut v: Vec<u8> = Vec::new();
    v.push(76);
    v.push(105);
    v.push(115);
    v.push(116);
    v.push(66);
    v.push(117);
    v.push(99);
    v.push(107);
    v.push(101);
    v.push(116);
    v.push(82);
    v.push(101);
    v.push(115);
    v.push(117);
    v.push(108);
    v.push(116);
    proof {
        assert(v@ =~= lit_list_bucket_result());
    }
    v
}

/// The bytes of `Name`.
pub open spec fn lit_name() -> Seq<u8> {
    seq![78u8, 97u8, 109u8, 101u8]
}

pub fn lit_name_vec() -> (r: Vec<u8>)
    ensures
        r@ == lit_name(),
{
    let mut v: Vec<u8> = Vec::new();
    v.push(78);
    v.push(97);
    v.push(109);
    v.push(101);
    proof {
        assert(v@ =~= lit_name());
    }
    v
}

/// The bytes of `IsTruncated`.
pub open spec fn lit_is_truncated() -> Seq<u8> {
    seq![73u8, 115u8, 84u8, 114u8, 117u8, 110u8, 99u8, 97u8, 116u8, 101u8, 100u8]
}

pub fn lit_is_truncated_vec() -> (r: Vec<u8>)
    ensures
        r@ == lit_is_truncated(),
{
    let mut v: Vec<u8> = Vec::new();
    v.push(73);
    v.push(115);
    v.push(84);
    v.push(114);
    v.push(117);
    v.push(110);
    v.push(99);
    v.push(97);
    v.push(116);
    v.push(101);
    v.push(100);
    proof {
        assert(v@ =~= lit_is_truncated());
    }
    v
}

/// The bytes of `MaxKeys`.
pub open spec fn lit_max_keys() -> Seq<u8> {
    seq![77u8, 97u8, 120u8, 75u8, 101u8, 121u8, 115u8]
}

pub fn lit_max_keys_vec() -> (r: Vec<u8>)
    ensures
        r@ == lit_max_keys(),
{
    let mut v: Vec<u8> = Vec::new();
    v.push(77);
    v.push(97);
    v.push(120);
    v.push(75);
    v.push(101);
    v.push(121);
    v.push(115);
    proof {
        assert(v@ =~= lit_max_keys());
    }
    v
}

/// The bytes of `KeyCount`.
pub open spec fn lit_key_count() -> Seq<u8> {
    seq![75u8, 101u8, 121u8, 67u8, 111u8, 117u8, 110u8, 116u8]
}

pub fn lit_key_count_vec() -> (r: Vec<u8>)
    ensures
        r@ == lit_key_count(),
{
    let mut v: Vec<u8> = Vec::new();
    v.push(75);
    v.push(101);
    v.push(121);
    v.push(67);
    v.push(111);
    v.push(117);
    v.push(110);
    v.push(116);
    proof {
        assert(v@ =~= lit_key_count());
    }
    v
}

/// The bytes of `EncodingType`.
pub open spec fn lit_encoding_type() -> Seq<u8> {
    seq![69u8, 110u8, 99u8, 111u8, 100u8, 105u8, 110u8, 103u8, 84u8, 121u8, 112u8, 101u8]
}

pub fn lit_encoding_type_vec() -> (r: Vec<u8>)
    ensures
        r@ == lit_encoding_type(),
{
    let mut v: Vec<u8> = Vec::new();
    v.push(69);
    v.push(110);
    v.push(99);
    v.push(111);
    v.push(100);
    v.push(105);
    v.push(110);
    v.push(103);
    v.push(84);
    v.push(121);
    v.push(112);
    v.push(101);
    proof {
        assert(v@ =~= lit_encoding_type());
    }
    v
}

/// The bytes of `Contents`.
pub open spec fn lit_contents() -> Seq<u8> {
    seq![67u8, 111u8, 110u8, 116u8, 101u8, 110u8, 116u8, 115u8]
}

pub fn lit_contents_vec() -> (r: Vec<u8>)
    ensures
        r@ == lit_contents(),
{
    let mut v: Vec<u8> = Vec::new();
    v.push(67);
    v.push(111);
    v.push(110);
    v.push(116);
    v.push(101);
    v.push(110);
    v.push(116);
    v.push(115);
    proof {
        assert(v@ =~= lit_contents());
    }
    v
}

/// The bytes of `Key`.
pub open spec fn lit_key() -> Seq<u8> {
    seq![75u8, 101u8, 121u8]
}

pub fn lit_key_vec() -> (r: Vec<u8>)
    ensures
        r@ == lit_key(),
{
    let mut v: Vec<u8> = Vec::new();
    v.push(75);
    v.push(101);
    v.push(121);
    proof {
        assert(v@ =~= lit_key());
    }
    v
}

/// The bytes of `Size`.
pub open spec fn lit_size() -> Seq<u8> {
    seq![83u8, 105u8, 122u8, 101u8]
}

pub fn lit_size_vec() -> (r: Vec<u8>)
    ensures
        r@ == lit_size(),
{
    let mut v: Vec<u8> = Vec::new();
    v.push(83);
    v.push(105);
    v.push(122);
    v.push(101);
    proof {
        assert(v@ =~= lit_size());
    }
    v
}

/// The bytes of `LastModified`.
pub open spec fn lit_last_modified() -> Seq<u8> {
    seq![76u8, 97u8, 115u8, 116u8, 77u8, 111u8, 100u8, 105u8, 102u8, 105u8, 101u8, 100u8]
}

pub fn lit_last_modified_vec() -> (r: Vec<u8>)
    ensures
        r@ == lit_last_modified(),
{
    let mut v: Vec<u8> = Vec::new();
    v.push(76);
    v.push(97);
    v.push(115);
    v.push(116);
    v.push(77);
    v.push(111);
    v.push(100);
    v.push(105);
    v.push(102);
    v.push(105);
    v.push(101);
    v.push(100);
    proof {
        assert(v@ =~= lit_last_modified());
    }
    v
}

/// The bytes of `ETag`.
pub open spec fn lit_etag() -> Seq<u8> {
    seq![69u8, 84u8, 97u8, 103u8]
}

pub fn lit_etag_vec() -> (r: Vec<u8>)
    ensures
        r@ == lit_etag(),
{
    let mut v: Vec<u8> = Vec::new();
    v.push(69);
    v.push(84);
    v.push(97);
    v.push(103);
    proof {
        assert(v@ =~= lit_etag());
    }
    v
}

/// The bytes of `StorageClass`.
pub open spec fn lit_storage_class() -> Seq<u8> {
    seq![83u8, 116u8, 111u8, 114u8, 97u8, 103u8, 101u8, 67u8, 108u8, 97u8, 115u8, 115u8]
}

pub fn lit_storage_class_vec() -> (r: Vec<u8>)
    ensures
        r@ == lit_storage_class(),
{
    let mut v: Vec<u8> = Vec::new();
    v.push(83);
    v.push(116);
    v.push(111);
    v.push(114);
    v.push(97);
    v.push(103);
    v.push(101);
    v.push(67);
    v.push(108);
    v.push(97);
    v.push(115);
    v.push(115);
    proof {
        assert(v@ =~= lit_storage_class());
    }
    v
}

/// The bytes of `Error`.
pub open spec fn lit_error() -> Seq<u8> {
    seq![69u8, 114u8, 114u8, 111u8, 114u8]
}

pub fn lit_error_vec() -> (r: Vec<u8>)
    ensures
        r@ == lit_error(),
{
    let mut v: Vec<u8> = Vec::new();
    v.push(69);
    v.push(114);
    v.push(114);
    v.push(111);
    v.push(114);
    proof {
        assert(v@ =~= lit_error());
    }
    v
}

/// The bytes of `Message`.
pub open spec fn lit_message() -> Seq<u8> {
    seq![77u8, 101u8, 115u8, 115u8, 97u8, 103u8, 101u8]
}

pub fn lit_message_vec() -> (r: Vec<u8>)
    ensures
        r@ == lit_message(),
{
    let mut v: Vec<u8> = Vec::new();
    v.push(77);
    v.push(101);
    v.push(115);
    v.push(115);
    v.push(97);
    v.push(103);
    v.push(101);
    proof {
        assert(v@ =~= lit_message());
    }
    v
}

/// The bytes of `Code`.
pub open spec fn lit_code() -> Seq<u8> {
    seq![67u8, 111u8, 100u8, 101u8]
}

pub fn lit_code_vec() -> (r: Vec<u8>)
    ensures
        r@ == lit_code(),
{
    let mut v: Vec<u8> = Vec::new();
    v.push(67);
    v.push(111);
    v.push(100);
    v.push(101);
    proof {
        assert(v@ =~= lit_code());
    }
    v
}

/// The bytes of `true`.
pub open spec fn lit_true() -> Seq<u8> {
    seq![116u8, 114u8, 117u8, 101u8]
}

pub fn lit_true_vec() -> (r: Vec<u8>)
    ensures
        r@ == lit_true(),
{
    let mut v: Vec<u8> = Vec::new();
    v.push(116);
    v.push(114);
    v.push(117);
    v.push(101);
    proof {
        assert(v@ =~= lit_true());
    }
    v
}

/// The bytes of `false`.
pub open spec fn lit_false() -> Seq<u8> {
    seq![102u8, 97u8, 108u8, 115u8, 101u8]
}

pub fn lit_false_vec() -> (r: Vec<u8>)
    ensures
        r@ == lit_false(),
{
    let mut v: Vec<u8> = Vec::new();
    v.push(102);
    v.push(97);
    v.push(108);
    v.push(115);
    v.push(101);
    proof {
        assert(v@ =~= lit_false());
    }
    v
}

/// The bytes of `url`.
pub open spec fn lit_url() -> Seq<u8> {
    seq![117u8, 114u8, 108u8]
}

pub fn lit_url_vec() -> (r: Vec<u8>)
    ensures
        r@ == lit_url(),
{
    let mut v: Vec<u8> = Vec::new();
    v.push(117);
    v.push(114);
    v.push(108);
    proof {
        assert(v@ =~= lit_url());
    }
    v
}

/// The bytes of `STANDARD`.
pub open spec fn lit_standard() -> Seq<u8> {
    seq![83u8, 84u8, 65u8, 78u8, 68u8, 65u8, 82u8, 68u8]
}

pub fn lit_standard_vec() -> (r: Vec<u8>)
    ensures
        r@ == lit_standard(),
{
    let mut v: Vec<u8> = Vec::new();
    v.push(83);
    v.push(84);
    v.push(65);
    v.push(78);
    v.push(68);
    v.push(65);
    v.push(82);
    v.push(68);
    proof {
        assert(v@ =~= lit_standard());
    }
    v
}


/// The bytes of `Content-Type`.
pub open spec fn lit_content_type() -> Seq<u8> {
    seq![67u8, 111u8, 110u8, 116u8, 101u8, 110u8, 116u8, 45u8, 84u8, 121u8, 112u8, 101u8]
}

pub fn lit_content_type_vec() -> (r: Vec<u8>)
    ensures
        r@ == lit_content_type(),
{
    let mut v: Vec<u8> = Vec::new();
    v.push(67);
    v.push(111);
    v.push(110);
    v.push(116);
    v.push(101);
    v.push(110);
    v.push(116);
    v.push(45);
    v.push(84);
    v.push(121);
    v.push(112);
    v.push(101);
    proof {
        assert(v@ =~= lit_content_type());
    }
    v
}

/// The bytes of `Last-Modified`.
pub open spec fn lit_last_modified_header() -> Seq<u8> {
    seq![76u8, 97u8, 115u8, 116u8, 45u8, 77u8, 111u8, 100u8, 105u8, 102u8, 105u8, 101u8, 100u8]
}

pub fn lit_last_modified_header_vec() -> (r: Vec<u8>)
    ensures
        r@ == lit_last_modified_header(),
{
    let mut v: Vec<u8> = Vec::new();
    v.push(76);
    v.push(97);
    v.push(115);
    v.push(116);
    v.push(45);
    v.push(77);
    v.push(111);
    v.push(100);
    v.push(105);
    v.push(102);
    v.push(105);
    v.push(101);
    v.push(100);
    proof {
        assert(v@ =~= lit_last_modified_header());
    }
    v
}

/// The bytes of `Content-Length`.
pub open spec fn lit_content_length() -> Seq<u8> {
    seq![67u8, 111u8, 110u8, 116u8, 101u8, 110u8, 116u8, 45u8, 76u8, 101u8, 110u8, 103u8, 116u8, 104u8]
}

pub fn lit_content_length_vec() -> (r: Vec<u8>)
    ensures
        r@ == lit_content_length(),
{
    let mut v: Vec<u8> = Vec::new();
    v.push(67);
    v.push(111);
    v.push(110);
    v.push(116);
    v.push(101);
    v.push(110);
    v.push(116);
    v.push(45);
    v.push(76);
    v.push(101);
    v.push(110);
    v.push(103);
    v.push(116);
    v.push(104);
    proof {
        assert(v@ =~= lit_content_length());
    }
    v
}

/// The bytes of `application/xml`.
pub open spec fn lit_application_xml() -> Seq<u8> {
    seq![97u8, 112u8, 112u8, 108u8, 105u8, 99u8, 97u8, 116u8, 105u8, 111u8, 110u8, 47u8, 120u8, 109u8, 108u8]
}

pub fn lit_application_xml_vec() -> (r: Vec<u8>)
    ensures
        r@ == lit_application_xml(),
{
    let mut v: Vec<u8> = Vec::new();
    v.push(97);
    v.push(112);
    v.push(112);
    v.push(108);
    v.push(105);
    v.push(99);
    v.push(97);
    v.push(116);
    v.push(105);
    v.push(111);
    v.push(110);
    v.push(47);
    v.push(120);
    v.push(109);
    v.push(108);
    proof {
        assert(v@ =~= lit_application_xml());
    }
    v
}

/// The bytes of `application/json`.
pub open spec fn lit_application_json() -> Seq<u8> {
    seq![97u8, 112u8, 112u8, 108u8, 105u8, 99u8, 97u8, 116u8, 105u8, 111u8, 110u8, 47u8, 106u8, 115u8, 111u8, 110u8]
}

pub fn lit_application_json_vec() -> (r: Vec<u8>)
    ensures
        r@ == lit_application_json(),
{
    let mut v: Vec<u8> = Vec::new();
    v.push(97);
    v.push(112);
    v.push(112);
    v.push(108);
    v.push(105);
    v.push(99);
    v.push(97);
    v.push(116);
    v.push(105);
    v.push(111);
    v.push(110);
    v.push(47);
    v.push(106);
    v.push(115);
    v.push(111);
    v.push(110);
    proof {
        assert(v@ =~= lit_application_json());
    }
    v
}

/// The bytes of `NotImplemented`.
pub open spec fn lit_not_implemented() -> Seq<u8> {
    seq![78u8, 111u8, 116u8, 73u8, 109u8, 112u8, 108u8, 101u8, 109u8, 101u8, 110u8, 116u8, 101u8, 100u8]
}

pub fn lit_not_implemented_vec() -> (r: Vec<u8>)
    ensures
        r@ == lit_not_implemented(),
{
    let mut v: Vec<u8> = Vec::new();
    v.push(78);
    v.push(111);
    v.push(116);
    v.push(73);
    v.push(109);
    v.push(112);
    v.push(108);
    v.push(101);
    v.push(109);
    v.push(101);
    v.push(110);
    v.push(116);
    v.push(101);
    v.push(100);
    proof {
        assert(v@ =~= lit_not_implemented());
    }
    v
}

/// The bytes of `CouldNotReadOffDisk`.
pub open spec fn lit_could_not_read() -> Seq<u8> {
    seq![67u8, 111u8, 117u8, 108u8, 100u8, 78u8, 111u8, 116u8, 82u8, 101u8, 97u8, 100u8, 79u8, 102u8, 102u8, 68u8, 105u8, 115u8, 107u8]
}

pub fn lit_could_not_read_vec() -> (r: Vec<u8>)
    ensures
        r@ == lit_could_not_read(),
{
    let mut v: Vec<u8> = Vec::new();
    v.push(67);
    v.push(111);
    v.push(117);
    v.push(108);
    v.push(100);
    v.push(78);
    v.push(111);
    v.push(116);
    v.push(82);
    v.push(101);
    v.push(97);
    v.push(100);
    v.push(79);
    v.push(102);
    v.push(102);
    v.push(68);
    v.push(105);
    v.push(115);
    v.push(107);
    proof {
        assert(v@ =~= lit_could_not_read());
    }
    v
}

/// The bytes of `Root query was unable to decypher; perhaps unimplemented?`.
pub open spec fn lit_fallback_message() -> Seq<u8> {
    seq![82u8, 111u8, 111u8, 116u8, 32u8, 113u8, 117u8, 101u8, 114u8, 121u8, 32u8, 119u8, 97u8, 115u8, 32u8, 117u8, 110u8, 97u8, 98u8, 108u8, 101u8, 32u8, 116u8, 111u8, 32u8, 100u8, 101u8, 99u8, 121u8, 112u8, 104u8, 101u8, 114u8, 59u8, 32u8, 112u8, 101u8, 114u8, 104u8, 97u8, 112u8, 115u8, 32u8, 117u8, 110u8, 105u8, 109u8, 112u8, 108u8, 101u8, 109u8, 101u8, 110u8, 116u8, 101u8, 100u8, 63u8]
}

#[verifier::rlimit(100)]
pub fn lit_fallback_message_vec() -> (r: Vec<u8>)
    ensures
        r@ == lit_fallback_message(),
{
    let mut v: Vec<u8> = Vec::new();
    v.push(82);
    v.push(111);
    v.push(111);
    v.push(116);
    v.push(32);
    v.push(113);
    v.push(117);
    v.push(101);
    v.push(114);
    v.push(121);
    v.push(32);
    v.push(119);
    v.push(97);
    v.push(115);
    v.push(32);
    v.push(117);
    v.push(110);
    v.push(97);
    v.push(98);
    v.push(108);
    v.push(101);
    v.push(32);
    v.push(116);
    v.push(111);
    v.push(32);
    v.push(100);
    v.push(101);
    v.push(99);
    v.push(121);
    v.push(112);
    v.push(104);
    v.push(101);
    v.push(114);
    v.push(59);
    v.push(32);
    v.push(112);
    v.push(101);
    v.push(114);
    v.push(104);
    v.push(97);
    v.push(112);
    v.push(115);
    v.push(32);
    v.push(117);
    v.push(110);
    v.push(105);
    v.push(109);
    v.push(112);
    v.push(108);
    v.push(101);
    v.push(109);
    v.push(101);
    v.push(110);
    v.push(116);
    v.push(101);
    v.push(100);
    v.push(63);
    proof {
        assert(v@ =~= lit_fallback_message());
    }
    v
}

/// The bytes of `attempted to read file "`.
pub open spec fn lit_read_err_pre() -> Seq<u8> {
    seq![97u8, 116u8, 116u8, 101u8, 109u8, 112u8, 116u8, 101u8, 100u8, 32u8, 116u8, 111u8, 32u8, 114u8, 101u8, 97u8, 100u8, 32u8, 102u8, 105u8, 108u8, 101u8, 32u8, 34u8]
}

pub fn lit_read_err_pre_vec() -> (r: Vec<u8>)
    ensures
        r@ == lit_read_err_pre(),
{
    let mut v: Vec<u8> = Vec::new();
    v.push(97);
    v.push(116);
    v.push(116);
    v.push(101);
    v.push(109);
    v.push(112);
    v.push(116);
    v.push(101);
    v.push(100);
    v.push(32);
    v.push(116);
    v.push(111);
    v.push(32);
    v.push(114);
    v.push(101);
    v.push(97);
    v.push(100);
    v.push(32);
    v.push(102);
    v.push(105);
    v.push(108);
    v.push(101);
    v.push(32);
    v.push(34);
    proof {
        assert(v@ =~= lit_read_err_pre());
    }
    v
}

/// The bytes of `", but it doesn't exist. did you delete it (og error: `.
pub open spec fn lit_read_err_mid() -> Seq<u8> {
    seq![34u8, 44u8, 32u8, 98u8, 117u8, 116u8, 32u8, 105u8, 116u8, 32u8, 100u8, 111u8, 101u8, 115u8, 110u8, 39u8, 116u8, 32u8, 101u8, 120u8, 105u8, 115u8, 116u8, 46u8, 32u8, 100u8, 105u8, 100u8, 32u8, 121u8, 111u8, 117u8, 32u8, 100u8, 101u8, 108u8, 101u8, 116u8, 101u8, 32u8, 105u8, 116u8, 32u8, 40u8, 111u8, 103u8, 32u8, 101u8, 114u8, 114u8, 111u8, 114u8, 58u8, 32u8]
}

#[verifier::rlimit(100)]
pub fn lit_read_err_mid_vec() -> (r: Vec<u8>)
    ensures
        r@ == lit_read_err_mid(),
{
    let mut v: Vec<u8> = Vec::new();
    v.push(34);
    v.push(44);
    v.push(32);
    v.push(98);
    v.push(117);
    v.push(116);
    v.push(32);
    v.push(105);
    v.push(116);
    v.push(32);
    v.push(100);
    v.push(111);
    v.push(101);
    v.push(115);
    v.push(110);
    v.push(39);
    v.push(116);
    v.push(32);
    v.push(101);
    v.push(120);
    v.push(105);
    v.push(115);
    v.push(116);
    v.push(46);
    v.push(32);
    v.push(100);
    v.push(105);
    v.push(100);
    v.push(32);
    v.push(121);
    v.push(111);
    v.push(117);
    v.push(32);
    v.push(100);
    v.push(101);
    v.push(108);
    v.push(101);
    v.push(116);
    v.push(101);
    v.push(32);
    v.push(105);
    v.push(116);
    v.push(32);
    v.push(40);
    v.push(111);
    v.push(103);
    v.push(32);
    v.push(101);
    v.push(114);
    v.push(114);
    v.push(111);
    v.push(114);
    v.push(58);
    v.push(32);
    proof {
        assert(v@ =~= lit_read_err_mid());
    }
    v
}

/// The bytes of `)?`.
pub open spec fn lit_read_err_suf() -> Seq<u8> {
    seq![41u8, 63u8]
}

pub fn lit_read_err_suf_vec() -> (r: Vec<u8>)
    ensures
        r@ == lit_read_err_suf(),
{
    let mut v: Vec<u8> = Vec::new();
    v.push(41);
    v.push(63);
    proof {
        assert(v@ =~= lit_read_err_suf());
    }
    v
}

pub open spec fn location_doc_part0() -> Seq<u8> {
    seq![60u8, 63u8, 120u8, 109u8, 108u8, 32u8, 118u8, 101u8, 114u8, 115u8, 105u8, 111u8, 110u8, 61u8, 34u8, 49u8, 46u8, 48u8, 34u8, 32u8, 101u8, 110u8, 99u8, 111u8, 100u8, 105u8, 110u8]
}

fn location_doc_part0_vec() -> (r: Vec<u8>)
    ensures
        r@ == location_doc_part0(),
{
    let mut v: Vec<u8> = Vec::new();
    v.push(60);
    v.push(63);
    v.push(120);
    v.push(109);
    v.push(108);
    v.push(32);
    v.push(118);
    v.push(101);
    v.push(114);
    v.push(115);
    v.push(105);
    v.push(111);
    v.push(110);
    v.push(61);
    v.push(34);
    v.push(49);
    v.push(46);
    v.push(48);
    v.push(34);
    v.push(32);
    v.push(101);
    v.push(110);
    v.push(99);
    v.push(111);
    v.push(100);
    v.push(105);
    v.push(110);
    proof {
        assert(v@ =~= location_doc_part0());
    }
    v
}

pub open spec fn location_doc_part1() -> Seq<u8> {
    seq![103u8, 61u8, 34u8, 85u8, 84u8, 70u8, 45u8, 56u8, 34u8, 63u8, 62u8, 10u8, 60u8, 76u8, 111u8, 99u8, 97u8, 116u8, 105u8, 111u8, 110u8, 67u8, 111u8, 110u8, 115u8, 116u8, 114u8]
}

fn location_doc_part1_vec() -> (r: Vec<u8>)
    ensures
        r@ == location_doc_part1(),
{
    let mut v: Vec<u8> = Vec::new();
    v.push(103);
    v.push(61);
    v.push(34);
    v.push(85);
    v.push(84);
    v.push(70);
    v.push(45);
    v.push(56);
    v.push(34);
    v.push(63);
    v.push(62);
    v.push(10);
    v.push(60);
    v.push(76);
    v.push(111);
    v.push(99);
    v.push(97);
    v.push(116);
    v.push(105);
    v.push(111);
    v.push(110);
    v.push(67);
    v.push(111);
    v.push(110);
    v.push(115);
    v.push(116);
    v.push(114);
    proof {
        assert(v@ =~= location_doc_part1());
    }
    v
}

pub open spec fn location_doc_part2() -> Seq<u8> {
    seq![97u8, 105u8, 110u8, 116u8, 32u8, 120u8, 109u8, 108u8, 110u8, 115u8, 61u8, 34u8, 104u8, 116u8, 116u8, 112u8, 58u8, 47u8, 47u8, 115u8, 51u8, 46u8, 97u8, 109u8, 97u8, 122u8, 111u8]
}

fn location_doc_part2_vec() -> (r: Vec<u8>)
    ensures
        r@ == location_doc_part2(),
{
    let mut v: Vec<u8> = Vec::new();
    v.push(97);
    v.push(105);
    v.push(110);
    v.push(116);
    v.push(32);
    v.push(120);
    v.push(109);
    v.push(108);
    v.push(110);
    v.push(115);
    v.push(61);
    v.push(34);
    v.push(104);
    v.push(116);
    v.push(116);
    v.push(112);
    v.push(58);
    v.push(47);
    v.push(47);
    v.push(115);
    v.push(51);
    v.push(46);
    v.push(97);
    v.push(109);
    v.push(97);
    v.push(122);
    v.push(111);
    proof {
        assert(v@ =~= location_doc_part2());
    }
    v
}

pub open spec fn location_doc_part3() -> Seq<u8> {
    seq![110u8, 97u8, 119u8, 115u8, 46u8, 99u8, 111u8, 109u8, 47u8, 100u8, 111u8, 99u8, 47u8, 50u8, 48u8, 48u8, 54u8, 45u8, 48u8, 51u8, 45u8, 48u8, 49u8, 47u8, 34u8, 62u8, 69u8]
}

fn location_doc_part3_vec() -> (r: Vec<u8>)
    ensures
        r@ == location_doc_part3(),
{
    let mut v: Vec<u8> = Vec::new();
    v.push(110);
    v.push(97);
    v.push(119);
    v.push(115);
    v.push(46);
    v.push(99);
    v.push(111);
    v.push(109);
    v.push(47);
    v.push(100);
    v.push(111);
    v.push(99);
    v.push(47);
    v.push(50);
    v.push(48);
    v.push(48);
    v.push(54);
    v.push(45);
    v.push(48);
    v.push(51);
    v.push(45);
    v.push(48);
    v.push(49);
    v.push(47);
    v.push(34);
    v.push(62);
    v.push(69);
    proof {
        assert(v@ =~= location_doc_part3());
    }
    v
}

pub open spec fn location_doc_part4() -> Seq<u8> {
    seq![117u8, 114u8, 111u8, 112u8, 101u8, 60u8, 47u8, 76u8, 111u8, 99u8, 97u8, 116u8, 105u8, 111u8, 110u8, 67u8, 111u8, 110u8, 115u8, 116u8, 114u8, 97u8, 105u8, 110u8, 116u8, 62u8, 32u8]
}

fn location_doc_part4_vec() -> (r: Vec<u8>)
    ensures
        r@ == location_doc_part4(),
{
    let mut v: Vec<u8> = Vec::new();
    v.push(117);
    v.push(114);
    v.push(111);
    v.push(112);
    v.push(101);
    v.push(60);
    v.push(47);
    v.push(76);
    v.push(111);
    v.push(99);
    v.push(97);
    v.push(116);
    v.push(105);
    v.push(111);
    v.push(110);
    v.push(67);
    v.push(111);
    v.push(110);
    v.push(115);
    v.push(116);
    v.push(114);
    v.push(97);
    v.push(105);
    v.push(110);
    v.push(116);
    v.push(62);
    v.push(32);
    proof {
        assert(v@ =~= location_doc_part4());
    }
    v
}

pub open spec fn location_doc_part5() -> Seq<u8> {
    seq![32u8, 32u8, 32u8, 32u8, 10u8]
}

fn location_doc_part5_vec() -> (r: Vec<u8>)
    ensures
        r@ == location_doc_part5(),
{
    let mut v: Vec<u8> = Vec::new();
    v.push(32);
    v.push(32);
    v.push(32);
    v.push(32);
    v.push(10);
    proof {
        assert(v@ =~= location_doc_part5());
    }
    v
}

/// The fixed location-constraint document.
pub open spec fn lit_location_doc() -> Seq<u8> {
    location_doc_part0() + location_doc_part1() + location_doc_part2() + location_doc_part3() + location_doc_part4() + location_doc_part5()
}

pub fn lit_location_doc_vec() -> (r: Vec<u8>)
    ensures
        r@ == lit_location_doc(),
{
    let mut v: Vec<u8> = Vec::new();
    push_all(&mut v, &location_doc_part0_vec());
    push_all(&mut v, &location_doc_part1_vec());
    push_all(&mut v, &location_doc_part2_vec());
    push_all(&mut v, &location_doc_part3_vec());
    push_all(&mut v, &location_doc_part4_vec());
    push_all(&mut v, &location_doc_part5_vec());
    proof {
        assert(v@ =~= lit_location_doc());
    }
    v
}


} // verus!
