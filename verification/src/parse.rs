//! Parsing the listing document back into a `ListBucketResult`: the inverse
//! of the renderer on everything the renderer produces, and tolerant enough
//! for documents with an XML declaration, attributes on the root element,
//! and whitespace between elements.

use vstd::prelude::*;

use crate::bytes::{bytes_eq, push_all};
use crate::numeral::{dec_parse, lemma_dec_of_digits, lemma_dec_val_of};
use crate::root::{bool_lit, render_content, render_contents, render_listing, Content, ContentV, ListBucketResult, ListingV};
use crate::xml::{
    close_tag, lit_contents, lit_encoding_type, lit_etag, lit_is_truncated, lit_key,
    lit_key_count, lit_last_modified, lit_list_bucket_result, lit_max_keys, lit_name, lit_size,
    lit_storage_class, lit_true, lit_false, open_tag, render_leaf,
};
use crate::xmlesc::{escape, lemma_escape_no_lt, lemma_unescape_escape, unescape, unescape_bytes};

verus! {

pub open spec fn is_ws(b: u8) -> bool {
    b == 32 || b == 9 || b == 10 || b == 13
}

pub open spec fn skip_ws(s: Seq<u8>) -> Seq<u8>
    decreases s.len(),
{
    if s.len() > 0 && is_ws(s[0]) {
        skip_ws(s.skip(1))
    } else {
        s
    }
}

pub open spec fn starts_with(s: Seq<u8>, p: Seq<u8>) -> bool {
    p.len() <= s.len() && s.take(p.len() as int) == p
}

/// How many bytes stand before the first `<`.
pub open spec fn until_lt_len(s: Seq<u8>) -> int
    decreases s.len(),
{
    if s.len() == 0 || s[0] == 60 {
        0
    } else {
        1 + until_lt_len(s.skip(1))
    }
}

/// How many bytes stand before the first `>`.
pub open spec fn until_gt_len(s: Seq<u8>) -> int
    decreases s.len(),
{
    if s.len() == 0 || s[0] == 62 {
        0
    } else {
        1 + until_gt_len(s.skip(1))
    }
}



/// Skips whitespace, then demands the literal.
pub open spec fn expect(s: Seq<u8>, lit: Seq<u8>) -> Option<Seq<u8>> {
    let t = skip_ws(s);
    if starts_with(t, lit) {
        Some(t.skip(lit.len() as int))
    } else {
        None
    }
}

/// One `<tag>value</tag>` element; the value is unescaped.
pub open spec fn parse_leaf(s: Seq<u8>, tag: Seq<u8>) -> Option<(Seq<u8>, Seq<u8>)> {
    match expect(s, open_tag(tag)) {
        None => None,
        Some(s1) => {
            let n = until_lt_len(s1);
            let s2 = s1.skip(n);
            if starts_with(s2, close_tag(tag)) {
                Some((unescape(s1.take(n)), s2.skip(close_tag(tag).len() as int)))
            } else {
                None
            }
        },
    }
}

/// A leaf holding a decimal number that fits in `usize`.
pub open spec fn parse_usize_leaf(s: Seq<u8>, tag: Seq<u8>) -> Option<(int, Seq<u8>)> {
    match parse_leaf(s, tag) {
        None => None,
        Some((v, rest)) => match dec_parse(v) {
            None => None,
            Some(n) => Some((n, rest)),
        },
    }
}

/// A leaf holding `true` or `false`.
pub open spec fn parse_bool_leaf(s: Seq<u8>, tag: Seq<u8>) -> Option<(bool, Seq<u8>)> {
    match parse_leaf(s, tag) {
        None => None,
        Some((v, rest)) => if v == lit_true() {
            Some((true, rest))
        } else if v == lit_false() {
            Some((false, rest))
        } else {
            None
        },
    }
}

/// One `<Contents>` element with its five fields, in the order the renderer
/// writes them.
pub open spec fn parse_content(s: Seq<u8>) -> Option<(ContentV, Seq<u8>)> {
    match expect(s, open_tag(lit_contents())) {
        None => None,
        Some(s1) => match parse_leaf(s1, lit_key()) {
            None => None,
            Some((key, s2)) => match parse_usize_leaf(s2, lit_size()) {
                None => None,
                Some((size, s3)) => match parse_leaf(s3, lit_last_modified()) {
                    None => None,
                    Some((lm, s4)) => match parse_leaf(s4, lit_etag()) {
                        None => None,
                        Some((etag, s5)) => match parse_leaf(s5, lit_storage_class()) {
                            None => None,
                            Some((sc, s6)) => match expect(s6, close_tag(lit_contents())) {
                                None => None,
                                Some(s7) => Some(
                                    (
                                        ContentV {
                                            key,
                                            size: size as nat,
                                            last_modified: lm,
                                            etag,
                                            storage_class: sc,
                                        },
                                        s7,
                                    ),
                                ),
                            },
                        },
                    },
                },
            },
        },
    }
}

/// Every `<Contents>` element standing at the front, in order.
pub open spec fn parse_contents(s: Seq<u8>, fuel: nat) -> Option<(Seq<ContentV>, Seq<u8>)>
    decreases fuel,
{
    if starts_with(skip_ws(s), open_tag(lit_contents())) {
        if fuel == 0 {
            None
        } else {
            match parse_content(s) {
                None => None,
                Some((c, rest)) => match parse_contents(rest, (fuel - 1) as nat) {
                    None => None,
                    Some((cs, r2)) => Some((seq![c] + cs, r2)),
                },
            }
        }
    } else {
        Some((Seq::empty(), s))
    }
}

/// Passes over an `<?xml ...?>` declaration if one stands at the front.
pub open spec fn skip_decl(s: Seq<u8>) -> Option<Seq<u8>> {
    let t = skip_ws(s);
    if starts_with(t, seq![60u8, 63u8]) {
        let n = until_gt_len(t);
        if n < t.len() {
            Some(t.skip(n + 1))
        } else {
            None
        }
    } else {
        Some(t)
    }
}

/// The root element's opening tag, attributes and all.
pub open spec fn parse_root_open(s: Seq<u8>) -> Option<Seq<u8>> {
    let t = skip_ws(s);
    if starts_with(t, seq![60u8] + lit_list_bucket_result()) {
        let u = t.skip(1 + lit_list_bucket_result().len() as int);
        let n = until_gt_len(u);
        if n < u.len() {
            Some(u.skip(n + 1))
        } else {
            None
        }
    } else {
        None
    }
}

/// The whole listing document; anything after the root element's closing
/// tag is ignored.
pub open spec fn parse_listing(s: Seq<u8>) -> Option<ListingV> {
    match skip_decl(s) {
        None => None,
        Some(s0) => match parse_root_open(s0) {
            None => None,
            Some(s1) => match parse_leaf(s1, lit_name()) {
                None => None,
                Some((bucket, s2)) => match parse_contents(s2, s2.len()) {
                    None => None,
                    Some((cs, s3)) => match parse_bool_leaf(s3, lit_is_truncated()) {
                        None => None,
                        Some((tr, s4)) => match parse_usize_leaf(s4, lit_max_keys()) {
                            None => None,
                            Some((mk, s5)) => match parse_usize_leaf(s5, lit_key_count()) {
                                None => None,
                                Some((kc, s6)) => match parse_leaf(s6, lit_encoding_type()) {
                                    None => None,
                                    Some((enc, s7)) => match expect(
                                        s7,
                                        close_tag(lit_list_bucket_result()),
                                    ) {
                                        None => None,
                                        Some(_) => Some(
                                            ListingV {
                                                bucket_name: bucket,
                                                is_truncated: tr,
                                                max_keys: mk as nat,
                                                key_count: kc as nat,
                                                encoding_type: enc,
                                                contents: cs,
                                            },
                                        ),
                                    },
                                },
                            },
                        },
                    },
                },
            },
        },
    }
}

proof fn lemma_expect_lit(lit: Seq<u8>, rest: Seq<u8>)
    requires
        lit.len() > 0,
        !is_ws(lit[0]),
    ensures
        expect(lit + rest, lit) == Some(rest),
{
    let s = lit + rest;
    assert(s[0] == lit[0]);
    assert(skip_ws(s) == s);
    assert(s.take(lit.len() as int) =~= lit);
    assert(s.skip(lit.len() as int) =~= rest);
}

proof fn lemma_until_lt_concat(a: Seq<u8>, b: Seq<u8>)
    requires
        forall|t: int| 0 <= t < a.len() ==> #[trigger] a[t] != 60,
        b.len() > 0,
        b[0] == 60,
    ensures
        until_lt_len(a + b) == a.len(),
    decreases a.len(),
{
    if a.len() == 0 {
        assert(a + b =~= b);
    } else {
        assert((a + b)[0] == a[0]);
        assert((a + b).skip(1) =~= a.skip(1) + b);
        assert(forall|t: int| 0 <= t < a.skip(1).len() ==> #[trigger] a.skip(1)[t] == a[t + 1]);
        lemma_until_lt_concat(a.skip(1), b);
    }
}

/// Parsing a rendered leaf gives back the value and the rest, whatever the
/// rest holds.
proof fn lemma_parse_leaf_render(tag: Seq<u8>, v: Seq<u8>, rest: Seq<u8>)
    ensures
        parse_leaf(render_leaf(tag, v) + rest, tag) == Some((v, rest)),
{
    let s = render_leaf(tag, v) + rest;
    let r1 = escape(v) + close_tag(tag) + rest;
    assert(s =~= open_tag(tag) + r1);
    assert(open_tag(tag)[0] == 60);
    lemma_expect_lit(open_tag(tag), r1);
    lemma_escape_no_lt(v);
    assert(close_tag(tag)[0] == 60);
    assert(r1 =~= escape(v) + (close_tag(tag) + rest));
    lemma_until_lt_concat(escape(v), close_tag(tag) + rest);
    assert(until_lt_len(r1) == escape(v).len());
    assert(r1.take(escape(v).len() as int) =~= escape(v));
    let s2 = r1.skip(escape(v).len() as int);
    assert(s2 =~= close_tag(tag) + rest);
    assert(s2.take(close_tag(tag).len() as int) =~= close_tag(tag));
    assert(starts_with(s2, close_tag(tag)));
    assert(s2.skip(close_tag(tag).len() as int) =~= rest);
    lemma_unescape_escape(v);
}

proof fn lemma_parse_usize_leaf_render(tag: Seq<u8>, n: nat, rest: Seq<u8>)
    requires
        n <= usize::MAX,
    ensures
        parse_usize_leaf(render_leaf(tag, crate::numeral::dec_of(n)) + rest, tag) == Some(
            (n as int, rest),
        ),
{
    lemma_parse_leaf_render(tag, crate::numeral::dec_of(n), rest);
    lemma_dec_of_digits(n);
    lemma_dec_val_of(n);
}

proof fn lemma_parse_bool_leaf_render(tag: Seq<u8>, b: bool, rest: Seq<u8>)
    ensures
        parse_bool_leaf(render_leaf(tag, bool_lit(b)) + rest, tag) == Some((b, rest)),
{
    lemma_parse_leaf_render(tag, bool_lit(b), rest);
    if b {
        assert(lit_true() != lit_false()) by {
            assert(lit_true().len() != lit_false().len());
        }
    } else {
        assert(lit_false() != lit_true()) by {
            assert(lit_true().len() != lit_false().len());
        }
    }
}

/// Parsing a rendered object element gives it back.
#[verifier::rlimit(100)]
proof fn lemma_parse_content_render(c: ContentV, rest: Seq<u8>)
    requires
        c.size <= usize::MAX,
    ensures
        parse_content(render_content(c) + rest) == Some((c, rest)),
{
    let s = render_content(c) + rest;
    let r5 = close_tag(lit_contents()) + rest;
    let r4 = render_leaf(lit_storage_class(), c.storage_class) + r5;
    let r3 = render_leaf(lit_etag(), c.etag) + r4;
    let r2 = render_leaf(lit_last_modified(), c.last_modified) + r3;
    let r1 = render_leaf(lit_size(), crate::numeral::dec_of(c.size)) + r2;
    let r0 = render_leaf(lit_key(), c.key) + r1;
    assert(s =~= open_tag(lit_contents()) + r0);
    assert(open_tag(lit_contents())[0] == 60);
    lemma_expect_lit(open_tag(lit_contents()), r0);
    lemma_parse_leaf_render(lit_key(), c.key, r1);
    lemma_parse_usize_leaf_render(lit_size(), c.size, r2);
    lemma_parse_leaf_render(lit_last_modified(), c.last_modified, r3);
    lemma_parse_leaf_render(lit_etag(), c.etag, r4);
    lemma_parse_leaf_render(lit_storage_class(), c.storage_class, r5);
    assert(close_tag(lit_contents())[0] == 60);
    lemma_expect_lit(close_tag(lit_contents()), rest);
}

/// Each rendered object occupies at least one byte.
proof fn lemma_render_contents_len(cs: Seq<ContentV>, i: int)
    requires
        0 <= i,
    ensures
        render_contents(cs, i).len() >= cs.len() - i,
    decreases cs.len() - i,
{
    if 0 <= i && i < cs.len() {
        lemma_render_contents_len(cs, i + 1);
        assert(render_content(cs[i]).len() >= 1) by {
            assert(open_tag(lit_contents()).len() >= 1);
        }
    }
}

/// Parsing the rendered run of objects gives them all back, stopping at
/// whatever follows, provided it is a tag other than `<Contents>`.
#[verifier::rlimit(100)]
proof fn lemma_parse_contents_render(cs: Seq<ContentV>, i: int, rest: Seq<u8>, fuel: nat)
    requires
        0 <= i <= cs.len(),
        fuel >= cs.len() - i,
        forall|t: int| 0 <= t < cs.len() ==> (#[trigger] cs[t]).size <= usize::MAX,
        rest.len() >= 2,
        rest[0] == 60,
        rest[1] != 67,
        rest[1] != 63,
    ensures
        parse_contents(render_contents(cs, i) + rest, fuel) == Some((cs.skip(i), rest)),
    decreases cs.len() - i,
{
    if i >= cs.len() {
        assert(render_contents(cs, i) + rest =~= rest);
        assert(skip_ws(rest) == rest);
        assert(!starts_with(rest, open_tag(lit_contents()))) by {
            assert(open_tag(lit_contents())[1] == 67);
            if starts_with(rest, open_tag(lit_contents())) {
                assert(rest.take(open_tag(lit_contents()).len() as int)[1] == rest[1]);
            }
        }
        assert(cs.skip(i) =~= Seq::<ContentV>::empty());
    } else {
        let s = render_contents(cs, i) + rest;
        let tail = render_contents(cs, i + 1) + rest;
        assert(render_contents(cs, i) == render_content(cs[i]) + render_contents(cs, i + 1));
        assert(s =~= render_content(cs[i]) + tail);
        assert(s[0] == 60 && s.len() > 0) by {
            assert(render_content(cs[i])[0] == open_tag(lit_contents())[0]);
        }
        assert(skip_ws(s) == s);
        assert(starts_with(s, open_tag(lit_contents()))) by {
            assert(s.take(open_tag(lit_contents()).len() as int) =~= open_tag(lit_contents()));
        }
        lemma_parse_content_render(cs[i], tail);
        lemma_parse_contents_render(cs, i + 1, rest, (fuel - 1) as nat);
        assert(seq![cs[i]] + cs.skip(i + 1) =~= cs.skip(i));
    }
}

/// The listing round trip: parsing a rendered listing yields it back,
/// field for field and object for object.
#[verifier::rlimit(100)]
pub proof fn lemma_listing_round_trip(l: ListingV)
    requires
        l.max_keys <= usize::MAX,
        l.key_count <= usize::MAX,
        forall|t: int| 0 <= t < l.contents.len() ==> (#[trigger] l.contents[t]).size <= usize::MAX,
    ensures
        parse_listing(render_listing(l)) == Some(l),
{
    let s = render_listing(l);
    let lbr = lit_list_bucket_result();
    let r7 = close_tag(lbr);
    let r6 = render_leaf(lit_encoding_type(), l.encoding_type) + r7;
    let r5 = render_leaf(lit_key_count(), crate::numeral::dec_of(l.key_count)) + r6;
    let r4 = render_leaf(lit_max_keys(), crate::numeral::dec_of(l.max_keys)) + r5;
    let r3 = render_leaf(lit_is_truncated(), bool_lit(l.is_truncated)) + r4;
    let r2 = render_contents(l.contents, 0) + r3;
    let r1 = render_leaf(lit_name(), l.bucket_name) + r2;
    assert(s =~= open_tag(lbr) + r1);
    assert(s[0] == 60 && s[1] == 76) by {
        assert(open_tag(lbr)[0] == 60);
        assert(open_tag(lbr)[1] == lbr[0]);
    }
    // no declaration stands at the front
    assert(skip_ws(s) == s);
    assert(skip_decl(s) == Some(s)) by {
        if starts_with(s, seq![60u8, 63u8]) {
            assert(s.take(2)[1] == s[1]);
        }
    }
    // the root tag opens with no attributes
    assert(parse_root_open(s) == Some(r1)) by {
        assert(s.take(1 + lbr.len() as int) =~= seq![60u8] + lbr);
        let u = s.skip(1 + lbr.len() as int);
        assert(u =~= seq![62u8] + r1);
        assert(u[0] == 62);
        assert(until_gt_len(u) == 0);
        assert(u.skip(1) =~= r1);
    }
    lemma_parse_leaf_render(lit_name(), l.bucket_name, r2);
    assert(r3.len() >= 2 && r3[0] == 60 && r3[1] != 67 && r3[1] != 63) by {
        assert(r3[0] == render_leaf(lit_is_truncated(), bool_lit(l.is_truncated))[0]);
        assert(r3[1] == render_leaf(lit_is_truncated(), bool_lit(l.is_truncated))[1]);
        assert(render_leaf(lit_is_truncated(), bool_lit(l.is_truncated))[0] == open_tag(
            lit_is_truncated(),
        )[0]);
        assert(render_leaf(lit_is_truncated(), bool_lit(l.is_truncated))[1] == open_tag(
            lit_is_truncated(),
        )[1]);
        assert(open_tag(lit_is_truncated())[1] == lit_is_truncated()[0]);
    }
    lemma_render_contents_len(l.contents, 0);
    lemma_parse_contents_render(l.contents, 0, r3, r2.len());
    assert(l.contents.skip(0) =~= l.contents);
    lemma_parse_bool_leaf_render(lit_is_truncated(), l.is_truncated, r4);
    lemma_parse_usize_leaf_render(lit_max_keys(), l.max_keys, r5);
    lemma_parse_usize_leaf_render(lit_key_count(), l.key_count, r6);
    lemma_parse_leaf_render(lit_encoding_type(), l.encoding_type, r7);
    assert(r7 =~= close_tag(lbr) + Seq::<u8>::empty());
    assert(close_tag(lbr)[0] == 60);
    lemma_expect_lit(close_tag(lbr), Seq::<u8>::empty());
}

/// The round trip stated of an executable listing, whose numbers always fit.
pub proof fn lemma_listing_round_trip_exec(l: crate::root::ListBucketResult)
    ensures
        parse_listing(render_listing(l@)) == Some(l@),
{
    assert forall|t: int| 0 <= t < l@.contents.len() implies (#[trigger] l@.contents[t]).size
        <= usize::MAX by {
        assert(l@.contents[t] == l.contents@[t]@);
    }
    lemma_listing_round_trip(l@);
}

fn make_open_tag(tag: &Vec<u8>) -> (r: Vec<u8>)
    ensures
        r@ == open_tag(tag@),
{
    let mut v: Vec<u8> = Vec::new();
    v.push(60);
    push_all(&mut v, tag);
    v.push(62);
    proof {
        assert(v@ =~= open_tag(tag@));
    }
    v
}

fn make_close_tag(tag: &Vec<u8>) -> (r: Vec<u8>)
    ensures
        r@ == close_tag(tag@),
{
    let mut v: Vec<u8> = Vec::new();
    v.push(60);
    v.push(47);
    push_all(&mut v, tag);
    v.push(62);
    proof {
        assert(v@ =~= close_tag(tag@));
    }
    v
}

fn copy_range(s: &Vec<u8>, from: usize, to: usize) -> (r: Vec<u8>)
    requires
        from <= to <= s@.len(),
    ensures
        r@ == s@.subrange(from as int, to as int),
{
    let mut v: Vec<u8> = Vec::new();
    let mut k = from;
    while k < to
        invariant
            from <= k <= to,
            v@ == s@.subrange(from as int, k as int),
        decreases to - k,
    {
        v.push(s[k]);
        proof {
            assert(s@.subrange(from as int, k + 1) =~= s@.subrange(from as int, k as int).push(
                s@[k as int],
            ));
        }
        k = k + 1;
    }
    v
}

fn skip_ws_exec(s: &Vec<u8>, pos: usize) -> (r: usize)
    requires
        pos <= s@.len(),
    ensures
        pos <= r <= s@.len(),
        s@.skip(r as int) == skip_ws(s@.skip(pos as int)),
{
    let mut i = pos;
    while i < s.len() && (s[i] == 32 || s[i] == 9 || s[i] == 10 || s[i] == 13)
        invariant
            pos <= i <= s@.len(),
            skip_ws(s@.skip(pos as int)) == skip_ws(s@.skip(i as int)),
        decreases s@.len() - i,
    {
        proof {
            assert(s@.skip(i as int)[0] == s@[i as int]);
            assert(s@.skip(i as int).skip(1) =~= s@.skip(i as int + 1));
        }
        i = i + 1;
    }
    proof {
        let t = s@.skip(i as int);
        if i == s.len() {
            assert(t =~= Seq::<u8>::empty());
        }
        assert(skip_ws(t) == t);
    }
    i
}

fn starts_with_exec(s: &Vec<u8>, pos: usize, lit: &Vec<u8>) -> (r: bool)
    requires
        pos <= s@.len(),
    ensures
        r == starts_with(s@.skip(pos as int), lit@),
{
    if s.len() - pos < lit.len() {
        return false;
    }
    let mut k: usize = 0;
    while k < lit.len()
        invariant
            0 <= k <= lit@.len(),
            pos + lit@.len() <= s@.len(),
            forall|m: int| 0 <= m < k ==> s@[pos + m] == lit@[m],
        decreases lit@.len() - k,
    {
        if s[pos + k] != lit[k] {
            proof {
                if starts_with(s@.skip(pos as int), lit@) {
                    assert(s@.skip(pos as int).take(lit@.len() as int)[k as int] == s@[pos + k]);
                }
            }
            return false;
        }
        k = k + 1;
    }
    proof {
        assert(s@.skip(pos as int).take(lit@.len() as int) =~= lit@);
    }
    true
}

fn until_lt_exec(s: &Vec<u8>, pos: usize) -> (r: usize)
    requires
        pos <= s@.len(),
    ensures
        pos <= r <= s@.len(),
        until_lt_len(s@.skip(pos as int)) == r - pos,
{
    let mut i = pos;
    while i < s.len() && s[i] != 60
        invariant
            pos <= i <= s@.len(),
            until_lt_len(s@.skip(pos as int)) == (i - pos) + until_lt_len(s@.skip(i as int)),
        decreases s@.len() - i,
    {
        proof {
            assert(s@.skip(i as int)[0] == s@[i as int]);
            assert(s@.skip(i as int).skip(1) =~= s@.skip(i as int + 1));
        }
        i = i + 1;
    }
    proof {
        if i == s.len() {
            assert(s@.skip(i as int) =~= Seq::<u8>::empty());
        } else {
            assert(s@.skip(i as int)[0] == s@[i as int]);
        }
        assert(until_lt_len(s@.skip(i as int)) == 0);
    }
    i
}

fn until_gt_exec(s: &Vec<u8>, pos: usize) -> (r: usize)
    requires
        pos <= s@.len(),
    ensures
        pos <= r <= s@.len(),
        until_gt_len(s@.skip(pos as int)) == r - pos,
{
    let mut i = pos;
    while i < s.len() && s[i] != 62
        invariant
            pos <= i <= s@.len(),
            until_gt_len(s@.skip(pos as int)) == (i - pos) + until_gt_len(s@.skip(i as int)),
        decreases s@.len() - i,
    {
        proof {
            assert(s@.skip(i as int)[0] == s@[i as int]);
            assert(s@.skip(i as int).skip(1) =~= s@.skip(i as int + 1));
        }
        i = i + 1;
    }
    proof {
        if i == s.len() {
            assert(s@.skip(i as int) =~= Seq::<u8>::empty());
        } else {
            assert(s@.skip(i as int)[0] == s@[i as int]);
        }
        assert(until_gt_len(s@.skip(i as int)) == 0);
    }
    i
}

fn expect_exec(s: &Vec<u8>, pos: usize, lit: &Vec<u8>) -> (r: Option<usize>)
    requires
        pos <= s@.len(),
    ensures
        match r {
            Some(p2) => pos <= p2 <= s@.len() && expect(s@.skip(pos as int), lit@) == Some(
                s@.skip(p2 as int),
            ),
            None => expect(s@.skip(pos as int), lit@) is None,
        },
{
    let i = skip_ws_exec(s, pos);
    let slen = s.len();
    if starts_with_exec(s, i, lit) {
        proof {
            assert(s@.len() == slen);
            assert(lit@.len() <= s@.len() - i);
            assert(s@.skip(i as int).skip(lit@.len() as int) =~= s@.skip(i + lit@.len()));
        }
        Some(i + lit.len())
    } else {
        None
    }
}

fn parse_leaf_exec(s: &Vec<u8>, pos: usize, tag: &Vec<u8>) -> (r: Option<(Vec<u8>, usize)>)
    requires
        pos <= s@.len(),
    ensures
        match r {
            Some(v) => v.1 <= s@.len() && parse_leaf(s@.skip(pos as int), tag@) == Some(
                (v.0@, s@.skip(v.1 as int)),
            ),
            None => parse_leaf(s@.skip(pos as int), tag@) is None,
        },
{
    let otag = make_open_tag(tag);
    match expect_exec(s, pos, &otag) {
        None => None,
        Some(p1) => {
            let j = until_lt_exec(s, p1);
            proof {
                assert(s@.skip(p1 as int).take((j - p1) as int) =~= s@.subrange(
                    p1 as int,
                    j as int,
                ));
                assert(s@.skip(p1 as int).skip((j - p1) as int) =~= s@.skip(j as int));
            }
            let ctag = make_close_tag(tag);
            let slen = s.len();
            if starts_with_exec(s, j, &ctag) {
                let raw = copy_range(s, p1, j);
                let v = unescape_bytes(&raw);
                proof {
                    assert(s@.len() == slen);
                    assert(ctag@.len() <= s@.len() - j);
                    assert(s@.skip(j as int).skip(ctag@.len() as int) =~= s@.skip(
                        j + ctag@.len(),
                    ));
                }
                Some((v, j + ctag.len()))
            } else {
                None
            }
        },
    }
}

fn parse_usize_leaf_exec(s: &Vec<u8>, pos: usize, tag: &Vec<u8>) -> (r: Option<(usize, usize)>)
    requires
        pos <= s@.len(),
    ensures
        match r {
            Some(v) => v.1 <= s@.len() && parse_usize_leaf(s@.skip(pos as int), tag@) == Some(
                (v.0 as int, s@.skip(v.1 as int)),
            ),
            None => parse_usize_leaf(s@.skip(pos as int), tag@) is None,
        },
{
    match parse_leaf_exec(s, pos, tag) {
        None => None,
        Some((v, p2)) => match crate::numeral::parse_dec(&v) {
            None => None,
            Some(n) => Some((n, p2)),
        },
    }
}

fn parse_bool_leaf_exec(s: &Vec<u8>, pos: usize, tag: &Vec<u8>) -> (r: Option<(bool, usize)>)
    requires
        pos <= s@.len(),
    ensures
        match r {
            Some(v) => v.1 <= s@.len() && parse_bool_leaf(s@.skip(pos as int), tag@) == Some(
                (v.0, s@.skip(v.1 as int)),
            ),
            None => parse_bool_leaf(s@.skip(pos as int), tag@) is None,
        },
{
    match parse_leaf_exec(s, pos, tag) {
        None => None,
        Some((v, p2)) => {
            if bytes_eq(&v, &crate::xml::lit_true_vec()) {
                Some((true, p2))
            } else if bytes_eq(&v, &crate::xml::lit_false_vec()) {
                Some((false, p2))
            } else {
                None
            }
        },
    }
}

fn parse_content_exec(s: &Vec<u8>, pos: usize) -> (r: Option<(Content, usize)>)
    requires
        pos <= s@.len(),
    ensures
        match r {
            Some(v) => v.1 <= s@.len() && parse_content(s@.skip(pos as int)) == Some(
                (v.0@, s@.skip(v.1 as int)),
            ),
            None => parse_content(s@.skip(pos as int)) is None,
        },
{
    let otag = make_open_tag(&crate::xml::lit_contents_vec());
    match expect_exec(s, pos, &otag) {
        None => None,
        Some(p1) => match parse_leaf_exec(s, p1, &crate::xml::lit_key_vec()) {
            None => None,
            Some((key, p2)) => match parse_usize_leaf_exec(s, p2, &crate::xml::lit_size_vec()) {
                None => None,
                Some((size, p3)) => match parse_leaf_exec(
                    s,
                    p3,
                    &crate::xml::lit_last_modified_vec(),
                ) {
                    None => None,
                    Some((lm, p4)) => match parse_leaf_exec(s, p4, &crate::xml::lit_etag_vec()) {
                        None => None,
                        Some((etag, p5)) => match parse_leaf_exec(
                            s,
                            p5,
                            &crate::xml::lit_storage_class_vec(),
                        ) {
                            None => None,
                            Some((sc, p6)) => {
                                let ctag = make_close_tag(&crate::xml::lit_contents_vec());
                                match expect_exec(s, p6, &ctag) {
                                    None => None,
                                    Some(p7) => {
                                        let c = Content {
                                            key,
                                            size,
                                            last_modified: lm,
                                            etag,
                                            storage_class: sc,
                                        };
                                        Some((c, p7))
                                    },
                                }
                            },
                        },
                    },
                },
            },
        },
    }
}

fn parse_contents_exec(s: &Vec<u8>, pos: usize, fuel: usize) -> (r: Option<(Vec<Content>, usize)>)
    requires
        pos <= s@.len(),
    ensures
        match r {
            Some(v) => v.1 <= s@.len() && parse_contents(s@.skip(pos as int), fuel as nat)
                == Some((v.0@.map_values(|c: Content| c@), s@.skip(v.1 as int))),
            None => parse_contents(s@.skip(pos as int), fuel as nat) is None,
        },
    decreases fuel,
{
    let t = skip_ws_exec(s, pos);
    let otag = make_open_tag(&crate::xml::lit_contents_vec());
    if !starts_with_exec(s, t, &otag) {
        let empty: Vec<Content> = Vec::new();
        proof {
            assert(empty@.map_values(|c: Content| c@) =~= Seq::<ContentV>::empty());
        }
        return Some((empty, pos));
    }
    if fuel == 0 {
        return None;
    }
    match parse_content_exec(s, pos) {
        None => None,
        Some((c, p1)) => match parse_contents_exec(s, p1, fuel - 1) {
            None => None,
            Some((mut cs, p2)) => {
                let ghost oldcs = cs@;
                cs.insert(0, c);
                proof {
                    assert(cs@.map_values(|c: Content| c@) =~= seq![c@] + oldcs.map_values(
                        |c: Content| c@,
                    ));
                }
                Some((cs, p2))
            },
        },
    }
}

fn skip_decl_exec(s: &Vec<u8>, pos: usize) -> (r: Option<usize>)
    requires
        pos <= s@.len(),
    ensures
        match r {
            Some(p2) => p2 <= s@.len() && skip_decl(s@.skip(pos as int)) == Some(
                s@.skip(p2 as int),
            ),
            None => skip_decl(s@.skip(pos as int)) is None,
        },
{
    let t = skip_ws_exec(s, pos);
    let mut q: Vec<u8> = Vec::new();
    q.push(60);
    q.push(63);
    proof {
        assert(q@ =~= seq![60u8, 63u8]);
    }
    if starts_with_exec(s, t, &q) {
        let n = until_gt_exec(s, t);
        if n < s.len() {
            proof {
                assert(s@.skip(t as int).skip((n - t) + 1) =~= s@.skip(n + 1));
            }
            Some(n + 1)
        } else {
            None
        }
    } else {
        Some(t)
    }
}

fn parse_root_open_exec(s: &Vec<u8>, pos: usize) -> (r: Option<usize>)
    requires
        pos <= s@.len(),
    ensures
        match r {
            Some(p2) => p2 <= s@.len() && parse_root_open(s@.skip(pos as int)) == Some(
                s@.skip(p2 as int),
            ),
            None => parse_root_open(s@.skip(pos as int)) is None,
        },
{
    let t = skip_ws_exec(s, pos);
    let mut p: Vec<u8> = Vec::new();
    p.push(60);
    push_all(&mut p, &crate::xml::lit_list_bucket_result_vec());
    proof {
        assert(p@ =~= seq![60u8] + lit_list_bucket_result());
    }
    let slen = s.len();
    if starts_with_exec(s, t, &p) {
        proof {
            assert(s@.len() == slen);
            assert(p@.len() <= s@.len() - t);
        }
        let u_start = t + p.len();
        proof {
            assert(s@.skip(t as int).skip(p@.len() as int) =~= s@.skip(u_start as int));
        }
        let n = until_gt_exec(s, u_start);
        if n < s.len() {
            proof {
                assert(s@.skip(u_start as int).skip((n - u_start) + 1) =~= s@.skip(n + 1));
            }
            Some(n + 1)
        } else {
            None
        }
    } else {
        None
    }
}

/// Parses a listing document into its executable value.
pub fn parse_listing_exec(s: &Vec<u8>) -> (r: Option<ListBucketResult>)
    ensures
        match r {
            Some(l) => parse_listing(s@) == Some(l@),
            None => parse_listing(s@) is None,
        },
{
    proof {
        assert(s@.skip(0) =~= s@);
    }
    match skip_decl_exec(s, 0) {
        None => None,
        Some(p0) => match parse_root_open_exec(s, p0) {
            None => None,
            Some(p1) => match parse_leaf_exec(s, p1, &crate::xml::lit_name_vec()) {
                None => None,
                Some((bucket, p2)) => {
                    let fuel = s.len() - p2;
                    match parse_contents_exec(s, p2, fuel) {
                        None => None,
                        Some((contents, p3)) => match parse_bool_leaf_exec(
                            s,
                            p3,
                            &crate::xml::lit_is_truncated_vec(),
                        ) {
                            None => None,
                            Some((tr, p4)) => match parse_usize_leaf_exec(
                                s,
                                p4,
                                &crate::xml::lit_max_keys_vec(),
                            ) {
                                None => None,
                                Some((mk, p5)) => match parse_usize_leaf_exec(
                                    s,
                                    p5,
                                    &crate::xml::lit_key_count_vec(),
                                ) {
                                    None => None,
                                    Some((kc, p6)) => match parse_leaf_exec(
                                        s,
                                        p6,
                                        &crate::xml::lit_encoding_type_vec(),
                                    ) {
                                        None => None,
                                        Some((enc, p7)) => {
                                            let ctag = make_close_tag(
                                                &crate::xml::lit_list_bucket_result_vec(),
                                            );
                                            match expect_exec(s, p7, &ctag) {
                                                None => None,
                                                Some(_) => {
                                                    let l = ListBucketResult {
                                                        bucket_name: bucket,
                                                        is_truncated: tr,
                                                        max_keys: mk,
                                                        key_count: kc,
                                                        encoding_type: enc,
                                                        contents,
                                                    };
                                                    Some(l)
                                                },
                                            }
                                        },
                                    },
                                },
                            },
                        },
                    }
                },
            },
        },
    }
}


} // verus!
