//! Escaping of text that is placed inside an XML element, and its inverse.
//!
//! The four characters that XML reserves in text content (`<`, `>`, `&`,
//! `"`) are replaced by their entities; unescaping maps the entities back
//! and leaves everything else alone.

use vstd::prelude::*;

verus! {

pub open spec fn lt_ent() -> Seq<u8> {
    seq![38u8, 108u8, 116u8, 59u8]
}

pub open spec fn gt_ent() -> Seq<u8> {
    seq![38u8, 103u8, 116u8, 59u8]
}

pub open spec fn amp_ent() -> Seq<u8> {
    seq![38u8, 97u8, 109u8, 112u8, 59u8]
}

pub open spec fn quot_ent() -> Seq<u8> {
    seq![38u8, 113u8, 117u8, 111u8, 116u8, 59u8]
}

pub open spec fn esc_byte(b: u8) -> Seq<u8> {
    if b == 60 {
        lt_ent()
    } else if b == 62 {
        gt_ent()
    } else if b == 38 {
        amp_ent()
    } else if b == 34 {
        quot_ent()
    } else {
        seq![b]
    }
}

pub open spec fn escape(s: Seq<u8>) -> Seq<u8>
    decreases s.len(),
{
    if s.len() == 0 {
        Seq::empty()
    } else {
        esc_byte(s[0]) + escape(s.skip(1))
    }
}

pub open spec fn unescape(s: Seq<u8>) -> Seq<u8>
    decreases s.len(),
{
    if s.len() == 0 {
        Seq::empty()
    } else if s[0] == 38 {
        if s.len() >= 4 && s.take(4) == lt_ent() {
            seq![60u8] + unescape(s.skip(4))
        } else if s.len() >= 4 && s.take(4) == gt_ent() {
            seq![62u8] + unescape(s.skip(4))
        } else if s.len() >= 5 && s.take(5) == amp_ent() {
            seq![38u8] + unescape(s.skip(5))
        } else if s.len() >= 6 && s.take(6) == quot_ent() {
            seq![34u8] + unescape(s.skip(6))
        } else {
            seq![38u8] + unescape(s.skip(1))
        }
    } else {
        seq![s[0]] + unescape(s.skip(1))
    }
}

/// Escaped text never holds a raw `<`, so an element's text content ends at
/// the first `<` that follows it.
pub proof fn lemma_escape_no_lt(s: Seq<u8>)
    ensures
        forall|i: int| 0 <= i < escape(s).len() ==> #[trigger] escape(s)[i] != 60,
    decreases s.len(),
{
    if s.len() > 0 {
        lemma_escape_no_lt(s.skip(1));
        assert forall|i: int| 0 <= i < escape(s).len() implies #[trigger] escape(s)[i] != 60 by {
            if i < esc_byte(s[0]).len() {
                assert(escape(s)[i] == esc_byte(s[0])[i]);
            } else {
                assert(escape(s)[i] == escape(s.skip(1))[i - esc_byte(s[0]).len()]);
            }
        }
    }
}

/// Escaping one more byte appends that byte's escape.
proof fn lemma_escape_snoc(s: Seq<u8>, b: u8)
    ensures
        escape(s.push(b)) == escape(s) + esc_byte(b),
    decreases s.len(),
{
    if s.len() == 0 {
        assert(s.push(b).skip(1) =~= Seq::<u8>::empty());
        assert(s.push(b)[0] == b);
        assert(escape(s.push(b)) == esc_byte(b) + escape(s.push(b).skip(1)));
        assert(escape(Seq::<u8>::empty()) == Seq::<u8>::empty());
        assert(escape(s.push(b)) =~= escape(s) + esc_byte(b));
    } else {
        assert(s.push(b).skip(1) =~= s.skip(1).push(b));
        lemma_escape_snoc(s.skip(1), b);
        assert(s.push(b)[0] == s[0]);
        assert(escape(s.push(b)) == esc_byte(s[0]) + escape(s.skip(1).push(b)));
        assert(escape(s.push(b)) == esc_byte(s[0]) + (escape(s.skip(1)) + esc_byte(b)));
        assert(escape(s.push(b)) =~= escape(s) + esc_byte(b));
    }
}

/// Unescaping inverts escaping on every byte string.
pub proof fn lemma_unescape_escape(s: Seq<u8>)
    ensures
        unescape(escape(s)) == s,
    decreases s.len(),
{
    if s.len() == 0 {
    } else {
        lemma_unescape_escape(s.skip(1));
        let e = escape(s);
        let b = s[0];
        assert(e == esc_byte(b) + escape(s.skip(1)));
        if b == 60 {
            assert(e.take(4) =~= lt_ent());
            assert(e.skip(4) =~= escape(s.skip(1)));
            assert(unescape(e) =~= s);
        } else if b == 62 {
            assert(e[1] == 103);
            assert(e.len() >= 4 && e.take(4) == lt_ent() ==> false);
            assert(e.take(4) =~= gt_ent());
            assert(e.skip(4) =~= escape(s.skip(1)));
            assert(unescape(e) =~= s);
        } else if b == 38 {
            assert(e[1] == 97);
            assert(e.len() >= 4 && e.take(4) == lt_ent() ==> false);
            assert(e.len() >= 4 && e.take(4) == gt_ent() ==> false);
            assert(e.take(5) =~= amp_ent());
            assert(e.skip(5) =~= escape(s.skip(1)));
            assert(unescape(e) =~= s);
        } else if b == 34 {
            assert(e[1] == 113);
            assert(e.len() >= 4 && e.take(4) == lt_ent() ==> false);
            assert(e.len() >= 4 && e.take(4) == gt_ent() ==> false);
            assert(e.len() >= 5 && e.take(5) == amp_ent() ==> false);
            assert(e.take(6) =~= quot_ent());
            assert(e.skip(6) =~= escape(s.skip(1)));
            assert(unescape(e) =~= s);
        } else {
            assert(e[0] == b && b != 38);
            assert(e.skip(1) =~= escape(s.skip(1)));
            assert(unescape(e) =~= s);
        }
    }
}

/// Escapes the reserved characters of `s`.
pub fn escape_bytes(s: &Vec<u8>) -> (r: Vec<u8>)
    ensures
        r@ == escape(s@),
{
    let mut out: Vec<u8> = Vec::new();
    let mut i: usize = 0;
    while i < s.len()
        invariant
            i <= s.len(),
            out@ == escape(s@.take(i as int)),
        decreases s.len() - i,
    {
        let b = s[i];
        proof {
            assert(s@.take(i + 1) =~= s@.take(i as int).push(b));
            lemma_escape_snoc(s@.take(i as int), b);
        }
        if b == 60 {
            out.push(38);
            out.push(108);
            out.push(116);
            out.push(59);
        } else if b == 62 {
            out.push(38);
            out.push(103);
            out.push(116);
            out.push(59);
        } else if b == 38 {
            out.push(38);
            out.push(97);
            out.push(109);
            out.push(112);
            out.push(59);
        } else if b == 34 {
            out.push(38);
            out.push(113);
            out.push(117);
            out.push(111);
            out.push(116);
            out.push(59);
        } else {
            out.push(b);
        }
        proof {
            assert(out@ =~= escape(s@.take(i as int)) + esc_byte(b));
        }
        i = i + 1;
    }
    proof {
        assert(s@.take(s@.len() as int) =~= s@);
    }
    out
}

/// Replaces the four entities by the characters they stand for.
pub fn unescape_bytes(s: &Vec<u8>) -> (r: Vec<u8>)
    ensures
        r@ == unescape(s@),
{
    let mut out: Vec<u8> = Vec::new();
    let mut i: usize = 0;
    proof {
        assert(s@.skip(0) =~= s@);
        assert(Seq::<u8>::empty() + unescape(s@) =~= unescape(s@));
    }
    while i < s.len()
        invariant
            i <= s.len(),
            unescape(s@) == out@ + unescape(s@.skip(i as int)),
        decreases s.len() - i,
    {
        let ghost rest = s@.skip(i as int);
        let b = s[i];
        proof {
            assert(rest[0] == b);
        }
        if b == 38 && s.len() - i > 3 && s[i + 1] == 108 && s[i + 2] == 116 && s[i + 3] == 59 {
            proof {
                assert(rest.take(4) =~= lt_ent());
                assert(rest.skip(4) =~= s@.skip(i + 4));
            }
            out.push(60);
            i = i + 4;
        } else if b == 38 && s.len() - i > 3 && s[i + 1] == 103 && s[i + 2] == 116 && s[i + 3]
            == 59 {
            proof {
                assert(rest.take(4) != lt_ent());
                assert(rest.take(4) =~= gt_ent());
                assert(rest.skip(4) =~= s@.skip(i + 4));
            }
            out.push(62);
            i = i + 4;
        } else if b == 38 && s.len() - i > 4 && s[i + 1] == 97 && s[i + 2] == 109 && s[i + 3]
            == 112 && s[i + 4] == 59 {
            proof {
                assert(rest.take(4) != lt_ent() && rest.take(4) != gt_ent());
                assert(rest.take(5) =~= amp_ent());
                assert(rest.skip(5) =~= s@.skip(i + 5));
            }
            out.push(38);
            i = i + 5;
        } else if b == 38 && s.len() - i > 5 && s[i + 1] == 113 && s[i + 2] == 117 && s[i + 3]
            == 111 && s[i + 4] == 116 && s[i + 5] == 59 {
            proof {
                assert(rest.take(4) != lt_ent() && rest.take(4) != gt_ent());
                assert(rest.len() >= 5 ==> rest.take(5) != amp_ent());
                assert(rest.take(6) =~= quot_ent());
                assert(rest.skip(6) =~= s@.skip(i + 6));
            }
            out.push(34);
            i = i + 6;
        } else {
            proof {
                if b == 38 {
                    assert(rest.len() >= 4 && rest.take(4) == lt_ent() ==> rest[1] == 108 && rest[2]
                        == 116 && rest[3] == 59);
                    assert(rest.len() >= 4 && rest.take(4) == gt_ent() ==> rest[1] == 103 && rest[2]
                        == 116 && rest[3] == 59);
                    assert(rest.len() >= 5 && rest.take(5) == amp_ent() ==> rest[1] == 97 && rest[2]
                        == 109 && rest[3] == 112 && rest[4] == 59);
                    assert(rest.len() >= 6 && rest.take(6) == quot_ent() ==> rest[1] == 113
                        && rest[2] == 117 && rest[3] == 111 && rest[4] == 116 && rest[5] == 59);
                }
                assert(rest.skip(1) =~= s@.skip(i + 1));
            }
            out.push(b);
            i = i + 1;
        }
    }
    proof {
        assert(s@.skip(s@.len() as int) =~= Seq::<u8>::empty());
    }
    out
}

} // verus!
