//! The directory tree that the bucket index is built from, and the
//! derivation of object keys: the '/'-joined path of names from the root
//! down to a file, where the root itself contributes no prefix.

use vstd::prelude::*;

use crate::bytes::{copy_bytes, push_all, SLASH};

verus! {

/// One entry of a directory tree: a regular file with its contents, or a
/// subdirectory with its own entries.
pub enum DirEntry {
    File { name: Vec<u8>, contents: Vec<u8> },
    Dir { name: Vec<u8>, entries: Vec<DirEntry> },
}

pub open spec fn entry_name(e: DirEntry) -> Seq<u8> {
    match e {
        DirEntry::File { name, .. } => name@,
        DirEntry::Dir { name, .. } => name@,
    }
}

/// The key of a child named `name` under a directory whose own key is
/// `prefix`; first-level children get bare names.
pub open spec fn child_key(prefix: Seq<u8>, name: Seq<u8>) -> Seq<u8> {
    if prefix.len() == 0 {
        name
    } else {
        prefix + seq![SLASH] + name
    }
}

/// The (key, contents) pairs of the regular files under `e`, in walk order.
pub open spec fn entry_files(prefix: Seq<u8>, e: DirEntry) -> Seq<(Seq<u8>, Seq<u8>)>
    decreases e,
{
    match e {
        DirEntry::File { name, contents } => seq![(child_key(prefix, name@), contents@)],
        DirEntry::Dir { name, entries } => entries_files(child_key(prefix, name@), entries@, 0),
    }
}

/// The files of the entries from index `i` on.
pub open spec fn entries_files(prefix: Seq<u8>, es: Seq<DirEntry>, i: int) -> Seq<
    (Seq<u8>, Seq<u8>),
>
    decreases es, es.len() - i,
{
    if i < 0 || i >= es.len() {
        Seq::empty()
    } else {
        entry_files(prefix, es[i]) + entries_files(prefix, es, i + 1)
    }
}

/// A usable file or directory name: nonempty and free of `/`.
pub open spec fn name_ok(n: Seq<u8>) -> bool {
    n.len() > 0 && forall|i: int| 0 <= i < n.len() ==> #[trigger] n[i] != SLASH
}

/// No two entries of one directory carry the same name.
pub open spec fn names_distinct(es: Seq<DirEntry>) -> bool {
    forall|i: int, j: int|
        0 <= i < j < es.len() ==> entry_name(#[trigger] es[i]) != entry_name(#[trigger] es[j])
}

/// A well-formed entry, as every real filesystem delivers it: names are
/// nonempty, hold no `/`, and are unique among siblings.
pub open spec fn entry_wf(e: DirEntry) -> bool
    decreases e,
{
    match e {
        DirEntry::File { name, .. } => name_ok(name@),
        DirEntry::Dir { name, entries } => name_ok(name@) && entries_wf(entries@, 0)
            && names_distinct(entries@),
    }
}

pub open spec fn entries_wf(es: Seq<DirEntry>, i: int) -> bool
    decreases es, es.len() - i,
{
    if i < 0 || i >= es.len() {
        true
    } else {
        entry_wf(es[i]) && entries_wf(es, i + 1)
    }
}

/// A well-formed root directory.
pub open spec fn root_wf(es: Seq<DirEntry>) -> bool {
    entries_wf(es, 0) && names_distinct(es)
}

/// `k` is the key `base` itself, or a key strictly below it.
pub open spec fn extends(base: Seq<u8>, k: Seq<u8>) -> bool {
    k == base || (k.len() > base.len() && k.take(base.len() as int) == base && k[base.len() as int]
        == SLASH)
}

pub open spec fn keys_distinct(s: Seq<(Seq<u8>, Seq<u8>)>) -> bool {
    forall|t1: int, t2: int|
        0 <= t1 < t2 < s.len() ==> (#[trigger] s[t1]).0 != (#[trigger] s[t2]).0
}

proof fn lemma_entries_wf_at(es: Seq<DirEntry>, i: int, j: int)
    requires
        entries_wf(es, i),
        0 <= i <= j < es.len(),
    ensures
        entry_wf(es[j]),
    decreases j - i,
{
    if i < j {
        lemma_entries_wf_at(es, i + 1, j);
    }
}

proof fn lemma_wf_name(e: DirEntry)
    requires
        entry_wf(e),
    ensures
        name_ok(entry_name(e)),
{
    match e {
        DirEntry::File { .. } => {
        },
        DirEntry::Dir { .. } => {
        },
    }
}

/// Whatever extends the key of a child extends the directory's own key.
proof fn lemma_extends_child(prefix: Seq<u8>, name: Seq<u8>, k: Seq<u8>)
    requires
        prefix.len() > 0,
        extends(child_key(prefix, name), k),
    ensures
        extends(prefix, k),
{
    let base = child_key(prefix, name);
    let m = prefix.len() as int;
    assert(forall|idx: int| 0 <= idx < base.len() ==> #[trigger] k[idx] == base[idx]);
    assert(k.take(m) =~= prefix);
    assert(k[m] == SLASH);
}

/// One key cannot lie under two differently named siblings.
proof fn lemma_distinct_names_separate(prefix: Seq<u8>, n1: Seq<u8>, n2: Seq<u8>, k: Seq<u8>)
    requires
        name_ok(n1),
        name_ok(n2),
        child_key(prefix, n1).len() <= child_key(prefix, n2).len(),
        extends(child_key(prefix, n1), k),
        extends(child_key(prefix, n2), k),
    ensures
        n1 == n2,
{
    let b1 = child_key(prefix, n1);
    let b2 = child_key(prefix, n2);
    let off = if prefix.len() == 0 {
        0int
    } else {
        prefix.len() + 1int
    };
    let m1 = b1.len() as int;
    let m2 = b2.len() as int;
    assert(forall|idx: int| 0 <= idx < m1 ==> #[trigger] k[idx] == b1[idx]);
    assert(forall|idx: int| 0 <= idx < m2 ==> #[trigger] k[idx] == b2[idx]);
    assert(forall|idx: int| off <= idx < m1 ==> b1[idx] == n1[idx - off]);
    assert(forall|idx: int| off <= idx < m2 ==> b2[idx] == n2[idx - off]);
    if m1 == m2 {
        assert forall|t: int| 0 <= t < n1.len() implies n1[t] == n2[t] by {
            assert(b1[off + t] == n1[t]);
            assert(b2[off + t] == n2[t]);
            assert(k[off + t] == b1[off + t]);
            assert(k[off + t] == b2[off + t]);
        }
        assert(n1 =~= n2);
    } else {
        // k reaches past b1, so the byte after b1 inside k is a slash, yet it
        // also sits inside the slash-free name n2.
        assert(k.len() > m1);
        assert(k[m1] == SLASH);
        assert(k[m1] == n2[m1 - off]);
        assert(false);
    }
}

/// Every key under `e` extends `e`'s own key, and no key appears twice.
proof fn lemma_entry_files_distinct(prefix: Seq<u8>, e: DirEntry)
    requires
        entry_wf(e),
    ensures
        keys_distinct(entry_files(prefix, e)),
        forall|t: int|
            0 <= t < entry_files(prefix, e).len() ==> extends(
                child_key(prefix, entry_name(e)),
                (#[trigger] entry_files(prefix, e)[t]).0,
            ),
    decreases e,
{
    match e {
        DirEntry::File { name, contents } => {
        },
        DirEntry::Dir { name, entries } => {
            let np = child_key(prefix, name@);
            assert(np.len() > 0);
            lemma_entries_files_distinct(np, entries@, 0);
            let fs = entry_files(prefix, e);
            assert forall|t: int| 0 <= t < fs.len() implies extends(
                child_key(prefix, entry_name(e)),
                (#[trigger] fs[t]).0,
            ) by {
                let j = choose|j: int|
                    0 <= j < entries@.len() && extends(
                        child_key(np, entry_name(entries@[j])),
                        fs[t].0,
                    );
                lemma_extends_child(np, entry_name(entries@[j]), fs[t].0);
            }
        },
    }
}

/// The keys of the files of distinct siblings never collide.
proof fn lemma_entries_files_distinct(prefix: Seq<u8>, es: Seq<DirEntry>, i: int)
    requires
        entries_wf(es, i),
        names_distinct(es),
        0 <= i,
    ensures
        keys_distinct(entries_files(prefix, es, i)),
        forall|t: int|
            0 <= t < entries_files(prefix, es, i).len() ==> exists|j: int|
                i <= j < es.len() && extends(
                    child_key(prefix, entry_name(es[j])),
                    (#[trigger] entries_files(prefix, es, i)[t]).0,
                ),
    decreases es, es.len() - i,
{
    if i >= es.len() {
    } else {
        let a = entry_files(prefix, es[i]);
        let r = entries_files(prefix, es, i + 1);
        let s = entries_files(prefix, es, i);
        assert(s == a + r);
        lemma_entry_files_distinct(prefix, es[i]);
        lemma_entries_files_distinct(prefix, es, i + 1);
        assert forall|t1: int, t2: int| 0 <= t1 < t2 < s.len() implies (#[trigger] s[t1]).0 != (
        #[trigger] s[t2]).0 by {
            if t2 < a.len() {
                assert(s[t1] == a[t1] && s[t2] == a[t2]);
            } else if t1 >= a.len() {
                assert(s[t1] == r[t1 - a.len()] && s[t2] == r[t2 - a.len()]);
            } else {
                let k1 = s[t1].0;
                let k2 = s[t2].0;
                assert(s[t1] == a[t1] && s[t2] == r[t2 - a.len()]);
                if k1 == k2 {
                    let n1 = entry_name(es[i]);
                    assert(extends(child_key(prefix, n1), k1));
                    let j = choose|j: int|
                        i + 1 <= j < es.len() && extends(
                            child_key(prefix, entry_name(es[j])),
                            (#[trigger] entries_files(prefix, es, i + 1)[t2 - a.len()]).0,
                        );
                    let n2 = entry_name(es[j]);
                    lemma_entries_wf_at(es, i, j);
                    lemma_wf_name(es[i]);
                    lemma_wf_name(es[j]);
                    assert(name_ok(n1) && name_ok(n2));
                    if child_key(prefix, n1).len() <= child_key(prefix, n2).len() {
                        lemma_distinct_names_separate(prefix, n1, n2, k1);
                    } else {
                        lemma_distinct_names_separate(prefix, n2, n1, k1);
                    }
                    assert(false);
                }
            }
        }
        assert forall|t: int| 0 <= t < s.len() implies exists|j: int|
            i <= j < es.len() && extends(
                child_key(prefix, entry_name(es[j])),
                (#[trigger] s[t]).0,
            ) by {
            if t < a.len() {
                assert(s[t] == a[t]);
                assert(i <= i < es.len() && extends(child_key(prefix, entry_name(es[i])), s[t].0));
            } else {
                assert(s[t] == r[t - a.len()]);
                let j = choose|j: int|
                    i + 1 <= j < es.len() && extends(
                        child_key(prefix, entry_name(es[j])),
                        (#[trigger] r[t - a.len()]).0,
                    );
                assert(i <= j < es.len() && extends(child_key(prefix, entry_name(es[j])), s[t].0));
            }
        }
    }
}

/// In a well-formed root directory no two files share a key.
pub proof fn lemma_root_files_distinct(es: Seq<DirEntry>)
    requires
        root_wf(es),
    ensures
        keys_distinct(entries_files(Seq::empty(), es, 0)),
{
    lemma_entries_files_distinct(Seq::empty(), es, 0);
}

/// Builds the key of a child from its directory's key.
pub fn child_key_exec(prefix: &Vec<u8>, name: &Vec<u8>) -> (r: Vec<u8>)
    ensures
        r@ == child_key(prefix@, name@),
{
    if prefix.len() == 0 {
        copy_bytes(name)
    } else {
        let mut r = copy_bytes(prefix);
        r.push(SLASH);
        push_all(&mut r, name);
        proof {
            assert(r@ =~= child_key(prefix@, name@));
        }
        r
    }
}

} // verus!
