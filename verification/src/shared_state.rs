//! The bucket index: a point-in-time snapshot of the directory tree,
//! mapping each object key to its content fingerprint and byte size. Built
//! once at startup and never mutated afterwards.

use vstd::prelude::*;

use crate::bytes::{bytes_eq, copy_bytes};
use crate::fingerprint::{compute_fingerprint, fingerprint_of};
use crate::tree::{
    child_key_exec, entries_files, entry_files, keys_distinct, lemma_root_files_distinct,
    root_wf, DirEntry,
};

verus! {

/// One file of the bucket, as the index records it.
pub struct ObjectRecord {
    pub key: Vec<u8>,
    pub etag: Vec<u8>,
    pub size: usize,
}

/// The mathematical value of an `ObjectRecord`.
pub struct RecordV {
    pub key: Seq<u8>,
    pub etag: Seq<u8>,
    pub size: nat,
}

impl View for ObjectRecord {
    type V = RecordV;

    open spec fn view(&self) -> RecordV {
        RecordV { key: self.key@, etag: self.etag@, size: self.size as nat }
    }
}

/// The record that a walked file turns into: its key, the fingerprint of
/// its bytes, and its byte length.
pub open spec fn record_of(f: (Seq<u8>, Seq<u8>)) -> RecordV {
    RecordV { key: f.0, etag: fingerprint_of(f.1), size: f.1.len() }
}

pub open spec fn recs_view(rs: Seq<ObjectRecord>) -> Seq<RecordV> {
    rs.map_values(|r: ObjectRecord| r@)
}

/// The records of a whole root directory, in walk order.
pub open spec fn index_records(es: Seq<DirEntry>) -> Seq<RecordV> {
    entries_files(Seq::empty(), es, 0).map_values(|f: (Seq<u8>, Seq<u8>)| record_of(f))
}

/// The first record under `key`, if any.
pub open spec fn lookup_in(rs: Seq<RecordV>, key: Seq<u8>) -> Option<RecordV>
    decreases rs.len(),
{
    if rs.len() == 0 {
        None
    } else if rs[0].key == key {
        Some(rs[0])
    } else {
        lookup_in(rs.drop_first(), key)
    }
}

/// A lookup finds a record exactly when one carries the key.
pub proof fn lemma_lookup_exists(rs: Seq<RecordV>, key: Seq<u8>)
    ensures
        (lookup_in(rs, key) is Some) <==> exists|i: int| 0 <= i < rs.len() && (#[trigger] rs[i]).key
            == key,
        lookup_in(rs, key) matches Some(r) ==> exists|i: int|
            0 <= i < rs.len() && #[trigger] rs[i] == r && r.key == key,
    decreases rs.len(),
{
    if rs.len() > 0 && rs[0].key != key {
        lemma_lookup_exists(rs.drop_first(), key);
        if lookup_in(rs, key) is Some {
            let r = lookup_in(rs, key)->Some_0;
            let i = choose|i: int|
                0 <= i < rs.drop_first().len() && #[trigger] rs.drop_first()[i] == r && r.key
                    == key;
            assert(rs[i + 1] == r);
        }
        if exists|i: int| 0 <= i < rs.len() && (#[trigger] rs[i]).key == key {
            let i = choose|i: int| 0 <= i < rs.len() && (#[trigger] rs[i]).key == key;
            assert(rs.drop_first()[i - 1] == rs[i]);
        }
    }
}

/// The process-wide snapshot that every request consults.
pub struct SharedState {
    pub bucket_name: Vec<u8>,
    pub root_path: Vec<u8>,
    pub last_modified: Vec<u8>,
    pub etags_and_sizes: Vec<ObjectRecord>,
}

impl SharedState {
    pub open spec fn records(&self) -> Seq<RecordV> {
        recs_view(self.etags_and_sizes@)
    }

    /// Keys are unique within the index.
    pub open spec fn wf(&self) -> bool {
        forall|i: int, j: int|
            0 <= i < j < self.records().len() ==> (#[trigger] self.records()[i]).key != (
            #[trigger] self.records()[j]).key
    }

    pub open spec fn spec_lookup(&self, key: Seq<u8>) -> Option<RecordV> {
        lookup_in(self.records(), key)
    }

    /// Builds the snapshot from a walked directory tree.
    pub fn new(
        root_path: Vec<u8>,
        bucket_name: Vec<u8>,
        last_modified: Vec<u8>,
        root_entries: &Vec<DirEntry>,
    ) -> (state: SharedState)
        ensures
            state.bucket_name@ == bucket_name@,
            state.root_path@ == root_path@,
            state.last_modified@ == last_modified@,
            state.records() == index_records(root_entries@),
            root_wf(root_entries@) ==> state.wf(),
    {
        let mut records: Vec<ObjectRecord> = Vec::new();
        let empty_prefix: Vec<u8> = Vec::new();
        proof {
            assert(recs_view(records@) =~= Seq::<RecordV>::empty());
        }
        Self::process_directory(root_entries, &mut records, &empty_prefix);
        proof {
            assert(recs_view(records@) =~= index_records(root_entries@));
        }
        let state = SharedState { bucket_name, root_path, last_modified, etags_and_sizes: records };
        proof {
            if root_wf(root_entries@) {
                lemma_root_files_distinct(root_entries@);
                let fs = entries_files(Seq::empty(), root_entries@, 0);
                assert forall|i: int, j: int| 0 <= i < j < state.records().len() implies (
                #[trigger] state.records()[i]).key != (#[trigger] state.records()[j]).key by {
                    assert(state.records()[i].key == fs[i].0);
                    assert(state.records()[j].key == fs[j].0);
                }
            }
        }
        state
    }

    /// Walks the entries of one directory, appending a record for every
    /// regular file below it.
    fn process_directory(
        entries: &Vec<DirEntry>,
        records: &mut Vec<ObjectRecord>,
        current_path: &Vec<u8>,
    )
        ensures
            recs_view(final(records)@) == recs_view(old(records)@) + entries_files(
                current_path@,
                entries@,
                0,
            ).map_values(|f: (Seq<u8>, Seq<u8>)| record_of(f)),
    {
        let ghost orig = records@;
        let mut j: usize = 0;
        proof {
            assert(recs_view(records@) + entries_files(current_path@, entries@, 0).map_values(
                |f: (Seq<u8>, Seq<u8>)| record_of(f),
            ) =~= recs_view(orig) + entries_files(current_path@, entries@, 0).map_values(
                |f: (Seq<u8>, Seq<u8>)| record_of(f),
            ));
        }
        while j < entries.len()
            invariant
                j <= entries.len(),
                recs_view(records@) + entries_files(current_path@, entries@, j as int).map_values(
                    |f: (Seq<u8>, Seq<u8>)| record_of(f),
                ) == recs_view(orig) + entries_files(current_path@, entries@, 0).map_values(
                    |f: (Seq<u8>, Seq<u8>)| record_of(f),
                ),
            decreases entries.len() - j,
        {
            proof {
                assert(decreases_to!(*entries => entries@[j as int]));
                assert(entries_files(current_path@, entries@, j as int) == entry_files(
                    current_path@,
                    entries@[j as int],
                ) + entries_files(current_path@, entries@, j + 1));
            }
            Self::process_entry(&entries[j], records, current_path);
            proof {
                seq_concat_map_assoc(
                    recs_view(records@),
                    entry_files(current_path@, entries@[j as int]),
                    entries_files(current_path@, entries@, j as int + 1),
                );
            }
            j = j + 1;
        }
        proof {
            assert(entries_files(current_path@, entries@, entries@.len() as int).map_values(
                |f: (Seq<u8>, Seq<u8>)| record_of(f),
            ) =~= Seq::<RecordV>::empty());
            assert(recs_view(records@) =~= recs_view(records@) + Seq::<RecordV>::empty());
        }
    }

    /// Handles one entry: records a file, or recurses into a directory with
    /// the key prefix extended by its name.
    fn process_entry(e: &DirEntry, records: &mut Vec<ObjectRecord>, current_path: &Vec<u8>)
        ensures
            recs_view(final(records)@) == recs_view(old(records)@) + entry_files(
                current_path@,
                *e,
            ).map_values(|f: (Seq<u8>, Seq<u8>)| record_of(f)),
        decreases *e,
    {
        match e {
            DirEntry::File { name, contents } => {
                let key = child_key_exec(current_path, name);
                let etag = compute_fingerprint(contents);
                let size = contents.len();
                records.push(ObjectRecord { key, etag, size });
                proof {
                    assert(recs_view(records@) =~= recs_view(old(records)@) + entry_files(
                        current_path@,
                        *e,
                    ).map_values(|f: (Seq<u8>, Seq<u8>)| record_of(f)));
                }
            },
            DirEntry::Dir { name, entries } => {
                let new_prefix = child_key_exec(current_path, name);
                let ghost orig = records@;
                let ghost np = new_prefix@;
                let mut j: usize = 0;
                proof {
                    assert(recs_view(records@) + entries_files(np, entries@, 0).map_values(
                        |f: (Seq<u8>, Seq<u8>)| record_of(f),
                    ) =~= recs_view(orig) + entries_files(np, entries@, 0).map_values(
                        |f: (Seq<u8>, Seq<u8>)| record_of(f),
                    ));
                }
                while j < entries.len()
                    invariant
                        j <= entries.len(),
                        recs_view(records@) + entries_files(np, entries@, j as int).map_values(
                            |f: (Seq<u8>, Seq<u8>)| record_of(f),
                        ) == recs_view(orig) + entries_files(np, entries@, 0).map_values(
                            |f: (Seq<u8>, Seq<u8>)| record_of(f),
                        ),
                    decreases entries.len() - j,
                {
                    proof {
                        assert(*e is Dir);
                        assert(decreases_to!(*e => entries@[j as int]));
                        assert(entries_files(np, entries@, j as int) == entry_files(
                            np,
                            entries@[j as int],
                        ) + entries_files(np, entries@, j + 1));
                    }
                    Self::process_entry(&entries[j], records, &new_prefix);
                    proof {
                        seq_concat_map_assoc(
                            recs_view(records@),
                            entry_files(np, entries@[j as int]),
                            entries_files(np, entries@, j as int + 1),
                        );
                    }
                    j = j + 1;
                }
                proof {
                    assert(entries_files(np, entries@, entries@.len() as int).map_values(
                        |f: (Seq<u8>, Seq<u8>)| record_of(f),
                    ) =~= Seq::<RecordV>::empty());
                    assert(recs_view(records@) =~= recs_view(records@) + Seq::<RecordV>::empty());
                }
            },
        }
    }

    /// Looks the key up in the snapshot, returning the stored fingerprint
    /// and size.
    pub fn get(&self, key: &Vec<u8>) -> (r: Option<(Vec<u8>, usize)>)
        ensures
            match r {
                Some((etag, size)) => self.spec_lookup(key@) == Some(
                    RecordV { key: key@, etag: etag@, size: size as nat },
                ),
                None => self.spec_lookup(key@) is None,
            },
    {
        let mut i: usize = 0;
        proof {
            assert(self.records().skip(0) =~= self.records());
        }
        while i < self.etags_and_sizes.len()
            invariant
                i <= self.etags_and_sizes.len(),
                lookup_in(self.records(), key@) == lookup_in(
                    self.records().skip(i as int),
                    key@,
                ),
            decreases self.etags_and_sizes.len() - i,
        {
            let rec = &self.etags_and_sizes[i];
            proof {
                assert(self.records().skip(i as int)[0] == self.records()[i as int]);
            }
            if bytes_eq(&rec.key, key) {
                return Some((copy_bytes(&rec.etag), rec.size));
            }
            proof {
                assert(self.records().skip(i as int).drop_first() =~= self.records().skip(
                    i as int + 1,
                ));
            }
            i = i + 1;
        }
        proof {
            assert(self.records().skip(self.records().len() as int) =~= Seq::<RecordV>::empty());
        }
        None
    }
}

/// Mapping a record over a concatenation splits into the mapped parts.
proof fn seq_concat_map_assoc(
    a: Seq<RecordV>,
    b: Seq<(Seq<u8>, Seq<u8>)>,
    c: Seq<(Seq<u8>, Seq<u8>)>,
)
    ensures
        a + (b + c).map_values(|f: (Seq<u8>, Seq<u8>)| record_of(f)) == (a + b.map_values(
            |f: (Seq<u8>, Seq<u8>)| record_of(f),
        )) + c.map_values(|f: (Seq<u8>, Seq<u8>)| record_of(f)),
{
    assert(a + (b + c).map_values(|f: (Seq<u8>, Seq<u8>)| record_of(f)) =~= (a + b.map_values(
        |f: (Seq<u8>, Seq<u8>)| record_of(f),
    )) + c.map_values(|f: (Seq<u8>, Seq<u8>)| record_of(f)));
}

/// Every regular file under the root appears in the index exactly once, in
/// walk order, keyed by its '/'-joined relative path; nested directories
/// extend the key with '/' and their name.
pub proof fn lemma_index_complete(es: Seq<DirEntry>)
    requires
        root_wf(es),
    ensures
        index_records(es).len() == entries_files(Seq::empty(), es, 0).len(),
        forall|t: int|
            0 <= t < index_records(es).len() ==> #[trigger] index_records(es)[t] == record_of(
                entries_files(Seq::empty(), es, 0)[t],
            ),
        forall|t1: int, t2: int|
            0 <= t1 < t2 < index_records(es).len() ==> (#[trigger] index_records(es)[t1]).key != (
            #[trigger] index_records(es)[t2]).key,
{
    lemma_root_files_distinct(es);
    let fs = entries_files(Seq::empty(), es, 0);
    assert(keys_distinct(fs));
    assert forall|t1: int, t2: int| 0 <= t1 < t2 < index_records(es).len() implies (
    #[trigger] index_records(es)[t1]).key != (#[trigger] index_records(es)[t2]).key by {
        assert(index_records(es)[t1].key == fs[t1].0);
        assert(index_records(es)[t2].key == fs[t2].0);
    }
}

/// Files with byte-identical contents receive identical fingerprints, even
/// under different keys or in different trees; and every fingerprint is a
/// function of the file's own bytes alone.
pub proof fn lemma_index_fingerprints(es1: Seq<DirEntry>, es2: Seq<DirEntry>, t1: int, t2: int)
    requires
        0 <= t1 < index_records(es1).len(),
        0 <= t2 < index_records(es2).len(),
        entries_files(Seq::empty(), es1, 0)[t1].1 == entries_files(Seq::empty(), es2, 0)[t2].1,
    ensures
        index_records(es1)[t1].etag == index_records(es2)[t2].etag,
        index_records(es1)[t1].etag == fingerprint_of(entries_files(Seq::empty(), es1, 0)[t1].1),
{
}

} // verus!
