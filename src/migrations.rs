//! Versioned in-place conversions of the persisted kitty records.

pub mod v1;
pub mod v2;

use vstd::prelude::*;

use crate::kitties::KittyId;

verus! {

/// The persisted kitty records, each the encoded bytes stored under its id,
/// and the schema version that the records are currently laid out in.
pub struct KittyStorage {
    pub records: Vec<(KittyId, Vec<u8>)>,
    pub on_chain_version: u16,
}

/// The records with each encoding taken as a sequence of bytes.
pub open spec fn records_model(records: Seq<(KittyId, Vec<u8>)>) -> Seq<(KittyId, Seq<u8>)> {
    records.map_values(|e: (KittyId, Vec<u8>)| (e.0, e.1@))
}

/// The abstract content of a `KittyStorage`.
pub struct StorageModel {
    pub records: Seq<(KittyId, Seq<u8>)>,
    pub on_chain_version: u16,
}

impl View for KittyStorage {
    type V = StorageModel;

    open spec fn view(&self) -> StorageModel {
        StorageModel {
            records: records_model(self.records@),
            on_chain_version: self.on_chain_version,
        }
    }
}

/// Why a migration step refused to run.
#[derive(Clone, Copy, Debug, PartialEq, Eq)]
pub enum MigrationError {
    /// The record under this id does not have the layout that the step reads.
    UndecodableRecord(KittyId),
}

/// Copies `src[start..start + N]` into an array.
pub(crate) fn read_array<const N: usize>(src: &Vec<u8>, start: usize) -> (r: [u8; N])
    requires
        start + N <= src@.len(),
    ensures
        r@ == src@.subrange(start as int, start + N),
{
    let mut out = [0u8; N];
    let ghost len = src.len();
    let mut i: usize = 0;
    while i < N
        invariant
            i <= N,
            start + N <= src@.len(),
            src@.len() <= usize::MAX,
            forall|j: int| 0 <= j < i ==> out@[j] == src@[start + j],
        decreases N - i,
    {
        out[i] = src[start + i];
        i = i + 1;
    }
    assert(out@ =~= src@.subrange(start as int, start + N));
    out
}

/// No two records are stored under the same id.
pub open spec fn ids_unique(records: Seq<(KittyId, Seq<u8>)>) -> bool {
    forall|i: int, j: int|
        0 <= i < records.len() && 0 <= j < records.len() && i != j ==> #[trigger] records[i].0
            != #[trigger] records[j].0
}

impl KittyStorage {
    /// Each id holds at most one record, as in the keyed store it models.
    pub open spec fn wf(&self) -> bool {
        ids_unique(self@.records)
    }
}

/// Every record is `len` bytes long, the size of the layout being read.
pub open spec fn all_of_len(records: Seq<(KittyId, Seq<u8>)>, len: nat) -> bool {
    forall|i: int| 0 <= i < records.len() ==> #[trigger] records[i].1.len() == len
}

/// The id of the first record that is not `len` bytes long, if any.
pub fn first_undecodable(records: &Vec<(KittyId, Vec<u8>)>, len: usize) -> (r: Option<KittyId>)
    ensures
        r is None <==> all_of_len(records_model(records@), len as nat),
        r matches Some(k) ==> exists|i: int|
            0 <= i < records@.len() && #[trigger] records_model(records@)[i].0 == k
                && records_model(records@)[i].1.len() != len && all_of_len(
                records_model(records@).subrange(0, i),
                len as nat,
            ),
{
    let ghost m = records_model(records@);
    let mut i: usize = 0;
    while i < records.len()
        invariant
            i <= records@.len(),
            m == records_model(records@),
            forall|j: int| 0 <= j < i ==> #[trigger] m[j].1.len() == len,
        decreases records@.len() - i,
    {
        assert(m[i as int] == (records@[i as int].0, records@[i as int].1@));
        if records[i].1.len() != len {
            assert(m[i as int].1.len() != len as nat);
            assert(!all_of_len(m, len as nat));
            let k = records[i].0;
            assert(records_model(records@)[i as int].0 == k);
            assert(all_of_len(m.subrange(0, i as int), len as nat));
            return Some(k);
        }
        i = i + 1;
    }
    None
}

} // verus!
