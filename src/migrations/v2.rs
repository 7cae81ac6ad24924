//! The step from schema version 1 to 2: names widen from four bytes to
//! eight, prefixed by a fixed marker.

use vstd::prelude::*;

use crate::kitties::{Kitty, KittyId};
use crate::migrations::{
    KittyStorage, MigrationError, StorageModel, all_of_len, first_undecodable, read_array,
};

verus! {

/// A kitty in the version 1 layout: its genetic code and a four-byte name.
#[derive(Clone, Copy, Debug, PartialEq, Eq)]
pub struct OldKitty {
    pub dna: [u8; 16],
    pub name: [u8; 4],
}

/// The marker that fills the first half of a widened name: `----`.
pub open spec fn name_prefix() -> Seq<u8> {
    seq![45u8, 45u8, 45u8, 45u8]
}

/// The version 2 encoding of a record whose version 1 encoding is `old`: the
/// genetic code, the marker, then the four bytes of the old name.
pub open spec fn migrated_record(old: Seq<u8>) -> Seq<u8> {
    old.subrange(0, 16).add(name_prefix()).add(old.subrange(16, 20))
}

impl OldKitty {
    /// Reads a record in the version 1 layout: exactly twenty bytes, the
    /// genetic code followed by the name.
    pub fn decode(bytes: &Vec<u8>) -> (r: Option<OldKitty>)
        ensures
            r is Some <==> bytes@.len() == 20,
            r matches Some(k) ==> k.dna@ == bytes@.subrange(0, 16) && k.name@ == bytes@.subrange(
                16,
                20,
            ),
    {
        if bytes.len() != 20 {
            return None;
        }
        Some(OldKitty { dna: read_array(bytes, 0), name: read_array(bytes, 16) })
    }

    /// The version 1 encoding: the genetic code followed by the name.
    pub fn encode(&self) -> (r: Vec<u8>)
        ensures
            r@ == self.dna@.add(self.name@),
    {
        let mut out: Vec<u8> = Vec::new();
        let mut i: usize = 0;
        while i < 16
            invariant
                i <= 16,
                out@ == self.dna@.subrange(0, i as int),
            decreases 16 - i,
        {
            out.push(self.dna[i]);
            i = i + 1;
            assert(out@ =~= self.dna@.subrange(0, i as int));
        }
        let mut j: usize = 0;
        while j < 4
            invariant
                j <= 4,
                out@ == self.dna@.add(self.name@.subrange(0, j as int)),
            decreases 4 - j,
        {
            out.push(self.name[j]);
            j = j + 1;
            assert(out@ =~= self.dna@.add(self.name@.subrange(0, j as int)));
        }
        assert(self.dna@ =~= self.dna@.subrange(0, 16));
        assert(self.name@ =~= self.name@.subrange(0, 4));
        out
    }
}

/// The version 2 form of a version 1 kitty.
pub fn upgrade(old: OldKitty) -> (r: Kitty)
    ensures
        r.dna == old.dna,
        r.name@ == name_prefix().add(old.name@),
{
    let mut name = [45u8; 8];
    let mut i: usize = 0;
    while i < 4
        invariant
            i <= 4,
            forall|j: int| 0 <= j < 4 ==> name@[j] == 45u8,
            forall|j: int| 4 <= j < 4 + i ==> name@[j] == old.name@[j - 4],
        decreases 4 - i,
    {
        name[4 + i] = old.name[i];
        i = i + 1;
    }
    assert(name@ =~= name_prefix().add(old.name@));
    Kitty { dna: old.dna, name }
}

/// A record holding genetic code `dna` and four-byte name `name` becomes
/// the same code with the name `----` followed by `name`.
pub proof fn lemma_record_widens_name(dna: Seq<u8>, name: Seq<u8>)
    requires
        dna.len() == 16,
        name.len() == 4,
    ensures
        migrated_record(dna.add(name)) == dna.add(name_prefix().add(name)),
{
    assert(dna.add(name).subrange(0, 16) =~= dna);
    assert(dna.add(name).subrange(16, 20) =~= name);
    assert(dna.add(name_prefix()).add(name) =~= dna.add(name_prefix().add(name)));
}

/// The step runs only where the stored version is 1 and the code is
/// built for version 2.
pub open spec fn is_due(s: StorageModel, current_version: u16) -> bool {
    s.on_chain_version == 1 && current_version == 2
}

/// The storage with every record converted and version 2 recorded.
pub open spec fn migrated(s: StorageModel) -> StorageModel {
    StorageModel {
        records: s.records.map_values(|e: (KittyId, Seq<u8>)| (e.0, migrated_record(e.1))),
        on_chain_version: 2,
    }
}

/// Where the step is due and every record decodes, the migrated storage;
/// otherwise the storage as it was.
pub open spec fn step(s: StorageModel, current_version: u16) -> StorageModel {
    if is_due(s, current_version) && all_of_len(s.records, 20) {
        migrated(s)
    } else {
        s
    }
}

/// Running the step a second time changes nothing: once it has converted
/// the records, the recorded version no longer makes it due.
pub proof fn lemma_rerun_is_noop(s: StorageModel, current_version: u16)
    ensures
        step(step(s, current_version), current_version) == step(s, current_version),
        is_due(s, current_version) && all_of_len(s.records, 20) ==> !is_due(
            step(s, current_version),
            current_version,
        ),
{
}

/// Converts every record from the version 1 layout to the version 2 layout
/// and records version 2, when the stored version is 1 and
/// `current_version`, the version that the code is built for, is 2. Does
/// nothing otherwise. The first record that is not in the version 1 layout
/// stops the step before anything is written, and its id is reported.
pub fn migrate(storage: &mut KittyStorage, current_version: u16) -> (r: Result<(), MigrationError>)
    ensures
        old(storage).wf() ==> final(storage).wf(),
        final(storage)@ == step(old(storage)@, current_version),
        r is Ok <==> !is_due(old(storage)@, current_version) || all_of_len(
            old(storage)@.records,
            20,
        ),
        !(old(storage)@.on_chain_version == 1 && current_version == 2) ==> {
            &&& r is Ok
            &&& final(storage)@ == old(storage)@
        },
        old(storage)@.on_chain_version == 1 && current_version == 2 ==> {
            &&& r is Ok <==> all_of_len(old(storage)@.records, 20)
            &&& r is Err ==> final(storage)@ == old(storage)@
            &&& r matches Err(MigrationError::UndecodableRecord(k)) ==> exists|i: int|
                0 <= i < old(storage)@.records.len() && #[trigger] old(storage)@.records[i].0 == k
                    && old(storage)@.records[i].1.len() != 20 && all_of_len(
                    old(storage)@.records.subrange(0, i),
                    20,
                )
            &&& r is Ok ==> final(storage)@ == (StorageModel {
                records: old(storage)@.records.map_values(
                    |e: (KittyId, Seq<u8>)| (e.0, migrated_record(e.1)),
                ),
                on_chain_version: 2,
            })
        },
{
    if storage.on_chain_version != 1 {
        return Ok(());
    }
    if current_version != 2 {
        return Ok(());
    }
    match first_undecodable(&storage.records, 20) {
        Some(k) => {
            return Err(MigrationError::UndecodableRecord(k));
        },
        None => {},
    }
    let ghost pre = storage@;
    let mut out: Vec<(KittyId, Vec<u8>)> = Vec::new();
    let mut i: usize = 0;
    while i < storage.records.len()
        invariant
            i <= storage.records@.len(),
            storage@ == pre,
            all_of_len(pre.records, 20),
            out@.len() == i,
            forall|j: int|
                0 <= j < i ==> (#[trigger] out@[j]).0 == pre.records[j].0 && out@[j].1@
                    == migrated_record(pre.records[j].1),
        decreases storage.records@.len() - i,
    {
        let id = storage.records[i].0;
        assert(pre.records[i as int].1.len() == 20);
        let old_kitty = match OldKitty::decode(&storage.records[i].1) {
            Some(k) => k,
            None => {
                return Err(MigrationError::UndecodableRecord(id));
            },
        };
        let kitty = upgrade(old_kitty);
        let bytes = kitty.encode();
        proof {
            let b = pre.records[i as int].1;
            assert(bytes@ =~= migrated_record(b));
        }
        out.push((id, bytes));
        i = i + 1;
    }
    storage.records = out;
    storage.on_chain_version = 2;
    assert(storage@.records =~= pre.records.map_values(
        |e: (KittyId, Seq<u8>)| (e.0, migrated_record(e.1)),
    ));
    assert forall|a: int| 0 <= a < pre.records.len() implies #[trigger] storage@.records[a].0
        == pre.records[a].0 by {}
    Ok(())
}

} // verus!
