//! The step from schema version 0 to 1: bare genetic codes gain a four-byte
//! name, set to a fixed marker.

use vstd::prelude::*;

use crate::kitties::KittyId;
use crate::migrations::v2::OldKitty;
use crate::migrations::{KittyStorage, MigrationError, StorageModel, all_of_len, first_undecodable};

verus! {

/// A kitty in the version 0 layout: its genetic code alone.
#[derive(Clone, Copy, Debug, PartialEq, Eq)]
pub struct V1Kitty(pub [u8; 16]);

/// The name that every migrated kitty receives: `init`.
pub open spec fn initial_name() -> Seq<u8> {
    seq![105u8, 110u8, 105u8, 116u8]
}

/// The version 1 encoding of a record whose version 0 encoding is `old`: the
/// genetic code followed by the initial name.
pub open spec fn migrated_record(old: Seq<u8>) -> Seq<u8> {
    old.add(initial_name())
}

impl V1Kitty {
    /// Reads a record in the version 0 layout: exactly sixteen bytes.
    pub fn decode(bytes: &Vec<u8>) -> (r: Option<V1Kitty>)
        ensures
            r is Some <==> bytes@.len() == 16,
            r matches Some(k) ==> k.0@ == bytes@,
    {
        if bytes.len() != 16 {
            return None;
        }
        let mut dna = [0u8; 16];
        let mut i: usize = 0;
        while i < 16
            invariant
                i <= 16,
                bytes@.len() == 16,
                forall|j: int| 0 <= j < i ==> dna@[j] == bytes@[j],
            decreases 16 - i,
        {
            dna[i] = bytes[i];
            i = i + 1;
        }
        assert(dna@ =~= bytes@);
        Some(V1Kitty(dna))
    }
}

/// The version 1 form of a version 0 kitty.
pub fn upgrade(old: V1Kitty) -> (r: OldKitty)
    ensures
        r.dna == old.0,
        r.name@ == initial_name(),
{
    let name: [u8; 4] = [105u8, 110u8, 105u8, 116u8];
    assert(name@ =~= initial_name());
    OldKitty { dna: old.0, name }
}

/// The step runs only where the stored version is 0 and the code is
/// built for version 1.
pub open spec fn is_due(s: StorageModel, current_version: u16) -> bool {
    s.on_chain_version == 0 && current_version == 1
}

/// The storage with every record converted and version 1 recorded.
pub open spec fn migrated(s: StorageModel) -> StorageModel {
    StorageModel {
        records: s.records.map_values(|e: (KittyId, Seq<u8>)| (e.0, migrated_record(e.1))),
        on_chain_version: 1,
    }
}

/// Where the step is due and every record decodes, the migrated storage;
/// otherwise the storage as it was.
pub open spec fn step(s: StorageModel, current_version: u16) -> StorageModel {
    if is_due(s, current_version) && all_of_len(s.records, 16) {
        migrated(s)
    } else {
        s
    }
}

/// Running the step a second time changes nothing: once it has converted
/// the records, the recorded version no longer makes it due.
pub proof fn lemma_rerun_is_noop(s: StorageModel, current_version: u16)
    ensures
        step(step(s, current_version), current_version) == step(s, current_version),
        is_due(s, current_version) && all_of_len(s.records, 16) ==> !is_due(
            step(s, current_version),
            current_version,
        ),
{
}

/// Converts every record from the version 0 layout to the version 1 layout
/// and records version 1, when the stored version is 0 and
/// `current_version`, the version that the code is built for, is 1. Does
/// nothing otherwise. The first record that is not in the version 0 layout
/// stops the step before anything is written, and its id is reported.
pub fn migrate(storage: &mut KittyStorage, current_version: u16) -> (r: Result<(), MigrationError>)
    ensures
        old(storage).wf() ==> final(storage).wf(),
        final(storage)@ == step(old(storage)@, current_version),
        r is Ok <==> !is_due(old(storage)@, current_version) || all_of_len(
            old(storage)@.records,
            16,
        ),
        !(old(storage)@.on_chain_version == 0 && current_version == 1) ==> {
            &&& r is Ok
            &&& final(storage)@ == old(storage)@
        },
        old(storage)@.on_chain_version == 0 && current_version == 1 ==> {
            &&& r is Ok <==> all_of_len(old(storage)@.records, 16)
            &&& r is Err ==> final(storage)@ == old(storage)@
            &&& r matches Err(MigrationError::UndecodableRecord(k)) ==> exists|i: int|
                0 <= i < old(storage)@.records.len() && #[trigger] old(storage)@.records[i].0 == k
                    && old(storage)@.records[i].1.len() != 16 && all_of_len(
                    old(storage)@.records.subrange(0, i),
                    16,
                )
            &&& r is Ok ==> final(storage)@ == (StorageModel {
                records: old(storage)@.records.map_values(
                    |e: (KittyId, Seq<u8>)| (e.0, migrated_record(e.1)),
                ),
                on_chain_version: 1,
            })
        },
{
    if storage.on_chain_version != 0 {
        return Ok(());
    }
    if current_version != 1 {
        return Ok(());
    }
    match first_undecodable(&storage.records, 16) {
        Some(k) => {
            return Err(MigrationError::UndecodableRecord(k));
        },
        None => {},
    }
    let ghost pre = storage@;
    let mut out: Vec<(KittyId, Vec<u8>)> = Vec::new();
    let mut i: usize = 0;
    while i < storage.records.len()
        invariant
            i <= storage.records@.len(),
            storage@ == pre,
            all_of_len(pre.records, 16),
            out@.len() == i,
            forall|j: int|
                0 <= j < i ==> (#[trigger] out@[j]).0 == pre.records[j].0 && out@[j].1@
                    == migrated_record(pre.records[j].1),
        decreases storage.records@.len() - i,
    {
        let id = storage.records[i].0;
        assert(pre.records[i as int].1.len() == 16);
        let old_kitty = match V1Kitty::decode(&storage.records[i].1) {
            Some(k) => k,
            None => {
                return Err(MigrationError::UndecodableRecord(id));
            },
        };
        let kitty = upgrade(old_kitty);
        let bytes = kitty.encode();
        out.push((id, bytes));
        i = i + 1;
    }
    storage.records = out;
    storage.on_chain_version = 1;
    assert(storage@.records =~= pre.records.map_values(
        |e: (KittyId, Seq<u8>)| (e.0, migrated_record(e.1)),
    ));
    assert forall|a: int| 0 <= a < pre.records.len() implies #[trigger] storage@.records[a].0
        == pre.records[a].0 by {}
    Ok(())
}

} // verus!
