//! The claim registry: first come, first served ownership of content hashes.

use vstd::prelude::*;

use crate::kitties::{AccountId, BlockNumber};

verus! {

/// One registered claim: the claimed bytes, their owner, and the block at
/// which the owner obtained them.
pub type ClaimEntry = (Vec<u8>, AccountId, BlockNumber);

/// What a successful operation reports to observers.
#[derive(Clone, Debug, PartialEq, Eq)]
pub enum Event {
    ClaimCreated(AccountId, Vec<u8>),
    ClaimRevoked(AccountId, Vec<u8>),
    ClaimTransfered(AccountId, Vec<u8>),
}

/// The ways in which a registry operation is refused.
#[derive(Clone, Copy, Debug, PartialEq, Eq)]
pub enum Error {
    ProofAlreadyExists,
    ClaimTooLong,
    ClaimNotExist,
    NotClaimOwner,
}

/// The parameters that a deployment of the registry is configured with.
pub trait Config {
    /// The longest claim, in bytes, that the registry accepts.
    fn max_claim_length(&self) -> u32;
}

/// No two entries claim the same bytes.
pub open spec fn keys_unique(s: Seq<ClaimEntry>) -> bool {
    forall|i: int, j: int| 0 <= i < s.len() && 0 <= j < s.len() && i != j ==> #[trigger] s[i].0@ != #[trigger] s[j].0@
}

/// The claims held by a sequence of entries, keyed by the claimed bytes.
pub open spec fn claims_of(s: Seq<ClaimEntry>) -> Map<Seq<u8>, (AccountId, BlockNumber)> {
    Map::new(
        |k: Seq<u8>| exists|i: int| 0 <= i < s.len() && #[trigger] s[i].0@ == k,
        |k: Seq<u8>|
            {
                let i = choose|i: int| 0 <= i < s.len() && #[trigger] s[i].0@ == k;
                (s[i].1, s[i].2)
            },
    )
}

proof fn lemma_claims_at(s: Seq<ClaimEntry>, i: int)
    requires
        keys_unique(s),
        0 <= i < s.len(),
    ensures
        claims_of(s).contains_key(s[i].0@),
        claims_of(s)[s[i].0@] == (s[i].1, s[i].2),
{
    let k = s[i].0@;
    assert(claims_of(s).dom().contains(k));
    let c = choose|c: int| 0 <= c < s.len() && #[trigger] s[c].0@ == k;
    assert(c == i);
}

proof fn lemma_claims_push(s: Seq<ClaimEntry>, e: ClaimEntry)
    requires
        keys_unique(s),
        !claims_of(s).contains_key(e.0@),
    ensures
        keys_unique(s.push(e)),
        claims_of(s.push(e)) == claims_of(s).insert(e.0@, (e.1, e.2)),
{
    let t = s.push(e);
    assert forall|i: int| 0 <= i < s.len() implies #[trigger] s[i].0@ != e.0@ by {
        if s[i].0@ == e.0@ {
            assert(claims_of(s).dom().contains(e.0@));
        }
    }
    assert(keys_unique(t)) by {
        assert forall|i: int, j: int|
            0 <= i < t.len() && 0 <= j < t.len() && i != j implies #[trigger] t[i].0@
            != #[trigger] t[j].0@ by {
            if i < s.len() && j < s.len() {
                assert(t[i] == s[i] && t[j] == s[j]);
            } else if i < s.len() {
                assert(t[i] == s[i]);
            } else {
                assert(t[j] == s[j]);
            }
        }
    }
    let m = claims_of(s).insert(e.0@, (e.1, e.2));
    assert forall|k: Seq<u8>| #[trigger] claims_of(t).contains_key(k) <==> m.contains_key(k) by {
        if m.contains_key(k) && k != e.0@ {
            let i = choose|i: int| 0 <= i < s.len() && #[trigger] s[i].0@ == k;
            assert(t[i] == s[i]);
        }
        if k == e.0@ {
            assert(t[s.len() as int] == e);
        }
    }
    assert forall|k: Seq<u8>| #[trigger] claims_of(t).contains_key(k) implies claims_of(t)[k]
        == m[k] by {
        let i = choose|i: int| 0 <= i < t.len() && #[trigger] t[i].0@ == k;
        lemma_claims_at(t, i);
        if i < s.len() {
            assert(t[i] == s[i]);
            lemma_claims_at(s, i);
        }
    }
    assert(claims_of(t) =~= m);
}

proof fn lemma_claims_remove(s: Seq<ClaimEntry>, i: int)
    requires
        keys_unique(s),
        0 <= i < s.len(),
    ensures
        keys_unique(s.remove(i)),
        claims_of(s.remove(i)) == claims_of(s).remove(s[i].0@),
{
    let t = s.remove(i);
    let gone = s[i].0@;
    assert forall|a: int| 0 <= a < t.len() implies #[trigger] t[a] == s[if a < i {
        a
    } else {
        a + 1
    }] by {}
    assert(keys_unique(t)) by {
        assert forall|a: int, b: int|
            0 <= a < t.len() && 0 <= b < t.len() && a != b implies #[trigger] t[a].0@
            != #[trigger] t[b].0@ by {
            let sa = if a < i {
                a
            } else {
                a + 1
            };
            let sb = if b < i {
                b
            } else {
                b + 1
            };
            assert(t[a] == s[sa] && t[b] == s[sb]);
        }
    }
    let m = claims_of(s).remove(gone);
    assert forall|k: Seq<u8>| #[trigger] claims_of(t).contains_key(k) <==> m.contains_key(k) by {
        if claims_of(t).contains_key(k) {
            let a = choose|a: int| 0 <= a < t.len() && #[trigger] t[a].0@ == k;
            let sa = if a < i {
                a
            } else {
                a + 1
            };
            assert(t[a] == s[sa]);
            assert(sa != i);
        }
        if m.contains_key(k) {
            let c = choose|c: int| 0 <= c < s.len() && #[trigger] s[c].0@ == k;
            assert(c != i);
            let a = if c < i {
                c
            } else {
                c - 1
            };
            assert(t[a] == s[c]);
        }
    }
    assert forall|k: Seq<u8>| #[trigger] claims_of(t).contains_key(k) implies claims_of(t)[k]
        == m[k] by {
        let a = choose|a: int| 0 <= a < t.len() && #[trigger] t[a].0@ == k;
        let sa = if a < i {
            a
        } else {
            a + 1
        };
        assert(t[a] == s[sa]);
        lemma_claims_at(t, a);
        lemma_claims_at(s, sa);
    }
    assert(claims_of(t) =~= m);
}

/// Whether two byte strings are equal.
fn bytes_eq(a: &Vec<u8>, b: &Vec<u8>) -> (r: bool)
    ensures
        r == (a@ == b@),
{
    if a.len() != b.len() {
        return false;
    }
    let mut i: usize = 0;
    while i < a.len()
        invariant
            i <= a@.len(),
            a@.len() == b@.len(),
            forall|j: int| 0 <= j < i ==> a@[j] == b@[j],
        decreases a@.len() - i,
    {
        if a[i] != b[i] {
            return false;
        }
        i = i + 1;
    }
    assert(a@ =~= b@);
    true
}

/// The abstract state of the registry.
#[verifier::ext_equal]
pub struct ClaimsModel {
    pub max_claim_length: u32,
    pub proofs: Map<Seq<u8>, (AccountId, BlockNumber)>,
    pub events: Seq<Event>,
}

impl ClaimsModel {
    /// Every stored claim fits the configured bound.
    pub open spec fn within_bound(self) -> bool {
        forall|k: Seq<u8>| #[trigger] self.proofs.contains_key(k) ==> k.len() <= self.max_claim_length
    }
}

/// A creation followed by a revocation of the same claim by the same
/// account, as the contracts of `create_claim` and `revoke_claim` describe
/// them. From claims `m.proofs` without `claim`, `create_claim` leaves
/// `m.proofs.insert(claim, (who, block_number))`. There `claim` is present
/// and owned by `who`, so `revoke_claim` meets none of its error conditions
/// (the length bound is unchanged), and the claims it leaves, the `remove` of
/// `claim`, are those from before the creation.
pub proof fn lemma_create_then_revoke(
    m: ClaimsModel,
    who: AccountId,
    claim: Seq<u8>,
    block_number: BlockNumber,
)
    requires
        claim.len() <= m.max_claim_length,
        !m.proofs.contains_key(claim),
    ensures
        m.proofs.insert(claim, (who, block_number)).contains_key(claim),
        m.proofs.insert(claim, (who, block_number))[claim].0 == who,
        m.proofs.insert(claim, (who, block_number)).remove(claim) == m.proofs,
{
    assert(m.proofs.insert(claim, (who, block_number)).remove(claim) =~= m.proofs);
}

/// The registry of claims.
pub struct Pallet {
    max_claim_length: u32,
    proofs: Vec<ClaimEntry>,
    events: Vec<Event>,
}

impl View for Pallet {
    type V = ClaimsModel;

    closed spec fn view(&self) -> ClaimsModel {
        ClaimsModel {
            max_claim_length: self.max_claim_length,
            proofs: claims_of(self.proofs@),
            events: self.events@,
        }
    }
}

impl Pallet {
    /// The entries are keyed uniquely by the claimed bytes, none longer than
    /// the configured bound.
    pub closed spec fn wf(&self) -> bool {
        &&& keys_unique(self.proofs@)
        &&& forall|i: int|
            0 <= i < self.proofs@.len() ==> (#[trigger] self.proofs@[i]).0@.len()
                <= self.max_claim_length
    }

    /// What a well-formed registry shows of itself: no stored claim is longer
    /// than the configured bound.
    pub proof fn lemma_wf_bounded(&self)
        requires
            self.wf(),
        ensures
            self@.within_bound(),
    {
        assert forall|k: Seq<u8>| #[trigger] self@.proofs.contains_key(k) implies k.len()
            <= self@.max_claim_length by {
            let i = choose|i: int| 0 <= i < self.proofs@.len() && #[trigger] self.proofs@[i].0@ == k;
            assert(self.proofs@[i].0@.len() <= self.max_claim_length);
        }
    }

    /// An empty registry, configured by `config`.
    pub fn new<C: Config>(config: &C) -> (r: Pallet)
        ensures
            r.wf(),
            r@.within_bound(),
            r@.proofs.is_empty(),
            r@.events.len() == 0,
    {
        let max_claim_length = config.max_claim_length();
        let r = Pallet { max_claim_length, proofs: Vec::new(), events: Vec::new() };
        assert(claims_of(r.proofs@) =~= Map::empty());
        proof {
            r.lemma_wf_bounded();
        }
        r
    }

    /// The index of the entry that claims `claim`, if any.
    fn find(&self, claim: &Vec<u8>) -> (r: Option<usize>)
        requires
            self.wf(),
        ensures
            r is None <==> !self@.proofs.contains_key(claim@),
            r matches Some(i) ==> i < self.proofs@.len() && self.proofs@[i as int].0@ == claim@,
    {
        let mut i: usize = 0;
        while i < self.proofs.len()
            invariant
                i <= self.proofs@.len(),
                forall|j: int| 0 <= j < i ==> #[trigger] self.proofs@[j].0@ != claim@,
            decreases self.proofs@.len() - i,
        {
            if bytes_eq(&self.proofs[i].0, claim) {
                return Some(i);
            }
            i = i + 1;
        }
        None
    }

    /// The owner of `claim` and the block at which they obtained it.
    pub fn proofs(&self, claim: &Vec<u8>) -> (r: Option<(AccountId, BlockNumber)>)
        requires
            self.wf(),
        ensures
            r is None <==> !self@.proofs.contains_key(claim@),
            r matches Some(v) ==> v == self@.proofs[claim@],
    {
        match self.find(claim) {
            Some(i) => {
                proof {
                    lemma_claims_at(self.proofs@, i as int);
                }
                Some((self.proofs[i].1, self.proofs[i].2))
            },
            None => None,
        }
    }

    /// Claims `claim` for `who` at `block_number`, unless it is claimed already.
    pub fn create_claim(&mut self, who: AccountId, claim: Vec<u8>, block_number: BlockNumber) -> (r:
        Result<(), Error>)
        requires
            old(self).wf(),
        ensures
            final(self).wf(),
            final(self)@.within_bound(),
            (r == Err::<(), Error>(Error::ClaimTooLong)) <==> claim@.len()
                > old(self)@.max_claim_length,
            (r == Err::<(), Error>(Error::ProofAlreadyExists)) <==> claim@.len()
                <= old(self)@.max_claim_length && old(self)@.proofs.contains_key(claim@),
            r is Err ==> final(self)@ == old(self)@,
            claim@.len() <= old(self)@.max_claim_length && !old(self)@.proofs.contains_key(claim@) ==> r is Ok,
            r is Ok ==> final(self)@ == (ClaimsModel {
                proofs: old(self)@.proofs.insert(claim@, (who, block_number)),
                events: old(self)@.events.push(Event::ClaimCreated(who, claim)),
                ..old(self)@
            }),
    {
        proof {
            self.lemma_wf_bounded();
        }
        if claim.len() > self.max_claim_length as usize {
            return Err(Error::ClaimTooLong);
        }
        match self.find(&claim) {
            Some(_) => {
                return Err(Error::ProofAlreadyExists);
            },
            None => {},
        }
        let ghost pre = self@;
        let ghost key = claim@;
        let stored = claim.clone();
        proof {
            lemma_claims_push(self.proofs@, (stored, who, block_number));
        }
        self.proofs.push((stored, who, block_number));
        let event = Event::ClaimCreated(who, claim);
        self.events.push(event);
        assert(self@ =~= ClaimsModel {
            proofs: pre.proofs.insert(key, (who, block_number)),
            events: pre.events.push(event),
            ..pre
        });
        proof {
            self.lemma_wf_bounded();
        }
        Ok(())
    }

    /// Withdraws `claim`, which `who` must own.
    pub fn revoke_claim(&mut self, who: AccountId, claim: Vec<u8>) -> (r: Result<(), Error>)
        requires
            old(self).wf(),
        ensures
            final(self).wf(),
            final(self)@.within_bound(),
            (r == Err::<(), Error>(Error::ClaimTooLong)) <==> claim@.len()
                > old(self)@.max_claim_length,
            (r == Err::<(), Error>(Error::ClaimNotExist)) <==> claim@.len()
                <= old(self)@.max_claim_length && !old(self)@.proofs.contains_key(claim@),
            (r == Err::<(), Error>(Error::NotClaimOwner)) <==> claim@.len()
                <= old(self)@.max_claim_length && old(self)@.proofs.contains_key(claim@)
                && old(self)@.proofs[claim@].0 != who,
            r is Err ==> final(self)@ == old(self)@,
            claim@.len() <= old(self)@.max_claim_length && old(self)@.proofs.contains_key(claim@)
                && old(self)@.proofs[claim@].0 == who ==> r is Ok,
            r is Ok ==> final(self)@ == (ClaimsModel {
                proofs: old(self)@.proofs.remove(claim@),
                events: old(self)@.events.push(Event::ClaimRevoked(who, claim)),
                ..old(self)@
            }),
    {
        proof {
            self.lemma_wf_bounded();
        }
        if claim.len() > self.max_claim_length as usize {
            return Err(Error::ClaimTooLong);
        }
        let i = match self.find(&claim) {
            Some(i) => i,
            None => {
                return Err(Error::ClaimNotExist);
            },
        };
        proof {
            lemma_claims_at(self.proofs@, i as int);
        }
        if self.proofs[i].1 != who {
            return Err(Error::NotClaimOwner);
        }
        let ghost pre = self@;
        proof {
            lemma_claims_remove(self.proofs@, i as int);
        }
        self.proofs.remove(i);
        let event = Event::ClaimRevoked(who, claim);
        self.events.push(event);
        assert(self@ =~= ClaimsModel {
            proofs: pre.proofs.remove(claim@),
            events: pre.events.push(event),
            ..pre
        });
        proof {
            self.lemma_wf_bounded();
        }
        Ok(())
    }

    /// Hands `claim`, which `who` must own, to `dest`, recorded as obtained
    /// at `block_number`.
    pub fn transfer_claim(
        &mut self,
        who: AccountId,
        dest: AccountId,
        claim: Vec<u8>,
        block_number: BlockNumber,
    ) -> (r: Result<(), Error>)
        requires
            old(self).wf(),
        ensures
            final(self).wf(),
            final(self)@.within_bound(),
            (r == Err::<(), Error>(Error::ClaimTooLong)) <==> claim@.len()
                > old(self)@.max_claim_length,
            (r == Err::<(), Error>(Error::ClaimNotExist)) <==> claim@.len()
                <= old(self)@.max_claim_length && !old(self)@.proofs.contains_key(claim@),
            (r == Err::<(), Error>(Error::NotClaimOwner)) <==> claim@.len()
                <= old(self)@.max_claim_length && old(self)@.proofs.contains_key(claim@)
                && old(self)@.proofs[claim@].0 != who,
            r is Err ==> final(self)@ == old(self)@,
            claim@.len() <= old(self)@.max_claim_length && old(self)@.proofs.contains_key(claim@)
                && old(self)@.proofs[claim@].0 == who ==> r is Ok,
            r is Ok ==> final(self)@ == (ClaimsModel {
                proofs: old(self)@.proofs.insert(claim@, (dest, block_number)),
                events: old(self)@.events.push(Event::ClaimTransfered(dest, claim)),
                ..old(self)@
            }),
    {
        proof {
            self.lemma_wf_bounded();
        }
        if claim.len() > self.max_claim_length as usize {
            return Err(Error::ClaimTooLong);
        }
        let i = match self.find(&claim) {
            Some(i) => i,
            None => {
                return Err(Error::ClaimNotExist);
            },
        };
        proof {
            lemma_claims_at(self.proofs@, i as int);
        }
        if self.proofs[i].1 != who {
            return Err(Error::NotClaimOwner);
        }
        let ghost pre = self@;
        let ghost key = claim@;
        proof {
            lemma_claims_remove(self.proofs@, i as int);
        }
        let entry = self.proofs.remove(i);
        let event = Event::ClaimTransfered(dest, claim);
        proof {
            lemma_claims_push(self.proofs@, (entry.0, dest, block_number));
        }
        self.proofs.push((entry.0, dest, block_number));
        self.events.push(event);
        assert(self@ =~= ClaimsModel {
            proofs: pre.proofs.insert(key, (dest, block_number)),
            events: pre.events.push(event),
            ..pre
        });
        proof {
            self.lemma_wf_bounded();
        }
        Ok(())
    }

    /// The most recent event, if any operation has succeeded yet.
    pub fn last_event(&self) -> (r: Option<&Event>)
        ensures
            r == (if self@.events.len() > 0 {
                Some(&self@.events.last())
            } else {
                None
            }),
    {
        let n = self.events.len();
        if n == 0 {
            None
        } else {
            Some(&self.events[n - 1])
        }
    }
}

} // verus!
