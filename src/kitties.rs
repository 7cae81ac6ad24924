//! The asset ledger: creation, breeding, transfer, listing and sale of kitties.

use vstd::prelude::*;

use crate::dna::{random_value, random_value_of};
use crate::migrations::v2;
use crate::migrations::{KittyStorage, MigrationError, all_of_len, read_array};

verus! {

broadcast use vstd::std_specs::hash::group_hash_axioms;

pub type KittyId = u32;

pub type AccountId = u64;

pub type Balance = u128;

pub type BlockNumber = u64;

/// The layout version that the persisted records are kept in.
pub const STORAGE_VERSION: u16 = 2;

/// A kitty: its genetic code and its name. Immutable once created.
#[derive(Clone, Copy, Debug, PartialEq, Eq)]
pub struct Kitty {
    pub dna: [u8; 16],
    pub name: [u8; 8],
}

impl Kitty {
    /// Reads a record in the current layout: exactly twenty-four bytes, the
    /// genetic code followed by the name.
    pub fn decode(bytes: &Vec<u8>) -> (r: Option<Kitty>)
        ensures
            r is Some <==> bytes@.len() == 24,
            r matches Some(k) ==> k.dna@ == bytes@.subrange(0, 16) && k.name@ == bytes@.subrange(
                16,
                24,
            ),
    {
        if bytes.len() != 24 {
            return None;
        }
        Some(Kitty { dna: read_array(bytes, 0), name: read_array(bytes, 16) })
    }

    /// The persisted encoding: the genetic code followed by the name.
    pub fn encode(&self) -> (r: Vec<u8>)
        ensures
            r@ == self.dna@.add(self.name@),
    {
        let mut out: Vec<u8> = Vec::new();
        let mut i: usize = 0;
        while i < 16
            invariant
                i <= 16,
                out@ == self.dna@.subrange(0, i as int),
            decreases 16 - i,
        {
            out.push(self.dna[i]);
            i = i + 1;
            assert(out@ =~= self.dna@.subrange(0, i as int));
        }
        let mut j: usize = 0;
        while j < 8
            invariant
                j <= 8,
                out@ == self.dna@.add(self.name@.subrange(0, j as int)),
            decreases 8 - j,
        {
            out.push(self.name[j]);
            j = j + 1;
            assert(out@ =~= self.dna@.add(self.name@.subrange(0, j as int)));
        }
        assert(self.dna@ =~= self.dna@.subrange(0, 16));
        assert(self.name@ =~= self.name@.subrange(0, 8));
        out
    }
}

/// What a successful operation reports to observers.
#[derive(Clone, Copy, Debug, PartialEq, Eq)]
pub enum Event {
    KittyCreated { who: AccountId, kitty_id: KittyId, kitty: Kitty },
    KittyBred { who: AccountId, kitty_id: KittyId, kitty: Kitty },
    KittyTransferred { from: AccountId, to: AccountId, kitty_id: KittyId },
    KittyForSale { who: AccountId, kitty_id: KittyId, price: Balance },
    KittySold { from: AccountId, to: AccountId, kitty_id: KittyId, price: Balance },
}

/// The ways in which an operation of the ledger itself is refused.
#[derive(Clone, Copy, Debug, PartialEq, Eq)]
pub enum Error {
    InvalidKittyId,
    SameParentsId,
    NotOwner,
    BuyFromSelf,
    AlreadyOnSale,
    NotOnSale,
    InvalidPrice,
}

/// Why the funds-movement service refused a transfer.
#[derive(Clone, Copy, Debug, PartialEq, Eq)]
pub enum FundsError {
    /// The payer does not hold enough.
    InsufficientBalance,
    /// The payment would take the payer below the existential deposit.
    KeepAlive,
    /// Any other refusal of the service.
    Other,
}

/// Why an operation failed: refused by the ledger, or by the funds service.
#[derive(Clone, Copy, Debug, PartialEq, Eq)]
pub enum DispatchError {
    Kitties(Error),
    Funds(FundsError),
}

/// The funds-movement service that the ledger charges through. Each call
/// either moves `value` from `source` to `dest` (keeping `source` alive) or
/// moves nothing and reports why.
pub trait Currency {
    /// The payments that the service has made so far, in order: payer,
    /// payee, amount. A verified implementation defines it so that
    /// `transfer` meets its contract; the empty default serves only
    /// implementations written outside verified code.
    closed spec fn payments(&self) -> Seq<(AccountId, AccountId, Balance)> {
        Seq::empty()
    }

    /// Why the most recent refused call was refused. Defined, like
    /// `payments`, by verified implementations.
    closed spec fn last_refusal(&self) -> Option<FundsError> {
        None
    }

    fn transfer(&mut self, source: AccountId, dest: AccountId, value: Balance) -> (r: Result<
        (),
        FundsError,
    >)
        ensures
            r is Ok ==> final(self).payments() == old(self).payments().push((source, dest, value)),
            r matches Err(e) ==> {
                &&& final(self).payments() == old(self).payments()
                &&& final(self).last_refusal() == Some(e)
            },
    ;
}

/// The parameters that a deployment of the ledger is configured with.
pub trait Config {
    /// What creating or breeding a kitty costs.
    fn kitty_price(&self) -> Balance;

    /// The escrow account that receives creation payments.
    fn pallet_account(&self) -> AccountId;
}

/// The abstract state of the ledger.
#[verifier::ext_equal]
pub struct KittiesModel {
    pub kitty_price: Balance,
    pub pallet_account: AccountId,
    pub next_kitty_id: KittyId,
    pub kitties: Map<KittyId, Kitty>,
    pub owners: Map<KittyId, AccountId>,
    pub parents: Map<KittyId, (KittyId, KittyId)>,
    pub prices: Map<KittyId, Balance>,
    pub events: Seq<Event>,
}

impl KittiesModel {
    /// Every kitty has exactly one owner; parentage and listings refer only to
    /// existing kitties; every existing id lies below the next one to be issued.
    pub open spec fn wf(self) -> bool {
        &&& self.owners.dom() == self.kitties.dom()
        &&& self.parents.dom().subset_of(self.kitties.dom())
        &&& self.prices.dom().subset_of(self.kitties.dom())
        &&& forall|id: KittyId| #[trigger] self.kitties.contains_key(id) ==> id < self.next_kitty_id
    }

    /// The state after issuing the next id to `kitty`, owned by `who`, with
    /// the given parentage, and reporting `event`.
    pub open spec fn with_new_kitty(
        self,
        who: AccountId,
        kitty: Kitty,
        parents: Option<(KittyId, KittyId)>,
        event: Event,
    ) -> KittiesModel {
        let id = self.next_kitty_id;
        KittiesModel {
            next_kitty_id: (id + 1) as KittyId,
            kitties: self.kitties.insert(id, kitty),
            owners: self.owners.insert(id, who),
            parents: match parents {
                Some(p) => self.parents.insert(id, p),
                None => self.parents,
            },
            events: self.events.push(event),
            ..self
        }
    }

    /// What listing `kitty_id` for sale at `price` on behalf of `who` leads
    /// to: the state after it, or the reason it is refused.
    pub open spec fn set_price_outcome(self, who: AccountId, kitty_id: KittyId, price: Balance) -> Result<
        KittiesModel,
        Error,
    > {
        if !self.kitties.contains_key(kitty_id) {
            Err(Error::InvalidKittyId)
        } else if self.owners[kitty_id] != who {
            Err(Error::NotOwner)
        } else if self.prices.contains_key(kitty_id) {
            Err(Error::AlreadyOnSale)
        } else {
            Ok(
                KittiesModel {
                    prices: self.prices.insert(kitty_id, price),
                    events: self.events.push(Event::KittyForSale { who, kitty_id, price }),
                    ..self
                },
            )
        }
    }

    /// The child's genetic code: each bit from the first parent where the
    /// selector has a one, from the second where it has a zero.
    pub open spec fn child_dna(p1: Seq<u8>, p2: Seq<u8>, selector: Seq<u8>) -> Seq<u8> {
        Seq::new(16, |i: int| (p1[i] & selector[i]) | (p2[i] & !selector[i]))
    }
}

/// Combines two genetic codes bit by bit: from `dna_1` where `selector` has
/// a one, from `dna_2` where it has a zero.
pub fn mix_dna(dna_1: &[u8; 16], dna_2: &[u8; 16], selector: &[u8; 16]) -> (r: [u8; 16])
    ensures
        r@ == KittiesModel::child_dna(dna_1@, dna_2@, selector@),
{
    let mut dna = [0u8; 16];
    let mut i: usize = 0;
    while i < 16
        invariant
            i <= 16,
            forall|j: int|
                0 <= j < i ==> dna@[j] == KittiesModel::child_dna(dna_1@, dna_2@, selector@)[j],
        decreases 16 - i,
    {
        dna[i] = (dna_1[i] & selector[i]) | (dna_2[i] & !selector[i]);
        i = i + 1;
    }
    assert(dna@ =~= KittiesModel::child_dna(dna_1@, dna_2@, selector@));
    dna
}

/// Listing a kitty that is already listed is refused, whatever the price:
/// after one successful listing, a second one by the same owner fails with
/// `AlreadyOnSale`.
pub proof fn lemma_second_listing_refused(
    m: KittiesModel,
    who: AccountId,
    kitty_id: KittyId,
    price: Balance,
    second_price: Balance,
)
    requires
        m.wf(),
        m.set_price_outcome(who, kitty_id, price) is Ok,
    ensures
        m.set_price_outcome(who, kitty_id, price) matches Ok(after) && after.set_price_outcome(
            who,
            kitty_id,
            second_price,
        ) == Err::<KittiesModel, Error>(Error::AlreadyOnSale),
{
}

/// The ledger of kitties.
pub struct Pallet {
    kitty_price: Balance,
    pallet_account: AccountId,
    next_kitty_id: KittyId,
    kitties: std::collections::HashMap<KittyId, Kitty>,
    kitty_owner: std::collections::HashMap<KittyId, AccountId>,
    kitty_parents: std::collections::HashMap<KittyId, (KittyId, KittyId)>,
    kitty_prices: std::collections::HashMap<KittyId, Balance>,
    events: Vec<Event>,
}

impl View for Pallet {
    type V = KittiesModel;

    closed spec fn view(&self) -> KittiesModel {
        KittiesModel {
            kitty_price: self.kitty_price,
            pallet_account: self.pallet_account,
            next_kitty_id: self.next_kitty_id,
            kitties: self.kitties@,
            owners: self.kitty_owner@,
            parents: self.kitty_parents@,
            prices: self.kitty_prices@,
            events: self.events@,
        }
    }
}

impl Pallet {
    pub open spec fn wf(&self) -> bool {
        self@.wf()
    }

    /// An empty ledger, configured by `config`.
    pub fn new<C: Config>(config: &C) -> (r: Pallet)
        ensures
            r.wf(),
            r@.next_kitty_id == 0,
            r@.kitties.is_empty(),
            r@.owners.is_empty(),
            r@.parents.is_empty(),
            r@.prices.is_empty(),
            r@.events.len() == 0,
    {
        let kitty_price = config.kitty_price();
        let pallet_account = config.pallet_account();
        Pallet {
            kitty_price,
            pallet_account,
            next_kitty_id: 0,
            kitties: std::collections::HashMap::new(),
            kitty_owner: std::collections::HashMap::new(),
            kitty_parents: std::collections::HashMap::new(),
            kitty_prices: std::collections::HashMap::new(),
            events: Vec::new(),
        }
    }

    /// Whether an id can still be allocated: the id that the next
    /// allocation would issue, or `InvalidKittyId` when the counter can no
    /// longer advance. Nothing changes.
    fn peek_next_id(&self) -> (r: Result<KittyId, Error>)
        ensures
            self@.next_kitty_id < u32::MAX ==> r == Ok::<KittyId, Error>(self@.next_kitty_id),
            self@.next_kitty_id == u32::MAX ==> r == Err::<KittyId, Error>(Error::InvalidKittyId),
    {
        match self.next_kitty_id.checked_add(1) {
            Some(_) => Ok(self.next_kitty_id),
            None => Err(Error::InvalidKittyId),
        }
    }

    /// Allocates an id: returns the counter and advances it by one, or fails
    /// with `InvalidKittyId`, changing nothing, when it can no longer advance.
    fn get_next_id(&mut self) -> (r: Result<KittyId, Error>)
        requires
            old(self).wf(),
        ensures
            final(self).wf(),
            old(self)@.next_kitty_id < u32::MAX ==> r == Ok::<KittyId, Error>(
                old(self)@.next_kitty_id,
            ) && final(self)@ == (KittiesModel {
                next_kitty_id: (old(self)@.next_kitty_id + 1) as KittyId,
                ..old(self)@
            }),
            old(self)@.next_kitty_id == u32::MAX ==> r == Err::<KittyId, Error>(
                Error::InvalidKittyId,
            ) && final(self)@ == old(self)@,
    {
        let current = self.next_kitty_id;
        match current.checked_add(1) {
            Some(next) => {
                let ghost pre = self@;
                self.next_kitty_id = next;
                assert(self@ =~= KittiesModel { next_kitty_id: next, ..pre });
                Ok(current)
            },
            None => Err(Error::InvalidKittyId),
        }
    }

    /// Records `kitty` under the freshly allocated `kitty_id`, owned by `who`.
    fn insert_kitty(
        &mut self,
        kitty_id: KittyId,
        who: AccountId,
        kitty: Kitty,
        parents: Option<(KittyId, KittyId)>,
        event: Event,
    )
        requires
            old(self).wf(),
            old(self)@.next_kitty_id == kitty_id + 1,
            !old(self)@.kitties.contains_key(kitty_id),
        ensures
            final(self).wf(),
            final(self)@ == (KittiesModel {
                kitties: old(self)@.kitties.insert(kitty_id, kitty),
                owners: old(self)@.owners.insert(kitty_id, who),
                parents: match parents {
                    Some(p) => old(self)@.parents.insert(kitty_id, p),
                    None => old(self)@.parents,
                },
                events: old(self)@.events.push(event),
                ..old(self)@
            }),
    {
        let ghost pre = self@;
        self.kitties.insert(kitty_id, kitty);
        self.kitty_owner.insert(kitty_id, who);
        match parents {
            Some(p) => {
                self.kitty_parents.insert(kitty_id, p);
            },
            None => {},
        }
        self.events.push(event);
        assert(self@ =~= KittiesModel {
            kitties: pre.kitties.insert(kitty_id, kitty),
            owners: pre.owners.insert(kitty_id, who),
            parents: match parents {
                Some(p) => pre.parents.insert(kitty_id, p),
                None => pre.parents,
            },
            events: pre.events.push(event),
            ..pre
        });
    }

    /// Creates a kitty named `name` for `who`, with a genetic code derived
    /// from the oracle `seed` and the current `block_number`, and charges the
    /// configured price to `who` in favour of the escrow account.
    pub fn create<C: Currency>(
        &mut self,
        currency: &mut C,
        who: AccountId,
        name: [u8; 8],
        seed: [u8; 32],
        block_number: BlockNumber,
    ) -> (r: Result<(), DispatchError>)
        requires
            old(self).wf(),
        ensures
            final(self).wf(),
            (r == Err::<(), DispatchError>(DispatchError::Kitties(Error::InvalidKittyId)))
                <==> old(self)@.next_kitty_id == u32::MAX,
            r is Err ==> final(self)@ == old(self)@,
            r is Ok ==> final(currency).payments() == old(currency).payments().push(
                (who, old(self)@.pallet_account, old(self)@.kitty_price),
            ),
            r matches Err(DispatchError::Funds(e)) ==> {
                &&& final(currency).payments() == old(currency).payments()
                &&& final(currency).last_refusal() == Some(e)
            },
            r matches Err(DispatchError::Kitties(_)) ==> *final(currency) == *old(currency),
            old(self)@.next_kitty_id < u32::MAX ==> r is Ok || r matches Err(
                DispatchError::Funds(_),
            ),
            r is Ok ==> final(self)@.next_kitty_id == old(self)@.next_kitty_id + 1,
            r is Ok ==> final(self)@.owners[old(self)@.next_kitty_id] == who,
            r is Ok ==> {
                let id = old(self)@.next_kitty_id;
                let kitty = final(self)@.kitties[id];
                &&& kitty.dna@ == random_value_of(who, seed@, block_number)
                &&& kitty.name == name
                &&& final(self)@ == old(self)@.with_new_kitty(
                    who,
                    kitty,
                    None,
                    Event::KittyCreated { who, kitty_id: id, kitty },
                )
            },
    {
        match self.peek_next_id() {
            Ok(_) => {},
            Err(e) => {
                return Err(DispatchError::Kitties(e));
            },
        }
        let dna = random_value(who, &seed, block_number);
        let kitty = Kitty { dna, name };
        match currency.transfer(who, self.pallet_account, self.kitty_price) {
            Ok(()) => {},
            Err(e) => {
                return Err(DispatchError::Funds(e));
            },
        }
        let ghost pre = self@;
        let kitty_id = match self.get_next_id() {
            Ok(id) => id,
            Err(e) => {
                return Err(DispatchError::Kitties(e));
            },
        };
        let event = Event::KittyCreated { who, kitty_id, kitty };
        self.insert_kitty(kitty_id, who, kitty, None, event);
        assert(self@ =~= pre.with_new_kitty(who, kitty, None, event));
        Ok(())
    }

    /// Breeds a child named `name` for `who` from two distinct existing
    /// kitties: each bit of its genetic code comes from the first parent where
    /// the selector derived from `seed` and `block_number` has a one, and from
    /// the second where it has a zero. Charges the configured price as `create`
    /// does and records the parentage in argument order.
    pub fn breed<C: Currency>(
        &mut self,
        currency: &mut C,
        who: AccountId,
        kitty_id_1: KittyId,
        kitty_id_2: KittyId,
        name: [u8; 8],
        seed: [u8; 32],
        block_number: BlockNumber,
    ) -> (r: Result<(), DispatchError>)
        requires
            old(self).wf(),
        ensures
            final(self).wf(),
            (r == Err::<(), DispatchError>(DispatchError::Kitties(Error::SameParentsId)))
                <==> kitty_id_1 == kitty_id_2,
            (r == Err::<(), DispatchError>(DispatchError::Kitties(Error::InvalidKittyId))) <==> {
                &&& kitty_id_1 != kitty_id_2
                &&& {
                    ||| !old(self)@.kitties.contains_key(kitty_id_1)
                    ||| !old(self)@.kitties.contains_key(kitty_id_2)
                    ||| old(self)@.next_kitty_id == u32::MAX
                }
            },
            r is Err ==> final(self)@ == old(self)@,
            r is Ok ==> final(currency).payments() == old(currency).payments().push(
                (who, old(self)@.pallet_account, old(self)@.kitty_price),
            ),
            r matches Err(DispatchError::Funds(e)) ==> {
                &&& final(currency).payments() == old(currency).payments()
                &&& final(currency).last_refusal() == Some(e)
            },
            r matches Err(DispatchError::Kitties(_)) ==> *final(currency) == *old(currency),
            kitty_id_1 != kitty_id_2 && old(self)@.kitties.contains_key(kitty_id_1)
                && old(self)@.kitties.contains_key(kitty_id_2) && old(self)@.next_kitty_id
                < u32::MAX ==> r is Ok || r matches Err(DispatchError::Funds(_)),
            r is Ok ==> {
                let id = old(self)@.next_kitty_id;
                let kitty = final(self)@.kitties[id];
                &&& kitty.dna@ == KittiesModel::child_dna(
                    old(self)@.kitties[kitty_id_1].dna@,
                    old(self)@.kitties[kitty_id_2].dna@,
                    random_value_of(who, seed@, block_number),
                )
                &&& kitty.name == name
                &&& final(self)@ == old(self)@.with_new_kitty(
                    who,
                    kitty,
                    Some((kitty_id_1, kitty_id_2)),
                    Event::KittyBred { who, kitty_id: id, kitty },
                )
            },
    {
        if kitty_id_1 == kitty_id_2 {
            return Err(DispatchError::Kitties(Error::SameParentsId));
        }
        let kitty_1 = match self.kitties.get(&kitty_id_1) {
            Some(k) => *k,
            None => {
                return Err(DispatchError::Kitties(Error::InvalidKittyId));
            },
        };
        let kitty_2 = match self.kitties.get(&kitty_id_2) {
            Some(k) => *k,
            None => {
                return Err(DispatchError::Kitties(Error::InvalidKittyId));
            },
        };
        match self.peek_next_id() {
            Ok(_) => {},
            Err(e) => {
                return Err(DispatchError::Kitties(e));
            },
        }
        let selector = random_value(who, &seed, block_number);
        let dna = mix_dna(&kitty_1.dna, &kitty_2.dna, &selector);
        let kitty = Kitty { dna, name };
        match currency.transfer(who, self.pallet_account, self.kitty_price) {
            Ok(()) => {},
            Err(e) => {
                return Err(DispatchError::Funds(e));
            },
        }
        let ghost pre = self@;
        let kitty_id = match self.get_next_id() {
            Ok(id) => id,
            Err(e) => {
                return Err(DispatchError::Kitties(e));
            },
        };
        let event = Event::KittyBred { who, kitty_id, kitty };
        self.insert_kitty(kitty_id, who, kitty, Some((kitty_id_1, kitty_id_2)), event);
        assert(self@ =~= pre.with_new_kitty(who, kitty, Some((kitty_id_1, kitty_id_2)), event));
        Ok(())
    }

    /// Hands `kitty_id` from its owner `who` to `to`. A listing of the kitty
    /// stays as it was.
    pub fn transfer(&mut self, who: AccountId, to: AccountId, kitty_id: KittyId) -> (r: Result<
        (),
        Error,
    >)
        requires
            old(self).wf(),
        ensures
            final(self).wf(),
            (r == Err::<(), Error>(Error::InvalidKittyId)) <==> !old(self)@.kitties.contains_key(
                kitty_id,
            ),
            (r == Err::<(), Error>(Error::NotOwner)) <==> old(self)@.kitties.contains_key(kitty_id)
                && old(self)@.owners[kitty_id] != who,
            r is Err ==> final(self)@ == old(self)@,
            old(self)@.kitties.contains_key(kitty_id) && old(self)@.owners[kitty_id] == who ==> r is Ok,
            r is Ok ==> final(self)@.owners[kitty_id] == to,
            r is Ok ==> final(self)@ == (KittiesModel {
                owners: old(self)@.owners.insert(kitty_id, to),
                events: old(self)@.events.push(
                    Event::KittyTransferred { from: who, to, kitty_id },
                ),
                ..old(self)@
            }),
    {
        if !self.kitties.contains_key(&kitty_id) {
            return Err(Error::InvalidKittyId);
        }
        let owner = match self.kitty_owner.get(&kitty_id) {
            Some(o) => *o,
            None => {
                return Err(Error::InvalidKittyId);
            },
        };
        if owner != who {
            return Err(Error::NotOwner);
        }
        let ghost pre = self@;
        self.kitty_owner.insert(kitty_id, to);
        self.events.push(Event::KittyTransferred { from: who, to, kitty_id });
        assert(self@.owners.dom() =~= pre.owners.dom());
        assert(self@ =~= KittiesModel {
            owners: pre.owners.insert(kitty_id, to),
            events: pre.events.push(Event::KittyTransferred { from: who, to, kitty_id }),
            ..pre
        });
        Ok(())
    }

    /// Lists `kitty_id`, owned by `who`, for sale at `price`.
    pub fn set_price(&mut self, who: AccountId, kitty_id: KittyId, price: Balance) -> (r: Result<
        (),
        Error,
    >)
        requires
            old(self).wf(),
        ensures
            final(self).wf(),
            (r == Err::<(), Error>(Error::InvalidKittyId)) <==> !old(self)@.kitties.contains_key(
                kitty_id,
            ),
            (r == Err::<(), Error>(Error::NotOwner)) <==> old(self)@.kitties.contains_key(kitty_id)
                && old(self)@.owners[kitty_id] != who,
            (r == Err::<(), Error>(Error::AlreadyOnSale)) <==> old(self)@.kitties.contains_key(
                kitty_id,
            ) && old(self)@.owners[kitty_id] == who && old(self)@.prices.contains_key(kitty_id),
            r is Err ==> final(self)@ == old(self)@,
            match old(self)@.set_price_outcome(who, kitty_id, price) {
                Ok(m) => r is Ok && final(self)@ == m,
                Err(e) => r == Err::<(), Error>(e) && final(self)@ == old(self)@,
            },
            r is Ok ==> final(self)@ == (KittiesModel {
                prices: old(self)@.prices.insert(kitty_id, price),
                events: old(self)@.events.push(Event::KittyForSale { who, kitty_id, price }),
                ..old(self)@
            }),
    {
        if !self.kitties.contains_key(&kitty_id) {
            return Err(Error::InvalidKittyId);
        }
        let owner = match self.kitty_owner.get(&kitty_id) {
            Some(o) => *o,
            None => {
                return Err(Error::InvalidKittyId);
            },
        };
        if owner != who {
            return Err(Error::NotOwner);
        }
        if self.kitty_prices.contains_key(&kitty_id) {
            return Err(Error::AlreadyOnSale);
        }
        let ghost pre = self@;
        self.kitty_prices.insert(kitty_id, price);
        self.events.push(Event::KittyForSale { who, kitty_id, price });
        assert(self@ =~= KittiesModel {
            prices: pre.prices.insert(kitty_id, price),
            events: pre.events.push(Event::KittyForSale { who, kitty_id, price }),
            ..pre
        });
        Ok(())
    }

    /// Buys the listed `kitty_id` for `who`: pays the listed price from
    /// `who` straight to the current owner, makes `who` the owner and ends
    /// the listing.
    pub fn buy<C: Currency>(&mut self, currency: &mut C, who: AccountId, kitty_id: KittyId) -> (r:
        Result<(), DispatchError>)
        requires
            old(self).wf(),
        ensures
            final(self).wf(),
            (r == Err::<(), DispatchError>(DispatchError::Kitties(Error::InvalidKittyId)))
                <==> !old(self)@.kitties.contains_key(kitty_id),
            (r == Err::<(), DispatchError>(DispatchError::Kitties(Error::BuyFromSelf)))
                <==> old(self)@.kitties.contains_key(kitty_id) && old(self)@.owners[kitty_id]
                == who,
            (r == Err::<(), DispatchError>(DispatchError::Kitties(Error::NotOnSale)))
                <==> old(self)@.kitties.contains_key(kitty_id) && old(self)@.owners[kitty_id]
                != who && !old(self)@.prices.contains_key(kitty_id),
            r is Err ==> final(self)@ == old(self)@,
            r is Ok ==> final(currency).payments() == old(currency).payments().push(
                (who, old(self)@.owners[kitty_id], old(self)@.prices[kitty_id]),
            ),
            r matches Err(DispatchError::Funds(e)) ==> {
                &&& final(currency).payments() == old(currency).payments()
                &&& final(currency).last_refusal() == Some(e)
            },
            r matches Err(DispatchError::Kitties(_)) ==> *final(currency) == *old(currency),
            old(self)@.kitties.contains_key(kitty_id) && old(self)@.owners[kitty_id] != who
                && old(self)@.prices.contains_key(kitty_id) ==> r is Ok || r matches Err(
                DispatchError::Funds(_),
            ),
            r is Ok ==> !final(self)@.prices.contains_key(kitty_id) && final(self)@.owners[kitty_id]
                == who,
            r is Ok ==> final(self)@ == (KittiesModel {
                owners: old(self)@.owners.insert(kitty_id, who),
                prices: old(self)@.prices.remove(kitty_id),
                events: old(self)@.events.push(
                    Event::KittySold {
                        from: old(self)@.owners[kitty_id],
                        to: who,
                        kitty_id,
                        price: old(self)@.prices[kitty_id],
                    },
                ),
                ..old(self)@
            }),
    {
        if !self.kitties.contains_key(&kitty_id) {
            return Err(DispatchError::Kitties(Error::InvalidKittyId));
        }
        let owner = match self.kitty_owner.get(&kitty_id) {
            Some(o) => *o,
            None => {
                return Err(DispatchError::Kitties(Error::InvalidKittyId));
            },
        };
        if owner == who {
            return Err(DispatchError::Kitties(Error::BuyFromSelf));
        }
        let price = match self.kitty_prices.get(&kitty_id) {
            Some(p) => *p,
            None => {
                return Err(DispatchError::Kitties(Error::NotOnSale));
            },
        };
        match currency.transfer(who, owner, price) {
            Ok(()) => {},
            Err(e) => {
                return Err(DispatchError::Funds(e));
            },
        }
        let ghost pre = self@;
        let event = Event::KittySold { from: owner, to: who, kitty_id, price };
        self.kitty_owner.insert(kitty_id, who);
        self.kitty_prices.remove(&kitty_id);
        self.events.push(event);
        assert(self@.owners.dom() =~= pre.owners.dom());
        assert(self@ =~= KittiesModel {
            owners: pre.owners.insert(kitty_id, who),
            prices: pre.prices.remove(kitty_id),
            events: pre.events.push(event),
            ..pre
        });
        Ok(())
    }

    /// Moves the id counter forward to `next`, as a genesis configuration
    /// or a test may; ids are never reused, so a counter below the current
    /// one is refused and nothing changes.
    pub fn set_next_kitty_id(&mut self, next: KittyId) -> (r: bool)
        requires
            old(self).wf(),
        ensures
            final(self).wf(),
            r == (next >= old(self)@.next_kitty_id),
            r ==> final(self)@ == (KittiesModel { next_kitty_id: next, ..old(self)@ }),
            !r ==> final(self)@ == old(self)@,
    {
        if next < self.next_kitty_id {
            return false;
        }
        let ghost pre = self@;
        self.next_kitty_id = next;
        assert(self@ =~= KittiesModel { next_kitty_id: next, ..pre });
        true
    }

    /// The id that the next created or bred kitty will get.
    pub fn next_kitty_id(&self) -> (r: KittyId)
        ensures
            r == self@.next_kitty_id,
    {
        self.next_kitty_id
    }

    /// The kitty recorded under `kitty_id`, if any.
    pub fn kitties(&self, kitty_id: KittyId) -> (r: Option<Kitty>)
        ensures
            r == (if self@.kitties.contains_key(kitty_id) {
                Some(self@.kitties[kitty_id])
            } else {
                None
            }),
    {
        match self.kitties.get(&kitty_id) {
            Some(k) => Some(*k),
            None => None,
        }
    }

    /// The owner of `kitty_id`, if it exists.
    pub fn kitty_owner(&self, kitty_id: KittyId) -> (r: Option<AccountId>)
        ensures
            r == (if self@.owners.contains_key(kitty_id) {
                Some(self@.owners[kitty_id])
            } else {
                None
            }),
    {
        match self.kitty_owner.get(&kitty_id) {
            Some(o) => Some(*o),
            None => None,
        }
    }

    /// The parents of `kitty_id`, if it was bred.
    pub fn kitty_parents(&self, kitty_id: KittyId) -> (r: Option<(KittyId, KittyId)>)
        ensures
            r == (if self@.parents.contains_key(kitty_id) {
                Some(self@.parents[kitty_id])
            } else {
                None
            }),
    {
        match self.kitty_parents.get(&kitty_id) {
            Some(p) => Some(*p),
            None => None,
        }
    }

    /// The price that `kitty_id` is listed at, if it is for sale.
    pub fn kitty_prices(&self, kitty_id: KittyId) -> (r: Option<Balance>)
        ensures
            r == (if self@.prices.contains_key(kitty_id) {
                Some(self@.prices[kitty_id])
            } else {
                None
            }),
    {
        match self.kitty_prices.get(&kitty_id) {
            Some(p) => Some(*p),
            None => None,
        }
    }

    /// The most recent event, if any operation has succeeded yet.
    pub fn last_event(&self) -> (r: Option<Event>)
        ensures
            r == (if self@.events.len() > 0 {
                Some(self@.events.last())
            } else {
                None
            }),
    {
        let n = self.events.len();
        if n == 0 {
            None
        } else {
            Some(self.events[n - 1])
        }
    }

    /// The number of events deposited so far.
    pub fn event_count(&self) -> (r: usize)
        ensures
            r == self@.events.len(),
    {
        self.events.len()
    }

    /// The account that creation payments go to.
    pub fn account_id(&self) -> (r: AccountId)
        ensures
            r == self@.pallet_account,
    {
        self.pallet_account
    }

    /// Brings the persisted records up to the layout of `STORAGE_VERSION`,
    /// by the one step that leads to it.
    pub fn on_runtime_upgrade(storage: &mut KittyStorage) -> (r: Result<(), MigrationError>)
        ensures
            final(storage)@ == v2::step(old(storage)@, STORAGE_VERSION),
            r is Ok <==> !v2::is_due(old(storage)@, STORAGE_VERSION) || all_of_len(
                old(storage)@.records,
                20,
            ),
    {
        v2::migrate(storage, STORAGE_VERSION)
    }

    /// The persisted record of `kitty_id`, if it exists.
    pub fn export_record(&self, kitty_id: KittyId) -> (r: Option<Vec<u8>>)
        ensures
            r is Some <==> self@.kitties.contains_key(kitty_id),
            r matches Some(bytes) ==> bytes@ == self@.kitties[kitty_id].dna@.add(
                self@.kitties[kitty_id].name@,
            ),
    {
        match self.kitties.get(&kitty_id) {
            Some(k) => Some(k.encode()),
            None => None,
        }
    }

    /// Takes in a persisted record in the current layout as the kitty
    /// `kitty_id`, owned by `owner`, and moves the id counter past it. Fails
    /// with `InvalidKittyId`, changing nothing, where the record does not
    /// decode, the id is taken, or no id could follow it.
    pub fn import_record(&mut self, kitty_id: KittyId, owner: AccountId, bytes: &Vec<u8>) -> (r:
        Result<(), Error>)
        requires
            old(self).wf(),
        ensures
            final(self).wf(),
            (r == Err::<(), Error>(Error::InvalidKittyId)) <==> bytes@.len() != 24
                || old(self)@.kitties.contains_key(kitty_id) || kitty_id == u32::MAX,
            r is Err ==> r == Err::<(), Error>(Error::InvalidKittyId) && final(self)@ == old(
                self,
            )@,
            r is Ok ==> {
                let kitty = final(self)@.kitties[kitty_id];
                &&& kitty.dna@ == bytes@.subrange(0, 16)
                &&& kitty.name@ == bytes@.subrange(16, 24)
                &&& final(self)@ == (KittiesModel {
                    next_kitty_id: if kitty_id < old(self)@.next_kitty_id {
                        old(self)@.next_kitty_id
                    } else {
                        (kitty_id + 1) as KittyId
                    },
                    kitties: old(self)@.kitties.insert(kitty_id, kitty),
                    owners: old(self)@.owners.insert(kitty_id, owner),
                    ..old(self)@
                })
            },
    {
        if kitty_id == u32::MAX || self.kitties.contains_key(&kitty_id) {
            return Err(Error::InvalidKittyId);
        }
        let kitty = match Kitty::decode(bytes) {
            Some(k) => k,
            None => {
                return Err(Error::InvalidKittyId);
            },
        };
        let ghost pre = self@;
        self.kitties.insert(kitty_id, kitty);
        self.kitty_owner.insert(kitty_id, owner);
        if kitty_id >= self.next_kitty_id {
            self.next_kitty_id = kitty_id + 1;
        }
        assert(self@ =~= KittiesModel {
            next_kitty_id: if kitty_id < pre.next_kitty_id {
                pre.next_kitty_id
            } else {
                (kitty_id + 1) as KittyId
            },
            kitties: pre.kitties.insert(kitty_id, kitty),
            owners: pre.owners.insert(kitty_id, owner),
            ..pre
        });
        Ok(())
    }
}

} // verus!
