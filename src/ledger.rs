use vstd::prelude::*;
use crate::address::Address;
use crate::error::{AutoVerifyError, LedgerError};

verus! {

broadcast use vstd::array::group_array_axioms;

/// A creator entry of a descriptive record; `share` is a percentage.
#[derive(Clone, Copy, Debug, PartialEq, Eq)]
pub struct Creator {
    pub address: Address,
    pub verified: bool,
    pub share: u8,
}

/// The collection that an item's descriptive record points to.
#[derive(Clone, Copy, Debug, PartialEq, Eq)]
pub struct CollectionRef {
    pub key: Address,
    pub verified: bool,
}

/// An asset unit: its identity, its issuing and freezing authorities, its
/// number of decimals and the quantity issued.
#[derive(Clone, Copy, Debug, PartialEq, Eq)]
pub struct MintAccount {
    pub address: Address,
    pub authority: Address,
    pub freeze_authority: Address,
    pub decimals: u8,
    pub supply: u64,
}

/// A holding of an asset unit by an owner.
#[derive(Clone, Copy, Debug, PartialEq, Eq)]
pub struct TokenAccount {
    pub mint: Address,
    pub owner: Address,
    pub amount: u64,
}

/// The descriptive record bound to an asset unit. `max_supply` is set once
/// the record is sealed as a non-reissuable template.
#[derive(Debug)]
pub struct MetadataAccount {
    pub mint: Address,
    pub update_authority: Address,
    pub name: String,
    pub symbol: String,
    pub uri: String,
    pub seller_fee_basis_points: u16,
    pub creators: Vec<Creator>,
    pub collection: Option<CollectionRef>,
    pub is_mutable: bool,
    pub max_supply: Option<u64>,
}

/// The explicit store of asset units, holdings and descriptive records,
/// each keyed by identity.
#[derive(Debug)]
pub struct Ledger {
    pub mints: Vec<MintAccount>,
    pub holdings: Vec<TokenAccount>,
    pub records: Vec<MetadataAccount>,
}

/// A sealed collection record (no collection reference of its own) whose
/// update authority is `authority`.
pub open spec fn is_sealed_collection(r: MetadataAccount, mint: Address, authority: Seq<u8>) -> bool {
    r.mint == mint && r.update_authority.bytes@ == authority && r.collection is None && r.max_supply is Some
}

/// The record names `collection_mint` as its collection.
pub open spec fn links_to(r: MetadataAccount, collection_mint: Address) -> bool {
    match r.collection {
        Some(c) => c.key == collection_mint,
        None => false,
    }
}

/// Some unit of `mints` has identity `a`.
pub open spec fn mint_listed(mints: Seq<MintAccount>, a: Address) -> bool {
    exists|i: int| 0 <= i < mints.len() && #[trigger] mints[i].address == a
}

impl Ledger {
    pub open spec fn has_mint(&self, a: Address) -> bool {
        mint_listed(self.mints@, a)
    }

    pub open spec fn has_record(&self, a: Address) -> bool {
        exists|i: int| 0 <= i < self.records@.len() && #[trigger] self.records@[i].mint == a
    }

    /// Some collection record is already governed by `authority`.
    pub open spec fn governs_collection(&self, authority: Seq<u8>) -> bool {
        exists|i: int|
            0 <= i < self.records@.len() && #[trigger] self.records@[i].update_authority.bytes@ == authority
                && self.records@[i].collection is None
    }

    /// `collection_mint` has a sealed collection record governed by `authority`.
    pub open spec fn has_sealed_collection(&self, collection_mint: Address, authority: Seq<u8>) -> bool {
        exists|i: int|
            0 <= i < self.records@.len() && is_sealed_collection(#[trigger] self.records@[i], collection_mint, authority)
    }

    /// Identities are unique, and holdings and records refer to known units.
    pub open spec fn wf(&self) -> bool {
        &&& forall|i: int, j: int|
            0 <= i < j < self.mints@.len() ==> #[trigger] self.mints@[i].address != #[trigger] self.mints@[j].address
        &&& forall|i: int, j: int|
            0 <= i < j < self.records@.len() ==> #[trigger] self.records@[i].mint != #[trigger] self.records@[j].mint
        &&& forall|i: int| 0 <= i < self.holdings@.len() ==> self.has_mint(#[trigger] self.holdings@[i].mint)
        &&& forall|i: int| 0 <= i < self.records@.len() ==> self.has_mint(#[trigger] self.records@[i].mint)
    }

    /// The two ledgers hold the same accounts.
    pub open spec fn same_state(&self, other: &Ledger) -> bool {
        self.mints@ == other.mints@ && self.holdings@ == other.holdings@ && self.records@ == other.records@
    }

    /// An empty ledger.
    pub fn new() -> (r: Ledger)
        ensures
            r.wf(),
            r.mints@.len() == 0,
            r.holdings@.len() == 0,
            r.records@.len() == 0,
    {
        Ledger { mints: Vec::new(), holdings: Vec::new(), records: Vec::new() }
    }

    pub fn contains_mint(&self, a: &Address) -> (r: bool)
        ensures
            r == self.has_mint(*a),
    {
        let mut i: usize = 0;
        while i < self.mints.len()
            invariant
                i <= self.mints@.len(),
                forall|k: int| 0 <= k < i ==> self.mints@[k].address != *a,
            decreases self.mints@.len() - i,
        {
            if self.mints[i].address.same_as(a) {
                return true;
            }
            i = i + 1;
        }
        false
    }

    pub fn governs_any_collection(&self, authority: &Address) -> (r: bool)
        ensures
            r == self.governs_collection(authority.bytes@),
    {
        let mut i: usize = 0;
        while i < self.records.len()
            invariant
                i <= self.records@.len(),
                forall|k: int|
                    0 <= k < i ==> !(self.records@[k].update_authority.bytes@ == authority.bytes@
                        && self.records@[k].collection is None),
            decreases self.records@.len() - i,
        {
            let r = &self.records[i];
            if r.update_authority.same_as(authority) && r.collection.is_none() {
                return true;
            }
            i = i + 1;
        }
        false
    }

    pub fn find_sealed_collection(&self, collection_mint: &Address, authority: &Address) -> (r: bool)
        ensures
            r == self.has_sealed_collection(*collection_mint, authority.bytes@),
    {
        let mut i: usize = 0;
        while i < self.records.len()
            invariant
                i <= self.records@.len(),
                forall|k: int|
                    0 <= k < i ==> !is_sealed_collection(self.records@[k], *collection_mint, authority.bytes@),
            decreases self.records@.len() - i,
        {
            let r = &self.records[i];
            if r.mint.same_as(collection_mint) && r.update_authority.same_as(authority)
                && r.collection.is_none() && r.max_supply.is_some() {
                return true;
            }
            i = i + 1;
        }
        false
    }
    pub open spec fn has_holding(&self, mint: Address) -> bool {
        exists|i: int| 0 <= i < self.holdings@.len() && #[trigger] self.holdings@[i].mint == mint
    }

    /// Creates the asset unit `mint` with `decimals` decimals, issued by
    /// `authority` and frozen by `freeze_authority`, with nothing issued.
    pub fn create_unit(&mut self, mint: Address, decimals: u8, authority: Address, freeze_authority: Address) -> (r: Result<(), LedgerError>)
        requires
            old(self).wf(),
        ensures
            final(self).wf(),
            old(self).has_mint(mint) ==> r == Err::<(), LedgerError>(LedgerError::AccountInUse)
                && final(self).same_state(old(self)),
            !old(self).has_mint(mint) ==> r is Ok
                && final(self).mints@ == old(self).mints@.push(
                    MintAccount { address: mint, authority, freeze_authority, decimals, supply: 0 },
                )
                && final(self).holdings@ == old(self).holdings@
                && final(self).records@ == old(self).records@,
    {
        if self.contains_mint(&mint) {
            return Err(LedgerError::AccountInUse);
        }
        let ghost before = self.mints@;
        self.mints.push(MintAccount { address: mint, authority, freeze_authority, decimals, supply: 0 });
        assert forall|a: Address| old(self).has_mint(a) implies self.has_mint(a) by {
            let j = choose|j: int| 0 <= j < before.len() && before[j].address == a;
            assert(self.mints@[j].address == a);
        }
        Ok(())
    }

    /// The position of the unit `mint`.
    pub open spec fn mint_entry(&self, mint: Address) -> int {
        choose|i: int| 0 <= i < self.mints@.len() && self.mints@[i].address == mint
    }

    /// Identities being unique, the unit `mint` stands at `i`.
    pub proof fn lemma_mint_entry(&self, mint: Address, i: int)
        requires
            self.wf(),
            0 <= i < self.mints@.len(),
            self.mints@[i].address == mint,
        ensures
            self.mint_entry(mint) == i,
    {
        let e = self.mint_entry(mint);
        if e != i {
            if e < i {
                assert(self.mints@[e].address != self.mints@[i].address);
            } else {
                assert(self.mints@[i].address != self.mints@[e].address);
            }
        }
    }

    /// Why issuing `mint` signed by `authority` is refused, if it is: an
    /// unknown unit or a wrong signer, or a unit already issued.
    pub open spec fn mint_to_error(&self, mint: Address, authority: Address) -> Option<LedgerError> {
        if !self.has_mint(mint) || self.mints@[self.mint_entry(mint)].authority != authority {
            Some(LedgerError::Program(AutoVerifyError::Unauthorized))
        } else if self.mints@[self.mint_entry(mint)].supply != 0 || self.has_holding(mint) {
            Some(LedgerError::AccountInUse)
        } else {
            None
        }
    }

    /// Issues one of the unit `mint` into a fresh holding of `owner`, signed
    /// by `authority`, which must be the unit's issuing authority; a unit is
    /// issued once.
    pub fn mint_to(&mut self, mint: Address, owner: Address, authority: Address) -> (r: Result<(), LedgerError>)
        requires
            old(self).wf(),
        ensures
            final(self).wf(),
            match old(self).mint_to_error(mint, authority) {
                Some(e) => r == Err::<(), LedgerError>(e) && final(self).same_state(old(self)),
                None => r is Ok
                    && final(self).mints@ == old(self).mints@.update(
                        old(self).mint_entry(mint),
                        MintAccount { supply: 1, ..old(self).mints@[old(self).mint_entry(mint)] },
                    )
                    && final(self).holdings@ == old(self).holdings@.push(TokenAccount { mint, owner, amount: 1 })
                    && final(self).records@ == old(self).records@,
            },
    {
        let mut i: usize = 0;
        while i < self.mints.len()
            invariant
                i <= self.mints@.len(),
                self.wf(),
                self.same_state(old(self)),
                forall|k: int| 0 <= k < i ==> self.mints@[k].address != mint,
            ensures
                i <= self.mints@.len(),
                self.wf(),
                self.same_state(old(self)),
                forall|k: int| 0 <= k < i ==> self.mints@[k].address != mint,
                i < self.mints@.len() ==> self.mints@[i as int].address == mint,
            decreases self.mints@.len() - i,
        {
            if self.mints[i].address.same_as(&mint) {
                break;
            }
            i = i + 1;
        }
        if i == self.mints.len() {
            return Err(LedgerError::Program(AutoVerifyError::Unauthorized));
        }
        let m = self.mints[i];
        proof {
            old(self).lemma_mint_entry(mint, i as int);
        }
        if !m.authority.same_as(&authority) {
            return Err(LedgerError::Program(AutoVerifyError::Unauthorized));
        }
        if m.supply != 0 {
            return Err(LedgerError::AccountInUse);
        }
        let mut k: usize = 0;
        while k < self.holdings.len()
            invariant
                k <= self.holdings@.len(),
                self.wf(),
                self.same_state(old(self)),
                i < old(self).mints@.len(),
                old(self).mint_entry(mint) == i as int,
                m == old(self).mints@[i as int],
                m.authority == authority,
                m.supply == 0,
                forall|j: int| 0 <= j < k ==> self.holdings@[j].mint != mint,
            decreases self.holdings@.len() - k,
        {
            if self.holdings[k].mint.same_as(&mint) {
                assert(self.holdings@[k as int].mint == mint);
                assert(old(self).has_holding(mint));
                assert(old(self).has_mint(mint));
                return Err(LedgerError::AccountInUse);
            }
            k = k + 1;
        }
        let ghost before = self.mints@;
        self.mints.set(i, MintAccount { supply: 1, ..m });
        self.holdings.push(TokenAccount { mint, owner, amount: 1 });
        assert forall|a: Address| old(self).has_mint(a) implies self.has_mint(a) by {
            let j = choose|j: int| 0 <= j < before.len() && before[j].address == a;
            assert(self.mints@[j].address == a);
        }
        assert(self.mints@[i as int].address == mint);
        Ok(())
    }

    /// Registers the descriptive record `rec` for its asset unit.
    pub fn register(&mut self, rec: MetadataAccount) -> (r: Result<(), LedgerError>)
        requires
            old(self).wf(),
        ensures
            final(self).wf(),
            !old(self).has_mint(rec.mint) ==> r == Err::<(), LedgerError>(
                LedgerError::Program(AutoVerifyError::MetadataCreationFailed),
            ) && final(self).same_state(old(self)),
            old(self).has_mint(rec.mint) && old(self).has_record(rec.mint) ==> r == Err::<(), LedgerError>(
                LedgerError::AccountInUse,
            ) && final(self).same_state(old(self)),
            old(self).has_mint(rec.mint) && !old(self).has_record(rec.mint) ==> r is Ok
                && final(self).records@ == old(self).records@.push(rec)
                && final(self).mints@ == old(self).mints@
                && final(self).holdings@ == old(self).holdings@,
    {
        if !self.contains_mint(&rec.mint) {
            return Err(LedgerError::Program(AutoVerifyError::MetadataCreationFailed));
        }
        let mut i: usize = 0;
        while i < self.records.len()
            invariant
                i <= self.records@.len(),
                self.wf(),
                self.has_mint(rec.mint),
                forall|k: int| 0 <= k < i ==> self.records@[k].mint != rec.mint,
            decreases self.records@.len() - i,
        {
            if self.records[i].mint.same_as(&rec.mint) {
                return Err(LedgerError::AccountInUse);
            }
            i = i + 1;
        }
        let ghost before = self.records@;
        self.records.push(rec);
        assert forall|k: int| 0 <= k < self.records@.len() implies self.has_mint(
            #[trigger] self.records@[k].mint,
        ) by {
            if k < before.len() {
                assert(self.records@[k] == before[k]);
            }
        }
        Ok(())
    }

    /// Seals the newest descriptive record as a template of `max_supply`
    /// copies, signed by its update authority.
    pub fn seal_last(&mut self, update_authority: &Address, max_supply: u64) -> (r: Result<(), LedgerError>)
        requires
            old(self).wf(),
            old(self).records@.len() > 0,
        ensures
            final(self).wf(),
            old(self).records@.last().update_authority != *update_authority ==> r == Err::<(), LedgerError>(
                LedgerError::Program(AutoVerifyError::Unauthorized),
            ) && final(self).same_state(old(self)),
            old(self).records@.last().update_authority == *update_authority ==> r is Ok
                && final(self).records@ == old(self).records@.update(
                    old(self).records@.len() - 1,
                    MetadataAccount { max_supply: Some(max_supply), ..old(self).records@.last() },
                )
                && final(self).mints@ == old(self).mints@
                && final(self).holdings@ == old(self).holdings@,
    {
        let last = self.records.len() - 1;
        if !self.records[last].update_authority.same_as(update_authority) {
            return Err(LedgerError::Program(AutoVerifyError::Unauthorized));
        }
        let mut rec = self.records.pop().unwrap();
        rec.max_supply = Some(max_supply);
        self.records.push(rec);
        assert(self.records@ =~= old(self).records@.update(
            old(self).records@.len() - 1,
            MetadataAccount { max_supply: Some(max_supply), ..old(self).records@.last() },
        ));
        Ok(())
    }

    /// Attests that the newest descriptive record belongs to the collection
    /// `collection_mint`, on the authority presented.
    pub fn verify_last_membership(&mut self, collection_mint: &Address, authority: &Address) -> (r: Result<(), LedgerError>)
        requires
            old(self).wf(),
            old(self).records@.len() > 0,
        ensures
            final(self).wf(),
            ({
                let item = old(self).records@.last();
                let ok = old(self).has_sealed_collection(*collection_mint, authority.bytes@)
                    && links_to(item, *collection_mint);
                &&& !ok ==> r == Err::<(), LedgerError>(
                    LedgerError::Program(AutoVerifyError::VerificationFailed),
                ) && final(self).same_state(old(self))
                &&& ok ==> r is Ok
                    && final(self).records@ == old(self).records@.update(
                        old(self).records@.len() - 1,
                        MetadataAccount {
                            collection: Some(CollectionRef { key: *collection_mint, verified: true }),
                            ..item
                        },
                    )
                    && final(self).mints@ == old(self).mints@
                    && final(self).holdings@ == old(self).holdings@
            }),
    {
        let last = self.records.len() - 1;
        let linked = match &self.records[last].collection {
            Some(c) => c.key.same_as(collection_mint),
            None => false,
        };
        if !linked || !self.find_sealed_collection(collection_mint, authority) {
            return Err(LedgerError::Program(AutoVerifyError::VerificationFailed));
        }
        let mut rec = self.records.pop().unwrap();
        rec.collection = Some(CollectionRef { key: *collection_mint, verified: true });
        self.records.push(rec);
        assert(self.records@[last as int].mint == old(self).records@[last as int].mint);
        assert forall|k: int| 0 <= k < self.records@.len() implies self.has_mint(
            #[trigger] self.records@[k].mint,
        ) by {
            assert(self.records@[k].mint == old(self).records@[k].mint);
        }
        assert(self.records@ =~= old(self).records@.update(
            old(self).records@.len() - 1,
            MetadataAccount {
                collection: Some(CollectionRef { key: *collection_mint, verified: true }),
                ..old(self).records@.last()
            },
        ));
        Ok(())
    }

    /// Removes the newest unit, holding and record: the compensating step
    /// of an issuance whose attestation was refused.
    pub fn rollback_last(&mut self)
        requires
            old(self).mints@.len() > 0,
            old(self).holdings@.len() > 0,
            old(self).records@.len() > 0,
        ensures
            final(self).mints@ == old(self).mints@.drop_last(),
            final(self).holdings@ == old(self).holdings@.drop_last(),
            final(self).records@ == old(self).records@.drop_last(),
    {
        self.mints.pop();
        self.holdings.pop();
        self.records.pop();
    }
}

} // verus!
