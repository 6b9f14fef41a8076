use vstd::prelude::*;
use vstd::utf8::encode_utf8;
use crate::address::Address;
use crate::authority::{derivation_result, derive_collection_authority, seed_bytes};
use crate::error::{AutoVerifyError, LedgerError};
use crate::ledger::{is_sealed_collection, CollectionRef, Creator, Ledger, MetadataAccount, MintAccount, TokenAccount};

verus! {

broadcast use vstd::array::group_array_axioms;

pub const MAX_METADATA_NAME_LENGTH: usize = 32;

pub const MAX_METADATA_SYMBOL_LENGTH: usize = 10;

pub const MAX_METADATA_URI_LENGTH: usize = 200;

pub const MAX_SELLER_FEE_BASIS_POINTS: u16 = 10000;

/// Decimals of every unit: a unit is one indivisible marker.
pub const UNIT_DECIMALS: u8 = 0;

/// Copies that a sealed record allows: none.
pub const SEALED_MAX_SUPPLY: u64 = 0;

/// Descriptive data of a collection.
#[derive(Clone, Debug)]
pub struct CollectionMetadata {
    pub name: String,
    pub symbol: String,
    pub uri: String,
    pub seller_fee_basis_points: u16,
}

/// Descriptive data of an item.
#[derive(Clone, Debug)]
pub struct NftMetadata {
    pub name: String,
    pub symbol: String,
    pub uri: String,
    pub seller_fee_basis_points: u16,
}

/// The identities taking part in a collection bootstrap.
#[derive(Clone, Copy, Debug)]
pub struct InitializeCollection {
    pub admin: Address,
    pub collection_mint: Address,
    pub program_id: Address,
}

/// The identities taking part in an item issuance.
#[derive(Clone, Copy, Debug)]
pub struct MintAndVerifyNft {
    pub user: Address,
    pub nft_mint: Address,
    pub collection_mint: Address,
    pub program_id: Address,
}

/// The identities taking part in an authority transfer request.
#[derive(Clone, Copy, Debug)]
pub struct UpdateCollectionAuthority {
    pub admin: Address,
    pub program_id: Address,
}

/// Name, symbol and URI fit their byte limits and the royalty is at most 100%.
pub open spec fn fields_valid(name: Seq<char>, symbol: Seq<char>, uri: Seq<char>, fee: u16) -> bool {
    &&& encode_utf8(name).len() <= MAX_METADATA_NAME_LENGTH
    &&& encode_utf8(symbol).len() <= MAX_METADATA_SYMBOL_LENGTH
    &&& encode_utf8(uri).len() <= MAX_METADATA_URI_LENGTH
    &&& fee <= MAX_SELLER_FEE_BASIS_POINTS
}

fn fields_fit(name: &String, symbol: &String, uri: &String, fee: u16) -> (r: bool)
    ensures
        r == fields_valid(name@, symbol@, uri@, fee),
{
    name.as_str().as_bytes().len() <= MAX_METADATA_NAME_LENGTH
        && symbol.as_str().as_bytes().len() <= MAX_METADATA_SYMBOL_LENGTH
        && uri.as_str().as_bytes().len() <= MAX_METADATA_URI_LENGTH
        && fee <= MAX_SELLER_FEE_BASIS_POINTS
}

impl CollectionMetadata {
    pub open spec fn valid(&self) -> bool {
        fields_valid(self.name@, self.symbol@, self.uri@, self.seller_fee_basis_points)
    }

    pub fn is_valid(&self) -> (r: bool)
        ensures
            r == self.valid(),
    {
        fields_fit(&self.name, &self.symbol, &self.uri, self.seller_fee_basis_points)
    }
}

impl NftMetadata {
    pub open spec fn valid(&self) -> bool {
        fields_valid(self.name@, self.symbol@, self.uri@, self.seller_fee_basis_points)
    }

    pub fn is_valid(&self) -> (r: bool)
        ensures
            r == self.valid(),
    {
        fields_fit(&self.name, &self.symbol, &self.uri, self.seller_fee_basis_points)
    }
}

/// The collection's record before it is sealed: the administrator as sole,
/// unverified creator, no collection reference, governed by `authority`.
pub fn new_collection_record(ctx: &InitializeCollection, authority: Address, md: CollectionMetadata) -> (r: MetadataAccount)
    ensures
        r.max_supply is None,
        is_collection_record(MetadataAccount { max_supply: Some(SEALED_MAX_SUPPLY), ..r }, *ctx, authority.bytes@, md),
{
    let creators = vec![Creator { address: ctx.admin, verified: false, share: 100 }];
    assert(creators@ == seq![Creator { address: ctx.admin, verified: false, share: 100 }]);
    MetadataAccount {
        mint: ctx.collection_mint,
        update_authority: authority,
        name: md.name,
        symbol: md.symbol,
        uri: md.uri,
        seller_fee_basis_points: md.seller_fee_basis_points,
        creators,
        collection: None,
        is_mutable: true,
        max_supply: None,
    }
}

/// An item's record before it is sealed and attested: the user as sole,
/// verified creator and as update authority, pointing to the collection
/// with membership not yet verified.
pub fn new_item_record(ctx: &MintAndVerifyNft, md: NftMetadata) -> (r: MetadataAccount)
    ensures
        r.max_supply is None,
        r.collection == Some(CollectionRef { key: ctx.collection_mint, verified: false }),
        is_item_record(
            MetadataAccount {
                collection: Some(CollectionRef { key: ctx.collection_mint, verified: true }),
                max_supply: Some(SEALED_MAX_SUPPLY),
                ..r
            },
            *ctx,
            md,
        ),
{
    let creators = vec![Creator { address: ctx.user, verified: true, share: 100 }];
    assert(creators@ == seq![Creator { address: ctx.user, verified: true, share: 100 }]);
    MetadataAccount {
        mint: ctx.nft_mint,
        update_authority: ctx.user,
        name: md.name,
        symbol: md.symbol,
        uri: md.uri,
        seller_fee_basis_points: md.seller_fee_basis_points,
        creators,
        collection: Some(CollectionRef { key: ctx.collection_mint, verified: false }),
        is_mutable: true,
        max_supply: None,
    }
}

/// The first failure of a bootstrap, or `None` when it goes through.
pub open spec fn bootstrap_error(l: Ledger, ctx: InitializeCollection, seed: Seq<u8>, md: CollectionMetadata) -> Option<LedgerError> {
    match derivation_result(seed, ctx.program_id) {
        Err(e) => Some(LedgerError::Program(e)),
        Ok((authority, _)) => if !md.valid() {
            Some(LedgerError::Program(AutoVerifyError::MetadataCreationFailed))
        } else if l.has_mint(ctx.collection_mint) || l.governs_collection(authority) {
            Some(LedgerError::AccountInUse)
        } else {
            None
        },
    }
}

/// The sealed collection record that a bootstrap registers.
pub open spec fn is_collection_record(r: MetadataAccount, ctx: InitializeCollection, authority: Seq<u8>, md: CollectionMetadata) -> bool {
    &&& r.mint == ctx.collection_mint
    &&& r.update_authority.bytes@ == authority
    &&& r.name@ == md.name@ && r.symbol@ == md.symbol@ && r.uri@ == md.uri@
    &&& r.seller_fee_basis_points == md.seller_fee_basis_points
    &&& r.creators@ == seq![Creator { address: ctx.admin, verified: false, share: 100 }]
    &&& r.collection is None
    &&& r.is_mutable
    &&& r.max_supply == Some(0u64)
}

/// A bootstrap from `old` to `new` returned `r`: on failure nothing
/// changed; on success one unit, one holding and one record were added.
pub open spec fn bootstrap_outcome(
    old: Ledger,
    new: Ledger,
    ctx: InitializeCollection,
    seed: Seq<u8>,
    md: CollectionMetadata,
    r: Result<(), LedgerError>,
) -> bool {
    match bootstrap_error(old, ctx, seed, md) {
        Some(e) => r == Err::<(), LedgerError>(e) && new.same_state(&old),
        None => {
            let authority = derivation_result(seed, ctx.program_id)->Ok_0.0;
            &&& r is Ok
            &&& new.mints@ == old.mints@.push(MintAccount { address: ctx.collection_mint, authority: ctx.admin, freeze_authority: ctx.admin, decimals: 0, supply: 1 })
            &&& new.holdings@ == old.holdings@.push(TokenAccount { mint: ctx.collection_mint, owner: ctx.admin, amount: 1 })
            &&& new.records@.len() == old.records@.len() + 1
            &&& new.records@.drop_last() == old.records@
            &&& is_collection_record(new.records@.last(), ctx, authority, md)
        },
    }
}

proof fn lemma_fresh_mint_unused(l: &Ledger, m: Address)
    requires
        l.wf(),
        !l.has_mint(m),
    ensures
        !l.has_record(m),
        !l.has_holding(m),
{
    if l.has_record(m) {
        let i = choose|i: int| 0 <= i < l.records@.len() && l.records@[i].mint == m;
        assert(l.has_mint(l.records@[i].mint));
    }
    if l.has_holding(m) {
        let i = choose|i: int| 0 <= i < l.holdings@.len() && l.holdings@[i].mint == m;
        assert(l.has_mint(l.holdings@[i].mint));
    }
}

/// Sets up a collection: creates its unit for the administrator, issues the
/// single marker unit, registers its record under the authority derived from
/// `collection_seed` and seals it, all or nothing.
pub fn initialize_collection(
    ledger: &mut Ledger,
    ctx: &InitializeCollection,
    collection_seed: String,
    collection_metadata: CollectionMetadata,
) -> (r: Result<(), LedgerError>)
    requires
        old(ledger).wf(),
    ensures
        final(ledger).wf(),
        bootstrap_outcome(*old(ledger), *final(ledger), *ctx, seed_bytes(collection_seed@), collection_metadata, r),
{
    let (authority, _bump) = match derive_collection_authority(collection_seed.as_str(), &ctx.program_id) {
        Ok(p) => p,
        Err(e) => {
            return Err(LedgerError::Program(e));
        },
    };
    if !collection_metadata.is_valid() {
        return Err(LedgerError::Program(AutoVerifyError::MetadataCreationFailed));
    }
    if ledger.contains_mint(&ctx.collection_mint) || ledger.governs_any_collection(&authority) {
        return Err(LedgerError::AccountInUse);
    }
    proof {
        lemma_fresh_mint_unused(ledger, ctx.collection_mint);
    }
    let ghost start = *ledger;
    match ledger.create_unit(ctx.collection_mint, UNIT_DECIMALS, ctx.admin, ctx.admin) {
        Ok(()) => {},
        Err(e) => {
            return Err(e);
        },
    }
    assert(!ledger.has_holding(ctx.collection_mint));
    proof {
        ledger.lemma_mint_entry(ctx.collection_mint, ledger.mints@.len() - 1);
    }
    match ledger.mint_to(ctx.collection_mint, ctx.admin, ctx.admin) {
        Ok(()) => {},
        Err(e) => {
            return Err(e);
        },
    }
    assert(ledger.mints@ =~= start.mints@.push(MintAccount { address: ctx.collection_mint, authority: ctx.admin, freeze_authority: ctx.admin, decimals: 0, supply: 1 }));
    assert(ledger.mints@.last().address == ctx.collection_mint);
    assert(!ledger.has_record(ctx.collection_mint));
    let record = new_collection_record(ctx, authority, collection_metadata);
    assert(record.update_authority.bytes == authority.bytes);
    match ledger.register(record) {
        Ok(()) => {},
        Err(e) => {
            return Err(e);
        },
    }
    match ledger.seal_last(&authority, SEALED_MAX_SUPPLY) {
        Ok(()) => {},
        Err(e) => {
            return Err(e);
        },
    }
    assert(ledger.records@.drop_last() =~= start.records@);
    assert(ledger.records@.last().creators@ == seq![Creator { address: ctx.admin, verified: false, share: 100 }]);
    assert(ledger.records@.last().name@ == collection_metadata.name@);
    assert(ledger.records@.last().max_supply == Some(0u64));
    assert(is_collection_record(ledger.records@.last(), *ctx, authority.bytes@, collection_metadata));
    assert(ledger.holdings@ == start.holdings@.push(TokenAccount { mint: ctx.collection_mint, owner: ctx.admin, amount: 1 }));
    assert(ledger.mints@ == start.mints@.push(MintAccount { address: ctx.collection_mint, authority: ctx.admin, freeze_authority: ctx.admin, decimals: 0, supply: 1 }));
    Ok(())
}

/// The first failure of an issuance, or `None` when it goes through.
pub open spec fn issue_error(l: Ledger, ctx: MintAndVerifyNft, seed: Seq<u8>, md: NftMetadata) -> Option<LedgerError> {
    match derivation_result(seed, ctx.program_id) {
        Err(e) => Some(LedgerError::Program(e)),
        Ok((authority, _)) => if !md.valid() {
            Some(LedgerError::Program(AutoVerifyError::MetadataCreationFailed))
        } else if l.has_mint(ctx.nft_mint) {
            Some(LedgerError::AccountInUse)
        } else if !l.has_sealed_collection(ctx.collection_mint, authority) {
            Some(LedgerError::Program(AutoVerifyError::VerificationFailed))
        } else {
            None
        },
    }
}

/// The sealed, user-governed item record that an issuance leaves, its
/// membership in the collection attested.
pub open spec fn is_item_record(r: MetadataAccount, ctx: MintAndVerifyNft, md: NftMetadata) -> bool {
    &&& r.mint == ctx.nft_mint
    &&& r.update_authority == ctx.user
    &&& r.name@ == md.name@ && r.symbol@ == md.symbol@ && r.uri@ == md.uri@
    &&& r.seller_fee_basis_points == md.seller_fee_basis_points
    &&& r.creators@ == seq![Creator { address: ctx.user, verified: true, share: 100 }]
    &&& r.collection == Some(CollectionRef { key: ctx.collection_mint, verified: true })
    &&& r.is_mutable
    &&& r.max_supply == Some(0u64)
}

/// An issuance from `old` to `new` returned `r`: on failure nothing changed;
/// on success one unit, one holding and one verified item record were added.
pub open spec fn issue_outcome(
    old: Ledger,
    new: Ledger,
    ctx: MintAndVerifyNft,
    seed: Seq<u8>,
    md: NftMetadata,
    r: Result<(), LedgerError>,
) -> bool {
    match issue_error(old, ctx, seed, md) {
        Some(e) => r == Err::<(), LedgerError>(e) && new.same_state(&old),
        None => {
            &&& r is Ok
            &&& new.mints@ == old.mints@.push(MintAccount { address: ctx.nft_mint, authority: ctx.user, freeze_authority: ctx.user, decimals: 0, supply: 1 })
            &&& new.holdings@ == old.holdings@.push(TokenAccount { mint: ctx.nft_mint, owner: ctx.user, amount: 1 })
            &&& new.records@.len() == old.records@.len() + 1
            &&& new.records@.drop_last() == old.records@
            &&& is_item_record(new.records@.last(), ctx, md)
        },
    }
}

proof fn lemma_member_record_is_no_collection(old: &Ledger, new: &Ledger, cm: Address, authority: Seq<u8>)
    requires
        new.records@.len() == old.records@.len() + 1,
        new.records@.drop_last() == old.records@,
        new.records@.last().collection is Some,
    ensures
        new.has_sealed_collection(cm, authority) == old.has_sealed_collection(cm, authority),
{
    if new.has_sealed_collection(cm, authority) {
        let i = choose|i: int|
            0 <= i < new.records@.len() && is_sealed_collection(#[trigger] new.records@[i], cm, authority);
        assert(i < old.records@.len());
        assert(new.records@[i] == old.records@[i]);
    }
    if old.has_sealed_collection(cm, authority) {
        let i = choose|i: int|
            0 <= i < old.records@.len() && is_sealed_collection(#[trigger] old.records@[i], cm, authority);
        assert(new.records@[i] == old.records@[i]);
    }
}

/// Issues one item to the user and attests its membership in the collection
/// on the authority derived from `collection_seed`. Should the attestation be
/// refused, the unit, holding and record created before it are removed, so
/// either the whole issuance lands or none of it.
pub fn mint_and_verify_nft(
    ledger: &mut Ledger,
    ctx: &MintAndVerifyNft,
    collection_seed: String,
    nft_metadata: NftMetadata,
) -> (r: Result<(), LedgerError>)
    requires
        old(ledger).wf(),
    ensures
        final(ledger).wf(),
        issue_outcome(*old(ledger), *final(ledger), *ctx, seed_bytes(collection_seed@), nft_metadata, r),
{
    let (authority, _bump) = match derive_collection_authority(collection_seed.as_str(), &ctx.program_id) {
        Ok(p) => p,
        Err(e) => {
            return Err(LedgerError::Program(e));
        },
    };
    if !nft_metadata.is_valid() {
        return Err(LedgerError::Program(AutoVerifyError::MetadataCreationFailed));
    }
    if ledger.contains_mint(&ctx.nft_mint) {
        return Err(LedgerError::AccountInUse);
    }
    proof {
        lemma_fresh_mint_unused(ledger, ctx.nft_mint);
    }
    let ghost start = *ledger;
    match ledger.create_unit(ctx.nft_mint, UNIT_DECIMALS, ctx.user, ctx.user) {
        Ok(()) => {},
        Err(e) => {
            return Err(e);
        },
    }
    assert(!ledger.has_holding(ctx.nft_mint));
    proof {
        ledger.lemma_mint_entry(ctx.nft_mint, ledger.mints@.len() - 1);
    }
    match ledger.mint_to(ctx.nft_mint, ctx.user, ctx.user) {
        Ok(()) => {},
        Err(e) => {
            return Err(e);
        },
    }
    assert(ledger.mints@ =~= start.mints@.push(MintAccount { address: ctx.nft_mint, authority: ctx.user, freeze_authority: ctx.user, decimals: 0, supply: 1 }));
    assert(ledger.mints@.last().address == ctx.nft_mint);
    assert(!ledger.has_record(ctx.nft_mint));
    let record = new_item_record(ctx, nft_metadata);
    match ledger.register(record) {
        Ok(()) => {},
        Err(e) => {
            return Err(e);
        },
    }
    match ledger.seal_last(&ctx.user, SEALED_MAX_SUPPLY) {
        Ok(()) => {},
        Err(e) => {
            return Err(e);
        },
    }
    assert(ledger.records@.drop_last() =~= start.records@);
    proof {
        lemma_member_record_is_no_collection(&start, ledger, ctx.collection_mint, authority.bytes@);
    }
    match ledger.verify_last_membership(&ctx.collection_mint, &authority) {
        Ok(()) => {},
        Err(e) => {
            ledger.rollback_last();
            assert(ledger.mints@ =~= start.mints@);
            assert(ledger.holdings@ =~= start.holdings@);
            assert(ledger.records@ =~= start.records@);
            return Err(e);
        },
    }
    assert(ledger.records@.drop_last() =~= start.records@);
    assert(ledger.records@.last().creators@ == seq![Creator { address: ctx.user, verified: true, share: 100 }]);
    assert(ledger.records@.last().name@ == nft_metadata.name@);
    assert(is_item_record(ledger.records@.last(), *ctx, nft_metadata));
    assert(ledger.holdings@ == start.holdings@.push(TokenAccount { mint: ctx.nft_mint, owner: ctx.user, amount: 1 }));
    Ok(())
}

/// What a request to hand over the collection authority returns: the seed
/// must derive an authority; nothing else is checked or changed.
pub open spec fn authority_update_result(seed: Seq<u8>, program_id: Address) -> Result<(), LedgerError> {
    match derivation_result(seed, program_id) {
        Ok(_) => Ok(()),
        Err(e) => Err(LedgerError::Program(e)),
    }
}

/// A request to hand the collection authority to `new_authority`. The
/// authority is re-derived from the seed rather than held, so once the seed
/// is found to derive one, the request is acknowledged and changes nothing.
pub fn update_collection_authority(
    ctx: &UpdateCollectionAuthority,
    collection_seed: String,
    new_authority: Address,
) -> (r: Result<(), LedgerError>)
    ensures
        r == authority_update_result(seed_bytes(collection_seed@), ctx.program_id),
{
    match derive_collection_authority(collection_seed.as_str(), &ctx.program_id) {
        Ok(_) => Ok(()),
        Err(e) => Err(LedgerError::Program(e)),
    }
}

} // verus!
