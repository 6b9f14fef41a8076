use vstd::prelude::*;
use crate::address::Address;
use crate::authority::{derivation_result, derived};
use crate::error::{AutoVerifyError, LedgerError};
use crate::ledger::{is_sealed_collection, CollectionRef, Ledger};
use crate::pipeline::{
    bootstrap_error, bootstrap_outcome, issue_error, issue_outcome, CollectionMetadata, InitializeCollection,
    MintAndVerifyNft, NftMetadata,
};

verus! {

broadcast use vstd::array::group_array_axioms;

/// Deriving the authority twice from the same seed yields the same address
/// and the same bump.
pub proof fn lemma_derivation_deterministic(
    seed: Seq<u8>,
    program_id: Address,
    r1: Result<(Address, u8), AutoVerifyError>,
    r2: Result<(Address, u8), AutoVerifyError>,
)
    requires
        derived(seed, program_id, r1),
        derived(seed, program_id, r2),
    ensures
        r1 == r2,
{
    if let Ok((x1, _)) = r1 {
        if let Ok((x2, _)) = r2 {
            assert(x1.bytes == x2.bytes);
        }
    }
}

/// After a collection is bootstrapped with a seed, issuing an item against
/// that collection with the same seed (valid metadata, fresh item identity)
/// succeeds, and the item's membership ends verified.
pub proof fn lemma_issue_after_bootstrap(
    l0: Ledger,
    l1: Ledger,
    boot: InitializeCollection,
    seed: Seq<u8>,
    collection_md: CollectionMetadata,
    r0: Result<(), LedgerError>,
    ctx: MintAndVerifyNft,
    md: NftMetadata,
    l2: Ledger,
    r2: Result<(), LedgerError>,
)
    requires
        bootstrap_outcome(l0, l1, boot, seed, collection_md, r0),
        r0 is Ok,
        ctx.program_id == boot.program_id,
        ctx.collection_mint == boot.collection_mint,
        md.valid(),
        !l1.has_mint(ctx.nft_mint),
        issue_outcome(l1, l2, ctx, seed, md, r2),
    ensures
        issue_error(l1, ctx, seed, md) is None,
        r2 is Ok,
        l2.records@.last().mint == ctx.nft_mint,
        l2.records@.last().collection == Some(CollectionRef { key: ctx.collection_mint, verified: true }),
{
    let authority = derivation_result(seed, boot.program_id)->Ok_0.0;
    let last = l1.records@.len() - 1;
    assert(is_sealed_collection(l1.records@[last], ctx.collection_mint, authority));
    assert(l1.has_sealed_collection(ctx.collection_mint, authority));
}

/// Issuing against a collection with a seed whose authority differs from the
/// one the collection was bootstrapped with fails with `VerificationFailed`
/// and leaves the ledger as it was: no unit, holding or record of the item.
pub proof fn lemma_issue_with_other_seed_fails(
    l0: Ledger,
    l1: Ledger,
    boot: InitializeCollection,
    seed: Seq<u8>,
    collection_md: CollectionMetadata,
    r0: Result<(), LedgerError>,
    ctx: MintAndVerifyNft,
    other_seed: Seq<u8>,
    md: NftMetadata,
    l2: Ledger,
    r2: Result<(), LedgerError>,
)
    requires
        bootstrap_outcome(l0, l1, boot, seed, collection_md, r0),
        r0 is Ok,
        l1.wf(),
        ctx.program_id == boot.program_id,
        ctx.collection_mint == boot.collection_mint,
        derivation_result(other_seed, ctx.program_id) is Ok,
        derivation_result(other_seed, ctx.program_id)->Ok_0.0 != derivation_result(seed, ctx.program_id)->Ok_0.0,
        md.valid(),
        !l1.has_mint(ctx.nft_mint),
        issue_outcome(l1, l2, ctx, other_seed, md, r2),
    ensures
        r2 == Err::<(), LedgerError>(LedgerError::Program(AutoVerifyError::VerificationFailed)),
        l2.same_state(&l1),
{
    let other = derivation_result(other_seed, ctx.program_id)->Ok_0.0;
    let last = l1.records@.len() - 1;
    if l1.has_sealed_collection(ctx.collection_mint, other) {
        let i = choose|i: int|
            0 <= i < l1.records@.len() && is_sealed_collection(#[trigger] l1.records@[i], ctx.collection_mint, other);
        if i != last {
            assert(l1.records@[i].mint == l1.records@[last].mint);
        }
    }
}

/// Bootstrapping a second time with the same seed is refused and leaves the
/// first collection as it was; with valid metadata the refusal is
/// `AccountInUse`.
pub proof fn lemma_bootstrap_twice_rejected(
    l0: Ledger,
    l1: Ledger,
    boot: InitializeCollection,
    seed: Seq<u8>,
    collection_md: CollectionMetadata,
    r0: Result<(), LedgerError>,
    boot2: InitializeCollection,
    collection_md2: CollectionMetadata,
    l2: Ledger,
    r2: Result<(), LedgerError>,
)
    requires
        bootstrap_outcome(l0, l1, boot, seed, collection_md, r0),
        r0 is Ok,
        boot2.program_id == boot.program_id,
        bootstrap_outcome(l1, l2, boot2, seed, collection_md2, r2),
    ensures
        r2 is Err,
        l2.same_state(&l1),
        collection_md2.valid() ==> r2 == Err::<(), LedgerError>(LedgerError::AccountInUse),
{
    let authority = derivation_result(seed, boot.program_id)->Ok_0.0;
    let last = l1.records@.len() - 1;
    assert(l1.records@[last].update_authority.bytes@ == authority);
    assert(l1.governs_collection(authority));
    assert(bootstrap_error(l1, boot2, seed, collection_md2) is Some);
}

/// An issuance, whether it succeeds or not, leaves every record that was
/// already in the ledger unchanged: a collection's name and symbol stay as
/// they were.
pub proof fn lemma_issue_keeps_existing_records(
    l1: Ledger,
    l2: Ledger,
    ctx: MintAndVerifyNft,
    seed: Seq<u8>,
    md: NftMetadata,
    r: Result<(), LedgerError>,
    i: int,
)
    requires
        issue_outcome(l1, l2, ctx, seed, md, r),
        0 <= i < l1.records@.len(),
    ensures
        l2.records@[i] == l1.records@[i],
        l2.records@[i].name@ == l1.records@[i].name@,
        l2.records@[i].symbol@ == l1.records@[i].symbol@,
{
    if issue_error(l1, ctx, seed, md) is None {
        assert(l2.records@.drop_last()[i] == l2.records@[i]);
    }
}

/// Two issuances with the same seed that both succeed were attested on the
/// same authority: the one derived from the seed, which governs the sealed
/// collection record each was verified against.
pub proof fn lemma_issuances_share_authority(
    seed: Seq<u8>,
    la: Ledger,
    la2: Ledger,
    ctx_a: MintAndVerifyNft,
    md_a: NftMetadata,
    ra: Result<(), LedgerError>,
    lb: Ledger,
    lb2: Ledger,
    ctx_b: MintAndVerifyNft,
    md_b: NftMetadata,
    rb: Result<(), LedgerError>,
)
    requires
        ctx_a.program_id == ctx_b.program_id,
        issue_outcome(la, la2, ctx_a, seed, md_a, ra),
        ra is Ok,
        issue_outcome(lb, lb2, ctx_b, seed, md_b, rb),
        rb is Ok,
    ensures
        derivation_result(seed, ctx_a.program_id) is Ok,
        la.has_sealed_collection(ctx_a.collection_mint, derivation_result(seed, ctx_a.program_id)->Ok_0.0),
        lb.has_sealed_collection(ctx_b.collection_mint, derivation_result(seed, ctx_a.program_id)->Ok_0.0),
{
    assert(issue_error(la, ctx_a, seed, md_a) is None);
    assert(issue_error(lb, ctx_b, seed, md_b) is None);
}

} // verus!
