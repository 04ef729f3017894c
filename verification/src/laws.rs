//! Properties that span the registry's calls.

use vstd::prelude::*;

use crate::hashing::{blake2_256, le_bytes, scale_u128};
use crate::pallet::{
    fields_match, mint_in_domain, mint_refusal, nft_field, nonce_step, prepared_from, registry_id_for,
    Pallet, ProofCheck,
};
use crate::token::{be_value, lemma_be_value_injective, TokenId};
use crate::types::{AssetId, CompleteProof, Error, H256, MintInfo, RegistryId};

verus! {

/// A mint that passes the registry's checks carries, at the position of the
/// registry's last field, a proof whose property is the NFT prefix followed by
/// the registry's id and whose value is the token id.
pub proof fn law_accepted_mint_proves_token_binding(
    pallet: Pallet,
    asset_id: AssetId,
    proofs: Seq<CompleteProof>,
    anchored: bool,
)
    requires
        pallet.wf(),
        mint_in_domain(pallet.registries(), asset_id, proofs),
        mint_refusal(pallet.registries(), asset_id, proofs, anchored) is None,
    ensures
        ({
            let fields = pallet.registries()[asset_id.0.0@];
            &&& proofs[fields.len() - 1].property@ == nft_field(asset_id.0.0@)
            &&& be_value(proofs[fields.len() - 1].value@) == asset_id.1.value()
        }),
{
    pallet.law_every_registry_binds_its_id();
    let id = asset_id.0.0@;
    let fields = pallet.registries()[id];
    assert(pallet.registries().contains_key(id));
    assert(fields_match(fields, proofs));
    assert(fields[fields.len() - 1] == proofs[fields.len() - 1].property@);
}

/// A registry that was just created is found by a mint under its id: the mint
/// is then judged against the information given at creation followed by the
/// field that binds documents to the registry.
pub proof fn law_created_registry_is_found(
    before: Pallet,
    after: Pallet,
    id: RegistryId,
    fields: Seq<Seq<u8>>,
    token: TokenId,
    proofs: Seq<CompleteProof>,
    anchored: bool,
)
    requires
        after.registries() == before.registries().insert(id.0@, fields.push(nft_field(id.0@))),
    ensures
        mint_refusal(after.registries(), AssetId(id, token), proofs, anchored) != Some(
            Error::RegistryDoesNotExist,
        ),
        after.registries()[id.0@] == fields.push(nft_field(id.0@)),
{
}

/// Two registries created one after the other with the same information
/// both stay, each with its own binding field, when their ids differ.
pub proof fn law_identical_registries_coexist(
    first: Pallet,
    second: Pallet,
    third: Pallet,
    fields: Seq<Seq<u8>>,
    id1: RegistryId,
    id2: RegistryId,
)
    requires
        second.registries() == first.registries().insert(id1.0@, fields.push(nft_field(id1.0@))),
        third.registries() == second.registries().insert(id2.0@, fields.push(nft_field(id2.0@))),
        id1.0@ != id2.0@,
    ensures
        third.registries().contains_key(id1.0@),
        third.registries().contains_key(id2.0@),
        third.registries()[id1.0@] == fields.push(nft_field(id1.0@)),
        third.registries()[id2.0@] == fields.push(nft_field(id2.0@)),
{
}

/// Two token ids with the same number are the same token id.
pub proof fn law_token_id_is_its_number(a: TokenId, b: TokenId)
    requires
        a.value() == b.value(),
    ensures
        a == b,
{
    lemma_be_value_injective(a.0@, b.0@);
    assert(a.0 =~= b.0);
}

/// A new registry never replaces a stored one or its owner, as long as the
/// id made from the current nonce differs from the ids made from all earlier
/// nonces.
pub proof fn law_new_registry_is_fresh(pallet: Pallet)
    requires
        pallet.wf(),
        forall|k: u128| k < pallet.nonce() ==> #[trigger] registry_id_for(k) != registry_id_for(pallet.nonce()),
    ensures
        !pallet.registries().contains_key(registry_id_for(pallet.nonce())),
        !pallet.owners().contains_key(registry_id_for(pallet.nonce())),
{
    pallet.law_ids_come_from_earlier_nonces();
    pallet.law_every_registry_binds_its_id();
}

/// The number of calls in `created` that handed out a registry id.
pub open spec fn creations(created: Seq<bool>) -> nat
    decreases created.len(),
{
    if created.len() == 0 {
        0
    } else {
        creations(created.drop_last()) + if created.last() {
            1nat
        } else {
            0nat
        }
    }
}

/// Over any run of calls, each moving the nonce as its contract says
/// (`create_new_registry` and `create_registry` by [`nonce_step`], with
/// `created` their success; `mint` and the getters borrow the storage and
/// leave it): the nonce never decreases, it ends raised by the number of
/// registries created, and the calls that created registries drew pairwise
/// distinct nonces. From genesis the nonce is the number of registries
/// created.
pub proof fn law_nonce_counts_creations(nonces: Seq<u128>, created: Seq<bool>)
    requires
        nonces.len() == created.len() + 1,
        forall|i: int| 0 <= i < created.len() ==> #[trigger] nonce_step(nonces[i], nonces[i + 1], created[i]),
    ensures
        forall|i: int, j: int| 0 <= i <= j < nonces.len() ==> nonces[i] <= nonces[j],
        nonces.last() == nonces[0] + creations(created),
        forall|i: int, j: int|
            0 <= i < j < created.len() && created[i] && created[j] ==> nonces[i] < nonces[j],
    decreases created.len(),
{
    if created.len() > 0 {
        let n = created.len() - 1;
        let shorter = nonces.drop_last();
        assert forall|i: int| 0 <= i < created.drop_last().len() implies #[trigger] nonce_step(
            shorter[i],
            shorter[i + 1],
            created.drop_last()[i],
        ) by {
            assert(nonce_step(nonces[i], nonces[i + 1], created[i]));
        }
        law_nonce_counts_creations(shorter, created.drop_last());
        assert(nonce_step(nonces[n], nonces[n + 1], created[n]));
        assert forall|i: int, j: int| 0 <= i <= j < nonces.len() implies nonces[i] <= nonces[j] by {
            if j == nonces.len() - 1 && i < j {
                assert(shorter[i] <= shorter[n]);
            } else if j < nonces.len() - 1 {
                assert(shorter[i] <= shorter[j]);
            }
        }
        assert forall|i: int, j: int|
            0 <= i < j < created.len() && created[i] && created[j] implies nonces[i] < nonces[j] by {
            if j == n {
                assert(nonce_step(nonces[i], nonces[i + 1], created[i]));
                assert(shorter[i + 1] <= shorter[n]);
            } else {
                assert(created.drop_last()[i] && created.drop_last()[j]);
                assert(shorter[i] < shorter[j]);
            }
        }
    }
}

/// The id a creation hands out depends on the nonce alone: two creations
/// made at one nonce hand out one id, whatever the caller, the information or
/// the other storage.
pub proof fn law_registry_id_depends_on_nonce_alone(before1: Pallet, before2: Pallet, id1: RegistryId, id2: RegistryId)
    requires
        id1.0@ == registry_id_for(before1.nonce()),
        id2.0@ == registry_id_for(before2.nonce()),
        before1.nonce() == before2.nonce(),
    ensures
        id1.0@ == id2.0@,
{
}

/// A mint is accepted only when the registry exists, exactly one proof is
/// given per registry field, every registry field is the property of the
/// proof at its position, and the value of the proof at the last field is
/// the token id.
pub proof fn law_accepted_mint_proves_every_field(
    registries: Map<Seq<u8>, Seq<Seq<u8>>>,
    asset_id: AssetId,
    proofs: Seq<CompleteProof>,
    anchored: bool,
)
    requires
        mint_refusal(registries, asset_id, proofs, anchored) is None,
    ensures
        registries.contains_key(asset_id.0.0@),
        proofs.len() == registries[asset_id.0.0@].len(),
        forall|i: int|
            0 <= i < registries[asset_id.0.0@].len() ==> #[trigger] registries[asset_id.0.0@][i]
                == proofs[i].property@,
        proofs.len() > 0 ==> be_value(proofs[proofs.len() - 1].value@) == asset_id.1.value(),
        anchored,
{
    let fields = registries[asset_id.0.0@];
    assert forall|i: int| 0 <= i < fields.len() implies #[trigger] fields[i] == proofs[i].property@ by {
        assert(fields_match(fields, proofs));
    }
}

/// When the registry exists, one proof is given per field and the token
/// proof reads as the token id, a mismatch of any field with the property of
/// the proof at its position refuses the mint with `InvalidProofs`.
pub proof fn law_any_field_mismatch_is_refused(
    registries: Map<Seq<u8>, Seq<Seq<u8>>>,
    asset_id: AssetId,
    proofs: Seq<CompleteProof>,
    anchored: bool,
    i: int,
)
    requires
        registries.contains_key(asset_id.0.0@),
        proofs.len() == registries[asset_id.0.0@].len(),
        proofs.len() > 0,
        be_value(proofs[proofs.len() - 1].value@) == asset_id.1.value(),
        0 <= i < proofs.len(),
        registries[asset_id.0.0@][i] != proofs[i].property@,
    ensures
        mint_refusal(registries, asset_id, proofs, anchored) == Some(Error::InvalidProofs),
{
    assert(!fields_match(registries[asset_id.0.0@], proofs));
}

/// A mint whose registry exists, with one proof per field, each field the
/// property of its proof, the last proof's value (of any length up to 32
/// bytes) reading as the token id, and an anchored root, is accepted.
pub proof fn law_complete_mint_is_accepted(
    registries: Map<Seq<u8>, Seq<Seq<u8>>>,
    asset_id: AssetId,
    proofs: Seq<CompleteProof>,
)
    requires
        registries.contains_key(asset_id.0.0@),
        proofs.len() == registries[asset_id.0.0@].len(),
        proofs.len() > 0,
        forall|i: int|
            0 <= i < proofs.len() ==> #[trigger] registries[asset_id.0.0@][i] == proofs[i].property@,
        proofs[proofs.len() - 1].value@.len() <= 32,
        be_value(proofs[proofs.len() - 1].value@) == asset_id.1.value(),
    ensures
        mint_in_domain(registries, asset_id, proofs),
        mint_refusal(registries, asset_id, proofs, true) is None,
{
    assert(fields_match(registries[asset_id.0.0@], proofs));
}

/// A token proof whose value is the token id's own 32 big-endian bytes reads
/// as that token id.
pub proof fn law_full_width_token_value_reads_as_token(value: Seq<u8>, token: TokenId)
    requires
        value == token.0@,
    ensures
        value.len() == 32,
        be_value(value) == token.value(),
{
}

/// What goes to the proof verification is exactly the mint data: the hash
/// of the anchored root, the static hashes, and for each proof, at its own
/// position, the hash of its property, value and salt together with its own
/// sibling hashes.
pub proof fn law_prepared_proofs_are_the_given_proofs(check: ProofCheck, mint_info: MintInfo, root: H256)
    requires
        prepared_from(check, mint_info, root),
    ensures
        check.doc_root@ == blake2_256(root@),
        check.static_hashes == mint_info.static_hashes,
        check.proofs@.len() == mint_info.proofs@.len(),
        forall|i: int|
            0 <= i < check.proofs@.len() ==> {
                &&& (#[trigger] check.proofs@[i]).sorted_hashes@ == mint_info.proofs@[i].hashes@
                &&& check.proofs@[i].leaf_hash@ == blake2_256(
                    mint_info.proofs@[i].property@ + mint_info.proofs@[i].value@ + mint_info.proofs@[i].salt@,
                )
            },
{
}

/// A mint can be judged on every input except one: where the registry
/// exists and one proof is given per field, a token value longer than 32
/// bytes. Every value of at most 32 bytes is judged.
pub proof fn law_judgeable_up_to_32_bytes(
    registries: Map<Seq<u8>, Seq<Seq<u8>>>,
    asset_id: AssetId,
    proofs: Seq<CompleteProof>,
)
    ensures
        mint_in_domain(registries, asset_id, proofs) <== (proofs.len() == 0 || proofs[proofs.len()
            - 1].value@.len() <= 32),
        !mint_in_domain(registries, asset_id, proofs) <== ({
            &&& registries.contains_key(asset_id.0.0@)
            &&& proofs.len() == registries[asset_id.0.0@].len()
            &&& proofs.len() > 0
            &&& proofs[proofs.len() - 1].value@.len() > 32
        }),
{
}

/// 256 to the power `count`.
pub open spec fn pow256(count: nat) -> nat
    decreases count,
{
    if count == 0 {
        1
    } else {
        256 * pow256((count - 1) as nat)
    }
}

/// The number whose little-endian base-256 digits are `digits`.
pub open spec fn le_value(digits: Seq<u8>) -> nat
    decreases digits.len(),
{
    if digits.len() == 0 {
        0
    } else {
        digits[0] as nat + 256 * le_value(digits.drop_first())
    }
}

/// Reading back the `count` little-endian bytes of a number below
/// `256^count` gives the number.
pub proof fn lemma_le_bytes_read_back(n: nat, count: nat)
    requires
        n < pow256(count),
    ensures
        le_bytes(n, count).len() == count,
        le_value(le_bytes(n, count)) == n,
    decreases count,
{
    if count > 0 {
        let rest = pow256((count - 1) as nat);
        assert(n / 256 < rest && n == n % 256 + 256 * (n / 256)) by (nonlinear_arith)
            requires
                n < 256 * rest,
        ;
        lemma_le_bytes_read_back(n / 256, (count - 1) as nat);
        let bytes = le_bytes(n, count);
        assert(bytes.drop_first() =~= le_bytes(n / 256, (count - 1) as nat));
    }
}

/// The id handed out at nonce `n` is the first 20 bytes of the hash of the
/// sixteen little-endian bytes of `n` itself, and those bytes read back as
/// `n`: the hashed input determines the nonce, so creations at different
/// nonces hash different inputs.
pub proof fn law_registry_id_hashes_the_whole_nonce(n: u128, m: u128)
    ensures
        registry_id_for(n) == blake2_256(le_bytes(n as nat, 16)).subrange(0, 20),
        le_value(scale_u128(n)) == n,
        scale_u128(n).len() == 16,
        n != m ==> scale_u128(n) != scale_u128(m),
{
    reveal_with_fuel(pow256, 17);
    assert(pow256(16) == 0x1_0000_0000_0000_0000_0000_0000_0000_0000nat);
    lemma_le_bytes_read_back(n as nat, 16);
    lemma_le_bytes_read_back(m as nat, 16);
}

} // verus!
