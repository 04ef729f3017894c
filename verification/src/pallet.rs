//! The registry's storage and the calls that read and change it.

use vstd::prelude::*;

use crate::hashing::{blake2_256, hash_bytes, hash_of_u128, scale_u128};
use crate::token::{be_value, TokenId};
use crate::types::{
    append_bytes, copy_bytes, copy_fields, copy_hashes, ensure_signed_or_root, acting_account_of, AccountId, AssetId,
    CompleteProof, DispatchError, Error, Event, H256, MintInfo, Origin, Proof, RegistryId,
    RegistryInfo, NFTS_PREFIX, acting_account, origin_admitted,
};

verus! {

/// The identifier given to the registry created at `nonce`: the first 20
/// bytes of the hash of the nonce.
pub open spec fn registry_id_for(nonce: u128) -> Seq<u8> {
    blake2_256(scale_u128(nonce)).subrange(0, 20)
}

/// How one call moves the nonce: a call that hands out a registry id raises
/// it by one from below the largest value; any other call leaves it.
pub open spec fn nonce_step(before: u128, after: u128, created: bool) -> bool {
    if created {
        before < u128::MAX && after == before + 1
    } else {
        after == before
    }
}

/// The field that binds a document to the registry `id`: the NFT prefix
/// followed by the registry id.
pub open spec fn nft_field(id: Seq<u8>) -> Seq<u8> {
    NFTS_PREFIX@ + id
}

/// The hash of a proof's leaf: property, value and salt, in that order.
pub open spec fn leaf_hash_of(proof: CompleteProof) -> Seq<u8> {
    blake2_256(proof.property@ + proof.value@ + proof.salt@)
}

/// Whether each field is the property of the proof at its position.
pub open spec fn fields_match(fields: Seq<Seq<u8>>, proofs: Seq<CompleteProof>) -> bool {
    forall|i: int| 0 <= i < fields.len() && i < proofs.len() ==> #[trigger] fields[i] == proofs[i].property@
}

/// The inputs on which a mint can be judged: where the registry exists and
/// one proof is given per field, the value proven at the last field fits 32
/// bytes (it is read as a 256-bit number).
pub open spec fn mint_in_domain(
    registries: Map<Seq<u8>, Seq<Seq<u8>>>,
    asset_id: AssetId,
    proofs: Seq<CompleteProof>,
) -> bool {
    let id = asset_id.0.0@;
    (registries.contains_key(id) && proofs.len() == registries[id].len() && proofs.len() > 0)
        ==> proofs[proofs.len() - 1].value@.len() <= 32
}

/// Why a mint of `asset_id` with `proofs` is refused, if it is: the checks
/// are made in this order.
pub open spec fn mint_refusal(
    registries: Map<Seq<u8>, Seq<Seq<u8>>>,
    asset_id: AssetId,
    proofs: Seq<CompleteProof>,
    anchored: bool,
) -> Option<Error> {
    let id = asset_id.0.0@;
    if !registries.contains_key(id) {
        Some(Error::RegistryDoesNotExist)
    } else {
        let fields = registries[id];
        if proofs.len() != fields.len() {
            Some(Error::InvalidMintingValues)
        } else if be_value(proofs[fields.len() - 1].value@) != asset_id.1.value() {
            Some(Error::InvalidProofs)
        } else if !fields_match(fields, proofs) {
            Some(Error::InvalidProofs)
        } else if !anchored {
            Some(Error::DocumentNotAnchored)
        } else {
            None
        }
    }
}

/// What remains to be checked of an accepted mint: the proofs against the
/// document root and the document's static hashes.
#[derive(Debug, PartialEq, Eq)]
pub struct ProofCheck {
    /// The hash of the anchored document root.
    pub doc_root: H256,
    /// The document's static root hashes.
    pub static_hashes: [H256; 3],
    /// One Merkle proof per proven property.
    pub proofs: Vec<Proof>,
}

/// Whether `check` is what the mint data and the anchored root call for.
pub open spec fn prepared_from(check: ProofCheck, mint_info: MintInfo, anchored_root: H256) -> bool {
    &&& check.doc_root@ == blake2_256(anchored_root@)
    &&& check.static_hashes == mint_info.static_hashes
    &&& check.proofs@.len() == mint_info.proofs@.len()
    &&& forall|i: int|
        0 <= i < check.proofs@.len() ==> {
            &&& (#[trigger] check.proofs@[i]).leaf_hash@ == leaf_hash_of(mint_info.proofs@[i])
            &&& check.proofs@[i].sorted_hashes@ == mint_info.proofs@[i].hashes@
        }
}

/// A mint that passed the registry's checks: who asked, who will own the
/// token, the token, and the proofs still to be verified.
#[derive(Debug, PartialEq, Eq)]
pub struct MintRequest {
    /// The account that signed the call.
    pub caller: AccountId,
    /// The account that will own the token.
    pub owner_account: AccountId,
    /// The token to mint.
    pub asset_id: AssetId,
    /// The proofs to verify before minting.
    pub check: ProofCheck,
}

impl MintRequest {
    /// The outcome of the proof verification: refused with `InvalidProofs`
    /// unless the proofs were valid.
    pub fn accept_proofs(&self, valid: bool) -> (res: Result<(), DispatchError>)
        ensures
            valid ==> res == Ok::<(), DispatchError>(()),
            !valid ==> res == Err::<(), DispatchError>(DispatchError::Module(Error::InvalidProofs)),
    {
        if valid {
            Ok(())
        } else {
            Err(DispatchError::Module(Error::InvalidProofs))
        }
    }

    /// The event that reports the mint once the token exists.
    pub fn event(&self) -> (event: Event)
        ensures
            event == Event::Mint(self.asset_id.0, self.asset_id.1),
    {
        Event::Mint(self.asset_id.0, self.asset_id.1)
    }
}

/// Whether the two byte strings are equal.
fn bytes_equal(a: &[u8], b: &[u8]) -> (same: bool)
    ensures
        same == (a@ == b@),
{
    if a.len() != b.len() {
        return false;
    }
    let mut i: usize = 0;
    while i < a.len()
        invariant
            a@.len() == b@.len(),
            i <= a@.len(),
            forall|k: int| 0 <= k < i ==> a@[k] == b@[k],
        decreases a@.len() - i,
    {
        if a[i] != b[i] {
            return false;
        }
        i = i + 1;
    }
    assert(a@ =~= b@);
    true
}

/// The first 20 bytes of a hash.
fn first_20_bytes(digest: &H256) -> (bytes: [u8; 20])
    ensures
        bytes@ == digest@.subrange(0, 20),
{
    let mut bytes = [0u8; 20];
    let mut i: usize = 0;
    while i < 20
        invariant
            i <= 20,
            forall|k: int| 0 <= k < i ==> bytes@[k] == digest@[k],
        decreases 20 - i,
    {
        bytes[i] = digest[i];
        i = i + 1;
    }
    assert(bytes@ =~= digest@.subrange(0, 20));
    bytes
}

/// Whether the two registry ids are equal.
fn same_registry(a: &RegistryId, b: &RegistryId) -> (same: bool)
    ensures
        same == (a.0@ == b.0@),
{
    bytes_equal(a.0.as_slice(), b.0.as_slice())
}

/// The hash of an anchored document root, or `DocumentNotAnchored` if no
/// root is anchored.
pub fn get_document_root(anchored_root: Option<H256>) -> (root: Result<H256, Error>)
    ensures
        anchored_root is None ==> root == Err::<H256, Error>(Error::DocumentNotAnchored),
        anchored_root matches Some(r) ==> (root matches Ok(h) && h@ == blake2_256(r@)),
{
    match anchored_root {
        Some(r) => Ok(hash_bytes(r.as_slice())),
        None => Err(Error::DocumentNotAnchored),
    }
}

/// One stored registry: its id, its information and its owner.
struct RegistryEntry {
    id: RegistryId,
    /// The nonce the id was made from.
    origin: Ghost<u128>,
    info: RegistryInfo,
    owner: AccountId,
}

/// The registry's storage: the nonce for new registry ids, the registries
/// and their owners.
pub struct Pallet {
    registry_nonce: u128,
    entries: Vec<RegistryEntry>,
}

impl Pallet {
    /// The nonce from which the next registry id is made.
    pub closed spec fn nonce(&self) -> u128 {
        self.registry_nonce
    }

    /// Whether a registry with this id is stored.
    closed spec fn stored(&self, id: Seq<u8>) -> bool {
        exists|i: int| 0 <= i < self.entries@.len() && #[trigger] self.entries@[i].id.0@ == id
    }

    /// The position of the registry with this id.
    closed spec fn position(&self, id: Seq<u8>) -> int {
        choose|i: int| 0 <= i < self.entries@.len() && #[trigger] self.entries@[i].id.0@ == id
    }

    /// The stored registries: each id with the fields its mints must prove.
    pub closed spec fn registries(&self) -> Map<Seq<u8>, Seq<Seq<u8>>> {
        Map::new(
            |id: Seq<u8>| self.stored(id),
            |id: Seq<u8>| self.entries@[self.position(id)].info.field_seq(),
        )
    }

    /// The owner of each stored registry.
    pub closed spec fn owners(&self) -> Map<Seq<u8>, Seq<u8>> {
        Map::new(|id: Seq<u8>| self.stored(id), |id: Seq<u8>| self.entries@[self.position(id)].owner@)
    }

    /// The storage is consistent: one entry per id, every registry's last
    /// field binds documents to it, and every id was made from a nonce below
    /// the current one.
    pub closed spec fn wf(&self) -> bool {
        &&& forall|i: int, j: int|
            0 <= i < self.entries@.len() && 0 <= j < self.entries@.len() && i != j
                ==> self.entries@[i].id.0@ != self.entries@[j].id.0@
        &&& forall|i: int|
            0 <= i < self.entries@.len() ==> {
                let fields = (#[trigger] self.entries@[i]).info.field_seq();
                &&& fields.len() > 0
                &&& fields.last() == nft_field(self.entries@[i].id.0@)
            }
        &&& forall|i: int|
            0 <= i < self.entries@.len() ==> {
                &&& (#[trigger] self.entries@[i]).origin@ < self.registry_nonce
                &&& registry_id_for(self.entries@[i].origin@) == self.entries@[i].id.0@
            }
    }

    /// In a consistent storage the registry stored at position `i` is the one
    /// its id maps to.
    proof fn lemma_entry(&self, i: int)
        requires
            self.wf(),
            0 <= i < self.entries@.len(),
        ensures
            self.stored(self.entries@[i].id.0@),
            self.position(self.entries@[i].id.0@) == i,
            self.registries().contains_key(self.entries@[i].id.0@),
            self.registries()[self.entries@[i].id.0@] == self.entries@[i].info.field_seq(),
            self.owners()[self.entries@[i].id.0@] == self.entries@[i].owner@,
    {
        let id = self.entries@[i].id.0@;
        assert(self.entries@[i].id.0@ == id);
        let j = self.position(id);
        assert(0 <= j < self.entries@.len() && self.entries@[j].id.0@ == id);
    }

    /// An empty registry storage, as at genesis.
    pub fn new() -> (pallet: Pallet)
        ensures
            pallet.wf(),
            pallet.nonce() == 0,
            pallet.registries() == Map::<Seq<u8>, Seq<Seq<u8>>>::empty(),
            pallet.owners() == Map::<Seq<u8>, Seq<u8>>::empty(),
    {
        let pallet = Pallet { registry_nonce: 0, entries: Vec::new() };
        assert(pallet.registries() =~= Map::<Seq<u8>, Seq<Seq<u8>>>::empty());
        assert(pallet.owners() =~= Map::<Seq<u8>, Seq<u8>>::empty());
        pallet
    }

    /// The position of the registry `id`, if it is stored.
    fn find(&self, id: &RegistryId) -> (pos: Option<usize>)
        requires
            self.wf(),
        ensures
            pos matches Some(i) ==> i < self.entries@.len() && self.entries@[i as int].id.0@ == id.0@,
            pos is None ==> !self.registries().contains_key(id.0@),
    {
        let mut i: usize = 0;
        while i < self.entries.len()
            invariant
                i <= self.entries@.len(),
                forall|k: int| 0 <= k < i ==> self.entries@[k].id.0@ != id.0@,
            decreases self.entries@.len() - i,
        {
            if same_registry(&self.entries[i].id, id) {
                return Some(i);
            }
            i = i + 1;
        }
        None
    }

    /// The nonce from which the next registry id is made.
    pub fn get_registry_nonce(&self) -> (nonce: u128)
        ensures
            nonce == self.nonce(),
    {
        self.registry_nonce
    }

    /// The information of the registry `id`; empty if it is not stored.
    pub fn get_registries(&self, id: &RegistryId) -> (info: RegistryInfo)
        requires
            self.wf(),
        ensures
            self.registries().contains_key(id.0@) ==> info.field_seq() == self.registries()[id.0@],
            !self.registries().contains_key(id.0@) ==> info.field_seq() == Seq::<Seq<u8>>::empty(),
    {
        match self.find(id) {
            Some(i) => {
                proof {
                    self.lemma_entry(i as int);
                }
                self.entries[i].info.duplicate()
            },
            None => RegistryInfo::default(),
        }
    }

    /// The owner of the registry `id`; the all-zero account if it is not stored.
    pub fn get_owner(&self, id: &RegistryId) -> (owner: AccountId)
        requires
            self.wf(),
        ensures
            self.registries().contains_key(id.0@) ==> owner@ == self.owners()[id.0@],
            !self.registries().contains_key(id.0@) ==> owner@ == Seq::new(32, |i: int| 0u8),
    {
        match self.find(id) {
            Some(i) => {
                proof {
                    self.lemma_entry(i as int);
                }
                self.entries[i].owner
            },
            None => {
                let zero = [0u8; 32];
                assert(zero@ =~= Seq::new(32, |i: int| 0u8));
                zero
            },
        }
    }
    /// Makes the id of a new registry from the nonce and advances the nonce;
    /// refuses with `RegistryOverflow` once the nonce is exhausted.
    fn create_registry_id(&mut self) -> (res: Result<RegistryId, DispatchError>)
        requires
            old(self).wf(),
        ensures
            final(self).wf(),
            final(self).registries() == old(self).registries(),
            final(self).owners() == old(self).owners(),
            old(self).nonce() == u128::MAX ==> {
                &&& res == Err::<RegistryId, DispatchError>(DispatchError::Module(Error::RegistryOverflow))
                &&& final(self).nonce() == old(self).nonce()
            },
            old(self).nonce() < u128::MAX ==> {
                &&& res matches Ok(id) && id.0@ == registry_id_for(old(self).nonce())
                &&& final(self).nonce() == old(self).nonce() + 1
            },
    {
        let id_nonce = self.registry_nonce;
        if id_nonce == u128::MAX {
            return Err(DispatchError::Module(Error::RegistryOverflow));
        }
        let digest = hash_of_u128(id_nonce);
        let id = first_20_bytes(&digest);
        self.registry_nonce = id_nonce + 1;
        Ok(RegistryId(id))
    }

    /// Stores `info` and `owner` under `id`, replacing what was stored there.
    fn insert(&mut self, id: RegistryId, origin: Ghost<u128>, info: RegistryInfo, owner: AccountId)
        requires
            old(self).wf(),
            info.field_seq().len() > 0,
            info.field_seq().last() == nft_field(id.0@),
            origin@ < old(self).nonce(),
            registry_id_for(origin@) == id.0@,
        ensures
            final(self).wf(),
            final(self).nonce() == old(self).nonce(),
            final(self).registries() == old(self).registries().insert(id.0@, info.field_seq()),
            final(self).owners() == old(self).owners().insert(id.0@, owner@),
    {
        let ghost pre = *self;
        let ghost fields = info.field_seq();
        let entry = RegistryEntry { id, origin, info, owner };
        let pos = self.find(&id);
        let ghost at: int;
        match pos {
            Some(i) => {
                self.entries.set(i, entry);
                proof {
                    at = i as int;
                }
            },
            None => {
                self.entries.push(entry);
                proof {
                    at = pre.entries@.len() as int;
                }
            },
        }
        assert(forall|k: int| 0 <= k < self.entries@.len() && k != at ==> self.entries@[k] == pre.entries@[k]);
        assert(self.entries@[at].id.0@ == id.0@ && self.entries@[at].info.field_seq() == fields
            && self.entries@[at].owner@ == owner@);
        assert(pos is None ==> (forall|k: int| 0 <= k < pre.entries@.len() ==> pre.entries@[k].id.0@ != id.0@)) by {
            if pos is None {
                assert forall|k: int| 0 <= k < pre.entries@.len() implies pre.entries@[k].id.0@ != id.0@ by {
                    if pre.entries@[k].id.0@ == id.0@ {
                        pre.lemma_entry(k);
                    }
                }
            }
        }
        let ghost expected = pre.registries().insert(id.0@, fields);
        let ghost expected_owners = pre.owners().insert(id.0@, owner@);
        assert forall|key: Seq<u8>| #[trigger] self.registries().contains_key(key)
            == expected.contains_key(key) by {
            if self.stored(key) {
                let j = self.position(key);
                if j != at {
                    assert(pre.entries@[j].id.0@ == key);
                }
            }
            if pre.stored(key) && key != id.0@ {
                let j = pre.position(key);
                assert(self.entries@[j].id.0@ == key);
            }
            if key == id.0@ {
                assert(self.entries@[at].id.0@ == key);
            }
        }
        assert forall|key: Seq<u8>| #[trigger] self.registries().contains_key(key) implies
            self.registries()[key] == expected[key] && self.owners()[key] == expected_owners[key] by {
            let j = self.position(key);
            self.lemma_entry(j);
            if key != id.0@ {
                assert(j != at);
                pre.lemma_entry(j);
            }
        }
        assert(self.registries() =~= expected);
        assert(self.owners() =~= expected_owners);
    }

    /// Creates a registry owned by `caller` that requires the fields of
    /// `info` followed by the field that binds documents to the new registry;
    /// refuses with `RegistryOverflow`, changing nothing, once the nonce is
    /// exhausted.
    ///
    /// Registries with identical information may exist side by side.
    pub fn create_new_registry(&mut self, caller: AccountId, info: RegistryInfo) -> (res: Result<
        RegistryId,
        DispatchError,
    >)
        requires
            old(self).wf(),
        ensures
            final(self).wf(),
            nonce_step(old(self).nonce(), final(self).nonce(), res is Ok),
            old(self).nonce() == u128::MAX ==> {
                &&& res == Err::<RegistryId, DispatchError>(DispatchError::Module(Error::RegistryOverflow))
                &&& final(self).registries() == old(self).registries()
                &&& final(self).owners() == old(self).owners()
                &&& final(self).nonce() == old(self).nonce()
            },
            old(self).nonce() < u128::MAX ==> {
                &&& res matches Ok(id) && {
                    &&& id.0@ == registry_id_for(old(self).nonce())
                    &&& final(self).registries() == old(self).registries().insert(
                        id.0@,
                        info.field_seq().push(nft_field(id.0@)),
                    )
                    &&& final(self).owners() == old(self).owners().insert(id.0@, caller@)
                }
                &&& final(self).nonce() == old(self).nonce() + 1
            },
    {
        let id = match self.create_registry_id() {
            Ok(id) => id,
            Err(e) => {
                return Err(e);
            },
        };
        let mut info = info;
        let ghost before = info.field_seq();
        let mut pre_reg: Vec<u8> = Vec::new();
        append_bytes(&mut pre_reg, NFTS_PREFIX.as_slice());
        append_bytes(&mut pre_reg, id.as_bytes().as_slice());
        assert(pre_reg@ =~= nft_field(id.0@));
        assert(pre_reg.deep_view() =~= nft_field(id.0@));
        info.fields.push(pre_reg);
        assert(info.field_seq() =~= before.push(nft_field(id.0@)));
        let ghost origin = (self.nonce() - 1) as u128;
        self.insert(id, Ghost(origin), info, caller);
        Ok(id)
    }

    /// The call that creates a registry. A signed call or root may create
    /// one; the signer owns it, and a registry that root creates is owned by
    /// the default account.
    pub fn create_registry(&mut self, origin: Origin, info: RegistryInfo) -> (res: Result<
        Event,
        DispatchError,
    >)
        requires
            old(self).wf(),
        ensures
            final(self).wf(),
            nonce_step(old(self).nonce(), final(self).nonce(), res is Ok),
            !origin_admitted(origin) || old(self).nonce() == u128::MAX ==> {
                &&& !origin_admitted(origin) ==> res == Err::<Event, DispatchError>(DispatchError::BadOrigin)
                &&& origin_admitted(origin) ==> res == Err::<Event, DispatchError>(
                    DispatchError::Module(Error::RegistryOverflow),
                )
                &&& final(self).registries() == old(self).registries()
                &&& final(self).owners() == old(self).owners()
                &&& final(self).nonce() == old(self).nonce()
            },
            origin_admitted(origin) && old(self).nonce() < u128::MAX ==> {
                &&& res matches Ok(Event::RegistryCreated(id)) && {
                    &&& id.0@ == registry_id_for(old(self).nonce())
                    &&& final(self).registries() == old(self).registries().insert(
                        id.0@,
                        info.field_seq().push(nft_field(id.0@)),
                    )
                    &&& final(self).owners() == old(self).owners().insert(id.0@, acting_account(origin))
                }
                &&& final(self).nonce() == old(self).nonce() + 1
            },
    {
        let signer = match ensure_signed_or_root(origin) {
            Ok(signer) => signer,
            Err(e) => {
                return Err(e);
            },
        };
        let caller = acting_account_of(signer);
        let registry_id = match self.create_new_registry(caller, info) {
            Ok(id) => id,
            Err(e) => {
                return Err(e);
            },
        };
        Ok(Event::RegistryCreated(registry_id))
    }

    /// Whether a mint of `asset_id` with `mint_info` can be judged: where the
    /// registry exists and one proof is given per field, the value proven at
    /// the last field is read as a 256-bit number and must fit 32 bytes.
    pub fn mint_is_judgeable(&self, asset_id: &AssetId, mint_info: &MintInfo) -> (ok: bool)
        requires
            self.wf(),
        ensures
            ok == mint_in_domain(self.registries(), *asset_id, mint_info.proofs@),
    {
        match self.find(&asset_id.0) {
            None => true,
            Some(pos) => {
                proof {
                    self.lemma_entry(pos as int);
                }
                let fields = &self.entries[pos].info.fields;
                let n = mint_info.proofs.len();
                n != fields.len() || n == 0 || mint_info.proofs[n - 1].value.len() <= 32
            },
        }
    }

    /// The registry's checks of a mint of `asset_id`: the registry exists,
    /// one proof is given per field (else `InvalidMintingValues`), the proof
    /// at its last field proves the token id, the proofs prove the
    /// registry's fields in order, and a document root is anchored. On
    /// success, the Merkle proofs that remain to be verified against the
    /// hash of the anchored root.
    pub fn check_mint(&self, asset_id: &AssetId, mint_info: &MintInfo, anchored_root: Option<H256>) -> (res:
        Result<ProofCheck, Error>)
        requires
            self.wf(),
            mint_in_domain(self.registries(), *asset_id, mint_info.proofs@),
        ensures
            res matches Err(e) ==> mint_refusal(
                self.registries(),
                *asset_id,
                mint_info.proofs@,
                anchored_root is Some,
            ) == Some(e),
            res matches Ok(check) ==> {
                &&& mint_refusal(self.registries(), *asset_id, mint_info.proofs@, anchored_root is Some)
                    is None
                &&& prepared_from(check, *mint_info, anchored_root.unwrap())
            },
    {
        let ghost registries = self.registries();
        let pos = match self.find(&asset_id.0) {
            Some(pos) => pos,
            None => {
                return Err(Error::RegistryDoesNotExist);
            },
        };
        proof {
            self.lemma_entry(pos as int);
        }
        let fields = &self.entries[pos].info.fields;
        let ghost field_seq = fields.deep_view();
        assert(field_seq == registries[asset_id.0.0@]);

        // One proof per field.
        if mint_info.proofs.len() != fields.len() {
            return Err(Error::InvalidMintingValues);
        }

        // The proof at the registry's last field carries the token id.
        let idx = fields.len() - 1;
        let token_value = &mint_info.proofs[idx].value;
        let proven = TokenId::from_big_endian(token_value.as_slice());
        if !proven.same_as(&asset_id.1) {
            return Err(Error::InvalidProofs);
        }

        // Every field of the registry is proven, in order.
        let proofs = &mint_info.proofs;
        let count = fields.len();
        let mut i: usize = 0;
        #[verifier::loop_isolation(false)]
        while i < count
            invariant
                count == fields@.len(),
                count == proofs@.len(),
                field_seq == fields.deep_view(),
                i <= count,
                forall|k: int| 0 <= k < i ==> #[trigger] field_seq[k] == proofs@[k].property@,
            decreases count - i,
        {
            if !bytes_equal(fields[i].as_slice(), proofs[i].property.as_slice()) {
                assert(!fields_match(field_seq, proofs@)) by {
                    assert(field_seq[i as int] == fields@[i as int]@);
                }
                return Err(Error::InvalidProofs);
            }
            assert(field_seq[i as int] == fields@[i as int]@);
            i = i + 1;
        }
        assert(fields_match(field_seq, proofs@));

        // The document root under the anchor.
        let doc_root = match get_document_root(anchored_root) {
            Ok(root) => root,
            Err(e) => {
                return Err(e);
            },
        };

        // The leaf of each proof: property, value and salt, hashed.
        let mut leaves: Vec<Proof> = Vec::new();
        let mut j: usize = 0;
        while j < proofs.len()
            invariant
                j <= proofs@.len(),
                leaves@.len() == j,
                forall|k: int|
                    0 <= k < j ==> {
                        &&& (#[trigger] leaves@[k]).leaf_hash@ == leaf_hash_of(proofs@[k])
                        &&& leaves@[k].sorted_hashes@ == proofs@[k].hashes@
                    },
            decreases proofs@.len() - j,
        {
            let proof = &proofs[j];
            let mut leaf = copy_bytes(proof.property.as_slice());
            append_bytes(&mut leaf, proof.value.as_slice());
            append_bytes(&mut leaf, proof.salt.as_slice());
            let leaf_hash = hash_bytes(leaf.as_slice());
            leaves.push(Proof { leaf_hash, sorted_hashes: copy_hashes(&proof.hashes) });
            j = j + 1;
        }
        Ok(ProofCheck { doc_root, static_hashes: mint_info.static_hashes, proofs: leaves })
    }

    /// The call that mints a token of the registry `registry_id`: it checks
    /// the origin (a signed account or root; root acts as the default
    /// account) and the registry's conditions, and hands back what remains
    /// to be done: verify the proofs, then mint the token for `owner_account`.
    pub fn mint(
        &self,
        origin: Origin,
        owner_account: AccountId,
        registry_id: RegistryId,
        token_id: TokenId,
        mint_info: MintInfo,
        anchored_root: Option<H256>,
    ) -> (res: Result<MintRequest, DispatchError>)
        requires
            self.wf(),
            origin_admitted(origin) ==> mint_in_domain(
                self.registries(),
                AssetId(registry_id, token_id),
                mint_info.proofs@,
            ),
        ensures
            !origin_admitted(origin) ==> res == Err::<MintRequest, DispatchError>(DispatchError::BadOrigin),
            origin_admitted(origin) ==> {
                let refusal = mint_refusal(
                    self.registries(),
                    AssetId(registry_id, token_id),
                    mint_info.proofs@,
                    anchored_root is Some,
                );
                &&& refusal matches Some(e) ==> res == Err::<MintRequest, DispatchError>(
                    DispatchError::Module(e),
                )
                &&& refusal is None ==> (res matches Ok(request) && {
                    &&& request.caller@ == acting_account(origin)
                    &&& request.owner_account == owner_account
                    &&& request.asset_id == AssetId(registry_id, token_id)
                    &&& prepared_from(request.check, mint_info, anchored_root.unwrap())
                })
            },
    {
        let signer = match ensure_signed_or_root(origin) {
            Ok(signer) => signer,
            Err(e) => {
                return Err(e);
            },
        };
        let who = acting_account_of(signer);
        let asset_id = AssetId(registry_id, token_id);
        match self.check_mint(&asset_id, &mint_info, anchored_root) {
            Ok(check) => Ok(MintRequest { caller: who, owner_account, asset_id, check }),
            Err(e) => Err(DispatchError::Module(e)),
        }
    }

    /// In a consistent storage every registry has an owner, and its last
    /// required field is the NFT prefix followed by the registry's id.
    pub proof fn law_every_registry_binds_its_id(&self)
        requires
            self.wf(),
        ensures
            self.owners().dom() == self.registries().dom(),
            forall|id: Seq<u8>| #[trigger]
                self.registries().contains_key(id) ==> {
                    &&& self.registries()[id].len() > 0
                    &&& self.registries()[id].last() == nft_field(id)
                },
    {
        assert(self.owners().dom() =~= self.registries().dom());
        assert forall|id: Seq<u8>| #[trigger] self.registries().contains_key(id) implies {
            &&& self.registries()[id].len() > 0
            &&& self.registries()[id].last() == nft_field(id)
        } by {
            let i = self.position(id);
            self.lemma_entry(i);
        }
    }

    /// Every stored registry's id was made from a nonce below the current one.
    pub proof fn law_ids_come_from_earlier_nonces(&self)
        requires
            self.wf(),
        ensures
            forall|id: Seq<u8>| #[trigger]
                self.registries().contains_key(id) ==> exists|k: u128|
                    k < self.nonce() && registry_id_for(k) == id,
    {
        assert forall|id: Seq<u8>| #[trigger] self.registries().contains_key(id) implies exists|k: u128|
            k < self.nonce() && registry_id_for(k) == id by {
            let i = self.position(id);
            self.lemma_entry(i);
            let k = self.entries@[i].origin@;
            assert(k < self.nonce() && registry_id_for(k) == id);
        }
    }
}

} // verus!
