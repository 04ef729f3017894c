//! Values that the registry stores, receives and emits.

use vstd::prelude::*;

use crate::token::TokenId;

verus! {

/// An account: the 32 bytes of its public key.
pub type AccountId = [u8; 32];

/// A 32-byte hash, as produced by the runtime's hasher.
pub type H256 = [u8; 32];

/// The property prefix of a document's NFT field: the field that holds the
/// registry and token a document is minted under.
pub const NFTS_PREFIX: [u8; 8] = [1u8, 0u8, 0u8, 0u8, 0u8, 0u8, 0u8, 20u8];

/// The identifier of a registry: 20 bytes.
#[derive(Clone, Copy, Debug, PartialEq, Eq)]
pub struct RegistryId(pub [u8; 20]);

impl RegistryId {
    /// The identifier's bytes.
    pub fn as_bytes(&self) -> (bytes: &[u8; 20])
        ensures
            bytes@ == self.0@,
    {
        &self.0
    }
}

/// A token of a registry: the registry and the token identifier in it.
#[derive(Clone, Copy, Debug, PartialEq, Eq)]
pub struct AssetId(pub RegistryId, pub TokenId);

impl AssetId {
    /// The registry and the token, taken apart.
    pub fn destruct(&self) -> (parts: (&RegistryId, &TokenId))
        ensures
            *parts.0 == self.0,
            *parts.1 == self.1,
    {
        (&self.0, &self.1)
    }
}

/// What a registry requires of every document minted under it.
#[derive(Debug, PartialEq, Eq)]
pub struct RegistryInfo {
    /// The properties that each mint must prove, in order.
    pub fields: Vec<Vec<u8>>,
}

impl RegistryInfo {
    /// The required properties, as byte strings.
    pub open spec fn field_seq(&self) -> Seq<Seq<u8>> {
        self.fields.deep_view()
    }

    /// A copy of the registry information.
    pub fn duplicate(&self) -> (copy: RegistryInfo)
        ensures
            copy.field_seq() == self.field_seq(),
    {
        RegistryInfo { fields: copy_fields(&self.fields) }
    }
}

impl Default for RegistryInfo {
    fn default() -> (info: RegistryInfo)
        ensures
            info.field_seq() == Seq::<Seq<u8>>::empty(),
    {
        let info = RegistryInfo { fields: Vec::new() };
        assert(info.field_seq() =~= Seq::<Seq<u8>>::empty());
        info
    }
}

/// A copy of a byte string.
pub fn copy_bytes(bytes: &[u8]) -> (copy: Vec<u8>)
    ensures
        copy@ == bytes@,
{
    let mut copy: Vec<u8> = Vec::new();
    append_bytes(&mut copy, bytes);
    assert(copy@ =~= bytes@);
    copy
}

/// Appends `bytes` to `dest`.
pub fn append_bytes(dest: &mut Vec<u8>, bytes: &[u8])
    ensures
        final(dest)@ == old(dest)@ + bytes@,
{
    let ghost start = dest@;
    let mut i: usize = 0;
    while i < bytes.len()
        invariant
            i <= bytes@.len(),
            dest@ == start + bytes@.subrange(0, i as int),
        decreases bytes@.len() - i,
    {
        dest.push(bytes[i]);
        i = i + 1;
        assert(dest@ =~= start + bytes@.subrange(0, i as int));
    }
    assert(bytes@.subrange(0, i as int) =~= bytes@);
}

/// A copy of a list of byte strings.
pub fn copy_fields(fields: &Vec<Vec<u8>>) -> (copy: Vec<Vec<u8>>)
    ensures
        copy.deep_view() == fields.deep_view(),
{
    let mut copy: Vec<Vec<u8>> = Vec::new();
    let mut i: usize = 0;
    while i < fields.len()
        invariant
            i <= fields@.len(),
            copy@.len() == i,
            forall|k: int| 0 <= k < i ==> #[trigger] copy@[k]@ == fields@[k]@,
        decreases fields@.len() - i,
    {
        copy.push(copy_bytes(fields[i].as_slice()));
        i = i + 1;
    }
    assert(copy.deep_view() =~= fields.deep_view());
    copy
}

/// A copy of a list of hashes.
pub fn copy_hashes(hashes: &Vec<H256>) -> (copy: Vec<H256>)
    ensures
        copy@ == hashes@,
{
    let mut copy: Vec<H256> = Vec::new();
    let mut i: usize = 0;
    while i < hashes.len()
        invariant
            i <= hashes@.len(),
            copy@ == hashes@.subrange(0, i as int),
        decreases hashes@.len() - i,
    {
        copy.push(hashes[i]);
        i = i + 1;
        assert(copy@ =~= hashes@.subrange(0, i as int));
    }
    assert(hashes@.subrange(0, i as int) =~= hashes@);
    copy
}

/// One proven property of a document: its name, value and salt, and the
/// sibling hashes that lead from its leaf to the document root.
#[derive(Debug, PartialEq, Eq)]
pub struct CompleteProof {
    /// The property's name.
    pub property: Vec<u8>,
    /// The property's value.
    pub value: Vec<u8>,
    /// The salt hashed with the property.
    pub salt: Vec<u8>,
    /// The sibling hashes on the way to the root.
    pub hashes: Vec<H256>,
}

/// The data of a mint request: the anchored document, the document's static
/// root hashes and one proof per registry field.
#[derive(Debug, PartialEq, Eq)]
pub struct MintInfo {
    /// The anchor under which the document root is stored.
    pub anchor_id: H256,
    /// The document's static root hashes.
    pub static_hashes: [H256; 3],
    /// The proofs, in the order of the registry's fields.
    pub proofs: Vec<CompleteProof>,
}

/// A Merkle proof ready for checking: a leaf hash and its sibling hashes.
#[derive(Debug, PartialEq, Eq)]
pub struct Proof {
    /// The hash of the proven leaf.
    pub leaf_hash: H256,
    /// The sibling hashes on the way to the root.
    pub sorted_hashes: Vec<H256>,
}

/// The reasons for which the registry refuses a request.
#[derive(Clone, Copy, Debug, PartialEq, Eq)]
pub enum Error {
    /// No document root is anchored under the given anchor id.
    DocumentNotAnchored,
    /// The registry named in the request has not been created.
    RegistryDoesNotExist,
    /// The registry id is too large.
    RegistryOverflow,
    /// The proofs do not show the document's fields and token.
    InvalidProofs,
    /// The values given for a mint do not match the registry's fields.
    InvalidMintingValues,
}

/// Why a dispatched call failed.
#[derive(Clone, Copy, Debug, PartialEq, Eq)]
pub enum DispatchError {
    /// The call was not signed by an account.
    BadOrigin,
    /// The registry refused the call.
    Module(Error),
}

/// Where a call comes from.
#[derive(Clone, Copy, Debug, PartialEq, Eq)]
pub enum Origin {
    /// The system itself.
    Root,
    /// An account that signed the call.
    Signed(AccountId),
    /// Nobody signed the call.
    Unsigned,
    /// Nobody; the runtime authorised the call.
    Authorized,
}

/// The default account: all zero bytes. It is what the owner storage reads
/// for a registry that has no owner.
pub open spec fn default_account() -> Seq<u8> {
    Seq::new(32, |i: int| 0u8)
}

/// Whether a call from `origin` is admitted: a signed account or root.
pub open spec fn origin_admitted(origin: Origin) -> bool {
    origin is Signed || origin is Root
}

/// The account a call from `origin` acts for: the signer, or the default
/// account for root.
pub open spec fn acting_account(origin: Origin) -> Seq<u8> {
    match origin {
        Origin::Signed(account) => account@,
        _ => default_account(),
    }
}

/// The signer of the call, `None` for root, or `BadOrigin` for any other
/// origin.
pub fn ensure_signed_or_root(origin: Origin) -> (who: Result<Option<AccountId>, DispatchError>)
    ensures
        who == (match origin {
            Origin::Root => Ok(None),
            Origin::Signed(account) => Ok(Some(account)),
            _ => Err(DispatchError::BadOrigin),
        }),
{
    match origin {
        Origin::Root => Ok(None),
        Origin::Signed(account) => Ok(Some(account)),
        _ => Err(DispatchError::BadOrigin),
    }
}

/// The account a call acts for, given what [`ensure_signed_or_root`] found:
/// the signer, or the default account for root.
pub fn acting_account_of(signer: Option<AccountId>) -> (account: AccountId)
    ensures
        signer matches Some(a) ==> account == a,
        signer is None ==> account@ == default_account(),
{
    match signer {
        Some(a) => a,
        None => {
            let zero = [0u8; 32];
            assert(zero@ =~= default_account());
            zero
        },
    }
}

/// What the registry reports of a successful call.
#[derive(Clone, Copy, Debug, PartialEq, Eq)]
pub enum Event {
    /// A token was minted.
    Mint(RegistryId, TokenId),
    /// A registry was created.
    RegistryCreated(RegistryId),
    /// Carries a hash.
    Tmp(H256),
}

/// The registry's genesis configuration: it has no settings.
#[derive(Debug, PartialEq, Eq)]
pub struct GenesisConfig {}

impl Default for GenesisConfig {
    fn default() -> (config: GenesisConfig)
        ensures
            config == (GenesisConfig {}),
    {
        GenesisConfig {}
    }
}

} // verus!
