use pallet_registry::{
    ensure_signed_or_root, get_document_root, AssetId, CompleteProof, DispatchError, Error, Event,
    GenesisConfig, MintInfo, Origin, Pallet, RegistryId, RegistryInfo, TokenId, H256, NFTS_PREFIX,
};
use sp_runtime::traits::BlakeTwo256;
use sp_runtime::traits::Hash as RuntimeHash;

const ALICE: [u8; 32] = [1u8; 32];
const BOB: [u8; 32] = [2u8; 32];

fn expected_id(nonce: u128) -> RegistryId {
    let digest = <BlakeTwo256 as RuntimeHash>::hash_of(&nonce);
    let mut id = [0u8; 20];
    id.copy_from_slice(&digest.0[..20]);
    RegistryId(id)
}

fn blake(data: &[u8]) -> H256 {
    <BlakeTwo256 as RuntimeHash>::hash(data).0
}

fn nft_field(id: &RegistryId) -> Vec<u8> {
    let mut f = NFTS_PREFIX.to_vec();
    f.extend_from_slice(&id.0);
    f
}

fn info(fields: &[&[u8]]) -> RegistryInfo {
    RegistryInfo { fields: fields.iter().map(|f| f.to_vec()).collect() }
}

fn token(n: u8) -> TokenId {
    TokenId::from_big_endian(&[n])
}

fn field_proof(property: Vec<u8>, value: Vec<u8>) -> CompleteProof {
    CompleteProof { property, value, salt: vec![7u8; 32], hashes: vec![[9u8; 32], [8u8; 32]] }
}

/// A pallet with one registry requiring `amount`, created by Alice.
fn setup() -> (Pallet, RegistryId) {
    let mut pallet = Pallet::new();
    let event = pallet.create_registry(Origin::Signed(ALICE), info(&[b"amount"])).unwrap();
    let id = match event {
        Event::RegistryCreated(id) => id,
        other => panic!("unexpected event {:?}", other),
    };
    (pallet, id)
}

fn good_mint_info(id: &RegistryId, tok: u8) -> MintInfo {
    MintInfo {
        anchor_id: [3u8; 32],
        static_hashes: [[4u8; 32], [5u8; 32], [6u8; 32]],
        proofs: vec![field_proof(b"amount".to_vec(), vec![100]), field_proof(nft_field(id), vec![tok])],
    }
}

#[test]
fn genesis_storage_is_empty() {
    let pallet = Pallet::new();
    assert_eq!(pallet.get_registry_nonce(), 0);
    let id = RegistryId([5u8; 20]);
    assert!(pallet.get_registries(&id).fields.is_empty());
    assert_eq!(pallet.get_owner(&id), [0u8; 32]);
    assert_eq!(GenesisConfig::default(), GenesisConfig {});
}

#[test]
fn create_registry_stores_info_owner_and_binding_field() {
    let (pallet, id) = setup();
    assert_eq!(id, expected_id(0));
    assert_eq!(pallet.get_registry_nonce(), 1);
    let stored = pallet.get_registries(&id);
    assert_eq!(stored.fields, vec![b"amount".to_vec(), nft_field(&id)]);
    assert_eq!(stored.fields[1][..8], [1u8, 0, 0, 0, 0, 0, 0, 20]);
    assert_eq!(pallet.get_owner(&id), ALICE);
}

#[test]
fn create_registry_needs_a_signed_or_root_origin() {
    let mut pallet = Pallet::new();
    assert_eq!(pallet.create_registry(Origin::Unsigned, info(&[b"a"])), Err(DispatchError::BadOrigin));
    assert_eq!(pallet.create_registry(Origin::Authorized, info(&[b"a"])), Err(DispatchError::BadOrigin));
    assert_eq!(pallet.get_registry_nonce(), 0);
    assert!(pallet.get_registries(&expected_id(0)).fields.is_empty());
}

#[test]
fn root_creates_a_registry_owned_by_the_default_account() {
    let mut pallet = Pallet::new();
    let event = pallet.create_registry(Origin::Root, info(&[b"a"])).unwrap();
    let id = expected_id(0);
    assert_eq!(event, Event::RegistryCreated(id));
    assert_eq!(pallet.get_registry_nonce(), 1);
    assert_eq!(pallet.get_registries(&id).fields, vec![b"a".to_vec(), nft_field(&id)]);
    assert_eq!(pallet.get_owner(&id), [0u8; 32]);
}

#[test]
fn identical_registries_coexist() {
    let mut pallet = Pallet::new();
    let a = pallet.create_new_registry(ALICE, info(&[b"x"])).unwrap();
    let b = pallet.create_new_registry(BOB, info(&[b"x"])).unwrap();
    assert_eq!(a, expected_id(0));
    assert_eq!(b, expected_id(1));
    assert_ne!(a, b);
    assert_eq!(pallet.get_registry_nonce(), 2);
    assert_eq!(pallet.get_registries(&a).fields, vec![b"x".to_vec(), nft_field(&a)]);
    assert_eq!(pallet.get_registries(&b).fields, vec![b"x".to_vec(), nft_field(&b)]);
    assert_eq!(pallet.get_owner(&a), ALICE);
    assert_eq!(pallet.get_owner(&b), BOB);
}

#[test]
fn registry_with_no_fields_gets_only_the_binding_field() {
    let mut pallet = Pallet::new();
    let id = pallet.create_new_registry(ALICE, RegistryInfo { fields: vec![] }).unwrap();
    assert_eq!(pallet.get_registries(&id).fields, vec![nft_field(&id)]);
}

#[test]
fn mint_succeeds_and_prepares_the_proofs() {
    let (pallet, id) = setup();
    let mint_info = good_mint_info(&id, 42);
    let root = [11u8; 32];
    let request = pallet
        .mint(Origin::Signed(BOB), ALICE, id, token(42), mint_info, Some(root))
        .unwrap();
    assert_eq!(request.caller, BOB);
    assert_eq!(request.owner_account, ALICE);
    assert_eq!(request.asset_id, AssetId(id, token(42)));
    assert_eq!(request.check.doc_root, blake(&root));
    assert_ne!(request.check.doc_root, root);
    assert_eq!(request.check.static_hashes, [[4u8; 32], [5u8; 32], [6u8; 32]]);
    assert_eq!(request.check.proofs.len(), 2);
    let mut leaf0 = b"amount".to_vec();
    leaf0.push(100);
    leaf0.extend_from_slice(&[7u8; 32]);
    assert_eq!(request.check.proofs[0].leaf_hash, blake(&leaf0));
    let mut leaf1 = nft_field(&id);
    leaf1.push(42);
    leaf1.extend_from_slice(&[7u8; 32]);
    assert_eq!(request.check.proofs[1].leaf_hash, blake(&leaf1));
    assert_eq!(request.check.proofs[1].sorted_hashes, vec![[9u8; 32], [8u8; 32]]);
    assert_eq!(request.accept_proofs(true), Ok(()));
    assert_eq!(request.accept_proofs(false), Err(DispatchError::Module(Error::InvalidProofs)));
    assert_eq!(request.event(), Event::Mint(id, token(42)));
}

#[test]
fn mint_needs_a_signed_or_root_origin() {
    let (pallet, id) = setup();
    let res = pallet.mint(Origin::Unsigned, ALICE, id, token(1), good_mint_info(&id, 1), Some([0u8; 32]));
    assert_eq!(res.unwrap_err(), DispatchError::BadOrigin);
    // An unsigned call is refused before the proofs are read.
    let mut unreadable = good_mint_info(&id, 1);
    unreadable.proofs[1].value = vec![1u8; 33];
    let res = pallet.mint(Origin::Authorized, ALICE, id, token(1), unreadable, Some([0u8; 32]));
    assert_eq!(res.unwrap_err(), DispatchError::BadOrigin);
}

#[test]
fn root_mints_as_the_default_account() {
    let (pallet, id) = setup();
    let request = pallet
        .mint(Origin::Root, ALICE, id, token(1), good_mint_info(&id, 1), Some([0u8; 32]))
        .unwrap();
    assert_eq!(request.caller, [0u8; 32]);
    assert_eq!(request.owner_account, ALICE);
}

#[test]
fn mint_of_unknown_registry_fails() {
    let (pallet, id) = setup();
    let other = RegistryId([0u8; 20]);
    let res = pallet.mint(Origin::Signed(BOB), BOB, other, token(1), good_mint_info(&id, 1), Some([0u8; 32]));
    assert_eq!(res.unwrap_err(), DispatchError::Module(Error::RegistryDoesNotExist));
}

#[test]
fn mint_with_wrong_token_value_fails() {
    let (pallet, id) = setup();
    let res = pallet.mint(Origin::Signed(BOB), BOB, id, token(2), good_mint_info(&id, 1), Some([0u8; 32]));
    assert_eq!(res.unwrap_err(), DispatchError::Module(Error::InvalidProofs));
}

#[test]
fn mint_token_value_is_read_as_a_number() {
    let (pallet, id) = setup();
    // A value with leading zero bytes proves the same token.
    let mut mint_info = good_mint_info(&id, 0);
    mint_info.proofs[1].value = vec![0, 0, 1, 2];
    let tok = TokenId::from_big_endian(&[1, 2]);
    let res = pallet.mint(Origin::Signed(BOB), BOB, id, tok, mint_info, Some([0u8; 32]));
    assert!(res.is_ok());
}

#[test]
fn mint_with_wrong_field_fails() {
    let (pallet, id) = setup();
    let mut mint_info = good_mint_info(&id, 1);
    mint_info.proofs[0].property = b"amounts".to_vec();
    let res = pallet.mint(Origin::Signed(BOB), BOB, id, token(1), mint_info, Some([0u8; 32]));
    assert_eq!(res.unwrap_err(), DispatchError::Module(Error::InvalidProofs));
}

#[test]
fn mint_with_extra_proofs_fails() {
    let (pallet, id) = setup();
    let mut mint_info = good_mint_info(&id, 1);
    mint_info.proofs.push(field_proof(b"anything".to_vec(), vec![1, 2, 3]));
    let res = pallet.mint(Origin::Signed(BOB), BOB, id, token(1), mint_info, Some([0u8; 32]));
    assert_eq!(res.unwrap_err(), DispatchError::Module(Error::InvalidMintingValues));
}

#[test]
fn mint_with_missing_proofs_fails() {
    let (pallet, id) = setup();
    let mut mint_info = good_mint_info(&id, 1);
    mint_info.proofs.pop();
    let res = pallet.mint(Origin::Signed(BOB), BOB, id, token(1), mint_info, Some([0u8; 32]));
    assert_eq!(res.unwrap_err(), DispatchError::Module(Error::InvalidMintingValues));
    let empty = MintInfo { anchor_id: [0u8; 32], static_hashes: [[0u8; 32]; 3], proofs: vec![] };
    let res = pallet.mint(Origin::Signed(BOB), BOB, id, token(1), empty, Some([0u8; 32]));
    assert_eq!(res.unwrap_err(), DispatchError::Module(Error::InvalidMintingValues));
}

#[test]
fn mint_without_anchor_fails() {
    let (pallet, id) = setup();
    let res = pallet.mint(Origin::Signed(BOB), BOB, id, token(1), good_mint_info(&id, 1), None);
    assert_eq!(res.unwrap_err(), DispatchError::Module(Error::DocumentNotAnchored));
}

#[test]
fn mint_judgeable_inputs() {
    let (pallet, id) = setup();
    let ok = good_mint_info(&id, 1);
    assert!(pallet.mint_is_judgeable(&AssetId(id, token(1)), &ok));
    let mut short = good_mint_info(&id, 1);
    short.proofs.pop();
    assert!(pallet.mint_is_judgeable(&AssetId(id, token(1)), &short));
    let mut long_value = good_mint_info(&id, 1);
    long_value.proofs[1].value = vec![1u8; 33];
    assert!(!pallet.mint_is_judgeable(&AssetId(id, token(1)), &long_value));
    // Without the registry there is nothing to read.
    assert!(pallet.mint_is_judgeable(&AssetId(RegistryId([0u8; 20]), token(1)), &short));
}

#[test]
fn document_root_is_hashed() {
    let root = [42u8; 32];
    assert_eq!(get_document_root(Some(root)), Ok(blake(&root)));
    assert_eq!(get_document_root(None), Err(Error::DocumentNotAnchored));
}

#[test]
fn signed_or_root_origin() {
    assert_eq!(ensure_signed_or_root(Origin::Signed(ALICE)), Ok(Some(ALICE)));
    assert_eq!(ensure_signed_or_root(Origin::Root), Ok(None));
    assert_eq!(ensure_signed_or_root(Origin::Unsigned), Err(DispatchError::BadOrigin));
    assert_eq!(ensure_signed_or_root(Origin::Authorized), Err(DispatchError::BadOrigin));
}

#[test]
fn token_ids_from_big_endian_bytes() {
    let t = TokenId::from_big_endian(&[1, 2]);
    let mut expected = [0u8; 32];
    expected[30] = 1;
    expected[31] = 2;
    assert_eq!(t.0, expected);
    assert!(t.same_as(&TokenId::from_big_endian(&[0, 0, 1, 2])));
    assert!(!t.same_as(&TokenId::from_big_endian(&[2, 1])));
    assert_eq!(TokenId::from_big_endian(&[]).0, [0u8; 32]);
    assert_eq!(TokenId::from_big_endian(&[0xffu8; 32]).0, [0xffu8; 32]);
}

#[test]
fn asset_id_destructs() {
    let id = RegistryId([9u8; 20]);
    let asset = AssetId(id, token(3));
    let (r, t) = asset.destruct();
    assert_eq!(*r, id);
    assert_eq!(*t, token(3));
    assert_eq!(id.as_bytes(), &[9u8; 20]);
}

#[test]
fn nonce_counts_created_registries() {
    let mut pallet = Pallet::new();
    let mut created = 0u128;
    for round in 0..6u8 {
        let origin = if round % 3 == 2 { Origin::Unsigned } else { Origin::Signed(ALICE) };
        let before = pallet.get_registry_nonce();
        let res = pallet.create_registry(origin, info(&[b"f"]));
        let after = pallet.get_registry_nonce();
        assert!(after >= before);
        if res.is_ok() {
            assert_eq!(res, Ok(Event::RegistryCreated(expected_id(before))));
            created += 1;
        }
        let id = expected_id(0);
        let _ = pallet.mint(Origin::Signed(BOB), BOB, id, token(1), good_mint_info(&id, 1), None);
        assert_eq!(pallet.get_registry_nonce(), after);
    }
    assert_eq!(pallet.get_registry_nonce(), created);
    assert_eq!(created, 4);
}
