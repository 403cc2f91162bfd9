//! Exercises the library's byte-level entry points against account images
//! in the real external layouts: the 82-byte asset record and 165-byte
//! holding record of the token subsystem, and the borsh-serialized
//! metadata record.

use intersolar::accounts::AccountState;
use intersolar::address::{derive_type_mapper_address, derive_type_mapper_salt};
use intersolar::errors::ErrorCode;
use intersolar::intersolar::ObjectRegistry;
use intersolar::keys::Pubkey;
use intersolar::type_mapper::TypeMappingRegistry;
use intersolar::unpack::{load_metadata, load_mint, load_token_account};

fn key(b: u8) -> Pubkey {
    Pubkey::new(vec![b; 32]).unwrap()
}

const AUTHORITY: u8 = 1;
const ASSET: u8 = 2;
const HOLDER: u8 = 3;

/// The token subsystem's 82-byte asset-record image.
fn mint_image(supply: u64, decimals: u8, initialized: bool) -> Vec<u8> {
    let mut data = vec![0u8; 82];
    data[36..44].copy_from_slice(&supply.to_le_bytes());
    data[44] = decimals;
    data[45] = if initialized { 1 } else { 0 };
    data
}

/// The token subsystem's 165-byte holding-record image.
fn holding_image(mint: u8, owner: u8, amount: u64, state: u8) -> Vec<u8> {
    let mut data = vec![0u8; 165];
    data[0..32].copy_from_slice(&[mint; 32]);
    data[32..64].copy_from_slice(&[owner; 32]);
    data[64..72].copy_from_slice(&amount.to_le_bytes());
    data[108] = state;
    data
}

fn push_borsh_string(out: &mut Vec<u8>, s: &[u8]) {
    out.extend_from_slice(&(s.len() as u32).to_le_bytes());
    out.extend_from_slice(s);
}

/// The metadata subsystem's borsh-serialized record image.
fn metadata_image(update_authority: u8, mint: u8, symbol: &[u8]) -> Vec<u8> {
    let mut data = Vec::new();
    data.push(4); // record-kind tag: metadata
    data.extend_from_slice(&[update_authority; 32]);
    data.extend_from_slice(&[mint; 32]);
    push_borsh_string(&mut data, b"Some Asset"); // name
    push_borsh_string(&mut data, symbol);
    push_borsh_string(&mut data, b"https://example.invalid"); // uri
    data.extend_from_slice(&0u16.to_le_bytes()); // seller fee
    // Absent optional fields: creators, edition nonce, token standard,
    // collection, uses, collection details, programmable config; and the
    // two flags.
    data.push(0); // creators: none
    data.push(0); // primary sale happened: false
    data.push(1); // is mutable: true
    data.push(0); // edition nonce: none
    data.push(0); // token standard: none
    data.push(0); // collection: none
    data.push(0); // uses: none
    data.push(0); // collection details: none
    data.push(0); // programmable config: none
    data
}

#[test]
fn mint_image_parses_to_its_fields() {
    let m = load_mint(&mint_image(1, 0, true)).unwrap();
    assert_eq!(m.supply, 1);
    assert_eq!(m.decimals, 0);
    assert!(m.is_initialized);

    let m = load_mint(&mint_image(1000, 6, true)).unwrap();
    assert_eq!(m.supply, 1000);
    assert_eq!(m.decimals, 6);
}

#[test]
fn uninitialized_or_malformed_mint_image_is_rejected() {
    assert_eq!(load_mint(&mint_image(1, 0, false)), Err(ErrorCode::Uninitialized));
    assert_eq!(load_mint(&vec![0u8; 10]), Err(ErrorCode::Uninitialized));
    // An image of the right length whose initialization byte is invalid.
    let mut data = mint_image(1, 0, true);
    data[45] = 9;
    assert_eq!(load_mint(&data), Err(ErrorCode::Uninitialized));
}

#[test]
fn holding_image_parses_to_its_fields() {
    let h = load_token_account(&holding_image(ASSET, HOLDER, 5, 1)).unwrap();
    assert_eq!(h.mint.as_bytes(), key(ASSET).as_bytes());
    assert_eq!(h.owner.as_bytes(), key(HOLDER).as_bytes());
    assert_eq!(h.amount, 5);
    assert_eq!(h.state, AccountState::Initialized);

    let h = load_token_account(&holding_image(ASSET, HOLDER, 1, 2)).unwrap();
    assert_eq!(h.state, AccountState::Frozen);
}

#[test]
fn uninitialized_or_malformed_holding_image_is_rejected() {
    assert_eq!(
        load_token_account(&holding_image(ASSET, HOLDER, 1, 0)).unwrap_err(),
        ErrorCode::Uninitialized
    );
    assert_eq!(load_token_account(&vec![0u8; 164]).unwrap_err(), ErrorCode::Uninitialized);
}

#[test]
fn metadata_image_parses_to_its_fields() {
    let md = load_metadata(&metadata_image(AUTHORITY, ASSET, b"ABC\0\0")).unwrap();
    assert_eq!(md.update_authority.as_bytes(), key(AUTHORITY).as_bytes());
    assert_eq!(md.mint.as_bytes(), key(ASSET).as_bytes());
    assert_eq!(md.symbol, b"ABC\0\0".to_vec());
}

#[test]
fn truncated_metadata_image_is_rejected() {
    let mut data = metadata_image(AUTHORITY, ASSET, b"ABC");
    data.truncate(40);
    assert_eq!(load_metadata(&data).unwrap_err(), ErrorCode::Uninitialized);
}

#[test]
fn create_and_rename_from_account_images() {
    let mut mappings = TypeMappingRegistry::new();
    let bump = derive_type_mapper_salt(&b"ABC".to_vec(), &key(AUTHORITY));
    assert_eq!(mappings.initialize(bump, b"ABC".to_vec(), key(AUTHORITY), 7), Ok(()));

    let mut objects = ObjectRegistry::new();
    let r = objects.initialize_from_accounts(
        42,
        b"ABC".to_vec(),
        key(ASSET),
        &mint_image(1, 0, true),
        &metadata_image(AUTHORITY, ASSET, b"ABC\0\0"),
        &key(AUTHORITY),
        &derive_type_mapper_address(b"ABC".to_vec(), key(AUTHORITY)),
        &mappings,
    );
    assert_eq!(r, Ok(()));
    let rec = objects.load(&key(ASSET)).unwrap();
    assert_eq!(rec.type_code, 7);
    assert_eq!(rec.name, None);

    // A fungible asset image is rejected.
    let r = objects.initialize_from_accounts(
        42,
        b"ABC".to_vec(),
        key(9),
        &mint_image(1000, 6, true),
        &metadata_image(AUTHORITY, 9, b"ABC\0\0"),
        &key(AUTHORITY),
        &derive_type_mapper_address(b"ABC".to_vec(), key(AUTHORITY)),
        &mappings,
    );
    assert_eq!(r, Err(ErrorCode::NoNFT));

    // The holder of the one unit may rename the object.
    let r = objects.rename_from_account(
        &key(ASSET),
        &holding_image(ASSET, HOLDER, 1, 1),
        &key(HOLDER),
        b"Comet".to_vec(),
    );
    assert_eq!(r, Ok(()));
    assert_eq!(objects.load(&key(ASSET)).unwrap().name, Some(b"Comet".to_vec()));

    // A holder whose holding image shows no units may not.
    let r = objects.rename_from_account(
        &key(ASSET),
        &holding_image(ASSET, 4, 0, 1),
        &key(4),
        b"Rock".to_vec(),
    );
    assert_eq!(r, Err(ErrorCode::InsufficientAmount));
    assert_eq!(objects.load(&key(ASSET)).unwrap().name, Some(b"Comet".to_vec()));
}
