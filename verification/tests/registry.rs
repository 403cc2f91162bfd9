use intersolar::address::derive_type_mapper_salt;
use intersolar::errors::ErrorCode;
use intersolar::keys::Pubkey;
use intersolar::type_mapper::TypeMappingRegistry;

fn key(b: u8) -> Pubkey {
    Pubkey::new(vec![b; 32]).unwrap()
}

fn symbol() -> Vec<u8> {
    b"ABC".to_vec()
}

fn salt_for(sym: &[u8], authority_byte: u8) -> u8 {
    derive_type_mapper_salt(&sym.to_vec(), &key(authority_byte))
}

#[test]
fn salt_derivation_folds_namespace_and_key_material() {
    // The type-mapping namespace tag is 0x74; "ABC" folds to
    // 0x41 ^ 0x42 ^ 0x43 = 0x40; thirty-two equal authority bytes cancel.
    assert_eq!(salt_for(b"ABC", 1), 0x74 ^ 0x40);
    // The fold is deterministic and sensitive to each key part.
    assert_eq!(salt_for(b"ABC", 1), salt_for(b"ABC", 1));
    assert_ne!(salt_for(b"ABC", 1), salt_for(b"ABD", 1));
}

#[test]
fn create_then_load_returns_supplied_type_code() {
    let mut reg = TypeMappingRegistry::new();
    let bump = salt_for(b"ABC", 1);
    let r = reg.initialize(bump, symbol(), key(1), 7);
    assert_eq!(r, Ok(()));
    let rec = reg.load(&symbol(), &key(1)).unwrap();
    assert_eq!(rec.type_code, 7);
    assert_eq!(rec.bump, bump);
}

#[test]
fn second_create_at_same_key_fails_already_exists() {
    let mut reg = TypeMappingRegistry::new();
    let bump = salt_for(b"ABC", 1);
    assert_eq!(reg.initialize(bump, symbol(), key(1), 7), Ok(()));
    assert_eq!(
        reg.initialize(bump, symbol(), key(1), 9),
        Err(ErrorCode::AlreadyExists)
    );
    // The stored record is untouched by the failed second create.
    let rec = reg.load(&symbol(), &key(1)).unwrap();
    assert_eq!(rec.type_code, 7);
}

#[test]
fn create_with_wrong_salt_fails_address_derivation_mismatch() {
    let mut reg = TypeMappingRegistry::new();
    let bump = salt_for(b"ABC", 1);
    let r = reg.initialize(bump.wrapping_add(1), symbol(), key(1), 7);
    assert_eq!(r, Err(ErrorCode::AddressDerivationMismatch));
    assert!(reg.load(&symbol(), &key(1)).is_none());
}

#[test]
fn update_under_other_authority_fails_not_found() {
    let mut reg = TypeMappingRegistry::new();
    let bump = salt_for(b"ABC", 1);
    assert_eq!(reg.initialize(bump, symbol(), key(1), 7), Ok(()));
    // The same symbol under a different authority derives a different,
    // non-existent address.
    assert_eq!(
        reg.update(&symbol(), &key(2), 9),
        Err(ErrorCode::NotFound)
    );
    // The record created under the first authority is untouched.
    let rec = reg.load(&symbol(), &key(1)).unwrap();
    assert_eq!(rec.type_code, 7);
    assert!(reg.load(&symbol(), &key(2)).is_none());
}

#[test]
fn update_under_same_authority_overwrites_type_code() {
    let mut reg = TypeMappingRegistry::new();
    let bump = salt_for(b"ABC", 1);
    assert_eq!(reg.initialize(bump, symbol(), key(1), 7), Ok(()));
    assert_eq!(reg.update(&symbol(), &key(1), 9), Ok(()));
    let rec = reg.load(&symbol(), &key(1)).unwrap();
    assert_eq!(rec.type_code, 9);
    // The derivation salt recorded at creation time is kept.
    assert_eq!(rec.bump, bump);
}

#[test]
fn update_before_create_fails_not_found() {
    let mut reg = TypeMappingRegistry::new();
    assert_eq!(
        reg.update(&symbol(), &key(1), 9),
        Err(ErrorCode::NotFound)
    );
}

#[test]
fn mappings_under_distinct_symbols_are_independent() {
    let mut reg = TypeMappingRegistry::new();
    let bump_abc = salt_for(b"ABC", 1);
    let bump_xyz = salt_for(b"XYZ", 1);
    assert_eq!(reg.initialize(bump_abc, b"ABC".to_vec(), key(1), 7), Ok(()));
    assert_eq!(reg.initialize(bump_xyz, b"XYZ".to_vec(), key(1), 8), Ok(()));
    assert_eq!(reg.load(&b"ABC".to_vec(), &key(1)).unwrap().type_code, 7);
    assert_eq!(reg.load(&b"XYZ".to_vec(), &key(1)).unwrap().type_code, 8);
}
