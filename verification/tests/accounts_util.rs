use intersolar::accounts::{assert_initialized, AccountState, Mint, TokenAccount, trim_nulls};
use intersolar::errors::ErrorCode;
use intersolar::keys::Pubkey;

#[test]
fn trim_removes_trailing_nulls_only() {
    assert_eq!(trim_nulls(&b"ABC\0\0".to_vec()), b"ABC".to_vec());
    assert_eq!(trim_nulls(&b"ABC".to_vec()), b"ABC".to_vec());
    assert_eq!(trim_nulls(&b"\0\0".to_vec()), Vec::<u8>::new());
    assert_eq!(trim_nulls(&Vec::new()), Vec::<u8>::new());
    // Interior and leading nulls are kept.
    assert_eq!(trim_nulls(&b"\0A\0B\0".to_vec()), b"\0A\0B".to_vec());
}

#[test]
fn assert_initialized_passes_initialized_records_through() {
    let mint = Mint { supply: 1, decimals: 0, is_initialized: true };
    assert_eq!(assert_initialized(mint), Ok(mint));
    let mint = Mint { supply: 1, decimals: 0, is_initialized: false };
    assert_eq!(assert_initialized(mint), Err(ErrorCode::Uninitialized));
}

#[test]
fn assert_initialized_accepts_frozen_holdings() {
    let h = TokenAccount {
        mint: Pubkey::new(vec![2; 32]).unwrap(),
        owner: Pubkey::new(vec![3; 32]).unwrap(),
        amount: 1,
        state: AccountState::Frozen,
    };
    assert!(assert_initialized(h).is_ok());
    let h = TokenAccount {
        mint: Pubkey::new(vec![2; 32]).unwrap(),
        owner: Pubkey::new(vec![3; 32]).unwrap(),
        amount: 1,
        state: AccountState::Uninitialized,
    };
    assert!(assert_initialized(h).is_err());
}

#[test]
fn pubkey_rejects_wrong_width_and_compares_by_bytes() {
    assert!(Pubkey::new(vec![0; 31]).is_none());
    assert!(Pubkey::new(vec![0; 33]).is_none());
    let a = Pubkey::new(vec![5; 32]).unwrap();
    let b = Pubkey::new(vec![5; 32]).unwrap();
    let c = Pubkey::new(vec![6; 32]).unwrap();
    assert!(a == b);
    assert!(a != c);
    assert_eq!(a.duplicate().as_bytes(), a.as_bytes());
}
