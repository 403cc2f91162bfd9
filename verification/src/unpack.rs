use vstd::prelude::*;
use crate::accounts::{assert_initialized, AccountState, Metadata, MetadataView, Mint, TokenAccount, TokenAccountView};
use crate::errors::ErrorCode;
use crate::keys::Pubkey;

verus! {

/// What the token subsystem's asset-record parser returns for a byte
/// string: supply, decimals and initialization flag, or nothing where the
/// bytes do not parse. A pure function of the bytes alone.
pub uninterp spec fn unpacked_mint(data: Seq<u8>) -> Option<(u64, u8, bool)>;

/// What the token subsystem's holding-record parser returns for a byte
/// string: asset identity, owner, amount and state, or nothing where the
/// bytes do not parse. A pure function of the bytes alone.
pub uninterp spec fn unpacked_token_account(data: Seq<u8>) -> Option<
    (Seq<u8>, Seq<u8>, u64, AccountState),
>;

/// What the metadata subsystem's record parser returns for a byte string:
/// update authority, asset identity and null-padded symbol, or nothing
/// where the bytes do not parse. A pure function of the bytes alone.
pub uninterp spec fn deserialized_metadata(data: Seq<u8>) -> Option<(Seq<u8>, Seq<u8>, Seq<u8>)>;

/// Relies on `spl_token::state::Mint::unpack_unchecked`: the parser of the
/// 82-byte asset-record layout, a function of the bytes alone.
#[verifier::external_body]
fn unpack_mint(data: &[u8]) -> (r: Option<Mint>)
    ensures
        match r {
            Some(m) => unpacked_mint(data@) == Some((m.supply, m.decimals, m.is_initialized)),
            None => unpacked_mint(data@) is None,
        },
{
    match <spl_token::state::Mint as solana_program_pack::Pack>::unpack_unchecked(data) {
        Ok(m) => Some(
            Mint { supply: m.supply, decimals: m.decimals, is_initialized: m.is_initialized },
        ),
        Err(_) => None,
    }
}

/// Relies on `spl_token::state::Account::unpack_unchecked`: the parser of
/// the 165-byte holding-record layout, a function of the bytes alone; a
/// parsed key always holds 32 bytes.
#[verifier::external_body]
fn unpack_token_account(data: &[u8]) -> (r: Option<TokenAccount>)
    ensures
        match r {
            Some(a) => unpacked_token_account(data@) == Some(
                (a.mint@, a.owner@, a.amount, a.state),
            ) && a.mint@.len() == 32 && a.owner@.len() == 32,
            None => unpacked_token_account(data@) is None,
        },
{
    let a = match <spl_token::state::Account as solana_program_pack::Pack>::unpack_unchecked(data) {
        Ok(a) => a,
        Err(_) => return None,
    };
    let state = match a.state {
        spl_token::state::AccountState::Uninitialized => AccountState::Uninitialized,
        spl_token::state::AccountState::Initialized => AccountState::Initialized,
        spl_token::state::AccountState::Frozen => AccountState::Frozen,
    };
    let mint = Pubkey { bytes: a.mint.to_bytes().to_vec() };
    let owner = Pubkey { bytes: a.owner.to_bytes().to_vec() };
    Some(TokenAccount { mint, owner, amount: a.amount, state })
}

/// Relies on `mpl_token_metadata::accounts::Metadata::from_bytes`: the
/// borsh deserializer of the metadata-record layout, a function of the
/// bytes alone; a parsed key always holds 32 bytes.
#[verifier::external_body]
fn deserialize_metadata(data: &[u8]) -> (r: Option<Metadata>)
    ensures
        match r {
            Some(md) => deserialized_metadata(data@) == Some(
                (md.update_authority@, md.mint@, md.symbol@),
            ) && md.update_authority@.len() == 32 && md.mint@.len() == 32,
            None => deserialized_metadata(data@) is None,
        },
{
    match mpl_token_metadata::accounts::Metadata::from_bytes(data) {
        Ok(m) => Some(Metadata {
            update_authority: Pubkey { bytes: m.update_authority.to_bytes().to_vec() },
            mint: Pubkey { bytes: m.mint.to_bytes().to_vec() },
            symbol: m.symbol.into_bytes(),
        }),
        Err(_) => None,
    }
}

/// Loads an asset record from its bytes, as the creation operation
/// consumes it: bytes that do not parse, and a record whose initialization
/// flag is clear, are both rejected as `Uninitialized`.
pub fn load_mint(data: &[u8]) -> (r: Result<Mint, ErrorCode>)
    ensures
        match unpacked_mint(data@) {
            Some(t) => if t.2 {
                r == Ok::<Mint, ErrorCode>((Mint { supply: t.0, decimals: t.1, is_initialized: t.2 }))
            } else {
                r == Err::<Mint, ErrorCode>(ErrorCode::Uninitialized)
            },
            None => r == Err::<Mint, ErrorCode>(ErrorCode::Uninitialized),
        },
{
    match unpack_mint(data) {
        None => Err(ErrorCode::Uninitialized),
        Some(m) => assert_initialized(m),
    }
}

/// Loads a holding record from its bytes, as the rename operation consumes
/// it: bytes that do not parse, and a record still in the uninitialized
/// state, are both rejected as `Uninitialized`.
pub fn load_token_account(data: &[u8]) -> (r: Result<TokenAccount, ErrorCode>)
    ensures
        match unpacked_token_account(data@) {
            Some(t) => if !(t.3 is Uninitialized) {
                r matches Ok(a) && a@ == (TokenAccountView {
                    mint: t.0,
                    owner: t.1,
                    amount: t.2,
                    state: t.3,
                }) && a.mint@.len() == 32 && a.owner@.len() == 32
            } else {
                r == Err::<TokenAccount, ErrorCode>(ErrorCode::Uninitialized)
            },
            None => r == Err::<TokenAccount, ErrorCode>(ErrorCode::Uninitialized),
        },
{
    match unpack_token_account(data) {
        None => Err(ErrorCode::Uninitialized),
        Some(a) => assert_initialized(a),
    }
}

/// Loads a metadata record from its bytes: bytes that do not parse are
/// rejected as `Uninitialized`.
pub fn load_metadata(data: &[u8]) -> (r: Result<Metadata, ErrorCode>)
    ensures
        match deserialized_metadata(data@) {
            Some(t) => r matches Ok(md) && md@ == (MetadataView {
                update_authority: t.0,
                mint: t.1,
                symbol: t.2,
            }) && md.update_authority@.len() == 32 && md.mint@.len() == 32,
            None => r == Err::<Metadata, ErrorCode>(ErrorCode::Uninitialized),
        },
{
    match deserialize_metadata(data) {
        None => Err(ErrorCode::Uninitialized),
        Some(md) => Ok(md),
    }
}

} // verus!
