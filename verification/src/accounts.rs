use vstd::prelude::*;
use crate::errors::ErrorCode;
use crate::keys::Pubkey;

verus! {

/// An asset record, owned by the token-issuance subsystem. The core reads
/// only the total supply, the decimal count and the initialization flag.
#[derive(Clone, Copy, Debug, PartialEq, Eq, Structural)]
pub struct Mint {
    /// Total supply of units of the asset.
    pub supply: u64,
    /// Number of base-ten digits to the right of the decimal place.
    pub decimals: u8,
    /// Whether the record has been initialized.
    pub is_initialized: bool,
}

/// The state of a holding record.
#[derive(Clone, Copy, Debug, PartialEq, Eq, Structural)]
pub enum AccountState {
    /// The record is not yet initialized.
    Uninitialized,
    /// The record is initialized and its owner may operate on it.
    Initialized,
    /// The record has been frozen by the asset's freeze authority.
    Frozen,
}

/// A holding record, owned by the token-issuance subsystem: it attests that
/// `owner` currently possesses `amount` units of the asset `mint`.
#[derive(Debug)]
pub struct TokenAccount {
    /// The asset the held units belong to.
    pub mint: Pubkey,
    /// The principal that owns the holding.
    pub owner: Pubkey,
    /// The held quantity.
    pub amount: u64,
    /// The record's state.
    pub state: AccountState,
}

/// The mathematical value of a holding record.
pub ghost struct TokenAccountView {
    pub mint: Seq<u8>,
    pub owner: Seq<u8>,
    pub amount: u64,
    pub state: AccountState,
}

impl View for TokenAccount {
    type V = TokenAccountView;

    open spec fn view(&self) -> TokenAccountView {
        TokenAccountView {
            mint: self.mint@,
            owner: self.owner@,
            amount: self.amount,
            state: self.state,
        }
    }
}

/// A metadata record, owned by the metadata-publishing subsystem: the
/// canonical authority and symbol for the asset `mint`. The symbol is stored
/// fixed-width and padded with trailing null bytes.
#[derive(Debug)]
pub struct Metadata {
    /// The authority that may update the metadata.
    pub update_authority: Pubkey,
    /// The asset the metadata describes.
    pub mint: Pubkey,
    /// The asset's symbol, null-padded.
    pub symbol: Vec<u8>,
}

/// The mathematical value of a metadata record.
pub ghost struct MetadataView {
    pub update_authority: Seq<u8>,
    pub mint: Seq<u8>,
    pub symbol: Seq<u8>,
}

impl View for Metadata {
    type V = MetadataView;

    open spec fn view(&self) -> MetadataView {
        MetadataView {
            update_authority: self.update_authority@,
            mint: self.mint@,
            symbol: self.symbol@,
        }
    }
}

/// A record kind that carries an initialization flag.
pub trait Initialized: Sized {
    /// Whether the record counts as initialized.
    spec fn spec_initialized(&self) -> bool;

    /// Reports the initialization flag.
    fn check_initialized(&self) -> (r: bool)
        ensures
            r == self.spec_initialized(),
    ;
}

impl Initialized for Mint {
    open spec fn spec_initialized(&self) -> bool {
        self.is_initialized
    }

    fn check_initialized(&self) -> (r: bool) {
        self.is_initialized
    }
}

impl Initialized for TokenAccount {
    open spec fn spec_initialized(&self) -> bool {
        !(self.state is Uninitialized)
    }

    fn check_initialized(&self) -> (r: bool) {
        !matches!(self.state, AccountState::Uninitialized)
    }
}

/// Passes an initialized record through, and rejects an uninitialized one.
pub fn assert_initialized<T: Initialized>(account: T) -> (r: Result<T, ErrorCode>)
    ensures
        account.spec_initialized() ==> r == Ok::<T, ErrorCode>(account),
        !account.spec_initialized() ==> r == Err::<T, ErrorCode>(ErrorCode::Uninitialized),
{
    if account.check_initialized() {
        Ok(account)
    } else {
        Err(ErrorCode::Uninitialized)
    }
}

/// `s` with its trailing null bytes removed.
pub open spec fn trim_trailing_nulls(s: Seq<u8>) -> Seq<u8>
    decreases s.len(),
{
    if s.len() > 0 && s.last() == 0 {
        trim_trailing_nulls(s.drop_last())
    } else {
        s
    }
}

/// Removes the trailing null padding from a fixed-width symbol.
pub fn trim_nulls(s: &Vec<u8>) -> (r: Vec<u8>)
    ensures
        r@ == trim_trailing_nulls(s@),
{
    let mut end = s.len();
    proof {
        assert(s@.subrange(0, s@.len() as int) =~= s@);
    }
    while end > 0 && s[end - 1] == 0
        invariant
            0 <= end <= s@.len(),
            trim_trailing_nulls(s@.subrange(0, end as int)) == trim_trailing_nulls(s@),
        decreases end,
    {
        proof {
            let t = s@.subrange(0, end as int);
            assert(t.drop_last() =~= s@.subrange(0, end - 1));
        }
        end = end - 1;
    }
    let ghost kept = s@.subrange(0, end as int);
    proof {
        assert(trim_trailing_nulls(kept) == kept);
    }
    let mut r: Vec<u8> = Vec::new();
    let mut i: usize = 0;
    while i < end
        invariant
            0 <= i <= end <= s@.len(),
            r@ == s@.subrange(0, i as int),
        decreases end - i,
    {
        let b = s[i];
        r.push(b);
        proof {
            assert(r@ =~= s@.subrange(0, i + 1));
        }
        i = i + 1;
    }
    proof {
        assert(r@ =~= kept);
    }
    r
}

} // verus!
