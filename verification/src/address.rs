use vstd::prelude::*;
use crate::keys::Pubkey;

verus! {

/// Namespace tag that scopes type-mapping record addresses.
pub const TYPE_MAPPER_NAMESPACE: u8 = 0x74;

/// Namespace tag that scopes object record addresses.
pub const OBJECT_NAMESPACE: u8 = 0x69;

/// Folds a byte string into a one-byte salt, starting from `acc`.
pub open spec fn salt_fold(bytes: Seq<u8>, acc: u8) -> u8
    decreases bytes.len(),
{
    if bytes.len() == 0 {
        acc
    } else {
        salt_fold(bytes.drop_first(), acc ^ bytes[0])
    }
}

/// The derivation salt of the type-mapping record for a symbol and an
/// authority: a pure function of the namespace tag and the two key parts, so
/// that two derivations with identical inputs always agree.
pub open spec fn type_mapper_salt(symbol: Seq<u8>, authority: Seq<u8>) -> u8 {
    salt_fold(authority, salt_fold(symbol, TYPE_MAPPER_NAMESPACE))
}

/// The derivation salt of the object record for an asset identity.
pub open spec fn object_salt(asset: Seq<u8>) -> u8 {
    salt_fold(asset, OBJECT_NAMESPACE)
}

/// Folds the bytes of `bytes` into a salt, starting from `acc`.
fn fold_bytes(bytes: &Vec<u8>, acc: u8) -> (r: u8)
    ensures
        r == salt_fold(bytes@, acc),
{
    let ghost all = bytes@;
    let ghost acc0 = acc;
    let mut acc = acc;
    let mut i: usize = 0;
    proof {
        assert(all.subrange(0, all.len() as int) =~= all);
    }
    while i < bytes.len()
        invariant
            0 <= i <= bytes@.len(),
            bytes@ == all,
            salt_fold(all.subrange(i as int, all.len() as int), acc) == salt_fold(all, acc0),
        decreases bytes@.len() - i,
    {
        proof {
            let rest = all.subrange(i as int, all.len() as int);
            assert(rest.drop_first() =~= all.subrange(i + 1, all.len() as int));
            assert(rest[0] == all[i as int]);
        }
        acc = acc ^ bytes[i];
        i = i + 1;
    }
    proof {
        assert(all.subrange(all.len() as int, all.len() as int) =~= Seq::<u8>::empty());
    }
    acc
}

/// Computes the type-mapping derivation salt for a symbol and an authority.
pub fn derive_type_mapper_salt(symbol: &Vec<u8>, authority: &Pubkey) -> (r: u8)
    ensures
        r == type_mapper_salt(symbol@, authority@),
{
    let inner = fold_bytes(symbol, TYPE_MAPPER_NAMESPACE);
    fold_bytes(authority.as_bytes(), inner)
}

/// Computes the object derivation salt for an asset identity.
pub fn derive_object_salt(asset: &Pubkey) -> (r: u8)
    ensures
        r == object_salt(asset@),
{
    fold_bytes(asset.as_bytes(), OBJECT_NAMESPACE)
}

/// The derived address of a type-mapping record: the key material itself,
/// together with the derivation salt. Two addresses derived from identical
/// key parts are the same address, and addresses derived from different key
/// parts differ, so the address doubles as an authorization scope.
pub struct TypeMapperAddress {
    pub symbol: Vec<u8>,
    pub authority: Pubkey,
    pub salt: u8,
}

/// The mathematical value of a type-mapping address.
pub ghost struct TypeMapperAddressView {
    pub symbol: Seq<u8>,
    pub authority: Seq<u8>,
    pub salt: u8,
}

impl View for TypeMapperAddress {
    type V = TypeMapperAddressView;

    open spec fn view(&self) -> TypeMapperAddressView {
        TypeMapperAddressView {
            symbol: self.symbol@,
            authority: self.authority@,
            salt: self.salt,
        }
    }
}

/// The address value matches the one derived from the given key material.
pub open spec fn address_matches(a: TypeMapperAddressView, symbol: Seq<u8>, authority: Seq<u8>) -> bool {
    &&& a.symbol == symbol
    &&& a.authority == authority
    &&& a.salt == type_mapper_salt(symbol, authority)
}

impl TypeMapperAddress {
    /// The address matches the expected key material and salt.
    pub open spec fn matches_spec(&self, symbol: Seq<u8>, authority: Seq<u8>) -> bool {
        address_matches(self@, symbol, authority)
    }

    /// Compares this address against the one re-derived from `symbol` and
    /// `authority`.
    pub fn matches(&self, symbol: &Vec<u8>, authority: &Pubkey) -> (r: bool)
        ensures
            r == self.matches_spec(symbol@, authority@),
    {
        let salt = derive_type_mapper_salt(symbol, authority);
        crate::keys::bytes_eq(&self.symbol, symbol) && self.authority == *authority
            && self.salt == salt
    }
}

/// Derives the type-mapping address for a symbol and an authority.
pub fn derive_type_mapper_address(symbol: Vec<u8>, authority: Pubkey) -> (r: TypeMapperAddress)
    ensures
        r.matches_spec(symbol@, authority@),
        r.symbol@ == symbol@,
        r.authority@ == authority@,
{
    let salt = derive_type_mapper_salt(&symbol, &authority);
    TypeMapperAddress { symbol, authority, salt }
}

} // verus!
