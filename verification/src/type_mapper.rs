use vstd::prelude::*;
use crate::address::{derive_type_mapper_salt, type_mapper_salt};
use crate::errors::ErrorCode;
use crate::keys::{bytes_eq, Pubkey};

verus! {

/// A type-mapping record: the one-byte type code registered for a symbol
/// under an authority, together with the derivation salt that reproduces the
/// record's address.
#[derive(Clone, Copy, Debug, PartialEq, Eq, Structural)]
pub struct IntersolarTypeMapper {
    /// The registered type code.
    pub type_code: u8,
    /// The derivation salt of the record's address.
    pub bump: u8,
}

/// One stored mapping: the key material the address was derived from, and
/// the record that lives at that address.
struct TypeMappingEntry {
    symbol: Vec<u8>,
    authority: Pubkey,
    record: IntersolarTypeMapper,
}

/// The derived-address key of an entry.
spec fn entry_key(e: TypeMappingEntry) -> (Seq<u8>, Seq<u8>) {
    (e.symbol@, e.authority@)
}

/// The mapping from derived-address keys to records that a sequence of
/// entries represents; a later entry overrides an earlier one with the same
/// key.
spec fn map_of(s: Seq<TypeMappingEntry>) -> Map<(Seq<u8>, Seq<u8>), IntersolarTypeMapper>
    decreases s.len(),
{
    if s.len() == 0 {
        Map::empty()
    } else {
        map_of(s.drop_last()).insert(entry_key(s.last()), s.last().record)
    }
}

/// No two entries share a key.
spec fn distinct_keys(s: Seq<TypeMappingEntry>) -> bool {
    forall|i: int, j: int| 0 <= i < j < s.len() ==> entry_key(s[i]) != entry_key(s[j])
}

proof fn lemma_map_of_contains(s: Seq<TypeMappingEntry>, k: (Seq<u8>, Seq<u8>))
    ensures
        map_of(s).contains_key(k) <==> exists|i: int| 0 <= i < s.len() && entry_key(s[i]) == k,
    decreases s.len(),
{
    if s.len() > 0 {
        lemma_map_of_contains(s.drop_last(), k);
        assert(forall|i: int| 0 <= i < s.len() - 1 ==> s.drop_last()[i] == s[i]);
        if entry_key(s.last()) == k {
            assert(entry_key(s[s.len() - 1]) == k);
        } else {
            if map_of(s).contains_key(k) {
                let i = choose|i: int| 0 <= i < s.drop_last().len() && entry_key(
                    s.drop_last()[i],
                ) == k;
                assert(entry_key(s[i]) == k);
            }
            if exists|i: int| 0 <= i < s.len() && entry_key(s[i]) == k {
                let i = choose|i: int| 0 <= i < s.len() && entry_key(s[i]) == k;
                assert(i < s.len() - 1);
                assert(entry_key(s.drop_last()[i]) == k);
            }
        }
    }
}

proof fn lemma_map_of_index(s: Seq<TypeMappingEntry>, i: int)
    requires
        distinct_keys(s),
        0 <= i < s.len(),
    ensures
        map_of(s).contains_key(entry_key(s[i])),
        map_of(s)[entry_key(s[i])] == s[i].record,
    decreases s.len(),
{
    if i == s.len() - 1 {
    } else {
        assert(forall|j: int| 0 <= j < s.len() - 1 ==> s.drop_last()[j] == s[j]);
        lemma_map_of_index(s.drop_last(), i);
        assert(entry_key(s[i]) != entry_key(s[s.len() - 1]));
    }
}

proof fn lemma_map_of_update(s: Seq<TypeMappingEntry>, i: int, e: TypeMappingEntry)
    requires
        distinct_keys(s),
        0 <= i < s.len(),
        entry_key(e) == entry_key(s[i]),
    ensures
        map_of(s.update(i, e)) == map_of(s).insert(entry_key(e), e.record),
    decreases s.len(),
{
    let t = s.update(i, e);
    if i == s.len() - 1 {
        assert(t.drop_last() =~= s.drop_last());
        assert(t.last() == e);
        assert(map_of(s.drop_last()).insert(entry_key(e), e.record) =~= map_of(
            s.drop_last(),
        ).insert(entry_key(s.last()), s.last().record).insert(entry_key(e), e.record));
    } else {
        assert(forall|j: int| 0 <= j < s.len() - 1 ==> s.drop_last()[j] == s[j]);
        assert(t.drop_last() =~= s.drop_last().update(i, e));
        assert(t.last() == s.last());
        lemma_map_of_update(s.drop_last(), i, e);
        assert(entry_key(e) != entry_key(s.last()));
        assert(map_of(s.drop_last()).insert(entry_key(e), e.record).insert(
            entry_key(s.last()),
            s.last().record,
        ) =~= map_of(s.drop_last()).insert(entry_key(s.last()), s.last().record).insert(
            entry_key(e),
            e.record,
        ));
    }
}

/// The type-mapping registry: a mapping-from-key-to-record store whose keys
/// are the derived addresses of the records it holds. Exactly one record
/// exists per `(symbol, authority)` pair.
pub struct TypeMappingRegistry {
    entries: Vec<TypeMappingEntry>,
}

impl View for TypeMappingRegistry {
    type V = Map<(Seq<u8>, Seq<u8>), IntersolarTypeMapper>;

    closed spec fn view(&self) -> Map<(Seq<u8>, Seq<u8>), IntersolarTypeMapper> {
        map_of(self.entries@)
    }
}

/// The outcome of `TypeMappingRegistry::initialize`: the supplied salt must
/// reproduce the derived address, and no record may exist at it yet.
pub open spec fn tm_initialize_result(
    m: Map<(Seq<u8>, Seq<u8>), IntersolarTypeMapper>,
    bump: u8,
    symbol: Seq<u8>,
    authority: Seq<u8>,
) -> Result<(), ErrorCode> {
    if bump != type_mapper_salt(symbol, authority) {
        Err(ErrorCode::AddressDerivationMismatch)
    } else if m.contains_key((symbol, authority)) {
        Err(ErrorCode::AlreadyExists)
    } else {
        Ok(())
    }
}

/// The registry state after `TypeMappingRegistry::initialize`: one new
/// record on success, the old state unchanged on failure.
pub open spec fn tm_initialize_state(
    m: Map<(Seq<u8>, Seq<u8>), IntersolarTypeMapper>,
    bump: u8,
    symbol: Seq<u8>,
    authority: Seq<u8>,
    type_code: u8,
) -> Map<(Seq<u8>, Seq<u8>), IntersolarTypeMapper> {
    if tm_initialize_result(m, bump, symbol, authority) is Ok {
        m.insert((symbol, authority), (IntersolarTypeMapper { type_code, bump }))
    } else {
        m
    }
}

/// The outcome of `TypeMappingRegistry::update`: the record must already
/// exist at the address derived from the caller's key material.
pub open spec fn tm_update_result(
    m: Map<(Seq<u8>, Seq<u8>), IntersolarTypeMapper>,
    symbol: Seq<u8>,
    authority: Seq<u8>,
) -> Result<(), ErrorCode> {
    if m.contains_key((symbol, authority)) {
        Ok(())
    } else {
        Err(ErrorCode::NotFound)
    }
}

/// The registry state after `TypeMappingRegistry::update`: the type code is
/// overwritten and the stored salt kept on success; unchanged on failure.
pub open spec fn tm_update_state(
    m: Map<(Seq<u8>, Seq<u8>), IntersolarTypeMapper>,
    symbol: Seq<u8>,
    authority: Seq<u8>,
    type_code: u8,
) -> Map<(Seq<u8>, Seq<u8>), IntersolarTypeMapper> {
    if m.contains_key((symbol, authority)) {
        m.insert(
            (symbol, authority),
            (IntersolarTypeMapper { type_code, bump: m[(symbol, authority)].bump }),
        )
    } else {
        m
    }
}

/// What `TypeMappingRegistry::load` returns: the record at the derived
/// address, if one exists.
pub open spec fn tm_load(
    m: Map<(Seq<u8>, Seq<u8>), IntersolarTypeMapper>,
    symbol: Seq<u8>,
    authority: Seq<u8>,
) -> Option<IntersolarTypeMapper> {
    if m.contains_key((symbol, authority)) {
        Some(m[(symbol, authority)])
    } else {
        None
    }
}

impl TypeMappingRegistry {
    /// The registry's entries hold pairwise distinct keys.
    pub closed spec fn wf(&self) -> bool {
        distinct_keys(self.entries@)
    }

    /// An empty registry.
    pub fn new() -> (r: TypeMappingRegistry)
        ensures
            r.wf(),
            r@ == Map::<(Seq<u8>, Seq<u8>), IntersolarTypeMapper>::empty(),
    {
        TypeMappingRegistry { entries: Vec::new() }
    }

    /// The position of the entry with the given key, if any.
    fn find(&self, symbol: &Vec<u8>, authority: &Pubkey) -> (r: Option<usize>)
        ensures
            match r {
                Some(i) => i < self.entries@.len() && entry_key(self.entries@[i as int]) == (
                    symbol@,
                    authority@,
                ),
                None => forall|i: int|
                    0 <= i < self.entries@.len() ==> entry_key(self.entries@[i]) != (
                        symbol@,
                        authority@,
                    ),
            },
    {
        let mut i: usize = 0;
        while i < self.entries.len()
            invariant
                0 <= i <= self.entries@.len(),
                forall|j: int|
                    0 <= j < i ==> entry_key(self.entries@[j]) != (symbol@, authority@),
            decreases self.entries@.len() - i,
        {
            let e = &self.entries[i];
            if bytes_eq(&e.symbol, symbol) && e.authority == *authority {
                return Some(i);
            }
            i = i + 1;
        }
        None
    }

    /// Creates the type-mapping record for `(symbol, authority)`.
    ///
    /// The supplied `bump` must reproduce the derived address, or the call
    /// fails with `AddressDerivationMismatch`; a record that already exists
    /// at that address fails the call with `AlreadyExists`. On success the
    /// new record holds `type_code` and the salt; on failure the registry is
    /// unchanged.
    pub fn initialize(
        &mut self,
        bump: u8,
        symbol: Vec<u8>,
        authority: Pubkey,
        type_code: u8,
    ) -> (r: Result<(), ErrorCode>)
        requires
            old(self).wf(),
        ensures
            final(self).wf(),
            r == tm_initialize_result(old(self)@, bump, symbol@, authority@),
            final(self)@ == tm_initialize_state(old(self)@, bump, symbol@, authority@, type_code),
    {
        let expected = derive_type_mapper_salt(&symbol, &authority);
        if bump != expected {
            return Err(ErrorCode::AddressDerivationMismatch);
        }
        proof {
            lemma_map_of_contains(self.entries@, (symbol@, authority@));
        }
        match self.find(&symbol, &authority) {
            Some(_) => Err(ErrorCode::AlreadyExists),
            None => {
                let ghost before = self.entries@;
                let entry = TypeMappingEntry {
                    symbol,
                    authority,
                    record: IntersolarTypeMapper { type_code, bump },
                };
                self.entries.push(entry);
                proof {
                    assert(self.entries@.drop_last() =~= before);
                    assert(forall|i: int, j: int|
                        0 <= i < j < self.entries@.len() ==> entry_key(self.entries@[i])
                            != entry_key(self.entries@[j])) by {
                        assert(forall|i: int|
                            0 <= i < before.len() ==> self.entries@[i] == before[i]);
                    }
                }
                Ok(())
            },
        }
    }

    /// Overwrites the type code of the record for `(symbol, authority)`.
    ///
    /// An operation issued under an authority that never created a mapping
    /// for the symbol derives an address where no record exists and fails
    /// with `NotFound`; no dedicated permission error exists. On failure the
    /// registry is unchanged.
    pub fn update(
        &mut self,
        symbol: &Vec<u8>,
        authority: &Pubkey,
        type_code: u8,
    ) -> (r: Result<(), ErrorCode>)
        requires
            old(self).wf(),
        ensures
            final(self).wf(),
            r == tm_update_result(old(self)@, symbol@, authority@),
            final(self)@ == tm_update_state(old(self)@, symbol@, authority@, type_code),
    {
        proof {
            lemma_map_of_contains(self.entries@, (symbol@, authority@));
        }
        match self.find(symbol, authority) {
            None => Err(ErrorCode::NotFound),
            Some(i) => {
                let ghost before = self.entries@;
                proof {
                    lemma_map_of_index(self.entries@, i as int);
                }
                let bump = self.entries[i].record.bump;
                let e = &mut self.entries[i];
                e.record = IntersolarTypeMapper { type_code, bump };
                proof {
                    let updated = TypeMappingEntry {
                        record: IntersolarTypeMapper { type_code, bump },
                        ..before[i as int]
                    };
                    assert(self.entries@ =~= before.update(i as int, updated));
                    assert(forall|i2: int, j2: int|
                        0 <= i2 < j2 < self.entries@.len() ==> entry_key(self.entries@[i2])
                            != entry_key(self.entries@[j2])) by {
                        assert(forall|j2: int|
                            0 <= j2 < before.len() && j2 != i ==> self.entries@[j2] == before[j2]);
                        assert(entry_key(self.entries@[i as int]) == entry_key(before[i as int]));
                    }
                    lemma_map_of_update(before, i as int, updated);
                }
                Ok(())
            },
        }
    }

    /// Loads the record for `(symbol, authority)`, if one exists.
    pub fn load(&self, symbol: &Vec<u8>, authority: &Pubkey) -> (r: Option<IntersolarTypeMapper>)
        requires
            self.wf(),
        ensures
            r == tm_load(self@, symbol@, authority@),
    {
        proof {
            lemma_map_of_contains(self.entries@, (symbol@, authority@));
        }
        match self.find(symbol, authority) {
            None => None,
            Some(i) => {
                proof {
                    lemma_map_of_index(self.entries@, i as int);
                }
                Some(self.entries[i].record)
            },
        }
    }
}

/// Law: after a successful create of a mapping, a load at the same key
/// returns the record that was stored, holding the supplied type code; a
/// second create at the same key, with the correctly derived salt, fails
/// with `AlreadyExists` and leaves the registry unchanged.
pub proof fn lemma_create_then_load(
    m: Map<(Seq<u8>, Seq<u8>), IntersolarTypeMapper>,
    bump: u8,
    symbol: Seq<u8>,
    authority: Seq<u8>,
    type_code: u8,
    bump2: u8,
    type_code2: u8,
)
    requires
        tm_initialize_result(m, bump, symbol, authority) is Ok,
        bump2 == type_mapper_salt(symbol, authority),
    ensures
        ({
            let m1 = tm_initialize_state(m, bump, symbol, authority, type_code);
            &&& tm_load(m1, symbol, authority) == Some((IntersolarTypeMapper { type_code, bump }))
            &&& tm_initialize_result(m1, bump2, symbol, authority) == Err::<(), ErrorCode>(
                ErrorCode::AlreadyExists,
            )
            &&& tm_initialize_state(m1, bump2, symbol, authority, type_code2) == m1
        }),
{
}

/// Law: a mapping created under one authority is never reachable by an
/// update issued under a different authority for the same symbol. When that
/// other authority has no mapping of its own, the update fails with
/// `NotFound` and changes nothing; whatever happens, the record created
/// under the first authority keeps the type code it was created with.
pub proof fn lemma_authority_isolation(
    m: Map<(Seq<u8>, Seq<u8>), IntersolarTypeMapper>,
    bump: u8,
    symbol: Seq<u8>,
    a1: Seq<u8>,
    a2: Seq<u8>,
    type_code: u8,
    type_code2: u8,
)
    requires
        a1 != a2,
        tm_initialize_result(m, bump, symbol, a1) is Ok,
    ensures
        ({
            let m1 = tm_initialize_state(m, bump, symbol, a1, type_code);
            &&& !m.contains_key((symbol, a2)) ==> {
                &&& tm_update_result(m1, symbol, a2) == Err::<(), ErrorCode>(ErrorCode::NotFound)
                &&& tm_update_state(m1, symbol, a2, type_code2) == m1
            }
            &&& tm_update_state(m1, symbol, a2, type_code2).contains_key((symbol, a1))
            &&& tm_update_state(m1, symbol, a2, type_code2)[(symbol, a1)] == (IntersolarTypeMapper {
                type_code,
                bump,
            })
        }),
{
}

} // verus!
