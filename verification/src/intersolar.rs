use vstd::prelude::*;
use crate::accounts::{trim_trailing_nulls, trim_nulls, Metadata, MetadataView, Mint, TokenAccount, TokenAccountView};
use crate::unpack::{deserialized_metadata, load_metadata, load_mint, load_token_account, unpacked_mint, unpacked_token_account};
use crate::address::{address_matches, TypeMapperAddress};
use crate::errors::ErrorCode;
use crate::keys::{bytes_eq, Pubkey};
use crate::type_mapper::{IntersolarTypeMapper, TypeMappingRegistry};

verus! {

/// The byte-length limit of a display name.
pub const MAX_NAME_LENGTH: usize = 32;

/// An object record: one per asset. It carries the asset's identity, the
/// type code copied from the type-mapping registry when the record was
/// created, an optional display name, and the derivation salt of the
/// record's address.
#[derive(Debug)]
pub struct Intersolar {
    /// The identity of the asset this record belongs to; never changes
    /// after creation.
    pub mint: Pubkey,
    /// The type code, copied at creation time; later changes to the
    /// type-mapping record do not alter it.
    pub type_code: u8,
    /// The display name, changeable by any current holder of the asset.
    pub name: Option<Vec<u8>>,
    /// The derivation salt of the record's address.
    pub bump: u8,
}

/// The mathematical value of an object record.
pub ghost struct IntersolarView {
    pub mint: Seq<u8>,
    pub type_code: u8,
    pub name: Option<Seq<u8>>,
    pub bump: u8,
}

impl View for Intersolar {
    type V = IntersolarView;

    open spec fn view(&self) -> IntersolarView {
        IntersolarView {
            mint: self.mint@,
            type_code: self.type_code,
            name: match self.name {
                Some(n) => Some(n@),
                None => None,
            },
            bump: self.bump,
        }
    }
}

/// The outcome of a rename against one object record: the checks of the
/// consistency-validation protocol, evaluated in order, first failure wins.
pub open spec fn rename_result(
    obj: IntersolarView,
    mint_key: Seq<u8>,
    holding: TokenAccountView,
    user: Seq<u8>,
    name: Seq<u8>,
) -> Result<(), ErrorCode> {
    if holding.state is Uninitialized {
        Err(ErrorCode::Uninitialized)
    } else if holding.owner != user {
        Err(ErrorCode::OwnerMismatch)
    } else if holding.mint != mint_key {
        Err(ErrorCode::MintMismatch)
    } else if obj.mint != mint_key {
        Err(ErrorCode::MintMismatch)
    } else if holding.amount < 1 {
        Err(ErrorCode::InsufficientAmount)
    } else if name.len() > MAX_NAME_LENGTH {
        Err(ErrorCode::NameTooLong)
    } else {
        Ok(())
    }
}

/// The record after a rename: the display name overwritten on success, and
/// nothing else; the record untouched on failure.
pub open spec fn rename_state(
    obj: IntersolarView,
    mint_key: Seq<u8>,
    holding: TokenAccountView,
    user: Seq<u8>,
    name: Seq<u8>,
) -> IntersolarView {
    if rename_result(obj, mint_key, holding, user, name) is Ok {
        IntersolarView { name: Some(name), ..obj }
    } else {
        obj
    }
}

/// A well-formed object record value: a full-width asset identity and a
/// display name within the length limit.
pub open spec fn view_wf(o: IntersolarView) -> bool {
    &&& o.mint.len() == crate::keys::PUBKEY_LENGTH
    &&& match o.name {
        Some(n) => n.len() <= MAX_NAME_LENGTH,
        None => true,
    }
}

impl Intersolar {
    /// The record is well formed.
    pub open spec fn wf(&self) -> bool {
        view_wf(self@)
    }

    /// Sets the display name of this record, on proof of current holding.
    ///
    /// The caller hands in the holding record for the (asset, holder) pair;
    /// the operation succeeds exactly when the holding is initialized, is
    /// owned by `user`, refers to the same asset as this record, and holds
    /// at least one unit, and the new name is within the length limit.
    pub fn rename(
        &mut self,
        mint_key: &Pubkey,
        holding: &TokenAccount,
        user: &Pubkey,
        name: Vec<u8>,
    ) -> (r: Result<(), ErrorCode>)
        ensures
            r == rename_result(old(self)@, mint_key@, holding@, user@, name@),
            final(self)@ == rename_state(old(self)@, mint_key@, holding@, user@, name@),
    {
        if matches!(holding.state, crate::accounts::AccountState::Uninitialized) {
            return Err(ErrorCode::Uninitialized);
        }
        if !(holding.owner == *user) {
            return Err(ErrorCode::OwnerMismatch);
        }
        if !(holding.mint == *mint_key) {
            return Err(ErrorCode::MintMismatch);
        }
        if !(self.mint == *mint_key) {
            return Err(ErrorCode::MintMismatch);
        }
        if holding.amount < 1 {
            return Err(ErrorCode::InsufficientAmount);
        }
        if name.len() > MAX_NAME_LENGTH {
            return Err(ErrorCode::NameTooLong);
        }
        self.name = Some(name);
        Ok(())
    }
}

/// The key an object record is stored under: its asset identity.
spec fn object_key(o: Intersolar) -> Seq<u8> {
    o.mint@
}

/// The mapping from asset identities to object records that a sequence of
/// records represents; a later record overrides an earlier one with the
/// same asset.
spec fn omap_of(s: Seq<Intersolar>) -> Map<Seq<u8>, IntersolarView>
    decreases s.len(),
{
    if s.len() == 0 {
        Map::empty()
    } else {
        omap_of(s.drop_last()).insert(object_key(s.last()), s.last()@)
    }
}

/// No two records refer to the same asset.
spec fn distinct_objects(s: Seq<Intersolar>) -> bool {
    forall|i: int, j: int| 0 <= i < j < s.len() ==> object_key(s[i]) != object_key(s[j])
}

proof fn lemma_omap_contains(s: Seq<Intersolar>, k: Seq<u8>)
    ensures
        omap_of(s).contains_key(k) <==> exists|i: int| 0 <= i < s.len() && object_key(s[i]) == k,
    decreases s.len(),
{
    if s.len() > 0 {
        lemma_omap_contains(s.drop_last(), k);
        assert(forall|i: int| 0 <= i < s.len() - 1 ==> s.drop_last()[i] == s[i]);
        if object_key(s.last()) == k {
            assert(object_key(s[s.len() - 1]) == k);
        } else {
            if omap_of(s).contains_key(k) {
                let i = choose|i: int| 0 <= i < s.drop_last().len() && object_key(
                    s.drop_last()[i],
                ) == k;
                assert(object_key(s[i]) == k);
            }
            if exists|i: int| 0 <= i < s.len() && object_key(s[i]) == k {
                let i = choose|i: int| 0 <= i < s.len() && object_key(s[i]) == k;
                assert(i < s.len() - 1);
                assert(object_key(s.drop_last()[i]) == k);
            }
        }
    }
}

proof fn lemma_omap_index(s: Seq<Intersolar>, i: int)
    requires
        distinct_objects(s),
        0 <= i < s.len(),
    ensures
        omap_of(s).contains_key(object_key(s[i])),
        omap_of(s)[object_key(s[i])] == s[i]@,
    decreases s.len(),
{
    if i == s.len() - 1 {
    } else {
        assert(forall|j: int| 0 <= j < s.len() - 1 ==> s.drop_last()[j] == s[j]);
        lemma_omap_index(s.drop_last(), i);
        assert(object_key(s[i]) != object_key(s[s.len() - 1]));
    }
}

proof fn lemma_omap_update(s: Seq<Intersolar>, i: int, o: Intersolar)
    requires
        distinct_objects(s),
        0 <= i < s.len(),
        object_key(o) == object_key(s[i]),
    ensures
        omap_of(s.update(i, o)) == omap_of(s).insert(object_key(o), o@),
    decreases s.len(),
{
    let t = s.update(i, o);
    if i == s.len() - 1 {
        assert(t.drop_last() =~= s.drop_last());
        assert(t.last() == o);
        assert(omap_of(s.drop_last()).insert(object_key(o), o@) =~= omap_of(
            s.drop_last(),
        ).insert(object_key(s.last()), s.last()@).insert(object_key(o), o@));
    } else {
        assert(forall|j: int| 0 <= j < s.len() - 1 ==> s.drop_last()[j] == s[j]);
        assert(t.drop_last() =~= s.drop_last().update(i, o));
        assert(t.last() == s.last());
        lemma_omap_update(s.drop_last(), i, o);
        assert(object_key(o) != object_key(s.last()));
        assert(omap_of(s.drop_last()).insert(object_key(o), o@).insert(
            object_key(s.last()),
            s.last()@,
        ) =~= omap_of(s.drop_last()).insert(object_key(s.last()), s.last()@).insert(
            object_key(o),
            o@,
        ));
    }
}

/// The object registry: at most one object record per asset identity,
/// stored under the address derived from that identity.
pub struct ObjectRegistry {
    objects: Vec<Intersolar>,
}

impl View for ObjectRegistry {
    type V = Map<Seq<u8>, IntersolarView>;

    closed spec fn view(&self) -> Map<Seq<u8>, IntersolarView> {
        omap_of(self.objects@)
    }
}

/// The outcome of `ObjectRegistry::initialize`: the cross-record checks of
/// the consistency-validation protocol, evaluated in order, first failure
/// wins.
pub open spec fn object_initialize_result(
    objects: Map<Seq<u8>, IntersolarView>,
    mappings: Map<(Seq<u8>, Seq<u8>), IntersolarTypeMapper>,
    symbol: Seq<u8>,
    mint_key: Seq<u8>,
    mint: Mint,
    metadata: MetadataView,
    update_authority: Seq<u8>,
    reference: crate::address::TypeMapperAddressView,
) -> Result<(), ErrorCode> {
    if !mint.is_initialized {
        Err(ErrorCode::Uninitialized)
    } else if metadata.mint != mint_key {
        Err(ErrorCode::MintMismatch)
    } else if metadata.update_authority != update_authority {
        Err(ErrorCode::UpdateAuthorityMismatch)
    } else if !(mint.decimals == 0 && mint.supply == 1) {
        Err(ErrorCode::NoNFT)
    } else if trim_trailing_nulls(metadata.symbol) != symbol {
        Err(ErrorCode::SymbolMismatch)
    } else if !address_matches(reference, symbol, update_authority) {
        Err(ErrorCode::AddressDerivationMismatch)
    } else if !mappings.contains_key((symbol, update_authority)) {
        Err(ErrorCode::NotFound)
    } else if objects.contains_key(mint_key) {
        Err(ErrorCode::AlreadyExists)
    } else {
        Ok(())
    }
}

/// The registry state after `ObjectRegistry::initialize`: on success,
/// exactly one new record, holding the asset's identity, the type code
/// copied from the type-mapping record, no display name, and the supplied
/// salt; on failure, the old state unchanged.
pub open spec fn object_initialize_state(
    objects: Map<Seq<u8>, IntersolarView>,
    mappings: Map<(Seq<u8>, Seq<u8>), IntersolarTypeMapper>,
    bump: u8,
    symbol: Seq<u8>,
    mint_key: Seq<u8>,
    mint: Mint,
    metadata: MetadataView,
    update_authority: Seq<u8>,
    reference: crate::address::TypeMapperAddressView,
) -> Map<Seq<u8>, IntersolarView> {
    if object_initialize_result(
        objects,
        mappings,
        symbol,
        mint_key,
        mint,
        metadata,
        update_authority,
        reference,
    ) is Ok {
        objects.insert(
            mint_key,
            (IntersolarView {
                mint: mint_key,
                type_code: mappings[(symbol, update_authority)].type_code,
                name: None,
                bump,
            }),
        )
    } else {
        objects
    }
}

/// The outcome of `ObjectRegistry::rename`: the record for the asset must
/// exist, and the rename checks must pass against it.
pub open spec fn object_rename_result(
    objects: Map<Seq<u8>, IntersolarView>,
    mint_key: Seq<u8>,
    holding: TokenAccountView,
    user: Seq<u8>,
    name: Seq<u8>,
) -> Result<(), ErrorCode> {
    if holding.state is Uninitialized {
        Err(ErrorCode::Uninitialized)
    } else if !objects.contains_key(mint_key) {
        Err(ErrorCode::NotFound)
    } else {
        rename_result(objects[mint_key], mint_key, holding, user, name)
    }
}

/// The registry state after `ObjectRegistry::rename`.
pub open spec fn object_rename_state(
    objects: Map<Seq<u8>, IntersolarView>,
    mint_key: Seq<u8>,
    holding: TokenAccountView,
    user: Seq<u8>,
    name: Seq<u8>,
) -> Map<Seq<u8>, IntersolarView> {
    if objects.contains_key(mint_key) {
        objects.insert(mint_key, rename_state(objects[mint_key], mint_key, holding, user, name))
    } else {
        objects
    }
}

impl ObjectRegistry {
    /// The registry's records refer to pairwise distinct assets.
    pub closed spec fn wf(&self) -> bool {
        distinct_objects(self.objects@)
    }

    /// An empty registry.
    pub fn new() -> (r: ObjectRegistry)
        ensures
            r.wf(),
            r@ == Map::<Seq<u8>, IntersolarView>::empty(),
    {
        ObjectRegistry { objects: Vec::new() }
    }

    /// The position of the record for the given asset, if any.
    fn find(&self, mint_key: &Pubkey) -> (r: Option<usize>)
        ensures
            match r {
                Some(i) => i < self.objects@.len() && object_key(self.objects@[i as int])
                    == mint_key@,
                None => forall|i: int|
                    0 <= i < self.objects@.len() ==> object_key(self.objects@[i]) != mint_key@,
            },
    {
        let mut i: usize = 0;
        while i < self.objects.len()
            invariant
                0 <= i <= self.objects@.len(),
                forall|j: int| 0 <= j < i ==> object_key(self.objects@[j]) != mint_key@,
            decreases self.objects@.len() - i,
        {
            if self.objects[i].mint == *mint_key {
                return Some(i);
            }
            i = i + 1;
        }
        None
    }

    /// Loads the record for the given asset, if one exists.
    pub fn load(&self, mint_key: &Pubkey) -> (r: Option<&Intersolar>)
        requires
            self.wf(),
        ensures
            match r {
                Some(o) => self@.contains_key(mint_key@) && o@ == self@[mint_key@],
                None => !self@.contains_key(mint_key@),
            },
    {
        proof {
            lemma_omap_contains(self.objects@, mint_key@);
        }
        match self.find(mint_key) {
            None => None,
            Some(i) => {
                proof {
                    lemma_omap_index(self.objects@, i as int);
                }
                Some(&self.objects[i])
            },
        }
    }

    /// Creates the object record for the asset `mint_key`.
    ///
    /// The caller hands in the asset record, its metadata record, the
    /// claimed authority and a reference to the type-mapping record it
    /// expects to be consulted. The operation cross-checks all of them, in
    /// order, re-derives the type-mapping address from `(symbol,
    /// update_authority)`, and on success copies the registered type code
    /// into the new record; the first failing check aborts the operation
    /// with its specific error and no state change.
    pub fn initialize(
        &mut self,
        bump: u8,
        symbol: Vec<u8>,
        mint_key: Pubkey,
        mint: &Mint,
        metadata: &Metadata,
        update_authority: &Pubkey,
        type_mapper: &TypeMapperAddress,
        mappings: &TypeMappingRegistry,
    ) -> (r: Result<(), ErrorCode>)
        requires
            old(self).wf(),
            mappings.wf(),
        ensures
            final(self).wf(),
            r == object_initialize_result(
                old(self)@,
                mappings@,
                symbol@,
                mint_key@,
                *mint,
                metadata@,
                update_authority@,
                type_mapper@,
            ),
            final(self)@ == object_initialize_state(
                old(self)@,
                mappings@,
                bump,
                symbol@,
                mint_key@,
                *mint,
                metadata@,
                update_authority@,
                type_mapper@,
            ),
    {
        if !mint.is_initialized {
            return Err(ErrorCode::Uninitialized);
        }
        if !(metadata.mint == mint_key) {
            return Err(ErrorCode::MintMismatch);
        }
        if !(metadata.update_authority == *update_authority) {
            return Err(ErrorCode::UpdateAuthorityMismatch);
        }
        if !(mint.decimals == 0 && mint.supply == 1) {
            return Err(ErrorCode::NoNFT);
        }
        let trimmed = trim_nulls(&metadata.symbol);
        if !bytes_eq(&trimmed, &symbol) {
            return Err(ErrorCode::SymbolMismatch);
        }
        if !type_mapper.matches(&symbol, update_authority) {
            return Err(ErrorCode::AddressDerivationMismatch);
        }
        match mappings.load(&symbol, update_authority) {
            None => Err(ErrorCode::NotFound),
            Some(record) => {
                proof {
                    lemma_omap_contains(self.objects@, mint_key@);
                }
                match self.find(&mint_key) {
                    Some(_) => Err(ErrorCode::AlreadyExists),
                    None => {
                        let ghost before = self.objects@;
                        let object = Intersolar {
                            mint: mint_key,
                            type_code: record.type_code,
                            name: None,
                            bump,
                        };
                        self.objects.push(object);
                        proof {
                            assert(self.objects@.drop_last() =~= before);
                            assert(forall|i: int, j: int|
                                0 <= i < j < self.objects@.len() ==> object_key(self.objects@[i])
                                    != object_key(self.objects@[j])) by {
                                assert(forall|i: int|
                                    0 <= i < before.len() ==> self.objects@[i] == before[i]);
                            }
                        }
                        Ok(())
                    },
                }
            },
        }
    }

    /// Sets the display name of the record for the asset `mint_key`, on
    /// proof of current holding; fails with `NotFound` if no record exists
    /// for the asset. On failure the registry is unchanged.
    pub fn rename(
        &mut self,
        mint_key: &Pubkey,
        holding: &TokenAccount,
        user: &Pubkey,
        name: Vec<u8>,
    ) -> (r: Result<(), ErrorCode>)
        requires
            old(self).wf(),
        ensures
            final(self).wf(),
            r == object_rename_result(old(self)@, mint_key@, holding@, user@, name@),
            final(self)@ == object_rename_state(old(self)@, mint_key@, holding@, user@, name@),
    {
        proof {
            lemma_omap_contains(self.objects@, mint_key@);
        }
        if matches!(holding.state, crate::accounts::AccountState::Uninitialized) {
            return Err(ErrorCode::Uninitialized);
        }
        match self.find(mint_key) {
            None => Err(ErrorCode::NotFound),
            Some(i) => {
                let ghost before = self.objects@;
                proof {
                    lemma_omap_index(self.objects@, i as int);
                }
                let object = &mut self.objects[i];
                let r = object.rename(mint_key, holding, user, name);
                proof {
                    let updated = *final(object);
                    assert(self.objects@ =~= before.update(i as int, updated));
                    assert(object_key(updated) == object_key(before[i as int]));
                    assert(forall|i2: int, j2: int|
                        0 <= i2 < j2 < self.objects@.len() ==> object_key(self.objects@[i2])
                            != object_key(self.objects@[j2])) by {
                        assert(forall|j2: int|
                            0 <= j2 < before.len() && j2 != i ==> self.objects@[j2] == before[j2]);
                    }
                    lemma_omap_update(before, i as int, updated);
                }
                r
            },
        }
    }
}

impl ObjectRegistry {
    /// Creates the object record for `mint_key` from the raw bytes of the
    /// asset and metadata records, as the surrounding environment hands
    /// them in. A record that does not parse rejects the operation as
    /// `Uninitialized`; otherwise the parsed records are cross-checked as
    /// in `initialize`.
    pub fn initialize_from_accounts(
        &mut self,
        bump: u8,
        symbol: Vec<u8>,
        mint_key: Pubkey,
        mint_data: &[u8],
        metadata_data: &[u8],
        update_authority: &Pubkey,
        type_mapper: &TypeMapperAddress,
        mappings: &TypeMappingRegistry,
    ) -> (r: Result<(), ErrorCode>)
        requires
            old(self).wf(),
            mappings.wf(),
        ensures
            final(self).wf(),
            match (unpacked_mint(mint_data@), deserialized_metadata(metadata_data@)) {
                (Some(mt), Some(md)) => {
                    let mint = Mint { supply: mt.0, decimals: mt.1, is_initialized: mt.2 };
                    let metadata = MetadataView { update_authority: md.0, mint: md.1, symbol: md.2 };
                    &&& r == object_initialize_result(
                        old(self)@,
                        mappings@,
                        symbol@,
                        mint_key@,
                        mint,
                        metadata,
                        update_authority@,
                        type_mapper@,
                    )
                    &&& final(self)@ == object_initialize_state(
                        old(self)@,
                        mappings@,
                        bump,
                        symbol@,
                        mint_key@,
                        mint,
                        metadata,
                        update_authority@,
                        type_mapper@,
                    )
                },
                _ => r == Err::<(), ErrorCode>(ErrorCode::Uninitialized) && final(self)@ == old(
                    self,
                )@,
            },
    {
        let mint = match load_mint(mint_data) {
            Ok(m) => m,
            Err(e) => {
                return Err(e);
            },
        };
        let metadata = match load_metadata(metadata_data) {
            Ok(md) => md,
            Err(e) => {
                return Err(e);
            },
        };
        self.initialize(
            bump,
            symbol,
            mint_key,
            &mint,
            &metadata,
            update_authority,
            type_mapper,
            mappings,
        )
    }

    /// Sets the display name of the record for the asset `mint_key`, with
    /// the holding handed in as the raw bytes of the holder's token
    /// account. Bytes that do not parse as an initialized holding reject
    /// the operation as `Uninitialized`; otherwise the parsed holding is
    /// checked as in `rename`.
    pub fn rename_from_account(
        &mut self,
        mint_key: &Pubkey,
        token_account_data: &[u8],
        user: &Pubkey,
        name: Vec<u8>,
    ) -> (r: Result<(), ErrorCode>)
        requires
            old(self).wf(),
        ensures
            final(self).wf(),
            match unpacked_token_account(token_account_data@) {
                Some(t) => {
                    let holding = TokenAccountView {
                        mint: t.0,
                        owner: t.1,
                        amount: t.2,
                        state: t.3,
                    };
                    &&& r == object_rename_result(old(self)@, mint_key@, holding, user@, name@)
                    &&& final(self)@ == object_rename_state(
                        old(self)@,
                        mint_key@,
                        holding,
                        user@,
                        name@,
                    )
                },
                None => r == Err::<(), ErrorCode>(ErrorCode::Uninitialized) && final(self)@ == old(
                    self,
                )@,
            },
    {
        let holding = match load_token_account(token_account_data) {
            Ok(h) => h,
            Err(e) => {
                return Err(e);
            },
        };
        self.rename(mint_key, &holding, user, name)
    }
}

/// Law: creating an object succeeds exactly when every check of the
/// protocol passes; then exactly one well-formed record is created, holding
/// the asset's identity, the type code copied from the type-mapping record,
/// no display name, and the supplied salt. On failure nothing changes.
pub proof fn lemma_object_initialize_exact(
    objects: Map<Seq<u8>, IntersolarView>,
    mappings: Map<(Seq<u8>, Seq<u8>), IntersolarTypeMapper>,
    bump: u8,
    symbol: Seq<u8>,
    mint_key: Seq<u8>,
    mint: Mint,
    metadata: MetadataView,
    update_authority: Seq<u8>,
    reference: crate::address::TypeMapperAddressView,
)
    ensures
        object_initialize_result(
            objects,
            mappings,
            symbol,
            mint_key,
            mint,
            metadata,
            update_authority,
            reference,
        ) is Ok <==> {
            &&& mint.is_initialized
            &&& metadata.mint == mint_key
            &&& metadata.update_authority == update_authority
            &&& mint.decimals == 0 && mint.supply == 1
            &&& trim_trailing_nulls(metadata.symbol) == symbol
            &&& address_matches(reference, symbol, update_authority)
            &&& mappings.contains_key((symbol, update_authority))
            &&& !objects.contains_key(mint_key)
        },
        object_initialize_result(
            objects,
            mappings,
            symbol,
            mint_key,
            mint,
            metadata,
            update_authority,
            reference,
        ) is Ok ==> object_initialize_state(
            objects,
            mappings,
            bump,
            symbol,
            mint_key,
            mint,
            metadata,
            update_authority,
            reference,
        ) == objects.insert(
            mint_key,
            (IntersolarView {
                mint: mint_key,
                type_code: mappings[(symbol, update_authority)].type_code,
                name: None,
                bump,
            }),
        ),
        !(object_initialize_result(
            objects,
            mappings,
            symbol,
            mint_key,
            mint,
            metadata,
            update_authority,
            reference,
        ) is Ok) ==> object_initialize_state(
            objects,
            mappings,
            bump,
            symbol,
            mint_key,
            mint,
            metadata,
            update_authority,
            reference,
        ) == objects,
{
}

/// Law: a rename succeeds exactly when the holding record is initialized,
/// shows the claimed holder as owner, refers to the object's asset, and
/// holds at least one unit, and the new name is within the length limit;
/// then the display name is overwritten and nothing else changes. On any
/// failure the record, and in particular its display name, is unchanged.
pub proof fn lemma_rename_exact(
    obj: IntersolarView,
    mint_key: Seq<u8>,
    holding: TokenAccountView,
    user: Seq<u8>,
    name: Seq<u8>,
)
    ensures
        rename_result(obj, mint_key, holding, user, name) is Ok <==> {
            &&& !(holding.state is Uninitialized)
            &&& holding.owner == user
            &&& holding.mint == mint_key
            &&& obj.mint == mint_key
            &&& holding.amount >= 1
            &&& name.len() <= MAX_NAME_LENGTH
        },
        rename_result(obj, mint_key, holding, user, name) is Ok ==> rename_state(
            obj,
            mint_key,
            holding,
            user,
            name,
        ) == (IntersolarView { name: Some(name), ..obj }),
        !(rename_result(obj, mint_key, holding, user, name) is Ok) ==> rename_state(
            obj,
            mint_key,
            holding,
            user,
            name,
        ) == obj,
{
}

/// Law: a successful rename followed by a load returns the new name; a
/// rename whose name exceeds the length limit fails, whatever the other
/// inputs, and leaves the prior name untouched, as does every other failed
/// rename.
pub proof fn lemma_rename_then_load(
    objects: Map<Seq<u8>, IntersolarView>,
    mint_key: Seq<u8>,
    holding: TokenAccountView,
    user: Seq<u8>,
    name: Seq<u8>,
)
    ensures
        object_rename_result(objects, mint_key, holding, user, name) is Ok ==> {
            let m1 = object_rename_state(objects, mint_key, holding, user, name);
            &&& m1.contains_key(mint_key)
            &&& m1[mint_key].name == Some(name)
            &&& m1[mint_key].mint == objects[mint_key].mint
            &&& m1[mint_key].type_code == objects[mint_key].type_code
            &&& m1[mint_key].bump == objects[mint_key].bump
        },
        name.len() > MAX_NAME_LENGTH ==> {
            &&& !(object_rename_result(objects, mint_key, holding, user, name) is Ok)
            &&& object_rename_state(objects, mint_key, holding, user, name) == objects
        },
        !(object_rename_result(objects, mint_key, holding, user, name) is Ok)
            ==> object_rename_state(objects, mint_key, holding, user, name) == objects,
{
    if objects.contains_key(mint_key) {
        if !(rename_result(objects[mint_key], mint_key, holding, user, name) is Ok) {
            assert(object_rename_state(objects, mint_key, holding, user, name) =~= objects);
        }
    }
}

} // verus!
