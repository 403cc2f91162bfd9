use vstd::prelude::*;
use crate::errors::ErrorCode;
use crate::intersolar::{view_wf, Intersolar, IntersolarView, MAX_NAME_LENGTH};
use crate::keys::Pubkey;
use crate::type_mapper::IntersolarTypeMapper;

verus! {

/// The eight-byte discriminator that opens a serialized type-mapping
/// record.
pub open spec fn type_mapper_discriminator() -> Seq<u8> {
    seq![116u8, 121u8, 112u8, 101u8, 109u8, 97u8, 112u8, 114u8]
}

/// The eight-byte discriminator that opens a serialized object record.
pub open spec fn object_discriminator() -> Seq<u8> {
    seq![105u8, 110u8, 116u8, 114u8, 115u8, 111u8, 108u8, 114u8]
}

/// The persisted layout of a type-mapping record: discriminator, type
/// code, derivation salt.
pub open spec fn type_mapper_record_bytes(rec: IntersolarTypeMapper) -> Seq<u8> {
    type_mapper_discriminator() + seq![rec.type_code, rec.bump]
}

/// The display-name field of the persisted object layout: one presence
/// byte, and for a present name its little-endian four-byte length and its
/// bytes.
pub open spec fn name_field_bytes(name: Option<Seq<u8>>) -> Seq<u8> {
    match name {
        None => seq![0u8],
        Some(n) => seq![1u8, n.len() as u8, 0u8, 0u8, 0u8] + n,
    }
}

/// The persisted layout of an object record: discriminator, asset
/// identity, type code, display-name field, derivation salt.
pub open spec fn object_record_bytes(o: IntersolarView) -> Seq<u8> {
    object_discriminator() + o.mint + seq![o.type_code] + name_field_bytes(o.name) + seq![o.bump]
}

/// What decoding a type-mapping record yields: the record exactly when the
/// bytes are its full layout, and `Uninitialized` otherwise.
pub open spec fn type_mapper_record_of(data: Seq<u8>) -> Result<IntersolarTypeMapper, ErrorCode> {
    if data.len() == 10 && data.subrange(0, 8) == type_mapper_discriminator() {
        Ok(IntersolarTypeMapper { type_code: data[8], bump: data[9] })
    } else {
        Err(ErrorCode::Uninitialized)
    }
}

/// What decoding an object record yields: the record exactly when the
/// bytes are its full layout, and `Uninitialized` otherwise.
pub open spec fn object_record_of(data: Seq<u8>) -> Result<IntersolarView, ErrorCode> {
    if data.len() < 43 {
        Err(ErrorCode::Uninitialized)
    } else if data.subrange(0, 8) != object_discriminator() {
        Err(ErrorCode::Uninitialized)
    } else if data[41] == 0 {
        if data.len() == 43 {
            Ok(
                IntersolarView {
                    mint: data.subrange(8, 40),
                    type_code: data[40],
                    name: None,
                    bump: data[42],
                },
            )
        } else {
            Err(ErrorCode::Uninitialized)
        }
    } else if data[41] == 1 {
        if data.len() < 47 {
            Err(ErrorCode::Uninitialized)
        } else {
            let n = data[42] as int;
            if n <= MAX_NAME_LENGTH && data[43] == 0 && data[44] == 0 && data[45] == 0
                && data.len() == 47 + n {
                Ok(
                    IntersolarView {
                        mint: data.subrange(8, 40),
                        type_code: data[40],
                        name: Some(data.subrange(46, 46 + n)),
                        bump: data[46 + n],
                    },
                )
            } else {
                Err(ErrorCode::Uninitialized)
            }
        }
    } else {
        Err(ErrorCode::Uninitialized)
    }
}

/// Appends the bytes of `bytes` to `out`.
fn append_bytes(out: &mut Vec<u8>, bytes: &Vec<u8>)
    ensures
        final(out)@ == old(out)@ + bytes@,
{
    let mut i: usize = 0;
    while i < bytes.len()
        invariant
            0 <= i <= bytes@.len(),
            out@ == old(out)@ + bytes@.subrange(0, i as int),
        decreases bytes@.len() - i,
    {
        out.push(bytes[i]);
        proof {
            assert(old(out)@ + bytes@.subrange(0, i as int) + seq![bytes@[i as int]] =~= old(
                out,
            )@ + bytes@.subrange(0, i + 1));
        }
        i = i + 1;
    }
    proof {
        assert(out@ =~= old(out)@ + bytes@);
    }
}

/// Serializes a type-mapping record into its persisted layout.
pub fn serialize_type_mapper(rec: &IntersolarTypeMapper) -> (r: Vec<u8>)
    ensures
        r@ == type_mapper_record_bytes(*rec),
{
    let mut out: Vec<u8> = Vec::new();
    out.push(116);
    out.push(121);
    out.push(112);
    out.push(101);
    out.push(109);
    out.push(97);
    out.push(112);
    out.push(114);
    out.push(rec.type_code);
    out.push(rec.bump);
    proof {
        assert(out@ =~= type_mapper_record_bytes(*rec));
    }
    out
}

/// Decodes a type-mapping record from its persisted layout; bytes that do
/// not hold the full layout are rejected as `Uninitialized`.
pub fn deserialize_type_mapper(data: &Vec<u8>) -> (r: Result<IntersolarTypeMapper, ErrorCode>)
    ensures
        r == type_mapper_record_of(data@),
{
    if data.len() != 10 {
        return Err(ErrorCode::Uninitialized);
    }
    let disc_ok = data[0] == 116 && data[1] == 121 && data[2] == 112 && data[3] == 101 && data[4]
        == 109 && data[5] == 97 && data[6] == 112 && data[7] == 114;
    proof {
        if disc_ok {
            assert(data@.subrange(0, 8) =~= type_mapper_discriminator());
        } else {
            assert(forall|i: int| 0 <= i < 8 ==> data@.subrange(0, 8)[i] == data@[i]);
        }
    }
    if !disc_ok {
        return Err(ErrorCode::Uninitialized);
    }
    Ok(IntersolarTypeMapper { type_code: data[8], bump: data[9] })
}

/// Serializes an object record into its persisted layout.
pub fn serialize_object(o: &Intersolar) -> (r: Vec<u8>)
    requires
        o.wf(),
    ensures
        r@ == object_record_bytes(o@),
{
    let mut out: Vec<u8> = Vec::new();
    out.push(105);
    out.push(110);
    out.push(116);
    out.push(114);
    out.push(115);
    out.push(111);
    out.push(108);
    out.push(114);
    proof {
        assert(out@ =~= object_discriminator());
    }
    append_bytes(&mut out, o.mint.as_bytes());
    out.push(o.type_code);
    let ghost prefix = object_discriminator() + o@.mint + seq![o@.type_code];
    proof {
        assert(out@ =~= prefix);
    }
    match &o.name {
        None => {
            out.push(0);
            proof {
                assert(out@ =~= prefix + name_field_bytes(o@.name));
            }
        },
        Some(n) => {
            out.push(1);
            out.push(n.len() as u8);
            out.push(0);
            out.push(0);
            out.push(0);
            append_bytes(&mut out, n);
            proof {
                assert(out@ =~= prefix + name_field_bytes(o@.name));
            }
        },
    }
    out.push(o.bump);
    proof {
        assert(out@ =~= object_record_bytes(o@));
    }
    out
}

/// Decodes an object record from its persisted layout; bytes that do not
/// hold the full layout are rejected as `Uninitialized`.
pub fn deserialize_object(data: &Vec<u8>) -> (r: Result<Intersolar, ErrorCode>)
    ensures
        match object_record_of(data@) {
            Ok(v) => r matches Ok(o) && o@ == v,
            Err(e) => r == Err::<Intersolar, ErrorCode>(e),
        },
{
    if data.len() < 43 {
        return Err(ErrorCode::Uninitialized);
    }
    let disc_ok = data[0] == 105 && data[1] == 110 && data[2] == 116 && data[3] == 114 && data[4]
        == 115 && data[5] == 111 && data[6] == 108 && data[7] == 114;
    proof {
        if disc_ok {
            assert(data@.subrange(0, 8) =~= object_discriminator());
        } else {
            assert(forall|i: int| 0 <= i < 8 ==> data@.subrange(0, 8)[i] == data@[i]);
        }
    }
    if !disc_ok {
        return Err(ErrorCode::Uninitialized);
    }
    let mut mint_bytes: Vec<u8> = Vec::new();
    let mut i: usize = 8;
    while i < 40
        invariant
            8 <= i <= 40,
            data@.len() >= 43,
            mint_bytes@ == data@.subrange(8, i as int),
        decreases 40 - i,
    {
        mint_bytes.push(data[i]);
        proof {
            assert(data@.subrange(8, i as int) + seq![data@[i as int]] =~= data@.subrange(
                8,
                i + 1,
            ));
        }
        i = i + 1;
    }
    let mint = match Pubkey::new(mint_bytes) {
        Some(k) => k,
        None => {
            proof {
                assert(false);
            }
            return Err(ErrorCode::Uninitialized);
        },
    };
    let type_code = data[40];
    let presence = data[41];
    if presence == 0 {
        if data.len() == 43 {
            Ok(Intersolar { mint, type_code, name: None, bump: data[42] })
        } else {
            Err(ErrorCode::Uninitialized)
        }
    } else if presence == 1 {
        if data.len() < 47 {
            return Err(ErrorCode::Uninitialized);
        }
        let n = data[42] as usize;
        if !(n <= MAX_NAME_LENGTH && data[43] == 0 && data[44] == 0 && data[45] == 0 && data.len()
            == 47 + n) {
            return Err(ErrorCode::Uninitialized);
        }
        let mut name: Vec<u8> = Vec::new();
        let mut j: usize = 46;
        while j < 46 + n
            invariant
                46 <= j <= 46 + n,
                n <= MAX_NAME_LENGTH,
                data@.len() == 47 + n,
                name@ == data@.subrange(46, j as int),
            decreases 46 + n - j,
        {
            name.push(data[j]);
            proof {
                assert(data@.subrange(46, j as int) + seq![data@[j as int]] =~= data@.subrange(
                    46,
                    j + 1,
                ));
            }
            j = j + 1;
        }
        Ok(Intersolar { mint, type_code, name: Some(name), bump: data[46 + n] })
    } else {
        Err(ErrorCode::Uninitialized)
    }
}

/// Law: the object decoder accepts only well-formed records: a successful
/// decode yields a full-width asset identity and a name within the length
/// limit.
pub proof fn lemma_object_decode_wf(data: Seq<u8>)
    ensures
        object_record_of(data) matches Ok(v) ==> view_wf(v),
{
}

/// Law: a successful decode pins the bytes: the type-mapping record
/// re-serializes to exactly the bytes it was decoded from.
pub proof fn lemma_type_mapper_decode_encode(data: Seq<u8>)
    ensures
        type_mapper_record_of(data) matches Ok(rec) ==> type_mapper_record_bytes(rec) == data,
{
    match type_mapper_record_of(data) {
        Ok(rec) => {
            assert(type_mapper_record_bytes(rec) =~= data);
        },
        Err(_) => {},
    }
}

/// Law: a successful decode pins the bytes: the object record
/// re-serializes to exactly the bytes it was decoded from.
pub proof fn lemma_object_decode_encode(data: Seq<u8>)
    ensures
        object_record_of(data) matches Ok(v) ==> object_record_bytes(v) == data,
{
    match object_record_of(data) {
        Ok(v) => {
            assert(object_record_bytes(v) =~= data);
        },
        Err(_) => {},
    }
}

/// Law: decoding a serialized type-mapping record returns the record it
/// was serialized from.
pub proof fn lemma_type_mapper_round_trip(rec: IntersolarTypeMapper)
    ensures
        type_mapper_record_of(type_mapper_record_bytes(rec)) == Ok::<
            IntersolarTypeMapper,
            ErrorCode,
        >(rec),
{
    let d = type_mapper_record_bytes(rec);
    assert(d.subrange(0, 8) =~= type_mapper_discriminator());
    assert(d[8] == rec.type_code);
    assert(d[9] == rec.bump);
}

/// Law: decoding a serialized object record returns the record it was
/// serialized from, for every well-formed record.
pub proof fn lemma_object_round_trip(o: IntersolarView)
    requires
        view_wf(o),
    ensures
        object_record_of(object_record_bytes(o)) == Ok::<IntersolarView, ErrorCode>(o),
{
    let d = object_record_bytes(o);
    assert(d.subrange(0, 8) =~= object_discriminator());
    assert(d.subrange(8, 40) =~= o.mint);
    match o.name {
        None => {
            assert(d.len() == 43);
            assert(d[40] == o.type_code);
            assert(d[41] == 0);
            assert(d[42] == o.bump);
        },
        Some(n) => {
            assert(d.len() == 47 + n.len());
            assert(d[40] == o.type_code);
            assert(d[41] == 1);
            assert(d[42] == n.len() as u8);
            assert(d[42] as int == n.len());
            assert(d[43] == 0 && d[44] == 0 && d[45] == 0);
            assert(d.subrange(46, 46 + n.len() as int) =~= n);
            assert(d[46 + n.len() as int] == o.bump);
        },
    }
}

} // verus!
