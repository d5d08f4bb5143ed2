use vstd::prelude::*;

verus! {

/// Length in bytes of a combined threshold signature.
pub const SIGNATURE_LEN: usize = 96;

/// Why a block's seal is refused.
pub enum BlockError {
    InvalidSeal,
}

/// The RLP item of a 96-byte string: the long-string prefix `0xb8`, the
/// length, then the bytes.
pub open spec fn seal_field(sig: Seq<u8>) -> Seq<u8> {
    seq![0xb8u8, 96u8] + sig
}

/// The signature that a seal carries, if it is well formed: exactly one field,
/// holding the RLP item of a 96-byte string.
pub open spec fn seal_signature(seal: Seq<Seq<u8>>) -> Option<Seq<u8>> {
    if seal.len() == 1 && seal[0].len() == 98 && seal[0][0] == 0xb8u8 && seal[0][1] == 96u8 {
        Some(seal[0].subrange(2, 98))
    } else {
        None
    }
}

/// What the verification of a header's seal makes of it before the
/// cryptographic check: a header more than one block ahead of the latest is
/// refused, as is a malformed seal; otherwise the signature to check.
pub open spec fn seal_check(number: u64, latest: u64, seal: Seq<Seq<u8>>) -> Option<Seq<u8>> {
    if number > latest + 1 {
        None
    } else {
        seal_signature(seal)
    }
}

/// The seal of a block: one field, the RLP item of the signature. Only a
/// 96-byte signature that checked out against the block makes a seal.
pub fn seal_for(signature: Option<&Vec<u8>>, verified: bool) -> (r: Option<Vec<Vec<u8>>>)
    ensures
        match r {
            Some(seal) => signature matches Some(sig) && verified && sig@.len() == 96 && seal@.len()
                == 1 && seal@[0]@ == seal_field(sig@),
            None => !(signature matches Some(sig) && verified && sig@.len() == 96),
        },
{
    match signature {
        Some(sig) => {
            if !verified || sig.len() != SIGNATURE_LEN {
                return None;
            }
            let mut field: Vec<u8> = Vec::new();
            field.push(0xb8u8);
            field.push(96u8);
            crate::codec::append_bytes(&mut field, sig);
            assert(field@ =~= seal_field(sig@));
            let mut seal: Vec<Vec<u8>> = Vec::new();
            seal.push(field);
            Some(seal)
        },
        None => None,
    }
}

/// Checks a header's number against the latest block and takes the signature
/// out of its seal, for the cryptographic check that follows.
pub fn check_seal(number: u64, latest: u64, seal: &Vec<Vec<u8>>) -> (r: Result<Vec<u8>, BlockError>)
    ensures
        match r {
            Ok(sig) => seal_check(number, latest, seal@.map_values(|f: Vec<u8>| f@)) == Some(sig@),
            Err(_) => seal_check(number, latest, seal@.map_values(|f: Vec<u8>| f@)) is None,
        },
{
    let ghost fields = seal@.map_values(|f: Vec<u8>| f@);
    if number as u128 > latest as u128 + 1 {
        return Err(BlockError::InvalidSeal);
    }
    if seal.len() != 1 {
        return Err(BlockError::InvalidSeal);
    }
    let field = &seal[0];
    assert(fields[0] == field@);
    if field.len() != 98 || field[0] != 0xb8u8 || field[1] != 96u8 {
        return Err(BlockError::InvalidSeal);
    }
    let mut sig: Vec<u8> = Vec::new();
    let mut i: usize = 2;
    while i < 98
        invariant
            2 <= i <= 98,
            field@.len() == 98,
            sig@ == field@.subrange(2, i as int),
        decreases 98 - i,
    {
        sig.push(field[i]);
        i = i + 1;
        assert(sig@ =~= field@.subrange(2, i as int));
    }
    Ok(sig)
}

/// A seal the engine makes for a block passes the checks of a header that is
/// at most one block ahead of the latest, with the signature it was made of.
pub proof fn lemma_seal_round_trip(sig: Seq<u8>, number: u64, latest: u64)
    requires
        sig.len() == 96,
        number <= latest + 1,
    ensures
        seal_check(number, latest, seq![seal_field(sig)]) == Some(sig),
{
    assert(seal_field(sig).subrange(2, 98) =~= sig);
}

} // verus!
