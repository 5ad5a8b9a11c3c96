//! The calls that this library makes into the Solana runtime crates, each with
//! the contract that it is trusted to meet.
use crate::address::Address;
use vstd::prelude::*;
use vstd::utf8::{decode_utf8, valid_utf8};

verus! {

/// The SHA-256 digest of a byte sequence.
pub uninterp spec fn sha256_of(data: Seq<u8>) -> [u8; 32];

/// The program derived address (and its bump seed) that the runtime finds for
/// the given seeds under the given program id, if it finds one.
pub uninterp spec fn program_address_of(seeds: Seq<Seq<u8>>, program_id: Seq<u8>) -> Option<
    (Seq<u8>, u8),
>;

/// The view of a derived address as the contracts speak of it.
pub open spec fn found_view(r: Option<(Address, u8)>) -> Option<(Seq<u8>, u8)> {
    match r {
        Some((a, bump)) => Some((a@, bump)),
        None => None,
    }
}

/// Relies on `solana_program::hash::hash`: the SHA-256 digest of `data`, which
/// depends on `data` alone.
#[verifier::external_body]
pub(crate) fn sha256(data: &[u8]) -> (r: [u8; 32])
    ensures
        r == sha256_of(data@),
{
    anchor_lang::solana_program::hash::hash(data).to_bytes()
}

/// Relies on `Pubkey::try_find_program_address`: the address depends on the
/// seeds and the program id alone, and none is found when the seeds with the
/// bump seed are more than sixteen or one of them is longer than 32 bytes.
#[verifier::external_body]
pub(crate) fn try_find_program_address(seeds: &Vec<Vec<u8>>, program_id: &Address) -> (r: Option<
    (Address, u8),
>)
    ensures
        found_view(r) == program_address_of(seeds.deep_view(), program_id@),
        seeds@.len() >= 16 ==> r is None,
        (exists|i: int| 0 <= i < seeds@.len() && #[trigger] seeds@[i]@.len() > 32) ==> r is None,
{
    let refs: Vec<&[u8]> = seeds.iter().map(|s| s.as_slice()).collect();
    let program = anchor_lang::prelude::Pubkey::new_from_array(program_id.bytes);
    anchor_lang::prelude::Pubkey::try_find_program_address(&refs, &program).map(
        |(key, bump)| (Address { bytes: key.to_bytes() }, bump),
    )
}

#[verifier::external_type_specification]
#[verifier::external_body]
pub struct ExProgramError(anchor_lang::prelude::ProgramError);

/// Relies on `Clock::get`: the runtime's clock, in seconds since the epoch.
/// What it returns depends on the time and on the runtime, so nothing is
/// promised of it.
#[verifier::external_body]
pub(crate) fn clock_unix_timestamp() -> (r: Result<i64, anchor_lang::prelude::ProgramError>) {
    <anchor_lang::prelude::Clock as anchor_lang::prelude::SolanaSysvar>::get().map(
        |clock| clock.unix_timestamp,
    )
}

/// Relies on `String::from_utf8`: it succeeds exactly on valid UTF-8, and then
/// holds the characters that the bytes encode.
#[verifier::external_body]
pub(crate) fn string_from_utf8(bytes: Vec<u8>) -> (r: Option<String>)
    ensures
        r is Some <==> valid_utf8(bytes@),
        r matches Some(s) ==> s@ == decode_utf8(bytes@),
{
    String::from_utf8(bytes).ok()
}

} // verus!
