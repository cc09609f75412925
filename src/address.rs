use vstd::prelude::*;
use anchor_lang::prelude::Pubkey;
use crate::key::Key;

verus! {

/// The namespace tag that, with the owner's key, seeds a counter record's address.
pub const COUNTER_TAG: [u8; 7] = [99, 111, 117, 110, 116, 101, 114];

/// The program address found for `program_id` from the seeds `tag` and
/// `owner`, with the bump seed that produced it; `None` when no bump seed gives
/// an address off the curve.
pub uninterp spec fn found_address_of(program_id: Seq<u8>, tag: Seq<u8>, owner: Seq<u8>) -> Option<
    (Seq<u8>, u8),
>;

/// The program address that `program_id` derives from the seeds `tag`,
/// `owner` and `[bump]`; `None` when those seeds give no valid address.
pub uninterp spec fn program_address_of(
    program_id: Seq<u8>,
    tag: Seq<u8>,
    owner: Seq<u8>,
    bump: u8,
) -> Option<Seq<u8>>;

/// The byte view of an optional key.
pub open spec fn key_option_view(k: Option<Key>) -> Option<Seq<u8>> {
    match k {
        Some(k) => Some(k@),
        None => None,
    }
}

/// The byte view of an optional address with its bump seed.
pub open spec fn found_view(f: Option<(Key, u8)>) -> Option<(Seq<u8>, u8)> {
    match f {
        Some((k, b)) => Some((k@, b)),
        None => None,
    }
}

/// Relies on `Pubkey::try_find_program_address`: the result depends on the
/// seeds and the program id alone, and an address it returns with bump `b` is
/// the one `Pubkey::create_program_address` gives for the seeds followed by `[b]`
/// (the search tries bump seeds through that call and returns its first success).
#[verifier::external_body]
pub(crate) fn find_program_address(program_id: &Key, tag: &[u8; 7], owner: &Key) -> (r: Option<
    (Key, u8),
>)
    ensures
        found_view(r) == found_address_of(program_id@, tag@, owner@),
        r matches Some((a, b)) ==> program_address_of(program_id@, tag@, owner@, b) == Some(a@),
{
    let pid = Pubkey::new_from_array(program_id.bytes);
    Pubkey::try_find_program_address(&[&tag[..], &owner.bytes[..]], &pid).map(
        |(a, b)| (Key { bytes: a.to_bytes() }, b),
    )
}

/// Relies on `Pubkey::create_program_address`: the address derived from the
/// seeds `tag`, `owner`, `[bump]` and the program id, or an error when they give
/// none; the result depends on those values alone.
#[verifier::external_body]
pub(crate) fn create_program_address(program_id: &Key, tag: &[u8; 7], owner: &Key, bump: u8) -> (r:
    Option<Key>)
    ensures
        key_option_view(r) == program_address_of(program_id@, tag@, owner@, bump),
{
    let pid = Pubkey::new_from_array(program_id.bytes);
    match Pubkey::create_program_address(&[&tag[..], &owner.bytes[..], &[bump]], &pid) {
        Ok(a) => Some(Key { bytes: a.to_bytes() }),
        Err(_) => None,
    }
}

} // verus!
