use vstd::prelude::*;

use crate::constants::FEDILINK_SHORT_CODE_LENGTH;

verus! {

#[verifier::external_type_specification]
#[verifier::external_body]
pub struct ExRandomError(getrandom::Error);

/// The system source of random bytes, seen as the record of what it has
/// handed out so far (a ghost record: nothing is kept at run time).
pub struct RandomSource {
    drawn: Ghost<Seq<Seq<u8>>>,
}

impl RandomSource {
    /// The byte strings handed out by this source, oldest first.
    pub closed spec fn drawn(&self) -> Seq<Seq<u8>> {
        self.drawn@
    }

    /// A source that has handed out nothing yet.
    pub fn new() -> (source: Self)
        ensures
            source.drawn() == Seq::<Seq<u8>>::empty(),
    {
        RandomSource { drawn: Ghost(Seq::empty()) }
    }
}

/// Calls `getrandom::getrandom` on a fresh buffer of
/// `FEDILINK_SHORT_CODE_LENGTH` bytes and hands the buffer back on success.
/// Trusted: the bytes handed back are recorded, as the latest draw, in
/// `source`'s record of what the system source has handed out; a failed call
/// records nothing. Which bytes come back, and whether the system source of
/// randomness answers at all, depends on the machine and is not stated.
#[verifier::external_body]
pub(crate) fn random_bytes(source: &mut RandomSource) -> (res: Result<
    [u8; FEDILINK_SHORT_CODE_LENGTH],
    getrandom::Error,
>)
    ensures
        match res {
            Ok(bytes) => final(source).drawn() == old(source).drawn().push(bytes@),
            Err(_) => final(source).drawn() == old(source).drawn(),
        },
{
    let mut buf = [0u8; FEDILINK_SHORT_CODE_LENGTH];
    getrandom::getrandom(&mut buf)?;
    Ok(buf)
}

} // verus!
