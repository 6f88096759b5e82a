//! The relay: read the source, map it, and write the answer over the
//! destination in place, or fail and leave the destination untouched.

use crate::answer::AnswerRecord;
use crate::error::RelayError;
use crate::layout::{Fields, Variant};
use crate::mapper::map_fields;
use crate::source::read_source;
use vstd::prelude::*;

verus! {

/// An account as the relay sees it: the bytes it holds.
#[derive(Clone, Debug, PartialEq, Eq)]
pub struct Account {
    pub data: Vec<u8>,
}

/// What writing `answer` over a destination holding `dest` comes to: the
/// destination's new bytes, or the failure that leaves it as it is.
///
/// The destination must start with a record of the answer's schema, and the
/// answer's encoding must be exactly as long as the destination.
pub open spec fn write_outcome(answer: Fields, dest: Seq<u8>) -> Result<Seq<u8>, RelayError> {
    if Fields::decode_front(answer.variant(), dest) is None {
        Err(RelayError::MalformedDestination)
    } else if answer.bytes().len() != dest.len() {
        Err(RelayError::BufferSizeMismatch)
    } else {
        Ok(answer.bytes())
    }
}

/// What relaying the source bytes `source` into a destination holding `dest`
/// comes to under schema `variant`.
///
/// The source is read first, so a malformed source is reported whatever the
/// destination holds.
pub open spec fn relay_outcome(variant: Variant, source: Seq<u8>, dest: Seq<u8>) -> Result<
    Seq<u8>,
    RelayError,
> {
    match Fields::decode_whole(variant, source) {
        Some(fields) => write_outcome(fields, dest),
        None => Err(RelayError::MalformedSource),
    }
}

/// The bytes a destination holds after a relay: the outcome's bytes where
/// it succeeds, the bytes it held before where it fails.
pub open spec fn relayed(variant: Variant, source: Seq<u8>, dest: Seq<u8>) -> Seq<u8> {
    match relay_outcome(variant, source, dest) {
        Ok(bytes) => bytes,
        Err(_) => dest,
    }
}

/// Idempotence: relaying the same source again ends as the first relay did
/// and leaves the destination as the first relay left it.
pub proof fn lemma_relay_idempotent(variant: Variant, source: Seq<u8>, dest: Seq<u8>)
    ensures
        relay_outcome(variant, source, relayed(variant, source, dest)) == relay_outcome(
            variant,
            source,
            dest,
        ),
        relayed(variant, source, relayed(variant, source, dest)) == relayed(variant, source, dest),
{
    if let Some(fields) = Fields::decode_whole(variant, source) {
        Fields::lemma_decoded_whole_is_encoding(variant, source);
        fields.lemma_round_trip(Seq::empty());
        assert(fields.bytes() + Seq::<u8>::empty() =~= fields.bytes());
    }
}

/// Field fidelity: after a relay that succeeded, the destination has kept
/// its length and decodes to exactly the fields that the source decodes to.
pub proof fn lemma_relay_field_fidelity(variant: Variant, source: Seq<u8>, dest: Seq<u8>)
    requires
        relay_outcome(variant, source, dest) is Ok,
    ensures
        Fields::decode_whole(variant, source) is Some,
        Fields::decode_front(variant, relayed(variant, source, dest)) == Fields::decode_whole(
            variant,
            source,
        ),
        relayed(variant, source, dest).len() == dest.len(),
{
    let fields = Fields::decode_whole(variant, source).unwrap();
    Fields::lemma_decoded_whole_is_encoding(variant, source);
    fields.lemma_round_trip(Seq::empty());
    assert(fields.bytes() + Seq::<u8>::empty() =~= fields.bytes());
}

/// Copies `bytes` over `dest`, byte for byte.
fn overwrite(dest: &mut Vec<u8>, bytes: &Vec<u8>)
    requires
        old(dest)@.len() == bytes@.len(),
    ensures
        final(dest)@ == bytes@,
{
    let n = bytes.len();
    let mut i: usize = 0;
    while i < n
        invariant
            i <= n == bytes@.len() == dest@.len(),
            forall|j: int| 0 <= j < i ==> dest@[j] == bytes@[j],
        decreases n - i,
    {
        dest[i] = bytes[i];
        i += 1;
    }
    assert(dest@ =~= bytes@);
}

/// Writes `answer` over the destination, in place.
///
/// The stored bytes are first decoded under the answer's schema, so that a
/// destination that never held such a record is refused before anything is
/// written. The answer is then encoded, and committed only if its encoding
/// is exactly as long as the destination.
pub fn write_destination(dest: &mut Vec<u8>, answer: &AnswerRecord) -> (r: Result<(), RelayError>)
    requires
        answer@.valid(),
    ensures
        match write_outcome(answer@, old(dest)@) {
            Ok(bytes) => r is Ok && final(dest)@ == bytes,
            Err(e) => r == Err::<(), RelayError>(e) && final(dest)@ == old(dest)@,
        },
{
    match AnswerRecord::decode(answer.variant(), dest.as_slice()) {
        Ok(_) => {},
        Err(e) => return Err(e),
    }
    let encoded = answer.encode();
    if encoded.len() != dest.len() {
        return Err(RelayError::BufferSizeMismatch);
    }
    overwrite(dest, &encoded);
    Ok(())
}

/// Relays the record in `source` into `dest` under schema `variant`.
///
/// On success the destination holds the encoding of the source's fields and
/// has kept its length. On any failure it is unchanged.
pub fn relay(variant: Variant, source: &[u8], dest: &mut Vec<u8>) -> (r: Result<(), RelayError>)
    ensures
        match relay_outcome(variant, source@, old(dest)@) {
            Ok(bytes) => r is Ok && final(dest)@ == bytes,
            Err(e) => r == Err::<(), RelayError>(e) && final(dest)@ == old(dest)@,
        },
        final(dest)@.len() == old(dest)@.len(),
{
    let record = match read_source(variant, source) {
        Ok(record) => record,
        Err(e) => return Err(e),
    };
    proof {
        Fields::lemma_parse_exact(variant, source@);
    }
    let answer = map_fields(record);
    write_destination(dest, &answer)
}

/// The relay entry point: the first account is the source, the second the
/// destination, and nothing else is read.
///
/// With fewer than two accounts the call fails with `MissingAccount`.
/// Otherwise it is [`relay`] from the first account's bytes into the
/// second's. Only the second account's bytes can change, and they change
/// only on success.
pub fn process_instruction(variant: Variant, accounts: &mut Vec<Account>) -> (r: Result<
    (),
    RelayError,
>)
    ensures
        final(accounts)@.len() == old(accounts)@.len(),
        forall|i: int|
            0 <= i < old(accounts)@.len() && i != 1 ==> final(accounts)@[i] == old(accounts)@[i],
        old(accounts)@.len() < 2 ==> r == Err::<(), RelayError>(RelayError::MissingAccount)
            && final(accounts)@ == old(accounts)@,
        old(accounts)@.len() >= 2 ==> match relay_outcome(
            variant,
            old(accounts)@[0].data@,
            old(accounts)@[1].data@,
        ) {
            Ok(bytes) => r is Ok && final(accounts)@[1].data@ == bytes,
            Err(e) => r == Err::<(), RelayError>(e) && final(accounts)@[1].data@ == old(
                accounts,
            )@[1].data@,
        },
{
    if accounts.len() < 2 {
        return Err(RelayError::MissingAccount);
    }
    let record = match read_source(variant, accounts[0].data.as_slice()) {
        Ok(record) => record,
        Err(e) => return Err(e),
    };
    proof {
        Fields::lemma_parse_exact(variant, accounts@[0].data@);
    }
    let answer = map_fields(record);
    write_destination(&mut accounts[1].data, &answer)
}

} // verus!
