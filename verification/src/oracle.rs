//! From the answer of the time oracle to a latency sample.

use crate::histogram::{latency_between, LatencyCollector};
use vstd::prelude::*;
use vstd::string::StringSliceAdditionalSpecFns;

verus! {

/// Why the oracle gave no reference time for a slot.
#[derive(Clone, Copy, Debug, PartialEq, Eq, Structural)]
pub enum OracleError {
    /// The oracle does not know the slot's time yet.
    NotYetAvailable,
    /// Any other failure.
    Other,
}

/// The sample that a lookup yields for a slot first seen at `observed_ms`:
/// the clamped latency where the oracle gave a reference time, zero where
/// the time is not yet available, none on any other failure.
pub open spec fn sample_of(observed_ms: u64, looked_up: Result<u64, OracleError>) -> Option<u64> {
    match looked_up {
        Ok(reference_ms) => Some(latency_between(reference_ms, observed_ms)),
        Err(OracleError::NotYetAvailable) => Some(0),
        Err(OracleError::Other) => None,
    }
}

/// The samples held after a lookup: one more where the lookup yields a
/// sample, the same otherwise.
pub open spec fn recorded_after(
    samples: Seq<u64>,
    observed_ms: u64,
    looked_up: Result<u64, OracleError>,
) -> Seq<u64> {
    match sample_of(observed_ms, looked_up) {
        Some(sample) => samples.push(sample),
        None => samples,
    }
}

/// A time in seconds as milliseconds, held at `u64::MAX` where it does not
/// fit.
pub open spec fn millis_of(seconds: u64) -> u64 {
    if seconds * 1000 > u64::MAX {
        u64::MAX
    } else {
        (seconds * 1000) as u64
    }
}

/// The reference time that the oracle gave in seconds, in milliseconds.
pub fn millis_from_seconds(seconds: u64) -> (millis: u64)
    ensures
        millis == millis_of(seconds),
{
    if seconds > u64::MAX / 1000 {
        u64::MAX
    } else {
        seconds * 1000
    }
}

/// The sample for a slot first seen at `observed_ms`, given what the oracle
/// answered.
pub fn sample_for(observed_ms: u64, looked_up: Result<u64, OracleError>) -> (sample: Option<u64>)
    ensures
        sample == sample_of(observed_ms, looked_up),
{
    match looked_up {
        Ok(reference_ms) => Some(observed_ms.saturating_sub(reference_ms)),
        Err(OracleError::NotYetAvailable) => Some(0),
        Err(OracleError::Other) => None,
    }
}

/// Feeds the outcome of one lookup to `collector` and returns the sample
/// that was recorded, if any.
pub fn record_lookup(
    collector: &mut LatencyCollector,
    observed_ms: u64,
    looked_up: Result<u64, OracleError>,
) -> (recorded: Option<u64>)
    requires
        sample_of(observed_ms, looked_up) is Some ==> old(collector)@.len() < u64::MAX,
    ensures
        recorded == sample_of(observed_ms, looked_up),
        final(collector)@ == recorded_after(old(collector)@, observed_ms, looked_up),
{
    let sample = sample_for(observed_ms, looked_up);
    if let Some(latency) = sample {
        collector.observe(latency);
    }
    sample
}

/// A sample is never a wrapped-around difference: it is zero where the slot
/// was seen before its reference time, and the plain difference otherwise.
pub proof fn lemma_sample_clamped(observed_ms: u64, reference_ms: u64)
    ensures
        observed_ms < reference_ms ==> sample_of(observed_ms, Ok(reference_ms)) == Some(0u64),
        observed_ms >= reference_ms ==> sample_of(observed_ms, Ok(reference_ms)) == Some(
            (observed_ms - reference_ms) as u64,
        ),
{
}

/// A time that is not yet available adds the sample zero; any other failure
/// leaves the number of samples as it was.
pub proof fn lemma_failed_lookup(samples: Seq<u64>, observed_ms: u64)
    ensures
        recorded_after(samples, observed_ms, Err(OracleError::NotYetAvailable)) == samples.push(0),
        recorded_after(samples, observed_ms, Err(OracleError::Other)) == samples,
{
}

/// The words "not available for slot " in bytes. A failure whose message
/// holds them, with the number of the slot right after them, says that the
/// time of the slot is not there yet.
pub open spec fn not_available_words() -> Seq<u8> {
    seq![
        110u8, 111, 116, 32, 97, 118, 97, 105, 108, 97, 98, 108, 101, 32, 102, 111, 114, 32, 115,
        108, 111, 116, 32,
    ]
}

/// `n` in decimal digits, without leading zeros.
pub open spec fn decimal(n: nat) -> Seq<u8>
    decreases n,
{
    if n < 10 {
        seq![(48 + n) as u8]
    } else {
        decimal(n / 10).push((48 + n % 10) as u8)
    }
}

/// What a failure says of `slot` where its time is not there yet.
pub open spec fn not_available_text(slot: u64) -> Seq<u8> {
    not_available_words() + decimal(slot as nat)
}

/// Whether `needle` stands in `text` from index `at` on.
pub open spec fn stands_at(needle: Seq<u8>, text: Seq<u8>, at: int) -> bool {
    &&& 0 <= at
    &&& at + needle.len() <= text.len()
    &&& forall|j: int| 0 <= j < needle.len() ==> #[trigger] text[at + j] == needle[j]
}

/// Whether `byte` is a decimal digit.
pub open spec fn is_digit(byte: u8) -> bool {
    48 <= byte <= 57
}

/// Whether `message` says from index `at` on that the time of `slot` is not
/// there yet: the words and the number stand there, and no further digit
/// follows the number.
pub open spec fn says_not_available_at(message: Seq<u8>, slot: u64, at: int) -> bool {
    let wanted = not_available_text(slot);
    &&& stands_at(wanted, message, at)
    &&& at + wanted.len() < message.len() ==> !is_digit(message[at + wanted.len()])
}

/// The kind of a failure that the oracle reported for `slot` with `message`.
pub open spec fn failure_kind(message: Seq<u8>, slot: u64) -> OracleError {
    if exists|at: int| says_not_available_at(message, slot, at) {
        OracleError::NotYetAvailable
    } else {
        OracleError::Other
    }
}

/// What a reply of the oracle for `slot` amounts to. The reply is a time in
/// seconds, or else a failure with `message`.
pub open spec fn reply_outcome(seconds: Option<u64>, message: Seq<u8>, slot: u64) -> Result<
    u64,
    OracleError,
> {
    match seconds {
        Some(seconds) => Ok(millis_of(seconds)),
        None => Err(failure_kind(message, slot)),
    }
}

/// `n` in decimal digits.
pub fn decimal_digits(n: u64) -> (digits: Vec<u8>)
    ensures
        digits@ == decimal(n as nat),
    decreases n,
{
    if n < 10 {
        let mut digits: Vec<u8> = Vec::new();
        digits.push(48 + n as u8);
        assert(digits@ =~= decimal(n as nat));
        digits
    } else {
        let mut digits = decimal_digits(n / 10);
        digits.push(48 + (n % 10) as u8);
        digits
    }
}

/// Whether `needle` stands in `text` from index `at` on.
fn stands_here(needle: &[u8], text: &[u8], at: usize) -> (here: bool)
    requires
        at + needle@.len() <= text@.len() <= usize::MAX,
    ensures
        here == stands_at(needle@, text@, at as int),
{
    let mut j: usize = 0;
    while j < needle.len()
        invariant
            j <= needle@.len(),
            at + needle@.len() <= text@.len() <= usize::MAX,
            forall|k: int| 0 <= k < j ==> #[trigger] text@[at + k] == needle@[k],
        decreases needle.len() - j,
    {
        if text[at + j] != needle[j] {
            return false;
        }
        j += 1;
    }
    true
}

/// The kind of a failure that the oracle reported for `slot` with `message`.
pub fn classify_failure(message: &str, slot: u64) -> (kind: OracleError)
    ensures
        kind == failure_kind(message.spec_bytes(), slot),
{
    let mut wanted: Vec<u8> = Vec::new();
    let words: [u8; 23] = [
        110, 111, 116, 32, 97, 118, 97, 105, 108, 97, 98, 108, 101, 32, 102, 111, 114, 32, 115, 108,
        111, 116, 32,
    ];
    let mut i: usize = 0;
    while i < 23
        invariant
            i <= 23,
            wanted@ == words@.subrange(0, i as int),
        decreases 23 - i,
    {
        wanted.push(words[i]);
        assert(wanted@ =~= words@.subrange(0, i + 1));
        i += 1;
    }
    assert(wanted@ =~= not_available_words());
    let mut digits = decimal_digits(slot);
    wanted.append(&mut digits);
    let text = message.as_bytes();
    if wanted.len() > text.len() {
        return OracleError::Other;
    }
    let span = text.len() - wanted.len();
    let mut at: usize = 0;
    loop
        invariant
            at <= span,
            span + wanted@.len() == text@.len() <= usize::MAX,
            wanted@ == not_available_text(slot),
            text@ == message.spec_bytes(),
            forall|k: int| 0 <= k < at ==> !says_not_available_at(text@, slot, k),
        decreases span - at,
    {
        if stands_here(wanted.as_slice(), text, at) {
            if at == span || !(48 <= text[at + wanted.len()] && text[at + wanted.len()] <= 57) {
                assert(says_not_available_at(text@, slot, at as int));
                return OracleError::NotYetAvailable;
            }
        }
        if at == span {
            return OracleError::Other;
        }
        at += 1;
    }
}

/// The reference time in milliseconds that a reply of the oracle for `slot`
/// gives, or the kind of its failure. `seconds` is the time that the reply
/// carries, if it carries one; `message` is the message of its failure.
pub fn reference_time(seconds: Option<u64>, message: &str, slot: u64) -> (outcome: Result<
    u64,
    OracleError,
>)
    ensures
        outcome == reply_outcome(seconds, message.spec_bytes(), slot),
{
    match seconds {
        Some(seconds) => Ok(millis_from_seconds(seconds)),
        None => Err(classify_failure(message, slot)),
    }
}

} // verus!
