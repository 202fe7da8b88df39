//! Turning the payload of a batch into records.

use crate::records::{batch_view, AccountKey, Record, RecordView, SubRecord};
use vstd::prelude::*;

verus! {

/// The records that the bytes of a payload stand for, or `None` where the
/// bytes are no list of entries. It stands for what `bincode::deserialize`
/// makes of them as a `Vec` of `solana_entry::entry::Entry`.
pub uninterp spec fn decoded_batch(payload: Seq<u8>) -> Option<Seq<RecordView>>;

/// Decodes `payload` with `bincode::deserialize` as a list of
/// `solana_entry::entry::Entry` and keeps of each transaction what
/// `static_account_keys` gives, byte for byte, and its `Debug` text.
///
/// Not proved: that the outcome depends on the bytes alone, which is all that
/// the contract claims. A failure comes back as the text of the decoder's
/// error, of which nothing is claimed.
#[verifier::external_body]
pub(crate) fn decode_entries(payload: &[u8]) -> (decoded: Result<Vec<Record>, String>)
    ensures
        match decoded {
            Ok(records) => decoded_batch(payload@) == Some(batch_view(records@)),
            Err(_) => decoded_batch(payload@) is None,
        },
{
    match bincode::deserialize::<Vec<solana_entry::entry::Entry>>(payload) {
        Ok(entries) => Ok(
            entries.iter().map(|entry| Record {
                transactions: entry.transactions.iter().map(|transaction| SubRecord {
                    account_keys: transaction.message.static_account_keys().iter().map(
                        |key| AccountKey { bytes: key.to_bytes() },
                    ).collect(),
                    rendered: format!("{:?}", transaction),
                }).collect(),
            }).collect(),
        ),
        Err(error) => Err(error.to_string()),
    }
}

} // verus!
