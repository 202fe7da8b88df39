//! The three ways of rendering a decoded batch.

use crate::filter::{lists_shown, AllowedKeysFilter};
use crate::records::{batch_view, count_transactions, transactions_in, Record, RecordView};
use vstd::prelude::*;

verus! {

/// What is done with the batches of a run. One is chosen for the whole run.
#[derive(Clone, Debug)]
pub enum Sink {
    /// Measures how late each slot arrives, once per slot and session.
    LatencyMeasurement,
    /// Shows the transactions that pass the filter, of every batch.
    TransactionFilter(AllowedKeysFilter),
    /// Shows one line of counts for every batch.
    SlotSummary,
}

/// What a sink asks for on one decoded batch.
#[derive(Clone, Debug, PartialEq, Eq)]
pub enum BatchOutput {
    /// Stamp the time and look up the reference time of `slot`.
    Measure { slot: u64 },
    /// Nothing: the slot was measured before in this session.
    Nothing,
    /// Show the transactions at `places`, each the index of a record and the
    /// index of a transaction in it; `rendered` holds their texts in the same
    /// order.
    Transactions { places: Vec<(usize, usize)>, rendered: Vec<String> },
    /// Show the counts of the batch.
    Summary { slot: u64, records: usize, transactions: u128 },
}

/// Whether `output` is what `sink` asks for on `batch`, which arrived for
/// `slot`, seen for the first time in its session exactly if `is_new`.
pub open spec fn output_fits(
    sink: Sink,
    slot: u64,
    is_new: bool,
    batch: Seq<RecordView>,
    output: BatchOutput,
) -> bool {
    match sink {
        Sink::LatencyMeasurement => output == if is_new {
            BatchOutput::Measure { slot }
        } else {
            BatchOutput::Nothing
        },
        Sink::TransactionFilter(filter) => {
            &&& output matches BatchOutput::Transactions { places, rendered }
            &&& lists_shown(filter@, batch, places@)
            &&& texts_of(rendered@) == texts_at(batch, places@)
        },
        Sink::SlotSummary => output == (BatchOutput::Summary {
            slot,
            records: batch.len() as usize,
            transactions: transactions_in(batch) as u128,
        }),
    }
}

/// The texts in `texts` as specifications see them.
pub open spec fn texts_of(texts: Seq<String>) -> Seq<Seq<char>> {
    Seq::new(texts.len(), |k: int| texts[k]@)
}

/// The texts of the transactions of `batch` at `places`, in the order of
/// `places`.
pub open spec fn texts_at(batch: Seq<RecordView>, places: Seq<(usize, usize)>) -> Seq<Seq<char>> {
    Seq::new(
        places.len(),
        |k: int| batch[places[k].0 as int].transactions[places[k].1 as int].rendered,
    )
}

/// Copies the texts of the transactions of `batch` at `places`.
fn rendered_at(batch: &Vec<Record>, places: &Vec<(usize, usize)>) -> (rendered: Vec<String>)
    requires
        forall|k: int|
            0 <= k < places@.len() ==> (#[trigger] places@[k]).0 < batch@.len() && places@[k].1
                < batch@[places@[k].0 as int].transactions@.len(),
    ensures
        texts_of(rendered@) == texts_at(batch_view(batch@), places@),
{
    let mut rendered: Vec<String> = Vec::new();
    let mut k: usize = 0;
    while k < places.len()
        invariant
            k <= places.len(),
            rendered@.len() == k,
            forall|j: int|
                0 <= j < places@.len() ==> (#[trigger] places@[j]).0 < batch@.len()
                    && places@[j].1 < batch@[places@[j].0 as int].transactions@.len(),
            forall|j: int|
                0 <= j < k ==> (#[trigger] rendered@[j])@ == texts_at(
                    batch_view(batch@),
                    places@,
                )[j],
        decreases places.len() - k,
    {
        let place = places[k];
        let text = batch[place.0].transactions[place.1].rendered.clone();
        rendered.push(text);
        k += 1;
    }
    assert(texts_of(rendered@) =~= texts_at(batch_view(batch@), places@));
    rendered
}

impl Sink {
    /// What this sink asks for on `batch`, which arrived for `slot`.
    /// Only the latency measurement looks at `is_new`: the other two render
    /// every batch, repeated ones too.
    pub fn consume(&self, slot: u64, is_new: bool, batch: &Vec<Record>) -> (output: BatchOutput)
        ensures
            output_fits(*self, slot, is_new, batch_view(batch@), output),
    {
        match self {
            Sink::LatencyMeasurement => {
                if is_new {
                    BatchOutput::Measure { slot }
                } else {
                    BatchOutput::Nothing
                }
            },
            Sink::TransactionFilter(filter) => {
                let places = filter.matching(batch);
                let rendered = rendered_at(batch, &places);
                BatchOutput::Transactions { places, rendered }
            },
            Sink::SlotSummary => BatchOutput::Summary {
                slot,
                records: batch.len(),
                transactions: count_transactions(batch),
            },
        }
    }
}

} // verus!
