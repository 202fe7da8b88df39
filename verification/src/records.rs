//! What a decoded batch holds, as far as the client reads it.

use vstd::prelude::*;

verus! {

/// Number of bytes in an account key.
pub const KEY_BYTES: usize = 32;

/// The key of an account. Its view is its bytes.
#[derive(Clone, Copy, Debug)]
pub struct AccountKey {
    pub bytes: [u8; 32],
}

impl View for AccountKey {
    type V = Seq<u8>;

    open spec fn view(&self) -> Seq<u8> {
        self.bytes@
    }
}

impl AccountKey {
    /// Whether the two keys have the same bytes.
    pub fn same_as(&self, other: &AccountKey) -> (same: bool)
        ensures
            same == (self@ == other@),
    {
        let mut i: usize = 0;
        while i < KEY_BYTES
            invariant
                i <= KEY_BYTES,
                forall|k: int| 0 <= k < i ==> self.bytes[k] == other.bytes[k],
            decreases KEY_BYTES - i,
        {
            if self.bytes[i] != other.bytes[i] {
                assert(self@[i as int] != other@[i as int]);
                return false;
            }
            i += 1;
        }
        assert(self@ =~= other@);
        true
    }
}

/// One transaction of a record: the account keys it names outright, in
/// order, and its text for display.
#[derive(Clone, Debug)]
pub struct SubRecord {
    pub account_keys: Vec<AccountKey>,
    pub rendered: String,
}

/// A `SubRecord` in specifications.
pub struct SubRecordView {
    pub account_keys: Seq<Seq<u8>>,
    pub rendered: Seq<char>,
}

impl View for SubRecord {
    type V = SubRecordView;

    open spec fn view(&self) -> SubRecordView {
        SubRecordView {
            account_keys: Seq::new(self.account_keys@.len(), |i: int| self.account_keys@[i]@),
            rendered: self.rendered@,
        }
    }
}

/// One record of a batch: its transactions in order.
#[derive(Clone, Debug)]
pub struct Record {
    pub transactions: Vec<SubRecord>,
}

/// A `Record` in specifications.
pub struct RecordView {
    pub transactions: Seq<SubRecordView>,
}

impl View for Record {
    type V = RecordView;

    open spec fn view(&self) -> RecordView {
        RecordView {
            transactions: Seq::new(self.transactions@.len(), |i: int| self.transactions@[i]@),
        }
    }
}

/// A batch in specifications: the view of each of its records.
pub open spec fn batch_view(records: Seq<Record>) -> Seq<RecordView> {
    Seq::new(records.len(), |i: int| records[i]@)
}

/// The number of transactions in all records of `batch`.
pub open spec fn transactions_in(batch: Seq<RecordView>) -> nat
    decreases batch.len(),
{
    if batch.len() == 0 {
        0
    } else {
        transactions_in(batch.drop_last()) + batch.last().transactions.len()
    }
}

/// Counts the transactions in all records of `batch`.
pub fn count_transactions(batch: &Vec<Record>) -> (total: u128)
    ensures
        total == transactions_in(batch_view(batch@)),
{
    let ghost whole = batch_view(batch@);
    let mut total: u128 = 0;
    let mut i: usize = 0;
    while i < batch.len()
        invariant
            i <= batch.len(),
            whole == batch_view(batch@),
            total == transactions_in(whole.take(i as int)),
            total <= i * usize::MAX,
        decreases batch.len() - i,
    {
        let here = batch[i].transactions.len();
        proof {
            let upto = whole.take(i as int + 1);
            assert(upto.drop_last() =~= whole.take(i as int));
            assert(upto.last() == batch@[i as int]@);
            assert((i + 1) * usize::MAX == i * usize::MAX + usize::MAX) by (nonlinear_arith);
            assert(i * usize::MAX + usize::MAX <= u128::MAX) by (nonlinear_arith)
                requires
                    i < usize::MAX,
                    usize::MAX <= u64::MAX,
            ;
        }
        total = total + here as u128;
        i += 1;
    }
    assert(whole.take(batch@.len() as int) =~= whole);
    total
}

} // verus!
