//! Choosing the transactions to show by the account keys they name.

use crate::records::{batch_view, AccountKey, Record, RecordView, SubRecord};
use vstd::prelude::*;

verus! {

/// The keys a key list holds, as a set of byte sequences.
pub open spec fn key_set(keys: Seq<AccountKey>) -> Set<Seq<u8>> {
    Set::new(|bytes: Seq<u8>| exists|i: int| 0 <= i < keys.len() && #[trigger] keys[i]@ == bytes)
}

/// Whether a transaction naming `keys` is shown: always without a list of
/// allowed keys, else where at least one of `keys` is on the list.
pub open spec fn admits(allowed: Option<Set<Seq<u8>>>, keys: Seq<Seq<u8>>) -> bool {
    match allowed {
        None => true,
        Some(listed) => exists|i: int| 0 <= i < keys.len() && listed.contains(#[trigger] keys[i]),
    }
}

/// Whether `batch` has a transaction at place `t` of record `e` that is shown.
pub open spec fn shown_at(
    allowed: Option<Set<Seq<u8>>>,
    batch: Seq<RecordView>,
    e: int,
    t: int,
) -> bool {
    &&& 0 <= e < batch.len()
    &&& 0 <= t < batch[e].transactions.len()
    &&& admits(allowed, batch[e].transactions[t].account_keys)
}

/// Whether place `p` comes before place `q` in a batch read record by record.
pub open spec fn comes_before(p: (usize, usize), q: (usize, usize)) -> bool {
    p.0 < q.0 || (p.0 == q.0 && p.1 < q.1)
}

/// Whether the places of `places` stand in the order of a batch, none twice.
pub open spec fn in_batch_order(places: Seq<(usize, usize)>) -> bool {
    forall|j: int, k: int|
        0 <= j < k < places.len() ==> comes_before(#[trigger] places[j], #[trigger] places[k])
}

/// Whether `places` lists the transactions of `batch` that are shown: each
/// place in it is shown, every shown place is in it, and the places stand in
/// the order of the batch, none twice.
pub open spec fn lists_shown(
    allowed: Option<Set<Seq<u8>>>,
    batch: Seq<RecordView>,
    places: Seq<(usize, usize)>,
) -> bool {
    &&& forall|k: int|
        0 <= k < places.len() ==> shown_at(
            allowed,
            batch,
            (#[trigger] places[k]).0 as int,
            places[k].1 as int,
        )
    &&& forall|e: int, t: int| #[trigger]
        shown_at(allowed, batch, e, t) ==> places.contains((e as usize, t as usize))
    &&& in_batch_order(places)
}

/// Whether `key` is one of `keys`.
pub fn is_listed(keys: &Vec<AccountKey>, key: &AccountKey) -> (listed: bool)
    ensures
        listed == key_set(keys@).contains(key@),
{
    let mut i: usize = 0;
    while i < keys.len()
        invariant
            i <= keys.len(),
            forall|k: int| 0 <= k < i ==> keys@[k]@ != key@,
        decreases keys.len() - i,
    {
        if keys[i].same_as(key) {
            assert(keys@[i as int]@ == key@);
            return true;
        }
        i += 1;
    }
    false
}

/// The optional list of account keys that limits what is shown. Its view is
/// the set of listed keys, or `None` where nothing limits.
#[derive(Clone, Debug)]
pub struct AllowedKeysFilter {
    allowed: Option<Vec<AccountKey>>,
}

impl View for AllowedKeysFilter {
    type V = Option<Set<Seq<u8>>>;

    closed spec fn view(&self) -> Option<Set<Seq<u8>>> {
        match self.allowed {
            None => None,
            Some(keys) => Some(key_set(keys@)),
        }
    }
}

impl AllowedKeysFilter {
    /// A filter that shows only transactions naming one of `allowed`; with
    /// `None`, one that shows every transaction.
    pub fn new(allowed: Option<Vec<AccountKey>>) -> (filter: Self)
        ensures
            filter@ == match allowed {
                None => None,
                Some(keys) => Some(key_set(keys@)),
            },
    {
        AllowedKeysFilter { allowed }
    }

    /// Whether `sub` is shown.
    pub fn shows(&self, sub: &SubRecord) -> (shown: bool)
        ensures
            shown == admits(self@, sub@.account_keys),
    {
        match &self.allowed {
            None => true,
            Some(keys) => {
                let mut i: usize = 0;
                while i < sub.account_keys.len()
                    invariant
                        i <= sub.account_keys.len(),
                        self@ == Some(key_set(keys@)),
                        forall|k: int|
                            0 <= k < i ==> !key_set(keys@).contains(
                                #[trigger] sub@.account_keys[k],
                            ),
                    decreases sub.account_keys.len() - i,
                {
                    if is_listed(keys, &sub.account_keys[i]) {
                        assert(sub@.account_keys[i as int] == sub.account_keys@[i as int]@);
                        assert(key_set(keys@).contains(sub@.account_keys[i as int]));
                        return true;
                    }
                    i += 1;
                }
                false
            },
        }
    }

    /// The places of the transactions of `batch` that are shown, each as the
    /// index of its record and its index in that record, in the order of the
    /// batch.
    pub fn matching(&self, batch: &Vec<Record>) -> (places: Vec<(usize, usize)>)
        ensures
            lists_shown(self@, batch_view(batch@), places@),
    {
        let ghost whole = batch_view(batch@);
        let mut places: Vec<(usize, usize)> = Vec::new();
        let mut e: usize = 0;
        while e < batch.len()
            invariant
                e <= batch.len(),
                whole == batch_view(batch@),
                forall|k: int|
                    0 <= k < places@.len() ==> shown_at(
                        self@,
                        whole,
                        (#[trigger] places@[k]).0 as int,
                        places@[k].1 as int,
                    ) && places@[k].0 < e,
                forall|a: int, b: int| #[trigger]
                    shown_at(self@, whole, a, b) && a < e ==> places@.contains(
                        (a as usize, b as usize),
                    ),
                forall|j: int, k: int|
                    0 <= j < k < places@.len() ==> comes_before(
                        #[trigger] places@[j],
                        #[trigger] places@[k],
                    ),
            decreases batch.len() - e,
        {
            let record = &batch[e];
            let mut t: usize = 0;
            while t < record.transactions.len()
                invariant
                    e < batch.len(),
                    t <= record.transactions.len(),
                    record == &batch@[e as int],
                    whole == batch_view(batch@),
                    forall|k: int|
                        0 <= k < places@.len() ==> shown_at(
                            self@,
                            whole,
                            (#[trigger] places@[k]).0 as int,
                            places@[k].1 as int,
                        ) && comes_before(places@[k], (e, t)),
                    forall|a: int, b: int| #[trigger]
                        shown_at(self@, whole, a, b) && (a < e || (a == e && b < t))
                            ==> places@.contains((a as usize, b as usize)),
                    forall|j: int, k: int|
                        0 <= j < k < places@.len() ==> comes_before(
                            #[trigger] places@[j],
                            #[trigger] places@[k],
                        ),
                decreases record.transactions.len() - t,
            {
                let ghost earlier = places@;
                if self.shows(&record.transactions[t]) {
                    places.push((e, t));
                    assert(places@[earlier.len() as int] == (e, t));
                }
                proof {
                    assert forall|a: int, b: int| #[trigger]
                        shown_at(self@, whole, a, b) && (a < e || (a == e && b < t + 1))
                            implies places@.contains((a as usize, b as usize)) by {
                        if a == e && b == t {
                            assert(places@[earlier.len() as int] == (e, t));
                        } else {
                            assert(earlier.contains((a as usize, b as usize)));
                            let k = choose|k: int|
                                0 <= k < earlier.len() && earlier[k] == (a as usize, b as usize);
                            assert(places@[k] == (a as usize, b as usize));
                        }
                    }
                }
                t += 1;
            }
            e += 1;
        }
        places
    }
}

/// Two lists of places in batch order that hold the same places are the same
/// list.
pub proof fn lemma_ordered_lists_agree(a: Seq<(usize, usize)>, b: Seq<(usize, usize)>)
    requires
        in_batch_order(a),
        in_batch_order(b),
        forall|p: (usize, usize)| a.contains(p) <==> b.contains(p),
    ensures
        a == b,
    decreases a.len(),
{
    if a.len() == 0 {
        if b.len() > 0 {
            assert(b.contains(b[0]));
        }
        assert(a =~= b);
    } else if b.len() == 0 {
        assert(a.contains(a[0]));
    } else {
        let last_a = a.len() - 1;
        let last_b = b.len() - 1;
        assert(a.contains(a[last_a]));
        assert(b.contains(b[last_b]));
        let i = choose|i: int| 0 <= i < a.len() && a[i] == b[last_b];
        let j = choose|j: int| 0 <= j < b.len() && b[j] == a[last_a];
        if i < last_a {
            assert(comes_before(a[i], a[last_a]));
        }
        if j < last_b {
            assert(comes_before(b[j], b[last_b]));
        }
        assert(a[last_a] == b[last_b]);
        let front_a = a.drop_last();
        let front_b = b.drop_last();
        assert forall|p: (usize, usize)| front_a.contains(p) <==> front_b.contains(p) by {
            if front_a.contains(p) {
                let k = choose|k: int| 0 <= k < front_a.len() && front_a[k] == p;
                assert(a[k] == p);
                assert(comes_before(a[k], a[last_a]));
                assert(a.contains(p));
                let m = choose|m: int| 0 <= m < b.len() && b[m] == p;
                assert(m < last_b);
                assert(front_b[m] == p);
            }
            if front_b.contains(p) {
                let k = choose|k: int| 0 <= k < front_b.len() && front_b[k] == p;
                assert(b[k] == p);
                assert(comes_before(b[k], b[last_b]));
                assert(b.contains(p));
                let m = choose|m: int| 0 <= m < a.len() && a[m] == p;
                assert(m < last_a);
                assert(front_a[m] == p);
            }
        }
        assert(in_batch_order(front_a)) by {
            assert forall|j: int, k: int| 0 <= j < k < front_a.len() implies comes_before(
                #[trigger] front_a[j],
                #[trigger] front_a[k],
            ) by {
                assert(comes_before(a[j], a[k]));
            }
        }
        assert(in_batch_order(front_b)) by {
            assert forall|j: int, k: int| 0 <= j < k < front_b.len() implies comes_before(
                #[trigger] front_b[j],
                #[trigger] front_b[k],
            ) by {
                assert(comes_before(b[j], b[k]));
            }
        }
        lemma_ordered_lists_agree(front_a, front_b);
        assert(a =~= front_a.push(a[last_a]));
        assert(b =~= front_b.push(b[last_b]));
    }
}

/// A filter and a batch have one list of shown places and no other.
pub proof fn lemma_shown_list_is_unique(
    allowed: Option<Set<Seq<u8>>>,
    batch: Seq<RecordView>,
    a: Seq<(usize, usize)>,
    b: Seq<(usize, usize)>,
)
    requires
        lists_shown(allowed, batch, a),
        lists_shown(allowed, batch, b),
    ensures
        a == b,
{
    assert forall|p: (usize, usize)| a.contains(p) <==> b.contains(p) by {
        if a.contains(p) {
            let k = choose|k: int| 0 <= k < a.len() && a[k] == p;
            assert(shown_at(allowed, batch, a[k].0 as int, a[k].1 as int));
            assert(b.contains((p.0 as int as usize, p.1 as int as usize)));
        }
        if b.contains(p) {
            let k = choose|k: int| 0 <= k < b.len() && b[k] == p;
            assert(shown_at(allowed, batch, b[k].0 as int, b[k].1 as int));
            assert(a.contains((p.0 as int as usize, p.1 as int as usize)));
        }
    }
    lemma_ordered_lists_agree(a, b);
}

} // verus!
