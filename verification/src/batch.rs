use vstd::prelude::*;

use crate::errors::TrackFault;
use crate::track::{decode_track, outcome_view, spec_decode, DecodeEvent, DecodedTrack};

verus! {

/// One candidate input: its label (the path as shown to the user) and the
/// ordered stream events its decode produced.
pub struct BatchItem {
    pub label: String,
    pub events: Vec<DecodeEvent>,
}

/// The recorded outcome for one candidate input.
pub struct BatchEntry {
    pub label: String,
    pub outcome: Result<DecodedTrack, TrackFault>,
}

/// The ordered per-file outcomes of one run, in enumeration order.
pub struct BatchResult {
    pub entries: Vec<BatchEntry>,
}

/// A failed input and its fault classification, for the warning log.
pub struct FailureNote {
    pub label: String,
    pub fault: TrackFault,
}

/// The successfully decoded entries of a batch, in order.
pub open spec fn successes(entries: Seq<BatchEntry>) -> Seq<BatchEntry>
    decreases entries.len(),
{
    if entries.len() == 0 {
        Seq::empty()
    } else if entries.last().outcome is Ok {
        successes(entries.drop_last()).push(entries.last())
    } else {
        successes(entries.drop_last())
    }
}

/// The failed entries of a batch, in order.
pub open spec fn failures(entries: Seq<BatchEntry>) -> Seq<BatchEntry>
    decreases entries.len(),
{
    if entries.len() == 0 {
        Seq::empty()
    } else if entries.last().outcome is Err {
        failures(entries.drop_last()).push(entries.last())
    } else {
        failures(entries.drop_last())
    }
}

/// Decode every candidate independently, in order, with fault isolation: a
/// fault in one item becomes that item's recorded outcome and never stops
/// the batch. The result keeps one entry per item, under the item's label,
/// in enumeration order.
pub fn run_batch(items: &Vec<BatchItem>) -> (r: BatchResult)
    ensures
        r.entries@.len() == items@.len(),
        forall|i: int| #![trigger r.entries@[i]] 0 <= i < items@.len() ==> {
            &&& r.entries@[i].label == items@[i].label
            &&& outcome_view(r.entries@[i].outcome) == spec_decode(items@[i].events@)
        },
{
    let mut entries: Vec<BatchEntry> = Vec::new();
    let mut i: usize = 0;
    while i < items.len()
        invariant
            i <= items@.len(),
            entries@.len() == i,
            forall|j: int| #![trigger entries@[j]] 0 <= j < i ==> {
                &&& entries@[j].label == items@[j].label
                &&& outcome_view(entries@[j].outcome) == spec_decode(items@[j].events@)
            },
        decreases items@.len() - i,
    {
        let item = &items[i];
        let outcome = decode_track(&item.events);
        let label = item.label.clone();
        entries.push(BatchEntry { label, outcome });
        i = i + 1;
    }
    BatchResult { entries }
}

/// The failed entries with their fault classifications, in input order,
/// for the per-file warning log.
pub fn collect_failures(batch: &BatchResult) -> (r: Vec<FailureNote>)
    ensures
        r@.len() == failures(batch.entries@).len(),
        forall|i: int| #![trigger r@[i]] 0 <= i < r@.len() ==> {
            &&& r@[i].label == failures(batch.entries@)[i].label
            &&& failures(batch.entries@)[i].outcome == Result::<DecodedTrack, TrackFault>::Err(r@[i].fault)
        },
{
    let mut notes: Vec<FailureNote> = Vec::new();
    let mut i: usize = 0;
    proof {
        assert(batch.entries@.take(0) =~= Seq::<BatchEntry>::empty());
    }
    while i < batch.entries.len()
        invariant
            i <= batch.entries@.len(),
            notes@.len() == failures(batch.entries@.take(i as int)).len(),
            forall|j: int| #![trigger notes@[j]] 0 <= j < notes@.len() ==> {
                &&& notes@[j].label == failures(batch.entries@.take(i as int))[j].label
                &&& failures(batch.entries@.take(i as int))[j].outcome
                    == Result::<DecodedTrack, TrackFault>::Err(notes@[j].fault)
            },
        decreases batch.entries@.len() - i,
    {
        proof {
            lemma_failures_take_step(batch.entries@, i as int);
        }
        let entry = &batch.entries[i];
        match &entry.outcome {
            Ok(_) => {},
            Err(fault) => {
                let label = entry.label.clone();
                notes.push(FailureNote { label, fault: *fault });
            },
        }
        i = i + 1;
    }
    proof {
        assert(batch.entries@.take(batch.entries@.len() as int) =~= batch.entries@);
    }
    notes
}

/// How the failure log of a prefix grows by one entry.
pub proof fn lemma_failures_take_step(entries: Seq<BatchEntry>, i: int)
    requires
        0 <= i < entries.len(),
    ensures
        failures(entries.take(i + 1)) == if entries[i].outcome is Err {
            failures(entries.take(i)).push(entries[i])
        } else {
            failures(entries.take(i))
        },
{
    assert(entries.take(i + 1).drop_last() =~= entries.take(i));
    assert(entries.take(i + 1).last() == entries[i]);
}

/// How the success list of a prefix grows by one entry.
pub proof fn lemma_successes_take_step(entries: Seq<BatchEntry>, i: int)
    requires
        0 <= i < entries.len(),
    ensures
        successes(entries.take(i + 1)) == if entries[i].outcome is Ok {
            successes(entries.take(i)).push(entries[i])
        } else {
            successes(entries.take(i))
        },
{
    assert(entries.take(i + 1).drop_last() =~= entries.take(i));
    assert(entries.take(i + 1).last() == entries[i]);
}

/// A batch in which every entry decoded successfully has the whole batch
/// as its success list and an empty failure log.
pub proof fn lemma_all_ok(entries: Seq<BatchEntry>)
    requires
        forall|i: int| #![trigger entries[i]] 0 <= i < entries.len() ==> entries[i].outcome is Ok,
    ensures
        successes(entries) == entries,
        failures(entries).len() == 0,
    decreases entries.len(),
{
    if entries.len() > 0 {
        lemma_all_ok(entries.drop_last());
        assert(successes(entries.drop_last()).push(entries.last()) =~= entries);
    }
}

/// A batch in which exactly the entry at `k` failed has every other entry
/// in its success list, and a failure log of exactly one record, carrying
/// the failed input's label.
pub proof fn lemma_single_failure(entries: Seq<BatchEntry>, k: int)
    requires
        0 <= k < entries.len(),
        entries[k].outcome is Err,
        forall|i: int| #![trigger entries[i]]
            0 <= i < entries.len() && i != k ==> entries[i].outcome is Ok,
    ensures
        successes(entries).len() == entries.len() - 1,
        failures(entries).len() == 1,
        failures(entries)[0].label == entries[k].label,
    decreases entries.len(),
{
    if k == entries.len() - 1 {
        lemma_all_ok(entries.drop_last());
    } else {
        lemma_single_failure(entries.drop_last(), k);
    }
}

/// Where a successfully decoded entry stands in the success list: entry
/// `i` of the batch is entry `successes(entries.take(i)).len()` of the
/// success list, and the successes of the prefix before it are exactly the
/// success list up to that position.
pub proof fn lemma_success_position(entries: Seq<BatchEntry>, i: int)
    requires
        0 <= i < entries.len(),
        entries[i].outcome is Ok,
    ensures
        successes(entries.take(i)).len() < successes(entries).len(),
        successes(entries)[successes(entries.take(i)).len() as int] == entries[i],
        successes(entries.take(i)) == successes(entries).take(
            successes(entries.take(i)).len() as int,
        ),
    decreases entries.len(),
{
    let p = successes(entries.take(i)).len() as int;
    if i == entries.len() - 1 {
        assert(entries.take(i) =~= entries.drop_last());
        assert(entries.last() == entries[i]);
        assert(successes(entries) == successes(entries.drop_last()).push(entries[i]));
        assert(successes(entries).take(p) =~= successes(entries.take(i)));
    } else {
        let sub = entries.drop_last();
        assert(sub.take(i) =~= entries.take(i));
        lemma_success_position(sub, i);
        if entries.last().outcome is Ok {
            assert(successes(entries) == successes(sub).push(entries.last()));
            assert(successes(entries).take(p) =~= successes(sub).take(p));
        } else {
            assert(successes(entries) == successes(sub));
        }
    }
}

} // verus!
