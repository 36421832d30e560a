use vstd::prelude::*;

use crate::batch::{
    failures, lemma_single_failure, lemma_success_position, lemma_successes_take_step, run_batch,
    successes, BatchEntry, BatchItem, BatchResult,
};
use crate::errors::Error;
use crate::track::{append_samples, outcome_view, spec_decode, FormatDesc, TrackView};

verus! {

/// One chapter of the consolidated output. `start` and `end` are offsets
/// into the output's interleaved sample stream; the chapter covers
/// `start..end`.
pub struct Chapter {
    pub label: String,
    pub start: usize,
    pub end: usize,
}

/// The consolidated output: one fixed format, the concatenation of every
/// successfully decoded track brought to that format, and one chapter per
/// successful input, in input order.
pub struct ConsolidatedOutput {
    pub format: FormatDesc,
    pub samples: Vec<u32>,
    pub chapters: Vec<Chapter>,
}

/// The target format of a consolidation: the format of the first
/// successfully decoded track.
pub open spec fn target_format(ss: Seq<BatchEntry>) -> FormatDesc
    recommends
        ss.len() > 0,
{
    ss[0].outcome->Ok_0@.format
}

/// A mono stream duplicated across `c` output channels: each input sample
/// appears `c` times consecutively, in input order.
pub open spec fn spec_upmix(s: Seq<u32>, c: nat) -> Seq<u32>
    decreases s.len(),
{
    if s.len() == 0 {
        Seq::empty()
    } else {
        spec_upmix(s.drop_last(), c) + Seq::new(c, |k: int| s.last())
    }
}

/// How one decoded track is brought to the target format: unchanged when
/// the formats already agree, duplicated across the target's channels when
/// the track is mono at the target rate, and impossible otherwise
/// (`None`), which is fatal to the run. This is the fixed reconciliation
/// policy of this library: true resampling is deliberately not performed.
pub open spec fn spec_normalize(t: TrackView, target: FormatDesc) -> Option<Seq<u32>> {
    if t.format == target {
        Some(t.samples)
    } else if t.format.sample_rate == target.sample_rate && t.format.channels == 1 {
        Some(spec_upmix(t.samples, target.channels as nat))
    } else {
        None
    }
}

/// Whether every successful track can be brought to `target`.
pub open spec fn all_normalizable(ss: Seq<BatchEntry>, target: FormatDesc) -> bool {
    forall|i: int| #![trigger ss[i]]
        0 <= i < ss.len() ==> spec_normalize(ss[i].outcome->Ok_0@, target) is Some
}

/// The concatenation of the normalized streams of `ss`, in order.
pub open spec fn spec_concat(ss: Seq<BatchEntry>, target: FormatDesc) -> Seq<u32>
    decreases ss.len(),
{
    if ss.len() == 0 {
        Seq::empty()
    } else {
        spec_concat(ss.drop_last(), target) + spec_normalize(
            ss.last().outcome->Ok_0@,
            target,
        )->Some_0
    }
}

/// What a correct consolidation of `entries` looks like: the format is the
/// first successful track's, the sample stream is the concatenation of
/// the normalized successful tracks in input order, and chapter `i` is
/// labelled with the `i`-th successful input and spans exactly that
/// track's normalized samples within the stream.
pub open spec fn consolidated_wf(out: ConsolidatedOutput, entries: Seq<BatchEntry>) -> bool {
    let ss = successes(entries);
    let target = target_format(ss);
    &&& ss.len() > 0
    &&& out.format == target
    &&& all_normalizable(ss, target)
    &&& out.samples@ == spec_concat(ss, target)
    &&& out.chapters@.len() == ss.len()
    &&& forall|i: int| #![trigger out.chapters@[i]] 0 <= i < ss.len() ==> {
        &&& out.chapters@[i].label == ss[i].label
        &&& out.chapters@[i].start == spec_concat(ss.take(i), target).len()
        &&& out.chapters@[i].end == spec_concat(ss.take(i + 1), target).len()
    }
}

/// How the concatenated stream of a success-list prefix grows by one
/// track.
pub proof fn lemma_concat_take_step(ss: Seq<BatchEntry>, target: FormatDesc, i: int)
    requires
        0 <= i < ss.len(),
    ensures
        spec_concat(ss.take(i + 1), target) == spec_concat(ss.take(i), target) + spec_normalize(
            ss[i].outcome->Ok_0@,
            target,
        )->Some_0,
{
    assert(ss.take(i + 1).drop_last() =~= ss.take(i));
    assert(ss.take(i + 1).last() == ss[i]);
}

/// Appends every element of `src` to `dst`, duplicated across `c`
/// channels.
fn append_upmixed(dst: &mut Vec<u32>, src: &Vec<u32>, c: u32)
    ensures
        final(dst)@ == old(dst)@ + spec_upmix(src@, c as nat),
{
    let mut i: usize = 0;
    proof {
        assert(src@.take(0) =~= Seq::<u32>::empty());
    }
    while i < src.len()
        invariant
            i <= src@.len(),
            dst@ == old(dst)@ + spec_upmix(src@.take(i as int), c as nat),
        decreases src@.len() - i,
    {
        let s = src[i];
        let mut j: u32 = 0;
        while j < c
            invariant
                j <= c,
                i < src@.len(),
                s == src@[i as int],
                dst@ == old(dst)@ + spec_upmix(src@.take(i as int), c as nat) + Seq::new(
                    j as nat,
                    |k: int| s,
                ),
            decreases c - j,
        {
            dst.push(s);
            proof {
                assert(Seq::new((j + 1) as nat, |k: int| s) =~= Seq::new(j as nat, |k: int| s).push(
                    s,
                ));
            }
            j = j + 1;
        }
        proof {
            assert(src@.take(i + 1).drop_last() =~= src@.take(i as int));
            assert(src@.take(i + 1).last() == src@[i as int]);
            assert(Seq::new(c as nat, |k: int| src@.take(i + 1).last()) =~= Seq::new(
                c as nat,
                |k: int| s,
            ));
        }
        i = i + 1;
    }
    proof {
        assert(src@.take(src@.len() as int) =~= src@);
    }
}

/// Merge every successfully decoded track of a batch into one chaptered
/// output.
///
/// The target format is the first successful track's. A track already in
/// the target format is concatenated unchanged; a mono track at the target
/// rate is duplicated across the target's channels; any other mismatch is
/// fatal to the whole run, as is a batch with no successful track: there
/// is only one output artifact, and no partial output is valid. Failed
/// entries contribute no chapter.
pub fn consolidate(batch: &BatchResult) -> (r: Result<ConsolidatedOutput, Error>)
    ensures
        ({
            let ss = successes(batch.entries@);
            match r {
                Ok(out) => consolidated_wf(out, batch.entries@),
                Err(e) => {
                    &&& e == Error::ConsolidationFailure
                    &&& (ss.len() == 0 || !all_normalizable(ss, target_format(ss)))
                },
            }
        }),
{
    let mut target_opt: Option<FormatDesc> = None;
    let mut samples: Vec<u32> = Vec::new();
    let mut chapters: Vec<Chapter> = Vec::new();
    let mut i: usize = 0;
    proof {
        assert(batch.entries@.take(0) =~= Seq::<BatchEntry>::empty());
    }
    while i < batch.entries.len()
        invariant
            i <= batch.entries@.len(),
            ({
                let ss = successes(batch.entries@.take(i as int));
                match target_opt {
                    None => ss.len() == 0 && samples@.len() == 0 && chapters@.len() == 0,
                    Some(t) => {
                        &&& ss.len() > 0
                        &&& t == target_format(ss)
                        &&& all_normalizable(ss, t)
                        &&& samples@ == spec_concat(ss, t)
                        &&& chapters@.len() == ss.len()
                        &&& forall|j: int| #![trigger chapters@[j]] 0 <= j < ss.len() ==> {
                            &&& chapters@[j].label == ss[j].label
                            &&& chapters@[j].start == spec_concat(ss.take(j), t).len()
                            &&& chapters@[j].end == spec_concat(ss.take(j + 1), t).len()
                        }
                    },
                }
            }),
        decreases batch.entries@.len() - i,
    {
        let ghost pre = successes(batch.entries@.take(i as int));
        proof {
            lemma_successes_take_step(batch.entries@, i as int);
        }
        let entry = &batch.entries[i];
        match &entry.outcome {
            Err(_) => {},
            Ok(track) => {
                let ghost post = successes(batch.entries@.take(i + 1));
                proof {
                    assert(post == pre.push(batch.entries@[i as int]));
                    assert(post.drop_last() =~= pre);
                    assert(post.last() == batch.entries@[i as int]);
                    assert forall|j: int| 0 <= j <= pre.len() implies post.take(j) =~= pre.take(
                        j,
                    ) by {}
                    assert(post.take(post.len() as int) =~= post);
                }
                let t = match target_opt {
                    Some(t) => t,
                    None => {
                        target_opt = Some(track.format);
                        proof {
                            assert(samples@ =~= Seq::<u32>::empty());
                            assert(spec_concat(pre, track.format) == Seq::<u32>::empty());
                        }
                        track.format
                    },
                };
                let start = samples.len();
                if track.format == t {
                    append_samples(&mut samples, &track.samples);
                } else if track.format.sample_rate == t.sample_rate && track.format.channels == 1 {
                    append_upmixed(&mut samples, &track.samples, t.channels);
                } else {
                    proof {
                        lemma_success_position(batch.entries@, i as int);
                        let full = successes(batch.entries@);
                        let p = pre.len() as int;
                        assert(full[p] == batch.entries@[i as int]);
                        assert(pre == full.take(p));
                        assert(full[0] == pre[0]);
                        assert(spec_normalize(full[p].outcome->Ok_0@, target_format(full))
                            is None);
                    }
                    return Err(Error::ConsolidationFailure);
                }
                let end = samples.len();
                let label = entry.label.clone();
                chapters.push(Chapter { label, start, end });
            },
        }
        i = i + 1;
    }
    proof {
        assert(batch.entries@.take(batch.entries@.len() as int) =~= batch.entries@);
    }
    match target_opt {
        None => Err(Error::ConsolidationFailure),
        Some(t) => Ok(ConsolidatedOutput { format: t, samples, chapters }),
    }
}

/// The outcome of one whole run: the per-file outcome log and, when
/// consolidation succeeded, the single chaptered output.
pub struct RunReport {
    pub batch: BatchResult,
    pub output: Result<ConsolidatedOutput, Error>,
}

/// One whole run over a batch of candidate inputs: decode every candidate
/// independently with fault isolation, then merge the successfully
/// decoded tracks into one chaptered output. The per-file outcomes are
/// returned alongside the output, so every failure can be reported under
/// its input's label without stopping the run.
pub fn process(items: &Vec<BatchItem>) -> (r: RunReport)
    ensures
        r.batch.entries@.len() == items@.len(),
        forall|i: int| #![trigger r.batch.entries@[i]] 0 <= i < items@.len() ==> {
            &&& r.batch.entries@[i].label == items@[i].label
            &&& outcome_view(r.batch.entries@[i].outcome) == spec_decode(items@[i].events@)
        },
        ({
            let ss = successes(r.batch.entries@);
            match r.output {
                Ok(out) => consolidated_wf(out, r.batch.entries@),
                Err(e) => {
                    &&& e == Error::ConsolidationFailure
                    &&& (ss.len() == 0 || !all_normalizable(ss, target_format(ss)))
                },
            }
        }),
{
    let batch = run_batch(items);
    let output = consolidate(&batch);
    RunReport { batch, output }
}

/// The chapters of a consolidated output partition its sample stream:
/// there is at least one, the first starts at offset zero, each ends
/// where the next begins with nothing in between, none runs backwards,
/// and the last ends exactly at the stream's end.
pub proof fn lemma_chapter_contiguity(out: ConsolidatedOutput, entries: Seq<BatchEntry>)
    requires
        consolidated_wf(out, entries),
    ensures
        out.chapters@.len() > 0,
        out.chapters@[0].start == 0,
        out.chapters@[out.chapters@.len() - 1].end == out.samples@.len(),
        forall|i: int| #![trigger out.chapters@[i]]
            0 <= i < out.chapters@.len() ==> out.chapters@[i].start <= out.chapters@[i].end,
        forall|i: int| #![trigger out.chapters@[i]]
            0 <= i < out.chapters@.len() - 1 ==> out.chapters@[i].end == out.chapters@[i
                + 1].start,
{
    let ss = successes(entries);
    let target = target_format(ss);
    assert(ss.take(0) =~= Seq::<BatchEntry>::empty());
    assert(ss.take(ss.len() as int) =~= ss);
    assert forall|i: int| 0 <= i < out.chapters@.len() implies (#[trigger] out.chapters@[i]).start
        <= out.chapters@[i].end by {
        lemma_concat_take_step(ss, target, i);
    }
}

/// One corrupt input never aborts the batch: when every entry but the one
/// at `k` decoded successfully, a consolidated output built from the
/// batch has exactly one chapter fewer than the batch has entries, and
/// the failure log is exactly one record, carrying the corrupt input's
/// label.
pub proof fn lemma_batch_isolation(out: ConsolidatedOutput, entries: Seq<BatchEntry>, k: int)
    requires
        0 <= k < entries.len(),
        entries[k].outcome is Err,
        forall|i: int| #![trigger entries[i]]
            0 <= i < entries.len() && i != k ==> entries[i].outcome is Ok,
        consolidated_wf(out, entries),
    ensures
        out.chapters@.len() == entries.len() - 1,
        failures(entries).len() == 1,
        failures(entries)[0].label == entries[k].label,
{
    lemma_single_failure(entries, k);
}

} // verus!
