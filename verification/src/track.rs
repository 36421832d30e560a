use vstd::prelude::*;

use crate::errors::TrackFault;

verus! {

/// The canonical sample format of a decoded track: sample rate in Hz and
/// the number of interleaved channels.
#[derive(Clone, Copy, Debug, PartialEq, Eq, Structural)]
pub struct FormatDesc {
    pub sample_rate: u32,
    pub channels: u32,
}

/// One decoded audio frame: its native format and its interleaved samples,
/// each sample carried as the bit pattern of a 32-bit float.
#[derive(Debug)]
pub struct Frame {
    pub format: FormatDesc,
    pub samples: Vec<u32>,
    /// The decoded buffer's reported capacity. It only sizes the
    /// assembler's first allocation; the buffer grows past it freely.
    pub capacity_hint: usize,
}

/// A fully decoded input file: the format fixed by its first frame and the
/// concatenation of all its frames' interleaved samples.
#[derive(Debug)]
pub struct DecodedTrack {
    pub format: FormatDesc,
    pub samples: Vec<u32>,
}

/// The mathematical content of a decoded track.
#[verifier::ext_equal]
pub ghost struct TrackView {
    pub format: FormatDesc,
    pub samples: Seq<u32>,
}

impl View for DecodedTrack {
    type V = TrackView;

    open spec fn view(&self) -> TrackView {
        TrackView { format: self.format, samples: self.samples@ }
    }
}

/// One observation handed to the decode state machine by the layer that
/// drives the demuxer and codec.
#[derive(Debug)]
pub enum DecodeEvent {
    /// A packet of the selected track, decoded into a frame.
    Frame(Frame),
    /// A packet belonging to a track other than the selected one; it is
    /// discarded without being decoded.
    ForeignPacket,
    /// The recoverable reset signal. It marks end-of-input if and only if
    /// at least one frame was decoded before it.
    Reset,
    /// The demuxer or decoder failed with an unrecoverable fault.
    Fault(TrackFault),
}

/// The state of an in-progress track assembly.
#[verifier::ext_equal]
pub ghost struct AsmView {
    pub format: Option<FormatDesc>,
    pub samples: Seq<u32>,
}

/// The state an assembler starts in: no format fixed, no samples.
pub open spec fn init_state() -> AsmView {
    AsmView { format: None, samples: Seq::empty() }
}

/// What feeding one frame does to an assembly state: the first frame fixes
/// the format, a matching frame appends its samples, and a frame whose
/// format differs from the fixed one is a decode fault.
pub open spec fn spec_push(st: AsmView, f: Frame) -> Result<AsmView, TrackFault> {
    match st.format {
        None => Ok(AsmView { format: Some(f.format), samples: st.samples + f.samples@ }),
        Some(g) => if f.format == g {
            Ok(AsmView { format: st.format, samples: st.samples + f.samples@ })
        } else {
            Err(TrackFault::DecodeFault)
        },
    }
}

/// What the reset signal yields: a complete track when at least one frame
/// fixed the format, and `PrematureReset` when none did.
pub open spec fn spec_finish(st: AsmView) -> Result<TrackView, TrackFault> {
    match st.format {
        None => Err(TrackFault::PrematureReset),
        Some(g) => Ok(TrackView { format: g, samples: st.samples }),
    }
}

/// The decode outcome of running an assembly state over a stream of
/// events. A stream that ends without a reset or fault is an I/O fault: a
/// real stream always closes with one of the two.
pub open spec fn spec_run(st: AsmView, events: Seq<DecodeEvent>) -> Result<TrackView, TrackFault>
    decreases events.len(),
{
    if events.len() == 0 {
        Err(TrackFault::Io)
    } else {
        match events[0] {
            DecodeEvent::Frame(f) => match spec_push(st, f) {
                Ok(st2) => spec_run(st2, events.skip(1)),
                Err(e) => Err(e),
            },
            DecodeEvent::ForeignPacket => spec_run(st, events.skip(1)),
            DecodeEvent::Reset => spec_finish(st),
            DecodeEvent::Fault(k) => Err(k),
        }
    }
}

/// The decode outcome of a whole event stream, from the initial state.
pub open spec fn spec_decode(events: Seq<DecodeEvent>) -> Result<TrackView, TrackFault> {
    spec_run(init_state(), events)
}

/// A decode outcome with the track replaced by its mathematical content.
pub open spec fn outcome_view(r: Result<DecodedTrack, TrackFault>) -> Result<TrackView, TrackFault> {
    match r {
        Ok(t) => Ok(t@),
        Err(e) => Err(e),
    }
}

/// Appends every element of `src` to `dst`, in order.
pub(crate) fn append_samples(dst: &mut Vec<u32>, src: &Vec<u32>)
    ensures
        final(dst)@ == old(dst)@ + src@,
{
    let mut k: usize = 0;
    while k < src.len()
        invariant
            k <= src@.len(),
            dst@ == old(dst)@ + src@.take(k as int),
        decreases src@.len() - k,
    {
        dst.push(src[k]);
        proof {
            assert(src@.take(k + 1) =~= src@.take(k as int).push(src@[k as int]));
        }
        k = k + 1;
    }
    proof {
        assert(src@.take(src@.len() as int) =~= src@);
    }
}

/// Accumulates decoded frames into one contiguous interleaved buffer.
///
/// The first frame fixes the track's format descriptor; every later frame
/// must match it exactly.
#[derive(Debug)]
pub struct TrackAssembler {
    /// The format fixed by the first frame; `None` until a frame arrives.
    pub format: Option<FormatDesc>,
    /// The interleaved samples decoded so far.
    pub samples: Vec<u32>,
}

impl View for TrackAssembler {
    type V = AsmView;

    open spec fn view(&self) -> AsmView {
        AsmView { format: self.format, samples: self.samples@ }
    }
}

impl TrackAssembler {
    /// A fresh assembler with no format fixed and no samples.
    pub fn new() -> (r: TrackAssembler)
        ensures
            r@ == init_state(),
    {
        let a = TrackAssembler { format: None, samples: Vec::new() };
        proof {
            assert(a@ =~= init_state());
        }
        a
    }

    /// Feed one decoded frame.
    ///
    /// The first frame fixes the format descriptor. A later frame whose
    /// format differs from the fixed one is rejected as a decode fault and
    /// leaves the assembler unchanged: the buffer is never silently
    /// reinterpreted under a new format. The accumulated sample count
    /// never decreases.
    pub fn push_frame(&mut self, f: &Frame) -> (r: Result<(), TrackFault>)
        ensures
            ({
                let step = spec_push(old(self)@, *f);
                match step {
                    Ok(st2) => r is Ok && final(self)@ == st2,
                    Err(e) => r == Result::<(), TrackFault>::Err(e) && final(self)@ == old(self)@,
                }
            }),
            final(self).samples@.len() >= old(self).samples@.len(),
    {
        match self.format {
            None => {
                self.format = Some(f.format);
                self.samples.reserve(f.capacity_hint);
                append_samples(&mut self.samples, &f.samples);
                proof {
                    assert(self@ =~= spec_push(old(self)@, *f)->Ok_0);
                }
                Ok(())
            },
            Some(g) => {
                if f.format == g {
                    append_samples(&mut self.samples, &f.samples);
                    proof {
                        assert(self@ =~= spec_push(old(self)@, *f)->Ok_0);
                    }
                    Ok(())
                } else {
                    proof {
                        assert(self@ =~= old(self)@);
                    }
                    Err(TrackFault::DecodeFault)
                }
            },
        }
    }

    /// The cumulative number of interleaved samples assembled so far.
    /// Diagnostic only; it takes no part in control flow.
    pub fn sample_count(&self) -> (n: usize)
        ensures
            n == self@.samples.len(),
    {
        self.samples.len()
    }

    /// Consume the assembler on the stream's reset signal.
    ///
    /// A reset is end-of-input exactly when at least one frame has been
    /// decoded; a reset before any frame is the fault `PrematureReset`,
    /// because there is no valid output to return.
    pub fn finish_on_reset(self) -> (r: Result<DecodedTrack, TrackFault>)
        ensures
            outcome_view(r) == spec_finish(self@),
    {
        let ghost st = self@;
        match self.format {
            None => {
                Err(TrackFault::PrematureReset)
            },
            Some(g) => {
                let t = DecodedTrack { format: g, samples: self.samples };
                proof {
                    assert(outcome_view(Ok(t)) =~= spec_finish(st));
                }
                Ok(t)
            },
        }
    }
}

/// Run the whole per-file decode over an ordered stream of events.
///
/// This is the decoder-adapter policy in one place: frames accumulate into
/// one interleaved buffer under a format fixed by the first frame, packets
/// of other tracks are discarded, a reset after at least one frame ends
/// the track successfully, a reset before any frame is `PrematureReset`,
/// and any other fault ends the file with that fault.
pub fn decode_track(events: &Vec<DecodeEvent>) -> (r: Result<DecodedTrack, TrackFault>)
    ensures
        outcome_view(r) == spec_decode(events@),
{
    let mut acc = TrackAssembler::new();
    let mut i: usize = 0;
    proof {
        assert(events@.skip(0) =~= events@);
    }
    loop
        invariant
            i <= events@.len(),
            spec_run(acc@, events@.skip(i as int)) == spec_decode(events@),
        decreases events@.len() - i,
    {
        if i >= events.len() {
            return Err(TrackFault::Io);
        }
        proof {
            assert(events@.skip(i as int)[0] == events@[i as int]);
            assert(events@.skip(i as int).skip(1) =~= events@.skip(i + 1));
        }
        match &events[i] {
            DecodeEvent::Frame(f) => {
                match acc.push_frame(f) {
                    Ok(()) => {},
                    Err(e) => {
                        return Err(e);
                    },
                }
            },
            DecodeEvent::ForeignPacket => {},
            DecodeEvent::Reset => {
                return acc.finish_on_reset();
            },
            DecodeEvent::Fault(k) => {
                return Err(*k);
            },
        }
        i = i + 1;
    }
}

/// Decoding is a pure function of the event stream: two decodes of
/// identical streams yield identical outcomes, sample bit for sample bit.
pub proof fn lemma_decode_deterministic(e1: Seq<DecodeEvent>, e2: Seq<DecodeEvent>)
    requires
        e1 == e2,
    ensures
        spec_decode(e1) == spec_decode(e2),
{
}

} // verus!
