use vstd::prelude::*;

verus! {

/// Classification of a fault while decoding a single input file.
///
/// These faults are confined to the file they occur in: the batch as a
/// whole continues past them.
#[derive(Clone, Copy, Debug, PartialEq, Eq, Structural)]
pub enum TrackFault {
    /// No decoder could be matched to the file's content.
    UnsupportedFormat,
    /// The end-of-stream reset signal arrived before any frame was decoded,
    /// so there is no valid output for this file.
    PrematureReset,
    /// A codec-level decode error, or a frame whose format contradicts the
    /// format fixed by the track's first frame.
    DecodeFault,
    /// An I/O error while reading this file's stream.
    Io,
}

/// A fault that is fatal to the whole run.
#[derive(Clone, Copy, Debug, PartialEq, Eq, Structural)]
pub enum Error {
    /// The input directory itself could not be enumerated.
    DirectoryUnreadable,
    /// Target format selection or normalization of a decoded track failed;
    /// no output artifact is produced.
    ConsolidationFailure,
}

} // verus!
