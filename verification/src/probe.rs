//! What a media probe reports about one file.

use vstd::prelude::*;

verus! {

/// The duration field of an opened container.
#[derive(Clone, Copy, Debug, PartialEq, Eq, Structural)]
pub enum DurationInfo {
    /// The container does not say how long it plays.
    Unknown,
    /// The container plays for this many ticks of the probe's time base.
    Ticks(u64),
}

/// Reads a raw duration field: `unknown` is the probe's reserved value for a
/// container without a known duration, any other value is a count of ticks. A
/// negative count is no duration at all.
pub open spec fn classify(raw: i64, unknown: i64) -> Option<DurationInfo> {
    if raw == unknown {
        Some(DurationInfo::Unknown)
    } else if raw >= 0 {
        Some(DurationInfo::Ticks(raw as u64))
    } else {
        None
    }
}

impl DurationInfo {
    /// Reads the raw duration field of a container, given the value that the
    /// probe reserves for "unknown". Returns `None` for a negative count.
    pub fn from_raw(raw: i64, unknown: i64) -> (info: Option<DurationInfo>)
        ensures
            info == classify(raw, unknown),
    {
        if raw == unknown {
            Some(DurationInfo::Unknown)
        } else if raw >= 0 {
            Some(DurationInfo::Ticks(raw as u64))
        } else {
            None
        }
    }
}

/// Why a file could not be probed.
#[derive(Debug, PartialEq, Eq)]
pub struct ProbeError {
    /// The probe's own account of the failure.
    pub message: String,
}

/// One input file together with what the probe made of it.
#[derive(Debug, PartialEq, Eq)]
pub struct Entry {
    /// The path of the file, as it is to be shown.
    pub path: String,
    /// The duration field of the container, or the reason why there is none.
    pub outcome: Result<DurationInfo, ProbeError>,
}

/// An [`Entry`] with its texts as sequences of characters.
pub struct EntryView {
    pub path: Seq<char>,
    pub outcome: Result<DurationInfo, Seq<char>>,
}

impl View for Entry {
    type V = EntryView;

    open spec fn view(&self) -> EntryView {
        EntryView {
            path: self.path@,
            outcome: match self.outcome {
                Ok(info) => Ok(info),
                Err(error) => Err(error.message@),
            },
        }
    }
}

/// The views of a list of entries, in order.
pub open spec fn entry_views(entries: Seq<Entry>) -> Seq<EntryView> {
    entries.map_values(|entry: Entry| entry@)
}

} // verus!
