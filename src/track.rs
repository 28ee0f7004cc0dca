use vstd::prelude::*;

verus! {

/// Handle of a playable stream. The stream itself is owned by the streaming
/// provider; a queue entry only refers to it.
#[derive(Clone, Copy, Debug, PartialEq, Eq, Structural)]
pub struct SourceRef {
    pub id: u64,
}

/// One resolved audio item. The source handle is not optional: an item whose
/// stream could not be resolved is a `ResolveError`, never a descriptor.
#[derive(Debug)]
pub struct TrackDescriptor {
    pub title: Option<String>,
    pub artist: Option<String>,
    pub duration_ms: Option<u64>,
    pub source: SourceRef,
}

/// Why a query or one playlist item could not be turned into a track.
#[derive(Clone, Copy, Debug, PartialEq, Eq, Structural)]
pub enum ResolveError {
    NetworkFailure,
    ContentUnavailable,
    MalformedOutput,
    NoMatch,
}

/// The outcome of resolving one item, in the order the items were requested.
pub type ResolveOutcome = Result<TrackDescriptor, ResolveError>;

impl TrackDescriptor {
    /// Duration counted towards the queue's playtime: an unknown duration counts as zero.
    pub open spec fn spec_duration(self) -> int {
        match self.duration_ms {
            Some(d) => d as int,
            None => 0,
        }
    }

    pub fn new(
        source: SourceRef,
        title: Option<String>,
        artist: Option<String>,
        duration_ms: Option<u64>,
    ) -> (t: TrackDescriptor)
        ensures
            t.source == source,
            t.title == title,
            t.artist == artist,
            t.duration_ms == duration_ms,
    {
        TrackDescriptor { title, artist, duration_ms, source }
    }

    pub fn duration_or_zero(&self) -> (d: u64)
        ensures
            d == self.spec_duration(),
    {
        match self.duration_ms {
            Some(d) => d,
            None => 0,
        }
    }
}

/// Sum of the durations of the tracks in `s`.
pub open spec fn total_duration(s: Seq<TrackDescriptor>) -> int
    decreases s.len(),
{
    if s.len() == 0 {
        0
    } else {
        total_duration(s.drop_last()) + s.last().spec_duration()
    }
}

/// The tracks among `outs`, in order.
pub open spec fn successes(outs: Seq<ResolveOutcome>) -> Seq<TrackDescriptor>
    decreases outs.len(),
{
    if outs.len() == 0 {
        Seq::empty()
    } else {
        let before = successes(outs.drop_last());
        match outs.last() {
            Ok(t) => before.push(t),
            Err(_) => before,
        }
    }
}

/// The errors among `outs`, in order.
pub open spec fn failures(outs: Seq<ResolveOutcome>) -> Seq<ResolveError>
    decreases outs.len(),
{
    if outs.len() == 0 {
        Seq::empty()
    } else {
        let before = failures(outs.drop_last());
        match outs.last() {
            Ok(_) => before,
            Err(e) => before.push(e),
        }
    }
}

pub proof fn lemma_outcomes_split(outs: Seq<ResolveOutcome>)
    ensures
        successes(outs).len() + failures(outs).len() == outs.len(),
    decreases outs.len(),
{
    if outs.len() > 0 {
        lemma_outcomes_split(outs.drop_last());
    }
}

} // verus!
