use vstd::prelude::*;
use crate::track::{total_duration, SourceRef, TrackDescriptor};

verus! {

/// The ordered pending tracks of one guild. Tracks leave only all at once,
/// through `clear`.
pub struct PlaybackQueue {
    tracks: Vec<TrackDescriptor>,
}

impl View for PlaybackQueue {
    type V = Seq<TrackDescriptor>;

    closed spec fn view(&self) -> Seq<TrackDescriptor> {
        self.tracks@
    }
}

impl PlaybackQueue {
    pub fn new() -> (q: PlaybackQueue)
        ensures
            q@ == Seq::<TrackDescriptor>::empty(),
    {
        PlaybackQueue { tracks: Vec::new() }
    }

    /// Appends `track` and returns its 1-based position, the new length.
    pub fn enqueue(&mut self, track: TrackDescriptor) -> (position: usize)
        requires
            old(self)@.len() < usize::MAX,
        ensures
            final(self)@ == old(self)@.push(track),
            position == final(self)@.len(),
    {
        self.tracks.push(track);
        self.tracks.len()
    }

    /// The queued tracks, first enqueued first.
    pub fn current_queue(&self) -> (r: &[TrackDescriptor])
        ensures
            r@ == self@,
    {
        self.tracks.as_slice()
    }

    pub fn len(&self) -> (n: usize)
        ensures
            n == self@.len(),
    {
        self.tracks.len()
    }

    pub fn is_empty(&self) -> (b: bool)
        ensures
            b == (self@.len() == 0),
    {
        self.tracks.len() == 0
    }

    /// Empties the queue; doing it twice is the same as doing it once.
    pub fn clear(&mut self)
        ensures
            final(self)@ == Seq::<TrackDescriptor>::empty(),
    {
        self.tracks.clear();
    }

    /// The source of the first queued track, if any.
    pub fn head_source(&self) -> (r: Option<SourceRef>)
        ensures
            self@.len() == 0 ==> r is None,
            self@.len() > 0 ==> r == Some(self@[0].source),
    {
        if self.tracks.len() == 0 {
            None
        } else {
            Some(self.tracks[0].source)
        }
    }

    /// Sum of the durations of the queued tracks, computed afresh on each call.
    pub fn total_playtime(&self) -> (total: u128)
        ensures
            total == total_duration(self@),
    {
        let mut sum: u128 = 0;
        let mut i: usize = 0;
        while i < self.tracks.len()
            invariant
                i <= self.tracks@.len(),
                sum == total_duration(self.tracks@.subrange(0, i as int)),
                sum <= i * (u64::MAX as int),
            decreases self.tracks@.len() - i,
        {
            let d = self.tracks[i].duration_or_zero();
            assert(self.tracks@.subrange(0, i + 1).drop_last() =~= self.tracks@.subrange(
                0,
                i as int,
            ));
            sum = sum + d as u128;
            i = i + 1;
        }
        assert(self.tracks@.subrange(0, i as int) =~= self.tracks@);
        sum
    }
}

} // verus!
