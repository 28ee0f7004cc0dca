use vstd::prelude::*;
use crate::queue::PlaybackQueue;
use crate::track::{
    failures, lemma_outcomes_split, successes, ResolveError, ResolveOutcome, SourceRef,
    TrackDescriptor,
};

verus! {

/// Why a session operation was refused.
#[derive(Clone, Copy, Debug, PartialEq, Eq, Structural)]
pub enum SessionError {
    /// The operation needs a voice connection and there is none.
    NotConnected,
    /// The voice transport refused the connection.
    JoinError,
    /// A connection already exists; leave before joining another channel.
    AlreadyConnected,
    /// The voice transport failed to tear the connection down.
    LeaveError,
}

/// What a `play` did: the errors of the items that failed, in request order,
/// how many tracks were added, the queue length afterwards, and the stream to
/// start when playback was idle.
pub struct PlayReport {
    pub failures: Vec<ResolveError>,
    pub enqueued: usize,
    pub position: usize,
    pub start: Option<SourceRef>,
}

/// The voice connection and playback queue of one guild.
pub struct GuildVoiceSession {
    guild_id: u64,
    channel: Option<u64>,
    queue: PlaybackQueue,
    playing: bool,
}

/// `new` is `old` after a `play` of `outs` that returned `r`.
pub open spec fn play_effect(
    old: GuildVoiceSession,
    new: GuildVoiceSession,
    outs: Seq<ResolveOutcome>,
    r: PlayReport,
) -> bool {
    let tracks = old.spec_tracks() + successes(outs);
    &&& new.spec_guild() == old.spec_guild()
    &&& new.spec_channel() == old.spec_channel()
    &&& new.spec_tracks() == tracks
    &&& r.failures@ == failures(outs)
    &&& r.enqueued == successes(outs).len()
    &&& r.position == tracks.len()
    &&& if !old.spec_playing() && tracks.len() > 0 {
        &&& new.spec_playing()
        &&& r.start == Some(tracks[0].source)
    } else {
        &&& new.spec_playing() == old.spec_playing()
        &&& r.start is None
    }
}

impl GuildVoiceSession {
    pub closed spec fn spec_guild(&self) -> u64 {
        self.guild_id
    }

    /// The connected channel; `None` is the disconnected state.
    pub closed spec fn spec_channel(&self) -> Option<u64> {
        self.channel
    }

    pub closed spec fn spec_tracks(&self) -> Seq<TrackDescriptor> {
        self.queue@
    }

    pub closed spec fn spec_playing(&self) -> bool {
        self.playing
    }

    /// A disconnected session holds no tracks and plays nothing; a session
    /// with queued tracks is playing.
    pub open spec fn wf(&self) -> bool {
        &&& self.spec_channel() is None ==> (self.spec_tracks().len() == 0 && !self.spec_playing())
        &&& self.spec_tracks().len() > 0 ==> self.spec_playing()
    }

    /// A disconnected session for `guild_id`.
    pub fn new(guild_id: u64) -> (s: GuildVoiceSession)
        ensures
            s.wf(),
            s.spec_guild() == guild_id,
            s.spec_channel() is None,
            s.spec_tracks() == Seq::<TrackDescriptor>::empty(),
            !s.spec_playing(),
    {
        GuildVoiceSession { guild_id, channel: None, queue: PlaybackQueue::new(), playing: false }
    }

    pub fn guild_id(&self) -> (g: u64)
        ensures
            g == self.spec_guild(),
    {
        self.guild_id
    }

    pub fn channel(&self) -> (c: Option<u64>)
        ensures
            c == self.spec_channel(),
    {
        self.channel
    }

    pub fn is_connected(&self) -> (b: bool)
        ensures
            b == self.spec_channel() is Some,
    {
        self.channel.is_some()
    }

    pub fn is_playing(&self) -> (b: bool)
        ensures
            b == self.spec_playing(),
    {
        self.playing
    }

    pub fn queue(&self) -> (q: &PlaybackQueue)
        ensures
            q@ == self.spec_tracks(),
    {
        &self.queue
    }

    /// Connects to `channel_id`. `transport_ok` is whether the voice transport
    /// accepted the connection; it is consulted only from the disconnected state.
    pub fn join(&mut self, channel_id: u64, transport_ok: bool) -> (r: Result<(), SessionError>)
        requires
            old(self).wf(),
        ensures
            final(self).wf(),
            final(self).spec_guild() == old(self).spec_guild(),
            final(self).spec_tracks() == old(self).spec_tracks(),
            final(self).spec_playing() == old(self).spec_playing(),
            old(self).spec_channel() is Some ==> r == Err::<(), SessionError>(
                SessionError::AlreadyConnected,
            ) && final(self).spec_channel() == old(self).spec_channel(),
            old(self).spec_channel() is None && !transport_ok ==> r == Err::<(), SessionError>(
                SessionError::JoinError,
            ) && final(self).spec_channel() is None,
            old(self).spec_channel() is None && transport_ok ==> r is Ok
                && final(self).spec_channel() == Some(channel_id),
    {
        if self.channel.is_some() {
            Err(SessionError::AlreadyConnected)
        } else if !transport_ok {
            Err(SessionError::JoinError)
        } else {
            self.channel = Some(channel_id);
            Ok(())
        }
    }

    /// Appends the resolved tracks of `outcomes` in order, reports each failed
    /// item, and starts the queue head when nothing was playing.
    pub fn play(&mut self, outcomes: Vec<ResolveOutcome>) -> (r: Result<PlayReport, SessionError>)
        requires
            old(self).wf(),
            old(self).spec_tracks().len() + outcomes@.len() <= usize::MAX,
        ensures
            final(self).wf(),
            old(self).spec_channel() is None ==> r is Err && r->Err_0 == SessionError::NotConnected
                && *final(self) == *old(self),
            old(self).spec_channel() is Some ==> r is Ok && play_effect(
                *old(self),
                *final(self),
                outcomes@,
                r->Ok_0,
            ),
    {
        if self.channel.is_none() {
            return Err(SessionError::NotConnected);
        }
        let ghost outs = outcomes@;
        let ghost start_tracks = self.queue@;
        let mut rest = outcomes;
        let mut failed: Vec<ResolveError> = Vec::new();
        let mut enqueued: usize = 0;
        let mut k: usize = 0;
        let n = rest.len();
        proof {
            lemma_outcomes_split(outs);
        }
        while k < n
            invariant
                n == outs.len(),
                k <= n,
                rest@ == outs.subrange(k as int, n as int),
                self.queue@ == start_tracks + successes(outs.subrange(0, k as int)),
                failed@ == failures(outs.subrange(0, k as int)),
                enqueued == successes(outs.subrange(0, k as int)).len(),
                start_tracks.len() + n <= usize::MAX,
                self.channel == old(self).channel,
                self.channel is Some,
                self.guild_id == old(self).guild_id,
                self.playing == old(self).playing,
                start_tracks == old(self).queue@,
            decreases n - k,
        {
            let ghost prefix = outs.subrange(0, k as int);
            let ghost next = outs.subrange(0, k + 1);
            assert(next.drop_last() =~= prefix);
            assert(next.last() == outs[k as int]);
            proof {
                lemma_outcomes_split(prefix);
            }
            let item = rest.remove(0);
            assert(rest@ =~= outs.subrange(k + 1, n as int));
            match item {
                Ok(track) => {
                    self.queue.enqueue(track);
                    enqueued = enqueued + 1;
                },
                Err(e) => {
                    failed.push(e);
                },
            }
            k = k + 1;
        }
        assert(outs.subrange(0, n as int) =~= outs);
        let mut start: Option<SourceRef> = None;
        if !self.playing && !self.queue.is_empty() {
            self.playing = true;
            start = self.queue.head_source();
        }
        let position = self.queue.len();
        Ok(PlayReport { failures: failed, enqueued, position, start })
    }

    /// Halts playback and empties the queue; the connection stays as it is.
    pub fn stop(&mut self) -> (r: Result<(), SessionError>)
        requires
            old(self).wf(),
        ensures
            final(self).wf(),
            final(self).spec_tracks() == Seq::<TrackDescriptor>::empty(),
            !final(self).spec_playing(),
            final(self).spec_guild() == old(self).spec_guild(),
            final(self).spec_channel() == old(self).spec_channel(),
            r is Ok <==> old(self).spec_channel() is Some,
            r is Err ==> r->Err_0 == SessionError::NotConnected,
    {
        if self.channel.is_none() {
            return Err(SessionError::NotConnected);
        }
        self.queue.clear();
        self.playing = false;
        Ok(())
    }

    /// Empties the queue without halting the track already handed to the
    /// transport: the playing flag is kept, so later tracks wait behind it.
    pub fn reset_queue(&mut self) -> (r: Result<(), SessionError>)
        requires
            old(self).wf(),
        ensures
            final(self).wf(),
            final(self).spec_tracks() == Seq::<TrackDescriptor>::empty(),
            final(self).spec_playing() == old(self).spec_playing(),
            final(self).spec_guild() == old(self).spec_guild(),
            final(self).spec_channel() == old(self).spec_channel(),
            r is Ok <==> old(self).spec_channel() is Some,
            r is Err ==> r->Err_0 == SessionError::NotConnected,
    {
        if self.channel.is_none() {
            return Err(SessionError::NotConnected);
        }
        self.queue.clear();
        Ok(())
    }

    /// Disconnects. `transport_ok` is whether the voice transport tore the
    /// connection down; it is consulted only from the connected state.
    pub fn leave(&mut self, transport_ok: bool) -> (r: Result<(), SessionError>)
        requires
            old(self).wf(),
        ensures
            final(self).wf(),
            old(self).spec_channel() is None ==> r == Err::<(), SessionError>(
                SessionError::NotConnected,
            ) && *final(self) == *old(self),
            old(self).spec_channel() is Some && !transport_ok ==> r == Err::<(), SessionError>(
                SessionError::LeaveError,
            ) && *final(self) == *old(self),
            old(self).spec_channel() is Some && transport_ok ==> r is Ok
                && final(self).spec_channel() is None
                && final(self).spec_guild() == old(self).spec_guild()
                && final(self).spec_tracks() == Seq::<TrackDescriptor>::empty()
                && !final(self).spec_playing(),
    {
        if self.channel.is_none() {
            return Err(SessionError::NotConnected);
        }
        if !transport_ok {
            return Err(SessionError::LeaveError);
        }
        self.queue.clear();
        self.playing = false;
        self.channel = None;
        Ok(())
    }
}

} // verus!
