use vstd::prelude::*;
use std::collections::HashMap;
use crate::session::{play_effect, GuildVoiceSession, PlayReport, SessionError};
use crate::track::{ResolveOutcome, TrackDescriptor};

verus! {

broadcast use vstd::std_specs::hash::group_hash_axioms;

/// The voice sessions of all guilds, keyed by guild id. A guild has an entry
/// exactly while it is connected: `join` creates it, `leave` removes it.
pub struct SessionRegistry {
    sessions: HashMap<u64, GuildVoiceSession>,
}

impl View for SessionRegistry {
    type V = Map<u64, GuildVoiceSession>;

    closed spec fn view(&self) -> Map<u64, GuildVoiceSession> {
        self.sessions@
    }
}

impl SessionRegistry {
    /// Every entry is a well-formed, connected session of the guild it is filed under.
    pub open spec fn wf(&self) -> bool {
        forall|g: u64| #[trigger]
            self@.contains_key(g) ==> {
                &&& self@[g].wf()
                &&& self@[g].spec_guild() == g
                &&& self@[g].spec_channel() is Some
            }
    }

    /// The queue of `guild`; a guild without a session has an empty one.
    pub open spec fn queue_of(&self, guild: u64) -> Seq<TrackDescriptor> {
        if self@.contains_key(guild) {
            self@[guild].spec_tracks()
        } else {
            Seq::empty()
        }
    }

    pub fn new() -> (r: SessionRegistry)
        ensures
            r.wf(),
            r@ == Map::<u64, GuildVoiceSession>::empty(),
    {
        SessionRegistry { sessions: HashMap::new() }
    }

    pub fn get(&self, guild: u64) -> (r: Option<&GuildVoiceSession>)
        ensures
            match r {
                Some(s) => self@.contains_key(guild) && *s == self@[guild],
                None => !self@.contains_key(guild),
            },
    {
        self.sessions.get(&guild)
    }

    pub fn is_connected(&self, guild: u64) -> (b: bool)
        ensures
            b == self@.contains_key(guild),
    {
        self.sessions.contains_key(&guild)
    }

    /// Whether an operation that needs a connection may go ahead for `guild`;
    /// checked before any slow resolution is started.
    pub fn require_connected(&self, guild: u64) -> (r: Result<(), SessionError>)
        ensures
            r is Ok <==> self@.contains_key(guild),
            r is Err ==> r->Err_0 == SessionError::NotConnected,
    {
        if self.sessions.contains_key(&guild) {
            Ok(())
        } else {
            Err(SessionError::NotConnected)
        }
    }

    /// Whether the voice transport should be asked to connect `guild`.
    pub fn prepare_join(&self, guild: u64) -> (r: Result<(), SessionError>)
        ensures
            r is Ok <==> !self@.contains_key(guild),
            r is Err ==> r->Err_0 == SessionError::AlreadyConnected,
    {
        if self.sessions.contains_key(&guild) {
            Err(SessionError::AlreadyConnected)
        } else {
            Ok(())
        }
    }

    /// Records the outcome of connecting `guild` to `channel_id`. A connected
    /// guild keeps its channel; a refused connection creates no entry.
    pub fn join(&mut self, guild: u64, channel_id: u64, transport_ok: bool) -> (r: Result<
        (),
        SessionError,
    >)
        requires
            old(self).wf(),
        ensures
            final(self).wf(),
            old(self)@.contains_key(guild) ==> r == Err::<(), SessionError>(
                SessionError::AlreadyConnected,
            ) && final(self)@ == old(self)@,
            !old(self)@.contains_key(guild) && !transport_ok ==> r == Err::<(), SessionError>(
                SessionError::JoinError,
            ) && final(self)@ == old(self)@,
            !old(self)@.contains_key(guild) && transport_ok ==> {
                &&& r is Ok
                &&& final(self)@.contains_key(guild)
                &&& final(self)@ == old(self)@.insert(guild, final(self)@[guild])
                &&& final(self)@[guild].spec_channel() == Some(channel_id)
                &&& final(self)@[guild].spec_tracks() == Seq::<TrackDescriptor>::empty()
                &&& !final(self)@[guild].spec_playing()
            },
    {
        if self.sessions.contains_key(&guild) {
            return Err(SessionError::AlreadyConnected);
        }
        if !transport_ok {
            return Err(SessionError::JoinError);
        }
        let mut s = GuildVoiceSession::new(guild);
        let _ = s.join(channel_id, true);
        self.sessions.insert(guild, s);
        Ok(())
    }

    /// Adds the resolved tracks of `outcomes` to the queue of `guild`, in
    /// order, and reports the failed ones; see `GuildVoiceSession::play`.
    pub fn play(&mut self, guild: u64, outcomes: Vec<ResolveOutcome>) -> (r: Result<
        PlayReport,
        SessionError,
    >)
        requires
            old(self).wf(),
            old(self).queue_of(guild).len() + outcomes@.len() <= usize::MAX,
        ensures
            final(self).wf(),
            !old(self)@.contains_key(guild) ==> r is Err && r->Err_0 == SessionError::NotConnected
                && final(self)@ == old(self)@,
            old(self)@.contains_key(guild) ==> {
                &&& r is Ok
                &&& final(self)@.contains_key(guild)
                &&& final(self)@ == old(self)@.insert(guild, final(self)@[guild])
                &&& play_effect(old(self)@[guild], final(self)@[guild], outcomes@, r->Ok_0)
            },
    {
        match self.sessions.remove(&guild) {
            None => {
                assert(self.sessions@ =~= old(self).sessions@);
                Err(SessionError::NotConnected)
            },
            Some(mut s) => {
                let r = s.play(outcomes);
                self.sessions.insert(guild, s);
                assert(self.sessions@ =~= old(self).sessions@.insert(guild, s));
                r
            },
        }
    }

    /// Halts playback and empties the queue of `guild`.
    pub fn stop(&mut self, guild: u64) -> (r: Result<(), SessionError>)
        requires
            old(self).wf(),
        ensures
            final(self).wf(),
            final(self).queue_of(guild) == Seq::<TrackDescriptor>::empty(),
            !old(self)@.contains_key(guild) ==> r == Err::<(), SessionError>(
                SessionError::NotConnected,
            ) && final(self)@ == old(self)@,
            old(self)@.contains_key(guild) ==> {
                &&& r is Ok
                &&& final(self)@.contains_key(guild)
                &&& final(self)@ == old(self)@.insert(guild, final(self)@[guild])
                &&& final(self)@[guild].spec_channel() == old(self)@[guild].spec_channel()
                &&& !final(self)@[guild].spec_playing()
            },
    {
        match self.sessions.remove(&guild) {
            None => {
                assert(self.sessions@ =~= old(self).sessions@);
                Err(SessionError::NotConnected)
            },
            Some(mut s) => {
                let r = s.stop();
                self.sessions.insert(guild, s);
                assert(self.sessions@ =~= old(self).sessions@.insert(guild, s));
                r
            },
        }
    }

    /// Empties the queue of `guild` and leaves the playing track alone.
    pub fn reset_queue(&mut self, guild: u64) -> (r: Result<(), SessionError>)
        requires
            old(self).wf(),
        ensures
            final(self).wf(),
            final(self).queue_of(guild) == Seq::<TrackDescriptor>::empty(),
            !old(self)@.contains_key(guild) ==> r == Err::<(), SessionError>(
                SessionError::NotConnected,
            ) && final(self)@ == old(self)@,
            old(self)@.contains_key(guild) ==> {
                &&& r is Ok
                &&& final(self)@.contains_key(guild)
                &&& final(self)@ == old(self)@.insert(guild, final(self)@[guild])
                &&& final(self)@[guild].spec_channel() == old(self)@[guild].spec_channel()
                &&& final(self)@[guild].spec_playing() == old(self)@[guild].spec_playing()
            },
    {
        match self.sessions.remove(&guild) {
            None => {
                assert(self.sessions@ =~= old(self).sessions@);
                Err(SessionError::NotConnected)
            },
            Some(mut s) => {
                let r = s.reset_queue();
                self.sessions.insert(guild, s);
                assert(self.sessions@ =~= old(self).sessions@.insert(guild, s));
                r
            },
        }
    }

    /// Records the outcome of disconnecting `guild`. The entry goes only when
    /// the transport tore the connection down.
    pub fn leave(&mut self, guild: u64, transport_ok: bool) -> (r: Result<(), SessionError>)
        requires
            old(self).wf(),
        ensures
            final(self).wf(),
            !old(self)@.contains_key(guild) ==> r == Err::<(), SessionError>(
                SessionError::NotConnected,
            ) && final(self)@ == old(self)@,
            old(self)@.contains_key(guild) && !transport_ok ==> r == Err::<(), SessionError>(
                SessionError::LeaveError,
            ) && final(self)@ == old(self)@,
            old(self)@.contains_key(guild) && transport_ok ==> r is Ok && final(self)@ == old(
                self,
            )@.remove(guild),
    {
        if !self.sessions.contains_key(&guild) {
            return Err(SessionError::NotConnected);
        }
        if !transport_ok {
            return Err(SessionError::LeaveError);
        }
        self.sessions.remove(&guild);
        Ok(())
    }
}

} // verus!
