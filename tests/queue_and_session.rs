use alfred::queue::PlaybackQueue;
use alfred::registry::SessionRegistry;
use alfred::session::{GuildVoiceSession, SessionError};
use alfred::track::{ResolveError, ResolveOutcome, SourceRef, TrackDescriptor};

fn track(id: u64, duration_ms: Option<u64>) -> TrackDescriptor {
    TrackDescriptor::new(SourceRef { id }, Some(format!("track {}", id)), None, duration_ms)
}

fn ids(q: &PlaybackQueue) -> Vec<u64> {
    q.current_queue().iter().map(|t| t.source.id).collect()
}

#[test]
fn enqueue_keeps_submission_order() {
    let mut q = PlaybackQueue::new();
    assert_eq!(q.enqueue(track(3, None)), 1);
    assert_eq!(q.enqueue(track(1, None)), 2);
    assert_eq!(q.enqueue(track(2, None)), 3);
    assert_eq!(ids(&q), vec![3, 1, 2]);
    assert_eq!(q.len(), 3);
    assert!(!q.is_empty());
    assert_eq!(q.head_source(), Some(SourceRef { id: 3 }));
}

#[test]
fn total_playtime_sums_durations() {
    let mut q = PlaybackQueue::new();
    assert_eq!(q.total_playtime(), 0);
    q.enqueue(track(1, Some(180_000)));
    q.enqueue(track(2, Some(1_500)));
    q.enqueue(track(3, Some(20)));
    assert_eq!(q.total_playtime(), 181_520);
}

#[test]
fn total_playtime_counts_unknown_duration_as_zero() {
    let mut q = PlaybackQueue::new();
    q.enqueue(track(1, Some(7)));
    q.enqueue(track(2, None));
    assert_eq!(q.total_playtime(), 7);
}

#[test]
fn total_playtime_does_not_overflow_u64() {
    let mut q = PlaybackQueue::new();
    q.enqueue(track(1, Some(u64::MAX)));
    q.enqueue(track(2, Some(u64::MAX)));
    assert_eq!(q.total_playtime(), 2 * (u64::MAX as u128));
}

#[test]
fn clear_is_idempotent() {
    let mut q = PlaybackQueue::new();
    q.enqueue(track(1, Some(5)));
    q.clear();
    assert!(q.is_empty());
    q.clear();
    assert_eq!(q.len(), 0);
    assert_eq!(q.head_source(), None);
}

#[test]
fn duration_or_zero_reads_the_duration() {
    assert_eq!(track(1, Some(42)).duration_or_zero(), 42);
    assert_eq!(track(1, None).duration_or_zero(), 0);
}

fn connected_session() -> GuildVoiceSession {
    let mut s = GuildVoiceSession::new(11);
    assert_eq!(s.join(500, true), Ok(()));
    s
}

#[test]
fn new_session_is_disconnected_and_empty() {
    let s = GuildVoiceSession::new(11);
    assert_eq!(s.guild_id(), 11);
    assert_eq!(s.channel(), None);
    assert!(!s.is_connected());
    assert!(!s.is_playing());
    assert!(s.queue().is_empty());
}

#[test]
fn session_join_failure_stays_disconnected() {
    let mut s = GuildVoiceSession::new(11);
    assert_eq!(s.join(500, false), Err(SessionError::JoinError));
    assert_eq!(s.channel(), None);
}

#[test]
fn session_join_twice_keeps_first_channel() {
    let mut s = connected_session();
    assert_eq!(s.join(600, true), Err(SessionError::AlreadyConnected));
    assert_eq!(s.channel(), Some(500));
}

#[test]
fn play_while_disconnected_is_refused() {
    let mut s = GuildVoiceSession::new(11);
    let r = s.play(vec![Ok(track(1, Some(10)))]);
    assert_eq!(r.err(), Some(SessionError::NotConnected));
    assert!(s.queue().is_empty());
    assert!(!s.is_playing());
}

#[test]
fn play_starts_the_head_when_idle() {
    let mut s = connected_session();
    let report = s.play(vec![Ok(track(4, Some(10))), Ok(track(5, Some(20)))]).unwrap();
    assert_eq!(report.enqueued, 2);
    assert_eq!(report.position, 2);
    assert_eq!(report.start, Some(SourceRef { id: 4 }));
    assert!(report.failures.is_empty());
    assert!(s.is_playing());
    let report = s.play(vec![Ok(track(6, None))]).unwrap();
    assert_eq!(report.start, None);
    assert_eq!(report.position, 3);
    assert_eq!(ids(s.queue()), vec![4, 5, 6]);
}

#[test]
fn playlist_with_failing_middle_item_keeps_the_others() {
    let mut s = connected_session();
    let outcomes: Vec<ResolveOutcome> = vec![
        Ok(track(1, Some(100))),
        Err(ResolveError::ContentUnavailable),
        Ok(track(3, Some(300))),
    ];
    let report = s.play(outcomes).unwrap();
    assert_eq!(ids(s.queue()), vec![1, 3]);
    assert_eq!(report.failures, vec![ResolveError::ContentUnavailable]);
    assert_eq!(report.enqueued, 2);
    assert_eq!(s.queue().total_playtime(), 400);
}

#[test]
fn play_reports_every_failure_in_order() {
    let mut s = connected_session();
    let outcomes: Vec<ResolveOutcome> = vec![
        Err(ResolveError::NetworkFailure),
        Err(ResolveError::NoMatch),
        Err(ResolveError::MalformedOutput),
    ];
    let report = s.play(outcomes).unwrap();
    assert_eq!(
        report.failures,
        vec![ResolveError::NetworkFailure, ResolveError::NoMatch, ResolveError::MalformedOutput]
    );
    assert_eq!(report.enqueued, 0);
    assert_eq!(report.start, None);
    assert!(!s.is_playing());
}

#[test]
fn stop_empties_queue_and_halts() {
    let mut s = connected_session();
    s.play(vec![Ok(track(1, Some(1))), Ok(track(2, Some(2)))]).unwrap();
    assert_eq!(s.stop(), Ok(()));
    assert!(s.queue().is_empty());
    assert!(!s.is_playing());
    assert_eq!(s.channel(), Some(500));
}

#[test]
fn stop_while_disconnected_is_refused() {
    let mut s = GuildVoiceSession::new(2);
    assert_eq!(s.stop(), Err(SessionError::NotConnected));
    assert!(s.queue().is_empty());
}

#[test]
fn reset_queue_keeps_playing_flag() {
    let mut s = connected_session();
    s.play(vec![Ok(track(1, Some(1))), Ok(track(2, Some(2)))]).unwrap();
    assert_eq!(s.reset_queue(), Ok(()));
    assert!(s.queue().is_empty());
    assert!(s.is_playing());
    let report = s.play(vec![Ok(track(3, None))]).unwrap();
    assert_eq!(report.start, None);
    assert_eq!(GuildVoiceSession::new(1).reset_queue(), Err(SessionError::NotConnected));
}

#[test]
fn session_leave() {
    let mut s = connected_session();
    s.play(vec![Ok(track(1, Some(1)))]).unwrap();
    assert_eq!(s.leave(false), Err(SessionError::LeaveError));
    assert_eq!(s.channel(), Some(500));
    assert_eq!(s.queue().len(), 1);
    assert_eq!(s.leave(true), Ok(()));
    assert_eq!(s.channel(), None);
    assert!(s.queue().is_empty());
    assert!(!s.is_playing());
    assert_eq!(s.leave(true), Err(SessionError::NotConnected));
}

#[test]
fn registry_join_creates_entry_only_on_success() {
    let mut r = SessionRegistry::new();
    assert_eq!(r.prepare_join(7), Ok(()));
    assert_eq!(r.join(7, 70, false), Err(SessionError::JoinError));
    assert!(r.get(7).is_none());
    assert_eq!(r.join(7, 70, true), Ok(()));
    assert_eq!(r.get(7).unwrap().channel(), Some(70));
    assert!(r.is_connected(7));
    assert_eq!(r.require_connected(7), Ok(()));
    assert_eq!(r.require_connected(8), Err(SessionError::NotConnected));
}

#[test]
fn registry_join_when_connected_keeps_channel() {
    let mut r = SessionRegistry::new();
    r.join(7, 70, true).unwrap();
    assert_eq!(r.prepare_join(7), Err(SessionError::AlreadyConnected));
    assert_eq!(r.join(7, 71, true), Err(SessionError::AlreadyConnected));
    assert_eq!(r.get(7).unwrap().channel(), Some(70));
}

#[test]
fn registry_play_without_session_is_refused() {
    let mut r = SessionRegistry::new();
    let res = r.play(9, vec![Ok(track(1, None))]);
    assert_eq!(res.err(), Some(SessionError::NotConnected));
    assert!(r.get(9).is_none());
}

#[test]
fn registry_two_plays_add_up() {
    let mut r = SessionRegistry::new();
    r.join(1, 10, true).unwrap();
    let first = r.play(1, vec![Ok(track(1, None)), Ok(track(2, None))]).unwrap();
    let second = r
        .play(1, vec![Ok(track(3, None)), Err(ResolveError::NoMatch), Ok(track(4, None))])
        .unwrap();
    assert_eq!(first.enqueued + second.enqueued, 4);
    assert_eq!(second.position, 4);
    assert_eq!(ids(r.get(1).unwrap().queue()), vec![1, 2, 3, 4]);
}

#[test]
fn registry_guilds_are_independent() {
    let mut r = SessionRegistry::new();
    r.join(1, 10, true).unwrap();
    r.join(2, 20, true).unwrap();
    r.play(1, vec![Ok(track(1, None))]).unwrap();
    r.play(2, vec![Ok(track(2, None))]).unwrap();
    r.stop(1).unwrap();
    assert!(r.get(1).unwrap().queue().is_empty());
    assert_eq!(ids(r.get(2).unwrap().queue()), vec![2]);
}

#[test]
fn registry_stop_and_reset() {
    let mut r = SessionRegistry::new();
    assert_eq!(r.stop(3), Err(SessionError::NotConnected));
    assert_eq!(r.reset_queue(3), Err(SessionError::NotConnected));
    r.join(3, 30, true).unwrap();
    r.play(3, vec![Ok(track(1, None))]).unwrap();
    assert_eq!(r.reset_queue(3), Ok(()));
    assert!(r.get(3).unwrap().queue().is_empty());
    assert!(r.get(3).unwrap().is_playing());
    r.play(3, vec![Ok(track(2, None))]).unwrap();
    assert_eq!(r.stop(3), Ok(()));
    assert!(r.get(3).unwrap().queue().is_empty());
    assert!(!r.get(3).unwrap().is_playing());
}

#[test]
fn registry_leave() {
    let mut r = SessionRegistry::new();
    assert_eq!(r.leave(5, true), Err(SessionError::NotConnected));
    r.join(5, 50, true).unwrap();
    assert_eq!(r.leave(5, false), Err(SessionError::LeaveError));
    assert!(r.is_connected(5));
    assert_eq!(r.leave(5, true), Ok(()));
    assert!(r.get(5).is_none());
    assert_eq!(r.leave(5, true), Err(SessionError::NotConnected));
}

#[test]
fn failed_play_leaves_queue_and_playing_as_they_were() {
    let mut s = connected_session();
    s.play(vec![Ok(track(1, Some(5)))]).unwrap();
    let report = s.play(vec![Err(ResolveError::NetworkFailure)]).unwrap();
    assert_eq!(report.failures, vec![ResolveError::NetworkFailure]);
    assert_eq!(report.enqueued, 0);
    assert_eq!(report.start, None);
    assert_eq!(report.position, 1);
    assert_eq!(ids(s.queue()), vec![1]);
    assert!(s.is_playing());
}
