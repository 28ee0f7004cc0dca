use vstd::prelude::*;
use crate::session::{play_effect, GuildVoiceSession, PlayReport};
use crate::track::{
    failures, lemma_outcomes_split, successes, total_duration, ResolveError, ResolveOutcome,
    TrackDescriptor,
};

verus! {

/// The queue `s` after `PlaybackQueue::enqueue` of each of `ts`, first to last.
pub open spec fn after_enqueues(s: Seq<TrackDescriptor>, ts: Seq<TrackDescriptor>) -> Seq<
    TrackDescriptor,
>
    decreases ts.len(),
{
    if ts.len() == 0 {
        s
    } else {
        after_enqueues(s, ts.drop_last()).push(ts.last())
    }
}

/// Enqueuing tracks one after another keeps them in the order they were
/// submitted, behind what was queued before, and each enqueue adds one to the
/// length.
pub proof fn lemma_enqueue_order(s: Seq<TrackDescriptor>, ts: Seq<TrackDescriptor>)
    ensures
        after_enqueues(s, ts) == s + ts,
        after_enqueues(s, ts).len() == s.len() + ts.len(),
    decreases ts.len(),
{
    if ts.len() == 0 {
        assert(s + ts =~= s);
    } else {
        lemma_enqueue_order(s, ts.drop_last());
        assert((s + ts.drop_last()).push(ts.last()) =~= s + ts);
    }
}

/// The playtime of two queues one after the other is the sum of their playtimes.
pub proof fn lemma_playtime_concat(a: Seq<TrackDescriptor>, b: Seq<TrackDescriptor>)
    ensures
        total_duration(a + b) == total_duration(a) + total_duration(b),
    decreases b.len(),
{
    if b.len() == 0 {
        assert(a + b =~= a);
    } else {
        lemma_playtime_concat(a, b.drop_last());
        assert((a + b).drop_last() =~= a + b.drop_last());
    }
}

/// Enqueuing `t` into an empty queue and then each of `ds` gives a playtime of
/// the duration of `t` plus the durations of `ds`.
pub proof fn lemma_playtime_after_enqueues(t: TrackDescriptor, ds: Seq<TrackDescriptor>)
    ensures
        total_duration(after_enqueues(Seq::empty().push(t), ds)) == t.spec_duration()
            + total_duration(ds),
{
    let first = Seq::<TrackDescriptor>::empty().push(t);
    lemma_enqueue_order(first, ds);
    lemma_playtime_concat(first, ds);
    assert(first.drop_last() =~= Seq::<TrackDescriptor>::empty());
    assert(total_duration(Seq::<TrackDescriptor>::empty()) == 0);
    assert(first.last() == t);
    assert(total_duration(first) == t.spec_duration());
}

/// Two plays on one session, one after the other, lose no track: the queue
/// ends with the tracks of the first play and then those of the second, and
/// its length grows by exactly what each adds.
pub proof fn lemma_plays_serialize(
    s0: GuildVoiceSession,
    s1: GuildVoiceSession,
    s2: GuildVoiceSession,
    a: Seq<ResolveOutcome>,
    b: Seq<ResolveOutcome>,
    ra: PlayReport,
    rb: PlayReport,
)
    requires
        play_effect(s0, s1, a, ra),
        play_effect(s1, s2, b, rb),
    ensures
        s2.spec_tracks() == s0.spec_tracks() + successes(a) + successes(b),
        s2.spec_tracks().len() == s0.spec_tracks().len() + ra.enqueued + rb.enqueued,
        rb.position == s0.spec_tracks().len() + ra.enqueued + rb.enqueued,
{
}

/// A play keeps the queued tracks and appends the resolved ones behind them in
/// the order they were requested; the length grows by the number enqueued and
/// the playtime by their durations.
pub proof fn lemma_play_appends_in_order(
    s0: GuildVoiceSession,
    s1: GuildVoiceSession,
    outs: Seq<ResolveOutcome>,
    r: PlayReport,
)
    requires
        play_effect(s0, s1, outs, r),
    ensures
        s1.spec_tracks() == s0.spec_tracks() + successes(outs),
        s1.spec_tracks().len() == s0.spec_tracks().len() + r.enqueued,
        total_duration(s1.spec_tracks()) == total_duration(s0.spec_tracks()) + total_duration(
            successes(outs),
        ),
{
    lemma_playtime_concat(s0.spec_tracks(), successes(outs));
}

/// A play in which no item resolves changes neither the queue nor the playing
/// state, starts nothing, and reports one failure per item.
pub proof fn lemma_failed_play_changes_nothing(
    s0: GuildVoiceSession,
    s1: GuildVoiceSession,
    outs: Seq<ResolveOutcome>,
    r: PlayReport,
)
    requires
        s0.wf(),
        forall|i: int| 0 <= i < outs.len() ==> (#[trigger] outs[i]) is Err,
        play_effect(s0, s1, outs, r),
    ensures
        s1.spec_tracks() == s0.spec_tracks(),
        s1.spec_playing() == s0.spec_playing(),
        r.start is None,
        r.enqueued == 0,
        r.failures@.len() == outs.len(),
{
    lemma_no_successes(outs);
    lemma_outcomes_split(outs);
    assert(s0.spec_tracks() + successes(outs) =~= s0.spec_tracks());
}

proof fn lemma_no_successes(outs: Seq<ResolveOutcome>)
    requires
        forall|i: int| 0 <= i < outs.len() ==> (#[trigger] outs[i]) is Err,
    ensures
        successes(outs).len() == 0,
    decreases outs.len(),
{
    if outs.len() > 0 {
        let t = outs.drop_last();
        assert forall|i: int| 0 <= i < t.len() implies (#[trigger] t[i]) is Err by {
            assert(t[i] == outs[i]);
        }
        lemma_no_successes(t);
        assert(outs[outs.len() - 1] is Err);
    }
}

/// A playlist of three items whose middle one fails adds exactly the first
/// and the third, in that order, and reports exactly the one failure.
pub proof fn lemma_playlist_middle_failure(
    s0: GuildVoiceSession,
    s1: GuildVoiceSession,
    t1: TrackDescriptor,
    e: ResolveError,
    t3: TrackDescriptor,
    r: PlayReport,
)
    requires
        play_effect(s0, s1, seq![Ok(t1), Err(e), Ok(t3)], r),
    ensures
        s1.spec_tracks() == s0.spec_tracks() + seq![t1, t3],
        r.enqueued == 2,
        r.failures@ == seq![e],
{
    let outs: Seq<ResolveOutcome> = seq![Ok(t1), Err(e), Ok(t3)];
    let o2 = outs.drop_last();
    let o1 = o2.drop_last();
    assert(o1.drop_last() =~= Seq::<ResolveOutcome>::empty());
    assert(o1 =~= seq![Ok::<TrackDescriptor, ResolveError>(t1)]);
    assert(successes(o1.drop_last()) == Seq::<TrackDescriptor>::empty());
    assert(failures(o1.drop_last()) == Seq::<ResolveError>::empty());
    assert(o1.last() == Ok::<TrackDescriptor, ResolveError>(t1));
    assert(o2.last() == Err::<TrackDescriptor, ResolveError>(e));
    assert(outs.last() == Ok::<TrackDescriptor, ResolveError>(t3));
    assert(successes(o1) =~= seq![t1]);
    assert(failures(o1) =~= Seq::<ResolveError>::empty());
    assert(successes(o2) == successes(o1));
    assert(failures(o2) == failures(o1).push(e));
    assert(successes(outs) == successes(o2).push(t3));
    assert(failures(outs) == failures(o2));
    assert(successes(outs) =~= seq![t1, t3]);
    assert(failures(outs) =~= seq![e]);
}

} // verus!
