//! Properties of the playlist coordinator over sequences of submissions and
//! player events.

use vstd::prelude::*;

use crate::player::spawn_args_spec;
use crate::session::{
    event_spec, idle_event, load_actions, quit_frame, submit_spec, ActionView, PlayerEvent,
    SessionView, TrackBundle,
};

verus! {

/// Submits `bs` in order, collecting the actions.
pub open spec fn submit_all(s: SessionView, bs: Seq<TrackBundle>, token: Seq<char>) -> (
    SessionView,
    Seq<ActionView>,
)
    decreases bs.len(),
{
    if bs.len() == 0 {
        (s, Seq::<ActionView>::empty())
    } else {
        let (s1, a1) = submit_all(s, bs.drop_last(), token);
        let (s2, a2) = submit_spec(s1, bs.last(), token);
        (s2, a1 + a2)
    }
}

/// Feeds `es` in order, collecting the actions.
pub open spec fn run_events(s: SessionView, es: Seq<PlayerEvent>) -> (SessionView, Seq<ActionView>)
    decreases es.len(),
{
    if es.len() == 0 {
        (s, Seq::<ActionView>::empty())
    } else {
        let (s1, a1) = run_events(s, es.drop_last());
        let (s2, a2) = event_spec(s1, es.last());
        (s2, a1 + a2)
    }
}

/// The loaded item starts playing and then finishes.
pub open spec fn play_round(s: SessionView) -> (SessionView, Seq<ActionView>) {
    let (s1, a1) = event_spec(s, PlayerEvent::FileStarted);
    let (s2, a2) = event_spec(s1, idle_event());
    (s2, a1 + a2)
}

/// `n` items in a row play to their end.
pub open spec fn play_rounds(s: SessionView, n: nat) -> (SessionView, Seq<ActionView>)
    decreases n,
{
    if n == 0 {
        (s, Seq::<ActionView>::empty())
    } else {
        let (s1, a1) = play_round(s);
        let (s2, a2) = play_rounds(s1, (n - 1) as nat);
        (s2, a1 + a2)
    }
}

/// The actions that load each bundle of `q`, front first.
pub open spec fn loads_of(q: Seq<TrackBundle>) -> Seq<ActionView>
    decreases q.len(),
{
    if q.len() == 0 {
        Seq::<ActionView>::empty()
    } else {
        load_actions(q[0]) + loads_of(q.drop_first())
    }
}

/// While the player runs, submissions never launch another player nor load
/// anything at once: each playable bundle joins the back of the queue.
pub proof fn lemma_no_second_spawn(s: SessionView, bs: Seq<TrackBundle>, token: Seq<char>)
    requires
        s.process_running,
    ensures
        submit_all(s, bs, token).1 == Seq::<ActionView>::empty(),
        submit_all(s, bs, token).0.process_running,
        (forall|i: int| 0 <= i < bs.len() ==> (#[trigger] bs[i]).playable()) ==> submit_all(
            s,
            bs,
            token,
        ).0 == (SessionView { queue: s.queue + bs, ..s }),
    decreases bs.len(),
{
    if bs.len() > 0 {
        lemma_no_second_spawn(s, bs.drop_last(), token);
        let s1 = submit_all(s, bs.drop_last(), token).0;
        assert(Seq::<ActionView>::empty() + Seq::<ActionView>::empty() =~= Seq::<
            ActionView,
        >::empty());
        if forall|i: int| 0 <= i < bs.len() ==> (#[trigger] bs[i]).playable() {
            assert(forall|i: int|
                0 <= i < bs.drop_last().len() ==> (#[trigger] bs.drop_last()[i]).playable()) by {
                assert(forall|i: int|
                    0 <= i < bs.drop_last().len() ==> bs.drop_last()[i] == bs[i]);
            }
            assert(bs[bs.len() - 1].playable());
            assert(s.queue + bs =~= (s.queue + bs.drop_last()).push(bs.last()));
        }
    }
}

/// From a running session, letting every queued item play to its end loads
/// the queued bundles one after the other, front first, and empties the queue.
pub proof fn lemma_rounds_load_in_order(s: SessionView)
    requires
        s.process_running,
    ensures
        play_rounds(s, s.queue.len()).1 == loads_of(s.queue),
        play_rounds(s, s.queue.len()).0.queue == Seq::<TrackBundle>::empty(),
        play_rounds(s, s.queue.len()).0.process_running,
    decreases s.queue.len(),
{
    if s.queue.len() > 0 {
        let s1 = play_round(s).0;
        assert(Seq::<ActionView>::empty() + load_actions(s.queue[0]) =~= load_actions(s.queue[0]));
        assert(s1 == SessionView {
            playback_started: false,
            queue: s.queue.drop_first(),
            loaded: Some(s.queue[0]),
            ..s
        });
        lemma_rounds_load_in_order(s1);
    } else {
        assert(loads_of(s.queue) == Seq::<ActionView>::empty());
    }
}

/// Bundles submitted while a session is active are loaded in the order of
/// submission, after those already queued, and never reordered.
pub proof fn lemma_fifo(s: SessionView, bs: Seq<TrackBundle>, token: Seq<char>)
    requires
        s.process_running,
        forall|i: int| 0 <= i < bs.len() ==> (#[trigger] bs[i]).playable(),
    ensures
        ({
            let (s1, a1) = submit_all(s, bs, token);
            let (s2, a2) = play_rounds(s1, s1.queue.len());
            &&& a1 == Seq::<ActionView>::empty()
            &&& s1.queue == s.queue + bs
            &&& a2 == loads_of(s.queue + bs)
            &&& s2.queue == Seq::<TrackBundle>::empty()
            &&& s2.process_running
        }),
{
    lemma_no_second_spawn(s, bs, token);
    let s1 = submit_all(s, bs, token).0;
    lemma_rounds_load_in_order(s1);
}

/// Once the queue is empty and the loaded item has played, the idle event
/// makes the session quit the player; from then on no event sends anything
/// more nor marks the player running again.
pub proof fn lemma_quit_once(s: SessionView, es: Seq<PlayerEvent>)
    requires
        s.process_running,
        s.playback_started,
        s.queue.len() == 0,
    ensures
        event_spec(s, idle_event()) == (
            SessionView { process_running: false, playback_started: false, loaded: None, ..s },
            seq![ActionView::Send(quit_frame())],
        ),
        run_events(event_spec(s, idle_event()).0, es).1 == Seq::<ActionView>::empty(),
        !run_events(event_spec(s, idle_event()).0, es).0.process_running,
{
    lemma_stopped_stays_silent(event_spec(s, idle_event()).0, es);
}

/// A session whose player is not running sends nothing on any events.
pub proof fn lemma_stopped_stays_silent(s: SessionView, es: Seq<PlayerEvent>)
    requires
        !s.process_running,
    ensures
        run_events(s, es).1 == Seq::<ActionView>::empty(),
        !run_events(s, es).0.process_running,
    decreases es.len(),
{
    if es.len() > 0 {
        lemma_stopped_stays_silent(s, es.drop_last());
        assert(Seq::<ActionView>::empty() + Seq::<ActionView>::empty() =~= Seq::<
            ActionView,
        >::empty());
    }
}

/// Every action that loads a bundle is a line sent to the player.
pub proof fn lemma_loads_only_send(b: TrackBundle)
    ensures
        forall|i: int| 0 <= i < load_actions(b).len() ==> (#[trigger] load_actions(b)[i]) is Send,
{
}

/// Starting with the player stopped, a run of submissions whose first bundle
/// is playable launches the player exactly once: the first submission's
/// actions are all there is, and only their first action is a launch.
pub proof fn lemma_single_spawn(s: SessionView, bs: Seq<TrackBundle>, token: Seq<char>)
    requires
        !s.process_running,
        bs.len() > 0,
        bs[0].playable(),
    ensures
        submit_all(s, bs, token).1 == submit_spec(s, bs[0], token).1,
        submit_all(s, bs, token).0.process_running,
        submit_all(s, bs, token).1[0] == ActionView::Spawn(spawn_args_spec(s.socket, token)),
        forall|i: int|
            1 <= i < submit_all(s, bs, token).1.len() ==> (#[trigger] submit_all(
                s,
                bs,
                token,
            ).1[i]) is Send,
    decreases bs.len(),
{
    let first = submit_spec(s, bs[0], token).1;
    let q = s.queue.push(bs[0]);
    lemma_loads_only_send(q[0]);
    assert(forall|i: int| 1 <= i < first.len() ==> #[trigger] first[i] == load_actions(q[0])[i - 1]);
    if bs.len() == 1 {
        assert(Seq::<ActionView>::empty() + first =~= first);
    } else {
        lemma_single_spawn(s, bs.drop_last(), token);
        assert(bs.drop_last()[0] == bs[0]);
        assert(first + Seq::<ActionView>::empty() =~= first);
    }
}

/// While the player runs, a playable bundle is only queued: nothing is sent,
/// the loaded item and whether it started are kept, and the bundle joins the
/// back of the queue. The only event that sends anything is the idle event
/// once the loaded item has started.
pub proof fn lemma_enqueue_while_playing(
    s: SessionView,
    b: TrackBundle,
    token: Seq<char>,
    e: PlayerEvent,
)
    requires
        s.process_running,
        b.playable(),
    ensures
        submit_spec(s, b, token) == (SessionView { queue: s.queue.push(b), ..s }, Seq::<
            ActionView,
        >::empty()),
        event_spec(s, e).1.len() > 0 ==> e == idle_event() && s.playback_started,
{
}

} // verus!
