//! The player's snapshot of the engine's state, and what holds of the
//! engine and the snapshot together.
use vstd::prelude::*;

use crate::player_engine::{
    at_end, lemma_seek_lands_near, ms_of_ts, step_action, step_decode_error, step_decoded,
    step_open_failed, step_read_failed, ts_of_ms, ChunkSpan, Directive, EngineView, PlayerActions,
    PlayerStatus, Playing, IDLE_PAUSE_MS,
};

verus! {

/// The player's mirror of the engine's state, built from its status events.
/// Positions and durations are in milliseconds.
pub struct PlayerState {
    pub playing: Playing,
    pub duration: u64,
    pub position: u64,
    pub error: Option<String>,
    pub chunks: Vec<ChunkSpan>,
}

/// The abstract state of a `PlayerState`.
pub struct StateView {
    pub playing: Playing,
    pub duration: u64,
    pub position: u64,
    pub error: Option<String>,
    pub chunks: Seq<ChunkSpan>,
}

impl View for PlayerState {
    type V = StateView;

    open spec fn view(&self) -> StateView {
        StateView {
            playing: self.playing,
            duration: self.duration,
            position: self.position,
            error: self.error,
            chunks: self.chunks@,
        }
    }
}

/// The snapshot after one status event. An error that arrives within one
/// second of the end is the end of the stream, not an error; finishing
/// clears a latched error too.
pub open spec fn apply_status(s: StateView, st: PlayerStatus) -> StateView {
    match st {
        PlayerStatus::SendPlaying(p) => if p == Playing::Finished {
            StateView { playing: p, error: None, ..s }
        } else {
            StateView { playing: p, ..s }
        },
        PlayerStatus::SendTimeStats(position, duration) => StateView { position, duration, ..s },
        PlayerStatus::Error(msg) => if at_end(s.position, s.duration) {
            StateView { playing: Playing::Finished, error: None, ..s }
        } else {
            StateView { error: Some(msg), ..s }
        },
        PlayerStatus::ClearError => StateView { error: None, chunks: seq![], ..s },
        PlayerStatus::ChunkAdded(span) => StateView { chunks: s.chunks.push(span), ..s },
    }
}

/// The snapshot after a sequence of status events, in order.
pub open spec fn apply_all(s: StateView, events: Seq<PlayerStatus>) -> StateView
    decreases events.len(),
{
    if events.len() == 0 {
        s
    } else {
        apply_status(apply_all(s, events.take(events.len() - 1)), events.last())
    }
}

impl PlayerState {
    /// The snapshot before any event: playing, at zero, with no error.
    pub fn new() -> (r: Self)
        ensures
            r@ == (StateView {
                playing: Playing::Playing,
                duration: 0,
                position: 0,
                error: None,
                chunks: seq![],
            }),
    {
        PlayerState {
            playing: Playing::Playing,
            duration: 0,
            position: 0,
            error: None,
            chunks: Vec::new(),
        }
    }

    /// Takes one status event into the snapshot.
    pub fn apply(&mut self, status: PlayerStatus)
        ensures
            final(self)@ == apply_status(old(self)@, status),
    {
        match status {
            PlayerStatus::SendPlaying(p) => {
                if p == Playing::Finished {
                    self.error = None;
                }
                self.playing = p;
            },
            PlayerStatus::SendTimeStats(position, duration) => {
                self.position = position;
                self.duration = duration;
            },
            PlayerStatus::Error(msg) => {
                if self.position as u128 + 1000 >= self.duration as u128 {
                    self.error = None;
                    self.playing = Playing::Finished;
                } else {
                    self.error = Some(msg);
                }
            },
            PlayerStatus::ClearError => {
                self.error = None;
                self.chunks = Vec::new();
                assert(self.chunks@ =~= seq![]);
            },
            PlayerStatus::ChunkAdded(span) => {
                self.chunks.push(span);
            },
        }
    }

    /// Takes a run of status events into the snapshot, in order.
    pub fn apply_all(&mut self, events: Vec<PlayerStatus>)
        ensures
            final(self)@ == apply_all(old(self)@, events@),
    {
        let ghost start = self@;
        for e in it: events
            invariant
                it.seq() == events@,
                self@ == apply_all(start, events@.take(it.index())),
        {
            assert(events@.take(it.index() + 1).take(it.index()) =~= events@.take(it.index()));
            self.apply(e);
        }
        assert(events@.take(events@.len() as int) =~= events@);
    }

    pub fn is_in_error_state(&self) -> (r: bool)
        ensures
            r == self@.error is Some,
    {
        self.error.is_some()
    }
}

/// The target of a seek by `delta` milliseconds from `position`, held to
/// the range of a `u64`.
pub fn relative_seek_target(position: u64, delta: i64) -> (r: u64)
    ensures
        r == (if position + delta < 0 {
            0
        } else if position + delta > u64::MAX {
            u64::MAX as int
        } else {
            position + delta
        }),
{
    let t: i128 = position as i128 + delta as i128;
    if t < 0 {
        0
    } else if t > u64::MAX as i128 {
        u64::MAX
    } else {
        t as u64
    }
}

/// A seek while no stream is open does nothing and reports nothing.
pub proof fn lemma_seek_while_idle_is_noop(v: EngineView, t: u64)
    requires
        !v.closed,
        v.session is None,
    ensures
        step_action(v, Some(PlayerActions::Seek(t))) == (v, Directive::Sleep(IDLE_PAUSE_MS), Seq::<
            PlayerStatus,
        >::empty()),
{
}

/// A seek while paused goes to the demuxer at once. Once playback resumes,
/// the packet at the timestamp it asked for reports a position at most `t`
/// and less than one tick (plus rounding) before it.
pub proof fn lemma_seek_while_paused(v: EngineView, t: u64)
    requires
        !v.closed,
        v.playing == Playing::Paused,
        v.error is None,
        v.session matches Some(s) && (s.time_base matches Some(tb) && tb.wf() && t * tb.denom / (
        tb.numer * 1000) <= u64::MAX),
    ensures
        ({
            let s = v.session->Some_0;
            let tb = s.time_base->Some_0;
            let ts = ts_of_ms(t, tb);
            let (v1, d1, e1) = step_action(v, Some(PlayerActions::Seek(t)));
            let (v2, d2, e2) = step_action(v1, Some(PlayerActions::Resume));
            let (v3, e3) = step_decoded(v2, ts);
            let p = ms_of_ts(ts, tb);
            &&& d1 == Directive::Seek { track_id: s.track_id, ts }
            &&& e1.len() == 0
            &&& d2 == Directive::Decode
            &&& e3 == seq![PlayerStatus::SendTimeStats(p, v3.duration)]
            &&& p <= t
            &&& (t - p) * tb.denom < tb.denom + 1000 * tb.numer
        }),
{
    let tb = v.session->Some_0.time_base->Some_0;
    lemma_seek_lands_near(t, tb);
}

/// Pause, resume, pause: exactly three playing-state events, and the engine
/// and every snapshot that takes them in end paused.
pub proof fn lemma_pause_resume_pause(v: EngineView, s: StateView)
    requires
        !v.closed,
    ensures
        ({
            let (v1, d1, e1) = step_action(v, Some(PlayerActions::Pause));
            let (v2, d2, e2) = step_action(v1, Some(PlayerActions::Resume));
            let (v3, d3, e3) = step_action(v2, Some(PlayerActions::Pause));
            &&& e1 + e2 + e3 == seq![
                PlayerStatus::SendPlaying(Playing::Paused),
                PlayerStatus::SendPlaying(Playing::Playing),
                PlayerStatus::SendPlaying(Playing::Paused),
            ]
            &&& v3.playing == Playing::Paused
            &&& apply_all(s, e1 + e2 + e3).playing == Playing::Paused
        }),
{
    let e = seq![
        PlayerStatus::SendPlaying(Playing::Paused),
        PlayerStatus::SendPlaying(Playing::Playing),
        PlayerStatus::SendPlaying(Playing::Paused),
    ];
    let (v1, d1, e1) = step_action(v, Some(PlayerActions::Pause));
    let (v2, d2, e2) = step_action(v1, Some(PlayerActions::Resume));
    let (v3, d3, e3) = step_action(v2, Some(PlayerActions::Pause));
    assert(e1 + e2 + e3 =~= e);
    assert(e.take(2).take(1) =~= seq![PlayerStatus::SendPlaying(Playing::Paused)]);
    assert(e.take(2).take(1).take(0) =~= Seq::<PlayerStatus>::empty());
    assert(e.take(2).last() == PlayerStatus::SendPlaying(Playing::Playing));
}

/// A read or decode failure within one second of the end finishes playback:
/// the engine reports it as finished, never as an error, whatever the
/// message, and every snapshot that takes that report in is finished with
/// no error.
pub proof fn lemma_failure_at_end_finishes(v: EngineView, s: StateView, msg: String)
    requires
        at_end(v.position, v.duration),
    ensures
        step_read_failed(v, msg).1 == seq![PlayerStatus::SendPlaying(Playing::Finished)],
        step_decode_error(v, msg).1 == seq![PlayerStatus::SendPlaying(Playing::Finished)],
        step_read_failed(v, msg).0.playing == Playing::Finished,
        step_read_failed(v, msg).0.error == v.error,
        apply_all(s, step_read_failed(v, msg).1).playing == Playing::Finished,
        apply_all(s, step_read_failed(v, msg).1).error is None,
{
    let e = step_read_failed(v, msg).1;
    assert(e.take(0) =~= Seq::<PlayerStatus>::empty());
}

/// An error that reaches a snapshot within one second of the end leaves it
/// finished with no error, whatever the message.
pub proof fn lemma_error_at_end_is_finished(s: StateView, msg: String)
    requires
        at_end(s.position, s.duration),
    ensures
        apply_status(s, PlayerStatus::Error(msg)).playing == Playing::Finished,
        apply_status(s, PlayerStatus::Error(msg)).error is None,
{
}

/// Open followed at once by close ends the loop, whether or not the open
/// got as far as a decoded packet or failed; a closed engine only exits.
pub proof fn lemma_open_then_close_exits(
    v: EngineView,
    url: String,
    msg: String,
    later: Option<PlayerActions>,
)
    requires
        !v.closed,
    ensures
        ({
            let (v1, d1, e1) = step_action(v, Some(PlayerActions::Open(url)));
            let (v2, d2, e2) = step_action(v1, Some(PlayerActions::Close));
            let (v1f, e1f) = step_open_failed(v1, msg);
            let (v2f, d2f, e2f) = step_action(v1f, Some(PlayerActions::Close));
            &&& d1 == Directive::Open(url)
            &&& e1[0] == PlayerStatus::ClearError
            &&& d2 == Directive::Exit && v2.closed && e2.len() == 0
            &&& d2f == Directive::Exit && v2f.closed
            &&& step_action(v2, later).1 == Directive::Exit
        }),
{
}

} // verus!
