//! The playback engine's decisions: what to do next for each polled action
//! and for each outcome of opening, reading, decoding and playing.
use vstd::prelude::*;

verus! {

/// Pause of the engine loop when there is nothing to decode (milliseconds).
pub const IDLE_PAUSE_MS: u64 = 200;

/// Pause of the engine loop after a decoded packet (milliseconds).
pub const PACKET_PAUSE_MS: u64 = 20;

/// Transport state reported to callers.
#[derive(PartialEq, Eq, Structural, Clone, Copy, Debug)]
pub enum Playing {
    Playing,
    Paused,
    Finished,
}

/// The span of the stream covered by one cached chunk, as the fractions
/// `start / total` and `end / total` of the stream's length.
#[derive(PartialEq, Eq, Structural, Clone, Copy, Debug)]
pub struct ChunkSpan {
    pub start: u64,
    pub end: u64,
    pub total: u64,
}

/// Commands sent to the engine. Seek targets are in milliseconds from the
/// start of the stream.
#[derive(PartialEq, Eq, Clone, Debug)]
pub enum PlayerActions {
    Pause,
    Resume,
    Seek(u64),
    Close,
    Open(String),
}

/// Events sent by the engine to the player that mirrors its state.
#[derive(PartialEq, Eq, Clone, Debug)]
pub enum PlayerStatus {
    SendPlaying(Playing),
    /// (position, duration), both in milliseconds
    SendTimeStats(u64, u64),
    ChunkAdded(ChunkSpan),
    Error(String),
    ClearError,
}

/// The rational number of seconds that one tick of a track's timestamps lasts.
#[derive(PartialEq, Eq, Structural, Clone, Copy, Debug)]
pub struct TimeBase {
    pub numer: u32,
    pub denom: u32,
}

impl TimeBase {
    pub open spec fn wf(self) -> bool {
        self.numer > 0 && self.denom > 0
    }
}

/// What the engine needs to know of one track of a probed stream.
#[derive(PartialEq, Eq, Structural, Clone, Copy, Debug)]
pub struct TrackInfo {
    pub id: u32,
    /// The track's codec is a real one, not the placeholder for "none".
    pub supported: bool,
    pub time_base: Option<TimeBase>,
    pub start_ts: u64,
    pub n_frames: Option<u64>,
}

/// The track being played since the last successful open.
#[derive(PartialEq, Eq, Structural, Clone, Copy, Debug)]
pub struct Session {
    pub track_id: u32,
    /// Always well formed where present.
    pub time_base: Option<TimeBase>,
    /// The timestamp of the stream's end, where the frame count is known.
    pub end_ts: Option<u64>,
}

/// `ticks` timestamp units in milliseconds, saturated at `u64::MAX`.
pub open spec fn ms_of_ts(ticks: u64, tb: TimeBase) -> u64 {
    let ms = ticks * tb.numer * 1000 / (tb.denom as int);
    if ms > u64::MAX {
        u64::MAX
    } else {
        ms as u64
    }
}

/// The last timestamp at or before `ms` milliseconds, saturated at `u64::MAX`.
pub open spec fn ts_of_ms(ms: u64, tb: TimeBase) -> u64 {
    let ticks = ms * tb.denom / (tb.numer * 1000);
    if ticks > u64::MAX {
        u64::MAX
    } else {
        ticks as u64
    }
}

/// Playback counts as finished where the position is within one second of
/// the duration (or past it).
pub open spec fn at_end(position: u64, duration: u64) -> bool {
    position + 1000 >= duration
}

pub open spec fn progress(ts: u64, end_ts: Option<u64>, tb: Option<TimeBase>) -> (u64, u64) {
    match tb {
        Some(tb) => (
            ms_of_ts(ts, tb),
            ms_of_ts(
                match end_ts {
                    Some(e) => e,
                    None => 0,
                },
                tb,
            ),
        ),
        None => (0, 0),
    }
}

/// Seeking to `t` milliseconds and reading the position back gives at most
/// `t`, and less than one timestamp tick (plus rounding) before it:
/// `(t - p) * denom < denom + 1000 * numer`.
pub proof fn lemma_seek_lands_near(t: u64, tb: TimeBase)
    requires
        tb.wf(),
        t * tb.denom / (tb.numer * 1000) <= u64::MAX,
    ensures
        ({
            let p = ms_of_ts(ts_of_ms(t, tb), tb);
            p <= t && (t - p) * tb.denom < tb.denom + 1000 * tb.numer
        }),
{
    let n: int = tb.numer * 1000;
    let d: int = tb.denom as int;
    let td: int = t * d;
    let q: int = td / n;
    assert(ts_of_ms(t, tb) == q);
    vstd::arithmetic::div_mod::lemma_fundamental_div_mod(td, n);
    vstd::arithmetic::div_mod::lemma_mod_bound(td, n);
    assert(q * n <= td < q * n + n) by (nonlinear_arith)
        requires
            td == n * (td / n) + td % n,
            0 <= td % n < n,
            q == td / n,
    ;
    assert(q * tb.numer * 1000 == q * n) by (nonlinear_arith)
        requires
            n == tb.numer * 1000,
    ;
    let qn: int = q * n;
    let raw: int = qn / d;
    vstd::arithmetic::div_mod::lemma_fundamental_div_mod(qn, d);
    vstd::arithmetic::div_mod::lemma_mod_bound(qn, d);
    assert(raw * d <= qn < raw * d + d) by (nonlinear_arith)
        requires
            qn == d * (qn / d) + qn % d,
            0 <= qn % d < d,
            raw == qn / d,
    ;
    assert(raw <= t) by (nonlinear_arith)
        requires
            raw * d <= qn,
            qn <= td,
            td == t * d,
            d > 0,
    ;
    assert(ms_of_ts(q as u64, tb) == raw);
    assert((t - raw) * d < d + n) by (nonlinear_arith)
        requires
            td < qn + n,
            qn < raw * d + d,
            td == t * d,
    ;
}

/// Converts a timestamp to milliseconds.
pub fn ts_to_ms(ticks: u64, tb: TimeBase) -> (r: u64)
    requires
        tb.wf(),
    ensures
        r == ms_of_ts(ticks, tb),
{
    proof {
        vstd::arithmetic::mul::lemma_mul_upper_bound(ticks as int, u64::MAX as int, tb.numer as int, u32::MAX as int);
        vstd::arithmetic::mul::lemma_mul_upper_bound(ticks * tb.numer, u64::MAX * u32::MAX, 1000, 1000);
    }
    let ms: u128 = ticks as u128 * tb.numer as u128 * 1000 / tb.denom as u128;
    if ms > u64::MAX as u128 {
        u64::MAX
    } else {
        ms as u64
    }
}

/// Converts milliseconds to the last timestamp at or before them.
pub fn ms_to_ts(ms: u64, tb: TimeBase) -> (r: u64)
    requires
        tb.wf(),
    ensures
        r == ts_of_ms(ms, tb),
{
    proof {
        vstd::arithmetic::mul::lemma_mul_upper_bound(ms as int, u64::MAX as int, tb.denom as int, u32::MAX as int);
        vstd::arithmetic::mul::lemma_mul_upper_bound(tb.numer as int, u32::MAX as int, 1000, 1000);
    }
    let ticks: u128 = ms as u128 * tb.denom as u128 / (tb.numer as u128 * 1000);
    if ticks > u64::MAX as u128 {
        u64::MAX
    } else {
        ticks as u64
    }
}

/// Position and duration in milliseconds for a packet at timestamp `ts`;
/// both zero where the track has no time base.
pub fn update_progress(ts: u64, end_ts: Option<u64>, tb: Option<TimeBase>) -> (r: (u64, u64))
    requires
        tb matches Some(t) ==> t.wf(),
    ensures
        r == progress(ts, end_ts, tb),
{
    match tb {
        Some(tb) => {
            let end = match end_ts {
                Some(e) => e,
                None => 0,
            };
            (ts_to_ms(ts, tb), ts_to_ms(end, tb))
        },
        None => (0, 0),
    }
}

/// What the loop that drives the engine has to do next.
#[derive(PartialEq, Eq, Clone, Debug)]
pub enum Directive {
    /// Leave the loop: the engine is closed.
    Exit,
    /// Drop the current stream, open and probe this one, and report the
    /// outcome with `on_probed` or `on_open_failed`.
    Open(String),
    /// Ask the demuxer to seek the track to the timestamp.
    Seek { track_id: u32, ts: u64 },
    /// Read and decode the next packet.
    Decode,
    /// Sleep for this many milliseconds.
    Sleep(u64),
}

/// The decision state of the playback engine. It owns no stream, decoder or
/// device: the loop around it does that work, hands it the outcomes, and
/// sends on the statuses it returns.
pub struct PlayerEngine {
    session: Option<Session>,
    error: Option<String>,
    playing: Playing,
    closed: bool,
    sink_open: bool,
    position: u64,
    duration: u64,
}

/// The abstract state of a `PlayerEngine`.
pub struct EngineView {
    pub session: Option<Session>,
    /// The latched error; decoding stops until the next open.
    pub error: Option<String>,
    pub playing: Playing,
    pub closed: bool,
    pub sink_open: bool,
    /// The last position and duration reported, in milliseconds.
    pub position: u64,
    pub duration: u64,
}

impl View for PlayerEngine {
    type V = EngineView;

    closed spec fn view(&self) -> EngineView {
        EngineView {
            session: self.session,
            error: self.error,
            playing: self.playing,
            closed: self.closed,
            sink_open: self.sink_open,
            position: self.position,
            duration: self.duration,
        }
    }
}

pub open spec fn engine_wf(v: EngineView) -> bool {
    v.session matches Some(s) ==> (s.time_base matches Some(tb) ==> tb.wf())
}

/// Where the loop goes when no action asks for anything else: decode while
/// a stream is open, healthy and playing; otherwise idle.
pub open spec fn pace(v: EngineView) -> Directive {
    if v.session is Some && v.error is None && v.playing == Playing::Playing {
        Directive::Decode
    } else {
        Directive::Sleep(IDLE_PAUSE_MS)
    }
}

/// The engine's response to one polled action (or to none).
pub open spec fn step_action(v: EngineView, a: Option<PlayerActions>) -> (
    EngineView,
    Directive,
    Seq<PlayerStatus>,
) {
    if v.closed {
        (v, Directive::Exit, seq![])
    } else {
        match a {
            None => (v, pace(v), seq![]),
            Some(PlayerActions::Close) => (EngineView { closed: true, ..v }, Directive::Exit, seq![]),
            Some(PlayerActions::Open(url)) => {
                let w = EngineView {
                    session: None,
                    error: None,
                    sink_open: false,
                    playing: Playing::Playing,
                    ..v
                };
                let events = if v.playing == Playing::Playing {
                    seq![PlayerStatus::ClearError]
                } else {
                    seq![PlayerStatus::ClearError, PlayerStatus::SendPlaying(Playing::Playing)]
                };
                (w, Directive::Open(url), events)
            },
            Some(PlayerActions::Pause) => {
                let w = EngineView { playing: Playing::Paused, ..v };
                (w, pace(w), seq![PlayerStatus::SendPlaying(Playing::Paused)])
            },
            Some(PlayerActions::Resume) => {
                let w = EngineView { playing: Playing::Playing, ..v };
                (w, pace(w), seq![PlayerStatus::SendPlaying(Playing::Playing)])
            },
            Some(PlayerActions::Seek(t)) => match v.session {
                Some(s) => match s.time_base {
                    Some(tb) => if v.error is None {
                        (v, Directive::Seek { track_id: s.track_id, ts: ts_of_ms(t, tb) }, seq![])
                    } else {
                        (v, pace(v), seq![])
                    },
                    None => (v, pace(v), seq![]),
                },
                None => (v, pace(v), seq![]),
            },
        }
    }
}

/// `i` is the first track with a supported codec.
pub open spec fn is_first_supported(tracks: Seq<TrackInfo>, i: int) -> bool {
    &&& 0 <= i < tracks.len()
    &&& tracks[i].supported
    &&& forall|j: int| 0 <= j < i ==> !(#[trigger] tracks[j]).supported
}

pub open spec fn none_supported(tracks: Seq<TrackInfo>) -> bool {
    forall|j: int| 0 <= j < tracks.len() ==> !(#[trigger] tracks[j]).supported
}

/// The session that playing `t` starts: its time base where well formed,
/// and its end where the frame count is known and the sum fits.
pub open spec fn session_of(t: TrackInfo) -> Session {
    Session {
        track_id: t.id,
        time_base: match t.time_base {
            Some(tb) => if tb.wf() {
                Some(tb)
            } else {
                None
            },
            None => None,
        },
        end_ts: match t.n_frames {
            Some(f) => if t.start_ts + f <= u64::MAX {
                Some((t.start_ts + f) as u64)
            } else {
                None
            },
            None => None,
        },
    }
}

/// Opening the stream failed.
pub open spec fn step_open_failed(v: EngineView, msg: String) -> (EngineView, Seq<PlayerStatus>) {
    (
        EngineView { session: None, error: Some(msg), sink_open: false, ..v },
        seq![PlayerStatus::Error(msg)],
    )
}

/// A packet at timestamp `ts` was decoded and played.
pub open spec fn step_decoded(v: EngineView, ts: u64) -> (EngineView, Seq<PlayerStatus>) {
    match v.session {
        Some(s) => {
            let (p, d) = progress(ts, s.end_ts, s.time_base);
            (EngineView { position: p, duration: d, ..v }, seq![PlayerStatus::SendTimeStats(p, d)])
        },
        None => (v, seq![]),
    }
}

/// Playback reached the end: reported as finished, not as an error.
pub open spec fn step_finished(v: EngineView) -> (EngineView, Seq<PlayerStatus>) {
    (
        EngineView { playing: Playing::Finished, ..v },
        seq![PlayerStatus::SendPlaying(Playing::Finished)],
    )
}

/// Reading the next packet (or decoding it, fatally) failed.
pub open spec fn step_read_failed(v: EngineView, msg: String) -> (EngineView, Seq<PlayerStatus>) {
    if at_end(v.position, v.duration) {
        step_finished(v)
    } else {
        (EngineView { error: Some(msg), ..v }, seq![PlayerStatus::Error(msg)])
    }
}

/// One packet could not be decoded; the next one is tried as usual.
pub open spec fn step_decode_error(v: EngineView, msg: String) -> (EngineView, Seq<PlayerStatus>) {
    if at_end(v.position, v.duration) {
        step_finished(v)
    } else {
        (v, seq![PlayerStatus::Error(msg)])
    }
}

/// The audio device could not be opened or written: it is dropped, and
/// opened again for the next decoded packet.
pub open spec fn step_sink_failed(v: EngineView, msg: String) -> (EngineView, Seq<PlayerStatus>) {
    (EngineView { sink_open: false, ..v }, seq![PlayerStatus::Error(msg)])
}

impl PlayerEngine {
    pub closed spec fn wf(&self) -> bool {
        engine_wf(self@)
    }

    /// An engine with no stream, playing, at position zero.
    pub fn new() -> (r: Self)
        ensures
            r.wf(),
            r@ == (EngineView {
                session: None,
                error: None,
                playing: Playing::Playing,
                closed: false,
                sink_open: false,
                position: 0,
                duration: 0,
            }),
    {
        PlayerEngine {
            session: None,
            error: None,
            playing: Playing::Playing,
            closed: false,
            sink_open: false,
            position: 0,
            duration: 0,
        }
    }

    fn pace(&self) -> (r: Directive)
        ensures
            r == pace(self@),
    {
        if self.session.is_some() && self.error.is_none() && self.playing == Playing::Playing {
            Directive::Decode
        } else {
            Directive::Sleep(IDLE_PAUSE_MS)
        }
    }

    /// Handles the action polled from the queue this pass, if any.
    pub fn on_action(&mut self, action: Option<PlayerActions>) -> (r: (Directive, Vec<PlayerStatus>))
        requires
            old(self).wf(),
        ensures
            final(self).wf(),
            (final(self)@, r.0, r.1@) == step_action(old(self)@, action),
    {
        let mut events: Vec<PlayerStatus> = Vec::new();
        if self.closed {
            return (Directive::Exit, events);
        }
        match action {
            None => (self.pace(), events),
            Some(PlayerActions::Close) => {
                self.closed = true;
                (Directive::Exit, events)
            },
            Some(PlayerActions::Open(url)) => {
                self.session = None;
                self.error = None;
                self.sink_open = false;
                events.push(PlayerStatus::ClearError);
                if self.playing != Playing::Playing {
                    self.playing = Playing::Playing;
                    events.push(PlayerStatus::SendPlaying(Playing::Playing));
                }
                (Directive::Open(url), events)
            },
            Some(PlayerActions::Pause) => {
                self.playing = Playing::Paused;
                events.push(PlayerStatus::SendPlaying(Playing::Paused));
                (self.pace(), events)
            },
            Some(PlayerActions::Resume) => {
                self.playing = Playing::Playing;
                events.push(PlayerStatus::SendPlaying(Playing::Playing));
                (self.pace(), events)
            },
            Some(PlayerActions::Seek(t)) => match self.session {
                Some(s) => match s.time_base {
                    Some(tb) => if self.error.is_none() {
                        (Directive::Seek { track_id: s.track_id, ts: ms_to_ts(t, tb) }, events)
                    } else {
                        (self.pace(), events)
                    },
                    None => (self.pace(), events),
                },
                None => (self.pace(), events),
            },
        }
    }

    /// The stream was probed: plays its first supported track, or latches an
    /// error where it has none.
    pub fn on_probed(&mut self, tracks: &Vec<TrackInfo>) -> (r: (Option<usize>, Vec<PlayerStatus>))
        requires
            old(self).wf(),
        ensures
            final(self).wf(),
            match r.0 {
                Some(i) => is_first_supported(tracks@, i as int) && final(self)@ == (EngineView {
                    session: Some(session_of(tracks@[i as int])),
                    ..old(self)@
                }) && r.1@ == Seq::<PlayerStatus>::empty(),
                None => none_supported(tracks@) && (final(self)@.error matches Some(m) && m@
                    == "Error reading track"@ && final(self)@ == (EngineView {
                    session: None,
                    error: Some(m),
                    ..old(self)@
                }) && r.1@ == seq![PlayerStatus::Error(m)]),
            },
    {
        let mut events: Vec<PlayerStatus> = Vec::new();
        match first_supported_track(tracks) {
            Some(i) => {
                let t = tracks[i];
                let time_base = match t.time_base {
                    Some(tb) => if tb.numer > 0 && tb.denom > 0 {
                        Some(tb)
                    } else {
                        None
                    },
                    None => None,
                };
                let end_ts = match t.n_frames {
                    Some(f) => t.start_ts.checked_add(f),
                    None => None,
                };
                self.session = Some(Session { track_id: t.id, time_base, end_ts });
                (Some(i), events)
            },
            None => {
                let msg = "Error reading track".to_owned();
                self.session = None;
                self.error = Some(msg.clone());
                events.push(PlayerStatus::Error(msg));
                (None, events)
            },
        }
    }

    /// Opening or probing the stream, or making its decoder, failed.
    pub fn on_open_failed(&mut self, msg: String) -> (r: Vec<PlayerStatus>)
        requires
            old(self).wf(),
        ensures
            final(self).wf(),
            (final(self)@, r@) == step_open_failed(old(self)@, msg),
    {
        self.session = None;
        self.error = Some(msg.clone());
        self.sink_open = false;
        let mut events: Vec<PlayerStatus> = Vec::new();
        events.push(PlayerStatus::Error(msg));
        events
    }

    /// A packet of this track is to be decoded; packets of other tracks are
    /// skipped.
    pub fn accepts_packet(&self, track_id: u32) -> (r: bool)
        ensures
            r == (self@.session matches Some(s) && s.track_id == track_id),
    {
        match self.session {
            Some(s) => s.track_id == track_id,
            None => false,
        }
    }

    /// The audio device has to be opened before decoded audio is written.
    pub fn needs_sink(&self) -> (r: bool)
        ensures
            r == !self@.sink_open,
    {
        !self.sink_open
    }

    pub fn on_sink_opened(&mut self)
        requires
            old(self).wf(),
        ensures
            final(self).wf(),
            final(self)@ == (EngineView { sink_open: true, ..old(self)@ }),
    {
        self.sink_open = true;
    }

    pub fn on_sink_failed(&mut self, msg: String) -> (r: Vec<PlayerStatus>)
        requires
            old(self).wf(),
        ensures
            final(self).wf(),
            (final(self)@, r@) == step_sink_failed(old(self)@, msg),
    {
        self.sink_open = false;
        let mut events: Vec<PlayerStatus> = Vec::new();
        events.push(PlayerStatus::Error(msg));
        events
    }

    /// A packet at timestamp `ts` was decoded: reports the new position.
    pub fn on_decoded(&mut self, ts: u64) -> (r: Vec<PlayerStatus>)
        requires
            old(self).wf(),
        ensures
            final(self).wf(),
            (final(self)@, r@) == step_decoded(old(self)@, ts),
    {
        let mut events: Vec<PlayerStatus> = Vec::new();
        match self.session {
            Some(s) => {
                let (p, d) = update_progress(ts, s.end_ts, s.time_base);
                self.position = p;
                self.duration = d;
                events.push(PlayerStatus::SendTimeStats(p, d));
            },
            None => {},
        }
        events
    }

    fn finish(&mut self) -> (r: Vec<PlayerStatus>)
        requires
            old(self).wf(),
        ensures
            final(self).wf(),
            (final(self)@, r@) == step_finished(old(self)@),
    {
        self.playing = Playing::Finished;
        let mut events: Vec<PlayerStatus> = Vec::new();
        events.push(PlayerStatus::SendPlaying(Playing::Finished));
        events
    }

    /// Reading the next packet failed, or decoding it failed fatally.
    pub fn on_read_failed(&mut self, msg: String) -> (r: Vec<PlayerStatus>)
        requires
            old(self).wf(),
        ensures
            final(self).wf(),
            (final(self)@, r@) == step_read_failed(old(self)@, msg),
    {
        if self.position as u128 + 1000 >= self.duration as u128 {
            return self.finish();
        }
        self.error = Some(msg.clone());
        let mut events: Vec<PlayerStatus> = Vec::new();
        events.push(PlayerStatus::Error(msg));
        events
    }

    /// One packet could not be decoded.
    pub fn on_decode_error(&mut self, msg: String) -> (r: Vec<PlayerStatus>)
        requires
            old(self).wf(),
        ensures
            final(self).wf(),
            (final(self)@, r@) == step_decode_error(old(self)@, msg),
    {
        if self.position as u128 + 1000 >= self.duration as u128 {
            return self.finish();
        }
        let mut events: Vec<PlayerStatus> = Vec::new();
        events.push(PlayerStatus::Error(msg));
        events
    }
}

/// The index of the first track whose codec is supported.
pub fn first_supported_track(tracks: &Vec<TrackInfo>) -> (r: Option<usize>)
    ensures
        match r {
            Some(i) => is_first_supported(tracks@, i as int),
            None => none_supported(tracks@),
        },
{
    let mut i: usize = 0;
    while i < tracks.len()
        invariant
            i <= tracks@.len(),
            forall|j: int| 0 <= j < i ==> !(#[trigger] tracks@[j]).supported,
        decreases tracks@.len() - i,
    {
        if tracks[i].supported {
            return Some(i);
        }
        i = i + 1;
    }
    None
}
} // verus!
