//! The rollback session: it keeps every player's confirmed inputs, predicts
//! the missing ones, and tells its driver which frames to load and advance.
use vstd::prelude::*;
use crate::geom::Vec2;
use crate::input::GaffInput;

verus! {

/// Frames simulated per second.
pub const FPS: usize = 60;
/// Frames the simulation may run ahead of the last fully confirmed frame.
pub const MAX_PREDICTION: usize = 12;
/// Frames by which local input is delayed.
pub const INPUT_DELAY: usize = 2;
/// Largest prediction window or input delay a session accepts.
pub const MAX_WINDOW: usize = 1024;
/// Frames beyond which a session refuses to advance.
pub const FRAME_LIMIT: usize = 0x4000_0000;

/// Parameters of a session.
#[derive(Clone, Copy, Debug, PartialEq, Eq, Structural)]
pub struct SessionConfig {
    pub num_players: usize,
    pub max_prediction: usize,
    pub input_delay: usize,
    pub fps: usize,
}

/// The session configuration for `players` players: a prediction window of
/// twelve frames, two frames of input delay, sixty frames per second.
pub fn configure_session(players: usize) -> (r: SessionConfig)
    ensures
        r == (SessionConfig {
            num_players: players,
            max_prediction: MAX_PREDICTION,
            input_delay: INPUT_DELAY,
            fps: FPS,
        }),
{
    SessionConfig {
        num_players: players,
        max_prediction: MAX_PREDICTION,
        input_delay: INPUT_DELAY,
        fps: FPS,
    }
}

/// What the driver must do, in order, to carry out one tick.
#[derive(Debug)]
pub enum Request {
    /// Restore the snapshot saved for `frame`.
    LoadState { frame: usize },
    /// Simulate `frame` with one input per player, then save the state
    /// reached as the snapshot of `frame + 1`.
    AdvanceFrame { frame: usize, inputs: Vec<GaffInput> },
}

/// A request as a mathematical value.
pub enum RequestSpec {
    LoadState { frame: nat },
    AdvanceFrame { frame: nat, inputs: Seq<GaffInput> },
}

impl Request {
    pub open spec fn spec(self) -> RequestSpec {
        match self {
            Request::LoadState { frame } => RequestSpec::LoadState { frame: frame as nat },
            Request::AdvanceFrame { frame, inputs } => RequestSpec::AdvanceFrame {
                frame: frame as nat,
                inputs: inputs@,
            },
        }
    }
}

/// Why a tick could not be carried out.
#[derive(Clone, Copy, Debug, PartialEq, Eq, Structural)]
pub enum SessionError {
    /// The simulation is a full prediction window ahead of the confirmed
    /// inputs and must wait for the network.
    PredictionThreshold,
    /// The frame counter has reached `FRAME_LIMIT`.
    FrameLimit,
}

/// What became of an input handed to the session.
#[derive(Clone, Copy, Debug, PartialEq, Eq, Structural)]
pub enum InputStatus {
    Accepted,
    /// The player already has a confirmed input for that frame: dropped.
    Duplicate,
    /// No such player: dropped.
    UnknownPlayer,
    /// The frame lies beyond what the session can have asked for: dropped.
    OutOfWindow,
}

/// The input that stands in for a player who has sent nothing yet.
pub open spec fn blank_input() -> GaffInput {
    GaffInput { mouse_pos: Vec2 { x: 0, y: 0 }, buttons: 0 }
}

/// The confirmed input of player `p` for frame `f`, if it has arrived.
pub open spec fn conf_at(conf: Seq<Seq<Option<GaffInput>>>, f: int, p: int) -> Option<GaffInput> {
    if 0 <= f < conf.len() {
        conf[f][p]
    } else {
        None
    }
}

/// The prediction for player `p` at frame `f`: the player's latest confirmed
/// input before `f`, or the blank input.
pub open spec fn predicted(conf: Seq<Seq<Option<GaffInput>>>, p: int, f: int) -> GaffInput
    decreases f,
{
    if f <= 0 {
        blank_input()
    } else {
        match conf_at(conf, f - 1, p) {
            Some(i) => i,
            None => predicted(conf, p, f - 1),
        }
    }
}

/// The input of player `p` used for frame `f`: confirmed, else predicted.
pub open spec fn effective(conf: Seq<Seq<Option<GaffInput>>>, p: int, f: int) -> GaffInput {
    match conf_at(conf, f, p) {
        Some(i) => i,
        None => predicted(conf, p, f),
    }
}

/// The inputs of all `n` players used for frame `f`.
pub open spec fn frame_inputs(conf: Seq<Seq<Option<GaffInput>>>, n: nat, f: int) -> Seq<GaffInput> {
    Seq::new(n, |p: int| effective(conf, p, f))
}

/// Whether every one of `n` players has a confirmed input in `row`.
pub open spec fn row_complete(row: Seq<Option<GaffInput>>) -> bool {
    forall|p: int| 0 <= p < row.len() ==> (#[trigger] row[p]) is Some
}

/// Every row of `conf` has one slot per player.
pub open spec fn rows_ok(conf: Seq<Seq<Option<GaffInput>>>, n: nat) -> bool {
    forall|f: int| 0 <= f < conf.len() ==> (#[trigger] conf[f]).len() == n
}

/// Why the next tick is refused, when `cfc` leading frames are confirmed.
pub open spec fn refusal(v: SessionView, cfc: nat) -> Option<SessionError> {
    if v.current_frame >= FRAME_LIMIT {
        Some(SessionError::FrameLimit)
    } else if v.current_frame >= cfc + v.max_prediction {
        Some(SessionError::PredictionThreshold)
    } else {
        None
    }
}

/// The session's state as mathematical values.
pub struct SessionView {
    pub num_players: nat,
    pub max_prediction: nat,
    pub input_delay: nat,
    pub current_frame: nat,
    pub confirmed_frames: nat,
    pub confirmed: Seq<Seq<Option<GaffInput>>>,
    pub played: Seq<Seq<GaffInput>>,
    pub first_incorrect: Option<nat>,
}

/// A rollback session. Frame `current_frame` is the next one to simulate;
/// `played[f]` holds the inputs frame `f` was last simulated with, and
/// `first_incorrect` the earliest frame whose prediction proved wrong.
pub struct RollbackSession {
    num_players: usize,
    max_prediction: usize,
    input_delay: usize,
    current_frame: usize,
    confirmed_frames: usize,
    confirmed: Vec<Vec<Option<GaffInput>>>,
    played: Vec<Vec<GaffInput>>,
    first_incorrect: Option<usize>,
}

/// Row `f` of the confirmed inputs, empty slots where none has arrived.
pub open spec fn row_at(conf: Seq<Seq<Option<GaffInput>>>, n: nat, f: int) -> Seq<Option<GaffInput>> {
    if 0 <= f < conf.len() {
        conf[f]
    } else {
        Seq::new(n, |p: int| None::<GaffInput>)
    }
}

/// The confirmed inputs once `input` arrives for player `p` at frame `f`.
pub open spec fn with_input(
    conf: Seq<Seq<Option<GaffInput>>>,
    n: nat,
    f: int,
    p: int,
    input: GaffInput,
) -> Seq<Seq<Option<GaffInput>>> {
    let len = if f + 1 > conf.len() { f + 1 } else { conf.len() as int };
    Seq::new(
        len as nat,
        |g: int| if g == f { row_at(conf, n, g).update(p, Some(input)) } else { row_at(conf, n, g) },
    )
}

/// The first frame from `from` on whose row is missing or incomplete.
pub open spec fn first_incomplete(conf: Seq<Seq<Option<GaffInput>>>, from: int) -> nat
    decreases conf.len() - from,
{
    if from < 0 {
        0
    } else if from >= conf.len() || !row_complete(conf[from]) {
        from as nat
    } else {
        first_incomplete(conf, from + 1)
    }
}

/// What becomes of an input from player `p` for frame `f`.
pub open spec fn input_status(v: SessionView, p: int, f: int) -> InputStatus {
    if p < 0 || p >= v.num_players {
        InputStatus::UnknownPlayer
    } else if f > v.current_frame + v.max_prediction + v.input_delay {
        InputStatus::OutOfWindow
    } else if conf_at(v.confirmed, f, p) is Some {
        InputStatus::Duplicate
    } else {
        InputStatus::Accepted
    }
}

/// The earliest frame to re-simulate once `input` is confirmed for player
/// `p` at frame `f`: `f` joins when it was simulated with another input.
pub open spec fn marked(v: SessionView, p: int, f: int, input: GaffInput) -> Option<nat> {
    if f < v.current_frame && v.played[f][p] != input {
        match v.first_incorrect {
            Some(k) => if k < f {
                Some(k)
            } else {
                Some(f as nat)
            },
            None => Some(f as nat),
        }
    } else {
        v.first_incorrect
    }
}

impl SessionView {
    pub open spec fn wf(self) -> bool {
        &&& self.max_prediction <= MAX_WINDOW
        &&& self.input_delay <= MAX_WINDOW
        &&& self.current_frame <= FRAME_LIMIT
        &&& self.confirmed.len() <= self.current_frame + self.max_prediction + self.input_delay + 1
        &&& rows_ok(self.confirmed, self.num_players)
        &&& self.played.len() == self.current_frame
        &&& forall|f: int| 0 <= f < self.played.len() ==> (#[trigger] self.played[f]).len() == self.num_players
        &&& self.confirmed_frames <= self.confirmed.len()
        &&& forall|f: int| 0 <= f < self.confirmed_frames ==> row_complete(#[trigger] self.confirmed[f])
        &&& self.current_frame <= self.confirmed_frames + self.max_prediction
        &&& match self.first_incorrect {
            Some(k) => k < self.current_frame && self.current_frame <= k + self.max_prediction,
            None => true,
        }
    }

    /// The frame from which the next tick re-simulates.
    pub open spec fn resim_start(self) -> nat {
        match self.first_incorrect {
            Some(k) => k,
            None => self.current_frame,
        }
    }

    /// The inputs frame `f` is replayed with: the confirmed ones where they
    /// have arrived, else the predictions it was simulated with.
    pub open spec fn replay_inputs(self, f: int) -> Seq<GaffInput> {
        Seq::new(
            self.num_players,
            |p: int|
                match conf_at(self.confirmed, f, p) {
                    Some(i) => i,
                    None => self.played[f][p],
                },
        )
    }

    /// The requests that re-simulate frames `k..current_frame`.
    pub open spec fn replay_requests(self, k: int) -> Seq<RequestSpec> {
        Seq::new(
            (self.current_frame - k) as nat,
            |i: int| RequestSpec::AdvanceFrame { frame: (k + i) as nat, inputs: self.replay_inputs(k + i) },
        )
    }

    /// The requests of the next tick, when it is not refused: a rollback, if
    /// one is due, then the current frame with confirmed or predicted inputs.
    pub open spec fn tick_requests(self) -> Seq<RequestSpec> {
        let cf = self.current_frame as int;
        let next = seq![
            RequestSpec::AdvanceFrame {
                frame: self.current_frame,
                inputs: frame_inputs(self.confirmed, self.num_players, cf),
            },
        ];
        match self.first_incorrect {
            Some(k) => seq![RequestSpec::LoadState { frame: k }] + self.replay_requests(k as int) + next,
            None => next,
        }
    }

    /// The inputs each frame was last simulated with, once the next tick is
    /// carried out.
    pub open spec fn played_after_tick(self) -> Seq<Seq<GaffInput>> {
        let cf = self.current_frame as int;
        Seq::new(
            (cf + 1) as nat,
            |g: int|
                if g == cf {
                    frame_inputs(self.confirmed, self.num_players, cf)
                } else if g >= self.resim_start() {
                    self.replay_inputs(g)
                } else {
                    self.played[g]
                },
        )
    }
}

impl View for RollbackSession {
    type V = SessionView;

    closed spec fn view(&self) -> SessionView {
        SessionView {
            num_players: self.num_players as nat,
            max_prediction: self.max_prediction as nat,
            input_delay: self.input_delay as nat,
            current_frame: self.current_frame as nat,
            confirmed_frames: self.confirmed_frames as nat,
            confirmed: self.confirmed@.map_values(|r: Vec<Option<GaffInput>>| r@),
            played: self.played@.map_values(|r: Vec<GaffInput>| r@),
            first_incorrect: match self.first_incorrect {
                Some(k) => Some(k as nat),
                None => None,
            },
        }
    }
}

fn blank() -> (r: GaffInput)
    ensures
        r == blank_input(),
{
    GaffInput { mouse_pos: Vec2::zero(), buttons: 0 }
}

fn empty_row(n: usize) -> (r: Vec<Option<GaffInput>>)
    ensures
        r@ == Seq::new(n as nat, |p: int| None::<GaffInput>),
{
    let mut r: Vec<Option<GaffInput>> = Vec::new();
    let mut i: usize = 0;
    while i < n
        invariant
            0 <= i <= n,
            r@ == Seq::new(i as nat, |p: int| None::<GaffInput>),
        decreases n - i,
    {
        r.push(None);
        i = i + 1;
        assert(r@ =~= Seq::new(i as nat, |p: int| None::<GaffInput>));
    }
    r
}

fn blank_row(n: usize) -> (r: Vec<Option<GaffInput>>)
    ensures
        r@ == Seq::new(n as nat, |p: int| Some(blank_input())),
{
    let mut r: Vec<Option<GaffInput>> = Vec::new();
    let mut i: usize = 0;
    while i < n
        invariant
            0 <= i <= n,
            r@ == Seq::new(i as nat, |p: int| Some(blank_input())),
        decreases n - i,
    {
        r.push(Some(blank()));
        i = i + 1;
        assert(r@ =~= Seq::new(i as nat, |p: int| Some(blank_input())));
    }
    r
}

fn copy_row(row: &Vec<Option<GaffInput>>) -> (r: Vec<Option<GaffInput>>)
    ensures
        r@ == row@,
{
    let mut r: Vec<Option<GaffInput>> = Vec::new();
    let mut i: usize = 0;
    while i < row.len()
        invariant
            0 <= i <= row.len(),
            r@ == row@.take(i as int),
        decreases row.len() - i,
    {
        r.push(row[i]);
        i = i + 1;
        assert(r@ =~= row@.take(i as int));
    }
    assert(r@ =~= row@);
    r
}

fn copy_inputs(v: &Vec<GaffInput>) -> (r: Vec<GaffInput>)
    ensures
        r@ == v@,
{
    let mut r: Vec<GaffInput> = Vec::new();
    let mut i: usize = 0;
    while i < v.len()
        invariant
            0 <= i <= v.len(),
            r@ == v@.take(i as int),
        decreases v.len() - i,
    {
        r.push(v[i]);
        i = i + 1;
        assert(r@ =~= v@.take(i as int));
    }
    assert(r@ =~= v@);
    r
}

fn row_is_complete(row: &Vec<Option<GaffInput>>) -> (r: bool)
    ensures
        r == row_complete(row@),
{
    let mut i: usize = 0;
    while i < row.len()
        invariant
            0 <= i <= row.len(),
            forall|p: int| 0 <= p < i ==> (#[trigger] row@[p]) is Some,
        decreases row.len() - i,
    {
        if row[i].is_none() {
            return false;
        }
        i = i + 1;
    }
    true
}

impl RollbackSession {
    pub open spec fn inv(&self) -> bool {
        self@.wf()
    }

    /// A session for `config.num_players` players. The first
    /// `config.input_delay` frames, for which no input can arrive, are
    /// confirmed with the blank input.
    pub fn new(config: SessionConfig) -> (r: RollbackSession)
        requires
            config.max_prediction <= MAX_WINDOW,
            config.input_delay <= MAX_WINDOW,
        ensures
            r.inv(),
            r@.num_players == config.num_players,
            r@.max_prediction == config.max_prediction,
            r@.input_delay == config.input_delay,
            r@.current_frame == 0,
            r@.confirmed_frames == config.input_delay,
            r@.confirmed == Seq::new(
                config.input_delay as nat,
                |f: int| Seq::new(config.num_players as nat, |p: int| Some(blank_input())),
            ),
            r@.played == Seq::<Seq<GaffInput>>::empty(),
            r@.first_incorrect is None,
    {
        let mut confirmed: Vec<Vec<Option<GaffInput>>> = Vec::new();
        let ghost row = Seq::new(config.num_players as nat, |p: int| Some(blank_input()));
        let mut f: usize = 0;
        while f < config.input_delay
            invariant
                0 <= f <= config.input_delay,
                confirmed@.len() == f,
                row == Seq::new(config.num_players as nat, |p: int| Some(blank_input())),
                forall|g: int| 0 <= g < f ==> (#[trigger] confirmed@[g])@ == row,
            decreases config.input_delay - f,
        {
            let r0 = blank_row(config.num_players);
            assert(r0@ =~= row);
            confirmed.push(r0);
            f = f + 1;
        }
        let r = RollbackSession {
            num_players: config.num_players,
            max_prediction: config.max_prediction,
            input_delay: config.input_delay,
            current_frame: 0,
            confirmed_frames: config.input_delay,
            confirmed,
            played: Vec::new(),
            first_incorrect: None,
        };
        assert(r@.confirmed =~= Seq::new(config.input_delay as nat, |f: int| row));
        assert(r@.played =~= Seq::<Seq<GaffInput>>::empty());
        assert forall|f: int| 0 <= f < r@.confirmed_frames implies row_complete(#[trigger] r@.confirmed[f]) by {
            assert(r@.confirmed[f] == row);
        }
        r
    }

    pub fn num_players(&self) -> (r: usize)
        ensures
            r == self@.num_players,
    {
        self.num_players
    }

    /// The next frame to simulate.
    pub fn current_frame(&self) -> (r: usize)
        ensures
            r == self@.current_frame,
    {
        self.current_frame
    }

    /// The number of leading frames whose inputs are all confirmed, as of the
    /// last tick.
    pub fn confirmed_frames(&self) -> (r: usize)
        ensures
            r == self@.confirmed_frames,
    {
        self.confirmed_frames
    }

    /// The earliest frame that must be re-simulated at the next tick.
    pub fn first_incorrect(&self) -> (r: Option<usize>)
        ensures
            r matches Some(k) ==> self@.first_incorrect == Some(k as nat),
            r is None ==> self@.first_incorrect is None,
    {
        self.first_incorrect
    }

    /// The input of player `p` used for frame `f`.
    fn input_of(&self, p: usize, f: usize) -> (r: GaffInput)
        requires
            rows_ok(self@.confirmed, self@.num_players),
            p < self@.num_players,
        ensures
            r == effective(self@.confirmed, p as int, f as int),
    {
        let ghost conf = self@.confirmed;
        if f < self.confirmed.len() {
            assert(self.confirmed@[f as int]@ == conf[f as int]);
            if let Some(i) = self.confirmed[f][p] {
                return i;
            }
        }
        let mut g: usize = f;
        while g > 0
            invariant
                g <= f,
                conf == self@.confirmed,
                rows_ok(self@.confirmed, self@.num_players),
                p < self@.num_players,
                predicted(conf, p as int, f as int) == predicted(conf, p as int, g as int),
                conf_at(conf, f as int, p as int) is None,
            decreases g,
        {
            if g - 1 < self.confirmed.len() {
                assert(self.confirmed@[g - 1]@ == conf[g - 1]);
                if let Some(i) = self.confirmed[g - 1][p] {
                    return i;
                }
            }
            g = g - 1;
        }
        blank()
    }

    /// The inputs of all players used for frame `f`.
    fn inputs_for(&self, f: usize) -> (r: Vec<GaffInput>)
        requires
            rows_ok(self@.confirmed, self@.num_players),
        ensures
            r@ == frame_inputs(self@.confirmed, self@.num_players, f as int),
    {
        let mut r: Vec<GaffInput> = Vec::new();
        let mut p: usize = 0;
        while p < self.num_players
            invariant
                0 <= p <= self.num_players,
                rows_ok(self@.confirmed, self@.num_players),
                r@ == frame_inputs(self@.confirmed, self@.num_players, f as int).take(p as int),
            decreases self.num_players - p,
        {
            let i = self.input_of(p, f);
            r.push(i);
            p = p + 1;
            assert(r@ =~= frame_inputs(self@.confirmed, self@.num_players, f as int).take(p as int));
        }
        assert(r@ =~= frame_inputs(self@.confirmed, self@.num_players, f as int));
        r
    }

    /// Hands the session player `player`'s confirmed input for `frame`, as
    /// it arrives from the network or from local sampling. Inputs of unknown
    /// players, for frames the session cannot have asked for, or for frames
    /// the player already confirmed are dropped. An input that differs from
    /// the prediction a simulated frame used marks that frame for
    /// re-simulation.
    pub fn add_input(&mut self, player: usize, frame: usize, input: GaffInput) -> (r: InputStatus)
        requires
            old(self).inv(),
        ensures
            final(self).inv(),
            r == input_status(old(self)@, player as int, frame as int),
            r != InputStatus::Accepted ==> final(self)@ == old(self)@,
            r == InputStatus::Accepted ==> final(self)@ == (SessionView {
                confirmed: with_input(
                    old(self)@.confirmed,
                    old(self)@.num_players,
                    frame as int,
                    player as int,
                    input,
                ),
                first_incorrect: marked(old(self)@, player as int, frame as int, input),
                ..old(self)@
            }),
    {
        let ghost v0 = self@;
        if player >= self.num_players {
            return InputStatus::UnknownPlayer;
        }
        if frame > self.current_frame + self.max_prediction + self.input_delay {
            return InputStatus::OutOfWindow;
        }
        if frame < self.confirmed.len() {
            assert(self.confirmed@[frame as int]@ == v0.confirmed[frame as int]);
            if self.confirmed[frame][player].is_some() {
                return InputStatus::Duplicate;
            }
        }
        let n = self.num_players;
        while self.confirmed.len() <= frame
            invariant
                self.num_players == n,
                v0.num_players == n,
                v0.wf(),
                frame <= v0.current_frame + v0.max_prediction + v0.input_delay,
                self@ == (SessionView { confirmed: self@.confirmed, ..v0 }),
                forall|g: int| 0 <= g < self@.confirmed.len() ==> #[trigger] self@.confirmed[g] == row_at(v0.confirmed, n as nat, g),
                self@.confirmed.len() >= v0.confirmed.len(),
                self@.confirmed.len() == v0.confirmed.len() || self@.confirmed.len() <= frame + 1,
            decreases frame + 1 - self.confirmed.len(),
        {
            let e = empty_row(n);
            let ghost c0 = self@.confirmed;
            self.confirmed.push(e);
            assert(self@.confirmed =~= c0.push(e@));
        }
        assert(self.confirmed@[frame as int]@ == self@.confirmed[frame as int]);
        let ghost c1 = self@.confirmed;
        let mut row = copy_row(&self.confirmed[frame]);
        row.set(player, Some(input));
        assert(row@ == c1[frame as int].update(player as int, Some(input)));
        self.confirmed.set(frame, row);
        assert(self@.confirmed =~= c1.update(frame as int, c1[frame as int].update(player as int, Some(input))));
        assert(self@.confirmed =~= with_input(v0.confirmed, n as nat, frame as int, player as int, input));
        if frame < self.current_frame {
            assert(self.played@[frame as int]@ == v0.played[frame as int]);
            if self.played[frame][player] != input {
                let k = match self.first_incorrect {
                    Some(k) => if k < frame {
                        k
                    } else {
                        frame
                    },
                    None => frame,
                };
                self.first_incorrect = Some(k);
            }
        }
        proof {
            let v = self@;
            assert forall|f: int| 0 <= f < v.confirmed_frames implies row_complete(#[trigger] v.confirmed[f]) by {
                assert(row_complete(v0.confirmed[f]));
                if f == frame {
                    assert(v0.confirmed[f][player as int] is Some);
                }
            }
        }
        InputStatus::Accepted
    }

    /// Hands the session a local player's input for the current frame; it
    /// takes effect `input_delay` frames later.
    pub fn add_local_input(&mut self, player: usize, input: GaffInput) -> (r: InputStatus)
        requires
            old(self).inv(),
        ensures
            final(self).inv(),
            r == input_status(
                old(self)@,
                player as int,
                (old(self)@.current_frame + old(self)@.input_delay) as int,
            ),
            r != InputStatus::Accepted ==> final(self)@ == old(self)@,
            r == InputStatus::Accepted ==> final(self)@ == (SessionView {
                confirmed: with_input(
                    old(self)@.confirmed,
                    old(self)@.num_players,
                    (old(self)@.current_frame + old(self)@.input_delay) as int,
                    player as int,
                    input,
                ),
                first_incorrect: marked(
                    old(self)@,
                    player as int,
                    (old(self)@.current_frame + old(self)@.input_delay) as int,
                    input,
                ),
                ..old(self)@
            }),
    {
        let frame = self.current_frame + self.input_delay;
        self.add_input(player, frame, input)
    }

    /// Carries out one tick. The tick is refused while the frame counter is
    /// at `FRAME_LIMIT`, or while the simulation is a full prediction window
    /// ahead of the confirmed frames; the session then changes only its count
    /// of confirmed frames. Otherwise, if a prediction proved wrong, the
    /// driver loads that frame and re-simulates up to the current one, with
    /// the confirmed inputs in place of the wrong predictions and the other
    /// predictions unchanged; then it simulates the current frame.
    pub fn advance_frame(&mut self) -> (r: Result<Vec<Request>, SessionError>)
        requires
            old(self).inv(),
        ensures
            final(self).inv(),
            final(self)@.confirmed_frames == first_incomplete(
                old(self)@.confirmed,
                old(self)@.confirmed_frames as int,
            ),
            match r {
                Err(e) => {
                    &&& refusal(old(self)@, final(self)@.confirmed_frames) == Some(e)
                    &&& final(self)@ == (SessionView {
                        confirmed_frames: final(self)@.confirmed_frames,
                        ..old(self)@
                    })
                },
                Ok(reqs) => {
                    &&& refusal(old(self)@, final(self)@.confirmed_frames) is None
                    &&& reqs@.map_values(|q: Request| q.spec()) == old(self)@.tick_requests()
                    &&& final(self)@ == (SessionView {
                        current_frame: old(self)@.current_frame + 1,
                        confirmed_frames: final(self)@.confirmed_frames,
                        played: old(self)@.played_after_tick(),
                        first_incorrect: None,
                        ..old(self)@
                    })
                },
            },
    {
        let ghost v0 = self@;
        let mut c = self.confirmed_frames;
        while c < self.confirmed.len() && row_is_complete(&self.confirmed[c])
            invariant
                self@ == v0,
                v0.confirmed_frames <= c <= self.confirmed.len(),
                first_incomplete(v0.confirmed, v0.confirmed_frames as int) == first_incomplete(
                    v0.confirmed,
                    c as int,
                ),
                forall|f: int| 0 <= f < c ==> row_complete(#[trigger] v0.confirmed[f]),
            decreases self.confirmed.len() - c,
        {
            c = c + 1;
        }
        self.confirmed_frames = c;
        let cf = self.current_frame;
        if cf >= FRAME_LIMIT {
            return Err(SessionError::FrameLimit);
        }
        if cf >= c + self.max_prediction {
            return Err(SessionError::PredictionThreshold);
        }
        let ghost v1 = self@;
        let ghost n = v0.num_players;
        let mut reqs: Vec<Request> = Vec::new();
        let start = match self.first_incorrect {
            Some(k) => {
                reqs.push(Request::LoadState { frame: k });
                k
            },
            None => cf,
        };
        let ghost prefix = reqs@.map_values(|q: Request| q.spec());
        assert(prefix =~= match v0.first_incorrect {
            Some(k) => seq![RequestSpec::LoadState { frame: k }],
            None => Seq::empty(),
        });
        let mut f = start;
        while f < cf
            invariant
                start <= f <= cf,
                start == v0.resim_start(),
                cf == v0.current_frame,
                cf < FRAME_LIMIT,
                v0.wf(),
                n == v0.num_players,
                self@ == (SessionView { played: self@.played, ..v1 }),
                v1 == (SessionView { confirmed_frames: c as nat, ..v0 }),
                self@.played.len() == cf,
                forall|g: int|
                    0 <= g < cf ==> #[trigger] self@.played[g] == if start <= g < f {
                        v0.replay_inputs(g)
                    } else {
                        v0.played[g]
                    },
                reqs@.map_values(|q: Request| q.spec()) == prefix + v0.replay_requests(start as int).take(
                    f - start,
                ),
            decreases cf - f,
        {
            let row = self.replay_row(f);
            assert(row@ == v0.replay_inputs(f as int)) by {
                assert(self@.played[f as int] == v0.played[f as int]);
                assert(row@ =~= v0.replay_inputs(f as int));
            }
            let ghost pp = self@.played;
            self.played.set(f, copy_inputs(&row));
            assert(self@.played =~= pp.update(f as int, v0.replay_inputs(f as int)));
            let ghost r0 = reqs@;
            reqs.push(Request::AdvanceFrame { frame: f, inputs: row });
            assert(reqs@.map_values(|q: Request| q.spec()) =~= r0.map_values(|q: Request| q.spec()).push(
                RequestSpec::AdvanceFrame { frame: f as nat, inputs: v0.replay_inputs(f as int) },
            ));
            assert(reqs@.map_values(|q: Request| q.spec()) =~= prefix + v0.replay_requests(start as int).take(
                f + 1 - start,
            ));
            f = f + 1;
        }
        let inputs = self.inputs_for(cf);
        let ghost played0 = self@.played;
        self.played.push(copy_inputs(&inputs));
        assert(self@.played =~= played0.push(inputs@));
        let ghost r0 = reqs@;
        reqs.push(Request::AdvanceFrame { frame: cf, inputs });
        assert(reqs@.map_values(|q: Request| q.spec()) =~= r0.map_values(|q: Request| q.spec()).push(
            RequestSpec::AdvanceFrame { frame: cf as nat, inputs: frame_inputs(v0.confirmed, n, cf as int) },
        ));
        self.first_incorrect = None;
        self.current_frame = cf + 1;
        proof {
            assert(v0.replay_requests(start as int).take(cf - start) =~= v0.replay_requests(start as int));
            assert(reqs@.map_values(|q: Request| q.spec()) =~= v0.tick_requests());
            assert(self@.played =~= v0.played_after_tick());
            let v = self@;
            assert forall|g: int| 0 <= g < v.played.len() implies (#[trigger] v.played[g]).len() == v.num_players by {
                if g < cf {
                    assert(v.played[g] == played0[g]);
                }
            }
        }
        Ok(reqs)
    }

    /// The inputs frame `f` is replayed with.
    fn replay_row(&self, f: usize) -> (r: Vec<GaffInput>)
        requires
            rows_ok(self@.confirmed, self@.num_players),
            f < self@.played.len(),
            self@.played[f as int].len() == self@.num_players,
        ensures
            r@ == self@.replay_inputs(f as int),
    {
        let mut r: Vec<GaffInput> = Vec::new();
        let mut p: usize = 0;
        while p < self.num_players
            invariant
                0 <= p <= self.num_players,
                rows_ok(self@.confirmed, self@.num_players),
                f < self@.played.len(),
                self@.played[f as int].len() == self@.num_players,
                r@ == self@.replay_inputs(f as int).take(p as int),
            decreases self.num_players - p,
        {
            assert(self.played@[f as int]@ == self@.played[f as int]);
            let mut i = self.played[f][p];
            if f < self.confirmed.len() {
                assert(self.confirmed@[f as int]@ == self@.confirmed[f as int]);
                if let Some(c) = self.confirmed[f][p] {
                    i = c;
                }
            }
            r.push(i);
            p = p + 1;
            assert(r@ =~= self@.replay_inputs(f as int).take(p as int));
        }
        assert(r@ =~= self@.replay_inputs(f as int));
        r
    }
}

/// A pending rollback never reaches further back than the prediction
/// window: a store that keeps `max_prediction + 1` frames still holds the
/// snapshot it loads.
pub proof fn lemma_rollback_depth(v: SessionView)
    requires
        v.wf(),
    ensures
        v.first_incorrect matches Some(k) ==> k < v.current_frame <= k + v.max_prediction,
{
}

} // verus!
