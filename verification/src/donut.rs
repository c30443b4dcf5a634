//! The animation controller: rotation angles, playback mode and the current
//! frame.

use vstd::prelude::*;
use crate::angle::advance;
use crate::angle::lemma_wrap_bounds;
use crate::angle::lemma_wrap_in_range;
use crate::angle::wrap;
use crate::angle::FULL_TURN;
use crate::config::Config;
use crate::frame::blank;
use crate::frame::square;
use crate::frame::FrameBuffer;
use crate::frame::Grid;
use crate::input::a_step;
use crate::input::b_step;
use crate::input::mode_after;
use crate::input::settled;
use crate::input::Key;
use crate::input::Mode;
use crate::sampler::rendered;
use crate::sampler::Sampler;
use crate::trig::Trig;

verus! {

/// What the caller of [`Donut::step`] has to do next.
#[derive(Clone, Copy, Debug, PartialEq, Eq, Structural)]
pub enum Action {
    /// Leave the frame loop.
    Quit,
    /// Compute the next frame.
    Render,
}

/// The state of the controller, as plain mathematical values.
pub struct DonutState {
    /// The scene and its motion.
    pub config: Config,
    /// The playback mode.
    pub mode: Mode,
    /// The first rotation angle, in micro-radians.
    pub a_angle: int,
    /// The second rotation angle, in micro-radians.
    pub b_angle: int,
    /// The time of the last rendering, in milliseconds since creation.
    pub last_render: int,
    /// The current frame.
    pub points: Grid,
}

/// The state after an input has been read: only the mode changes.
pub open spec fn state_after_key(state: DonutState, key: Option<Key>) -> DonutState {
    DonutState { mode: mode_after(state.mode, key), ..state }
}

/// The state after the mode has acted on the angles: each angle moves by
/// the step of the mode and wraps into one turn, and a nudge is spent.
pub open spec fn state_after_turn(state: DonutState) -> DonutState {
    DonutState {
        mode: settled(state.mode),
        a_angle: wrap(state.a_angle + a_step(state.config, state.mode)),
        b_angle: wrap(state.b_angle + b_step(state.config, state.mode)),
        ..state
    }
}

/// The state after one pass of the frame loop up to the rendering: the
/// input is read, and unless it quits, the mode acts on the angles.
pub open spec fn state_after_step(state: DonutState, key: Option<Key>) -> DonutState {
    let read = state_after_key(state, key);
    if read.mode is Quit {
        read
    } else {
        state_after_turn(read)
    }
}

/// Whether a rendering is due at time `now`: at least `interval`
/// milliseconds have passed since the last one.
pub open spec fn due(last_render: int, now: int, interval: int) -> bool {
    now >= last_render && now - last_render >= interval
}

/// The animation controller.
#[derive(Debug)]
pub struct Donut {
    sampler: Sampler,
    user_input: Mode,
    last_render: u64,
    points: FrameBuffer,
    a_angle: u32,
    b_angle: u32,
}

impl View for Donut {
    type V = DonutState;

    closed spec fn view(&self) -> DonutState {
        DonutState {
            config: self.sampler.config(),
            mode: self.user_input,
            a_angle: self.a_angle as int,
            b_angle: self.b_angle as int,
            last_render: self.last_render as int,
            points: self.points@,
        }
    }
}

impl Donut {
    /// The parts are well formed, both angles lie within one turn, and the
    /// frame has the side of the viewport.
    #[verifier::type_invariant]
    pub closed spec fn wf(self) -> bool {
        &&& self.sampler.wf()
        &&& self.points.wf()
        &&& self.a_angle < FULL_TURN
        &&& self.b_angle < FULL_TURN
        &&& self.points.side() == self.sampler.config().viewport
    }

    /// The state a controller starts in: running, both angles zero, nothing
    /// drawn, and the clock at zero.
    pub open spec fn initial(cfg: Config) -> DonutState {
        DonutState {
            config: cfg,
            mode: Mode::Running,
            a_angle: 0,
            b_angle: 0,
            last_render: 0,
            points: blank(cfg.viewport as nat),
        }
    }

    /// A controller for the standard scene.
    pub fn new() -> (donut: Donut)
        ensures
            donut.wf(),
            donut@ == Self::initial(Config::standard()),
    {
        let made = Donut::with_config(Config::standard());
        made.unwrap()
    }

    /// A controller for the scene `cfg`; `None` exactly when `cfg` is not
    /// valid.
    pub fn with_config(cfg: Config) -> (donut: Option<Donut>)
        ensures
            donut is Some <==> cfg.valid(),
            donut matches Some(d) ==> d.wf() && d@ == Self::initial(cfg),
    {
        match Sampler::new(cfg) {
            Some(sampler) => Some(
                Donut {
                    sampler,
                    user_input: Mode::Running,
                    last_render: 0,
                    points: FrameBuffer::new(cfg.viewport),
                    a_angle: 0,
                    b_angle: 0,
                },
            ),
            None => None,
        }
    }

    /// In every state of a controller the scene is valid, both angles lie in
    /// `[0, FULL_TURN)`, and the frame is a grid of the side of the viewport.
    pub proof fn lemma_state_bounds(self)
        requires
            self.wf(),
        ensures
            self@.config.valid(),
            0 <= self@.a_angle < FULL_TURN,
            0 <= self@.b_angle < FULL_TURN,
            square(self@.points, self@.config.viewport as nat),
    {
        self.points.lemma_view_square();
        self.sampler.lemma_config_valid();
    }

    /// The scene and its motion.
    pub fn config(&self) -> (cfg: Config)
        ensures
            cfg == self@.config,
            cfg.valid(),
    {
        self.sampler.config()
    }

    /// The geometry sampler of the scene.
    pub fn sampler(&self) -> (sampler: Sampler)
        ensures
            sampler.config() == self@.config,
    {
        self.sampler
    }

    /// The playback mode.
    pub fn mode(&self) -> (mode: Mode)
        ensures
            mode == self@.mode,
    {
        self.user_input
    }

    /// The first rotation angle, in micro-radians.
    pub fn a_angle(&self) -> (angle: u32)
        ensures
            angle == self@.a_angle,
            angle < FULL_TURN,
    {
        proof {
            use_type_invariant(self);
        }
        self.a_angle
    }

    /// The second rotation angle, in micro-radians.
    pub fn b_angle(&self) -> (angle: u32)
        ensures
            angle == self@.b_angle,
            angle < FULL_TURN,
    {
        proof {
            use_type_invariant(self);
        }
        self.b_angle
    }

    /// The current frame.
    pub fn points(&self) -> (points: &FrameBuffer)
        ensures
            points@ == self@.points,
            points.side() == self@.config.viewport,
    {
        proof {
            use_type_invariant(self);
        }
        &self.points
    }

    /// Takes in the input of this frame: a key, or `None` when the wait for
    /// one timed out. Only the mode changes.
    pub fn read_user_input(&mut self, key: Option<Key>)
        ensures
            final(self)@ == state_after_key(old(self)@, key),
    {
        proof {
            use_type_invariant(&*self);
        }
        self.user_input = self.user_input.after(key);
    }

    /// Lets the mode act on the angles: both advance while running, a nudge
    /// moves one of them once and leaves the animation stopped, and nothing
    /// moves while stopped or after quitting.
    pub fn increment_angle(&mut self)
        ensures
            final(self)@ == state_after_turn(old(self)@),
    {
        proof {
            use_type_invariant(&*self);
        }
        let cfg = self.sampler.config();
        let (a_inc, b_inc) = self.user_input.steps(&cfg);
        let a_next = advance(self.a_angle, a_inc);
        let b_next = advance(self.b_angle, b_inc);
        self.user_input = self.user_input.settle();
        self.a_angle = a_next;
        self.b_angle = b_next;
    }

    /// One pass of the frame loop up to the rendering: reads the input and,
    /// unless it quits, lets the mode act on the angles. `Quit` is returned
    /// exactly when the mode after the input is `Quit`; the angles and the
    /// frame are then left as they were.
    pub fn step(&mut self, key: Option<Key>) -> (action: Action)
        ensures
            final(self)@ == state_after_step(old(self)@, key),
            action is Quit <==> mode_after(old(self)@.mode, key) is Quit,
    {
        self.read_user_input(key);
        match self.user_input {
            Mode::Quit => Action::Quit,
            _ => {
                self.increment_angle();
                Action::Render
            },
        }
    }

    /// Recomputes the frame for the torus rotated by `a` and `b`, sampled at
    /// the angles whose sines and cosines are `thetas` and `phis`. Nothing of
    /// the previous frame survives.
    pub fn calculate_frame(&mut self, a: Trig, b: Trig, thetas: &Vec<Trig>, phis: &Vec<Trig>)
        ensures
            final(self)@ == (DonutState {
                points: rendered(old(self)@.config, a, b, thetas@, phis@),
                ..old(self)@
            }),
    {
        proof {
            use_type_invariant(&*self);
        }
        let frame = self.sampler.render_frame(a, b, thetas, phis);
        proof {
            use_type_invariant(&frame);
        }
        self.points = frame;
    }

    /// Decides whether the frame is to be rendered at time `now_ms`, counted
    /// in milliseconds since the controller was created: it is when at least
    /// the render interval has passed since the last rendering, whose time is
    /// then moved to `now_ms`.
    pub fn render_due(&mut self, now_ms: u64) -> (due: bool)
        ensures
            due == self::due(
                old(self)@.last_render,
                now_ms as int,
                old(self)@.config.ms_per_render as int,
            ),
            final(self)@ == (DonutState {
                last_render: if due {
                    now_ms as int
                } else {
                    old(self)@.last_render
                },
                ..old(self)@
            }),
    {
        proof {
            use_type_invariant(&*self);
        }
        let interval = self.sampler.config().ms_per_render;
        if now_ms >= self.last_render && now_ms - self.last_render >= interval {
            self.last_render = now_ms;
            true
        } else {
            false
        }
    }
}


/// Whether both angles of a state lie within one turn.
pub open spec fn angles_in_turn(state: DonutState) -> bool {
    &&& 0 <= state.a_angle < FULL_TURN
    &&& 0 <= state.b_angle < FULL_TURN
}

/// Whatever the input, a pass of the frame loop leaves both angles within
/// one turn.
pub proof fn lemma_step_keeps_angles_in_turn(state: DonutState, key: Option<Key>)
    requires
        angles_in_turn(state),
    ensures
        angles_in_turn(state_after_step(state, key)),
{
    let read = state_after_key(state, key);
    lemma_wrap_bounds(read.a_angle + a_step(read.config, read.mode));
    lemma_wrap_bounds(read.b_angle + b_step(read.config, read.mode));
}

/// No motion while stopped: without input, a stopped controller stays
/// exactly as it is.
pub proof fn lemma_stopped_stays_put(state: DonutState)
    requires
        angles_in_turn(state),
        state.mode is Stopped,
    ensures
        state_after_step(state, None) == state,
{
    lemma_wrap_in_range(state.a_angle);
    lemma_wrap_in_range(state.b_angle);
}

/// While running, every pass without input advances both angles by their
/// spacing.
pub proof fn lemma_running_advances(state: DonutState)
    requires
        state.mode is Running,
    ensures
        state_after_step(state, None) == (DonutState {
            a_angle: wrap(state.a_angle + state.config.a_spacing),
            b_angle: wrap(state.b_angle + state.config.b_spacing),
            ..state
        }),
{
}

/// A `Left` key nudges exactly once: whatever the mode was, the second angle
/// advances by its spacing, the first angle and everything else but the
/// mode stay as they were, the mode becomes `Stopped`, and a following pass
/// without input changes nothing.
pub proof fn lemma_left_nudges_once(state: DonutState)
    requires
        angles_in_turn(state),
    ensures
        state_after_step(state, Some(Key::Left)) == (DonutState {
            mode: Mode::Stopped,
            b_angle: wrap(state.b_angle + state.config.b_spacing),
            ..state
        }),
        state_after_step(state_after_step(state, Some(Key::Left)), None) == state_after_step(
            state,
            Some(Key::Left),
        ),
{
    lemma_wrap_in_range(state.a_angle);
    let nudged = state_after_step(state, Some(Key::Left));
    lemma_step_keeps_angles_in_turn(state, Some(Key::Left));
    lemma_stopped_stays_put(nudged);
}

/// The other three arrow keys nudge in the same way: `Right` moves the
/// second angle back by its spacing, `Up` and `Down` move the first angle
/// forth and back, and each leaves the controller stopped.
pub proof fn lemma_arrows_nudge(state: DonutState)
    requires
        angles_in_turn(state),
    ensures
        state_after_step(state, Some(Key::Right)) == (DonutState {
            mode: Mode::Stopped,
            b_angle: wrap(state.b_angle - state.config.b_spacing),
            ..state
        }),
        state_after_step(state, Some(Key::Up)) == (DonutState {
            mode: Mode::Stopped,
            a_angle: wrap(state.a_angle + state.config.a_spacing),
            ..state
        }),
        state_after_step(state, Some(Key::Down)) == (DonutState {
            mode: Mode::Stopped,
            a_angle: wrap(state.a_angle - state.config.a_spacing),
            ..state
        }),
{
    lemma_wrap_in_range(state.a_angle);
    lemma_wrap_in_range(state.b_angle);
}

/// The key `q` quits from every mode, and touches nothing but the mode.
pub proof fn lemma_q_quits(state: DonutState)
    ensures
        state_after_step(state, Some(Key::Char('q'))) == (DonutState { mode: Mode::Quit, ..state }),
{
}

} // verus!
