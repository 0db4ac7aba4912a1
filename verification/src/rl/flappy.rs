//! A Flappy Bird environment on an integer grid.

use vstd::prelude::*;

use crate::random::random_below;

verus! {

/// Screen height, in pixels.
pub const SCREEN_HEIGHT: i32 = 512;
/// Screen width, in pixels.
pub const SCREEN_WIDTH: i32 = 288;
/// Width of a pipe.
pub const PIPE_WIDTH: i32 = 52;
/// Vertical gap between the top and bottom pipe.
pub const PIPE_GAP: i32 = 100;
/// Lowest top-pipe height.
pub const MIN_PIPE_HEIGHT: i32 = 50;
/// Highest top-pipe height (exclusive): screen height minus gap minus minimum height.
pub const MAX_PIPE_HEIGHT: i32 = 362;
/// Velocity set by a flap.
pub const FLAP_VELOCITY: i32 = -4;

/// What the agent observes.
#[derive(Debug, Clone, Copy, PartialEq, Eq, Hash, Structural)]
pub struct FlappyBirdState {
    pub bird_y: i32,
    pub bird_velocity: i32,
    pub next_pipe_dist: i32,
    pub next_pipe_top: i32,
    pub next_pipe_bottom: i32,
    pub score: i32,
}

/// The start state: bird mid-screen at rest, pipe at the right edge.
pub open spec fn start_state() -> FlappyBirdState {
    FlappyBirdState {
        bird_y: 256,
        bird_velocity: 0,
        next_pipe_dist: 288,
        next_pipe_top: 0,
        next_pipe_bottom: 100,
        score: 0,
    }
}

impl FlappyBirdState {
    /// The start state: bird mid-screen at rest, pipe at the right edge.
    pub fn default() -> (s: Self)
        ensures
            s == start_state(),
    {
        FlappyBirdState {
            bird_y: 256,
            bird_velocity: 0,
            next_pipe_dist: SCREEN_WIDTH,
            next_pipe_top: 0,
            next_pipe_bottom: PIPE_GAP,
            score: 0,
        }
    }
}

/// The two actions.
#[derive(Debug, Clone, Copy, PartialEq, Eq, Hash, Structural)]
pub enum FlappyBirdAction {
    Flap,
    DoNothing,
}

impl FlappyBirdAction {
    /// Index of the action: Flap is 0, DoNothing is 1.
    pub fn to_index(&self) -> (i: usize)
        ensures
            i == (match *self {
                FlappyBirdAction::Flap => 0usize,
                FlappyBirdAction::DoNothing => 1usize,
            }),
    {
        match self {
            FlappyBirdAction::Flap => 0,
            FlappyBirdAction::DoNothing => 1,
        }
    }

    /// The action with the given index.
    pub fn from_index(index: usize) -> (a: Option<FlappyBirdAction>)
        ensures
            a == (if index == 0 {
                Some(FlappyBirdAction::Flap)
            } else if index == 1 {
                Some(FlappyBirdAction::DoNothing)
            } else {
                None
            }),
    {
        match index {
            0 => Some(FlappyBirdAction::Flap),
            1 => Some(FlappyBirdAction::DoNothing),
            _ => None,
        }
    }
}

/// The bird touches the ground or ceiling, or, while the pipe is within a
/// pipe width of it, the top or bottom pipe.
pub open spec fn spec_collision(s: FlappyBirdState) -> bool {
    ||| s.bird_y <= 0
    ||| s.bird_y >= SCREEN_HEIGHT
    ||| (s.next_pipe_dist <= PIPE_WIDTH && s.next_pipe_dist >= -PIPE_WIDTH && (s.bird_y
        <= s.next_pipe_top || s.bird_y >= s.next_pipe_bottom))
}

/// Velocity after gravity, in whole pixels per frame: the quarter-pixel pull,
/// truncated toward zero, slows a rising bird by one and leaves a falling
/// bird's speed as it is; a bird at rest starts to fall at one pixel per
/// frame.
pub open spec fn after_gravity(v: i32) -> int {
    if v > 0 {
        v as int
    } else {
        v + 1
    }
}

/// Result of one step.
#[derive(Debug, Clone, Copy, PartialEq, Eq, Structural)]
pub struct StepOutcome {
    pub state: FlappyBirdState,
    /// The bird hit something (the step is penalised).
    pub collision: bool,
    /// The pipe reached mid-screen without a collision (the step is rewarded).
    pub passed_pipe: bool,
    /// The episode is over.
    pub done: bool,
}

/// The environment.
pub struct FlappyBirdEnv {
    state: FlappyBirdState,
    frame_iteration: i32,
}

impl FlappyBirdEnv {
    /// Current state.
    pub closed spec fn state(&self) -> FlappyBirdState {
        self.state
    }

    /// Frames played in this episode.
    pub closed spec fn frames(&self) -> int {
        self.frame_iteration as int
    }

    /// The velocity lies between the flap velocity and a fall of one pixel
    /// per frame, the pipe stays within its travel, and the pipes are a gap
    /// apart.
    pub open spec fn wf(&self) -> bool {
        &&& FLAP_VELOCITY <= self.state().bird_velocity <= 1
        &&& -PIPE_WIDTH < self.state().next_pipe_dist <= SCREEN_WIDTH
        &&& 0 <= self.state().next_pipe_top < MAX_PIPE_HEIGHT
        &&& self.state().next_pipe_bottom == self.state().next_pipe_top + PIPE_GAP
        &&& self.state().score >= 0
        &&& self.frames() >= 0
    }

    /// An environment in the start state.
    pub fn default() -> (e: Self)
        ensures
            e.wf(),
            e.state() == start_state(),
            e.frames() == 0,
    {
        FlappyBirdEnv { state: FlappyBirdState::default(), frame_iteration: 0 }
    }

    /// Whether the bird collides in the current state.
    pub fn check_collision(&self) -> (b: bool)
        ensures
            b == spec_collision(self.state()),
    {
        if self.state.bird_y <= 0 || self.state.bird_y >= SCREEN_HEIGHT {
            return true;
        }
        if self.state.next_pipe_dist <= PIPE_WIDTH && self.state.next_pipe_dist >= -PIPE_WIDTH {
            if self.state.bird_y <= self.state.next_pipe_top || self.state.bird_y >= self.state.next_pipe_bottom {
                return true;
            }
        }
        false
    }

    /// Pipes passed so far.
    pub fn get_score(&self) -> (s: i32)
        ensures
            s == self.state().score,
    {
        self.state.score
    }

    /// A new pipe at the right edge with a random top height, and one more point.
    fn generate_new_pipe(&mut self)
        requires
            old(self).state().score < i32::MAX,
        ensures
            final(self).state().next_pipe_dist == SCREEN_WIDTH,
            MIN_PIPE_HEIGHT <= final(self).state().next_pipe_top < MAX_PIPE_HEIGHT,
            final(self).state().next_pipe_bottom == final(self).state().next_pipe_top + PIPE_GAP,
            final(self).state().score == old(self).state().score + 1,
            final(self).state().bird_y == old(self).state().bird_y,
            final(self).state().bird_velocity == old(self).state().bird_velocity,
            final(self).frames() == old(self).frames(),
    {
        let top = MIN_PIPE_HEIGHT + random_below(312) as i32;
        self.state.next_pipe_dist = SCREEN_WIDTH;
        self.state.next_pipe_top = top;
        self.state.next_pipe_bottom = top + PIPE_GAP;
        self.state.score = self.state.score + 1;
    }

    /// Starts a new episode: the start state with a random first pipe.
    pub fn reset(&mut self) -> (s: FlappyBirdState)
        ensures
            final(self).wf(),
            s == final(self).state(),
            final(self).frames() == 0,
            s.bird_y == 256 && s.bird_velocity == 0 && s.next_pipe_dist == SCREEN_WIDTH && s.score == 0,
            MIN_PIPE_HEIGHT <= s.next_pipe_top < MAX_PIPE_HEIGHT,
            s.next_pipe_bottom == s.next_pipe_top + PIPE_GAP,
    {
        self.state = FlappyBirdState::default();
        self.frame_iteration = 0;
        let top = MIN_PIPE_HEIGHT + random_below(312) as i32;
        self.state.next_pipe_top = top;
        self.state.next_pipe_bottom = top + PIPE_GAP;
        self.state
    }

    /// Advances one frame: a flap sets the velocity to -4, gravity acts, the
    /// bird moves, the pipe moves two pixels left (a new pipe and a point when
    /// it leaves the screen); the episode ends on a collision, after 1000
    /// frames, or when the bird leaves the screen.
    pub fn step(&mut self, action: FlappyBirdAction) -> (o: StepOutcome)
        requires
            old(self).wf(),
            old(self).frames() < i32::MAX,
            old(self).state().score < i32::MAX,
            old(self).state().bird_y >= i32::MIN + 4,
            old(self).state().bird_y < i32::MAX,
        ensures
            final(self).wf(),
            o.state == final(self).state(),
            final(self).frames() == old(self).frames() + 1,
            o.state.bird_velocity == after_gravity(
                match action {
                    FlappyBirdAction::Flap => FLAP_VELOCITY,
                    FlappyBirdAction::DoNothing => old(self).state().bird_velocity,
                },
            ),
            o.state.bird_y == old(self).state().bird_y + o.state.bird_velocity,
            old(self).state().next_pipe_dist - 2 <= -PIPE_WIDTH ==> o.state.next_pipe_dist == SCREEN_WIDTH
                && o.state.score == old(self).state().score + 1,
            old(self).state().next_pipe_dist - 2 > -PIPE_WIDTH ==> o.state.next_pipe_dist
                == old(self).state().next_pipe_dist - 2 && o.state.score == old(self).state().score
                && o.state.next_pipe_top == old(self).state().next_pipe_top,
            o.collision == spec_collision(o.state),
            o.passed_pipe == (!o.collision && o.state.next_pipe_dist == SCREEN_WIDTH / 2),
            o.done == (o.collision || final(self).frames() > 1000 || o.state.bird_y <= 0
                || o.state.bird_y >= SCREEN_HEIGHT),
    {
        self.frame_iteration = self.frame_iteration + 1;
        match action {
            FlappyBirdAction::Flap => {
                self.state.bird_velocity = FLAP_VELOCITY;
            },
            FlappyBirdAction::DoNothing => {},
        }
        if self.state.bird_velocity <= 0 {
            self.state.bird_velocity = self.state.bird_velocity + 1;
        }
        self.state.bird_y = self.state.bird_y + self.state.bird_velocity;
        self.state.next_pipe_dist = self.state.next_pipe_dist - 2;
        if self.state.next_pipe_dist <= -PIPE_WIDTH {
            self.generate_new_pipe();
        }
        let collision = self.check_collision();
        let passed_pipe = !collision && self.state.next_pipe_dist == SCREEN_WIDTH / 2;
        let done = collision || self.frame_iteration > 1000 || self.state.bird_y <= 0
            || self.state.bird_y >= SCREEN_HEIGHT;
        StepOutcome { state: self.state, collision, passed_pipe, done }
    }

    /// Number of actions.
    pub fn action_space_size(&self) -> (n: usize)
        ensures
            n == 2,
    {
        2
    }

    /// Both actions are always valid.
    pub fn valid_actions(&self, _state: &FlappyBirdState) -> (v: Vec<FlappyBirdAction>)
        ensures
            v@ == seq![FlappyBirdAction::Flap, FlappyBirdAction::DoNothing],
    {
        vec![FlappyBirdAction::Flap, FlappyBirdAction::DoNothing]
    }
}


impl crate::rl::action::Action for FlappyBirdAction {
    open spec fn action_number(&self) -> nat {
        match *self {
            FlappyBirdAction::Flap => 0,
            FlappyBirdAction::DoNothing => 1,
        }
    }

    fn to_index(&self) -> (i: usize) {
        FlappyBirdAction::to_index(self)
    }

    fn from_index(index: usize) -> (a: Option<Self>)
        ensures
            a == (if index == 0 {
                Some(FlappyBirdAction::Flap)
            } else if index == 1 {
                Some(FlappyBirdAction::DoNothing)
            } else {
                None
            }),
    {
        FlappyBirdAction::from_index(index)
    }
}


/// While the pipe is within a pipe width of the bird, a bird at or below the
/// bottom pipe's edge, or at or above the top pipe's edge, collides; a bird
/// strictly inside the gap and strictly inside the screen does not.
pub proof fn lemma_pipe_collision(s: FlappyBirdState)
    ensures
        -PIPE_WIDTH <= s.next_pipe_dist <= PIPE_WIDTH && s.bird_y >= s.next_pipe_bottom ==> spec_collision(s),
        -PIPE_WIDTH <= s.next_pipe_dist <= PIPE_WIDTH && s.bird_y <= s.next_pipe_top ==> spec_collision(s),
        0 < s.bird_y < SCREEN_HEIGHT && s.next_pipe_top < s.bird_y < s.next_pipe_bottom ==> !spec_collision(s),
        0 < s.bird_y < SCREEN_HEIGHT && (s.next_pipe_dist > PIPE_WIDTH || s.next_pipe_dist < -PIPE_WIDTH)
            ==> !spec_collision(s),
        s.bird_y <= 0 || s.bird_y >= SCREEN_HEIGHT ==> spec_collision(s),
{
}

} // verus!
