//! The character's physics payload and its six typed states. Each state is a
//! wrapper of its own type around the shared context, so that only the
//! transitions a state has can be written at all.

use vstd::prelude::*;
use crate::engine::Point;

verus! {

pub const FLOOR: i16 = 449;
pub const HEIGHT: i16 = 570;
pub const PLAYER_HEIGHT: i16 = HEIGHT - FLOOR;
pub const STARTING_POINT: i16 = -20;

pub const IDLE_FRAME_NAME: &'static str = "Idle";
pub const RUN_FRAME_NAME: &'static str = "Run";
pub const SLIDING_FRAME_NAME: &'static str = "Slide";
pub const JUMPING_FRAME_NAME: &'static str = "Jump";
pub const FALLING_FRAME_NAME: &'static str = "Dead";

pub const IDLE_FRAMES: u8 = 29;
pub const RUNNING_FRAMES: u8 = 23;
pub const SLIDING_FRAMES: u8 = 14;
pub const JUMPING_FRAMES: u8 = 35;
pub const FALLING_FRAMES: u8 = 29;

pub const RUNNING_SPEED: i16 = 4;
pub const JUMP_SPEED: i16 = -25;

pub const GRAVITY: i16 = 1;
pub const TERMINAL_VELOCITY: i16 = 20;

/// Animation frame counter, position and velocity of the character.
#[derive(Clone, Copy, Debug, PartialEq, Eq, Structural)]
pub struct RedHatBoyContext {
    pub frame: u8,
    pub position: Point,
    pub velocity: Point,
}

/// The vertical velocity one frame later: gravity is added below the
/// terminal velocity, and nothing changes from there on.
pub open spec fn pulled(velocity_y: int) -> int {
    if velocity_y < TERMINAL_VELOCITY {
        velocity_y + GRAVITY
    } else {
        velocity_y
    }
}

/// The height one frame later: the velocity is added and the floor stops the
/// fall.
pub open spec fn settled(position_y: int, velocity_y: int) -> int {
    if position_y + velocity_y > FLOOR {
        FLOOR as int
    } else {
        position_y + velocity_y
    }
}

impl RedHatBoyContext {
    /// Whether one frame can pass: the new height must be representable.
    /// Only a rise can fail to be, since the floor bounds every fall.
    pub open spec fn can_advance(self) -> bool {
        self.position.y + pulled(self.velocity.y as int) >= i16::MIN
    }

    /// The context one frame later, in an animation of `frame_count` frames.
    pub open spec fn advanced(self, frame_count: u8) -> RedHatBoyContext {
        RedHatBoyContext {
            frame: if self.frame < frame_count {
                (self.frame + 1) as u8
            } else {
                0
            },
            position: Point {
                x: self.position.x,
                y: settled(self.position.y as int, pulled(self.velocity.y as int)) as i16,
            },
            velocity: Point { x: self.velocity.x, y: pulled(self.velocity.y as int) as i16 },
        }
    }

    /// The context `n` frames later.
    pub open spec fn advanced_by(self, frame_count: u8, n: nat) -> RedHatBoyContext
        decreases n,
    {
        if n == 0 {
            self
        } else {
            self.advanced_by(frame_count, (n - 1) as nat).advanced(frame_count)
        }
    }

    pub open spec fn spec_reset_frame(self) -> RedHatBoyContext {
        RedHatBoyContext { frame: 0, position: self.position, velocity: self.velocity }
    }

    pub open spec fn spec_run_right(self) -> RedHatBoyContext {
        RedHatBoyContext {
            frame: self.frame,
            position: self.position,
            velocity: Point { x: (self.velocity.x + RUNNING_SPEED) as i16, y: self.velocity.y },
        }
    }

    pub open spec fn spec_set_vertical_velocity(self, y: i16) -> RedHatBoyContext {
        RedHatBoyContext {
            frame: self.frame,
            position: self.position,
            velocity: Point { x: self.velocity.x, y },
        }
    }

    pub open spec fn spec_stop(self) -> RedHatBoyContext {
        RedHatBoyContext {
            frame: self.frame,
            position: self.position,
            velocity: Point { x: 0, y: self.velocity.y },
        }
    }

    /// The context with the character's feet on the surface at `surface`.
    pub open spec fn spec_set_on(self, surface: i16) -> RedHatBoyContext {
        RedHatBoyContext {
            frame: self.frame,
            position: Point { x: self.position.x, y: (surface - PLAYER_HEIGHT) as i16 },
            velocity: self.velocity,
        }
    }

    /// Whether the character can speed up without leaving the range of a
    /// velocity.
    pub open spec fn can_run_right(self) -> bool {
        self.velocity.x + RUNNING_SPEED <= i16::MAX
    }

    /// Whether the character can stand on a surface at `surface`.
    pub open spec fn can_set_on(surface: i16) -> bool {
        surface - PLAYER_HEIGHT >= i16::MIN
    }

    /// One frame passes: the frame counter moves on and wraps past
    /// `frame_count`, gravity pulls, the character moves vertically and stops
    /// at the floor.
    pub fn update(self, frame_count: u8) -> (next: Self)
        requires
            self.can_advance(),
        ensures
            next == self.advanced(frame_count),
            next.position.y <= FLOOR,
            next.position.x == self.position.x,
            next.velocity.x == self.velocity.x,
            self.velocity.y <= TERMINAL_VELOCITY ==> next.velocity.y <= TERMINAL_VELOCITY,
    {
        let mut this = self;
        if this.frame < frame_count {
            this.frame += 1;
        } else {
            this.frame = 0;
        }
        if this.velocity.y < TERMINAL_VELOCITY {
            this.velocity.y += GRAVITY;
        }
        let landed: i32 = this.position.y as i32 + this.velocity.y as i32;
        if landed > FLOOR as i32 {
            this.position.y = FLOOR;
        } else {
            this.position.y = landed as i16;
        }
        this
    }

    pub fn reset_frame(self) -> (next: Self)
        ensures
            next == self.spec_reset_frame(),
    {
        let mut this = self;
        this.frame = 0;
        this
    }

    pub fn run_right(self) -> (next: Self)
        requires
            self.can_run_right(),
        ensures
            next == self.spec_run_right(),
    {
        let mut this = self;
        this.velocity.x += RUNNING_SPEED;
        this
    }

    pub fn set_vertical_velocity(self, y: i16) -> (next: Self)
        ensures
            next == self.spec_set_vertical_velocity(y),
    {
        let mut this = self;
        this.velocity.y = y;
        this
    }

    pub fn stop(self) -> (next: Self)
        ensures
            next == self.spec_stop(),
    {
        let mut this = self;
        this.velocity.x = 0;
        this
    }

    pub fn set_on(self, position: i16) -> (next: Self)
        requires
            Self::can_set_on(position),
        ensures
            next == self.spec_set_on(position),
    {
        let mut this = self;
        let position: i16 = position - PLAYER_HEIGHT;
        this.position.y = position;
        this
    }
}

#[derive(Copy, Clone)]
pub struct Idle;

#[derive(Copy, Clone)]
pub struct Running;

#[derive(Copy, Clone)]
pub struct Sliding;

#[derive(Copy, Clone)]
pub struct Jumping;

#[derive(Copy, Clone)]
pub struct Falling;

#[derive(Copy, Clone)]
pub struct KnockedOut;

/// The character in the state `S`. Its view is the context it carries.
#[derive(Copy, Clone)]
pub struct RedHatBoyState<S> {
    context: RedHatBoyContext,
    _state: S,
}

impl<S> View for RedHatBoyState<S> {
    type V = RedHatBoyContext;

    closed spec fn view(&self) -> RedHatBoyContext {
        self.context
    }
}

impl<S> RedHatBoyState<S> {
    pub fn context(&self) -> (context: &RedHatBoyContext)
        ensures
            *context == self@,
    {
        &self.context
    }
}

/// The context the character starts with: at rest on the floor.
pub open spec fn starting_context() -> RedHatBoyContext {
    RedHatBoyContext {
        frame: 0,
        position: Point { x: STARTING_POINT, y: FLOOR },
        velocity: Point { x: 0, y: 0 },
    }
}

impl RedHatBoyState<Idle> {
    pub fn run(self) -> (next: RedHatBoyState<Running>)
        requires
            self@.can_run_right(),
        ensures
            next@ == self@.spec_reset_frame().spec_run_right(),
    {
        RedHatBoyState { context: self.context.reset_frame().run_right(), _state: Running {  } }
    }

    pub fn new() -> (state: Self)
        ensures
            state@ == starting_context(),
    {
        RedHatBoyState {
            context: RedHatBoyContext {
                frame: 0,
                position: Point { x: STARTING_POINT, y: FLOOR },
                velocity: Point { x: 0, y: 0 },
            },
            _state: Idle {  },
        }
    }

    pub fn frame_name(&self) -> (name: &'static str)
        ensures
            name == IDLE_FRAME_NAME,
    {
        IDLE_FRAME_NAME
    }

    pub fn update(self) -> (next: Self)
        requires
            self@.can_advance(),
        ensures
            next@ == self@.advanced(IDLE_FRAMES),
    {
        let mut this = self;
        this.context = this.context.update(IDLE_FRAMES);
        this
    }
}

impl RedHatBoyState<Running> {
    pub fn frame_name(&self) -> (name: &'static str)
        ensures
            name == RUN_FRAME_NAME,
    {
        RUN_FRAME_NAME
    }

    pub fn update(self) -> (next: Self)
        requires
            self@.can_advance(),
        ensures
            next@ == self@.advanced(RUNNING_FRAMES),
    {
        let mut this = self;
        this.context = this.context.update(RUNNING_FRAMES);
        this
    }

    pub fn slide(self) -> (next: RedHatBoyState<Sliding>)
        ensures
            next@ == self@.spec_reset_frame(),
    {
        RedHatBoyState { context: self.context.reset_frame(), _state: Sliding {  } }
    }

    pub fn jump(self) -> (next: RedHatBoyState<Jumping>)
        ensures
            next@ == self@.spec_set_vertical_velocity(JUMP_SPEED).spec_reset_frame(),
    {
        RedHatBoyState {
            context: self.context.set_vertical_velocity(JUMP_SPEED).reset_frame(),
            _state: Jumping {  },
        }
    }

    pub fn knock_out(self) -> (next: RedHatBoyState<Falling>)
        ensures
            next@ == self@.spec_reset_frame().spec_stop(),
    {
        RedHatBoyState { context: self.context.reset_frame().stop(), _state: Falling {  } }
    }

    pub fn land_on(self, position: i16) -> (next: RedHatBoyState<Running>)
        requires
            RedHatBoyContext::can_set_on(position),
        ensures
            next@ == self@.spec_set_on(position),
    {
        RedHatBoyState { context: self.context.set_on(position), _state: Running }
    }
}

impl RedHatBoyState<Sliding> {
    pub fn frame_name(&self) -> (name: &'static str)
        ensures
            name == SLIDING_FRAME_NAME,
    {
        SLIDING_FRAME_NAME
    }

    /// One frame of the slide. It ends, and the character stands up, when
    /// the frame counter has reached the length of the animation.
    pub fn update(self) -> (end: SlidingEndState)
        requires
            self@.can_advance(),
        ensures
            self@.advanced(SLIDING_FRAMES).frame >= SLIDING_FRAMES ==> end
                == SlidingEndState::Complete(end.arrow_Complete_0()) && end.arrow_Complete_0()@
                == self@.advanced(SLIDING_FRAMES).spec_reset_frame(),
            self@.advanced(SLIDING_FRAMES).frame < SLIDING_FRAMES ==> end
                == SlidingEndState::Sliding(end.arrow_Sliding_0()) && end.arrow_Sliding_0()@
                == self@.advanced(SLIDING_FRAMES),
    {
        let mut this = self;
        this.context = this.context.update(SLIDING_FRAMES);
        if this.context.frame >= SLIDING_FRAMES {
            SlidingEndState::Complete(this.stand())
        } else {
            SlidingEndState::Sliding(this)
        }
    }

    pub fn stand(self) -> (next: RedHatBoyState<Running>)
        ensures
            next@ == self@.spec_reset_frame(),
    {
        RedHatBoyState { context: self.context.reset_frame(), _state: Running }
    }

    pub fn knock_out(self) -> (next: RedHatBoyState<Falling>)
        ensures
            next@ == self@.spec_reset_frame().spec_stop(),
    {
        RedHatBoyState { context: self.context.reset_frame().stop(), _state: Falling {  } }
    }

    pub fn land_on(self, position: i16) -> (next: RedHatBoyState<Sliding>)
        requires
            RedHatBoyContext::can_set_on(position),
        ensures
            next@ == self@.spec_set_on(position),
    {
        RedHatBoyState { context: self.context.set_on(position), _state: Sliding }
    }
}

impl RedHatBoyState<Jumping> {
    pub fn frame_name(&self) -> (name: &'static str)
        ensures
            name == JUMPING_FRAME_NAME,
    {
        JUMPING_FRAME_NAME
    }

    /// One frame of the jump. It ends, with the character on the ground,
    /// when the character has come down to the floor; the frame counter has
    /// no say in it.
    pub fn update(self) -> (end: JumpingEndState)
        requires
            self@.can_advance(),
        ensures
            self@.advanced(JUMPING_FRAMES).position.y >= FLOOR ==> end
                == JumpingEndState::Complete(end.arrow_Complete_0()) && end.arrow_Complete_0()@
                == self@.advanced(JUMPING_FRAMES).spec_reset_frame().spec_set_on(HEIGHT),
            self@.advanced(JUMPING_FRAMES).position.y < FLOOR ==> end
                == JumpingEndState::Jumping(end.arrow_Jumping_0()) && end.arrow_Jumping_0()@
                == self@.advanced(JUMPING_FRAMES),
    {
        let mut this = self;
        this.context = this.context.update(JUMPING_FRAMES);
        if this.context.position.y >= FLOOR {
            JumpingEndState::Complete(this.land_on(HEIGHT))
        } else {
            JumpingEndState::Jumping(this)
        }
    }

    pub fn land_on(self, position: i16) -> (next: RedHatBoyState<Running>)
        requires
            RedHatBoyContext::can_set_on(position),
        ensures
            next@ == self@.spec_reset_frame().spec_set_on(position),
    {
        RedHatBoyState { context: self.context.reset_frame().set_on(position), _state: Running }
    }

    pub fn knock_out(self) -> (next: RedHatBoyState<Falling>)
        ensures
            next@ == self@.spec_reset_frame().spec_stop(),
    {
        RedHatBoyState { context: self.context.reset_frame().stop(), _state: Falling {  } }
    }
}

impl RedHatBoyState<Falling> {
    pub fn frame_name(&self) -> (name: &'static str)
        ensures
            name == FALLING_FRAME_NAME,
    {
        FALLING_FRAME_NAME
    }

    /// One frame of the fall. It ends, with the character knocked out, when
    /// the frame counter has reached the length of the animation.
    pub fn update(self) -> (end: FallingEndState)
        requires
            self@.can_advance(),
        ensures
            self@.advanced(FALLING_FRAMES).frame >= FALLING_FRAMES ==> end
                == FallingEndState::Complete(end.arrow_Complete_0()) && end.arrow_Complete_0()@
                == self@.advanced(FALLING_FRAMES),
            self@.advanced(FALLING_FRAMES).frame < FALLING_FRAMES ==> end
                == FallingEndState::Falling(end.arrow_Falling_0()) && end.arrow_Falling_0()@
                == self@.advanced(FALLING_FRAMES),
    {
        let mut this = self;
        this.context = this.context.update(FALLING_FRAMES);
        if this.context.frame >= FALLING_FRAMES {
            FallingEndState::Complete(this.fall())
        } else {
            FallingEndState::Falling(this)
        }
    }

    pub fn fall(self) -> (next: RedHatBoyState<KnockedOut>)
        ensures
            next@ == self@,
    {
        RedHatBoyState { context: self.context, _state: KnockedOut {  } }
    }
}

impl RedHatBoyState<KnockedOut> {
    pub fn frame_name(&self) -> (name: &'static str)
        ensures
            name == FALLING_FRAME_NAME,
    {
        FALLING_FRAME_NAME
    }
}

pub enum SlidingEndState {
    Complete(RedHatBoyState<Running>),
    Sliding(RedHatBoyState<Sliding>),
}

pub enum JumpingEndState {
    Complete(RedHatBoyState<Running>),
    Jumping(RedHatBoyState<Jumping>),
}

pub enum FallingEndState {
    Complete(RedHatBoyState<KnockedOut>),
    Falling(RedHatBoyState<Falling>),
}


impl RedHatBoyContext {
    /// Gravity at work: from a vertical velocity below the terminal
    /// velocity, every frame adds one unit until the terminal velocity is
    /// reached, and from then on the velocity stays there.
    pub proof fn gravity_pulls_to_terminal(self, frame_count: u8, n: nat)
        requires
            self.velocity.y < TERMINAL_VELOCITY,
        ensures
            self.velocity.y + n <= TERMINAL_VELOCITY ==> self.advanced_by(frame_count, n).velocity.y
                == self.velocity.y + n,
            self.velocity.y + n >= TERMINAL_VELOCITY ==> self.advanced_by(frame_count, n).velocity.y
                == TERMINAL_VELOCITY,
            n > 0 && self.velocity.y + n <= TERMINAL_VELOCITY ==> self.advanced_by(
                frame_count,
                n,
            ).velocity.y > self.advanced_by(frame_count, (n - 1) as nat).velocity.y,
        decreases n,
    {
        if n > 0 {
            self.gravity_pulls_to_terminal(frame_count, (n - 1) as nat);
        }
    }

    /// The floor holds: after any number of frames, each of which could
    /// pass, the character is not below the floor.
    pub proof fn floor_is_never_passed(self, frame_count: u8, n: nat)
        requires
            n > 0,
            self.advanced_by(frame_count, (n - 1) as nat).can_advance(),
        ensures
            self.advanced_by(frame_count, n).position.y <= FLOOR,
    {
    }
}

} // verus!
