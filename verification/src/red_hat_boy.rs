//! The character: the events it reacts to, the state machine over its typed
//! states, and the character itself with the sprite metadata that gives it a
//! bounding box.

use vstd::prelude::*;
use vstd::string::StringExecFns;
use vstd::std_specs::convert::FromSpecImpl;
use crate::engine::{Cell, Point, Rect, Sheet};
use crate::red_hat_boy_states::{
    Falling, FallingEndState, Idle, Jumping, JumpingEndState, KnockedOut, RedHatBoyContext,
    RedHatBoyState, Running, Sliding, SlidingEndState, FALLING_FRAMES, FALLING_FRAME_NAME, FLOOR,
    GRAVITY, PLAYER_HEIGHT, RUNNING_SPEED, TERMINAL_VELOCITY,
    HEIGHT, IDLE_FRAMES, IDLE_FRAME_NAME, JUMPING_FRAMES, JUMPING_FRAME_NAME, JUMP_SPEED,
    RUNNING_FRAMES, RUN_FRAME_NAME, SLIDING_FRAMES, SLIDING_FRAME_NAME, pulled, settled,
    starting_context,
};

verus! {

/// What can happen to the character.
#[derive(Clone, Copy, Debug, PartialEq, Eq, Structural)]
pub enum Event {
    Run,
    Slide,
    Update,
    Jump,
    KnockOut,
    Land(i16),
}

/// The name of a state, without its payload.
#[derive(Clone, Copy, Debug, PartialEq, Eq, Structural)]
pub enum StateKind {
    Idle,
    Running,
    Sliding,
    Jumping,
    Falling,
    KnockedOut,
}

/// Whether the table has an entry for the event in the state; where it has
/// none the event changes nothing.
pub open spec fn reacts(kind: StateKind, event: Event) -> bool {
    match kind {
        StateKind::Idle => event is Run || event is Update,
        StateKind::Running => !(event is Run),
        StateKind::Sliding | StateKind::Jumping => event is Update || event is Land
            || event is KnockOut,
        StateKind::Falling => event is Update,
        StateKind::KnockedOut => false,
    }
}

/// Whether the numbers the event produces are representable. An event the
/// state does not react to is always accepted.
pub open spec fn accepts(kind: StateKind, context: RedHatBoyContext, event: Event) -> bool {
    reacts(kind, event) ==> match event {
        Event::Run => context.can_run_right(),
        Event::Update => context.can_advance(),
        Event::Land(surface) => RedHatBoyContext::can_set_on(surface),
        _ => true,
    }
}

/// The transition table: the state and the context that follow an event.
pub open spec fn step(kind: StateKind, context: RedHatBoyContext, event: Event) -> (
    StateKind,
    RedHatBoyContext,
) {
    match (kind, event) {
        (StateKind::Idle, Event::Run) => (
            StateKind::Running,
            context.spec_reset_frame().spec_run_right(),
        ),
        (StateKind::Idle, Event::Update) => (StateKind::Idle, context.advanced(IDLE_FRAMES)),
        (StateKind::Running, Event::Land(surface)) => (
            StateKind::Running,
            context.spec_set_on(surface),
        ),
        (StateKind::Running, Event::Slide) => (StateKind::Sliding, context.spec_reset_frame()),
        (StateKind::Running, Event::KnockOut) => (
            StateKind::Falling,
            context.spec_reset_frame().spec_stop(),
        ),
        (StateKind::Running, Event::Update) => (
            StateKind::Running,
            context.advanced(RUNNING_FRAMES),
        ),
        (StateKind::Running, Event::Jump) => (
            StateKind::Jumping,
            context.spec_set_vertical_velocity(JUMP_SPEED).spec_reset_frame(),
        ),
        (StateKind::Sliding, Event::Land(surface)) => (
            StateKind::Sliding,
            context.spec_set_on(surface),
        ),
        (StateKind::Sliding, Event::Update) => {
            let moved = context.advanced(SLIDING_FRAMES);
            if moved.frame >= SLIDING_FRAMES {
                (StateKind::Running, moved.spec_reset_frame())
            } else {
                (StateKind::Sliding, moved)
            }
        },
        (StateKind::Sliding, Event::KnockOut) => (
            StateKind::Falling,
            context.spec_reset_frame().spec_stop(),
        ),
        (StateKind::Jumping, Event::Land(surface)) => (
            StateKind::Running,
            context.spec_reset_frame().spec_set_on(surface),
        ),
        (StateKind::Jumping, Event::Update) => {
            let moved = context.advanced(JUMPING_FRAMES);
            if moved.position.y >= FLOOR {
                (StateKind::Running, moved.spec_reset_frame().spec_set_on(HEIGHT))
            } else {
                (StateKind::Jumping, moved)
            }
        },
        (StateKind::Jumping, Event::KnockOut) => (
            StateKind::Falling,
            context.spec_reset_frame().spec_stop(),
        ),
        (StateKind::Falling, Event::Update) => {
            let moved = context.advanced(FALLING_FRAMES);
            if moved.frame >= FALLING_FRAMES {
                (StateKind::KnockedOut, moved)
            } else {
                (StateKind::Falling, moved)
            }
        },
        _ => (kind, context),
    }
}

/// The state and context after `n` frames in which nothing else happens.
pub open spec fn after_updates(kind: StateKind, context: RedHatBoyContext, n: nat) -> (
    StateKind,
    RedHatBoyContext,
)
    decreases n,
{
    if n == 0 {
        (kind, context)
    } else {
        let before = after_updates(kind, context, (n - 1) as nat);
        step(before.0, before.1, Event::Update)
    }
}

/// The name of the animation that shows a state.
pub open spec fn animation_name(kind: StateKind) -> Seq<char> {
    match kind {
        StateKind::Idle => IDLE_FRAME_NAME@,
        StateKind::Running => RUN_FRAME_NAME@,
        StateKind::Sliding => SLIDING_FRAME_NAME@,
        StateKind::Jumping => JUMPING_FRAME_NAME@,
        StateKind::Falling => FALLING_FRAME_NAME@,
        StateKind::KnockedOut => FALLING_FRAME_NAME@,
    }
}

/// The character in exactly one of its six states.
#[derive(Copy, Clone)]
pub enum RedHatBoyStateMachine {
    Idle(RedHatBoyState<Idle>),
    Running(RedHatBoyState<Running>),
    Sliding(RedHatBoyState<Sliding>),
    Jumping(RedHatBoyState<Jumping>),
    Falling(RedHatBoyState<Falling>),
    KnockedOut(RedHatBoyState<KnockedOut>),
}

impl RedHatBoyStateMachine {
    /// The name of the active state.
    pub open spec fn spec_kind(self) -> StateKind {
        match self {
            RedHatBoyStateMachine::Idle(_) => StateKind::Idle,
            RedHatBoyStateMachine::Running(_) => StateKind::Running,
            RedHatBoyStateMachine::Sliding(_) => StateKind::Sliding,
            RedHatBoyStateMachine::Jumping(_) => StateKind::Jumping,
            RedHatBoyStateMachine::Falling(_) => StateKind::Falling,
            RedHatBoyStateMachine::KnockedOut(_) => StateKind::KnockedOut,
        }
    }

    /// The context that the active state carries.
    pub open spec fn spec_context(self) -> RedHatBoyContext {
        match self {
            RedHatBoyStateMachine::Idle(state) => state@,
            RedHatBoyStateMachine::Running(state) => state@,
            RedHatBoyStateMachine::Sliding(state) => state@,
            RedHatBoyStateMachine::Jumping(state) => state@,
            RedHatBoyStateMachine::Falling(state) => state@,
            RedHatBoyStateMachine::KnockedOut(state) => state@,
        }
    }

    /// Whether `event` can be applied without leaving the range of the
    /// coordinates.
    pub open spec fn accepts(self, event: Event) -> bool {
        accepts(self.spec_kind(), self.spec_context(), event)
    }

    /// A machine in its starting state: idle, at rest on the floor.
    pub fn new() -> (machine: Self)
        ensures
            machine.spec_kind() == StateKind::Idle,
            machine.spec_context() == starting_context(),
    {
        RedHatBoyStateMachine::Idle(RedHatBoyState::new())
    }

    pub fn kind(&self) -> (kind: StateKind)
        ensures
            kind == self.spec_kind(),
    {
        match self {
            RedHatBoyStateMachine::Idle(_) => StateKind::Idle,
            RedHatBoyStateMachine::Running(_) => StateKind::Running,
            RedHatBoyStateMachine::Sliding(_) => StateKind::Sliding,
            RedHatBoyStateMachine::Jumping(_) => StateKind::Jumping,
            RedHatBoyStateMachine::Falling(_) => StateKind::Falling,
            RedHatBoyStateMachine::KnockedOut(_) => StateKind::KnockedOut,
        }
    }

    /// Whether `event` can be applied without leaving the range of the
    /// coordinates.
    pub fn can_take(&self, event: Event) -> (ok: bool)
        ensures
            ok == self.accepts(event),
    {
        let kind = self.kind();
        let context = self.context();
        match event {
            Event::Run => kind != StateKind::Idle || context.velocity.x <= i16::MAX
                - RUNNING_SPEED,
            Event::Update => {
                let pulled: i32 = if context.velocity.y < TERMINAL_VELOCITY {
                    context.velocity.y as i32 + GRAVITY as i32
                } else {
                    context.velocity.y as i32
                };
                kind == StateKind::KnockedOut || context.position.y as i32 + pulled
                    >= i16::MIN as i32
            },
            Event::Land(surface) => kind == StateKind::Idle || kind == StateKind::Falling || kind
                == StateKind::KnockedOut || surface >= i16::MIN + PLAYER_HEIGHT,
            _ => true,
        }
    }

    /// Applies one event as the transition table says. A pair of state and
    /// event without an entry leaves the machine as it is.
    pub fn transition(self, event: Event) -> (next: Self)
        requires
            self.accepts(event),
        ensures
            (next.spec_kind(), next.spec_context()) == step(
                self.spec_kind(),
                self.spec_context(),
                event,
            ),
            !reacts(self.spec_kind(), event) ==> next == self,
    {
        match (self, event) {
            (RedHatBoyStateMachine::Idle(state), Event::Run) => RedHatBoyStateMachine::from(
                state.run(),
            ),
            (RedHatBoyStateMachine::Idle(state), Event::Update) => RedHatBoyStateMachine::from(
                state.update(),
            ),
            (RedHatBoyStateMachine::Running(state), Event::Land(position)) => {
                RedHatBoyStateMachine::from(state.land_on(position))
            },
            (RedHatBoyStateMachine::Running(state), Event::Slide) => RedHatBoyStateMachine::from(
                state.slide(),
            ),
            (RedHatBoyStateMachine::Running(state), Event::KnockOut) => {
                RedHatBoyStateMachine::from(state.knock_out())
            },
            (RedHatBoyStateMachine::Running(state), Event::Update) => RedHatBoyStateMachine::from(
                state.update(),
            ),
            (RedHatBoyStateMachine::Running(state), Event::Jump) => RedHatBoyStateMachine::from(
                state.jump(),
            ),
            (RedHatBoyStateMachine::Sliding(state), Event::Land(position)) => {
                RedHatBoyStateMachine::from(state.land_on(position))
            },
            (RedHatBoyStateMachine::Sliding(state), Event::Update) => RedHatBoyStateMachine::from(
                state.update(),
            ),
            (RedHatBoyStateMachine::Sliding(state), Event::KnockOut) => {
                RedHatBoyStateMachine::from(state.knock_out())
            },
            (RedHatBoyStateMachine::Jumping(state), Event::Land(position)) => {
                RedHatBoyStateMachine::from(state.land_on(position))
            },
            (RedHatBoyStateMachine::Jumping(state), Event::Update) => RedHatBoyStateMachine::from(
                state.update(),
            ),
            (RedHatBoyStateMachine::Jumping(state), Event::KnockOut) => {
                RedHatBoyStateMachine::from(state.knock_out())
            },
            (RedHatBoyStateMachine::Falling(state), Event::Update) => RedHatBoyStateMachine::from(
                state.update(),
            ),
            _ => self,
        }
    }

    pub fn frame_name(&self) -> (name: &'static str)
        ensures
            name@ == animation_name(self.spec_kind()),
    {
        match self {
            RedHatBoyStateMachine::Idle(state) => state.frame_name(),
            RedHatBoyStateMachine::Running(state) => state.frame_name(),
            RedHatBoyStateMachine::Sliding(state) => state.frame_name(),
            RedHatBoyStateMachine::Jumping(state) => state.frame_name(),
            RedHatBoyStateMachine::Falling(state) => state.frame_name(),
            RedHatBoyStateMachine::KnockedOut(state) => state.frame_name(),
        }
    }

    pub fn context(&self) -> (context: &RedHatBoyContext)
        ensures
            *context == self.spec_context(),
    {
        match self {
            RedHatBoyStateMachine::Idle(state) => state.context(),
            RedHatBoyStateMachine::Running(state) => state.context(),
            RedHatBoyStateMachine::Sliding(state) => state.context(),
            RedHatBoyStateMachine::Jumping(state) => state.context(),
            RedHatBoyStateMachine::Falling(state) => state.context(),
            RedHatBoyStateMachine::KnockedOut(state) => state.context(),
        }
    }

    /// One frame passes.
    pub fn update(self) -> (next: Self)
        requires
            self.accepts(Event::Update),
        ensures
            (next.spec_kind(), next.spec_context()) == step(
                self.spec_kind(),
                self.spec_context(),
                Event::Update,
            ),
            self.spec_kind() == StateKind::KnockedOut ==> next == self,
    {
        self.transition(Event::Update)
    }
}

impl From<RedHatBoyState<Idle>> for RedHatBoyStateMachine {
    fn from(state: RedHatBoyState<Idle>) -> (machine: Self) {
        RedHatBoyStateMachine::Idle(state)
    }
}

impl FromSpecImpl<RedHatBoyState<Idle>> for RedHatBoyStateMachine {
    open spec fn obeys_from_spec() -> bool {
        true
    }

    open spec fn from_spec(state: RedHatBoyState<Idle>) -> Self {
        RedHatBoyStateMachine::Idle(state)
    }
}

impl From<RedHatBoyState<Running>> for RedHatBoyStateMachine {
    fn from(state: RedHatBoyState<Running>) -> (machine: Self) {
        RedHatBoyStateMachine::Running(state)
    }
}

impl FromSpecImpl<RedHatBoyState<Running>> for RedHatBoyStateMachine {
    open spec fn obeys_from_spec() -> bool {
        true
    }

    open spec fn from_spec(state: RedHatBoyState<Running>) -> Self {
        RedHatBoyStateMachine::Running(state)
    }
}

impl From<RedHatBoyState<Sliding>> for RedHatBoyStateMachine {
    fn from(state: RedHatBoyState<Sliding>) -> (machine: Self) {
        RedHatBoyStateMachine::Sliding(state)
    }
}

impl FromSpecImpl<RedHatBoyState<Sliding>> for RedHatBoyStateMachine {
    open spec fn obeys_from_spec() -> bool {
        true
    }

    open spec fn from_spec(state: RedHatBoyState<Sliding>) -> Self {
        RedHatBoyStateMachine::Sliding(state)
    }
}

impl From<SlidingEndState> for RedHatBoyStateMachine {
    fn from(end_state: SlidingEndState) -> (machine: Self) {
        match end_state {
            SlidingEndState::Complete(running_state) => RedHatBoyStateMachine::from(running_state),
            SlidingEndState::Sliding(sliding_state) => RedHatBoyStateMachine::from(sliding_state),
        }
    }
}

impl FromSpecImpl<SlidingEndState> for RedHatBoyStateMachine {
    open spec fn obeys_from_spec() -> bool {
        true
    }

    open spec fn from_spec(end_state: SlidingEndState) -> Self {
        match end_state {
            SlidingEndState::Complete(running_state) => RedHatBoyStateMachine::Running(
                running_state,
            ),
            SlidingEndState::Sliding(sliding_state) => RedHatBoyStateMachine::Sliding(
                sliding_state,
            ),
        }
    }
}

impl From<RedHatBoyState<Jumping>> for RedHatBoyStateMachine {
    fn from(state: RedHatBoyState<Jumping>) -> (machine: Self) {
        RedHatBoyStateMachine::Jumping(state)
    }
}

impl FromSpecImpl<RedHatBoyState<Jumping>> for RedHatBoyStateMachine {
    open spec fn obeys_from_spec() -> bool {
        true
    }

    open spec fn from_spec(state: RedHatBoyState<Jumping>) -> Self {
        RedHatBoyStateMachine::Jumping(state)
    }
}

impl From<JumpingEndState> for RedHatBoyStateMachine {
    fn from(end_state: JumpingEndState) -> (machine: Self) {
        match end_state {
            JumpingEndState::Complete(running_state) => RedHatBoyStateMachine::from(running_state),
            JumpingEndState::Jumping(jumping_state) => RedHatBoyStateMachine::from(jumping_state),
        }
    }
}

impl FromSpecImpl<JumpingEndState> for RedHatBoyStateMachine {
    open spec fn obeys_from_spec() -> bool {
        true
    }

    open spec fn from_spec(end_state: JumpingEndState) -> Self {
        match end_state {
            JumpingEndState::Complete(running_state) => RedHatBoyStateMachine::Running(
                running_state,
            ),
            JumpingEndState::Jumping(jumping_state) => RedHatBoyStateMachine::Jumping(
                jumping_state,
            ),
        }
    }
}

impl From<RedHatBoyState<Falling>> for RedHatBoyStateMachine {
    fn from(state: RedHatBoyState<Falling>) -> (machine: Self) {
        RedHatBoyStateMachine::Falling(state)
    }
}

impl FromSpecImpl<RedHatBoyState<Falling>> for RedHatBoyStateMachine {
    open spec fn obeys_from_spec() -> bool {
        true
    }

    open spec fn from_spec(state: RedHatBoyState<Falling>) -> Self {
        RedHatBoyStateMachine::Falling(state)
    }
}

impl From<FallingEndState> for RedHatBoyStateMachine {
    fn from(end_state: FallingEndState) -> (machine: Self) {
        match end_state {
            FallingEndState::Complete(knocked_out_state) => RedHatBoyStateMachine::from(
                knocked_out_state,
            ),
            FallingEndState::Falling(falling_state) => RedHatBoyStateMachine::from(falling_state),
        }
    }
}

impl FromSpecImpl<FallingEndState> for RedHatBoyStateMachine {
    open spec fn obeys_from_spec() -> bool {
        true
    }

    open spec fn from_spec(end_state: FallingEndState) -> Self {
        match end_state {
            FallingEndState::Complete(knocked_out_state) => RedHatBoyStateMachine::KnockedOut(
                knocked_out_state,
            ),
            FallingEndState::Falling(falling_state) => RedHatBoyStateMachine::Falling(
                falling_state,
            ),
        }
    }
}

impl From<RedHatBoyState<KnockedOut>> for RedHatBoyStateMachine {
    fn from(state: RedHatBoyState<KnockedOut>) -> (machine: Self) {
        RedHatBoyStateMachine::KnockedOut(state)
    }
}

impl FromSpecImpl<RedHatBoyState<KnockedOut>> for RedHatBoyStateMachine {
    open spec fn obeys_from_spec() -> bool {
        true
    }

    open spec fn from_spec(state: RedHatBoyState<KnockedOut>) -> Self {
        RedHatBoyStateMachine::KnockedOut(state)
    }
}


/// The text of a decimal digit.
pub open spec fn digit(d: int) -> Seq<char> {
    if d == 0 {
        "0"@
    } else if d == 1 {
        "1"@
    } else if d == 2 {
        "2"@
    } else if d == 3 {
        "3"@
    } else if d == 4 {
        "4"@
    } else if d == 5 {
        "5"@
    } else if d == 6 {
        "6"@
    } else if d == 7 {
        "7"@
    } else if d == 8 {
        "8"@
    } else {
        "9"@
    }
}

/// The decimal text of a number below a hundred, without a leading zero.
pub open spec fn decimal(n: int) -> Seq<char> {
    if n >= 10 {
        digit(n / 10) + digit(n % 10)
    } else {
        digit(n)
    }
}

/// The number of the picture shown at an animation frame: every picture
/// stays for three frames, and the pictures count from one.
pub open spec fn display_index(frame: u8) -> int {
    frame / 3 + 1
}

/// The name under which the sprite sheet holds the picture of an animation
/// at a frame, such as `Run (3).png`.
pub open spec fn frame_label(animation: Seq<char>, frame: u8) -> Seq<char> {
    animation + " ("@ + decimal(display_index(frame)) + ").png"@
}

fn digit_text(d: u8) -> (text: &'static str)
    requires
        d < 10,
    ensures
        text@ == digit(d as int),
{
    if d == 0 {
        "0"
    } else if d == 1 {
        "1"
    } else if d == 2 {
        "2"
    } else if d == 3 {
        "3"
    } else if d == 4 {
        "4"
    } else if d == 5 {
        "5"
    } else if d == 6 {
        "6"
    } else if d == 7 {
        "7"
    } else if d == 8 {
        "8"
    } else {
        "9"
    }
}

/// The name under which the sprite sheet holds the picture of an animation
/// at a frame.
pub fn frame_label_text(animation: &str, frame: u8) -> (name: String)
    ensures
        name@ == frame_label(animation@, frame),
{
    let mut name = String::from_str(animation);
    name.append(" (");
    let index: u8 = (frame / 3) + 1;
    if index >= 10 {
        name.append(digit_text(index / 10));
    }
    name.append(digit_text(index % 10));
    name.append(").png");
    proof {
        assert(name@ =~= frame_label(animation@, frame));
    }
    name
}

/// The name of the animation that shows a state.
pub fn animation_text(kind: StateKind) -> (name: &'static str)
    ensures
        name@ == animation_name(kind),
{
    match kind {
        StateKind::Idle => IDLE_FRAME_NAME,
        StateKind::Running => RUN_FRAME_NAME,
        StateKind::Sliding => SLIDING_FRAME_NAME,
        StateKind::Jumping => JUMPING_FRAME_NAME,
        StateKind::Falling => FALLING_FRAME_NAME,
        StateKind::KnockedOut => FALLING_FRAME_NAME,
    }
}

pub const X_OFFSET: i16 = 18;
pub const Y_OFFSET: i16 = 14;
pub const WIDTH_OFFSET: i16 = 28;

/// Where a sprite lands on the screen for a character at `position`.
pub open spec fn destination_of(position: Point, sprite: Cell) -> (int, int, int, int) {
    (
        position.x + sprite.sprite_source_size.x,
        position.y + sprite.sprite_source_size.y,
        sprite.frame.w as int,
        sprite.frame.h as int,
    )
}

/// The part of the destination that counts for collisions: the picture
/// without its transparent margins.
pub open spec fn bounds_of(position: Point, sprite: Cell) -> (int, int, int, int) {
    (
        position.x + sprite.sprite_source_size.x + X_OFFSET,
        position.y + sprite.sprite_source_size.y + Y_OFFSET,
        sprite.frame.w - WIDTH_OFFSET,
        sprite.frame.h - Y_OFFSET,
    )
}

/// Whether all four numbers are coordinates.
pub open spec fn fits(r: (int, int, int, int)) -> bool {
    &&& i16::MIN <= r.0 <= i16::MAX
    &&& i16::MIN <= r.1 <= i16::MAX
    &&& i16::MIN <= r.2 <= i16::MAX
    &&& i16::MIN <= r.3 <= i16::MAX
}

/// The rectangle with the given corner and extent.
pub open spec fn rect_of(r: (int, int, int, int)) -> Rect {
    Rect { position: Point { x: r.0 as i16, y: r.1 as i16 }, width: r.2 as i16, height: r.3 as i16 }
}

/// The sprite that shows a character in the given state and context, if the
/// sheet has it.
pub open spec fn sprite_of(sheet: Sheet, kind: StateKind, context: RedHatBoyContext) -> Option<
    Cell,
> {
    sheet.spec_cell(frame_label(animation_name(kind), context.frame))
}

/// Whether a character in the given state and context has a bounding box:
/// the sheet has its picture, and the box is representable.
pub open spec fn has_bounding_box(
    sheet: Sheet,
    kind: StateKind,
    context: RedHatBoyContext,
) -> bool {
    &&& sprite_of(sheet, kind, context) is Some
    &&& fits(bounds_of(context.position, sprite_of(sheet, kind, context).unwrap()))
}

/// The bounding box of a character in the given state and context.
pub open spec fn bounding_box_of(sheet: Sheet, kind: StateKind, context: RedHatBoyContext) -> Rect {
    rect_of(bounds_of(context.position, sprite_of(sheet, kind, context).unwrap()))
}

/// What to blit: a part of the sprite image and its place on the screen.
#[derive(Clone, Copy, Debug, PartialEq, Eq, Structural)]
pub struct DrawCall {
    pub source: Rect,
    pub destination: Rect,
}

/// The blit that shows a character at `position` with the sprite `sprite`:
/// the sprite's part of the image, at the sprite's offset from the position.
pub open spec fn draw_call_of(position: Point, sprite: Cell) -> DrawCall {
    DrawCall {
        source: Rect {
            position: Point { x: sprite.frame.x, y: sprite.frame.y },
            width: sprite.frame.w,
            height: sprite.frame.h,
        },
        destination: rect_of(destination_of(position, sprite)),
    }
}

/// The character with its sprite metadata.
pub struct RedHatBoy {
    pub state_machine: RedHatBoyStateMachine,
    pub sprite_sheet: Sheet,
}

impl RedHatBoy {
    pub open spec fn spec_kind(&self) -> StateKind {
        self.state_machine.spec_kind()
    }

    pub open spec fn spec_context(&self) -> RedHatBoyContext {
        self.state_machine.spec_context()
    }

    /// The state and the context together.
    pub open spec fn pose(&self) -> (StateKind, RedHatBoyContext) {
        (self.spec_kind(), self.spec_context())
    }

    /// The name of the picture that shows the character now.
    pub open spec fn spec_frame_name(&self) -> Seq<char> {
        frame_label(animation_name(self.spec_kind()), self.spec_context().frame)
    }

    /// The sprite that shows the character now, if the sheet has it.
    pub open spec fn spec_current_sprite(&self) -> Option<Cell> {
        sprite_of(self.sprite_sheet, self.spec_kind(), self.spec_context())
    }

    /// Whether the character can be drawn: the sheet has its picture, and
    /// the place of the picture on the screen is representable.
    pub open spec fn drawable(&self) -> bool {
        &&& self.spec_current_sprite() is Some
        &&& fits(destination_of(self.spec_context().position, self.spec_current_sprite().unwrap()))
    }

    /// Whether the character has a bounding box: the sheet has its picture,
    /// and the box is representable.
    pub open spec fn bounded(&self) -> bool {
        has_bounding_box(self.sprite_sheet, self.spec_kind(), self.spec_context())
    }

    /// The character's bounding box.
    pub open spec fn spec_bounding_box(&self) -> Rect {
        bounding_box_of(self.sprite_sheet, self.spec_kind(), self.spec_context())
    }

    /// Whether the character is the one that `before` becomes through
    /// `event`: the table gives its state and context, and the sprite
    /// metadata is the same.
    pub open spec fn follows(&self, before: &RedHatBoy, event: Event) -> bool {
        &&& self.sprite_sheet == before.sprite_sheet
        &&& (self.spec_kind(), self.spec_context()) == step(
            before.spec_kind(),
            before.spec_context(),
            event,
        )
        &&& !reacts(before.spec_kind(), event) ==> self.state_machine == before.state_machine
    }

    /// The character at the start of a game: idle, at rest on the floor.
    pub fn new(sheet: Sheet) -> (boy: Self)
        ensures
            boy.sprite_sheet == sheet,
            boy.spec_kind() == StateKind::Idle,
            boy.spec_context() == starting_context(),
    {
        RedHatBoy { state_machine: RedHatBoyStateMachine::new(), sprite_sheet: sheet }
    }

    pub fn frame_name(&self) -> (name: String)
        ensures
            name@ == self.spec_frame_name(),
    {
        frame_label_text(self.state_machine.frame_name(), self.state_machine.context().frame)
    }

    pub fn current_sprite(&self) -> (sprite: Option<Cell>)
        ensures
            sprite == self.spec_current_sprite(),
    {
        let name = self.frame_name();
        self.sprite_sheet.cell(name.as_str())
    }

    /// Whether the character can be drawn.
    pub fn can_draw(&self) -> (ok: bool)
        ensures
            ok == self.drawable(),
    {
        match self.current_sprite() {
            Some(sprite) => {
                let position = self.state_machine.context().position;
                let x: i32 = position.x as i32 + sprite.sprite_source_size.x as i32;
                let y: i32 = position.y as i32 + sprite.sprite_source_size.y as i32;
                i16::MIN as i32 <= x && x <= i16::MAX as i32 && i16::MIN as i32 <= y && y
                    <= i16::MAX as i32
            },
            None => false,
        }
    }

    /// Whether the character has a bounding box.
    pub fn has_box(&self) -> (ok: bool)
        ensures
            ok == self.bounded(),
    {
        match self.current_sprite() {
            Some(sprite) => {
                let position = self.state_machine.context().position;
                let x: i32 = position.x as i32 + sprite.sprite_source_size.x as i32 + X_OFFSET as i32;
                let y: i32 = position.y as i32 + sprite.sprite_source_size.y as i32 + Y_OFFSET as i32;
                let width: i32 = sprite.frame.w as i32 - WIDTH_OFFSET as i32;
                let height: i32 = sprite.frame.h as i32 - Y_OFFSET as i32;
                i16::MIN as i32 <= x && x <= i16::MAX as i32 && i16::MIN as i32 <= y && y
                    <= i16::MAX as i32 && i16::MIN as i32 <= width && i16::MIN as i32 <= height
            },
            None => false,
        }
    }

    /// The part of the sprite image to blit and the place where it goes.
    pub fn draw(&self) -> (call: DrawCall)
        requires
            self.drawable(),
        ensures
            call == draw_call_of(self.spec_context().position, self.spec_current_sprite().unwrap()),
    {
        let sprite = self.current_sprite().unwrap();
        DrawCall {
            source: Rect::new_from_x_y(
                sprite.frame.x,
                sprite.frame.y,
                sprite.frame.w,
                sprite.frame.h,
            ),
            destination: self.destination_box(),
        }
    }

    pub fn destination_box(&self) -> (destination: Rect)
        requires
            self.drawable(),
        ensures
            destination == rect_of(
                destination_of(self.spec_context().position, self.spec_current_sprite().unwrap()),
            ),
    {
        let sprite = self.current_sprite().unwrap();
        Rect::new_from_x_y(
            self.state_machine.context().position.x + sprite.sprite_source_size.x,
            self.state_machine.context().position.y + sprite.sprite_source_size.y,
            sprite.frame.w,
            sprite.frame.h,
        )
    }

    /// The box that obstacles are tested against. The sum is taken in a
    /// wider type, so only the box itself has to be representable.
    pub fn bounding_box(&self) -> (bounding_box: Rect)
        requires
            self.bounded(),
        ensures
            bounding_box == self.spec_bounding_box(),
    {
        let sprite = self.current_sprite().unwrap();
        let position = self.state_machine.context().position;
        let x: i32 = position.x as i32 + sprite.sprite_source_size.x as i32 + X_OFFSET as i32;
        let y: i32 = position.y as i32 + sprite.sprite_source_size.y as i32 + Y_OFFSET as i32;
        let width: i32 = sprite.frame.w as i32 - WIDTH_OFFSET as i32;
        let height: i32 = sprite.frame.h as i32 - Y_OFFSET as i32;
        Rect::new_from_x_y(x as i16, y as i16, width as i16, height as i16)
    }

    pub fn update(&mut self)
        requires
            old(self).state_machine.accepts(Event::Update),
        ensures
            final(self).follows(old(self), Event::Update),
    {
        self.state_machine = self.state_machine.update();
    }

    pub fn run_right(&mut self)
        requires
            old(self).state_machine.accepts(Event::Run),
        ensures
            final(self).follows(old(self), Event::Run),
    {
        self.state_machine = self.state_machine.transition(Event::Run);
    }

    pub fn slide(&mut self)
        ensures
            final(self).follows(old(self), Event::Slide),
    {
        self.state_machine = self.state_machine.transition(Event::Slide);
    }

    pub fn jump(&mut self)
        ensures
            final(self).follows(old(self), Event::Jump),
    {
        self.state_machine = self.state_machine.transition(Event::Jump);
    }

    pub fn land_on(&mut self, position: i16)
        requires
            old(self).state_machine.accepts(Event::Land(position)),
        ensures
            final(self).follows(old(self), Event::Land(position)),
    {
        self.state_machine = self.state_machine.transition(Event::Land(position));
    }

    pub fn knock_out(&mut self)
        ensures
            final(self).follows(old(self), Event::KnockOut),
    {
        self.state_machine = self.state_machine.transition(Event::KnockOut);
    }

    pub fn pos_y(&self) -> (y: i16)
        ensures
            y == self.spec_context().position.y,
    {
        self.state_machine.context().position.y
    }

    pub fn velocity_y(&self) -> (y: i16)
        ensures
            y == self.spec_context().velocity.y,
    {
        self.state_machine.context().velocity.y
    }

    pub fn walking_speed(&self) -> (x: i16)
        ensures
            x == self.spec_context().velocity.x,
    {
        self.state_machine.context().velocity.x
    }
}


/// A frame leads only where the table allows: an idle or running character
/// stays as it is, a sliding or jumping one goes on or runs again, a falling
/// one goes on falling or is knocked out, and a knocked out one stays so.
pub proof fn update_stays_in_table(kind: StateKind, context: RedHatBoyContext)
    ensures
        match kind {
            StateKind::Idle => step(kind, context, Event::Update).0 == StateKind::Idle,
            StateKind::Running => step(kind, context, Event::Update).0 == StateKind::Running,
            StateKind::Sliding => step(kind, context, Event::Update).0 == StateKind::Sliding
                || step(kind, context, Event::Update).0 == StateKind::Running,
            StateKind::Jumping => step(kind, context, Event::Update).0 == StateKind::Jumping
                || step(kind, context, Event::Update).0 == StateKind::Running,
            StateKind::Falling => step(kind, context, Event::Update).0 == StateKind::Falling
                || step(kind, context, Event::Update).0 == StateKind::KnockedOut,
            StateKind::KnockedOut => step(kind, context, Event::Update).0
                == StateKind::KnockedOut,
        },
{
}

/// A knocked out character stays knocked out, with its context untouched,
/// whatever happens.
pub proof fn knocked_out_is_absorbing(context: RedHatBoyContext, event: Event)
    ensures
        !reacts(StateKind::KnockedOut, event),
        step(StateKind::KnockedOut, context, event) == (StateKind::KnockedOut, context),
{
}

/// An event without an entry in the table changes nothing.
pub proof fn unlisted_events_change_nothing(
    kind: StateKind,
    context: RedHatBoyContext,
    event: Event,
)
    requires
        !reacts(kind, event),
    ensures
        step(kind, context, event) == (kind, context),
{
}

/// After a frame that could pass, a character that is not knocked out is
/// not below the floor.
pub proof fn update_respects_floor(kind: StateKind, context: RedHatBoyContext)
    requires
        kind != StateKind::KnockedOut,
        accepts(kind, context, Event::Update),
    ensures
        step(kind, context, Event::Update).1.position.y <= FLOOR,
{
}

/// A slide lasts exactly as many frames as its animation has: a running
/// character that is told to slide is sliding for every smaller number of
/// frames, and after that many it runs again, at frame zero.
pub proof fn slide_lasts_its_frames(context: RedHatBoyContext, k: nat)
    ensures
        step(StateKind::Running, context, Event::Slide) == (
            StateKind::Sliding,
            context.spec_reset_frame(),
        ),
        k < SLIDING_FRAMES ==> after_updates(StateKind::Sliding, context.spec_reset_frame(), k).0
            == StateKind::Sliding,
        after_updates(StateKind::Sliding, context.spec_reset_frame(), SLIDING_FRAMES as nat).0
            == StateKind::Running,
        after_updates(
            StateKind::Sliding,
            context.spec_reset_frame(),
            SLIDING_FRAMES as nat,
        ).1.frame == 0,
{
    if k < SLIDING_FRAMES {
        lemma_slide_goes_on(context.spec_reset_frame(), k);
    }
    lemma_slide_goes_on(context.spec_reset_frame(), (SLIDING_FRAMES - 1) as nat);
}

/// A slide that begins at frame zero is still a slide after `k` frames, at
/// frame `k`, for every `k` below the length of the animation.
pub proof fn lemma_slide_goes_on(context: RedHatBoyContext, k: nat)
    requires
        context.frame == 0,
        k < SLIDING_FRAMES,
    ensures
        after_updates(StateKind::Sliding, context, k).0 == StateKind::Sliding,
        after_updates(StateKind::Sliding, context, k).1.frame == k,
    decreases k,
{
    if k > 0 {
        lemma_slide_goes_on(context, (k - 1) as nat);
    }
}

/// A jump ends exactly when the character has come down to the floor: the
/// frame that brings it there makes it run, at frame zero, and any other
/// leaves it jumping. The frame counter has no part in it.
pub proof fn jump_ends_at_floor(context: RedHatBoyContext, other_frame: u8)
    requires
        context.can_advance(),
    ensures
        settled(context.position.y as int, pulled(context.velocity.y as int)) >= FLOOR ==> step(
            StateKind::Jumping,
            context,
            Event::Update,
        ).0 == StateKind::Running && step(StateKind::Jumping, context, Event::Update).1.frame == 0,
        settled(context.position.y as int, pulled(context.velocity.y as int)) < FLOOR ==> step(
            StateKind::Jumping,
            context,
            Event::Update,
        ).0 == StateKind::Jumping,
        step(
            StateKind::Jumping,
            RedHatBoyContext {
                frame: other_frame,
                position: context.position,
                velocity: context.velocity,
            },
            Event::Update,
        ).0 == step(StateKind::Jumping, context, Event::Update).0,
{
}


/// Whether each of the first `n` frames could pass.
pub open spec fn updates_accepted(kind: StateKind, context: RedHatBoyContext, n: nat) -> bool
    decreases n,
{
    n == 0 || {
        let before = after_updates(kind, context, (n - 1) as nat);
        &&& updates_accepted(kind, context, (n - 1) as nat)
        &&& accepts(before.0, before.1, Event::Update)
    }
}

/// The floor holds through any number of frames: a character that is not
/// knocked out to begin with is not below the floor after one frame or
/// more, each of which could pass.
pub proof fn updates_respect_floor(kind: StateKind, context: RedHatBoyContext, n: nat)
    requires
        n > 0,
        kind != StateKind::KnockedOut,
        updates_accepted(kind, context, n),
    ensures
        after_updates(kind, context, n).1.position.y <= FLOOR,
    decreases n,
{
    let before = after_updates(kind, context, (n - 1) as nat);
    if n > 1 {
        updates_respect_floor(kind, context, (n - 1) as nat);
    }
    if before.0 != StateKind::KnockedOut {
        update_respects_floor(before.0, before.1);
    }
}

} // verus!
