//! The scrolling world: the character, the two background tiles that follow
//! one another, the obstacles ahead, and the mark up to which the level has
//! been laid out.

use vstd::prelude::*;
use vstd::string::StringExecFns;
use rand::Rng;
use crate::engine::{Image, ImageSize, KeyState, Point, Rect, Sheet};
use crate::obstacles::{Obstacle, ObstacleView};
use crate::red_hat_boy::{
    accepts, bounding_box_of, draw_call_of, has_bounding_box, sprite_of, step, DrawCall, Event,
    RedHatBoy, StateKind,
};
use crate::red_hat_boy_states::{starting_context, RedHatBoyContext, RUNNING_SPEED};
use crate::segments::{
    floating_platform_right, platform_and_stone, platform_and_stone_fits, serves_floating_platform,
    spec_platform_and_stone, spec_stone_and_platform, stone_and_platform, stone_and_platform_fits,
    tiles_serve, views,
};
use crate::steady::{
    is_steady, serves, sheet_serves, start_is_steady, steady_world_goes_on, stone_steady, world_steady,
    BACKGROUND_WIDTH_LIMIT, STONE_WIDTH_LIMIT,
};

verus! {

pub const TIMELINE_MINIMUM: i16 = 1000;
pub const OBSTACLE_BUFFER: i16 = 20;

/// The rightmost extent of a list of obstacles; zero for the empty list.
pub open spec fn spec_rightmost(obstacles: Seq<ObstacleView>) -> int
    decreases obstacles.len(),
{
    if obstacles.len() == 0 {
        0
    } else if obstacles.len() == 1 {
        obstacles[0].right()
    } else {
        let before = spec_rightmost(obstacles.drop_last());
        if obstacles.last().right() >= before {
            obstacles.last().right()
        } else {
            before
        }
    }
}

/// The obstacles that are still in sight: those whose right edge lies right
/// of the left edge of the screen, in their order.
pub open spec fn pruned(obstacles: Seq<ObstacleView>) -> Seq<ObstacleView>
    decreases obstacles.len(),
{
    if obstacles.len() == 0 {
        Seq::empty()
    } else if obstacles.last().right() > 0 {
        pruned(obstacles.drop_last()).push(obstacles.last())
    } else {
        pruned(obstacles.drop_last())
    }
}

/// Every obstacle of the list, moved by `dx`.
pub open spec fn all_moved(obstacles: Seq<ObstacleView>, dx: int) -> Seq<ObstacleView> {
    Seq::new(obstacles.len(), |i: int| obstacles[i].moved(dx))
}

/// What a check against one obstacle tells a character in the given state
/// and context.
pub open spec fn contact_event(
    sheet: Sheet,
    pose: (StateKind, RedHatBoyContext),
    obstacle: ObstacleView,
) -> Option<Event> {
    if obstacle.tests_box() {
        obstacle.event_for(
            bounding_box_of(sheet, pose.0, pose.1),
            pose.1.velocity.y,
            pose.1.position.y,
        )
    } else {
        None
    }
}

/// The state and context after a check against one obstacle.
pub open spec fn pose_after_contact(
    sheet: Sheet,
    pose: (StateKind, RedHatBoyContext),
    obstacle: ObstacleView,
) -> (StateKind, RedHatBoyContext) {
    match contact_event(sheet, pose, obstacle) {
        Some(event) => step(pose.0, pose.1, event),
        None => pose,
    }
}

/// Whether the character can be checked against the obstacle.
pub open spec fn contact_allowed(
    sheet: Sheet,
    pose: (StateKind, RedHatBoyContext),
    obstacle: ObstacleView,
) -> bool {
    &&& obstacle.tests_box() ==> has_bounding_box(sheet, pose.0, pose.1)
    &&& match contact_event(sheet, pose, obstacle) {
        Some(event) => accepts(pose.0, pose.1, event),
        None => true,
    }
}

/// The state and context after the obstacles, one after the other in their
/// order, have each been moved by `dx` and checked against the character.
pub open spec fn pose_after_contacts(
    sheet: Sheet,
    pose: (StateKind, RedHatBoyContext),
    obstacles: Seq<ObstacleView>,
    dx: int,
) -> (StateKind, RedHatBoyContext)
    decreases obstacles.len(),
{
    if obstacles.len() == 0 {
        pose
    } else {
        pose_after_contact(
            sheet,
            pose_after_contacts(sheet, pose, obstacles.drop_last(), dx),
            obstacles.last().moved(dx),
        )
    }
}

/// Whether every obstacle can be moved by `dx` and then checked against the
/// character as the earlier checks have left it.
pub open spec fn contacts_allowed(
    sheet: Sheet,
    pose: (StateKind, RedHatBoyContext),
    obstacles: Seq<ObstacleView>,
    dx: int,
) -> bool
    decreases obstacles.len(),
{
    obstacles.len() == 0 || {
        &&& contacts_allowed(sheet, pose, obstacles.drop_last(), dx)
        &&& obstacles.last().can_move(dx)
        &&& contact_allowed(
            sheet,
            pose_after_contacts(sheet, pose, obstacles.drop_last(), dx),
            obstacles.last().moved(dx),
        )
    }
}

/// The two background tiles after a scroll by `dx`: each moves, and one
/// whose right edge has left the screen goes behind the other.
pub open spec fn scrolled(first: Image, second: Image, dx: int) -> (Image, Image) {
    let a = first.shifted(dx);
    let b = second.shifted(dx);
    let a = if a.bounding_box.spec_right() < 0 {
        a.with_x(b.bounding_box.spec_right() as i16)
    } else {
        a
    };
    let b = if b.bounding_box.spec_right() < 0 {
        b.with_x(a.bounding_box.spec_right() as i16)
    } else {
        b
    };
    (a, b)
}

/// Whether the two background tiles can scroll by `dx` within the range of
/// the coordinates.
pub open spec fn can_scroll(first: Image, second: Image, dx: int) -> bool {
    let a = first.shifted(dx);
    let b = second.shifted(dx);
    &&& first.can_shift(dx)
    &&& second.can_shift(dx)
    &&& a.bounding_box.right_fits()
    &&& b.bounding_box.right_fits()
    &&& b.bounding_box.spec_right() < 0 ==> scrolled(first, second, dx).0.bounding_box.right_fits()
}

/// The obstacles of the segment that `choice` selects, laid out from
/// `offset_x` on.
pub open spec fn segment(choice: u8, stone: ImageSize, sheet: &Sheet, offset_x: i16) -> Seq<
    ObstacleView,
> {
    if choice == 0 {
        spec_stone_and_platform(stone, sheet, offset_x)
    } else if choice == 1 {
        spec_platform_and_stone(stone, sheet, offset_x)
    } else {
        Seq::empty()
    }
}

/// Whether the segment that `choice` selects can be laid out from
/// `offset_x` on, and its extent measured.
pub open spec fn segment_fits(choice: u8, stone: ImageSize, sheet: &Sheet, offset_x: i16) -> bool {
    &&& choice == 0 ==> stone_and_platform_fits(sheet, offset_x)
    &&& choice == 1 ==> platform_and_stone_fits(sheet, offset_x)
    &&& forall|i: int|
        0 <= i < segment(choice, stone, sheet, offset_x).len() ==> (#[trigger] segment(
            choice,
            stone,
            sheet,
            offset_x,
        )[i]).right_fits()
}

/// What the player asks for in a frame.
pub struct Controls {
    pub slide: bool,
    pub run: bool,
    pub jump: bool,
}

/// What the held keys ask for: the down arrow slides, the right arrow runs,
/// the space bar jumps.
pub open spec fn controls(keystate: &KeyState) -> Controls {
    Controls {
        slide: keystate.spec_is_pressed("ArrowDown"@),
        run: keystate.spec_is_pressed("ArrowRight"@),
        jump: keystate.spec_is_pressed("Space"@),
    }
}

/// The state and context after the player's wishes, in the order slide, run,
/// jump, and then one frame.
pub open spec fn pose_after_input(pose: (StateKind, RedHatBoyContext), asked: Controls) -> (
    StateKind,
    RedHatBoyContext,
) {
    let slid = if asked.slide {
        step(pose.0, pose.1, Event::Slide)
    } else {
        pose
    };
    let run = if asked.run {
        step(slid.0, slid.1, Event::Run)
    } else {
        slid
    };
    let jumped = if asked.jump {
        step(run.0, run.1, Event::Jump)
    } else {
        run
    };
    step(jumped.0, jumped.1, Event::Update)
}

/// Whether the character accepts the player's wishes and the frame.
pub open spec fn input_accepted(pose: (StateKind, RedHatBoyContext), asked: Controls) -> bool {
    let slid = if asked.slide {
        step(pose.0, pose.1, Event::Slide)
    } else {
        pose
    };
    let run = if asked.run {
        step(slid.0, slid.1, Event::Run)
    } else {
        slid
    };
    let jumped = if asked.jump {
        step(run.0, run.1, Event::Jump)
    } else {
        run
    };
    &&& asked.run ==> accepts(slid.0, slid.1, Event::Run)
    &&& accepts(jumped.0, jumped.1, Event::Update)
}

/// The world as the rules see it.
pub struct WalkView {
    pub pose: (StateKind, RedHatBoyContext),
    pub boy_sheet: Sheet,
    pub obstacle_sheet: Sheet,
    pub stone: ImageSize,
    pub backgrounds: (Image, Image),
    pub obstacles: Seq<ObstacleView>,
    pub timeline: i16,
}

impl WalkView {
    /// The speed of the scroll after the player's wishes: the world moves
    /// left as fast as the character runs right.
    pub open spec fn scroll_velocity(self, asked: Controls) -> int {
        -pose_after_input(self.pose, asked).1.velocity.x
    }

    /// Whether everything of a frame but the level mark can be done within
    /// the range of the coordinates.
    pub open spec fn can_scroll_on(self, asked: Controls) -> bool {
        let pose = pose_after_input(self.pose, asked);
        let dx = self.scroll_velocity(asked);
        &&& input_accepted(self.pose, asked)
        &&& dx <= i16::MAX
        &&& can_scroll(self.backgrounds.0, self.backgrounds.1, dx)
        &&& forall|i: int| 0 <= i < self.obstacles.len() ==> (#[trigger] self.obstacles[i]).right_fits()
        &&& contacts_allowed(self.boy_sheet, pose, pruned(self.obstacles), dx)
    }

    /// The world after everything of a frame but the level mark: the
    /// character has taken the player's wishes and one frame, the
    /// backgrounds have scrolled, the obstacles out of sight are gone, and
    /// the others have moved and met the character.
    pub open spec fn scrolled_on(self, asked: Controls) -> WalkView {
        let pose = pose_after_input(self.pose, asked);
        let dx = self.scroll_velocity(asked);
        WalkView {
            pose: pose_after_contacts(self.boy_sheet, pose, pruned(self.obstacles), dx),
            boy_sheet: self.boy_sheet,
            obstacle_sheet: self.obstacle_sheet,
            stone: self.stone,
            backgrounds: scrolled(self.backgrounds.0, self.backgrounds.1, dx),
            obstacles: all_moved(pruned(self.obstacles), dx),
            timeline: self.timeline,
        }
    }

    /// Whether the segment that `choice` selects can be added.
    pub open spec fn can_add_segment(self, choice: u8) -> bool {
        &&& self.timeline + OBSTACLE_BUFFER <= i16::MAX
        &&& segment_fits(
            choice,
            self.stone,
            &self.obstacle_sheet,
            (self.timeline + OBSTACLE_BUFFER) as i16,
        )
    }

    /// The world with the segment that `choice` selects added behind the
    /// level mark, and the mark at the right end of the new obstacles.
    pub open spec fn with_segment(self, choice: u8) -> WalkView {
        let added = segment(
            choice,
            self.stone,
            &self.obstacle_sheet,
            (self.timeline + OBSTACLE_BUFFER) as i16,
        );
        WalkView {
            pose: self.pose,
            boy_sheet: self.boy_sheet,
            obstacle_sheet: self.obstacle_sheet,
            stone: self.stone,
            backgrounds: self.backgrounds,
            obstacles: self.obstacles + added,
            timeline: spec_rightmost(added) as i16,
        }
    }

    /// The world with the level mark moved by `dx`.
    pub open spec fn with_timeline_moved(self, dx: int) -> WalkView {
        WalkView {
            pose: self.pose,
            boy_sheet: self.boy_sheet,
            obstacle_sheet: self.obstacle_sheet,
            stone: self.stone,
            backgrounds: self.backgrounds,
            obstacles: self.obstacles,
            timeline: (self.timeline + dx) as i16,
        }
    }

    /// Whether a whole frame can be done, with `choice` for the segment if
    /// one is due.
    pub open spec fn can_frame(self, asked: Controls, choice: u8) -> bool {
        &&& self.can_scroll_on(asked)
        &&& if self.timeline < TIMELINE_MINIMUM {
            self.can_add_segment(choice)
        } else {
            i16::MIN <= self.timeline + self.scroll_velocity(asked) <= i16::MAX
        }
    }

    /// The world one frame later. Where the level mark has fallen below the
    /// minimum, the segment that `choice` selects is added; else the mark
    /// scrolls with the world.
    pub open spec fn after_frame(self, asked: Controls, choice: u8) -> WalkView {
        if self.timeline < TIMELINE_MINIMUM {
            self.scrolled_on(asked).with_segment(choice)
        } else {
            self.scrolled_on(asked).with_timeline_moved(self.scroll_velocity(asked))
        }
    }
}

/// A number from `low` up to but not including `high`, drawn by
/// `rand::Rng::gen_range` from the generator of the thread,
/// `rand::thread_rng`. The range must not be empty: `gen_range` panics on an
/// empty one. Nothing is claimed of the number but its range: two draws may
/// differ.
#[verifier::external_body]
fn random_between(low: u8, high: u8) -> (drawn: u8)
    requires
        low < high,
    ensures
        low <= drawn < high,
{
    rand::thread_rng().gen_range(low..high)
}

/// The rightmost extent of the obstacles of a list; zero for the empty list.
pub fn rightmost(obstacle_list: &Vec<Obstacle>) -> (r: i16)
    requires
        forall|i: int| 0 <= i < obstacle_list@.len() ==> (#[trigger] obstacle_list@[i])@.right_fits(),
    ensures
        r == spec_rightmost(views(obstacle_list@)),
{
    if obstacle_list.len() == 0 {
        return 0;
    }
    let mut best: i16 = obstacle_list[0].right();
    let mut n: usize = 1;
    proof {
        assert(views(obstacle_list@.take(1))[0] == obstacle_list@[0]@);
    }
    while n < obstacle_list.len()
        invariant
            1 <= n <= obstacle_list@.len(),
            forall|i: int|
                0 <= i < obstacle_list@.len() ==> (#[trigger] obstacle_list@[i])@.right_fits(),
            best == spec_rightmost(views(obstacle_list@.take(n as int))),
        decreases obstacle_list@.len() - n,
    {
        let r = obstacle_list[n].right();
        proof {
            let longer = views(obstacle_list@.take(n + 1));
            assert(longer.drop_last() =~= views(obstacle_list@.take(n as int)));
            assert(longer.last() == obstacle_list@[n as int]@);
        }
        if r >= best {
            best = r;
        }
        n += 1;
    }
    proof {
        assert(obstacle_list@.take(n as int) =~= obstacle_list@);
    }
    best
}

/// Removes the obstacles whose right edge has reached the left edge of the
/// screen. The others keep their order.
pub fn prune(obstacles: &mut Vec<Obstacle>)
    requires
        forall|i: int| 0 <= i < old(obstacles)@.len() ==> (#[trigger] old(obstacles)@[i])@.right_fits(),
    ensures
        views(final(obstacles)@) == pruned(views(old(obstacles)@)),
{
    let ghost before = obstacles@;
    let ghost mut seen: int = 0;
    let mut kept: usize = 0;
    proof {
        assert(views(obstacles@.take(0)) =~= pruned(views(before.take(0))));
    }
    while kept < obstacles.len()
        invariant
            0 <= seen <= before.len(),
            kept <= obstacles@.len(),
            obstacles@.len() - kept == before.len() - seen,
            forall|i: int| 0 <= i < before.len() ==> (#[trigger] before[i])@.right_fits(),
            views(obstacles@.take(kept as int)) == pruned(views(before.take(seen))),
            obstacles@.skip(kept as int) == before.skip(seen),
        decreases obstacles@.len() - kept, before.len() - seen,
    {
        proof {
            assert(obstacles@[kept as int] == obstacles@.skip(kept as int)[0]);
            assert(before[seen] == before.skip(seen)[0]);
            let longer = views(before.take(seen + 1));
            assert(longer.drop_last() =~= views(before.take(seen)));
            assert(longer.last() == before[seen]@);
        }
        let ghost current = obstacles@;
        if obstacles[kept].right() > 0 {
            proof {
                assert(views(current.take(kept + 1)) =~= views(current.take(kept as int)).push(
                    current[kept as int]@,
                ));
                assert(current.skip(kept + 1) =~= current.skip(kept as int).skip(1));
                assert(before.skip(seen + 1) =~= before.skip(seen).skip(1));
            }
            kept += 1;
        } else {
            obstacles.remove(kept);
            proof {
                assert(obstacles@.take(kept as int) =~= current.take(kept as int));
                assert(obstacles@.skip(kept as int) =~= current.skip(kept as int).skip(1));
                assert(before.skip(seen + 1) =~= before.skip(seen).skip(1));
            }
        }
        proof {
            seen = seen + 1;
        }
    }
    proof {
        assert(obstacles@.take(kept as int) =~= obstacles@);
        assert(before.take(seen) =~= before);
    }
}

/// Moves every obstacle by `velocity` and checks it against the character,
/// one obstacle after the other: each check meets the character as the
/// earlier ones have left it.
pub fn move_and_collide(obstacles: &mut Vec<Obstacle>, boy: &mut RedHatBoy, velocity: i16)
    requires
        contacts_allowed(
            old(boy).sprite_sheet,
            old(boy).pose(),
            views(old(obstacles)@),
            velocity as int,
        ),
    ensures
        views(final(obstacles)@) == all_moved(views(old(obstacles)@), velocity as int),
        final(boy).sprite_sheet == old(boy).sprite_sheet,
        final(boy).pose() == pose_after_contacts(
            old(boy).sprite_sheet,
            old(boy).pose(),
            views(old(obstacles)@),
            velocity as int,
        ),
{
    let ghost before = views(obstacles@);
    let ghost sheet = boy.sprite_sheet;
    let ghost start = boy.pose();
    let mut n: usize = 0;
    while n < obstacles.len()
        invariant
            n <= obstacles@.len(),
            obstacles@.len() == before.len(),
            boy.sprite_sheet == sheet,
            contacts_allowed(sheet, start, before, velocity as int),
            contacts_allowed(sheet, start, before.take(n as int), velocity as int),
            boy.pose() == pose_after_contacts(sheet, start, before.take(n as int), velocity as int),
            forall|i: int| 0 <= i < n ==> (#[trigger] obstacles@[i])@ == before[i].moved(velocity as int),
            forall|i: int| n <= i < before.len() ==> (#[trigger] obstacles@[i])@ == before[i],
        decreases obstacles@.len() - n,
    {
        proof {
            lemma_contacts_allowed_prefix(sheet, start, before, velocity as int, n + 1);
            assert(before.take(n + 1).drop_last() =~= before.take(n as int));
            assert(before.take(n + 1).last() == before[n as int]);
        }
        obstacles[n].move_horizontally(velocity);
        obstacles[n].check_intersection(boy);
        n += 1;
    }
    proof {
        assert(before.take(n as int) =~= before);
        assert(views(obstacles@) =~= all_moved(before, velocity as int));
    }
}

/// A list of obstacles that can all be moved and checked has only prefixes
/// that can.
pub proof fn lemma_contacts_allowed_prefix(
    sheet: Sheet,
    pose: (StateKind, RedHatBoyContext),
    obstacles: Seq<ObstacleView>,
    dx: int,
    n: int,
)
    requires
        0 <= n <= obstacles.len(),
        contacts_allowed(sheet, pose, obstacles, dx),
    ensures
        contacts_allowed(sheet, pose, obstacles.take(n), dx),
    decreases obstacles.len(),
{
    if n == obstacles.len() {
        assert(obstacles.take(n) =~= obstacles);
    } else {
        lemma_contacts_allowed_prefix(sheet, pose, obstacles.drop_last(), dx, n);
        assert(obstacles.drop_last().take(n) =~= obstacles.take(n));
    }
}


/// The running game: the character, the backgrounds, the obstacles ahead
/// and the level mark.
pub struct Walk {
    pub obstacle_sheet: Sheet,
    pub boy: RedHatBoy,
    pub backgrounds: [Image; 2],
    pub obstacles: Vec<Obstacle>,
    pub stone: ImageSize,
    pub timeline: i16,
}

impl View for Walk {
    type V = WalkView;

    open spec fn view(&self) -> WalkView {
        WalkView {
            pose: self.boy.pose(),
            boy_sheet: self.boy.sprite_sheet,
            obstacle_sheet: self.obstacle_sheet,
            stone: self.stone,
            backgrounds: (self.backgrounds@[0], self.backgrounds@[1]),
            obstacles: views(self.obstacles@),
            timeline: self.timeline,
        }
    }
}

/// The world at the start of a game: the character idle on the floor, the
/// two background tiles side by side from the left edge of the screen, and
/// the stone-first segment laid out from there.
pub open spec fn starting_walk(
    boy_sheet: Sheet,
    background: ImageSize,
    stone: ImageSize,
    tiles: Sheet,
) -> WalkView {
    WalkView {
        pose: (StateKind::Idle, starting_context()),
        boy_sheet,
        obstacle_sheet: tiles,
        stone,
        backgrounds: (
            Image::at(background, Point { x: 0, y: 0 }),
            Image::at(background, Point { x: background.width, y: 0 }),
        ),
        obstacles: spec_stone_and_platform(stone, &tiles, 0),
        timeline: spec_rightmost(spec_stone_and_platform(stone, &tiles, 0)) as i16,
    }
}

impl Walk {
    /// A game at its start.
    pub fn new(boy_sheet: Sheet, background: ImageSize, stone: ImageSize, tiles: Sheet) -> (walk:
        Self)
        requires
            segment_fits(0, stone, &tiles, 0),
        ensures
            walk@ == starting_walk(boy_sheet, background, stone, tiles),
    {
        let starting_obstacles = stone_and_platform(stone, &tiles, 0);
        proof {
            assert forall|i: int| 0 <= i < starting_obstacles@.len() implies
                (#[trigger] starting_obstacles@[i])@.right_fits() by {
                assert(views(starting_obstacles@)[i] == starting_obstacles@[i]@);
                assert(segment(0, stone, &tiles, 0)[i].right_fits());
            }
        }
        let timeline = rightmost(&starting_obstacles);
        Walk {
            obstacle_sheet: tiles,
            boy: RedHatBoy::new(boy_sheet),
            backgrounds: [
                Image::new(background, Point { x: 0, y: 0 }),
                Image::new(background, Point { x: background.width, y: 0 }),
            ],
            obstacles: starting_obstacles,
            stone,
            timeline,
        }
    }

    /// The speed at which the world scrolls: as fast to the left as the
    /// character runs to the right.
    pub fn velocity(&self) -> (velocity: i16)
        requires
            -self.boy.spec_context().velocity.x <= i16::MAX,
        ensures
            velocity == -self.boy.spec_context().velocity.x,
    {
        -self.boy.walking_speed()
    }

    /// Scrolls the two background tiles by `velocity`.
    pub fn scroll_backgrounds(&mut self, velocity: i16)
        requires
            can_scroll(old(self)@.backgrounds.0, old(self)@.backgrounds.1, velocity as int),
        ensures
            final(self)@.backgrounds == scrolled(
                old(self)@.backgrounds.0,
                old(self)@.backgrounds.1,
                velocity as int,
            ),
            final(self).boy == old(self).boy,
            final(self).obstacles == old(self).obstacles,
            final(self).obstacle_sheet == old(self).obstacle_sheet,
            final(self).stone == old(self).stone,
            final(self).timeline == old(self).timeline,
    {
        let mut first_background = self.backgrounds[0];
        let mut second_background = self.backgrounds[1];
        first_background.move_horizontally(velocity);
        second_background.move_horizontally(velocity);
        if first_background.right() < 0 {
            first_background.set_x(second_background.right());
        }
        if second_background.right() < 0 {
            second_background.set_x(first_background.right());
        }
        self.backgrounds = [first_background, second_background];
    }

    /// Everything of a frame but the level mark: the held keys become
    /// events for the character, the character takes one frame, the
    /// backgrounds scroll, the obstacles out of sight are dropped, and the
    /// others move and meet the character. Returns the speed of the scroll.
    pub fn scroll_on(&mut self, keystate: &KeyState) -> (velocity: i16)
        requires
            old(self)@.can_scroll_on(controls(keystate)),
        ensures
            final(self)@ == old(self)@.scrolled_on(controls(keystate)),
            velocity == old(self)@.scroll_velocity(controls(keystate)),
    {
        if keystate.is_pressed("ArrowDown") {
            self.boy.slide();
        }
        if keystate.is_pressed("ArrowRight") {
            self.boy.run_right();
        }
        if keystate.is_pressed("Space") {
            self.boy.jump();
        }
        self.boy.update();
        let velocity = self.velocity();
        self.scroll_backgrounds(velocity);
        proof {
            assert forall|i: int| 0 <= i < self.obstacles@.len() implies
                (#[trigger] self.obstacles@[i])@.right_fits() by {
                assert(old(self)@.obstacles[i] == self.obstacles@[i]@);
            }
        }
        prune(&mut self.obstacles);
        move_and_collide(&mut self.obstacles, &mut self.boy, velocity);
        velocity
    }

    /// Adds the segment that `choice` selects behind the level mark, and
    /// puts the mark at the right end of the new obstacles.
    pub fn append_segment(&mut self, choice: u8)
        requires
            old(self)@.can_add_segment(choice),
        ensures
            final(self)@ == old(self)@.with_segment(choice),
    {
        let offset: i16 = self.timeline + OBSTACLE_BUFFER;
        let mut next_obstacles = if choice == 0 {
            stone_and_platform(self.stone, &self.obstacle_sheet, offset)
        } else if choice == 1 {
            platform_and_stone(self.stone, &self.obstacle_sheet, offset)
        } else {
            Vec::new()
        };
        proof {
            let added = segment(choice, self.stone, &self.obstacle_sheet, offset);
            assert(views(next_obstacles@) =~= added);
            assert forall|i: int| 0 <= i < next_obstacles@.len() implies
                (#[trigger] next_obstacles@[i])@.right_fits() by {
                assert(added[i] == next_obstacles@[i]@);
            }
        }
        self.timeline = rightmost(&next_obstacles);
        let ghost added = next_obstacles@;
        self.obstacles.append(&mut next_obstacles);
        proof {
            assert(views(self.obstacles@) =~= views(old(self).obstacles@) + views(added));
        }
    }

    /// Adds one of the two segments, picked at random with equal chances
    /// and without regard to what came before.
    pub fn generate_next_segment(&mut self)
        requires
            old(self)@.can_add_segment(0),
            old(self)@.can_add_segment(1),
        ensures
            final(self)@ == old(self)@.with_segment(0) || final(self)@ == old(self)@.with_segment(
                1,
            ),
            final(self)@.timeline >= old(self)@.timeline + OBSTACLE_BUFFER,
    {
        let next_segment = random_between(0, 2);
        proof {
            new_segment_moves_the_mark(self@, next_segment);
        }
        self.append_segment(next_segment);
    }

    /// One frame, with `choice` for the segment in case one is due.
    pub fn frame(&mut self, keystate: &KeyState, choice: u8)
        requires
            old(self)@.can_frame(controls(keystate), choice),
        ensures
            final(self)@ == old(self)@.after_frame(controls(keystate), choice),
            choice < 2 && world_steady(old(self)@) ==> world_steady(final(self)@),
    {
        proof {
            if choice < 2 && world_steady(self@) {
                steady_world_goes_on(self@, controls(keystate), choice);
            }
        }
        let velocity = self.scroll_on(keystate);
        if self.timeline < TIMELINE_MINIMUM {
            self.append_segment(choice);
        } else {
            self.timeline += velocity;
        }
    }

    /// One frame. Where the level mark has fallen below the minimum, one of
    /// the two segments is added, picked at random.
    pub fn update(&mut self, keystate: &KeyState)
        requires
            old(self)@.can_frame(controls(keystate), 0),
            old(self)@.can_frame(controls(keystate), 1),
        ensures
            final(self)@ == old(self)@.after_frame(controls(keystate), 0) || final(self)@ == old(
                self,
            )@.after_frame(controls(keystate), 1),
            world_steady(old(self)@) ==> world_steady(final(self)@),
    {
        proof {
            if world_steady(self@) {
                steady_world_goes_on(self@, controls(keystate), 0);
                steady_world_goes_on(self@, controls(keystate), 1);
            }
        }
        let velocity = self.scroll_on(keystate);
        if self.timeline < TIMELINE_MINIMUM {
            self.generate_next_segment()
        } else {
            self.timeline += velocity;
        }
    }
}


/// The rightmost extent is the greatest right edge: no obstacle of the list
/// reaches further, and one of a list that is not empty reaches as far.
pub proof fn rightmost_is_greatest(obstacles: Seq<ObstacleView>)
    ensures
        forall|i: int| 0 <= i < obstacles.len() ==> (#[trigger] obstacles[i]).right() <= spec_rightmost(obstacles),
        obstacles.len() > 0 ==> exists|i: int|
            0 <= i < obstacles.len() && (#[trigger] obstacles[i]).right() == spec_rightmost(obstacles),
    decreases obstacles.len(),
{
    if obstacles.len() > 1 {
        let shorter = obstacles.drop_last();
        rightmost_is_greatest(shorter);
        assert forall|i: int| 0 <= i < obstacles.len() implies (#[trigger] obstacles[i]).right()
            <= spec_rightmost(obstacles) by {
            if i < shorter.len() {
                assert(shorter[i] == obstacles[i]);
            }
        }
        if obstacles.last().right() >= spec_rightmost(shorter) {
            assert(obstacles[obstacles.len() - 1].right() == spec_rightmost(obstacles));
        } else {
            let i = choose|i: int|
                0 <= i < shorter.len() && (#[trigger] shorter[i]).right() == spec_rightmost(shorter);
            assert(obstacles[i].right() == spec_rightmost(obstacles));
        }
    } else if obstacles.len() == 1 {
        assert(obstacles[0].right() == spec_rightmost(obstacles));
    }
}

/// What pruning keeps is in sight.
pub proof fn pruned_are_in_sight(obstacles: Seq<ObstacleView>)
    ensures
        forall|i: int| 0 <= i < pruned(obstacles).len() ==> (#[trigger] pruned(obstacles)[i]).right() > 0,
    decreases obstacles.len(),
{
    if obstacles.len() > 0 {
        let shorter = pruned(obstacles.drop_last());
        pruned_are_in_sight(obstacles.drop_last());
        assert forall|i: int| 0 <= i < pruned(obstacles).len() implies (#[trigger] pruned(
            obstacles,
        )[i]).right() > 0 by {
            if i < shorter.len() {
                assert(pruned(obstacles)[i] == shorter[i]);
            }
        }
    }
}

/// A list in which everything is in sight is pruned to itself.
pub proof fn lemma_in_sight_stays(obstacles: Seq<ObstacleView>)
    requires
        forall|i: int| 0 <= i < obstacles.len() ==> (#[trigger] obstacles[i]).right() > 0,
    ensures
        pruned(obstacles) == obstacles,
    decreases obstacles.len(),
{
    if obstacles.len() > 0 {
        let shorter = obstacles.drop_last();
        assert forall|i: int| 0 <= i < shorter.len() implies (#[trigger] shorter[i]).right() > 0 by {
            assert(shorter[i] == obstacles[i]);
        }
        lemma_in_sight_stays(shorter);
        assert(shorter.push(obstacles.last()) =~= obstacles);
    } else {
        assert(pruned(obstacles) =~= obstacles);
    }
}

/// Pruning twice is pruning once.
pub proof fn pruning_is_idempotent(obstacles: Seq<ObstacleView>)
    ensures
        pruned(pruned(obstacles)) == pruned(obstacles),
{
    pruned_are_in_sight(obstacles);
    lemma_in_sight_stays(pruned(obstacles));
}

/// A list with nothing in sight is pruned to the empty list, and the empty
/// list stays empty however often it is pruned.
pub proof fn nothing_in_sight_prunes_to_nothing(obstacles: Seq<ObstacleView>)
    requires
        forall|i: int| 0 <= i < obstacles.len() ==> (#[trigger] obstacles[i]).right() <= 0,
    ensures
        pruned(obstacles) == Seq::<ObstacleView>::empty(),
        pruned(pruned(obstacles)) == Seq::<ObstacleView>::empty(),
    decreases obstacles.len(),
{
    if obstacles.len() > 0 {
        let shorter = obstacles.drop_last();
        assert forall|i: int| 0 <= i < shorter.len() implies (#[trigger] shorter[i]).right() <= 0 by {
            assert(shorter[i] == obstacles[i]);
        }
        nothing_in_sight_prunes_to_nothing(shorter);
    }
}

/// A new segment moves the level mark on: the mark is then the rightmost
/// extent of the obstacles just added, which lies at least the buffer
/// beyond the mark before.
pub proof fn new_segment_moves_the_mark(walk: WalkView, choice: u8)
    requires
        choice < 2,
        walk.can_add_segment(choice),
    ensures
        walk.with_segment(choice).timeline == spec_rightmost(
            segment(
                choice,
                walk.stone,
                &walk.obstacle_sheet,
                (walk.timeline + OBSTACLE_BUFFER) as i16,
            ),
        ),
        walk.with_segment(choice).timeline >= walk.timeline + OBSTACLE_BUFFER,
        walk.with_segment(choice).obstacles == walk.obstacles + segment(
            choice,
            walk.stone,
            &walk.obstacle_sheet,
            (walk.timeline + OBSTACLE_BUFFER) as i16,
        ),
{
    let added = segment(
        choice,
        walk.stone,
        &walk.obstacle_sheet,
        (walk.timeline + OBSTACLE_BUFFER) as i16,
    );
    rightmost_is_greatest(added);
    assert(added.len() == 2);
    floating_platform_right(&walk.obstacle_sheet, added[1]->Platform_0.position);
    assert(added[0].right_fits());
    assert(added[1].right_fits());
    assert(added[1].right() <= spec_rightmost(added));
    let i = choose|i: int| 0 <= i < added.len() && (#[trigger] added[i]).right() == spec_rightmost(added);
    assert(i == 0 || i == 1);
}


/// Why a game could not be set up.
#[derive(Clone, Copy, Debug, PartialEq, Eq, Structural)]
pub enum InitError {
    /// The game has been set up before.
    AlreadyInitialized,
    /// The character's sheet lacks a picture that an animation reaches, or
    /// holds one that gives the character no bounding box somewhere between
    /// the floor and the highest it can get.
    IncompleteSheet,
    /// The sheet of the tiles lacks one of the three sprites of a floating
    /// platform.
    IncompleteTiles,
    /// The background is narrower than a frame's scroll, so that the two
    /// tiles cannot follow one another without a gap, or so wide that the
    /// right edge of the second tile is no coordinate.
    BackgroundOutOfRange,
    /// The stone is so wide that its right edge in a segment may be no
    /// coordinate.
    StoneOutOfRange,
}

impl InitError {
    pub fn message(&self) -> (text: String)
        ensures
            text@ == match *self {
                InitError::AlreadyInitialized => "Error: Game is already initialized!"@,
                InitError::IncompleteSheet => "Error: The character's sheet is incomplete!"@,
                InitError::IncompleteTiles => "Error: The sheet of the tiles is incomplete!"@,
                InitError::BackgroundOutOfRange => "Error: The background is out of range!"@,
                InitError::StoneOutOfRange => "Error: The stone is out of range!"@,
            },
    {
        match self {
            InitError::AlreadyInitialized => String::from_str("Error: Game is already initialized!"),
            InitError::IncompleteSheet => String::from_str(
                "Error: The character's sheet is incomplete!",
            ),
            InitError::IncompleteTiles => String::from_str(
                "Error: The sheet of the tiles is incomplete!",
            ),
            InitError::BackgroundOutOfRange => String::from_str(
                "Error: The background is out of range!",
            ),
            InitError::StoneOutOfRange => String::from_str("Error: The stone is out of range!"),
        }
    }
}

/// What setting a game up from the given assets comes to, for a game that
/// is still loading: the first reason against it, if there is one.
pub open spec fn asset_fault(
    boy_sheet: Sheet,
    background: ImageSize,
    stone: ImageSize,
    tiles: Sheet,
) -> Option<InitError> {
    if !sheet_serves(boy_sheet) {
        Some(InitError::IncompleteSheet)
    } else if !tiles_serve(&tiles) {
        Some(InitError::IncompleteTiles)
    } else if !(RUNNING_SPEED <= background.width <= BACKGROUND_WIDTH_LIMIT) {
        Some(InitError::BackgroundOutOfRange)
    } else if !stone_steady(stone) {
        Some(InitError::StoneOutOfRange)
    } else {
        None
    }
}

/// The game before and after its assets have arrived.
pub enum WalkTheDog {
    Loading,
    Loaded(Walk),
}

impl WalkTheDog {
    /// Whether the game is still loading, or has a steady world.
    pub open spec fn steady(&self) -> bool {
        match self {
            WalkTheDog::Loading => true,
            WalkTheDog::Loaded(walk) => world_steady(walk@),
        }
    }

    pub fn new() -> (game: Self)
        ensures
            game is Loading,
            game.steady(),
    {
        WalkTheDog::Loading
    }

    /// Sets the game up from its assets: the character's sprite metadata,
    /// the extent of the background picture and of the stone, and the
    /// sprite metadata of the tiles. Only a game that is still loading can
    /// be set up, and only from assets with which the game can go on for
    /// ever: complete sheets, a background that tiles the screen, and
    /// pictures whose edges stay coordinates.
    pub fn initialize(
        &self,
        boy_sheet: Sheet,
        background: ImageSize,
        stone: ImageSize,
        tiles: Sheet,
    ) -> (loaded: Result<WalkTheDog, InitError>)
        ensures
            *self is Loaded ==> loaded == Err::<WalkTheDog, InitError>(InitError::AlreadyInitialized),
            *self is Loading ==> match asset_fault(boy_sheet, background, stone, tiles) {
                Some(fault) => loaded == Err::<WalkTheDog, InitError>(fault),
                None => loaded is Ok && loaded->Ok_0 is Loaded && loaded->Ok_0.steady()
                    && loaded->Ok_0->Loaded_0@ == starting_walk(
                    boy_sheet,
                    background,
                    stone,
                    tiles,
                ),
            },
    {
        match self {
            WalkTheDog::Loading => {
                if !serves(&boy_sheet) {
                    Err(InitError::IncompleteSheet)
                } else if !serves_floating_platform(&tiles) {
                    Err(InitError::IncompleteTiles)
                } else if background.width < RUNNING_SPEED || background.width
                    > BACKGROUND_WIDTH_LIMIT {
                    Err(InitError::BackgroundOutOfRange)
                } else if stone.width > STONE_WIDTH_LIMIT {
                    Err(InitError::StoneOutOfRange)
                } else {
                    proof {
                        start_is_steady(boy_sheet, background, stone, tiles);
                    }
                    Ok(WalkTheDog::Loaded(Walk::new(boy_sheet, background, stone, tiles)))
                }
            },
            WalkTheDog::Loaded(_) => Err(InitError::AlreadyInitialized),
        }
    }

    /// Whether the game is still loading, or has a steady world.
    pub fn is_steady(&self) -> (ok: bool)
        ensures
            ok == self.steady(),
    {
        match self {
            WalkTheDog::Loading => true,
            WalkTheDog::Loaded(walk) => is_steady(walk),
        }
    }

    /// One frame of a game that is set up; a game that is still loading
    /// stays as it is.
    pub fn update(&mut self, keystate: &KeyState)
        requires
            old(self).steady(),
        ensures
            final(self).steady(),
            *old(self) is Loading ==> *final(self) is Loading,
            *old(self) is Loaded ==> *final(self) is Loaded && (final(self)->Loaded_0@ == old(
                self,
            )->Loaded_0@.after_frame(controls(keystate), 0) || final(self)->Loaded_0@ == old(
                self,
            )->Loaded_0@.after_frame(controls(keystate), 1)),
    {
        match self {
            WalkTheDog::Loaded(walk) => {
                proof {
                    steady_world_goes_on(walk@, controls(keystate), 0);
                    steady_world_goes_on(walk@, controls(keystate), 1);
                }
                walk.update(keystate);
            },
            WalkTheDog::Loading => {},
        }
    }
}


/// The pictures that a frame is painted from.
#[derive(Clone, Copy, Debug, PartialEq, Eq, Structural)]
pub enum Picture {
    Background,
    Boy,
    Stone,
    Tiles,
}

/// One stroke of painting a frame.
#[derive(Clone, Copy, Debug, PartialEq, Eq, Structural)]
pub enum Paint {
    /// Wipe a part of the screen.
    Clear(Rect),
    /// Put a whole picture at a place.
    Whole(Picture, Point),
    /// Put a part of a picture at a place.
    Part(Picture, DrawCall),
}

/// The screen.
pub open spec fn screen() -> Rect {
    Rect { position: Point { x: 0, y: 0 }, width: 600, height: 570 }
}

/// The strokes that paint an obstacle: the stone whole at the place of a
/// barrier, the sprites of a platform side by side.
pub open spec fn obstacle_paints(obstacle: ObstacleView) -> Seq<Paint> {
    match obstacle {
        ObstacleView::Barrier(image) => seq![Paint::Whole(Picture::Stone, image.position)],
        ObstacleView::Platform(platform) => Seq::new(
            platform.sprites.len(),
            |i: int| Paint::Part(Picture::Tiles, platform.draw_call(i)),
        ),
    }
}

/// The strokes that paint the obstacles of a list, in their order.
pub open spec fn obstacles_paints(obstacles: Seq<ObstacleView>) -> Seq<Paint>
    decreases obstacles.len(),
{
    if obstacles.len() == 0 {
        Seq::empty()
    } else {
        obstacles_paints(obstacles.drop_last()) + obstacle_paints(obstacles.last())
    }
}

/// The strokes that paint the world: the screen is wiped, then come the two
/// backgrounds, the character, and the obstacles in their order.
pub open spec fn walk_paints(walk: WalkView) -> Seq<Paint> {
    seq![
        Paint::Clear(screen()),
        Paint::Whole(Picture::Background, walk.backgrounds.0.position),
        Paint::Whole(Picture::Background, walk.backgrounds.1.position),
        Paint::Part(
            Picture::Boy,
            draw_call_of(
                walk.pose.1.position,
                sprite_of(walk.boy_sheet, walk.pose.0, walk.pose.1).unwrap(),
            ),
        ),
    ] + obstacles_paints(walk.obstacles)
}

impl Walk {
    /// Whether the world can be painted: the character can be drawn, and so
    /// can every platform.
    pub open spec fn drawable(&self) -> bool {
        &&& self.boy.drawable()
        &&& forall|i: int|
            0 <= i < self.obstacles@.len() && (#[trigger] self.obstacles@[i])@ is Platform
                ==> self.obstacles@[i]@->Platform_0.drawable()
    }

    /// Whether the world can be painted.
    pub fn can_draw(&self) -> (ok: bool)
        ensures
            ok == self.drawable(),
    {
        if !self.boy.can_draw() {
            return false;
        }
        let mut n: usize = 0;
        while n < self.obstacles.len()
            invariant
                n <= self.obstacles@.len(),
                self.boy.drawable(),
                forall|i: int|
                    0 <= i < n && (#[trigger] self.obstacles@[i])@ is Platform
                        ==> self.obstacles@[i]@->Platform_0.drawable(),
            decreases self.obstacles@.len() - n,
        {
            if !self.obstacles[n].can_draw() {
                return false;
            }
            n += 1;
        }
        true
    }

    /// The strokes that paint the world, in the order in which they are to
    /// be made.
    pub fn draw(&self) -> (paints: Vec<Paint>)
        requires
            self.drawable(),
        ensures
            paints@ == walk_paints(self@),
    {
        let mut paints: Vec<Paint> = Vec::new();
        paints.push(Paint::Clear(Rect::new_from_x_y(0, 0, 600, 570)));
        paints.push(Paint::Whole(Picture::Background, self.backgrounds[0].position));
        paints.push(Paint::Whole(Picture::Background, self.backgrounds[1].position));
        paints.push(Paint::Part(Picture::Boy, self.boy.draw()));
        let ghost head = paints@;
        let ghost all = views(self.obstacles@);
        let mut n: usize = 0;
        proof {
            assert(paints@ =~= head + obstacles_paints(all.take(0)));
        }
        while n < self.obstacles.len()
            invariant
                n <= self.obstacles@.len(),
                self.drawable(),
                all == views(self.obstacles@),
                paints@ == head + obstacles_paints(all.take(n as int)),
            decreases self.obstacles@.len() - n,
        {
            let ghost base = paints@;
            proof {
                assert(all.take(n + 1).drop_last() =~= all.take(n as int));
                assert(all.take(n + 1).last() == self.obstacles@[n as int]@);
            }
            match &self.obstacles[n] {
                Obstacle::Barrier(barrier) => {
                    paints.push(Paint::Whole(Picture::Stone, barrier.image().position));
                    proof {
                        assert(paints@ =~= base + obstacle_paints(all[n as int]));
                    }
                },
                Obstacle::Platform(platform) => {
                    let calls = platform.draw();
                    let mut k: usize = 0;
                    while k < calls.len()
                        invariant
                            k <= calls@.len(),
                            calls@.len() == platform@.sprites.len(),
                            forall|i: int| 0 <= i < calls@.len() ==> calls@[i] == platform@.draw_call(i),
                            paints@ == base + Seq::new(
                                k as nat,
                                |i: int| Paint::Part(Picture::Tiles, platform@.draw_call(i)),
                            ),
                        decreases calls@.len() - k,
                    {
                        paints.push(Paint::Part(Picture::Tiles, calls[k]));
                        proof {
                            assert(paints@ =~= base + Seq::new(
                                (k + 1) as nat,
                                |i: int| Paint::Part(Picture::Tiles, platform@.draw_call(i)),
                            ));
                        }
                        k += 1;
                    }
                    proof {
                        assert(paints@ =~= base + obstacle_paints(all[n as int]));
                    }
                },
            }
            proof {
                assert(paints@ =~= head + (obstacles_paints(all.take(n as int)) + obstacle_paints(
                    all[n as int],
                )));
            }
            n += 1;
        }
        proof {
            assert(all.take(n as int) =~= all);
            assert(head =~= walk_paints(self@).subrange(0, 4));
            assert(paints@ =~= walk_paints(self@));
        }
        paints
    }
}

impl WalkTheDog {
    /// Whether the game can be painted.
    pub fn can_draw(&self) -> (ok: bool)
        ensures
            ok == (*self is Loaded ==> self->Loaded_0.drawable()),
    {
        match self {
            WalkTheDog::Loaded(walk) => walk.can_draw(),
            WalkTheDog::Loading => true,
        }
    }

    /// The strokes that paint a frame: the screen is wiped in any case, and
    /// a game that is set up paints its world on it.
    pub fn draw(&self) -> (paints: Vec<Paint>)
        requires
            *self is Loaded ==> self->Loaded_0.drawable(),
        ensures
            *self is Loading ==> paints@ == seq![Paint::Clear(screen())],
            *self is Loaded ==> paints@ == walk_paints(self->Loaded_0@),
    {
        match self {
            WalkTheDog::Loaded(walk) => walk.draw(),
            WalkTheDog::Loading => {
                let mut paints: Vec<Paint> = Vec::new();
                paints.push(Paint::Clear(Rect::new_from_x_y(0, 0, 600, 570)));
                proof {
                    assert(paints@ =~= seq![Paint::Clear(screen())]);
                }
                paints
            },
        }
    }
}

} // verus!
