//! Why the game can go on for ever: a condition on the world that holds at
//! the start of a game, that lets every frame be computed within the range
//! of the coordinates, and that every frame hands on to the next.

use vstd::prelude::*;
use crate::engine::{Cell, Image, ImageSize, Point, Rect, Sheet};
use crate::game::{
    Walk, all_moved, can_scroll, contact_allowed, contact_event, contacts_allowed, input_accepted,
    pose_after_contact, pose_after_contacts, pose_after_input, pruned, rightmost_is_greatest,
    scrolled, segment, segment_fits, spec_rightmost, starting_walk, Controls, WalkView,
    OBSTACLE_BUFFER, TIMELINE_MINIMUM,
};
use crate::obstacles::{
    first_hit, rightmost_edge_is, rightmost_edge_is_greatest, Obstacle, ObstacleView,
    HIGH_PLATFORM,
};
use crate::red_hat_boy::{
    accepts, animation_name, animation_text, bounding_box_of, bounds_of, fits, frame_label,
    frame_label_text, has_bounding_box, step, Event, RedHatBoyStateMachine, StateKind,
    WIDTH_OFFSET, X_OFFSET, Y_OFFSET,
};
use crate::red_hat_boy_states::{
    RedHatBoyContext, FALLING_FRAMES, FLOOR, HEIGHT, IDLE_FRAMES, JUMPING_FRAMES,
    JUMP_SPEED, RUNNING_FRAMES, RUNNING_SPEED, SLIDING_FRAMES, STARTING_POINT, TERMINAL_VELOCITY,
};
use crate::segments::{
    floating_platform_right, serves_floating_platform, tiles_serve, views,
    FLOATING_PLATFORM_WIDTH,
};

verus! {

/// The widest background: the game starts with two tiles side by side from
/// the left edge of the screen, and the right edge of the second, twice the
/// width, must be a coordinate.
pub const BACKGROUND_WIDTH_LIMIT: i16 = 16383;

/// The widest stone: a segment is laid out from a mark below the minimum,
/// which puts the stone no further right than the mark, the buffer and the
/// place of the later obstacle, at 1219, and its right edge must be a
/// coordinate.
pub const STONE_WIDTH_LIMIT: i16 = 31548;

/// How far left of the rightmost extent of an obstacle any part of it may
/// lie: as far as lets an obstacle in sight scroll by one more frame
/// within the range of the coordinates.
pub const OBSTACLE_SPAN: i16 = 32764;

/// The highest surface of a steady game: the top of a high platform.
pub const HIGHEST_SURFACE: i16 = HIGH_PLATFORM;

/// The highest the character can get while it stands, runs or slides: with
/// its feet on the highest surface, its own height above it.
pub const GROUNDED_CEILING: i16 = 254;

/// The highest the character can get at all: the three hundred pixels of a
/// jump above that.
pub const AIRBORNE_CEILING: i16 = -46;

/// Twice the height that a character still gains while it rises at the
/// vertical velocity `velocity_y`.
pub open spec fn twice_rise(velocity_y: int) -> int {
    if velocity_y < 0 {
        velocity_y * (velocity_y + 1)
    } else {
        0
    }
}

/// The number of frames of the animation that shows a state.
pub open spec fn frame_count(kind: StateKind) -> u8 {
    match kind {
        StateKind::Idle => IDLE_FRAMES,
        StateKind::Running => RUNNING_FRAMES,
        StateKind::Sliding => SLIDING_FRAMES,
        StateKind::Jumping => JUMPING_FRAMES,
        StateKind::Falling => FALLING_FRAMES,
        StateKind::KnockedOut => FALLING_FRAMES,
    }
}

/// The highest a character in the given state can be.
pub open spec fn ceiling(kind: StateKind) -> int {
    match kind {
        StateKind::Jumping | StateKind::Falling | StateKind::KnockedOut => AIRBORNE_CEILING as int,
        _ => GROUNDED_CEILING as int,
    }
}

/// Whether the state is one in which the character has its feet on
/// something.
pub open spec fn grounded(kind: StateKind) -> bool {
    kind == StateKind::Idle || kind == StateKind::Running || kind == StateKind::Sliding
}

/// What holds of the character throughout a game: it stays at its place
/// horizontally, its frame counter stays within its animation, it runs at
/// the running speed or not at all, it falls no faster than the terminal
/// velocity and rises no faster than a jump begins, it rises only in the
/// air, it is not below the floor, and the rise it still has in it does not
/// take it above its ceiling.
pub open spec fn pose_steady(pose: (StateKind, RedHatBoyContext)) -> bool {
    let kind = pose.0;
    let context = pose.1;
    &&& context.position.x == STARTING_POINT
    &&& context.frame <= frame_count(kind)
    &&& 0 <= context.velocity.x <= RUNNING_SPEED
    &&& kind == StateKind::Idle ==> context.velocity.x == 0
    &&& JUMP_SPEED <= context.velocity.y <= TERMINAL_VELOCITY
    &&& grounded(kind) ==> context.velocity.y >= 0
    &&& context.position.y <= FLOOR
    &&& 2 * context.position.y - twice_rise(context.velocity.y as int) >= 2 * ceiling(kind)
}

/// Whether the event is one of a steady game for the character as it is:
/// it lands only while it comes down, and only on surfaces from the highest
/// down to the bottom of the screen.
pub open spec fn event_steady(pose: (StateKind, RedHatBoyContext), event: Event) -> bool {
    match event {
        Event::Land(surface) => HIGHEST_SURFACE <= surface <= HEIGHT && pose.1.velocity.y > 0,
        _ => true,
    }
}

/// The rise left shrinks by the velocity of the next frame, and a jump has
/// no more than three hundred pixels of it.
pub proof fn lemma_twice_rise(velocity_y: int)
    requires
        JUMP_SPEED <= velocity_y <= TERMINAL_VELOCITY,
    ensures
        0 <= twice_rise(velocity_y) <= 600,
        velocity_y < -1 ==> twice_rise(velocity_y + 1) == twice_rise(velocity_y) + 2 * (velocity_y
            + 1),
        velocity_y >= -1 ==> twice_rise(velocity_y + 1) == 0 && twice_rise(velocity_y) == 0,
        twice_rise(JUMP_SPEED as int) == 600,
{
    assert(-25 <= velocity_y < 0 ==> 0 <= velocity_y * (velocity_y + 1) <= 600) by (nonlinear_arith);
    assert(velocity_y == -1 ==> velocity_y * (velocity_y + 1) == 0) by (nonlinear_arith);
    assert(velocity_y == -25 ==> velocity_y * (velocity_y + 1) == 600) by (nonlinear_arith);
    assert((velocity_y + 1) * (velocity_y + 2) == velocity_y * (velocity_y + 1) + 2 * (velocity_y
        + 1)) by (nonlinear_arith);
}

/// A steady character accepts every steady event and is steady after it.
pub proof fn steady_character_stays_steady(pose: (StateKind, RedHatBoyContext), event: Event)
    requires
        pose_steady(pose),
        event_steady(pose, event),
    ensures
        accepts(pose.0, pose.1, event),
        pose_steady(step(pose.0, pose.1, event)),
{
    lemma_twice_rise(pose.1.velocity.y as int);
    if pose.1.velocity.y < TERMINAL_VELOCITY {
        lemma_twice_rise(pose.1.velocity.y + 1);
    }
}


/// Whether a sprite gives the character a bounding box wherever a steady
/// game has it: at its horizontal place, at the floor and at the highest it
/// can get, and so everywhere between.
pub open spec fn cell_within(cell: Cell) -> bool {
    &&& fits(bounds_of(Point { x: STARTING_POINT, y: AIRBORNE_CEILING }, cell))
    &&& fits(bounds_of(Point { x: STARTING_POINT, y: FLOOR }, cell))
}

/// Whether the sheet has the picture of a state at a frame, and the picture
/// gives the character a bounding box.
pub open spec fn served(sheet: Sheet, kind: StateKind, frame: u8) -> bool {
    match sheet.spec_cell(frame_label(animation_name(kind), frame)) {
        Some(cell) => cell_within(cell),
        None => false,
    }
}

/// Whether the sheet has a picture for every state at every frame that the
/// state's animation reaches.
pub open spec fn sheet_serves(sheet: Sheet) -> bool {
    forall|kind: StateKind, frame: u8|
        frame <= frame_count(kind) ==> #[trigger] served(sheet, kind, frame)
}

/// A steady character has a bounding box in every sheet that serves.
pub proof fn steady_character_has_a_box(sheet: Sheet, pose: (StateKind, RedHatBoyContext))
    requires
        pose_steady(pose),
        sheet_serves(sheet),
    ensures
        has_bounding_box(sheet, pose.0, pose.1),
{
    lemma_twice_rise(pose.1.velocity.y as int);
    assert(served(sheet, pose.0, pose.1.frame));
}

/// Whether a box of an obstacle with the given rightmost extent is where a
/// steady game has it: neither its left nor its right edge lies further
/// left of that extent than the span, its right edge is a coordinate, and
/// its top lies from the highest surface down to the bottom of the screen.
pub open spec fn box_sound(bounding_box: Rect, right: int) -> bool {
    &&& bounding_box.position.x >= right - OBSTACLE_SPAN
    &&& bounding_box.spec_right() >= right - OBSTACLE_SPAN
    &&& bounding_box.right_fits()
    &&& HIGHEST_SURFACE <= bounding_box.position.y <= HEIGHT
}

/// Whether an obstacle is as a steady game has it: no part of it lies
/// further left of its rightmost extent than the span, every right edge is
/// a coordinate, and a platform has the tops of its boxes no higher than
/// the highest surface and no lower than the bottom of the screen.
pub open spec fn obstacle_sound(obstacle: ObstacleView) -> bool {
    match obstacle {
        ObstacleView::Platform(platform) => {
            &&& platform.position.x >= platform.right() - OBSTACLE_SPAN
            &&& forall|i: int|
                0 <= i < platform.boxes.len() ==> box_sound(
                    #[trigger] platform.boxes[i],
                    platform.right(),
                )
        },
        ObstacleView::Barrier(image) => {
            &&& image.position.x >= image.bounding_box.spec_right() - OBSTACLE_SPAN
            &&& image.bounding_box.position.x >= image.bounding_box.spec_right() - OBSTACLE_SPAN
            &&& image.bounding_box.right_fits()
        },
    }
}

/// Whether a scroll is one of a steady game: to the left, and no faster
/// than the character runs.
pub open spec fn scroll_steady(dx: int) -> bool {
    -RUNNING_SPEED <= dx <= 0
}

/// A sound obstacle in sight can scroll, stays sound, and takes its
/// rightmost extent along.
pub proof fn sound_obstacle_scrolls(obstacle: ObstacleView, dx: int)
    requires
        obstacle_sound(obstacle),
        obstacle.right() > 0,
        scroll_steady(dx),
    ensures
        obstacle.can_move(dx),
        obstacle.right_fits(),
        obstacle_sound(obstacle.moved(dx)),
        obstacle.moved(dx).right() == obstacle.right() + dx,
{
    match obstacle {
        ObstacleView::Platform(platform) => {
            let moved = platform.moved(dx);
            let right = platform.right();
            rightmost_edge_is_greatest(platform.boxes);
            assert(platform.boxes.len() > 0);
            let at = choose|i: int|
                0 <= i < platform.boxes.len() && (#[trigger] platform.boxes[i]).spec_right()
                    == right;
            assert forall|i: int| 0 <= i < platform.boxes.len() implies i16::MIN <= (
            #[trigger] platform.boxes[i]).position.x + dx <= i16::MAX && platform.boxes[i].right_fits() by {
                assert(box_sound(platform.boxes[i], right));
            }
            assert forall|i: int| 0 <= i < moved.boxes.len() implies (
            #[trigger] moved.boxes[i]).spec_right() == platform.boxes[i].spec_right() + dx by {
                assert(box_sound(platform.boxes[i], right));
            }
            assert(moved.boxes[at].spec_right() == right + dx);
            rightmost_edge_is(moved.boxes, right + dx, at);
            assert forall|i: int| 0 <= i < moved.boxes.len() implies box_sound(
                #[trigger] moved.boxes[i],
                moved.right(),
            ) by {
                assert(box_sound(platform.boxes[i], right));
            }
        },
        ObstacleView::Barrier(image) => {},
    }
}

/// What the search for the first overlapping box finds is one of the boxes.
pub proof fn lemma_first_hit_is_a_box(boxes: Seq<Rect>, target: Rect, from: int)
    requires
        0 <= from,
        first_hit(boxes, target, from) is Some,
    ensures
        exists|i: int| from <= i < boxes.len() && #[trigger] boxes[i] == first_hit(boxes, target, from).unwrap(),
    decreases boxes.len() - from,
{
    if from < boxes.len() {
        if target.spec_intersects(boxes[from]) {
            assert(boxes[from] == first_hit(boxes, target, from).unwrap());
        } else {
            lemma_first_hit_is_a_box(boxes, target, from + 1);
        }
    }
}

/// A steady character can be checked against a sound obstacle, and is
/// steady after the check.
pub proof fn steady_character_meets_obstacle(
    sheet: Sheet,
    pose: (StateKind, RedHatBoyContext),
    obstacle: ObstacleView,
)
    requires
        pose_steady(pose),
        sheet_serves(sheet),
        obstacle_sound(obstacle),
    ensures
        contact_allowed(sheet, pose, obstacle),
        pose_steady(pose_after_contact(sheet, pose, obstacle)),
{
    steady_character_has_a_box(sheet, pose);
    match contact_event(sheet, pose, obstacle) {
        Some(event) => {
            match obstacle {
                ObstacleView::Platform(platform) => {
                    let target = bounding_box_of(sheet, pose.0, pose.1);
                    lemma_first_hit_is_a_box(platform.boxes, target, 0);
                    let i = choose|i: int|
                        0 <= i < platform.boxes.len() && #[trigger] platform.boxes[i] == first_hit(
                            platform.boxes,
                            target,
                            0,
                        ).unwrap();
                    assert(box_sound(platform.boxes[i], platform.right()));
                },
                ObstacleView::Barrier(image) => {},
            }
            steady_character_stays_steady(pose, event);
        },
        None => {},
    }
}

/// Whether every obstacle of the list is sound, in sight, and not beyond
/// `mark`.
pub open spec fn all_sound(obstacles: Seq<ObstacleView>, mark: int) -> bool {
    forall|i: int|
        0 <= i < obstacles.len() ==> obstacle_sound(#[trigger] obstacles[i]) && obstacles[i].right()
            <= mark
}

/// Whether every obstacle of the list is in sight.
pub open spec fn all_in_sight(obstacles: Seq<ObstacleView>) -> bool {
    forall|i: int| 0 <= i < obstacles.len() ==> (#[trigger] obstacles[i]).right() > 0
}

/// Pruning keeps sound obstacles sound, and leaves only those in sight.
pub proof fn lemma_pruned_sound(obstacles: Seq<ObstacleView>, mark: int)
    requires
        all_sound(obstacles, mark),
    ensures
        all_sound(pruned(obstacles), mark),
        all_in_sight(pruned(obstacles)),
    decreases obstacles.len(),
{
    if obstacles.len() > 0 {
        let shorter = obstacles.drop_last();
        assert forall|i: int| 0 <= i < shorter.len() implies obstacle_sound(#[trigger] shorter[i])
            && shorter[i].right() <= mark by {
            assert(shorter[i] == obstacles[i]);
        }
        lemma_pruned_sound(shorter, mark);
        let kept = pruned(obstacles);
        assert forall|i: int| 0 <= i < kept.len() implies obstacle_sound(#[trigger] kept[i])
            && kept[i].right() <= mark && kept[i].right() > 0 by {
            if i < pruned(shorter).len() {
                assert(kept[i] == pruned(shorter)[i]);
            } else {
                assert(kept[i] == obstacles[obstacles.len() - 1]);
            }
        }
    }
}

/// A steady character can meet sound obstacles in sight one after the
/// other as they scroll, and is steady after all of them; the obstacles
/// stay sound, and none gets beyond where the mark gets if it scrolls too.
pub proof fn steady_character_meets_obstacles(
    sheet: Sheet,
    pose: (StateKind, RedHatBoyContext),
    obstacles: Seq<ObstacleView>,
    dx: int,
    mark: int,
)
    requires
        pose_steady(pose),
        sheet_serves(sheet),
        all_sound(obstacles, mark),
        all_in_sight(obstacles),
        scroll_steady(dx),
    ensures
        contacts_allowed(sheet, pose, obstacles, dx),
        pose_steady(pose_after_contacts(sheet, pose, obstacles, dx)),
        all_sound(all_moved(obstacles, dx), mark + dx),
    decreases obstacles.len(),
{
    if obstacles.len() > 0 {
        let shorter = obstacles.drop_last();
        assert forall|i: int| 0 <= i < shorter.len() implies obstacle_sound(#[trigger] shorter[i])
            && shorter[i].right() <= mark && shorter[i].right() > 0 by {
            assert(shorter[i] == obstacles[i]);
        }
        steady_character_meets_obstacles(sheet, pose, shorter, dx, mark);
        let last = obstacles[obstacles.len() - 1];
        sound_obstacle_scrolls(last, dx);
        steady_character_meets_obstacle(
            sheet,
            pose_after_contacts(sheet, pose, shorter, dx),
            last.moved(dx),
        );
    }
    assert forall|i: int| 0 <= i < obstacles.len() implies obstacle_sound(
        #[trigger] all_moved(obstacles, dx)[i],
    ) && all_moved(obstacles, dx)[i].right() <= mark + dx by {
        sound_obstacle_scrolls(obstacles[i], dx);
    }
}

/// Whether the two background tiles are as a steady game has them: of one
/// width, which is at least a frame's scroll and at most the widest whose
/// double is a coordinate, side by side, and with the left one across the
/// left edge of the screen.
pub open spec fn tiles_steady(backgrounds: (Image, Image)) -> bool {
    let a = backgrounds.0;
    let b = backgrounds.1;
    let width = a.bounding_box.width;
    &&& a.bounding_box.position.x == a.position.x
    &&& b.bounding_box.position.x == b.position.x
    &&& b.bounding_box.width == width
    &&& RUNNING_SPEED <= width <= BACKGROUND_WIDTH_LIMIT
    &&& {
        ||| b.position.x == a.position.x + width && -width <= a.position.x <= 0
        ||| a.position.x == b.position.x + width && -width <= b.position.x <= 0
    }
}

/// Steady background tiles can scroll and are steady after it.
pub proof fn steady_tiles_scroll(backgrounds: (Image, Image), dx: int)
    requires
        tiles_steady(backgrounds),
        scroll_steady(dx),
    ensures
        can_scroll(backgrounds.0, backgrounds.1, dx),
        tiles_steady(scrolled(backgrounds.0, backgrounds.1, dx)),
{
}


/// Whether the stone is no wider than the widest.
pub open spec fn stone_steady(stone: ImageSize) -> bool {
    stone.width <= STONE_WIDTH_LIMIT
}

/// Whether the world is steady: the character is, its sheet serves it, the
/// sheet of the tiles has the sprites of a platform, the backgrounds are
/// steady, the stone is, the level mark is not negative, and every obstacle
/// is sound and not beyond the mark.
pub open spec fn world_steady(walk: WalkView) -> bool {
    &&& pose_steady(walk.pose)
    &&& sheet_serves(walk.boy_sheet)
    &&& tiles_serve(&walk.obstacle_sheet)
    &&& tiles_steady(walk.backgrounds)
    &&& stone_steady(walk.stone)
    &&& 0 <= walk.timeline
    &&& all_sound(walk.obstacles, walk.timeline as int)
}

/// A segment laid out from `offset_x`, which lies from the buffer up to the
/// buffer beyond the minimum of the mark, fits; its obstacles are sound,
/// and the rightmost extent of the segment is a coordinate at least a
/// platform's width beyond `offset_x`.
pub proof fn segment_is_sound(choice: u8, stone: ImageSize, sheet: &Sheet, offset_x: i16)
    requires
        choice < 2,
        stone_steady(stone),
        tiles_serve(sheet),
        0 <= offset_x < TIMELINE_MINIMUM + OBSTACLE_BUFFER,
    ensures
        segment_fits(choice, stone, sheet, offset_x),
        all_sound(
            segment(choice, stone, sheet, offset_x),
            spec_rightmost(segment(choice, stone, sheet, offset_x)),
        ),
        offset_x + FLOATING_PLATFORM_WIDTH <= spec_rightmost(
            segment(choice, stone, sheet, offset_x),
        ) <= i16::MAX,
{
    let added = segment(choice, stone, sheet, offset_x);
    assert(added.len() == 2);
    rightmost_is_greatest(added);
    let platform = added[1]->Platform_0;
    floating_platform_right(sheet, platform.position);
    assert(platform.boxes.len() == 3);
    assert(added[0]->Barrier_0.bounding_box.spec_right() == added[0]->Barrier_0.position.x
        + stone.width);
    assert forall|i: int| 0 <= i < platform.boxes.len() implies box_sound(
        #[trigger] platform.boxes[i],
        platform.right(),
    ) by {
        assert(i == 0 || i == 1 || i == 2);
    }
    assert(added[0].right_fits());
    assert(added[1].right_fits());
    assert forall|i: int| 0 <= i < added.len() implies (#[trigger] added[i]).right_fits() by {
        assert(i == 0 || i == 1);
    }
    let i = choose|i: int| 0 <= i < added.len() && (#[trigger] added[i]).right() == spec_rightmost(added);
    assert(i == 0 || i == 1);
}

/// A game that starts from assets within the limits starts steady: the
/// character's sheet serves it, the sheet of the tiles has the sprites of a
/// platform, the background is at least as wide as a frame's scroll and no
/// wider than the widest, and the stone is no wider than the widest.
pub proof fn start_is_steady(boy_sheet: Sheet, background: ImageSize, stone: ImageSize, tiles: Sheet)
    requires
        sheet_serves(boy_sheet),
        tiles_serve(&tiles),
        RUNNING_SPEED <= background.width <= BACKGROUND_WIDTH_LIMIT,
        stone_steady(stone),
    ensures
        segment_fits(0, stone, &tiles, 0),
        world_steady(starting_walk(boy_sheet, background, stone, tiles)),
{
    segment_is_sound(0, stone, &tiles, 0);
    lemma_twice_rise(0);
}

/// A steady character takes the player's wishes and a frame, and is steady
/// after them; the scroll that follows is to the left and no faster than
/// the character runs.
pub proof fn steady_character_takes_input(pose: (StateKind, RedHatBoyContext), asked: Controls)
    requires
        pose_steady(pose),
    ensures
        input_accepted(pose, asked),
        pose_steady(pose_after_input(pose, asked)),
        scroll_steady(-pose_after_input(pose, asked).1.velocity.x),
{
    steady_character_stays_steady(pose, Event::Slide);
    let slid = if asked.slide {
        step(pose.0, pose.1, Event::Slide)
    } else {
        pose
    };
    steady_character_stays_steady(slid, Event::Run);
    let run = if asked.run {
        step(slid.0, slid.1, Event::Run)
    } else {
        slid
    };
    steady_character_stays_steady(run, Event::Jump);
    let jumped = if asked.jump {
        step(run.0, run.1, Event::Jump)
    } else {
        run
    };
    steady_character_stays_steady(jumped, Event::Update);
}

/// The game goes on: in a steady world every frame can be computed,
/// whatever the player asks for and whichever segment is picked, and the
/// world is steady after it. In particular the level mark never falls
/// behind an obstacle, and no coordinate ever leaves its range.
pub proof fn steady_world_goes_on(walk: WalkView, asked: Controls, choice: u8)
    requires
        world_steady(walk),
        choice < 2,
    ensures
        walk.can_frame(asked, choice),
        world_steady(walk.after_frame(asked, choice)),
{
    steady_character_takes_input(walk.pose, asked);
    let pose = pose_after_input(walk.pose, asked);
    let dx = walk.scroll_velocity(asked);
    steady_tiles_scroll(walk.backgrounds, dx);
    lemma_pruned_sound(walk.obstacles, walk.timeline as int);
    let kept = pruned(walk.obstacles);
    steady_character_meets_obstacles(walk.boy_sheet, pose, kept, dx, walk.timeline as int);
    let moved = all_moved(kept, dx);
    let scrolled_on = walk.scrolled_on(asked);
    assert(scrolled_on.obstacles == moved);
    if walk.timeline < TIMELINE_MINIMUM {
        segment_is_sound(
            choice,
            walk.stone,
            &walk.obstacle_sheet,
            (walk.timeline + OBSTACLE_BUFFER) as i16,
        );
        let added = segment(
            choice,
            walk.stone,
            &walk.obstacle_sheet,
            (walk.timeline + OBSTACLE_BUFFER) as i16,
        );
        let after = scrolled_on.with_segment(choice);
        assert forall|i: int| 0 <= i < after.obstacles.len() implies obstacle_sound(
            #[trigger] after.obstacles[i],
        ) && after.obstacles[i].right() <= after.timeline by {
            if i < moved.len() {
                assert(after.obstacles[i] == moved[i]);
            } else {
                assert(after.obstacles[i] == added[i - moved.len()]);
            }
        }
    }
}


/// Whether a sprite gives the character a bounding box wherever a steady
/// game has it.
pub fn within(cell: &Cell) -> (ok: bool)
    ensures
        ok == cell_within(*cell),
{
    let low: i32 = i16::MIN as i32;
    let high: i32 = i16::MAX as i32;
    let x: i32 = STARTING_POINT as i32 + cell.sprite_source_size.x as i32 + X_OFFSET as i32;
    let top: i32 = AIRBORNE_CEILING as i32 + cell.sprite_source_size.y as i32 + Y_OFFSET as i32;
    let bottom: i32 = FLOOR as i32 + cell.sprite_source_size.y as i32 + Y_OFFSET as i32;
    let width: i32 = cell.frame.w as i32 - WIDTH_OFFSET as i32;
    let height: i32 = cell.frame.h as i32 - Y_OFFSET as i32;
    low <= x && x <= high && low <= top && top <= high && low <= bottom && bottom <= high && low
        <= width && width <= high && low <= height && height <= high
}

/// Whether the sheet has the pictures of a state at every frame up to
/// `count`, each of which gives the character a bounding box.
pub fn serves_state(sheet: &Sheet, kind: StateKind, count: u8) -> (ok: bool)
    requires
        count < u8::MAX,
    ensures
        ok == forall|frame: u8| frame <= count ==> #[trigger] served(*sheet, kind, frame),
{
    let name = animation_text(kind);
    let mut frame: u8 = 0;
    while frame <= count
        invariant
            frame <= count + 1,
            count < u8::MAX,
            name@ == animation_name(kind),
            forall|earlier: u8| earlier < frame ==> #[trigger] served(*sheet, kind, earlier),
        decreases count + 1 - frame,
    {
        let label = frame_label_text(name, frame);
        match sheet.cell(label.as_str()) {
            Some(cell) => {
                if !within(&cell) {
                    assert(!served(*sheet, kind, frame));
                    return false;
                }
            },
            None => {
                assert(!served(*sheet, kind, frame));
                return false;
            },
        }
        frame += 1;
    }
    true
}

/// Whether the sheet has a picture for every state at every frame that the
/// state's animation reaches.
pub fn serves(sheet: &Sheet) -> (ok: bool)
    ensures
        ok == sheet_serves(*sheet),
{
    let ok = serves_state(sheet, StateKind::Idle, IDLE_FRAMES) && serves_state(
        sheet,
        StateKind::Running,
        RUNNING_FRAMES,
    ) && serves_state(sheet, StateKind::Sliding, SLIDING_FRAMES) && serves_state(
        sheet,
        StateKind::Jumping,
        JUMPING_FRAMES,
    ) && serves_state(sheet, StateKind::Falling, FALLING_FRAMES);
    proof {
        if ok {
            assert forall|kind: StateKind, frame: u8| frame <= frame_count(kind) implies #[trigger] served(
                *sheet,
                kind,
                frame,
            ) by {
                if kind == StateKind::KnockedOut {
                    assert(served(*sheet, StateKind::Falling, frame));
                }
            }
        }
    }
    ok
}


/// Whether the character is steady.
pub fn character_is_steady(machine: &RedHatBoyStateMachine) -> (ok: bool)
    ensures
        ok == pose_steady((machine.spec_kind(), machine.spec_context())),
{
    let kind = machine.kind();
    let context = machine.context();
    let count: u8 = match kind {
        StateKind::Idle => IDLE_FRAMES,
        StateKind::Running => RUNNING_FRAMES,
        StateKind::Sliding => SLIDING_FRAMES,
        StateKind::Jumping => JUMPING_FRAMES,
        StateKind::Falling => FALLING_FRAMES,
        StateKind::KnockedOut => FALLING_FRAMES,
    };
    let idle = match kind {
        StateKind::Idle => true,
        _ => false,
    };
    let on_ground = match kind {
        StateKind::Idle | StateKind::Running | StateKind::Sliding => true,
        _ => false,
    };
    if context.position.x != STARTING_POINT || context.frame > count || context.velocity.x < 0
        || context.velocity.x > RUNNING_SPEED || (idle && context.velocity.x != 0)
        || context.velocity.y < JUMP_SPEED || context.velocity.y > TERMINAL_VELOCITY || (on_ground
        && context.velocity.y < 0) || context.position.y > FLOOR {
        return false;
    }
    let velocity: i32 = context.velocity.y as i32;
    proof {
        assert(-25 <= velocity < 0 ==> 0 <= velocity * (velocity + 1) <= 600) by (nonlinear_arith);
    }
    let rise: i32 = if velocity < 0 {
        velocity * (velocity + 1)
    } else {
        0
    };
    let limit: i32 = if on_ground {
        GROUNDED_CEILING as i32
    } else {
        AIRBORNE_CEILING as i32
    };
    2 * (context.position.y as i32) - rise >= 2 * limit
}

/// Whether the two background tiles are steady.
pub fn backgrounds_are_steady(first: &Image, second: &Image) -> (ok: bool)
    ensures
        ok == tiles_steady((*first, *second)),
{
    let width: i32 = first.bounding_box.width as i32;
    let a: i32 = first.position.x as i32;
    let b: i32 = second.position.x as i32;
    first.bounding_box.position.x == first.position.x && second.bounding_box.position.x
        == second.position.x && second.bounding_box.width == first.bounding_box.width
        && RUNNING_SPEED as i32 <= width && width <= BACKGROUND_WIDTH_LIMIT as i32 && ((b == a
        + width && -width <= a && a <= 0) || (a == b + width && -width <= b && b <= 0))
}

/// Whether a box of an obstacle with the given rightmost extent is sound.
pub fn box_is_sound(bounding_box: &Rect, right: i16) -> (ok: bool)
    ensures
        ok == box_sound(*bounding_box, right as int),
{
    let edge: i32 = bounding_box.position.x as i32 + bounding_box.width as i32;
    let least: i32 = right as i32 - OBSTACLE_SPAN as i32;
    bounding_box.position.x as i32 >= least && edge >= least && i16::MIN as i32 <= edge && edge
        <= i16::MAX as i32 && HIGHEST_SURFACE <= bounding_box.position.y
        && bounding_box.position.y <= HEIGHT
}

/// Whether an obstacle is sound.
pub fn obstacle_is_sound(obstacle: &Obstacle) -> (ok: bool)
    ensures
        ok == obstacle_sound(obstacle@),
{
    match obstacle {
        Obstacle::Barrier(barrier) => {
            let image = barrier.image();
            let edge: i32 = image.bounding_box.position.x as i32 + image.bounding_box.width as i32;
            let least: i32 = edge - OBSTACLE_SPAN as i32;
            image.position.x as i32 >= least && image.bounding_box.position.x as i32 >= least
                && i16::MIN as i32 <= edge && edge <= i16::MAX as i32
        },
        Obstacle::Platform(platform) => {
            let boxes = platform.bounding_boxes();
            let mut n: usize = 0;
            while n < boxes.len()
                invariant
                    n <= boxes@.len(),
                    boxes@ == platform@.boxes,
                    obstacle@ == ObstacleView::Platform(platform@),
                    forall|i: int| 0 <= i < n ==> (#[trigger] boxes@[i]).right_fits(),
                decreases boxes@.len() - n,
            {
                let edge: i32 = boxes[n].position.x as i32 + boxes[n].width as i32;
                if edge < i16::MIN as i32 || edge > i16::MAX as i32 {
                    proof {
                        assert(!boxes@[n as int].right_fits());
                        assert(!box_sound(platform@.boxes[n as int], platform@.right()));
                        assert(!obstacle_sound(ObstacleView::Platform(platform@)));
                    }
                    return false;
                }
                n += 1;
            }
            let right = platform.right();
            if (platform.position().x as i32) < right as i32 - OBSTACLE_SPAN as i32 {
                return false;
            }
            let mut k: usize = 0;
            while k < boxes.len()
                invariant
                    k <= boxes@.len(),
                    boxes@ == platform@.boxes,
                    obstacle@ == ObstacleView::Platform(platform@),
                    right == platform@.right(),
                    forall|i: int| 0 <= i < k ==> box_sound(#[trigger] boxes@[i], right as int),
                decreases boxes@.len() - k,
            {
                if !box_is_sound(&boxes[k], right) {
                    proof {
                        assert(!box_sound(platform@.boxes[k as int], platform@.right()));
                        assert(!obstacle_sound(ObstacleView::Platform(platform@)));
                    }
                    return false;
                }
                k += 1;
            }
            true
        },
    }
}

/// Whether the world is steady.
pub fn is_steady(walk: &Walk) -> (ok: bool)
    ensures
        ok == world_steady(walk@),
{
    if !character_is_steady(&walk.boy.state_machine) || !serves(&walk.boy.sprite_sheet)
        || !serves_floating_platform(&walk.obstacle_sheet) || !backgrounds_are_steady(
        &walk.backgrounds[0],
        &walk.backgrounds[1],
    ) || walk.stone.width > STONE_WIDTH_LIMIT || walk.timeline < 0 {
        return false;
    }
    let ghost all = views(walk.obstacles@);
    let mut n: usize = 0;
    while n < walk.obstacles.len()
        invariant
            n <= walk.obstacles@.len(),
            all == views(walk.obstacles@),
            forall|i: int|
                0 <= i < n ==> obstacle_sound(#[trigger] all[i]) && all[i].right() <= walk.timeline,
        decreases walk.obstacles@.len() - n,
    {
        proof {
            assert(all[n as int] == walk.obstacles@[n as int]@);
        }
        if !obstacle_is_sound(&walk.obstacles[n]) {
            return false;
        }
        proof {
            lemma_sound_fits(all[n as int]);
        }
        if walk.obstacles[n].right() > walk.timeline {
            return false;
        }
        n += 1;
    }
    true
}

/// The right edges of a sound obstacle are coordinates.
pub proof fn lemma_sound_fits(obstacle: ObstacleView)
    requires
        obstacle_sound(obstacle),
    ensures
        obstacle.right_fits(),
{
    match obstacle {
        ObstacleView::Platform(platform) => {
            assert forall|i: int| 0 <= i < platform.boxes.len() implies (
            #[trigger] platform.boxes[i]).right_fits() by {
                assert(box_sound(platform.boxes[i], platform.right()));
            }
        },
        ObstacleView::Barrier(image) => {},
    }
}
} // verus!
