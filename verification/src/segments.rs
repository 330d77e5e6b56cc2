//! The two fixed arrangements of obstacles that the level is made of.

use vstd::prelude::*;
use crate::engine::{Image, ImageSize, Point, Rect, Sheet};
use crate::obstacles::{
    has_cells, named_cells, placed, rightmost_edge_is, Barrier, Obstacle, ObstacleView, Platform, PlatformView, FIRST_PLATFORM,
    HIGH_PLATFORM, LOW_PLATFORM,
};

verus! {

pub const INITIAL_STONE_OFFSET: i16 = 150;
pub const STONE_ON_GROUND: i16 = 520;

/// The width of a floating platform, from the left edge of its first box to
/// the right edge of its last.
pub const FLOATING_PLATFORM_WIDTH: i16 = 384;

/// The distance from a floating platform's place to the left edge of its
/// last box.
pub const FLOATING_PLATFORM_LAST_BOX: i16 = 324;

/// The names of the three sprites of a floating platform, left to right.
pub open spec fn floating_platform_sprite_names() -> Seq<&'static str> {
    seq!["13.png", "14.png", "15.png"]
}

/// The three boxes of a floating platform relative to its place: left cap,
/// middle span, right cap.
pub open spec fn floating_platform_boxes() -> Seq<Rect> {
    seq![
        Rect { position: Point { x: 0, y: 0 }, width: 60, height: 54 },
        Rect { position: Point { x: 60, y: 0 }, width: 264, height: 93 },
        Rect { position: Point { x: 324, y: 0 }, width: 60, height: 54 },
    ]
}

/// A floating platform at `position`.
pub open spec fn floating_platform(sheet: &Sheet, position: Point) -> PlatformView {
    PlatformView {
        position,
        boxes: Seq::new(3, |i: int| placed(floating_platform_boxes()[i], position)),
        sprites: named_cells(sheet, floating_platform_sprite_names()),
    }
}

/// Whether a floating platform can stand at `position`: its last box must
/// begin within the range of the coordinates.
pub open spec fn floating_platform_fits(position: Point) -> bool {
    position.x + FLOATING_PLATFORM_LAST_BOX <= i16::MAX
}

/// Whether the sheet has the three sprites of a floating platform.
pub open spec fn tiles_serve(sheet: &Sheet) -> bool {
    has_cells(sheet, floating_platform_sprite_names())
}

/// Whether the sheet has the three sprites of a floating platform.
pub fn serves_floating_platform(sheet: &Sheet) -> (ok: bool)
    ensures
        ok == tiles_serve(sheet),
{
    let ok = sheet.cell("13.png").is_some() && sheet.cell("14.png").is_some() && sheet.cell(
        "15.png",
    ).is_some();
    proof {
        let names = floating_platform_sprite_names();
        assert(names[0] == "13.png" && names[1] == "14.png" && names[2] == "15.png");
        if ok {
            assert forall|i: int| 0 <= i < names.len() implies sheet.spec_cell(
                (#[trigger] names[i])@,
            ) is Some by {
                assert(i == 0 || i == 1 || i == 2);
            }
        }
    }
    ok
}

/// The rightmost extent of a floating platform lies its width right of its
/// place.
pub proof fn floating_platform_right(sheet: &Sheet, position: Point)
    requires
        floating_platform_fits(position),
    ensures
        floating_platform(sheet, position).right() == position.x + FLOATING_PLATFORM_WIDTH,
        floating_platform(sheet, position).right_fits() <==> position.x + FLOATING_PLATFORM_WIDTH
            <= i16::MAX,
{
    let boxes = floating_platform(sheet, position).boxes;
    assert(boxes.len() == 3);
    assert forall|i: int| 0 <= i < boxes.len() implies (#[trigger] boxes[i]).spec_right()
        <= position.x + FLOATING_PLATFORM_WIDTH by {
        assert(i == 0 || i == 1 || i == 2);
    }
    rightmost_edge_is(boxes, position.x + FLOATING_PLATFORM_WIDTH, 2);
    if position.x + FLOATING_PLATFORM_WIDTH <= i16::MAX {
        assert forall|i: int| 0 <= i < boxes.len() implies (#[trigger] boxes[i]).right_fits() by {
            assert(i == 0 || i == 1 || i == 2);
        }
    } else {
        assert(!boxes[2].right_fits());
    }
}

/// The stone on the ground at the horizontal place `x`.
pub open spec fn stone_at(stone: ImageSize, x: int) -> ObstacleView {
    ObstacleView::Barrier(Image::at(stone, Point { x: x as i16, y: STONE_ON_GROUND }))
}

/// The arrangement with the stone first: the stone, then a low platform.
pub open spec fn spec_stone_and_platform(stone: ImageSize, sheet: &Sheet, offset_x: i16) -> Seq<
    ObstacleView,
> {
    seq![
        stone_at(stone, offset_x + INITIAL_STONE_OFFSET),
        ObstacleView::Platform(
            floating_platform(
                sheet,
                Point { x: (offset_x + FIRST_PLATFORM) as i16, y: LOW_PLATFORM },
            ),
        ),
    ]
}

/// The arrangement with the platform first: a high platform, and the stone
/// behind its left end.
pub open spec fn spec_platform_and_stone(stone: ImageSize, sheet: &Sheet, offset_x: i16) -> Seq<
    ObstacleView,
> {
    seq![
        stone_at(stone, offset_x + FIRST_PLATFORM),
        ObstacleView::Platform(
            floating_platform(
                sheet,
                Point { x: (offset_x + INITIAL_STONE_OFFSET) as i16, y: HIGH_PLATFORM },
            ),
        ),
    ]
}

/// Whether the stone-first arrangement can be built at `offset_x` from the
/// sprites of `sheet`.
pub open spec fn stone_and_platform_fits(sheet: &Sheet, offset_x: i16) -> bool {
    &&& tiles_serve(sheet)
    &&& i16::MIN <= offset_x + INITIAL_STONE_OFFSET
    &&& offset_x + FIRST_PLATFORM + FLOATING_PLATFORM_LAST_BOX <= i16::MAX
}

/// Whether the platform-first arrangement can be built at `offset_x` from
/// the sprites of `sheet`.
pub open spec fn platform_and_stone_fits(sheet: &Sheet, offset_x: i16) -> bool {
    &&& tiles_serve(sheet)
    &&& i16::MIN <= offset_x + INITIAL_STONE_OFFSET
    &&& offset_x + INITIAL_STONE_OFFSET + FLOATING_PLATFORM_LAST_BOX <= i16::MAX
}

/// The views of the obstacles of a list, in order.
pub open spec fn views(obstacles: Seq<Obstacle>) -> Seq<ObstacleView> {
    Seq::new(obstacles.len(), |i: int| obstacles[i]@)
}

pub fn create_floating_platform(sprite_sheet: &Sheet, position: Point) -> (platform: Platform)
    requires
        tiles_serve(sprite_sheet),
        floating_platform_fits(position),
    ensures
        platform@ == floating_platform(sprite_sheet, position),
{
    let sprites: [&str; 3] = ["13.png", "14.png", "15.png"];
    let boxes: [Rect; 3] = [
        Rect::new_from_x_y(0, 0, 60, 54),
        Rect::new_from_x_y(60, 0, 384 - (60 * 2), 93),
        Rect::new_from_x_y(384 - 60, 0, 60, 54),
    ];
    proof {
        assert(sprites@ =~= floating_platform_sprite_names());
        assert(boxes@ =~= floating_platform_boxes());
    }
    let platform = Platform::new(sprite_sheet, position, sprites.as_slice(), boxes.as_slice());
    proof {
        assert(platform@.boxes =~= floating_platform(sprite_sheet, position).boxes);
    }
    platform
}

/// A stone at `offset_x + 150` on the ground, and a floating platform at
/// `offset_x + 200`, low above it.
pub fn stone_and_platform(stone: ImageSize, sprite_sheet: &Sheet, offset_x: i16) -> (obstacles: Vec<
    Obstacle,
>)
    requires
        stone_and_platform_fits(sprite_sheet, offset_x),
    ensures
        views(obstacles@) == spec_stone_and_platform(stone, sprite_sheet, offset_x),
{
    let obstacles = vec![
        Obstacle::Barrier(
            Barrier::new(
                Image::new(stone, Point { x: offset_x + INITIAL_STONE_OFFSET, y: STONE_ON_GROUND }),
            ),
        ),
        Obstacle::Platform(
            create_floating_platform(
                sprite_sheet,
                Point { x: offset_x + FIRST_PLATFORM, y: LOW_PLATFORM },
            ),
        ),
    ];
    proof {
        assert(views(obstacles@) =~= spec_stone_and_platform(stone, sprite_sheet, offset_x));
    }
    obstacles
}

/// A stone at `offset_x + 200` on the ground, and a floating platform at
/// `offset_x + 150`, high above it.
pub fn platform_and_stone(stone: ImageSize, sprite_sheet: &Sheet, offset_x: i16) -> (obstacles: Vec<
    Obstacle,
>)
    requires
        platform_and_stone_fits(sprite_sheet, offset_x),
    ensures
        views(obstacles@) == spec_platform_and_stone(stone, sprite_sheet, offset_x),
{
    let obstacles = vec![
        Obstacle::Barrier(
            Barrier::new(
                Image::new(stone, Point { x: offset_x + FIRST_PLATFORM, y: STONE_ON_GROUND }),
            ),
        ),
        Obstacle::Platform(
            create_floating_platform(
                sprite_sheet,
                Point { x: offset_x + INITIAL_STONE_OFFSET, y: HIGH_PLATFORM },
            ),
        ),
    ];
    proof {
        assert(views(obstacles@) =~= spec_platform_and_stone(stone, sprite_sheet, offset_x));
    }
    obstacles
}

} // verus!
