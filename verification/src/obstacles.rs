//! What the character can land on or run into: platforms made of several
//! boxes, and barriers made of one.

use vstd::prelude::*;
use crate::engine::{Cell, Image, Point, Rect, Sheet};
use crate::red_hat_boy::{DrawCall, Event, RedHatBoy};

verus! {

pub const LOW_PLATFORM: i16 = 420;
pub const HIGH_PLATFORM: i16 = 375;
pub const FIRST_PLATFORM: i16 = 200;

/// A box given relative to a platform, placed at the platform's position.
pub open spec fn placed(relative: Rect, position: Point) -> Rect {
    Rect {
        position: Point {
            x: (relative.position.x + position.x) as i16,
            y: (relative.position.y + position.y) as i16,
        },
        width: relative.width,
        height: relative.height,
    }
}

/// Whether a relative box can be placed at `position`.
pub open spec fn placeable(relative: Rect, position: Point) -> bool {
    &&& i16::MIN <= relative.position.x + position.x <= i16::MAX
    &&& i16::MIN <= relative.position.y + position.y <= i16::MAX
}

/// Whether the sheet has a cell for every one of the names.
pub open spec fn has_cells(sheet: &Sheet, names: Seq<&str>) -> bool {
    forall|i: int| 0 <= i < names.len() ==> sheet.spec_cell((#[trigger] names[i])@) is Some
}

/// The cells of the names, in the order of the names.
pub open spec fn named_cells(sheet: &Sheet, names: Seq<&str>) -> Seq<Cell> {
    Seq::new(names.len(), |i: int| sheet.spec_cell(names[i]@).unwrap())
}

/// The greatest right edge of the boxes; zero where there is none.
pub open spec fn rightmost_edge(boxes: Seq<Rect>) -> int
    decreases boxes.len(),
{
    if boxes.len() == 0 {
        0
    } else if boxes.len() == 1 {
        boxes[0].spec_right()
    } else {
        let before = rightmost_edge(boxes.drop_last());
        if boxes.last().spec_right() >= before {
            boxes.last().spec_right()
        } else {
            before
        }
    }
}

/// The first box, from index `from` on, that overlaps `target`.
pub open spec fn first_hit(boxes: Seq<Rect>, target: Rect, from: int) -> Option<Rect>
    decreases boxes.len() - from,
{
    if from < 0 || from >= boxes.len() {
        None
    } else if target.spec_intersects(boxes[from]) {
        Some(boxes[from])
    } else {
        first_hit(boxes, target, from + 1)
    }
}

/// The summed widths of the first `count` sprites.
pub open spec fn width_before(sprites: Seq<Cell>, count: int) -> int
    decreases count,
{
    if count <= 0 {
        0
    } else {
        width_before(sprites, count - 1) + sprites[count - 1].frame.w
    }
}

/// What a platform is: its reference point, its boxes in stored order, and
/// the sprites it is drawn with, left to right.
pub struct PlatformView {
    pub position: Point,
    pub boxes: Seq<Rect>,
    pub sprites: Seq<Cell>,
}

impl PlatformView {
    /// The rightmost extent: the greatest right edge of the boxes, wherever
    /// in the stored order it stands; zero for a platform without boxes.
    pub open spec fn right(self) -> int {
        rightmost_edge(self.boxes)
    }

    /// Whether the right edge of every box is a coordinate.
    pub open spec fn right_fits(self) -> bool {
        forall|i: int| 0 <= i < self.boxes.len() ==> (#[trigger] self.boxes[i]).right_fits()
    }

    /// Whether the platform can move by `dx`: its reference point and every
    /// box must stay in the range of the coordinates.
    pub open spec fn can_move(self, dx: int) -> bool {
        &&& i16::MIN <= self.position.x + dx <= i16::MAX
        &&& forall|i: int|
            0 <= i < self.boxes.len() ==> i16::MIN <= (#[trigger] self.boxes[i]).position.x + dx
                <= i16::MAX
    }

    /// The platform moved by `dx`, boxes and reference point together.
    pub open spec fn moved(self, dx: int) -> PlatformView {
        PlatformView {
            position: Point { x: (self.position.x + dx) as i16, y: self.position.y },
            boxes: Seq::new(self.boxes.len(), |i: int| self.boxes[i].shifted(dx)),
            sprites: self.sprites,
        }
    }

    /// What contact with the character's box does to the character. Only
    /// the first overlapping box in stored order counts: the character lands
    /// on it when it comes down from above the platform, and is knocked out
    /// otherwise.
    pub open spec fn event_for(self, target: Rect, velocity_y: i16, pos_y: i16) -> Option<Event> {
        match first_hit(self.boxes, target, 0) {
            Some(hit) => if velocity_y > 0 && pos_y < self.position.y {
                Some(Event::Land(hit.position.y))
            } else {
                Some(Event::KnockOut)
            },
            None => None,
        }
    }

    /// Whether the platform's sprites can be laid out side by side.
    pub open spec fn drawable(self) -> bool {
        forall|i: int|
            0 <= i < self.sprites.len() ==> {
                &&& i16::MIN <= #[trigger] width_before(self.sprites, i + 1) <= i16::MAX
                &&& i16::MIN <= self.position.x + width_before(self.sprites, i) <= i16::MAX
            }
    }

    /// The blit of the sprite at index `i`.
    pub open spec fn draw_call(self, i: int) -> DrawCall {
        DrawCall {
            source: Rect {
                position: Point { x: self.sprites[i].frame.x, y: self.sprites[i].frame.y },
                width: self.sprites[i].frame.w,
                height: self.sprites[i].frame.h,
            },
            destination: Rect {
                position: Point {
                    x: (self.position.x + width_before(self.sprites, i)) as i16,
                    y: self.position.y,
                },
                width: self.sprites[i].frame.w,
                height: self.sprites[i].frame.h,
            },
        }
    }
}

/// A surface made of several boxes that the character can land on.
pub struct Platform {
    bounding_boxes: Vec<Rect>,
    sprites: Vec<Cell>,
    position: Point,
}

impl View for Platform {
    type V = PlatformView;

    closed spec fn view(&self) -> PlatformView {
        PlatformView {
            position: self.position,
            boxes: self.bounding_boxes@,
            sprites: self.sprites@,
        }
    }
}

/// Whether the sheet has a cell for every one of the names.
pub fn has_all_cells(sheet: &Sheet, names: &[&str]) -> (ok: bool)
    ensures
        ok == has_cells(sheet, names@),
{
    let mut n: usize = 0;
    while n < names.len()
        invariant
            n <= names@.len(),
            forall|i: int| 0 <= i < n ==> sheet.spec_cell((#[trigger] names@[i])@) is Some,
        decreases names@.len() - n,
    {
        if sheet.cell(names[n]).is_none() {
            proof {
                assert(sheet.spec_cell(names@[n as int]@) is None);
            }
            return false;
        }
        n += 1;
    }
    true
}

impl Platform {
    /// A platform at `position`. Its sprites are those of `sprite_names`,
    /// every one of which the sheet must have; its boxes are
    /// `bounding_boxes`, which are given relative to the platform, placed at
    /// `position`.
    pub fn new(sheet: &Sheet, position: Point, sprite_names: &[&str], bounding_boxes: &[Rect]) -> (platform: Self)
        requires
            has_cells(sheet, sprite_names@),
            forall|i: int|
                0 <= i < bounding_boxes@.len() ==> placeable(#[trigger] bounding_boxes@[i], position),
        ensures
            platform@.position == position,
            platform@.sprites == named_cells(sheet, sprite_names@),
            platform@.boxes == Seq::new(
                bounding_boxes@.len(),
                |i: int| placed(bounding_boxes@[i], position),
            ),
    {
        let mut sprites: Vec<Cell> = Vec::new();
        let mut n: usize = 0;
        while n < sprite_names.len()
            invariant
                n <= sprite_names@.len(),
                has_cells(sheet, sprite_names@),
                sprites@.len() == n,
                forall|i: int|
                    0 <= i < n ==> sprites@[i] == sheet.spec_cell(sprite_names@[i]@).unwrap(),
            decreases sprite_names@.len() - n,
        {
            proof {
                assert(sheet.spec_cell(sprite_names@[n as int]@) is Some);
            }
            let cell = sheet.cell(sprite_names[n]).unwrap();
            sprites.push(cell);
            n += 1;
        }
        proof {
            assert(sprites@ =~= named_cells(sheet, sprite_names@));
        }
        let mut boxes: Vec<Rect> = Vec::new();
        let mut k: usize = 0;
        while k < bounding_boxes.len()
            invariant
                k <= bounding_boxes@.len(),
                boxes@.len() == k,
                forall|i: int|
                    0 <= i < bounding_boxes@.len() ==> placeable(
                        #[trigger] bounding_boxes@[i],
                        position,
                    ),
                forall|i: int| 0 <= i < k ==> boxes@[i] == placed(bounding_boxes@[i], position),
            decreases bounding_boxes@.len() - k,
        {
            let bounding_box = &bounding_boxes[k];
            boxes.push(
                Rect::new_from_x_y(
                    bounding_box.x() + position.x,
                    bounding_box.y() + position.y,
                    bounding_box.width,
                    bounding_box.height,
                ),
            );
            k += 1;
        }
        proof {
            assert(boxes@ =~= Seq::new(
                bounding_boxes@.len(),
                |i: int| placed(bounding_boxes@[i], position),
            ));
        }
        Platform { position, sprites, bounding_boxes: boxes }
    }

    pub fn bounding_boxes(&self) -> (boxes: &Vec<Rect>)
        ensures
            boxes@ == self@.boxes,
    {
        &self.bounding_boxes
    }

    pub fn position(&self) -> (position: Point)
        ensures
            position == self@.position,
    {
        self.position
    }

    /// Whether the platform's sprites can be laid out side by side.
    pub fn can_draw(&self) -> (ok: bool)
        ensures
            ok == self@.drawable(),
    {
        let mut x: i16 = 0;
        let mut n: usize = 0;
        while n < self.sprites.len()
            invariant
                n <= self.sprites@.len(),
                self@.sprites == self.sprites@,
                self@.position == self.position,
                x == width_before(self.sprites@, n as int),
                forall|i: int|
                    0 <= i < n ==> {
                        &&& i16::MIN <= #[trigger] width_before(self.sprites@, i + 1) <= i16::MAX
                        &&& i16::MIN <= self.position.x + width_before(self.sprites@, i) <= i16::MAX
                    },
            decreases self.sprites@.len() - n,
        {
            let place: i32 = self.position.x as i32 + x as i32;
            let next: i32 = x as i32 + self.sprites[n].frame.w as i32;
            proof {
                assert(next == width_before(self.sprites@, n as int + 1));
            }
            if place < i16::MIN as i32 || place > i16::MAX as i32 || next < i16::MIN as i32 || next
                > i16::MAX as i32 {
                return false;
            }
            x = next as i16;
            n += 1;
        }
        true
    }

    /// The blits that draw the platform: its sprites side by side from its
    /// reference point, each as wide as its picture.
    pub fn draw(&self) -> (calls: Vec<DrawCall>)
        requires
            self@.drawable(),
        ensures
            calls@.len() == self@.sprites.len(),
            forall|i: int| 0 <= i < calls@.len() ==> calls@[i] == self@.draw_call(i),
    {
        let mut calls: Vec<DrawCall> = Vec::new();
        let mut x: i16 = 0;
        let mut n: usize = 0;
        while n < self.sprites.len()
            invariant
                n <= self.sprites@.len(),
                self@.drawable(),
                self@.sprites == self.sprites@,
                self@.position == self.position,
                x == width_before(self.sprites@, n as int),
                calls@.len() == n,
                forall|i: int| 0 <= i < n ==> calls@[i] == self@.draw_call(i),
            decreases self.sprites@.len() - n,
        {
            let sprite = &self.sprites[n];
            proof {
                assert(i16::MIN <= width_before(self@.sprites, n as int + 1) <= i16::MAX);
            }
            calls.push(
                DrawCall {
                    source: Rect::new_from_x_y(
                        sprite.frame.x,
                        sprite.frame.y,
                        sprite.frame.w,
                        sprite.frame.h,
                    ),
                    destination: Rect::new_from_x_y(
                        self.position.x + x,
                        self.position.y,
                        sprite.frame.w,
                        sprite.frame.h,
                    ),
                },
            );
            x += sprite.frame.w;
            n += 1;
        }
        calls
    }

    /// Moves the platform by `x`: the reference point and every box.
    pub fn move_horizontally(&mut self, x: i16)
        requires
            old(self)@.can_move(x as int),
        ensures
            final(self)@ == old(self)@.moved(x as int),
    {
        self.position.x += x;
        let mut n: usize = 0;
        while n < self.bounding_boxes.len()
            invariant
                n <= self.bounding_boxes@.len(),
                self.bounding_boxes@.len() == old(self).bounding_boxes@.len(),
                old(self)@.can_move(x as int),
                old(self)@.boxes == old(self).bounding_boxes@,
                self.sprites == old(self).sprites,
                self.position == (Point {
                    x: (old(self).position.x + x) as i16,
                    y: old(self).position.y,
                }),
                forall|i: int|
                    0 <= i < n ==> self.bounding_boxes@[i] == old(self).bounding_boxes@[i].shifted(
                        x as int,
                    ),
                forall|i: int|
                    n <= i < self.bounding_boxes@.len() ==> self.bounding_boxes@[i] == old(
                        self,
                    ).bounding_boxes@[i],
            decreases self.bounding_boxes@.len() - n,
        {
            let mut bounding_box = self.bounding_boxes[n];
            proof {
                assert(old(self)@.boxes[n as int] == bounding_box);
            }
            let moved: i16 = bounding_box.x() + x;
            bounding_box.set_x(moved);
            self.bounding_boxes.set(n, bounding_box);
            n += 1;
        }
        proof {
            assert(self@.boxes =~= old(self)@.moved(x as int).boxes);
        }
    }

    /// Decides what contact does to the character, and tells the character.
    /// The platform itself never changes.
    pub fn check_intersection(&self, boy: &mut RedHatBoy)
        requires
            self@.boxes.len() > 0 ==> old(boy).bounded(),
            self@.boxes.len() > 0 ==> match self@.event_for(
                old(boy).spec_bounding_box(),
                old(boy).spec_context().velocity.y,
                old(boy).spec_context().position.y,
            ) {
                Some(event) => old(boy).state_machine.accepts(event),
                None => true,
            },
        ensures
            self@.boxes.len() == 0 ==> *final(boy) == *old(boy),
            self@.boxes.len() > 0 ==> match self@.event_for(
                old(boy).spec_bounding_box(),
                old(boy).spec_context().velocity.y,
                old(boy).spec_context().position.y,
            ) {
                Some(event) => final(boy).follows(old(boy), event),
                None => *final(boy) == *old(boy),
            },
    {
        if self.bounding_boxes.len() == 0 {
            return ;
        }
        let target = boy.bounding_box();
        let mut n: usize = 0;
        while n < self.bounding_boxes.len()
            invariant
                n <= self.bounding_boxes@.len(),
                self@.boxes == self.bounding_boxes@,
                self@.position == self.position,
                *boy == *old(boy),
                target == old(boy).spec_bounding_box(),
                match self@.event_for(
                    target,
                    old(boy).spec_context().velocity.y,
                    old(boy).spec_context().position.y,
                ) {
                    Some(event) => old(boy).state_machine.accepts(event),
                    None => true,
                },
                first_hit(self@.boxes, target, 0) == first_hit(self@.boxes, target, n as int),
            decreases self.bounding_boxes@.len() - n,
        {
            if target.intersects(&self.bounding_boxes[n]) {
                let box_to_land_on = self.bounding_boxes[n];
                if boy.velocity_y() > 0 && boy.pos_y() < self.position.y {
                    boy.land_on(box_to_land_on.y());
                } else {
                    boy.knock_out();
                }
                return ;
            }
            n += 1;
        }
    }

    /// The rightmost extent of the platform: the greatest right edge of its
    /// boxes.
    pub fn right(&self) -> (r: i16)
        requires
            self@.right_fits(),
        ensures
            r == self@.right(),
    {
        if self.bounding_boxes.len() == 0 {
            return 0;
        }
        proof {
            assert(self@.boxes[0].right_fits());
        }
        let mut best: i16 = self.bounding_boxes[0].right();
        let mut n: usize = 1;
        while n < self.bounding_boxes.len()
            invariant
                1 <= n <= self.bounding_boxes@.len(),
                self@.boxes == self.bounding_boxes@,
                self@.right_fits(),
                best == rightmost_edge(self.bounding_boxes@.take(n as int)),
            decreases self.bounding_boxes@.len() - n,
        {
            proof {
                assert(self@.boxes[n as int].right_fits());
            }
            let r = self.bounding_boxes[n].right();
            proof {
                let longer = self.bounding_boxes@.take(n + 1);
                assert(longer.drop_last() =~= self.bounding_boxes@.take(n as int));
                assert(longer.last() == self.bounding_boxes@[n as int]);
            }
            if r >= best {
                best = r;
            }
            n += 1;
        }
        proof {
            assert(self.bounding_boxes@.take(n as int) =~= self.bounding_boxes@);
        }
        best
    }
}

/// A single hazardous volume.
pub struct Barrier {
    image: Image,
}

impl View for Barrier {
    type V = Image;

    closed spec fn view(&self) -> Image {
        self.image
    }
}

impl Barrier {
    pub fn new(image: Image) -> (barrier: Self)
        ensures
            barrier@ == image,
    {
        Barrier { image }
    }

    pub fn image(&self) -> (image: Image)
        ensures
            image == self@,
    {
        self.image
    }

    /// Any contact knocks the character out.
    pub fn check_intersection(&self, boy: &mut RedHatBoy)
        requires
            old(boy).bounded(),
        ensures
            old(boy).spec_bounding_box().spec_intersects(self@.bounding_box) ==> final(boy).follows(
                old(boy),
                Event::KnockOut,
            ),
            !old(boy).spec_bounding_box().spec_intersects(self@.bounding_box) ==> *final(boy)
                == *old(boy),
    {
        if boy.bounding_box().intersects(self.image.bounding_box()) {
            boy.knock_out();
        }
    }

    pub fn move_horizontally(&mut self, x: i16)
        requires
            old(self)@.can_shift(x as int),
        ensures
            final(self)@ == old(self)@.shifted(x as int),
    {
        self.image.move_horizontally(x);
    }

    pub fn right(&self) -> (r: i16)
        requires
            self@.bounding_box.right_fits(),
        ensures
            r == self@.bounding_box.spec_right(),
    {
        self.image.right()
    }
}


/// What an obstacle is: a platform or the image of a barrier.
pub enum ObstacleView {
    Platform(PlatformView),
    Barrier(Image),
}

impl ObstacleView {
    /// The rightmost extent of the obstacle.
    pub open spec fn right(self) -> int {
        match self {
            ObstacleView::Platform(platform) => platform.right(),
            ObstacleView::Barrier(image) => image.bounding_box.spec_right(),
        }
    }

    /// Whether the right edge of every box of the obstacle is a coordinate,
    /// and the rightmost extent with them.
    pub open spec fn right_fits(self) -> bool {
        match self {
            ObstacleView::Platform(platform) => platform.right_fits(),
            ObstacleView::Barrier(image) => image.bounding_box.right_fits(),
        }
    }

    /// Whether the obstacle can move by `dx` within the range of the
    /// coordinates.
    pub open spec fn can_move(self, dx: int) -> bool {
        match self {
            ObstacleView::Platform(platform) => platform.can_move(dx),
            ObstacleView::Barrier(image) => image.can_shift(dx),
        }
    }

    /// The obstacle moved by `dx`.
    pub open spec fn moved(self, dx: int) -> ObstacleView {
        match self {
            ObstacleView::Platform(platform) => ObstacleView::Platform(platform.moved(dx)),
            ObstacleView::Barrier(image) => ObstacleView::Barrier(image.shifted(dx)),
        }
    }

    /// Whether a check against this obstacle looks at the character's box
    /// at all: a platform without boxes does not.
    pub open spec fn tests_box(self) -> bool {
        match self {
            ObstacleView::Platform(platform) => platform.boxes.len() > 0,
            ObstacleView::Barrier(_) => true,
        }
    }

    /// What contact with a character of the given box, vertical velocity and
    /// height does to the character; `None` where there is no contact.
    pub open spec fn event_for(self, target: Rect, velocity_y: i16, pos_y: i16) -> Option<Event> {
        match self {
            ObstacleView::Platform(platform) => platform.event_for(target, velocity_y, pos_y),
            ObstacleView::Barrier(image) => if target.spec_intersects(image.bounding_box) {
                Some(Event::KnockOut)
            } else {
                None
            },
        }
    }

    /// What a check against this obstacle tells the character.
    pub open spec fn event_on(self, boy: &RedHatBoy) -> Option<Event> {
        if self.tests_box() {
            self.event_for(
                boy.spec_bounding_box(),
                boy.spec_context().velocity.y,
                boy.spec_context().position.y,
            )
        } else {
            None
        }
    }

    /// Whether the character can be checked against this obstacle: it has a
    /// bounding box where one is looked at, and accepts the event that the
    /// check produces.
    pub open spec fn can_check(self, boy: &RedHatBoy) -> bool {
        &&& self.tests_box() ==> boy.bounded()
        &&& match self.event_on(boy) {
            Some(event) => boy.state_machine.accepts(event),
            None => true,
        }
    }
}

/// Anything in the level that reacts to contact with the character.
pub enum Obstacle {
    Platform(Platform),
    Barrier(Barrier),
}

impl View for Obstacle {
    type V = ObstacleView;

    open spec fn view(&self) -> ObstacleView {
        match self {
            Obstacle::Platform(platform) => ObstacleView::Platform(platform@),
            Obstacle::Barrier(barrier) => ObstacleView::Barrier(barrier@),
        }
    }
}

impl Obstacle {
    /// Tells the character what contact with this obstacle does to it. The
    /// obstacle itself never changes.
    pub fn check_intersection(&self, boy: &mut RedHatBoy)
        requires
            self@.can_check(old(boy)),
        ensures
            match self@.event_on(old(boy)) {
                Some(event) => final(boy).follows(old(boy), event),
                None => *final(boy) == *old(boy),
            },
    {
        match self {
            Obstacle::Platform(platform) => platform.check_intersection(boy),
            Obstacle::Barrier(barrier) => barrier.check_intersection(boy),
        }
    }

    /// Whether the obstacle can be drawn.
    pub fn can_draw(&self) -> (ok: bool)
        ensures
            ok == (self@ is Platform ==> self@->Platform_0.drawable()),
    {
        match self {
            Obstacle::Platform(platform) => platform.can_draw(),
            Obstacle::Barrier(_) => true,
        }
    }

    /// The blits that draw the obstacle. A barrier is one picture, drawn
    /// whole at its place, so it has none of its own to lay out.
    pub fn draw(&self) -> (calls: Vec<DrawCall>)
        requires
            self@ is Platform ==> self@->Platform_0.drawable(),
        ensures
            self@ is Barrier ==> calls@.len() == 0,
            self@ is Platform ==> calls@.len() == self@->Platform_0.sprites.len(),
            self@ is Platform ==> forall|i: int|
                0 <= i < calls@.len() ==> calls@[i] == self@->Platform_0.draw_call(i),
    {
        match self {
            Obstacle::Platform(platform) => platform.draw(),
            Obstacle::Barrier(_) => Vec::new(),
        }
    }

    /// Moves the obstacle by `x`, with everything that belongs to it.
    pub fn move_horizontally(&mut self, x: i16)
        requires
            old(self)@.can_move(x as int),
        ensures
            final(self)@ == old(self)@.moved(x as int),
    {
        match self {
            Obstacle::Platform(platform) => platform.move_horizontally(x),
            Obstacle::Barrier(barrier) => barrier.move_horizontally(x),
        }
    }

    /// The rightmost extent of the obstacle.
    pub fn right(&self) -> (r: i16)
        requires
            self@.right_fits(),
        ensures
            r == self@.right(),
    {
        match self {
            Obstacle::Platform(platform) => platform.right(),
            Obstacle::Barrier(barrier) => barrier.right(),
        }
    }
}


/// The first overlapping box is the one found: where the box at `index`
/// overlaps the target and no box before it does, the search from the
/// start yields that box, whatever comes after it.
pub proof fn first_hit_is_first(boxes: Seq<Rect>, target: Rect, index: int)
    requires
        0 <= index < boxes.len(),
        target.spec_intersects(boxes[index]),
        forall|j: int| 0 <= j < index ==> !target.spec_intersects(#[trigger] boxes[j]),
    ensures
        first_hit(boxes, target, 0) == Some(boxes[index]),
{
    lemma_first_hit_from(boxes, target, index, 0);
}

/// The search from any place up to the first overlapping box yields that
/// box.
pub proof fn lemma_first_hit_from(boxes: Seq<Rect>, target: Rect, index: int, from: int)
    requires
        0 <= from <= index < boxes.len(),
        target.spec_intersects(boxes[index]),
        forall|j: int| 0 <= j < index ==> !target.spec_intersects(#[trigger] boxes[j]),
    ensures
        first_hit(boxes, target, from) == Some(boxes[index]),
    decreases index - from,
{
    if from < index {
        lemma_first_hit_from(boxes, target, index, from + 1);
    }
}

/// Of two boxes that both overlap the character, the one stored first
/// decides: the character lands on it, or is knocked out, as if the other
/// were not there.
pub proof fn first_box_decides(platform: PlatformView, target: Rect, velocity_y: i16, pos_y: i16)
    requires
        platform.boxes.len() >= 2,
        target.spec_intersects(platform.boxes[0]),
        target.spec_intersects(platform.boxes[1]),
    ensures
        velocity_y > 0 && pos_y < platform.position.y ==> platform.event_for(
            target,
            velocity_y,
            pos_y,
        ) == Some(Event::Land(platform.boxes[0].position.y)),
        !(velocity_y > 0 && pos_y < platform.position.y) ==> platform.event_for(
            target,
            velocity_y,
            pos_y,
        ) == Some(Event::KnockOut),
{
}


/// The rightmost extent of a platform is the greatest right edge among its
/// boxes: no box reaches further, and where there is a box, one reaches as
/// far. The stored order has no part in it.
pub proof fn rightmost_edge_is_greatest(boxes: Seq<Rect>)
    ensures
        forall|i: int| 0 <= i < boxes.len() ==> (#[trigger] boxes[i]).spec_right() <= rightmost_edge(boxes),
        boxes.len() > 0 ==> exists|i: int|
            0 <= i < boxes.len() && (#[trigger] boxes[i]).spec_right() == rightmost_edge(boxes),
    decreases boxes.len(),
{
    if boxes.len() > 1 {
        let shorter = boxes.drop_last();
        rightmost_edge_is_greatest(shorter);
        assert forall|i: int| 0 <= i < boxes.len() implies (#[trigger] boxes[i]).spec_right()
            <= rightmost_edge(boxes) by {
            if i < shorter.len() {
                assert(shorter[i] == boxes[i]);
            }
        }
        if boxes.last().spec_right() >= rightmost_edge(shorter) {
            assert(boxes[boxes.len() - 1].spec_right() == rightmost_edge(boxes));
        } else {
            let i = choose|i: int|
                0 <= i < shorter.len() && (#[trigger] shorter[i]).spec_right() == rightmost_edge(shorter);
            assert(boxes[i].spec_right() == rightmost_edge(boxes));
        }
    } else if boxes.len() == 1 {
        assert(boxes[0].spec_right() == rightmost_edge(boxes));
    }
}

/// A number that no right edge exceeds and that one right edge attains is
/// the rightmost extent.
pub proof fn rightmost_edge_is(boxes: Seq<Rect>, edge: int, at: int)
    requires
        0 <= at < boxes.len(),
        boxes[at].spec_right() == edge,
        forall|i: int| 0 <= i < boxes.len() ==> (#[trigger] boxes[i]).spec_right() <= edge,
    ensures
        rightmost_edge(boxes) == edge,
{
    rightmost_edge_is_greatest(boxes);
    let i = choose|i: int|
        0 <= i < boxes.len() && (#[trigger] boxes[i]).spec_right() == rightmost_edge(boxes);
    assert(boxes[i].spec_right() <= edge);
    assert(boxes[at].spec_right() <= rightmost_edge(boxes));
}
} // verus!
