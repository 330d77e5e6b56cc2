//! Plain geometry and sprite metadata shared by the character, the obstacles
//! and the world.

use vstd::prelude::*;
use vstd::string::StringExecFns;

verus! {

/// A point on the integer pixel grid.
#[derive(Clone, Copy, Debug, PartialEq, Eq, Structural)]
pub struct Point {
    pub x: i16,
    pub y: i16,
}

/// An axis-aligned rectangle given by its top-left corner and its extent.
#[derive(Clone, Copy, Debug, PartialEq, Eq, Structural)]
pub struct Rect {
    pub position: Point,
    pub width: i16,
    pub height: i16,
}

impl Rect {
    /// The x-coordinate just past the right edge, as a mathematical integer.
    pub open spec fn spec_right(self) -> int {
        self.position.x + self.width
    }

    /// The y-coordinate just past the bottom edge, as a mathematical integer.
    pub open spec fn spec_bottom(self) -> int {
        self.position.y + self.height
    }

    /// Whether the right edge is representable as a coordinate.
    pub open spec fn right_fits(self) -> bool {
        i16::MIN <= self.spec_right() <= i16::MAX
    }

    /// Whether the bottom edge is representable as a coordinate.
    pub open spec fn bottom_fits(self) -> bool {
        i16::MIN <= self.spec_bottom() <= i16::MAX
    }

    /// Strict overlap of the two rectangles on both axes.
    pub open spec fn spec_intersects(self, other: Rect) -> bool {
        &&& self.position.x < other.spec_right()
        &&& self.spec_right() > other.position.x
        &&& self.position.y < other.spec_bottom()
        &&& self.spec_bottom() > other.position.y
    }

    /// The rectangle moved horizontally by `dx`.
    pub open spec fn shifted(self, dx: int) -> Rect
        recommends
            i16::MIN <= self.position.x + dx <= i16::MAX,
    {
        Rect {
            position: Point { x: (self.position.x + dx) as i16, y: self.position.y },
            width: self.width,
            height: self.height,
        }
    }

    pub fn new(position: Point, width: i16, height: i16) -> (r: Rect)
        ensures
            r == (Rect { position, width, height }),
    {
        Rect { position, width, height }
    }

    pub fn new_from_x_y(x: i16, y: i16, width: i16, height: i16) -> (r: Rect)
        ensures
            r == (Rect { position: Point { x, y }, width, height }),
    {
        Rect { position: Point { x, y }, width, height }
    }

    pub fn x(&self) -> (x: i16)
        ensures
            x == self.position.x,
    {
        self.position.x
    }

    pub fn y(&self) -> (y: i16)
        ensures
            y == self.position.y,
    {
        self.position.y
    }

    pub fn set_x(&mut self, x: i16)
        ensures
            *final(self) == (Rect {
                position: Point { x, y: old(self).position.y },
                width: old(self).width,
                height: old(self).height,
            }),
    {
        self.position.x = x;
    }

    pub fn set_y(&mut self, y: i16)
        ensures
            *final(self) == (Rect {
                position: Point { x: old(self).position.x, y },
                width: old(self).width,
                height: old(self).height,
            }),
    {
        self.position.y = y;
    }

    pub fn right(&self) -> (r: i16)
        requires
            self.right_fits(),
        ensures
            r == self.spec_right(),
    {
        self.position.x + self.width
    }

    pub fn bottom(&self) -> (b: i16)
        requires
            self.bottom_fits(),
        ensures
            b == self.spec_bottom(),
    {
        self.position.y + self.height
    }

    /// Decides overlap without any bound on the operands: the edges are
    /// computed in a wider type.
    pub fn intersects(&self, rect: &Rect) -> (hit: bool)
        ensures
            hit == self.spec_intersects(*rect),
    {
        let self_right: i32 = self.position.x as i32 + self.width as i32;
        let self_bottom: i32 = self.position.y as i32 + self.height as i32;
        let rect_right: i32 = rect.position.x as i32 + rect.width as i32;
        let rect_bottom: i32 = rect.position.y as i32 + rect.height as i32;
        (self.position.x as i32) < rect_right && self_right > rect.position.x as i32
            && (self.position.y as i32) < rect_bottom && self_bottom > rect.position.y as i32
    }
}

/// A rectangle as sprite metadata spells it.
#[derive(Clone, Copy, Debug, PartialEq, Eq, Structural)]
pub struct SheetRect {
    pub x: i16,
    pub y: i16,
    pub w: i16,
    pub h: i16,
}

/// One sprite of a sheet: where it sits in the image, and the offset at which
/// it is rendered.
#[derive(Clone, Copy, Debug, PartialEq, Eq, Structural)]
pub struct Cell {
    pub frame: SheetRect,
    pub sprite_source_size: SheetRect,
}

/// A named sprite.
#[derive(Clone, Debug)]
pub struct SheetEntry {
    pub name: String,
    pub cell: Cell,
}

/// Sprite metadata: frame names with their cells. A lookup returns the first
/// entry that carries the name.
#[derive(Clone, Debug)]
pub struct Sheet {
    pub frames: Vec<SheetEntry>,
}

/// The cell of the first entry from index `from` on whose name is `name`.
pub open spec fn first_named(entries: Seq<SheetEntry>, name: Seq<char>, from: int) -> Option<Cell>
    decreases entries.len() - from,
{
    if from < 0 || from >= entries.len() {
        None
    } else if entries[from].name@ == name {
        Some(entries[from].cell)
    } else {
        first_named(entries, name, from + 1)
    }
}

impl Sheet {
    /// The cell that a lookup of `name` yields.
    pub open spec fn spec_cell(&self, name: Seq<char>) -> Option<Cell> {
        first_named(self.frames@, name, 0)
    }

    pub fn new(frames: Vec<SheetEntry>) -> (sheet: Sheet)
        ensures
            sheet.frames == frames,
    {
        Sheet { frames }
    }

    /// Looks a frame name up.
    pub fn cell(&self, name: &str) -> (found: Option<Cell>)
        ensures
            found == self.spec_cell(name@),
    {
        let wanted = String::from_str(name);
        let mut i: usize = 0;
        while i < self.frames.len()
            invariant
                i <= self.frames.len(),
                wanted@ == name@,
                first_named(self.frames@, name@, 0) == first_named(self.frames@, name@, i as int),
            decreases self.frames.len() - i,
        {
            if self.frames[i].name == wanted {
                return Some(self.frames[i].cell);
            }
            i += 1;
        }
        None
    }
}

/// A positioned picture, reduced to what the rules of the game read: its
/// place and its bounding box.
#[derive(Clone, Copy, Debug, PartialEq, Eq, Structural)]
pub struct Image {
    pub position: Point,
    pub bounding_box: Rect,
}

/// The extent of a picture in pixels.
#[derive(Clone, Copy, Debug, PartialEq, Eq, Structural)]
pub struct ImageSize {
    pub width: i16,
    pub height: i16,
}

impl Image {
    /// The image of a picture of the given extent at `position`.
    pub open spec fn at(size: ImageSize, position: Point) -> Image {
        Image {
            position,
            bounding_box: Rect { position, width: size.width, height: size.height },
        }
    }

    /// An image of the given extent with its top-left corner at `position`.
    pub fn new(size: ImageSize, position: Point) -> (image: Image)
        ensures
            image == Image::at(size, position),
    {
        Image { position, bounding_box: Rect { position, width: size.width, height: size.height } }
    }

    /// The image with its left edge at `x`.
    pub open spec fn with_x(self, x: i16) -> Image {
        Image {
            position: Point { x, y: self.position.y },
            bounding_box: Rect {
                position: Point { x, y: self.bounding_box.position.y },
                width: self.bounding_box.width,
                height: self.bounding_box.height,
            },
        }
    }

    /// Whether the image can move by `dx`: its place and the place of its
    /// box must stay in the range of the coordinates.
    pub open spec fn can_shift(self, dx: int) -> bool {
        &&& i16::MIN <= self.position.x + dx <= i16::MAX
        &&& i16::MIN <= self.bounding_box.position.x + dx <= i16::MAX
    }

    /// The image moved horizontally by `dx`: its place and its box are each
    /// translated by `dx`.
    pub open spec fn shifted(self, dx: int) -> Image {
        Image {
            position: Point { x: (self.position.x + dx) as i16, y: self.position.y },
            bounding_box: self.bounding_box.shifted(dx),
        }
    }

    pub fn bounding_box(&self) -> (b: &Rect)
        ensures
            *b == self.bounding_box,
    {
        &self.bounding_box
    }

    pub fn set_x(&mut self, x: i16)
        ensures
            *final(self) == old(self).with_x(x),
    {
        self.bounding_box.set_x(x);
        self.position.x = x;
    }

    pub fn move_horizontally(&mut self, distance: i16)
        requires
            old(self).can_shift(distance as int),
        ensures
            *final(self) == old(self).shifted(distance as int),
    {
        let x: i16 = self.bounding_box.x() + distance;
        self.bounding_box.set_x(x);
        self.position.x += distance;
    }

    pub fn right(&self) -> (r: i16)
        requires
            self.bounding_box.right_fits(),
        ensures
            r == self.bounding_box.spec_right(),
    {
        self.bounding_box.right()
    }
}


/// The keys that are held down, by their codes.
#[derive(Clone, Debug)]
pub struct KeyState {
    pub pressed: Vec<String>,
}

impl KeyState {
    /// Whether the key with the code `code` is held.
    pub open spec fn spec_is_pressed(&self, code: Seq<char>) -> bool {
        exists|i: int| 0 <= i < self.pressed@.len() && (#[trigger] self.pressed@[i])@ == code
    }

    pub fn new() -> (keys: KeyState)
        ensures
            keys.pressed@.len() == 0,
    {
        KeyState { pressed: Vec::new() }
    }

    pub fn is_pressed(&self, code: &str) -> (held: bool)
        ensures
            held == self.spec_is_pressed(code@),
    {
        let wanted = String::from_str(code);
        let mut i: usize = 0;
        while i < self.pressed.len()
            invariant
                i <= self.pressed@.len(),
                wanted@ == code@,
                forall|k: int| 0 <= k < i ==> (#[trigger] self.pressed@[k])@ != code@,
            decreases self.pressed@.len() - i,
        {
            if self.pressed[i] == wanted {
                return true;
            }
            i += 1;
        }
        false
    }

    /// Marks the key with the code `code` as held.
    pub fn set_pressed(&mut self, code: &str)
        ensures
            final(self).pressed@ == old(self).pressed@.push(final(self).pressed@.last()),
            final(self).pressed@.last()@ == code@,
    {
        self.pressed.push(String::from_str(code));
    }
}

} // verus!
