//! Fixed geometry of the arena, in display units.
//!
//! The arena is a square of side `ARENA_SIZE`, symmetric under the half turn
//! about its centre: whatever stands at `(x, y)` for the bottom player stands
//! at `(ARENA_SIZE - x, ARENA_SIZE - y)` for the top player.

use vstd::prelude::*;

verus! {

/// Side of the arena.
pub const ARENA_SIZE: i32 = 1000;

/// The vertical line that splits the arena in a left and a right half.
pub const ARENA_CENTER: i32 = 500;

/// Display units per simulation unit.
pub const PHYSICS_SCALE: i32 = 20;

/// Ticks per second of the fixed timestep.
pub const TICKS_PER_SECOND: u32 = 60;

/// Port on which the server listens.
pub const SERVER_PORT: u16 = 1212;

/// A point of the arena.
#[derive(Clone, Copy, Debug, PartialEq, Eq, Structural)]
pub struct Position {
    pub y: i32,
    pub x: i32,
}

/// An axis-aligned rectangle, given by its centre and its full extents.
#[derive(Clone, Copy, Debug, PartialEq, Eq, Structural)]
pub struct Rect {
    pub y: i32,
    pub x: i32,
    pub h: i32,
    pub w: i32,
}

/// The two places a power pad can occupy.
#[derive(Clone, Copy, Debug, PartialEq, Eq, Structural)]
pub struct PowerPadPositions {
    pub left: Position,
    pub right: Position,
}

/// Full extents of a box.
#[derive(Clone, Copy, Debug, PartialEq, Eq, Structural)]
pub struct Size {
    pub w: i32,
    pub h: i32,
}

/// Where the bottom player starts each round.
pub open spec fn bottom_start() -> Position {
    Position { y: 400, x: 150 }
}

/// Where the top player starts each round.
pub open spec fn top_start() -> Position {
    Position { y: 600, x: 850 }
}

/// The two places of the bottom pad.
pub open spec fn bottom_pad_places() -> PowerPadPositions {
    PowerPadPositions { left: Position { x: 150, y: 295 }, right: Position { x: 850, y: 295 } }
}

/// The two places of the top pad.
pub open spec fn top_pad_places() -> PowerPadPositions {
    PowerPadPositions { left: Position { x: 150, y: 705 }, right: Position { x: 850, y: 705 } }
}

#[verifier::when_used_as_spec(bottom_start)]
pub fn bottom_start_position() -> (p: Position)
    ensures
        p == bottom_start(),
{
    Position { y: 400, x: 150 }
}

#[verifier::when_used_as_spec(top_start)]
pub fn top_start_position() -> (p: Position)
    ensures
        p == top_start(),
{
    Position { y: 600, x: 850 }
}

#[verifier::when_used_as_spec(bottom_pad_places)]
pub fn bottom_power_pad_positions() -> (places: PowerPadPositions)
    ensures
        places == bottom_pad_places(),
{
    PowerPadPositions { left: Position { x: 150, y: 295 }, right: Position { x: 850, y: 295 } }
}

#[verifier::when_used_as_spec(top_pad_places)]
pub fn top_power_pad_positions() -> (places: PowerPadPositions)
    ensures
        places == top_pad_places(),
{
    PowerPadPositions { left: Position { x: 150, y: 705 }, right: Position { x: 850, y: 705 } }
}

/// The bottom pad starts each round on the right.
pub fn starting_bottom_power_pad_position() -> (p: Position)
    ensures
        p == bottom_pad_places().right,
{
    bottom_power_pad_positions().right
}

/// The top pad starts each round on the left.
pub fn starting_top_power_pad_position() -> (p: Position)
    ensures
        p == top_pad_places().left,
{
    top_power_pad_positions().left
}

/// Extents of a power pad.
pub fn power_pad_size() -> (size: Size)
    ensures
        size == (Size { w: 70, h: 10 }),
{
    Size { w: 70, h: 10 }
}

/// Extents of a projectile.
pub fn projectile_size() -> (size: Size)
    ensures
        size == (Size { w: 10, h: 40 }),
{
    Size { w: 10, h: 40 }
}

/// Extents of a player.
pub fn player_size() -> (size: Size)
    ensures
        size == (Size { w: 20, h: 20 }),
{
    Size { w: 20, h: 20 }
}

impl Rect {
    /// The image of the rectangle under the half turn about the arena's centre.
    pub open spec fn mirrored_spec(self) -> RectModel {
        RectModel { y: ARENA_SIZE - self.y, x: ARENA_SIZE - self.x, h: self.h as int, w: self.w as int }
    }

    /// The rectangle as unbounded integers.
    pub open spec fn model(self) -> RectModel {
        RectModel { y: self.y as int, x: self.x as int, h: self.h as int, w: self.w as int }
    }

    /// Whether the mirror image has coordinates that fit the machine integers.
    pub open spec fn mirrorable(self) -> bool {
        &&& ARENA_SIZE - self.x <= i32::MAX
        &&& ARENA_SIZE - self.y <= i32::MAX
    }

    /// Mirrors the rectangle through the arena's centre; extents are kept.
    pub fn mirrored(&self) -> (image: Rect)
        requires
            self.mirrorable(),
        ensures
            image.model() == self.mirrored_spec(),
    {
        Rect { y: ARENA_SIZE - self.y, x: ARENA_SIZE - self.x, h: self.h, w: self.w }
    }
}

/// A rectangle over unbounded integers.
pub struct RectModel {
    pub y: int,
    pub x: int,
    pub h: int,
    pub w: int,
}

/// The solid platforms of the bottom half.
pub open spec fn platform_rects() -> Seq<Rect> {
    seq![
        Rect { y: 250, x: 150, h: 100, w: 100 },
        Rect { y: 150, x: 500, h: 100, w: 800 },
        Rect { y: 250, x: 850, h: 100, w: 100 },
        Rect { y: 270, x: 250, h: 20, w: 40 },
        Rect { y: 230, x: 320, h: 60, w: 20 },
        Rect { y: 250, x: 400, h: 20, w: 60 },
        Rect { y: 260, x: 470, h: 20, w: 20 },
        Rect { y: 250, x: 515, h: 20, w: 20 },
        Rect { y: 270, x: 560, h: 20, w: 20 },
        Rect { y: 240, x: 605, h: 20, w: 20 },
        Rect { y: 220, x: 680, h: 20, w: 80 },
        Rect { y: 260, x: 760, h: 20, w: 20 },
    ]
}

/// The lethal zones of the bottom half.
pub open spec fn lava_rects() -> Seq<Rect> {
    seq![Rect { y: 210, x: 500, h: 20, w: 600 }, Rect { y: 20, x: 500, h: 40, w: 2000 }]
}

/// Every rectangle followed by its mirror image.
pub open spec fn with_mirrors_spec(rects: Seq<Rect>) -> Seq<RectModel> {
    Seq::new(
        2 * rects.len(),
        |i: int|
            if i % 2 == 0 {
                rects[i / 2].model()
            } else {
                rects[i / 2].mirrored_spec()
            },
    )
}

/// The solid platforms of the bottom half, in the order in which the arena is
/// built.
pub fn platforms() -> (rects: Vec<Rect>)
    ensures
        rects@ == platform_rects(),
{
    let rects = vec![
        Rect { y: 250, x: 150, h: 100, w: 100 },
        Rect { y: 150, x: 500, h: 100, w: 800 },
        Rect { y: 250, x: 850, h: 100, w: 100 },
        Rect { y: 270, x: 250, h: 20, w: 40 },
        Rect { y: 230, x: 320, h: 60, w: 20 },
        Rect { y: 250, x: 400, h: 20, w: 60 },
        Rect { y: 260, x: 470, h: 20, w: 20 },
        Rect { y: 250, x: 515, h: 20, w: 20 },
        Rect { y: 270, x: 560, h: 20, w: 20 },
        Rect { y: 240, x: 605, h: 20, w: 20 },
        Rect { y: 220, x: 680, h: 20, w: 80 },
        Rect { y: 260, x: 760, h: 20, w: 20 },
    ];
    assert(rects@ =~= platform_rects());
    rects
}

/// The lethal zones of the bottom half.
pub fn lava() -> (rects: Vec<Rect>)
    ensures
        rects@ == lava_rects(),
{
    let rects = vec![Rect { y: 210, x: 500, h: 20, w: 600 }, Rect { y: 20, x: 500, h: 40, w: 2000 }];
    assert(rects@ =~= lava_rects());
    rects
}

/// Lays out both halves of the arena: each rectangle is followed by its
/// mirror image, in the order given.
pub fn with_mirrors(rects: &Vec<Rect>) -> (both: Vec<Rect>)
    requires
        forall|i: int| 0 <= i < rects.len() ==> (#[trigger] rects[i]).mirrorable(),
        2 * rects.len() <= usize::MAX,
    ensures
        both@.map_values(|r: Rect| r.model()) == with_mirrors_spec(rects@),
{
    let mut both: Vec<Rect> = Vec::new();
    let mut i: usize = 0;
    while i < rects.len()
        invariant
            0 <= i <= rects.len(),
            both.len() == 2 * i,
            forall|k: int| 0 <= k < rects.len() ==> (#[trigger] rects[k]).mirrorable(),
            forall|j: int|
                0 <= j < both.len() ==> (#[trigger] both[j]).model() == with_mirrors_spec(
                    rects@,
                )[j],
        decreases rects.len() - i,
    {
        let rect = rects[i];
        let image = rect.mirrored();
        both.push(rect);
        both.push(image);
        proof {
            let j0 = 2 * i as int;
            assert(j0 % 2 == 0 && j0 / 2 == i as int);
            assert((j0 + 1) % 2 == 1 && (j0 + 1) / 2 == i as int);
            assert(both[j0] == rect);
            assert(both[j0 + 1] == image);
        }
        i += 1;
    }
    proof {
        let got = both@.map_values(|r: Rect| r.model());
        assert(got =~= with_mirrors_spec(rects@));
    }
    both
}

} // verus!
