use vstd::prelude::*;
use vstd::string::StringExecFns;

use crate::constants::WORLD_LIMIT;
use crate::level_handler::TileType;
use crate::primitives::{Aabb, Dimensions, Direction, Point2, Rect, Vec2, Vector};

verus! {

/// What an actor is. A ground block carries the column and row of its image
/// in the ground tile sheet.
#[derive(Debug, Clone, Copy, PartialEq, Eq, Structural)]
pub enum ActorType {
    Player,
    GroundBlock { x: usize, y: usize },
}

/// The character of a decimal digit.
pub open spec fn digit_char(d: int) -> char {
    if d == 0 {
        '0'
    } else if d == 1 {
        '1'
    } else if d == 2 {
        '2'
    } else if d == 3 {
        '3'
    } else if d == 4 {
        '4'
    } else if d == 5 {
        '5'
    } else if d == 6 {
        '6'
    } else if d == 7 {
        '7'
    } else if d == 8 {
        '8'
    } else {
        '9'
    }
}

/// A number written in decimal digits, without leading zeros.
pub open spec fn decimal(n: nat) -> Seq<char>
    decreases n,
{
    if n < 10 {
        seq![digit_char(n as int)]
    } else {
        decimal(n / 10) + seq![digit_char((n % 10) as int)]
    }
}

/// The text of a decimal digit.
fn digit_str(d: usize) -> (text: &'static str)
    requires
        d < 10,
    ensures
        text@ == seq![digit_char(d as int)],
{
    proof {
        reveal_strlit("0");
        reveal_strlit("1");
        reveal_strlit("2");
        reveal_strlit("3");
        reveal_strlit("4");
        reveal_strlit("5");
        reveal_strlit("6");
        reveal_strlit("7");
        reveal_strlit("8");
        reveal_strlit("9");
    }
    let text = match d {
        0 => "0",
        1 => "1",
        2 => "2",
        3 => "3",
        4 => "4",
        5 => "5",
        6 => "6",
        7 => "7",
        8 => "8",
        _ => "9",
    };
    assert(text@ =~= seq![digit_char(d as int)]);
    text
}

/// Writes `n` in decimal digits at the end of `out`.
fn append_decimal(out: &mut String, n: usize)
    ensures
        final(out)@ == old(out)@ + decimal(n as nat),
    decreases n,
{
    if n >= 10 {
        append_decimal(out, n / 10);
    }
    out.append(digit_str(n % 10));
    assert(out@ =~= old(out)@ + decimal(n as nat));
}

impl ActorType {
    /// The name of the actor as text: `Player`, or `Ground(x,y)` with the
    /// column and row of the block's image.
    pub open spec fn label(self) -> Seq<char> {
        match self {
            ActorType::Player => "Player"@,
            ActorType::GroundBlock { x, y } => "Ground("@ + decimal(x as nat) + ","@ + decimal(
                y as nat,
            ) + ")"@,
        }
    }

    /// The name of the actor as text.
    pub fn to_string(&self) -> (text: String)
        ensures
            text@ == self.label(),
    {
        match *self {
            ActorType::Player => String::from_str("Player"),
            ActorType::GroundBlock { x, y } => {
                let mut text = String::from_str("Ground(");
                append_decimal(&mut text, x);
                text.append(",");
                append_decimal(&mut text, y);
                text.append(")");
                text
            },
        }
    }
}

/// The mathematical value of an [`Actor`].
pub struct ActorView {
    pub tag: ActorType,
    pub pos: Vector,
    pub facing: Direction,
    pub sprite_size: Vector,
    pub draw_offset: Vector,
    pub bbox: Aabb,
}

impl ActorView {
    /// The rectangle that the sprite is drawn to.
    pub open spec fn draw_rect(self) -> Aabb {
        Aabb {
            x: self.pos.x + self.draw_offset.x,
            y: self.pos.y + self.draw_offset.y,
            w: self.sprite_size.x,
            h: self.sprite_size.y,
        }
    }

    /// The column and row of the sprite sheet cell to draw, where `frame` is
    /// the current frame of the player's animation.
    pub open spec fn tile_offset(self, frame: usize) -> (usize, usize) {
        match self.tag {
            ActorType::Player => (frame, 0),
            ActorType::GroundBlock { x, y } => (x, y),
        }
    }

    /// The ground block showing cell `(tile_x, tile_y)` of the tile sheet,
    /// placed at column `x` and row `y` of a grid of cells of size `size`.
    pub open spec fn ground(
        tile_x: usize,
        tile_y: usize,
        x: int,
        y: int,
        size: Vector,
    ) -> ActorView {
        ActorView {
            tag: ActorType::GroundBlock { x: tile_x, y: tile_y },
            pos: Vector { x: x * size.x, y: y * size.y },
            facing: Direction::Right,
            sprite_size: size,
            draw_offset: Vector { x: 0, y: 0 },
            bbox: Aabb { x: x * size.x, y: y * size.y, w: size.x, h: size.y },
        }
    }

    /// The bounding box starts at the position and has positive extents, and
    /// every coordinate and extent is within the world limit.
    pub open spec fn wf(self) -> bool {
        &&& self.bbox.origin() == self.pos
        &&& self.bbox.solid()
        &&& -WORLD_LIMIT <= self.pos.x <= WORLD_LIMIT
        &&& -WORLD_LIMIT <= self.pos.y <= WORLD_LIMIT
        &&& self.bbox.w <= WORLD_LIMIT
        &&& self.bbox.h <= WORLD_LIMIT
        &&& 0 <= self.sprite_size.x <= WORLD_LIMIT
        &&& 0 <= self.sprite_size.y <= WORLD_LIMIT
        &&& -WORLD_LIMIT <= self.draw_offset.x <= WORLD_LIMIT
        &&& -WORLD_LIMIT <= self.draw_offset.y <= WORLD_LIMIT
    }
}

/// Game space is measured in length units, with the y axis pointing up:
/// `(0, 0)` is the bottom left corner of the level. An actor's position is
/// the bottom left corner of its bounding box.
#[derive(Debug, Clone, Copy)]
pub struct Actor {
    pub tag: ActorType,
    /// Bottom left corner of the bounding box.
    pub pos: Point2,
    pub facing: Direction,
    /// Size at which the sprite is drawn.
    pub sprite_size: Dimensions,
    /// Where the sprite is drawn, relative to the position.
    pub draw_offset: Point2,
    /// Bounding box used for collisions. Its extents never change.
    pub bbox: Rect,
}

impl View for Actor {
    type V = ActorView;

    open spec fn view(&self) -> ActorView {
        ActorView {
            tag: self.tag,
            pos: self.pos@,
            facing: self.facing,
            sprite_size: self.sprite_size@,
            draw_offset: self.draw_offset@,
            bbox: self.bbox@,
        }
    }
}

impl Actor {
    /// See [`ActorView::wf`].
    pub open spec fn wf(&self) -> bool {
        self@.wf()
    }

    /// Whether the actor is well formed.
    pub fn is_valid(&self) -> (ok: bool)
        ensures
            ok == self.wf(),
    {
        self.bbox.x == self.pos.x && self.bbox.y == self.pos.y && 0 < self.bbox.w && self.bbox.w
            <= WORLD_LIMIT && 0 < self.bbox.h && self.bbox.h <= WORLD_LIMIT && -WORLD_LIMIT
            <= self.pos.x && self.pos.x <= WORLD_LIMIT && -WORLD_LIMIT <= self.pos.y
            && self.pos.y <= WORLD_LIMIT && 0 <= self.sprite_size.x && self.sprite_size.x
            <= WORLD_LIMIT && 0 <= self.sprite_size.y && self.sprite_size.y <= WORLD_LIMIT
            && -WORLD_LIMIT <= self.draw_offset.x && self.draw_offset.x <= WORLD_LIMIT
            && -WORLD_LIMIT <= self.draw_offset.y && self.draw_offset.y <= WORLD_LIMIT
    }

    /// Builds the ground block for `tile` at column `x` and row `y` of a grid
    /// whose cells have the size `size`; row 0 is the bottom row.
    pub fn create_ground(tile: &TileType, x: usize, y: usize, size: Dimensions) -> (actor: Actor)
        requires
            size.x > 0,
            size.y > 0,
            (x + 1) * size.x <= WORLD_LIMIT,
            (y + 1) * size.y <= WORLD_LIMIT,
        ensures
            actor@ == ActorView::ground(tile.x, tile.y, x as int, y as int, size@),
            actor.wf(),
    {
        proof {
            assert(0 <= x * size.x && x * size.x + size.x == (x + 1) * size.x) by (nonlinear_arith)
                requires
                    x >= 0,
                    size.x > 0,
            ;
            assert(0 <= y * size.y && y * size.y + size.y == (y + 1) * size.y) by (nonlinear_arith)
                requires
                    y >= 0,
                    size.y > 0,
            ;
        }
        let px: i64 = (x as i128 * size.x as i128) as i64;
        let py: i64 = (y as i128 * size.y as i128) as i64;
        Actor {
            tag: ActorType::GroundBlock { x: tile.x, y: tile.y },
            pos: Vec2 { x: px, y: py },
            facing: Direction::Right,
            sprite_size: size,
            draw_offset: Vec2 { x: 0, y: 0 },
            bbox: Rect { x: px, y: py, w: size.x, h: size.y },
        }
    }

    /// Moves the bounding box to the current position. Its extents stay.
    pub fn update_bbox(&mut self)
        ensures
            final(self)@ == (ActorView { bbox: old(self)@.bbox.at(old(self)@.pos), ..old(self)@ }),
    {
        self.bbox.x = self.pos.x;
        self.bbox.y = self.pos.y;
    }

    /// The rectangle, in game space, that the sprite is drawn to.
    pub fn draw_rect(&self) -> (r: Rect)
        requires
            self.wf(),
        ensures
            r@ == self@.draw_rect(),
    {
        Rect {
            x: self.pos.x + self.draw_offset.x,
            y: self.pos.y + self.draw_offset.y,
            w: self.sprite_size.x,
            h: self.sprite_size.y,
        }
    }

    /// The column and row of the sprite sheet cell that shows this actor.
    /// For the player the column is `frame`, the current frame of its
    /// animation; a ground block names its own cell.
    pub fn tile_offset(&self, frame: usize) -> (cell: (usize, usize))
        ensures
            cell == self@.tile_offset(frame),
    {
        match self.tag {
            ActorType::Player => (frame, 0),
            ActorType::GroundBlock { x, y } => (x, y),
        }
    }
}

} // verus!
