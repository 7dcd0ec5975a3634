use vstd::arithmetic::div_mod::lemma_fundamental_div_mod_converse;
use vstd::prelude::*;

verus! {

/// Side of one grid cell, in milli-pixels (64 pixels).
pub const GRID_SIZE: i64 = 64_000;

/// Width of the field, in cells.
pub const FIELD_WIDTH: i32 = 10;

/// Height of the field, in cells.
pub const FIELD_HEIGHT: i32 = 10;

/// Largest grid size that the coordinate conversions accept.
pub const MAX_GRID_SIZE: i64 = 0x4000_0000;

/// A cell of the field.
#[derive(Debug, Clone, Copy, PartialEq, Eq, Hash, Structural)]
pub struct GridPosition {
    pub x: i32,
    pub y: i32,
}

impl GridPosition {
    pub fn new(x: i32, y: i32) -> (r: Self)
        ensures
            r.x == x,
            r.y == y,
    {
        GridPosition { x, y }
    }
}

/// A point of the continuous world, in milli-pixels.
#[derive(Debug, Clone, Copy, PartialEq, Eq, Hash, Structural)]
pub struct WorldPosition {
    pub x: i64,
    pub y: i64,
}

/// A colour; each channel in thousandths.
#[derive(Debug, Clone, Copy, PartialEq, Eq, Hash, Structural)]
pub struct Color {
    pub r: u32,
    pub g: u32,
    pub b: u32,
}

/// One of the four cardinal directions of travel.
#[derive(Debug, Clone, Copy, PartialEq, Eq, Hash, Structural)]
pub enum Direction {
    Up,
    Down,
    Left,
    Right,
}

pub open spec fn unit_x(d: Direction) -> int {
    match d {
        Direction::Left => -1,
        Direction::Right => 1,
        _ => 0,
    }
}

pub open spec fn unit_y(d: Direction) -> int {
    match d {
        Direction::Up => 1,
        Direction::Down => -1,
        _ => 0,
    }
}

pub open spec fn clockwise(d: Direction) -> Direction {
    match d {
        Direction::Up => Direction::Right,
        Direction::Right => Direction::Down,
        Direction::Down => Direction::Left,
        Direction::Left => Direction::Up,
    }
}

impl Direction {
    /// The unit step of this direction, as `(dx, dy)`; y grows upwards.
    pub fn to_vector(self) -> (r: (i64, i64))
        ensures
            r.0 == unit_x(self),
            r.1 == unit_y(self),
    {
        match self {
            Direction::Up => (0, 1),
            Direction::Down => (0, -1),
            Direction::Left => (-1, 0),
            Direction::Right => (1, 0),
        }
    }

    /// This direction turned a quarter turn clockwise.
    pub fn rotate_clockwise(self) -> (r: Self)
        ensures
            r == clockwise(self),
    {
        match self {
            Direction::Up => Direction::Right,
            Direction::Right => Direction::Down,
            Direction::Down => Direction::Left,
            Direction::Left => Direction::Up,
        }
    }
}

/// World coordinate of the centre of cell `c` on an axis of `w` cells of size `g`,
/// the field being centred on the origin: `(c - w / 2 + 1 / 2) * g`, rounded down.
pub open spec fn cell_centre(c: int, g: int, w: int) -> int {
    ((2 * c - w + 1) * g) / 2
}

pub open spec fn clamp_i32(v: int) -> int {
    if v < i32::MIN {
        i32::MIN as int
    } else if v > i32::MAX {
        i32::MAX as int
    } else {
        v
    }
}

/// Cell index of world coordinate `p` on an axis of `w` cells of size `g`:
/// `floor(p / g + w / 2)`, saturated to the range of `i32`.
pub open spec fn cell_of(p: int, g: int, w: int) -> int {
    clamp_i32((2 * p + w * g) / (2 * g))
}

pub open spec fn grid_size_ok(g: int) -> bool {
    0 < g <= MAX_GRID_SIZE
}

pub open spec fn in_field(p: GridPosition, w: int, h: int) -> bool {
    0 <= p.x < w && 0 <= p.y < h
}

/// Floor division of `n` by a positive `d`.
pub(crate) fn floor_div(n: i128, d: i128) -> (r: i128)
    requires
        d > 0,
        -0x10_0000_0000_0000_0000_0000_0000 <= n <= 0x10_0000_0000_0000_0000_0000_0000,
        d <= 0x1_0000_0000_0000_0000,
    ensures
        r == n / d,
{
    if n >= 0 {
        n / d
    } else {
        let m: i128 = -n;
        let q: i128 = (m + d - 1) / d;
        assert(-(q as int) == (n as int) / (d as int)) by (nonlinear_arith)
            requires
                m as int == -(n as int),
                n < 0,
                d > 0,
                q as int == (m as int + d as int - 1) / (d as int),
        {
        }
        -q
    }
}

/// Centre of `grid_pos` in world coordinates, for a field of `field_width` by
/// `field_height` cells of side `grid_size`, centred on the origin.
pub fn grid_to_world(grid_pos: GridPosition, grid_size: i64, field_width: i32, field_height: i32) -> (r:
    WorldPosition)
    requires
        grid_size_ok(grid_size as int),
    ensures
        r.x == cell_centre(grid_pos.x as int, grid_size as int, field_width as int),
        r.y == cell_centre(grid_pos.y as int, grid_size as int, field_height as int),
{
    let g = grid_size as i128;
    let tx = 2 * (grid_pos.x as i128) - (field_width as i128) + 1;
    let ty = 2 * (grid_pos.y as i128) - (field_height as i128) + 1;
    assert(-0x1_8000_0000 <= tx <= 0x1_8000_0000 && -0x1_8000_0000 <= ty <= 0x1_8000_0000);
    assert(-0x6000_0000_0000_0000 <= tx * g <= 0x6000_0000_0000_0000) by (nonlinear_arith)
        requires
            -0x1_8000_0000 <= tx <= 0x1_8000_0000,
            0 < g <= 0x4000_0000,
    {
    }
    assert(-0x6000_0000_0000_0000 <= ty * g <= 0x6000_0000_0000_0000) by (nonlinear_arith)
        requires
            -0x1_8000_0000 <= ty <= 0x1_8000_0000,
            0 < g <= 0x4000_0000,
    {
    }
    let nx = tx * g;
    let ny = ty * g;
    let x = floor_div(nx, 2);
    let y = floor_div(ny, 2);
    WorldPosition { x: x as i64, y: y as i64 }
}

fn clamp_to_i32(v: i128) -> (r: i32)
    ensures
        r == clamp_i32(v as int),
{
    if v < i32::MIN as i128 {
        i32::MIN
    } else if v > i32::MAX as i128 {
        i32::MAX
    } else {
        v as i32
    }
}

/// The cell that holds `world_pos`, for a field of `field_width` by `field_height`
/// cells of side `grid_size`, centred on the origin.
pub fn world_to_grid(world_pos: WorldPosition, grid_size: i64, field_width: i32, field_height: i32) -> (r:
    GridPosition)
    requires
        grid_size_ok(grid_size as int),
    ensures
        r.x == cell_of(world_pos.x as int, grid_size as int, field_width as int),
        r.y == cell_of(world_pos.y as int, grid_size as int, field_height as int),
{
    let g = grid_size as i128;
    let fw = field_width as i128;
    let fh = field_height as i128;
    assert(-0x40_0000_0000_0000_0000 <= fw * g <= 0x40_0000_0000_0000_0000) by (nonlinear_arith)
        requires
            -0x8000_0000 <= fw <= 0x8000_0000,
            0 < g <= 0x4000_0000,
    {
    }
    assert(-0x40_0000_0000_0000_0000 <= fh * g <= 0x40_0000_0000_0000_0000) by (nonlinear_arith)
        requires
            -0x8000_0000 <= fh <= 0x8000_0000,
            0 < g <= 0x4000_0000,
    {
    }
    let nx = 2 * (world_pos.x as i128) + fw * g;
    let ny = 2 * (world_pos.y as i128) + fh * g;
    let x = floor_div(nx, 2 * g);
    let y = floor_div(ny, 2 * g);
    GridPosition { x: clamp_to_i32(x), y: clamp_to_i32(y) }
}

/// Whether `grid_pos` lies inside a field of `field_width` by `field_height` cells.
pub fn is_valid_grid_position(grid_pos: GridPosition, field_width: i32, field_height: i32) -> (r: bool)
    ensures
        r == in_field(grid_pos, field_width as int, field_height as int),
{
    grid_pos.x >= 0 && grid_pos.x < field_width && grid_pos.y >= 0 && grid_pos.y < field_height
}

/// On one axis, the cell of the centre of cell `c` is `c` again.
pub proof fn lemma_cell_round_trip(c: int, g: int, w: int)
    requires
        g > 0,
    ensures
        (2 * cell_centre(c, g, w) + w * g) / (2 * g) == c,
{
    let t = (2 * c - w + 1) * g;
    let p = t / 2;
    assert(t - 1 <= 2 * p <= t);
    let n = 2 * p + w * g;
    assert(n == 2 * c * g + g + (2 * p - t)) by (nonlinear_arith)
        requires
            t == (2 * c - w + 1) * g,
            n == 2 * p + w * g,
    {
    }
    let r = g + (2 * p - t);
    assert(n == c * (2 * g) + r) by (nonlinear_arith)
        requires
            n == 2 * c * g + g + (2 * p - t),
            r == g + (2 * p - t),
    {
    }
    lemma_fundamental_div_mod_converse(n, 2 * g, c, r);
}

/// Converting a cell of the field to world coordinates and back gives the same cell.
pub proof fn lemma_grid_world_round_trip(p: GridPosition, grid_size: i64, field_width: i32, field_height: i32)
    requires
        grid_size_ok(grid_size as int),
        in_field(p, field_width as int, field_height as int),
    ensures
        cell_of(cell_centre(p.x as int, grid_size as int, field_width as int), grid_size as int, field_width as int)
            == p.x,
        cell_of(cell_centre(p.y as int, grid_size as int, field_height as int), grid_size as int, field_height as int)
            == p.y,
{
    lemma_cell_round_trip(p.x as int, grid_size as int, field_width as int);
    lemma_cell_round_trip(p.y as int, grid_size as int, field_height as int);
}

} // verus!
