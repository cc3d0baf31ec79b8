//! Built-in meshes.
//!
//! Each table lists its entries vertex by vertex: three coordinates, three
//! colour channels or two texture coordinates for each.

use vstd::prelude::*;
use crate::color::{Color, Ratio};
use crate::mat::{Vec2d, Vec3d, ONE, ZERO};
use crate::model::{Model, ModelView};

verus! {

/// The pattern of one half.
pub const PLUS_HALF: u32 = 0x3f00_0000;

/// The pattern of minus one half.
pub const MINUS_HALF: u32 = 0xbf00_0000;

/// The pattern of seven tenths.
pub const PLUS_SEVEN_TENTHS: u32 = 0x3f33_3333;

/// The pattern of minus seven tenths.
pub const MINUS_SEVEN_TENTHS: u32 = 0xbf33_3333;

/// The corners of a square in the plane of the first two axes.
pub const RECT: [u32; 12] = [
    MINUS_SEVEN_TENTHS, MINUS_SEVEN_TENTHS, ZERO,
    PLUS_SEVEN_TENTHS, MINUS_SEVEN_TENTHS, ZERO,
    PLUS_SEVEN_TENTHS, PLUS_SEVEN_TENTHS, ZERO,
    MINUS_SEVEN_TENTHS, PLUS_SEVEN_TENTHS, ZERO,
];

/// The colours of the corners of the square, each channel a whole number.
pub const RECT_COLORS: [usize; 12] = [
    1, 1, 0,
    0, 1, 0,
    0, 0, 1,
    0, 1, 1,
];

/// The texture coordinates of the corners of the square.
pub const RECT_UV: [u32; 8] = [
    ZERO, ZERO,
    ONE, ZERO,
    ONE, ONE,
    ZERO, ONE,
];

/// The two triangles of the square.
pub const RECT_INDICES: [u32; 6] = [0, 1, 2, 0, 3, 2];

/// The corners of the twelve triangles of a cube with edges of length one
/// about the origin.
pub const CUBE: [u32; 108] = [
    MINUS_HALF, MINUS_HALF, MINUS_HALF,
    MINUS_HALF, MINUS_HALF, PLUS_HALF,
    MINUS_HALF, PLUS_HALF, PLUS_HALF,
    PLUS_HALF, PLUS_HALF, MINUS_HALF,
    MINUS_HALF, MINUS_HALF, MINUS_HALF,
    MINUS_HALF, PLUS_HALF, MINUS_HALF,
    PLUS_HALF, MINUS_HALF, PLUS_HALF,
    MINUS_HALF, MINUS_HALF, MINUS_HALF,
    PLUS_HALF, MINUS_HALF, MINUS_HALF,
    PLUS_HALF, PLUS_HALF, MINUS_HALF,
    PLUS_HALF, MINUS_HALF, MINUS_HALF,
    MINUS_HALF, MINUS_HALF, MINUS_HALF,
    MINUS_HALF, MINUS_HALF, MINUS_HALF,
    MINUS_HALF, PLUS_HALF, PLUS_HALF,
    MINUS_HALF, PLUS_HALF, MINUS_HALF,
    PLUS_HALF, MINUS_HALF, PLUS_HALF,
    MINUS_HALF, MINUS_HALF, PLUS_HALF,
    MINUS_HALF, MINUS_HALF, MINUS_HALF,
    MINUS_HALF, PLUS_HALF, PLUS_HALF,
    MINUS_HALF, MINUS_HALF, PLUS_HALF,
    PLUS_HALF, MINUS_HALF, PLUS_HALF,
    PLUS_HALF, PLUS_HALF, PLUS_HALF,
    PLUS_HALF, MINUS_HALF, MINUS_HALF,
    PLUS_HALF, PLUS_HALF, MINUS_HALF,
    PLUS_HALF, MINUS_HALF, MINUS_HALF,
    PLUS_HALF, PLUS_HALF, PLUS_HALF,
    PLUS_HALF, MINUS_HALF, PLUS_HALF,
    PLUS_HALF, PLUS_HALF, PLUS_HALF,
    PLUS_HALF, PLUS_HALF, MINUS_HALF,
    MINUS_HALF, PLUS_HALF, MINUS_HALF,
    PLUS_HALF, PLUS_HALF, PLUS_HALF,
    MINUS_HALF, PLUS_HALF, MINUS_HALF,
    MINUS_HALF, PLUS_HALF, PLUS_HALF,
    PLUS_HALF, PLUS_HALF, PLUS_HALF,
    MINUS_HALF, PLUS_HALF, PLUS_HALF,
    PLUS_HALF, MINUS_HALF, PLUS_HALF,
];

/// The colours of the corners of the cube, each channel in thousandths.
pub const CUBE_COLORS: [usize; 108] = [
    583, 771, 14,
    609, 115, 436,
    327, 483, 844,
    822, 569, 201,
    435, 602, 223,
    310, 747, 185,
    597, 770, 761,
    559, 436, 730,
    359, 583, 152,
    483, 596, 789,
    559, 861, 639,
    195, 548, 859,
    14, 184, 576,
    771, 328, 970,
    406, 615, 116,
    676, 977, 133,
    971, 572, 833,
    140, 616, 489,
    997, 513, 64,
    945, 719, 592,
    543, 21, 978,
    279, 317, 505,
    167, 620, 77,
    347, 857, 137,
    55, 953, 42,
    714, 505, 345,
    783, 290, 734,
    722, 645, 174,
    302, 455, 848,
    225, 587, 40,
    517, 713, 338,
    53, 959, 120,
    393, 621, 362,
    673, 211, 457,
    820, 883, 371,
    982, 99, 879,
];

/// The texture coordinates of the corners of the cube.
pub const CUBE_UV: [u32; 72] = [
    0x387776c5, 0x3f7fffbd,
    0x38d801b4, 0x3f29f8c2,
    0x3eac04a7, 0x3f2a0243,
    0x3f8000c1, 0x3f7fff26,
    0x3f2b00ac, 0x3f2a05ab,
    0x3f7ffd3f, 0x3f29f7b6,
    0x3f2b00ac, 0x3f2a05ab,
    0x3eac0b56, 0x3ea7ffbc,
    0x3f2b0004, 0x3ea7fe2a,
    0x3f8000c1, 0x3f7fff26,
    0x3f2b08dd, 0x3f7fff26,
    0x3f2b00ac, 0x3f2a05ab,
    0x387776c5, 0x3f7fffbd,
    0x3eac04a7, 0x3f2a0243,
    0x3eac1509, 0x3f7ffb59,
    0x3f2b00ac, 0x3f2a05ab,
    0x3eac04a7, 0x3f2a0243,
    0x3eac0b56, 0x3ea7ffbc,
    0x3f800022, 0x3ea803ac,
    0x3f7ffd3f, 0x3f29f7b6,
    0x3f2b00ac, 0x3f2a05ab,
    0x3f2b08dd, 0x3f7fff26,
    0x3eac04a7, 0x3f2a0243,
    0x3f2b00ac, 0x3f2a05ab,
    0x3eac04a7, 0x3f2a0243,
    0x3f2b08dd, 0x3f7fff26,
    0x3eac1509, 0x3f7ffb59,
    0x38d801b4, 0x3f29f8c2,
    0x368637bd, 0x3ea800a8,
    0x3eac0b56, 0x3ea7ffbc,
    0x38d801b4, 0x3f29f8c2,
    0x3eac0b56, 0x3ea7ffbc,
    0x3eac04a7, 0x3f2a0243,
    0x3f2b0004, 0x3ea7fe2a,
    0x3f800022, 0x3ea803ac,
    0x3f2b00ac, 0x3f2a05ab,
];

/// The vertices that a table of coordinates lists.
pub open spec fn vertices_from(table: Seq<u32>) -> Seq<Vec3d> {
    Seq::new(
        table.len() / 3,
        |i: int| Vec3d { d0: table[3 * i], d1: table[3 * i + 1], d2: table[3 * i + 2] },
    )
}

/// The colours that a table of channels lists, each channel over `den`.
pub open spec fn colors_from(table: Seq<usize>, den: usize) -> Seq<Color> {
    Seq::new(
        table.len() / 3,
        |i: int|
            Color {
                red: Ratio { num: table[3 * i], den },
                green: Ratio { num: table[3 * i + 1], den },
                blue: Ratio { num: table[3 * i + 2], den },
            },
    )
}

/// The texture coordinates that a table lists.
pub open spec fn uv_from(table: Seq<u32>) -> Seq<Vec2d> {
    Seq::new(table.len() / 2, |i: int| Vec2d { d0: table[2 * i], d1: table[2 * i + 1] })
}

fn read_vertices<const LEN: usize>(table: &[u32; LEN]) -> (r: Vec<Vec3d>)
    ensures
        r@ == vertices_from(table@),
{
    let n: usize = LEN / 3;
    let mut out: Vec<Vec3d> = Vec::new();
    let mut i: usize = 0;
    while i < n
        invariant
            i <= n,
            n == LEN / 3,
            table@.len() == LEN,
            out.len() == i,
            forall|j: int| 0 <= j < i ==> #[trigger] out@[j] == vertices_from(table@)[j],
        decreases n - i,
    {
        out.push(Vec3d::new(table[3 * i], table[3 * i + 1], table[3 * i + 2]));
        i = i + 1;
    }
    assert(out@ =~= vertices_from(table@));
    out
}

fn read_colors<const LEN: usize>(table: &[usize; LEN], den: usize) -> (r: Vec<Color>)
    ensures
        r@ == colors_from(table@, den),
{
    let n: usize = LEN / 3;
    let mut out: Vec<Color> = Vec::new();
    let mut i: usize = 0;
    while i < n
        invariant
            i <= n,
            n == LEN / 3,
            table@.len() == LEN,
            out.len() == i,
            forall|j: int| 0 <= j < i ==> #[trigger] out@[j] == colors_from(table@, den)[j],
        decreases n - i,
    {
        out.push(
            Color::new(
                Ratio::new(table[3 * i], den),
                Ratio::new(table[3 * i + 1], den),
                Ratio::new(table[3 * i + 2], den),
            ),
        );
        i = i + 1;
    }
    assert(out@ =~= colors_from(table@, den));
    out
}

fn read_uv<const LEN: usize>(table: &[u32; LEN]) -> (r: Vec<Vec2d>)
    ensures
        r@ == uv_from(table@),
{
    let n: usize = LEN / 2;
    let mut out: Vec<Vec2d> = Vec::new();
    let mut i: usize = 0;
    while i < n
        invariant
            i <= n,
            n == LEN / 2,
            table@.len() == LEN,
            out.len() == i,
            forall|j: int| 0 <= j < i ==> #[trigger] out@[j] == uv_from(table@)[j],
        decreases n - i,
    {
        out.push(Vec2d::new(table[2 * i], table[2 * i + 1]));
        i = i + 1;
    }
    assert(out@ =~= uv_from(table@));
    out
}

impl ModelView {
    /// The mesh with the square for its faces: four vertices, two
    /// triangles, and an extent of one.
    pub open spec fn with_rect(self) -> ModelView {
        ModelView {
            vertices: vertices_from(RECT@),
            indices: RECT_INDICES@,
            index_set: 3,
            index_count: seq![3usize, 3usize],
            max_size: ONE,
            ..self
        }
    }

    /// The mesh with the cube for its vertices, three to a triangle, and an
    /// extent of one.
    pub open spec fn with_cube(self) -> ModelView {
        ModelView { vertices: vertices_from(CUBE@), max_size: ONE, ..self }
    }
}

impl Model {
    /// Makes the mesh a coloured square.
    pub fn set_rect_sample(&mut self)
        ensures
            final(self)@ == (ModelView {
                colors: colors_from(RECT_COLORS@, 1),
                ..old(self)@.with_rect()
            }),
    {
        self.set_rect();
        self.colors = read_colors(&RECT_COLORS, 1);
    }

    /// Makes the mesh a square with texture coordinates.
    pub fn set_rect_uv_sample(&mut self)
        ensures
            final(self)@ == (ModelView { uv: uv_from(RECT_UV@), ..old(self)@.with_rect() }),
    {
        self.set_rect();
        self.uv = read_uv(&RECT_UV);
    }

    /// Makes the mesh a coloured cube.
    pub fn set_cube_sample(&mut self)
        ensures
            final(self)@ == (ModelView {
                colors: colors_from(CUBE_COLORS@, 1000),
                ..old(self)@.with_cube()
            }),
    {
        self.vertices = read_vertices(&CUBE);
        self.colors = read_colors(&CUBE_COLORS, 1000);
        self.max_size = ONE;
    }

    /// Makes the mesh a cube with texture coordinates.
    pub fn set_cube_sample_uv(&mut self)
        ensures
            final(self)@ == (ModelView { uv: uv_from(CUBE_UV@), ..old(self)@.with_cube() }),
    {
        self.vertices = read_vertices(&CUBE);
        self.uv = read_uv(&CUBE_UV);
        self.max_size = ONE;
    }

    fn set_rect(&mut self)
        ensures
            final(self)@ == old(self)@.with_rect(),
    {
        self.vertices = read_vertices(&RECT);
        let mut indices: Vec<u32> = Vec::new();
        let mut i: usize = 0;
        while i < 6
            invariant
                i <= 6,
                indices.len() == i,
                forall|j: int| 0 <= j < i ==> #[trigger] indices@[j] == RECT_INDICES@[j],
            decreases 6 - i,
        {
            indices.push(RECT_INDICES[i]);
            i = i + 1;
        }
        assert(indices@ =~= RECT_INDICES@);
        self.indices = indices;
        self.max_size = ONE;
        self.set_index_set(3);
        self.index_count = vec![3, 3];
    }
}

} // verus!
