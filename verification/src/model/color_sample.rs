//! Synthesis of vertex colours.

use vstd::prelude::*;
use crate::batch::{lemma_total_prefix, total};
use crate::color::{Color, Ratio};
use crate::model::{Model, ModelView};

verus! {

/// The gray level of face `face` among `class` levels: the levels
/// `1 / (class + 1)` to `class / (class + 1)` in turn.
pub open spec fn gray_level(face: int, class: int) -> Ratio {
    Ratio { num: (face % class + 1) as usize, den: (class + 1) as usize }
}

/// The colours of the corners of faces with the given corner counts: every
/// corner of a face has the gray level of the face.
pub open spec fn banded(counts: Seq<usize>, class: int) -> Seq<Color>
    decreases counts.len(),
{
    if counts.len() == 0 {
        Seq::empty()
    } else {
        banded(counts.drop_last(), class) + Seq::new(
            counts.last() as nat,
            |k: int| Color::gray(gray_level(counts.len() - 1, class)),
        )
    }
}

/// The colour of vertex `i` among `length` vertices in a gradation.
pub open spec fn gradation(i: int, length: int) -> Color {
    Color::gray(Ratio { num: i as usize, den: length as usize })
}

/// The colour of vertex `i` among `length` vertices in a gradation of red,
/// green and blue in turn.
pub open spec fn colorful(i: int, length: int) -> Color {
    let value = Ratio { num: i as usize, den: length as usize };
    if i % 3 == 0 {
        Color { red: value, green: Ratio::none(), blue: Ratio::none() }
    } else if i % 3 == 1 {
        Color { red: Ratio::none(), green: value, blue: Ratio::none() }
    } else {
        Color { red: Ratio::none(), green: Ratio::none(), blue: value }
    }
}

/// The colour of vertex `i` in a pattern of three shades of wood.
pub open spec fn grain(i: int) -> Color {
    if i % 3 == 0 {
        Color {
            red: Ratio { num: 222, den: 255 },
            green: Ratio { num: 184, den: 255 },
            blue: Ratio { num: 135, den: 255 },
        }
    } else if i % 3 == 1 {
        Color {
            red: Ratio { num: 210, den: 255 },
            green: Ratio { num: 180, den: 255 },
            blue: Ratio { num: 140, den: 255 },
        }
    } else {
        Color {
            red: Ratio { num: 245, den: 255 },
            green: Ratio { num: 222, den: 255 },
            blue: Ratio { num: 179, den: 255 },
        }
    }
}

impl ModelView {
    /// The corner counts by which colours are banded: those of the faces,
    /// or three for every full triple of vertices where the mesh has no
    /// indices.
    pub open spec fn bands(self) -> Seq<usize> {
        if self.indices.len() == 0 {
            Seq::new(self.vertices.len() / 3, |i: int| 3usize)
        } else {
            self.index_count
        }
    }

    /// The mesh with banded gray colours, if it had no colours.
    pub open spec fn with_gray(self, class: int) -> ModelView {
        if self.colors.len() > 0 {
            self
        } else {
            ModelView { colors: banded(self.bands(), class), ..self }
        }
    }
}

/// The colours of a banded mesh are as many as the corners of its faces,
/// and each corner of face `i` has the gray level of face `i`.
pub proof fn lemma_banded_by_face(counts: Seq<usize>, class: int)
    ensures
        banded(counts, class).len() == total(counts),
        forall|i: int, corner: int|
            0 <= i < counts.len() && total(counts.take(i)) <= corner < total(counts.take(i + 1))
                ==> #[trigger] banded(counts, class)[corner] == Color::gray(
                #[trigger] gray_level(i, class),
            ),
    decreases counts.len(),
{
    if counts.len() > 0 {
        let front = counts.drop_last();
        let last = counts.len() - 1;
        lemma_banded_by_face(front, class);
        assert(counts.take(last) =~= front);
        assert(counts.take(last + 1) =~= counts);
        assert forall|i: int, corner: int|
            0 <= i < counts.len() && total(counts.take(i)) <= corner < total(
                counts.take(i + 1),
            ) implies #[trigger] banded(counts, class)[corner] == Color::gray(
            #[trigger] gray_level(i, class),
        ) by {
            lemma_total_prefix(counts, i);
            if i < last {
                assert(front.take(i) =~= counts.take(i));
                assert(front.take(i + 1) =~= counts.take(i + 1));
                lemma_total_prefix(front, i + 1);
                assert(0 <= corner < banded(front, class).len());
                assert(banded(counts, class)[corner] == banded(front, class)[corner]);
            }
        }
    }
}

impl Model {
    /// Gives every vertex the colour `color`.
    pub fn set_colors_one(&mut self, color: Ratio)
        ensures
            final(self)@ == (ModelView {
                colors: Seq::new(old(self)@.vertices.len(), |i: int| Color::gray(color)),
                ..old(self)@
            }),
    {
        let n: usize = self.vertices.len();
        let mut colors: Vec<Color> = Vec::new();
        let mut i: usize = 0;
        while i < n
            invariant
                i <= n,
                colors.len() == i,
                forall|j: int| 0 <= j < i ==> #[trigger] colors@[j] == Color::gray(color),
            decreases n - i,
        {
            colors.push(Color::new(color, color, color));
            i = i + 1;
        }
        self.colors = colors;
        proof {
            assert(self@.colors =~= Seq::new(
                old(self)@.vertices.len(),
                |i: int| Color::gray(color),
            ));
        }
    }

    /// Adds a colour for every vertex, from black for the first towards
    /// white.
    pub fn set_colors_gradation(&mut self)
        ensures
            final(self)@ == (ModelView {
                colors: old(self)@.colors + Seq::new(
                    old(self)@.vertices.len(),
                    |i: int| gradation(i, old(self)@.vertices.len() as int),
                ),
                ..old(self)@
            }),
    {
        let length: usize = self.vertices.len();
        let ghost before = self@.colors;
        let mut i: usize = 0;
        while i < length
            invariant
                i <= length,
                length == old(self)@.vertices.len(),
                before == old(self)@.colors,
                self@ == (ModelView {
                    colors: before + Seq::new(i as nat, |k: int| gradation(k, length as int)),
                    ..old(self)@
                }),
            decreases length - i,
        {
            let value: Ratio = Ratio::new(i, length);
            self.colors.push(Color::new(value, value, value));
            proof {
                assert(self@.colors =~= before + Seq::new(
                    (i + 1) as nat,
                    |k: int| gradation(k, length as int),
                ));
            }
            i = i + 1;
        }
    }

    /// Adds a colour for every vertex, in red, green and blue in turn, from
    /// black for the first towards full intensity.
    pub fn set_colors_gradation_colorful(&mut self)
        ensures
            final(self)@ == (ModelView {
                colors: old(self)@.colors + Seq::new(
                    old(self)@.vertices.len(),
                    |i: int| colorful(i, old(self)@.vertices.len() as int),
                ),
                ..old(self)@
            }),
    {
        let length: usize = self.vertices.len();
        let ghost before = self@.colors;
        let mut i: usize = 0;
        while i < length
            invariant
                i <= length,
                length == old(self)@.vertices.len(),
                before == old(self)@.colors,
                self@ == (ModelView {
                    colors: before + Seq::new(i as nat, |k: int| colorful(k, length as int)),
                    ..old(self)@
                }),
            decreases length - i,
        {
            let value: Ratio = Ratio::new(i, length);
            let none: Ratio = Ratio::new(0, 1);
            if i % 3 == 0 {
                self.colors.push(Color::new(value, none, none));
            } else if i % 3 == 1 {
                self.colors.push(Color::new(none, value, none));
            } else {
                self.colors.push(Color::new(none, none, value));
            }
            proof {
                assert(self@.colors =~= before + Seq::new(
                    (i + 1) as nat,
                    |k: int| colorful(k, length as int),
                ));
            }
            i = i + 1;
        }
    }

    /// Adds a colour for every vertex, three shades of wood in turn.
    pub fn set_colors_grain(&mut self)
        ensures
            final(self)@ == (ModelView {
                colors: old(self)@.colors + Seq::new(
                    old(self)@.vertices.len(),
                    |i: int| grain(i),
                ),
                ..old(self)@
            }),
    {
        let length: usize = self.vertices.len();
        let ghost before = self@.colors;
        let mut i: usize = 0;
        while i < length
            invariant
                i <= length,
                length == old(self)@.vertices.len(),
                before == old(self)@.colors,
                self@ == (ModelView {
                    colors: before + Seq::new(i as nat, |k: int| grain(k)),
                    ..old(self)@
                }),
            decreases length - i,
        {
            if i % 3 == 0 {
                self.colors.push(
                    Color::new(Ratio::new(222, 255), Ratio::new(184, 255), Ratio::new(135, 255)),
                );
            } else if i % 3 == 1 {
                self.colors.push(
                    Color::new(Ratio::new(210, 255), Ratio::new(180, 255), Ratio::new(140, 255)),
                );
            } else {
                self.colors.push(
                    Color::new(Ratio::new(245, 255), Ratio::new(222, 255), Ratio::new(179, 255)),
                );
            }
            proof {
                assert(self@.colors =~= before + Seq::new((i + 1) as nat, |k: int| grain(k)));
            }
            i = i + 1;
        }
    }

    /// Gives a mesh without colours banded grays: every corner of a face
    /// has the gray level of the face, one of `class` levels in turn.
    pub fn set_colors_gray(&mut self, class: usize)
        requires
            0 < class < usize::MAX,
        ensures
            final(self)@ == old(self)@.with_gray(class as int),
    {
        if !self.colors.is_empty() {
            return ;
        }
        let indexed: bool = !self.indices.is_empty();
        let length: usize = if indexed {
            self.index_count.len()
        } else {
            self.vertices.len() / 3
        };
        let ghost bands = self@.bands();
        proof {
            assert(bands.take(0) =~= Seq::<usize>::empty());
            assert(self@.colors =~= Seq::<Color>::empty());
        }
        let mut i: usize = 0;
        while i < length
            invariant
                i <= length,
                0 < class < usize::MAX,
                bands == old(self)@.bands(),
                length == bands.len(),
                indexed == (old(self)@.indices.len() > 0),
                self@ == (ModelView {
                    colors: banded(bands.take(i as int), class as int),
                    ..old(self)@
                }),
            decreases length - i,
        {
            let level: Ratio = Ratio::new(i % class + 1, class + 1);
            let count: usize = if indexed {
                self.index_count[i]
            } else {
                3
            };
            let ghost done = self@.colors;
            proof {
                assert(bands.take(i + 1).drop_last() =~= bands.take(i as int));
                assert(count == bands[i as int]);
            }
            let mut k: usize = 0;
            while k < count
                invariant
                    k <= count,
                    self@ == (ModelView {
                        colors: done + Seq::new(k as nat, |j: int| Color::gray(level)),
                        ..old(self)@
                    }),
                decreases count - k,
            {
                self.colors.push(Color::new(level, level, level));
                proof {
                    assert(self@.colors =~= done + Seq::new(
                        (k + 1) as nat,
                        |j: int| Color::gray(level),
                    ));
                }
                k = k + 1;
            }
            proof {
                assert(level == gray_level(i as int, class as int));
                assert(Seq::new(count as nat, |j: int| Color::gray(level)) =~= Seq::new(
                    bands.take(i + 1).last() as nat,
                    |j: int| Color::gray(gray_level(bands.take(i + 1).len() - 1, class as int)),
                ));
            }
            i = i + 1;
        }
        proof {
            assert(bands.take(length as int) =~= bands);
        }
    }
}

} // verus!
