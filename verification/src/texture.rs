//! The output buffer of a render: a row-major grid of RGBA byte colours.

use crate::colors::Rgba;
use vstd::prelude::*;

verus! {

/// Why a pixel write was refused: the coordinate that left the grid, and the
/// dimension that it had to stay below.
#[derive(Clone, Copy, Debug, PartialEq, Eq, Structural)]
pub enum BoundsError {
    /// The column `x` is not below the texture's `width`.
    Width { x: usize, width: usize },
    /// The row `y` is not below the texture's `height`.
    Height { y: usize, height: usize },
}

/// The place of pixel `(x, y)` in a row-major grid of the given width.
pub open spec fn pixel_index(width: int, x: int, y: int) -> int {
    y * width + x
}

/// A `width` by `height` grid of pixels, stored row by row.
pub struct Texture {
    pixels: Vec<Rgba<u8>>,
    width: usize,
    height: usize,
}

/// The bytes of a sequence of four-byte groups, group after group.
pub open spec fn flatten(quads: Seq<[u8; 4]>) -> Seq<u8> {
    Seq::new(4 * quads.len(), |i: int| quads[i / 4]@[i % 4])
}

/// Reinterprets a slice of four-byte groups as the bytes they are made of, by
/// `bytemuck::cast_slice`. Source and target have alignment 1 and the target
/// has size 1, so the cast cannot fail; the result holds the groups' bytes in
/// memory order, four for each group.
#[verifier::external_body]
fn cast_quads(quads: &Vec<[u8; 4]>) -> (bytes: Vec<u8>)
    ensures
        bytes@ == flatten(quads@),
{
    bytemuck::cast_slice::<[u8; 4], u8>(quads.as_slice()).to_vec()
}

/// Every pixel of the grid has a place below `width * height`, and the place
/// gives the pixel back: its remainder by the width is the column, its
/// quotient the row.
pub proof fn lemma_pixel_index(width: int, height: int, x: int, y: int)
    requires
        0 <= x < width,
        0 <= y < height,
    ensures
        0 <= pixel_index(width, x, y) < width * height,
        pixel_index(width, x, y) % width == x,
        pixel_index(width, x, y) / width == y,
{
    assert(0 <= y * width && y * width + width <= height * width) by (nonlinear_arith)
        requires
            0 <= y < height,
            0 < width,
    ;
    assert(height * width == width * height) by (nonlinear_arith);
    vstd::arithmetic::div_mod::lemma_fundamental_div_mod_converse(y * width + x, width, y, x);
}

/// Writes to different pixels of a grid go to different places: the place
/// determines the pixel.
pub proof fn lemma_pixel_index_injective(width: int, x1: int, y1: int, x2: int, y2: int)
    requires
        0 <= x1 < width,
        0 <= x2 < width,
        0 <= y1,
        0 <= y2,
        pixel_index(width, x1, y1) == pixel_index(width, x2, y2),
    ensures
        x1 == x2,
        y1 == y2,
{
    vstd::arithmetic::div_mod::lemma_fundamental_div_mod_converse(y1 * width + x1, width, y1, x1);
    vstd::arithmetic::div_mod::lemma_fundamental_div_mod_converse(y2 * width + x2, width, y2, x2);
}

/// Two grids of one size that agree on every pixel are the same image.
pub proof fn lemma_same_pixels_same_image(one: Texture, other: Texture)
    requires
        one.wf(),
        other.wf(),
        one.width() == other.width(),
        one.height() == other.height(),
        forall|i: int, j: int|
            0 <= i < one.width() && 0 <= j < one.height() ==> #[trigger] one.pixel_at(i, j)
                == other.pixel_at(i, j),
    ensures
        one@ == other@,
{
    let width = one.width() as int;
    let height = one.height() as int;
    assert forall|k: int| 0 <= k < one@.len() implies one@[k] == other@[k] by {
        assert(width > 0) by (nonlinear_arith)
            requires
                0 <= k < width * height,
                0 <= width,
        ;
        vstd::arithmetic::div_mod::lemma_fundamental_div_mod(k, width);
        vstd::arithmetic::div_mod::lemma_mod_bound(k, width);
        let i = k % width;
        let j = k / width;
        assert(0 <= j < height) by (nonlinear_arith)
            requires
                0 <= k < width * height,
                k == width * j + i,
                0 <= i < width,
        ;
        assert(pixel_index(width, i, j) == k) by (nonlinear_arith)
            requires
                k == width * j + i,
                pixel_index(width, i, j) == j * width + i,
        ;
        assert(one.pixel_at(i, j) == other.pixel_at(i, j));
    }
    assert(one@ =~= other@);
}

impl Texture {
    /// The pixels, row by row.
    pub closed spec fn view(&self) -> Seq<Rgba<u8>> {
        self.pixels@
    }

    /// The number of columns.
    pub closed spec fn spec_width(&self) -> usize {
        self.width
    }

    /// The number of rows.
    pub closed spec fn spec_height(&self) -> usize {
        self.height
    }

    /// The grid holds exactly `width * height` pixels. This holds of every
    /// texture: the constructor demands it and no method breaks it.
    pub open spec fn wf(&self) -> bool {
        self@.len() == self.spec_width() * self.spec_height()
    }

    #[verifier::type_invariant]
    spec fn inv(&self) -> bool {
        self.wf()
    }

    /// The number of columns.
    #[verifier::when_used_as_spec(spec_width)]
    pub fn width(&self) -> (result: usize)
        ensures
            result == self.spec_width(),
            self.wf(),
    {
        proof {
            use_type_invariant(self);
        }
        self.width
    }

    /// The number of rows.
    #[verifier::when_used_as_spec(spec_height)]
    pub fn height(&self) -> (result: usize)
        ensures
            result == self.spec_height(),
            self.wf(),
    {
        proof {
            use_type_invariant(self);
        }
        self.height
    }

    /// The colour of pixel `(x, y)`.
    pub open spec fn pixel_at(&self, x: int, y: int) -> Rgba<u8> {
        self@[pixel_index(self.width() as int, x, y)]
    }

    /// Wraps a row-major pixel buffer of the given dimensions.
    pub fn new(pixels: Vec<Rgba<u8>>, width: usize, height: usize) -> (result: Self)
        requires
            pixels@.len() == width * height,
        ensures
            result@ == pixels@,
            result.width() == width,
            result.height() == height,
            result.wf(),
    {
        Self { pixels, width, height }
    }

    /// Sets pixel `(x, y)` to `color`. A coordinate outside the grid is
    /// refused with the offending coordinate and the bound it broke (the
    /// column is tested first), and the texture stays as it was.
    pub fn set_pixel(&mut self, x: usize, y: usize, color: Rgba<u8>) -> (result: Result<
        (),
        BoundsError,
    >)
        ensures
            final(self).width() == old(self).width(),
            final(self).height() == old(self).height(),
            final(self).wf(),
            x >= old(self).width() ==> result == Err::<(), BoundsError>(
                BoundsError::Width { x, width: old(self).width() },
            ) && final(self)@ == old(self)@,
            x < old(self).width() && y >= old(self).height() ==> result == Err::<(), BoundsError>(
                BoundsError::Height { y, height: old(self).height() },
            ) && final(self)@ == old(self)@,
            x < old(self).width() && y < old(self).height() ==> result == Ok::<(), BoundsError>(())
                && final(self)@ == old(self)@.update(
                pixel_index(old(self).width() as int, x as int, y as int),
                color,
            ),
    {
        proof {
            use_type_invariant(&*self);
        }
        if x >= self.width {
            return Err(BoundsError::Width { x, width: self.width });
        }
        if y >= self.height {
            return Err(BoundsError::Height { y, height: self.height });
        }
        proof {
            lemma_pixel_index(self.width as int, self.height as int, x as int, y as int);
            assert(0 <= y * self.width) by (nonlinear_arith)
                requires
                    0 <= y,
                    0 <= self.width,
            ;
        }
        let count: usize = self.pixels.len();
        assert(pixel_index(self.width as int, x as int, y as int) < count);
        let index: usize = y * self.width + x;
        self.pixels[index] = color;
        Ok(())
    }

    /// Commits one computed column: `colors[j]` goes to pixel `(x, j)`, from
    /// the top row down, each by `set_pixel`. The first refused write ends the
    /// call with its error; what was written before it stays, and no pixel of
    /// another column is touched.
    pub fn write_column(&mut self, x: usize, colors: &Vec<Rgba<u8>>) -> (result: Result<
        (),
        BoundsError,
    >)
        ensures
            final(self).width() == old(self).width(),
            final(self).height() == old(self).height(),
            final(self).wf(),
            column_written(*old(self), *final(self), x as int, colors@),
            result == column_outcome(old(self).width(), old(self).height(), x, colors@.len()),
    {
        proof {
            use_type_invariant(&*self);
        }
        let mut j: usize = 0;
        while j < colors.len()
            invariant
                0 <= j <= colors@.len(),
                self.width == old(self).width(),
                self.height == old(self).height(),
                self.wf(),
                j > 0 ==> x < self.width,
                j <= self.height,
                forall|i: int, k: int|
                    0 <= i < self.width && 0 <= k < self.height ==> #[trigger] self.pixel_at(i, k)
                        == if i == x && k < j {
                        colors@[k]
                    } else {
                        old(self).pixel_at(i, k)
                    },
            decreases colors@.len() - j,
        {
            let ghost before = *self;
            match self.set_pixel(x, j, colors[j]) {
                Ok(()) => {},
                Err(e) => {
                    proof {
                        assert forall|i: int, k: int|
                            0 <= i < self.width() && 0 <= k < self.height()
                            implies #[trigger] self.pixel_at(i, k) == before.pixel_at(i, k) by {}
                    }
                    return Err(e);
                },
            }
            proof {
                assert forall|i: int, k: int| 0 <= i < self.width && 0 <= k < self.height implies
                    #[trigger] self.pixel_at(i, k) == if i == x && k < j + 1 {
                    colors@[k]
                } else {
                    old(self).pixel_at(i, k)
                } by {
                    lemma_pixel_index(self.width as int, self.height as int, i, k);
                    lemma_pixel_index(self.width as int, self.height as int, x as int, j as int);
                    if pixel_index(self.width as int, i, k) == pixel_index(
                        self.width as int,
                        x as int,
                        j as int,
                    ) {
                        lemma_pixel_index_injective(self.width as int, i, k, x as int, j as int);
                    }
                    assert(before.pixel_at(i, k) == if i == x && k < j {
                        colors@[k]
                    } else {
                        old(self).pixel_at(i, k)
                    });
                }
            }
            j += 1;
        }
        Ok(())
    }

    /// The pixels, row by row.
    pub fn pixels(&self) -> (result: &[Rgba<u8>])
        ensures
            result@ == self@,
            self.wf(),
    {
        proof {
            use_type_invariant(self);
        }
        self.pixels.as_slice()
    }

    /// The texture as raw bytes: four per pixel (red, green, blue, alpha), row
    /// by row.
    pub fn data(&self) -> (bytes: Vec<u8>)
        ensures
            bytes@.len() == 4 * self@.len(),
            forall|i: int| 0 <= i < bytes@.len() ==> bytes@[i] == self@[i / 4]@[i % 4],
    {
        let mut quads: Vec<[u8; 4]> = Vec::new();
        let mut k: usize = 0;
        while k < self.pixels.len()
            invariant
                0 <= k <= self.pixels@.len(),
                quads@.len() == k,
                forall|i: int| 0 <= i < k ==> quads@[i] == self.pixels@[i].0,
            decreases self.pixels@.len() - k,
        {
            quads.push(self.pixels[k].0);
            k += 1;
        }
        cast_quads(&quads)
    }
}

/// The texture `after` is `before` with `colors` written over column `x` from
/// the top, as far as they lie in the grid.
pub open spec fn column_written(
    before: Texture,
    after: Texture,
    x: int,
    colors: Seq<Rgba<u8>>,
) -> bool {
    forall|i: int, j: int|
        0 <= i < before.width() && 0 <= j < before.height() ==> #[trigger] after.pixel_at(i, j)
            == if i == x && j < colors.len() {
            colors[j]
        } else {
            before.pixel_at(i, j)
        }
}

/// Columns do not depend on each other: two different columns committed in
/// either order give the same image.
pub proof fn lemma_columns_commute(
    start: Texture,
    first: Texture,
    both: Texture,
    second: Texture,
    both_swapped: Texture,
    x1: int,
    colors1: Seq<Rgba<u8>>,
    x2: int,
    colors2: Seq<Rgba<u8>>,
)
    requires
        x1 != x2,
        first.width() == start.width() && first.height() == start.height(),
        second.width() == start.width() && second.height() == start.height(),
        both.width() == start.width() && both.height() == start.height() && both.wf(),
        both_swapped.width() == start.width() && both_swapped.height() == start.height()
            && both_swapped.wf(),
        column_written(start, first, x1, colors1),
        column_written(first, both, x2, colors2),
        column_written(start, second, x2, colors2),
        column_written(second, both_swapped, x1, colors1),
    ensures
        both@ == both_swapped@,
{
    assert forall|i: int, j: int|
        0 <= i < start.width() && 0 <= j < start.height() implies #[trigger] both.pixel_at(i, j)
        == both_swapped.pixel_at(i, j) by {
        assert(first.pixel_at(i, j) == if i == x1 && j < colors1.len() {
            colors1[j]
        } else {
            start.pixel_at(i, j)
        });
        assert(second.pixel_at(i, j) == if i == x2 && j < colors2.len() {
            colors2[j]
        } else {
            start.pixel_at(i, j)
        });
    }
    lemma_same_pixels_same_image(both, both_swapped);
}

/// How committing a column of `count` colours at column `x` ends: with the
/// error of the first refused write, or well where every write is accepted.
pub open spec fn column_outcome(width: usize, height: usize, x: usize, count: nat) -> Result<
    (),
    BoundsError,
> {
    if count == 0 {
        Ok(())
    } else if x >= width {
        Err(BoundsError::Width { x, width })
    } else if count > height {
        Err(BoundsError::Height { y: height, height })
    } else {
        Ok(())
    }
}

} // verus!
