//! The drivers of a render: they ask a shading function for the colour of
//! each pixel and write it into the texture, on one thread or on many.

pub mod camera;
pub mod material;
pub mod trace;

pub use trace::{
    closest_hit, get_ray_color, render_pixel, render_pixel_sample, sample_pixel, trace_step,
    Encounter, Path, PathEnd, TraceStep, FAR_LIMIT, MAX_RAY_BOUNCE,
};

use crate::colors::Rgba;
use crate::texture::{
    column_outcome, lemma_pixel_index, lemma_pixel_index_injective,
    lemma_same_pixels_same_image, pixel_index, BoundsError, Texture,
};
use rayon::iter::{IntoParallelIterator, ParallelIterator};
use vstd::prelude::*;

verus! {

/// How a render is executed.
#[derive(Clone, Copy, Debug, PartialEq, Eq, Structural)]
pub enum RenderMode {
    /// On the calling thread, column by column.
    SingleThread,
    /// On a pool of workers, one task per column.
    MultiThread,
    /// On the graphics device.
    Gpu,
}

/// The settings of a run.
#[derive(Clone, Copy, Debug)]
pub struct Args {
    pub mode: RenderMode,
    pub samples: u32,
}

impl Default for Args {
    /// A render on the graphics device with 128 samples per pixel.
    fn default() -> (result: Self)
        ensures
            result.mode == RenderMode::Gpu,
            result.samples == 128,
    {
        Args { mode: RenderMode::Gpu, samples: 128 }
    }
}

/// Every pixel of the texture holds a colour that `shade` gave for the
/// pixel's coordinates.
pub open spec fn shaded<F: Fn(usize, usize) -> Rgba<u8>>(texture: Texture, shade: F) -> bool {
    forall|i: int, j: int|
        0 <= i < texture.width() && 0 <= j < texture.height() ==> call_ensures(
            shade,
            (i as usize, j as usize),
            #[trigger] texture.pixel_at(i, j),
        )
}

/// Where `shade` gives one colour for each pixel, a render has one outcome:
/// two rendered textures of one size are the same image, whatever the mode
/// and the order of the work.
pub proof fn lemma_render_is_deterministic<F: Fn(usize, usize) -> Rgba<u8>>(
    shade: F,
    one: Texture,
    other: Texture,
)
    requires
        one.wf(),
        other.wf(),
        one.width() == other.width(),
        one.height() == other.height(),
        shaded(one, shade),
        shaded(other, shade),
        forall|i: usize, j: usize, a: Rgba<u8>, b: Rgba<u8>|
            #![trigger call_ensures(shade, (i, j), a), call_ensures(shade, (i, j), b)]
            call_ensures(shade, (i, j), a) && call_ensures(shade, (i, j), b) ==> a == b,
    ensures
        one@ == other@,
{
    assert forall|i: int, j: int|
        0 <= i < one.width() && 0 <= j < one.height() implies #[trigger] one.pixel_at(i, j)
        == other.pixel_at(i, j) by {
        assert(call_ensures(shade, (i as usize, j as usize), one.pixel_at(i, j)));
        assert(call_ensures(shade, (i as usize, j as usize), other.pixel_at(i, j)));
    }
    lemma_same_pixels_same_image(one, other);
}

/// The column holds `height` colours, and the one at row `j` is a colour that
/// `shade` gave for pixel `(x, j)`.
pub open spec fn column_shaded<F: Fn(usize, usize) -> Rgba<u8>>(
    shade: F,
    x: usize,
    height: usize,
    column: Seq<Rgba<u8>>,
) -> bool {
    &&& column.len() == height
    &&& forall|j: int|
        0 <= j < height ==> call_ensures(shade, (x, j as usize), #[trigger] column[j])
}

/// Renders on the calling thread: for each column from the left, and in it
/// for each row from the top, asks `shade` for the pixel's colour and writes
/// it into the texture. Every pixel ends up with a colour that `shade` gave
/// for its coordinates.
pub fn render_single_thread<F: Fn(usize, usize) -> Rgba<u8>>(
    texture: &mut Texture,
    shade: F,
) -> (result: Result<(), BoundsError>)
    requires
        forall|i: usize, j: usize|
            i < old(texture).width() && j < old(texture).height() ==> call_requires(shade, (i, j)),
    ensures
        result == Ok::<(), BoundsError>(()),
        final(texture).width() == old(texture).width(),
        final(texture).height() == old(texture).height(),
        final(texture).wf(),
        shaded(*final(texture), shade),
{
    let width: usize = texture.width();
    let height: usize = texture.height();
    let mut i: usize = 0;
    while i < width
        invariant
            0 <= i <= width,
            texture.width() == width,
            texture.height() == height,
            width == old(texture).width(),
            height == old(texture).height(),
            texture.wf(),
            forall|a: usize, b: usize| a < width && b < height ==> call_requires(shade, (a, b)),
            forall|a: int, b: int|
                0 <= a < i && 0 <= b < height ==> call_ensures(
                    shade,
                    (a as usize, b as usize),
                    #[trigger] texture.pixel_at(a, b),
                ),
        decreases width - i,
    {
        let mut j: usize = 0;
        while j < height
            invariant
                0 <= i < width,
                0 <= j <= height,
                texture.width() == width,
                texture.height() == height,
                texture.wf(),
                forall|a: usize, b: usize| a < width && b < height ==> call_requires(shade, (a, b)),
                forall|a: int, b: int|
                    0 <= a < width && 0 <= b < height && (a < i || (a == i && b < j))
                        ==> call_ensures(
                        shade,
                        (a as usize, b as usize),
                        #[trigger] texture.pixel_at(a, b),
                    ),
            decreases height - j,
        {
            let color = shade(i, j);
            let ghost before = *texture;
            match texture.set_pixel(i, j, color) {
                Ok(()) => {},
                Err(e) => {
                    return Err(e);
                },
            }
            proof {
                assert forall|a: int, b: int|
                    0 <= a < width && 0 <= b < height && (a < i || (a == i && b < j + 1))
                    implies call_ensures(
                    shade,
                    (a as usize, b as usize),
                    #[trigger] texture.pixel_at(a, b),
                ) by {
                    lemma_pixel_index(width as int, height as int, a, b);
                    lemma_pixel_index(width as int, height as int, i as int, j as int);
                    if pixel_index(width as int, a, b) == pixel_index(
                        width as int,
                        i as int,
                        j as int,
                    ) {
                        lemma_pixel_index_injective(width as int, a, b, i as int, j as int);
                    } else {
                        assert(texture.pixel_at(a, b) == before.pixel_at(a, b));
                    }
                }
            }
            j += 1;
        }
        i += 1;
    }
    Ok(())
}

/// Column `n` is the first whose commit is refused: committing it fails, and
/// committing any column before it does not.
pub open spec fn refused_at(
    width: usize,
    height: usize,
    columns: Seq<Vec<Rgba<u8>>>,
    n: int,
) -> bool {
    &&& 0 <= n < columns.len()
    &&& column_outcome(width, height, n as usize, columns[n]@.len()) is Err
    &&& forall|i: int|
        0 <= i < n ==> (#[trigger] column_outcome(width, height, i as usize, columns[i]@.len()))
            is Ok
}

/// The texture `after` is `before` with the first `stop` columns of `columns`
/// written over it, as far as they lie in the grid.
pub open spec fn columns_written(
    before: Texture,
    after: Texture,
    columns: Seq<Vec<Rgba<u8>>>,
    stop: int,
) -> bool {
    forall|i: int, j: int|
        0 <= i < before.width() && 0 <= j < before.height() ==> #[trigger] after.pixel_at(i, j)
            == if i < stop && i < columns.len() && j < columns[i]@.len() {
            columns[i]@[j]
        } else {
            before.pixel_at(i, j)
        }
}

/// Commits columns that were computed apart from each other: `columns[i]`
/// goes to column `i`, from the left, each as `Texture::write_column` does
/// it. The first refused column ends the call with its error; the columns
/// before it, and what was written of it, stay. Columns do not overlap, so
/// the colours could have been computed in any order.
pub fn commit_columns(texture: &mut Texture, columns: &Vec<Vec<Rgba<u8>>>) -> (result: Result<
    (),
    BoundsError,
>)
    ensures
        final(texture).width() == old(texture).width(),
        final(texture).height() == old(texture).height(),
        final(texture).wf(),
        (forall|i: int|
            0 <= i < columns@.len() ==> (#[trigger] column_outcome(
                old(texture).width(),
                old(texture).height(),
                i as usize,
                columns@[i]@.len(),
            )) is Ok) ==> result == Ok::<(), BoundsError>(()) && columns_written(
            *old(texture),
            *final(texture),
            columns@,
            columns@.len() as int,
        ),
        forall|n: int|
            refused_at(old(texture).width(), old(texture).height(), columns@, n) ==> result
                == column_outcome(
                old(texture).width(),
                old(texture).height(),
                n as usize,
                columns@[n]@.len(),
            ) && columns_written(*old(texture), *final(texture), columns@, n + 1),
{
    let width: usize = texture.width();
    let height: usize = texture.height();
    let mut n: usize = 0;
    while n < columns.len()
        invariant
            0 <= n <= columns@.len(),
            texture.width() == width,
            texture.height() == height,
            width == old(texture).width(),
            height == old(texture).height(),
            texture.wf(),
            forall|i: int|
                0 <= i < n ==> (#[trigger] column_outcome(
                    width,
                    height,
                    i as usize,
                    columns@[i]@.len(),
                )) is Ok,
            columns_written(*old(texture), *texture, columns@, n as int),
        decreases columns@.len() - n,
    {
        let ghost before = *texture;
        let outcome = texture.write_column(n, &columns[n]);
        proof {
            assert forall|i: int, j: int|
                0 <= i < width && 0 <= j < height implies #[trigger] texture.pixel_at(i, j)
                == if i < n + 1 && i < columns@.len() && j < columns@[i]@.len() {
                columns@[i]@[j]
            } else {
                old(texture).pixel_at(i, j)
            } by {
                assert(before.pixel_at(i, j) == if i < n && i < columns@.len() && j
                    < columns@[i]@.len() {
                    columns@[i]@[j]
                } else {
                    old(texture).pixel_at(i, j)
                });
            }
        }
        match outcome {
            Ok(()) => {},
            Err(e) => {
                proof {
                    assert(refused_at(width, height, columns@, n as int));
                    assert forall|m: int| refused_at(width, height, columns@, m) implies m == n by {
                        if m < n {
                            assert(column_outcome(width, height, m as usize, columns@[m]@.len())
                                is Ok);
                        } else if m > n {
                            assert(column_outcome(
                                width,
                                height,
                                n as usize,
                                columns@[n as int]@.len(),
                            ) is Ok);
                        }
                    }
                    assert(column_outcome(width, height, n as usize, columns@[n as int]@.len())
                        is Err);
                }
                return Err(e);
            },
        }
        n += 1;
    }
    proof {
        assert forall|m: int| refused_at(width, height, columns@, m) implies false by {
            assert(column_outcome(width, height, m as usize, columns@[m]@.len()) is Ok);
        }
    }
    Ok(())
}

/// Computes the colours of one column, from the top row down.
fn shade_column<F: Fn(usize, usize) -> Rgba<u8>>(x: usize, height: usize, shade: &F) -> (column:
    Vec<Rgba<u8>>)
    requires
        forall|j: usize| j < height ==> call_requires(*shade, (x, j)),
    ensures
        column_shaded(*shade, x, height, column@),
{
    let mut column: Vec<Rgba<u8>> = Vec::new();
    let mut j: usize = 0;
    while j < height
        invariant
            0 <= j <= height,
            column@.len() == j,
            forall|b: usize| b < height ==> call_requires(*shade, (x, b)),
            forall|b: int|
                0 <= b < j ==> call_ensures(*shade, (x, b as usize), #[trigger] column@[b]),
        decreases height - j,
    {
        let color = shade(x, j);
        column.push(color);
        j += 1;
    }
    column
}

/// Computes the columns `0..width` on rayon's worker pool, one task per
/// column: `into_par_iter` on the range, `map` with `shade_column`, and
/// `collect` into a vector, which keeps the range's order. So entry `i` of the
/// result is what `shade_column` returned for column `i`.
#[verifier::external_body]
fn par_columns<F: Fn(usize, usize) -> Rgba<u8> + Sync>(
    width: usize,
    height: usize,
    shade: &F,
) -> (columns: Vec<Vec<Rgba<u8>>>)
    requires
        forall|i: usize, j: usize| i < width && j < height ==> call_requires(*shade, (i, j)),
    ensures
        columns@.len() == width,
        forall|i: int|
            0 <= i < width ==> column_shaded(*shade, i as usize, height, (#[trigger] columns@[i])@),
{
    (0..width).into_par_iter().map(|x| shade_column(x, height, shade)).collect()
}

/// Renders on a pool of workers: the columns are shaded apart from each
/// other, one task per column, and then committed from the left. Every pixel
/// ends up with a colour that `shade` gave for its coordinates, as in
/// `render_single_thread`.
pub fn render_multi_thread<F: Fn(usize, usize) -> Rgba<u8> + Sync>(
    texture: &mut Texture,
    shade: F,
) -> (result: Result<(), BoundsError>)
    requires
        forall|i: usize, j: usize|
            i < old(texture).width() && j < old(texture).height() ==> call_requires(shade, (i, j)),
    ensures
        result == Ok::<(), BoundsError>(()),
        final(texture).width() == old(texture).width(),
        final(texture).height() == old(texture).height(),
        final(texture).wf(),
        shaded(*final(texture), shade),
{
    let width: usize = texture.width();
    let height: usize = texture.height();
    let columns = par_columns(width, height, &shade);
    proof {
        assert forall|i: int| 0 <= i < columns@.len() implies (#[trigger] column_outcome(
            width,
            height,
            i as usize,
            columns@[i]@.len(),
        )) is Ok by {
            assert(column_shaded(shade, i as usize, height, columns@[i]@));
        }
    }
    let result = commit_columns(texture, &columns);
    proof {
        assert forall|i: int, j: int| 0 <= i < width && 0 <= j < height implies call_ensures(
            shade,
            (i as usize, j as usize),
            #[trigger] texture.pixel_at(i, j),
        ) by {
            assert(column_shaded(shade, i as usize, height, columns@[i]@));
            assert(texture.pixel_at(i, j) == columns@[i]@[j]);
        }
    }
    result
}

/// Renders on the CPU in the given mode. Both modes run the same shading on
/// every pixel and differ only in the order of the work; a render on the
/// graphics device does not go through here.
pub fn render<F: Fn(usize, usize) -> Rgba<u8> + Sync>(
    texture: &mut Texture,
    mode: RenderMode,
    shade: F,
) -> (result: Result<(), BoundsError>)
    requires
        mode != RenderMode::Gpu,
        forall|i: usize, j: usize|
            i < old(texture).width() && j < old(texture).height() ==> call_requires(shade, (i, j)),
    ensures
        result == Ok::<(), BoundsError>(()),
        final(texture).width() == old(texture).width(),
        final(texture).height() == old(texture).height(),
        final(texture).wf(),
        shaded(*final(texture), shade),
{
    match mode {
        RenderMode::SingleThread => render_single_thread(texture, shade),
        // The graphics device is left out by the precondition.
        RenderMode::MultiThread | RenderMode::Gpu => render_multi_thread(texture, shade),
    }
}

} // verus!
