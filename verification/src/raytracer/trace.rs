//! The bookkeeping of a path: which primitive a ray hits first, what the path
//! contributes at each bounce, and when it is cut off.

use crate::colors::{Rgb, Rgba};
use vstd::prelude::*;

verus! {

/// The largest bounce count at which a path is still followed.
pub const MAX_RAY_BOUNCE: u32 = 1024;

/// What a ray met in the scene. `R` is the type of a ray.
#[derive(Debug)]
pub enum Encounter<R> {
    /// No primitive lies on the ray.
    Miss,
    /// The closest primitive took the ray and sent none back.
    Absorbed,
    /// The closest primitive, of this base colour, sent this bounce ray back.
    Scattered(Rgb<u8>, R),
}

/// What a path contributes at one bounce.
#[derive(Debug)]
pub enum TraceStep<R> {
    /// The path is cut off: it contributes black.
    Black,
    /// The path ends in the sky: it contributes the background colour.
    Background,
    /// The path goes on: it contributes `color`, channel by channel, times
    /// what the bounce ray `ray` contributes at bounce count
    /// `iteration_count`.
    Attenuate { color: Rgb<u8>, ray: R, iteration_count: u32 },
}

/// How a path ends.
#[derive(Debug)]
pub enum PathEnd<R> {
    /// Cut off past the maximum bounce count: the path carries no light.
    Black,
    /// This ray left the scene, or was absorbed: the path carries the
    /// background colour seen along it.
    Background(R),
}

/// A traced path: the base colours of the surfaces that scattered it, the
/// last one first, and how it ended. What the path contributes is the end's
/// colour, attenuated channel by channel by each of `colors` in turn.
#[derive(Debug)]
pub struct Path<R> {
    pub colors: Vec<Rgb<u8>>,
    pub end: PathEnd<R>,
}

/// The contribution of a path at bounce count `iteration_count`: black past
/// the maximum; else the background where the ray met nothing or was
/// absorbed; else the hit colour times the next bounce.
pub open spec fn spec_trace_step<R>(
    iteration_count: u32,
    max_iteration: u32,
    encounter: Encounter<R>,
) -> TraceStep<R> {
    if iteration_count > max_iteration {
        TraceStep::Black
    } else {
        match encounter {
            Encounter::Miss => TraceStep::Background,
            Encounter::Absorbed => TraceStep::Background,
            Encounter::Scattered(color, ray) => TraceStep::Attenuate {
                color,
                ray,
                iteration_count: (iteration_count + 1) as u32,
            },
        }
    }
}

/// Decides what a path contributes at one bounce, from its bounce count and
/// from what its ray met. Past the maximum the encounter is not looked at.
pub fn trace_step<R>(iteration_count: u32, max_iteration: u32, encounter: Encounter<R>) -> (step:
    TraceStep<R>)
    requires
        iteration_count <= max_iteration ==> iteration_count < u32::MAX,
    ensures
        step == spec_trace_step(iteration_count, max_iteration, encounter),
{
    if iteration_count > max_iteration {
        return TraceStep::Black;
    }
    match encounter {
        Encounter::Miss => TraceStep::Background,
        Encounter::Absorbed => TraceStep::Background,
        Encounter::Scattered(color, ray) => TraceStep::Attenuate {
            color,
            ray,
            iteration_count: iteration_count + 1,
        },
    }
}

/// `colors` and `end` describe a path that `ray` can take from bounce count
/// `iteration_count`, where `meet` says what a ray meets: past the maximum
/// the path is cut off at once; else `meet` is asked about the ray, and the
/// path ends in the background on a miss or an absorption, or goes on with
/// the bounce ray at the next count, its own colour coming last.
pub open spec fn is_path<R, F: Fn(&R) -> Encounter<R>>(
    meet: F,
    ray: R,
    iteration_count: u32,
    max_iteration: u32,
    colors: Seq<Rgb<u8>>,
    end: PathEnd<R>,
) -> bool
    decreases colors.len(),
{
    if iteration_count > max_iteration {
        colors.len() == 0 && end == PathEnd::<R>::Black
    } else {
        exists|encounter: Encounter<R>| #[trigger]
            call_ensures(meet, (&ray,), encounter) && match spec_trace_step(
                iteration_count,
                max_iteration,
                encounter,
            ) {
                TraceStep::Black => false,
                TraceStep::Background => colors.len() == 0 && end == PathEnd::Background(ray),
                TraceStep::Attenuate { color, ray: bounce, iteration_count: next } => {
                    &&& colors.len() > 0
                    &&& colors.last() == color
                    &&& is_path(meet, bounce, next, max_iteration, colors.drop_last(), end)
                },
            }
    }
}

/// Follows one path through the scene, depth first: asks `meet` what the ray
/// meets and goes on with the bounce ray while the surfaces scatter, up to
/// the maximum bounce count.
pub fn get_ray_color<R, F: Fn(&R) -> Encounter<R>>(
    ray: R,
    meet: &F,
    iteration_count: u32,
    max_iteration: u32,
) -> (path: Path<R>)
    requires
        max_iteration < u32::MAX,
        forall|r: &R| call_requires(*meet, (r,)),
    ensures
        is_path(*meet, ray, iteration_count, max_iteration, path.colors@, path.end),
    decreases max_iteration + 1 - iteration_count,
{
    if iteration_count > max_iteration {
        return Path { colors: Vec::new(), end: PathEnd::Black };
    }
    let encounter = meet(&ray);
    let ghost met = encounter;
    match trace_step(iteration_count, max_iteration, encounter) {
        TraceStep::Attenuate { color, ray: bounce, iteration_count: next } => {
            let mut path = get_ray_color(bounce, meet, next, max_iteration);
            let ghost rest = path.colors@;
            path.colors.push(color);
            proof {
                assert(path.colors@.drop_last() =~= rest);
                assert(call_ensures(*meet, (&ray,), met));
            }
            path
        },
        _ => {
            proof {
                assert(call_ensures(*meet, (&ray,), met));
            }
            Path { colors: Vec::new(), end: PathEnd::Background(ray) }
        },
    }
}

/// Follows the path of one sample ray from bounce count zero up to
/// `MAX_RAY_BOUNCE`.
pub fn render_pixel_sample<R, F: Fn(&R) -> Encounter<R>>(ray: R, meet: &F) -> (path: Path<R>)
    requires
        forall|r: &R| call_requires(*meet, (r,)),
    ensures
        is_path(*meet, ray, 0, MAX_RAY_BOUNCE, path.colors@, path.end),
{
    get_ray_color(ray, meet, 0, MAX_RAY_BOUNCE)
}

/// `path` is the path of one sample of pixel `(i, j)`: it starts with a ray
/// that `camera_ray` gave for the pixel and follows it from bounce count zero
/// up to `MAX_RAY_BOUNCE`.
pub open spec fn is_sample<R, G: Fn(usize, usize) -> R, F: Fn(&R) -> Encounter<R>>(
    camera_ray: G,
    meet: F,
    i: usize,
    j: usize,
    path: Path<R>,
) -> bool {
    exists|ray: R| #[trigger]
        call_ensures(camera_ray, (i, j), ray) && is_path(
            meet,
            ray,
            0,
            MAX_RAY_BOUNCE,
            path.colors@,
            path.end,
        )
}

/// Takes the samples of one pixel: `sample_count` times, asks `camera_ray`
/// for a ray through the pixel and follows its path. The paths come in the
/// order in which they were taken.
pub fn sample_pixel<R, G: Fn(usize, usize) -> R, F: Fn(&R) -> Encounter<R>>(
    i: usize,
    j: usize,
    sample_count: u32,
    camera_ray: &G,
    meet: &F,
) -> (paths: Vec<Path<R>>)
    requires
        call_requires(*camera_ray, (i, j)),
        forall|r: &R| call_requires(*meet, (r,)),
    ensures
        paths@.len() == sample_count,
        forall|k: int|
            0 <= k < paths@.len() ==> is_sample(*camera_ray, *meet, i, j, #[trigger] paths@[k]),
{
    let mut paths: Vec<Path<R>> = Vec::new();
    let mut taken: u32 = 0;
    while taken < sample_count
        invariant
            0 <= taken <= sample_count,
            paths@.len() == taken,
            call_requires(*camera_ray, (i, j)),
            forall|r: &R| call_requires(*meet, (r,)),
            forall|k: int|
                0 <= k < paths@.len() ==> is_sample(
                    *camera_ray,
                    *meet,
                    i,
                    j,
                    #[trigger] paths@[k],
                ),
        decreases sample_count - taken,
    {
        let ray = camera_ray(i, j);
        let ghost first = ray;
        let path = render_pixel_sample(ray, meet);
        proof {
            assert(call_ensures(*camera_ray, (i, j), first));
            assert(is_sample(*camera_ray, *meet, i, j, path));
        }
        paths.push(path);
        taken += 1;
    }
    paths
}

/// `color` is a colour of pixel `(i, j)`: the average, as `average` took it,
/// of `sample_count` samples of the pixel, with full alpha.
pub open spec fn is_pixel_color<
    R,
    G: Fn(usize, usize) -> R,
    F: Fn(&R) -> Encounter<R>,
    A: Fn(Vec<Path<R>>) -> Rgb<u8>,
>(
    camera_ray: G,
    meet: F,
    average: A,
    i: usize,
    j: usize,
    sample_count: u32,
    color: Rgba<u8>,
) -> bool {
    exists|paths: Vec<Path<R>>, mean: Rgb<u8>|
        {
            &&& paths@.len() == sample_count
            &&& forall|k: int|
                0 <= k < paths@.len() ==> is_sample(camera_ray, meet, i, j, #[trigger] paths@[k])
            &&& #[trigger] call_ensures(average, (paths,), mean)
            &&& color@ == mean@.push(255u8)
        }
}

/// Computes the colour of one pixel: takes `sample_count` samples of it,
/// hands their paths to `average`, and gives the averaged colour full alpha.
pub fn render_pixel<
    R,
    G: Fn(usize, usize) -> R,
    F: Fn(&R) -> Encounter<R>,
    A: Fn(Vec<Path<R>>) -> Rgb<u8>,
>(
    i: usize,
    j: usize,
    sample_count: u32,
    camera_ray: &G,
    meet: &F,
    average: &A,
) -> (color: Rgba<u8>)
    requires
        call_requires(*camera_ray, (i, j)),
        forall|r: &R| call_requires(*meet, (r,)),
        forall|paths: Vec<Path<R>>| call_requires(*average, (paths,)),
    ensures
        is_pixel_color(*camera_ray, *meet, *average, i, j, sample_count, color),
{
    let paths = sample_pixel(i, j, sample_count, camera_ray, meet);
    let ghost taken = paths;
    let mean = average(paths);
    let color = Rgba::from_rgb(&mean, 255);
    proof {
        assert(call_ensures(*average, (taken,), mean));
    }
    color
}

/// A path is bounded: from bounce count `iteration_count` it is attenuated at
/// most `max_iteration + 1 - iteration_count` times, and it is cut off to
/// black exactly where it was attenuated that often.
pub proof fn lemma_path_is_bounded<R, F: Fn(&R) -> Encounter<R>>(
    meet: F,
    ray: R,
    iteration_count: u32,
    max_iteration: u32,
    colors: Seq<Rgb<u8>>,
    end: PathEnd<R>,
)
    requires
        max_iteration < u32::MAX,
        iteration_count <= max_iteration + 1,
        is_path(meet, ray, iteration_count, max_iteration, colors, end),
    ensures
        iteration_count + colors.len() <= max_iteration + 1,
        end is Black <==> iteration_count + colors.len() == max_iteration + 1,
    decreases colors.len(),
{
    if iteration_count <= max_iteration {
        let encounter = choose|encounter: Encounter<R>| #[trigger]
            call_ensures(meet, (&ray,), encounter) && match spec_trace_step(
                iteration_count,
                max_iteration,
                encounter,
            ) {
                TraceStep::Black => false,
                TraceStep::Background => colors.len() == 0 && end == PathEnd::Background(ray),
                TraceStep::Attenuate { color, ray: bounce, iteration_count: next } => {
                    &&& colors.len() > 0
                    &&& colors.last() == color
                    &&& is_path(meet, bounce, next, max_iteration, colors.drop_last(), end)
                },
            };
        match spec_trace_step(iteration_count, max_iteration, encounter) {
            TraceStep::Attenuate { color, ray: bounce, iteration_count: next } => {
                lemma_path_is_bounded(meet, bounce, next, max_iteration, colors.drop_last(), end);
            },
            _ => {},
        }
    }
}

/// With nothing to hit, a path within the depth bound is the background seen
/// along its first ray, unattenuated.
pub proof fn lemma_empty_scene_is_background<R, F: Fn(&R) -> Encounter<R>>(
    meet: F,
    ray: R,
    iteration_count: u32,
    max_iteration: u32,
    colors: Seq<Rgb<u8>>,
    end: PathEnd<R>,
)
    requires
        iteration_count <= max_iteration,
        forall|r: &R, encounter: Encounter<R>| #[trigger]
            call_ensures(meet, (r,), encounter) ==> encounter is Miss,
        is_path(meet, ray, iteration_count, max_iteration, colors, end),
    ensures
        colors.len() == 0,
        end == PathEnd::Background(ray),
{
}

/// The key of a hit that lies unboundedly far: a hit is chosen only where its
/// key is below this one.
pub const FAR_LIMIT: u32 = 0x7f80_0000;

/// Entry `k` is the closest hit of a scan: it is a hit below the far limit,
/// every hit before it has a greater key, and no hit after it has a smaller
/// one.
pub open spec fn is_closest(keys: Seq<Option<u32>>, k: int) -> bool {
    &&& 0 <= k < keys.len()
    &&& keys[k] is Some
    &&& keys[k].unwrap() < FAR_LIMIT
    &&& forall|i: int|
        0 <= i < keys.len() && (#[trigger] keys[i]) is Some ==> if i < k {
            keys[i].unwrap() > keys[k].unwrap()
        } else {
            keys[i].unwrap() >= keys[k].unwrap()
        }
}

/// A scan has at most one closest hit.
pub proof fn lemma_closest_is_unique(keys: Seq<Option<u32>>, a: int, b: int)
    requires
        is_closest(keys, a),
        is_closest(keys, b),
    ensures
        a == b,
{
    assert(keys[a] is Some);
    assert(keys[b] is Some);
}

/// An empty scene has no closest hit: a ray into it meets nothing.
pub proof fn lemma_empty_scene_has_no_hit(keys: Seq<Option<u32>>, k: int)
    requires
        keys.len() == 0,
    ensures
        !is_closest(keys, k),
{
}

/// Scans the primitives' answers in scene order and picks the closest hit.
/// `keys[i]` is `None` where primitive `i` is missed, else a key that grows
/// with the hit's distance. The result is the primitive with the smallest key
/// below the far limit, the first of them where several share it; `None`
/// where no primitive has such a key.
pub fn closest_hit(keys: &Vec<Option<u32>>) -> (result: Option<usize>)
    ensures
        match result {
            Some(k) => is_closest(keys@, k as int),
            None => forall|i: int|
                0 <= i < keys@.len() && (#[trigger] keys@[i]) is Some ==> keys@[i].unwrap()
                    >= FAR_LIMIT,
        },
{
    let mut closest: Option<usize> = None;
    let mut min_key: u32 = FAR_LIMIT;
    let mut i: usize = 0;
    while i < keys.len()
        invariant
            0 <= i <= keys@.len(),
            match closest {
                Some(k) => {
                    &&& k < i
                    &&& keys@[k as int] == Some(min_key)
                    &&& min_key < FAR_LIMIT
                    &&& forall|n: int|
                        0 <= n < i && (#[trigger] keys@[n]) is Some ==> if n < k {
                            keys@[n].unwrap() > min_key
                        } else {
                            keys@[n].unwrap() >= min_key
                        }
                },
                None => min_key == FAR_LIMIT && forall|n: int|
                    0 <= n < i && (#[trigger] keys@[n]) is Some ==> keys@[n].unwrap() >= FAR_LIMIT,
            },
        decreases keys@.len() - i,
    {
        if let Some(key) = keys[i] {
            if min_key > key {
                min_key = key;
                closest = Some(i);
            }
        }
        i += 1;
    }
    closest
}

} // verus!
