use raytracer::colors::{Rgb, Rgba};
use raytracer::raytracer::camera::Resolution;
use raytracer::raytracer::material::{DiffuseMaterial, MetalMaterial};
use raytracer::raytracer::{
    closest_hit, commit_columns, get_ray_color, render, render_multi_thread, render_pixel,
    render_pixel_sample, render_single_thread, sample_pixel, trace_step, Args, Encounter, Path,
    PathEnd, RenderMode, TraceStep, FAR_LIMIT, MAX_RAY_BOUNCE,
};
use raytracer::texture::{BoundsError, Texture};

fn blank(width: usize, height: usize) -> Texture {
    Texture::new(vec![Rgba::<u8>::default(); width * height], width, height)
}

fn bytes(texture: &Texture) -> Vec<[u8; 4]> {
    texture.pixels().iter().map(|p| p.0).collect()
}

#[test]
fn default_args() {
    let args = Args::default();
    assert_eq!(args.mode, RenderMode::Gpu);
    assert_eq!(args.samples, 128);
}

#[test]
fn resolution_holds_its_fields() {
    let resolution = Resolution { width: 640, height: 480 };
    assert_eq!(resolution, Resolution { width: 640, height: 480 });
}

#[test]
fn materials_give_their_colour() {
    let diffuse = DiffuseMaterial { color: Rgb([25, 52, 125]) };
    let metal = MetalMaterial { color: Rgb([200, 150, 50]) };
    assert_eq!(diffuse.get_color().0, [25, 52, 125]);
    assert_eq!(metal.get_color().0, [200, 150, 50]);
}

#[test]
fn bounce_limit() {
    assert_eq!(MAX_RAY_BOUNCE, 1024);
}

#[test]
fn trace_step_miss_is_background() {
    assert!(matches!(trace_step(0, 1024, Encounter::<u8>::Miss), TraceStep::Background));
    assert!(matches!(trace_step(1024, 1024, Encounter::<u8>::Miss), TraceStep::Background));
}

#[test]
fn trace_step_absorbed_is_background() {
    assert!(matches!(trace_step(3, 1024, Encounter::<u8>::Absorbed), TraceStep::Background));
}

#[test]
fn trace_step_scattered_attenuates_and_counts() {
    let step = trace_step(5, 1024, Encounter::Scattered(Rgb([1, 2, 3]), 'r'));
    match step {
        TraceStep::Attenuate { color, ray, iteration_count } => {
            assert_eq!(color.0, [1, 2, 3]);
            assert_eq!(ray, 'r');
            assert_eq!(iteration_count, 6);
        }
        other => panic!("unexpected step {:?}", other),
    }
}

#[test]
fn trace_step_at_the_limit_still_goes_on() {
    let step = trace_step(1024, 1024, Encounter::Scattered(Rgb([9, 9, 9]), 0u8));
    assert!(matches!(step, TraceStep::Attenuate { iteration_count: 1025, .. }));
}

#[test]
fn trace_step_past_the_limit_is_black() {
    for encounter in
        [Encounter::Miss, Encounter::Absorbed, Encounter::Scattered(Rgb([9, 9, 9]), 0u8)]
    {
        assert!(matches!(trace_step(1025, 1024, encounter), TraceStep::Black));
    }
    assert!(matches!(trace_step(u32::MAX, 0, Encounter::<u8>::Miss), TraceStep::Black));
}

fn colours(path: &Path<u32>) -> Vec<[u8; 3]> {
    path.colors.iter().map(|c| c.0).collect()
}

#[test]
fn a_path_into_an_empty_scene_is_the_background() {
    let meet = |_: &u32| Encounter::Miss;
    let path = get_ray_color(7u32, &meet, 0, 1024);
    assert!(path.colors.is_empty());
    assert!(matches!(path.end, PathEnd::Background(7)));
}

#[test]
fn a_path_lists_its_surfaces_last_first() {
    let meet = |ray: &u32| {
        if *ray < 3 {
            Encounter::Scattered(Rgb([*ray as u8, 0, 0]), ray + 1)
        } else {
            Encounter::Miss
        }
    };
    let path = get_ray_color(0u32, &meet, 0, 1024);
    assert_eq!(colours(&path), vec![[2, 0, 0], [1, 0, 0], [0, 0, 0]]);
    assert!(matches!(path.end, PathEnd::Background(3)));
}

#[test]
fn an_absorbed_path_ends_in_the_background_of_its_last_ray() {
    let meet = |ray: &u32| {
        if *ray == 0 {
            Encounter::Scattered(Rgb([5, 6, 7]), 1)
        } else {
            Encounter::Absorbed
        }
    };
    let path = get_ray_color(0u32, &meet, 0, 1024);
    assert_eq!(colours(&path), vec![[5, 6, 7]]);
    assert!(matches!(path.end, PathEnd::Background(1)));
}

#[test]
fn a_path_is_cut_off_past_the_maximum() {
    let meet = |ray: &u32| Encounter::Scattered(Rgb([1, 1, 1]), ray + 1);
    let path = get_ray_color(0u32, &meet, 0, 4);
    assert_eq!(path.colors.len(), 5);
    assert!(matches!(path.end, PathEnd::Black));
}

#[test]
fn a_path_that_starts_past_the_maximum_asks_nothing() {
    let meet = |_: &u32| -> Encounter<u32> { panic!("the scene is not looked at") };
    let path = get_ray_color(0u32, &meet, 5, 4);
    assert!(path.colors.is_empty());
    assert!(matches!(path.end, PathEnd::Black));
}

#[test]
fn a_sample_is_followed_for_1025_bounces() {
    let meet = |ray: &u32| Encounter::Scattered(Rgb([1, 1, 1]), ray + 1);
    let path = render_pixel_sample(0u32, &meet);
    assert_eq!(path.colors.len(), 1025);
    assert!(matches!(path.end, PathEnd::Black));
}

#[test]
fn closest_hit_of_nothing() {
    assert_eq!(closest_hit(&Vec::new()), None);
    assert_eq!(closest_hit(&vec![None, None]), None);
}

#[test]
fn closest_hit_picks_the_smallest_key() {
    assert_eq!(closest_hit(&vec![Some(30), None, Some(10), Some(20)]), Some(2));
    assert_eq!(closest_hit(&vec![Some(5)]), Some(0));
}

#[test]
fn closest_hit_keeps_the_first_of_equal_keys() {
    assert_eq!(closest_hit(&vec![Some(7), Some(3), Some(3), Some(9)]), Some(1));
}

#[test]
fn closest_hit_ignores_keys_at_or_past_the_far_limit() {
    assert_eq!(closest_hit(&vec![Some(FAR_LIMIT), Some(u32::MAX)]), None);
    assert_eq!(closest_hit(&vec![Some(FAR_LIMIT), Some(FAR_LIMIT - 1)]), Some(1));
}

#[test]
fn closest_hit_follows_distances() {
    let distances = [2.5f32, 0.75, f32::INFINITY, 1.0, f32::NAN];
    let keys: Vec<Option<u32>> = distances.iter().map(|d| Some(d.to_bits())).collect();
    assert_eq!(closest_hit(&keys), Some(1));
}

#[test]
fn render_single_thread_shades_every_pixel() {
    let mut texture = blank(3, 2);
    let shade = |i: usize, j: usize| Rgba([i as u8, j as u8, 0, 255]);
    assert_eq!(render_single_thread(&mut texture, shade), Ok(()));
    assert_eq!(
        bytes(&texture),
        vec![
            [0, 0, 0, 255],
            [1, 0, 0, 255],
            [2, 0, 0, 255],
            [0, 1, 0, 255],
            [1, 1, 0, 255],
            [2, 1, 0, 255],
        ]
    );
}

#[test]
fn render_single_thread_goes_column_by_column() {
    let order = std::cell::RefCell::new(Vec::new());
    let mut texture = blank(2, 2);
    let shade = |i: usize, j: usize| {
        order.borrow_mut().push((i, j));
        Rgba([0, 0, 0, 255])
    };
    assert_eq!(render_single_thread(&mut texture, shade), Ok(()));
    assert_eq!(order.into_inner(), vec![(0, 0), (0, 1), (1, 0), (1, 1)]);
}

#[test]
fn render_single_thread_on_an_empty_texture() {
    let mut texture = blank(0, 4);
    let shade = |_: usize, _: usize| -> Rgba<u8> { panic!("no pixel to shade") };
    assert_eq!(render_single_thread(&mut texture, shade), Ok(()));
    assert_eq!(texture.data(), Vec::<u8>::new());
}

#[test]
fn commit_columns_writes_each_column() {
    let mut texture = blank(2, 2);
    let columns =
        vec![vec![Rgba([1u8; 4]), Rgba([2; 4])], vec![Rgba([3u8; 4]), Rgba([4; 4])]];
    assert_eq!(commit_columns(&mut texture, &columns), Ok(()));
    assert_eq!(bytes(&texture), vec![[1; 4], [3; 4], [2; 4], [4; 4]]);
}

#[test]
fn commit_columns_agrees_with_render_single_thread() {
    let shade = |i: usize, j: usize| Rgba([(10 * i + j) as u8, 0, 0, 255]);
    let mut sequential = blank(4, 3);
    render_single_thread(&mut sequential, shade).unwrap();
    let columns: Vec<Vec<Rgba<u8>>> =
        (0..4).rev().map(|i| (0..3).map(|j| shade(i, j)).collect()).rev().collect();
    let mut parallel = blank(4, 3);
    commit_columns(&mut parallel, &columns).unwrap();
    assert_eq!(bytes(&sequential), bytes(&parallel));
}

#[test]
fn commit_columns_stops_at_a_column_outside() {
    let mut texture = blank(1, 2);
    let columns = vec![vec![Rgba([1u8; 4]), Rgba([2; 4])], vec![Rgba([3u8; 4])]];
    let result = commit_columns(&mut texture, &columns);
    assert_eq!(result, Err(BoundsError::Width { x: 1, width: 1 }));
    assert_eq!(bytes(&texture), vec![[1; 4], [2; 4]]);
}

#[test]
fn commit_columns_stops_at_a_column_too_long() {
    let mut texture = blank(2, 1);
    let columns = vec![vec![Rgba([1u8; 4]), Rgba([2; 4])], vec![Rgba([3u8; 4])]];
    let result = commit_columns(&mut texture, &columns);
    assert_eq!(result, Err(BoundsError::Height { y: 1, height: 1 }));
    assert_eq!(bytes(&texture), vec![[1; 4], [0; 4]]);
}

#[test]
fn commit_columns_of_nothing_changes_nothing() {
    let mut texture = blank(2, 1);
    assert_eq!(commit_columns(&mut texture, &Vec::new()), Ok(()));
    assert_eq!(bytes(&texture), vec![[0; 4], [0; 4]]);
}

#[test]
fn render_multi_thread_shades_every_pixel() {
    let mut texture = blank(3, 2);
    let shade = |i: usize, j: usize| Rgba([i as u8, j as u8, 7, 255]);
    assert_eq!(render_multi_thread(&mut texture, shade), Ok(()));
    assert_eq!(
        bytes(&texture),
        vec![
            [0, 0, 7, 255],
            [1, 0, 7, 255],
            [2, 0, 7, 255],
            [0, 1, 7, 255],
            [1, 1, 7, 255],
            [2, 1, 7, 255],
        ]
    );
}

#[test]
fn render_multi_thread_calls_shade_once_per_pixel() {
    let calls = std::sync::atomic::AtomicUsize::new(0);
    let mut texture = blank(16, 9);
    let shade = |_: usize, _: usize| {
        calls.fetch_add(1, std::sync::atomic::Ordering::SeqCst);
        Rgba([1, 2, 3, 255])
    };
    assert_eq!(render_multi_thread(&mut texture, shade), Ok(()));
    assert_eq!(calls.into_inner(), 16 * 9);
    assert_eq!(bytes(&texture), vec![[1, 2, 3, 255]; 16 * 9]);
}

#[test]
fn render_multi_thread_on_an_empty_texture() {
    let mut texture = blank(5, 0);
    let shade = |_: usize, _: usize| -> Rgba<u8> { panic!("no pixel to shade") };
    assert_eq!(render_multi_thread(&mut texture, shade), Ok(()));
    assert_eq!(texture.data(), Vec::<u8>::new());
}

#[test]
fn both_modes_give_the_same_image() {
    let shade = |i: usize, j: usize| Rgba([(7 * i + 3 * j) as u8, i as u8, j as u8, 255]);
    let mut sequential = blank(20, 10);
    let mut parallel = blank(20, 10);
    assert_eq!(render(&mut sequential, RenderMode::SingleThread, shade), Ok(()));
    assert_eq!(render(&mut parallel, RenderMode::MultiThread, shade), Ok(()));
    assert_eq!(sequential.data(), parallel.data());
    assert_eq!(sequential.pixels()[10 * 20 - 1].0, [(7 * 19 + 3 * 9) as u8, 19, 9, 255]);
}

#[test]
fn a_constant_shade_fills_the_image_in_every_mode() {
    let background = Rgba([125, 178, 255, 255]);
    for mode in [RenderMode::SingleThread, RenderMode::MultiThread] {
        let mut texture = blank(8, 8);
        assert_eq!(render(&mut texture, mode, |_, _| background), Ok(()));
        assert!(texture.pixels().iter().all(|p| p.0 == background.0));
    }
}

#[test]
fn columns_commit_in_any_order() {
    let left = vec![Rgba([1u8; 4]), Rgba([2; 4])];
    let right = vec![Rgba([3u8; 4]), Rgba([4; 4])];
    let mut one = blank(2, 2);
    one.write_column(0, &left).unwrap();
    one.write_column(1, &right).unwrap();
    let mut other = blank(2, 2);
    other.write_column(1, &right).unwrap();
    other.write_column(0, &left).unwrap();
    assert_eq!(bytes(&one), bytes(&other));
    assert_eq!(bytes(&one), vec![[1; 4], [3; 4], [2; 4], [4; 4]]);
}

#[test]
fn sample_pixel_takes_each_sample_in_turn() {
    let drawn = std::cell::Cell::new(0u32);
    let camera_ray = |i: usize, j: usize| {
        drawn.set(drawn.get() + 1);
        (100 * i + 10 * j) as u32 + drawn.get()
    };
    let meet = |ray: &u32| {
        if *ray % 2 == 0 {
            Encounter::Scattered(Rgb([*ray as u8, 0, 0]), ray + 1)
        } else {
            Encounter::Miss
        }
    };
    let paths = sample_pixel(1, 2, 3, &camera_ray, &meet);
    assert_eq!(paths.len(), 3);
    assert_eq!(drawn.get(), 3);
    assert!(paths[0].colors.is_empty());
    assert!(matches!(paths[0].end, PathEnd::Background(121)));
    assert_eq!(colours(&paths[1]), vec![[122, 0, 0]]);
    assert!(matches!(paths[1].end, PathEnd::Background(123)));
    assert!(paths[2].colors.is_empty());
    assert!(matches!(paths[2].end, PathEnd::Background(123)));
}

#[test]
fn sample_pixel_without_samples_asks_nothing() {
    let camera_ray = |_: usize, _: usize| -> u32 { panic!("no sample to take") };
    let meet = |_: &u32| -> Encounter<u32> { panic!("no ray to follow") };
    assert!(sample_pixel(0, 0, 0, &camera_ray, &meet).is_empty());
}

#[test]
fn render_pixel_averages_the_samples_and_adds_full_alpha() {
    let camera_ray = |i: usize, j: usize| (i + j) as u32;
    let meet = |ray: &u32| {
        if *ray < 6 {
            Encounter::Scattered(Rgb([10, 20, 30]), ray + 1)
        } else {
            Encounter::Miss
        }
    };
    let average = |paths: Vec<Path<u32>>| {
        let bounces: usize = paths.iter().map(|p| p.colors.len()).sum();
        Rgb([paths.len() as u8, bounces as u8, 9])
    };
    let color = render_pixel(1, 2, 4, &camera_ray, &meet, &average);
    assert_eq!(color.0, [4, 12, 9, 255]);
}

#[test]
fn render_pixel_without_samples_still_asks_for_the_average() {
    let camera_ray = |_: usize, _: usize| -> u32 { panic!("no sample to take") };
    let meet = |_: &u32| -> Encounter<u32> { panic!("no ray to follow") };
    let average = |paths: Vec<Path<u32>>| Rgb([paths.len() as u8, 1, 2]);
    assert_eq!(render_pixel(0, 0, 0, &camera_ray, &meet, &average).0, [0, 1, 2, 255]);
}
