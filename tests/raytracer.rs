use vko_tracer::raytracer::{
    process_config, render_image, select_hit, shade, Color, Rgba8, DEFAULT_FILENAME,
};

const RED: Color = Color { r: 255, g: 0, b: 0 };
const GREEN: Color = Color { r: 0, g: 255, b: 0 };
const BLUE: Color = Color { r: 0, g: 0, b: 255 };

#[test]
fn it_works() {
    assert_eq!(2 + 2, 4);
}

#[test]
fn process_config_defaults_to_scene_obj() {
    assert_eq!(process_config(None), "scene.obj");
    assert_eq!(DEFAULT_FILENAME, "scene.obj");
}

#[test]
fn process_config_keeps_given_file() {
    assert_eq!(process_config(Some("room.obj")), "room.obj");
}

#[test]
fn select_hit_keeps_last_in_range_sphere() {
    // Two overlapping spheres along one ray: the later one wins, even if nearer
    // spheres come first in scene order.
    assert_eq!(select_hit(&vec![true, true]), Some(1));
    assert_eq!(select_hit(&vec![true, false, true, false]), Some(2));
    assert_eq!(select_hit(&vec![false, true, false, false]), Some(1));
}

#[test]
fn select_hit_reports_no_hit() {
    assert_eq!(select_hit(&vec![false, false, false, false]), None);
    assert_eq!(select_hit(&vec![]), None);
}

#[test]
fn shade_uses_sphere_color_or_white() {
    let colors = vec![BLUE, GREEN, RED];
    assert_eq!(shade(Some(2), &colors), Rgba8 { r: 255, g: 0, b: 0, a: 255 });
    assert_eq!(shade(Some(0), &colors), Rgba8 { r: 0, g: 0, b: 255, a: 255 });
    assert_eq!(shade(None, &colors), Rgba8 { r: 255, g: 255, b: 255, a: 255 });
}

#[test]
fn render_image_places_pixels_row_major() {
    let colors = vec![RED, GREEN];
    let hits = vec![None, Some(0), Some(1), None, Some(0), None];
    let img = render_image(3, 2, &hits, &colors);
    assert_eq!(img.len(), 3 * 2 * 4);
    assert_eq!(&img[0..4], &[255, 255, 255, 255]);
    assert_eq!(&img[4..8], &[255, 0, 0, 255]);
    assert_eq!(&img[8..12], &[0, 255, 0, 255]);
    // pixel (1, 1) starts at (1 * 3 + 1) * 4
    assert_eq!(&img[16..20], &[255, 0, 0, 255]);
    assert_eq!(&img[20..24], &[255, 255, 255, 255]);
}

#[test]
fn empty_scene_renders_all_white() {
    let colors: Vec<Color> = vec![];
    let hits: Vec<Option<usize>> = (0..16).map(|_| select_hit(&vec![])).collect();
    let img = render_image(4, 4, &hits, &colors);
    assert_eq!(img.len(), 4 * 4 * 4);
    assert!(img.iter().all(|&b| b == 255));
}

#[test]
fn reference_size_image_is_opaque() {
    let colors = vec![BLUE, GREEN, RED, GREEN];
    let n = 1024 * 1024;
    let hits: Vec<Option<usize>> = (0..n)
        .map(|p| select_hit(&vec![p % 3 == 0, p % 5 == 0, p % 7 == 0, false]))
        .collect();
    let img = render_image(1024, 1024, &hits, &colors);
    assert_eq!(img.len(), 1024 * 1024 * 4);
    assert!(img.chunks(4).all(|px| px[3] == 255));
    // pixel 0 is in range of the first three spheres: the third (red) wins
    assert_eq!(&img[0..4], &[255, 0, 0, 255]);
    // pixel 5 is in range of the second sphere only
    assert_eq!(&img[20..24], &[0, 255, 0, 255]);
}

#[test]
fn rendering_twice_gives_identical_bytes() {
    let colors = vec![BLUE, GREEN, RED];
    let rows: Vec<Vec<bool>> = (0..64).map(|p| vec![p % 2 == 0, p % 3 == 0, p % 4 == 0]).collect();
    let hits1: Vec<Option<usize>> = rows.iter().map(|r| select_hit(r)).collect();
    let hits2: Vec<Option<usize>> = rows.iter().map(|r| select_hit(r)).collect();
    let a = render_image(8, 8, &hits1, &colors);
    let b = render_image(8, 8, &hits2, &colors);
    assert_eq!(a, b);
}
