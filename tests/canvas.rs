use ezel::canvas::{Canvas, CanvasError};
use ezel::pixels::{fill_region, solid_pixels, Rgb};
use ezel::region::Region;

fn pixel_at(pixels: &[u8], width: u32, x: u32, y: u32) -> (u8, u8, u8) {
    let i = ((y * width + x) * 3) as usize;
    (pixels[i], pixels[i + 1], pixels[i + 2])
}

#[test]
fn new_canvas_is_root_and_background_filled() {
    let c = Canvas::new(Some(4), Some(3), None).unwrap();
    assert!(c.is_root());
    assert_eq!(c.buffer_size(), (4, 3));
    assert_eq!(c.area(), Region { x: 0, y: 0, width: 4, height: 3 });
    let px = c.pixels();
    assert_eq!(px.len(), 4 * 3 * 3);
    assert!(px.iter().all(|&b| b == 238));
}

#[test]
fn new_canvas_uses_default_size() {
    let c = Canvas::new(None, None, Some("red")).unwrap();
    assert_eq!(c.dim_in_pixel(), (1000, 800));
    assert_eq!(c.pixels().len(), 1000 * 800 * 3);
}

#[test]
fn new_canvas_rejects_zero_size() {
    assert_eq!(Canvas::new(Some(0), Some(10), None).err(), Some(CanvasError::InvalidArgument));
    assert_eq!(Canvas::new(Some(10), Some(0), None).err(), Some(CanvasError::InvalidArgument));
}

#[test]
fn new_canvas_rejects_oversized_buffer() {
    assert_eq!(
        Canvas::new(Some(100_000), Some(100_000), None).err(),
        Some(CanvasError::AllocationFailure)
    );
    assert_eq!(
        Canvas::new(Some(usize::MAX), Some(1), None).err(),
        Some(CanvasError::AllocationFailure)
    );
}

#[test]
fn default_horizontal_split_halves_width() {
    let c = Canvas::new(Some(400), Some(300), None).unwrap();
    let (a, b) = c.split_horizontally(None);
    assert_eq!(a.area(), Region { x: 0, y: 0, width: 200, height: 300 });
    assert_eq!(b.area(), Region { x: 200, y: 0, width: 200, height: 300 });
    assert!(!a.is_root());
    assert!(!b.is_root());
}

#[test]
fn default_vertical_split_rounds_down() {
    let c = Canvas::new(Some(5), Some(7), None).unwrap();
    let (a, b) = c.split_vertically(None);
    assert_eq!(a.dim_in_pixel(), (5, 3));
    assert_eq!(b.dim_in_pixel(), (5, 4));
    assert_eq!(b.area().y, 3);
}

#[test]
fn explicit_split_and_clamped_offset() {
    let c = Canvas::new(Some(10), Some(10), None).unwrap();
    let (left, right) = c.split_horizontally(Some(7));
    assert_eq!(left.dim_in_pixel(), (7, 10));
    assert_eq!(right.dim_in_pixel(), (3, 10));
    let (top, bottom) = left.split_vertically(Some(12));
    assert_eq!(top.dim_in_pixel(), (7, 10));
    assert_eq!(bottom.dim_in_pixel(), (7, 0));
    assert_eq!(bottom.area(), Region { x: 0, y: 10, width: 7, height: 0 });
}

#[test]
fn horizontal_split_past_edge_leaves_empty_right() {
    let c = Canvas::new(Some(6), Some(2), None).unwrap();
    let (a, b) = c.split_horizontally(Some(9));
    assert_eq!(a.area(), Region { x: 0, y: 0, width: 6, height: 2 });
    assert_eq!(b.area(), Region { x: 6, y: 0, width: 0, height: 2 });
}

#[test]
fn parent_stays_usable_after_split() {
    let c = Canvas::new(Some(4), Some(2), None).unwrap();
    let (a, b) = c.split_horizontally(None);
    c.fill(Rgb { r: 1, g: 2, b: 3 });
    let px = a.pixels();
    assert!(px.chunks(3).all(|p| p == [1, 2, 3]));
    b.fill(Rgb { r: 9, g: 9, b: 9 });
    let px = c.pixels();
    assert_eq!(pixel_at(&px, 4, 1, 1), (1, 2, 3));
    assert_eq!(pixel_at(&px, 4, 2, 0), (9, 9, 9));
    assert_eq!(pixel_at(&px, 4, 3, 1), (9, 9, 9));
}

#[test]
fn child_fill_touches_only_its_region() {
    let c = Canvas::new(Some(3), Some(4), None).unwrap();
    let (top, bottom) = c.split_vertically(Some(1));
    bottom.fill(Rgb { r: 200, g: 10, b: 0 });
    let px = top.pixels();
    for x in 0..3 {
        assert_eq!(pixel_at(&px, 3, x, 0), (238, 238, 238));
        for y in 1..4 {
            assert_eq!(pixel_at(&px, 3, x, y), (200, 10, 0));
        }
    }
}

#[test]
fn save_image_on_root_has_buffer_and_size() {
    let c = Canvas::new(Some(2), Some(3), None).unwrap();
    let (a, _) = c.split_vertically(None);
    a.fill(Rgb { r: 0, g: 0, b: 255 });
    let img = c.save_image().unwrap();
    assert_eq!((img.width, img.height), (2, 3));
    assert_eq!(img.pixels, c.pixels());
    assert_eq!(pixel_at(&img.pixels, 2, 1, 0), (0, 0, 255));
    assert_eq!(pixel_at(&img.pixels, 2, 0, 2), (238, 238, 238));
}

#[test]
fn save_image_on_child_is_refused() {
    let c = Canvas::new(Some(8), Some(8), None).unwrap();
    let (a, b) = c.split_horizontally(Some(3));
    assert_eq!(a.save_image().err(), Some(CanvasError::NonRootSave));
    assert_eq!(b.save_image().err(), Some(CanvasError::NonRootSave));
}

#[test]
fn region_split_partitions_columns() {
    let r = Region { x: 5, y: 2, width: 10, height: 4 };
    let (a, b) = r.split_horizontally(4);
    assert_eq!(a, Region { x: 5, y: 2, width: 4, height: 4 });
    assert_eq!(b, Region { x: 9, y: 2, width: 6, height: 4 });
    let (c, d) = r.split_vertically(4);
    assert_eq!(c, Region { x: 5, y: 2, width: 10, height: 4 });
    assert_eq!(d, Region { x: 5, y: 6, width: 10, height: 0 });
}

#[test]
fn fill_region_sets_exact_rectangle() {
    let mut buf = vec![7u8; 4 * 3 * 3];
    fill_region(&mut buf, 4, 3, Region { x: 1, y: 1, width: 2, height: 1 }, Rgb { r: 1, g: 2, b: 3 });
    for y in 0..3 {
        for x in 0..4 {
            let expect = if y == 1 && (x == 1 || x == 2) { (1, 2, 3) } else { (7, 7, 7) };
            assert_eq!(pixel_at(&buf, 4, x, y), expect);
        }
    }
}

#[test]
fn fill_region_with_wide_colour_rectangle() {
    let mut buf = vec![0u8; 20 * 2 * 3];
    fill_region(&mut buf, 20, 2, Region { x: 2, y: 1, width: 17, height: 1 }, Rgb { r: 10, g: 20, b: 30 });
    assert_eq!(pixel_at(&buf, 20, 1, 1), (0, 0, 0));
    for x in 2..19 {
        assert_eq!(pixel_at(&buf, 20, x, 1), (10, 20, 30));
        assert_eq!(pixel_at(&buf, 20, x, 0), (0, 0, 0));
    }
    assert_eq!(pixel_at(&buf, 20, 19, 1), (0, 0, 0));
}

#[test]
fn solid_pixels_is_uniform() {
    let buf = solid_pixels(3, 2, Rgb { r: 5, g: 6, b: 7 });
    assert_eq!(buf, vec![5, 6, 7, 5, 6, 7, 5, 6, 7, 5, 6, 7, 5, 6, 7, 5, 6, 7]);
    assert_eq!(Rgb::background(), Rgb { r: 238, g: 238, b: 238 });
}
