use ratatui_image::{BgColor, Fit, Image, Pixel, Region, Rgb, SampleLayout};

fn numbered(w: usize, h: usize) -> Image {
    let mut data = Vec::new();
    for i in 0..w * h {
        data.extend_from_slice(&[i as u8, 0, 0, 255]);
    }
    Image::from_samples8(SampleLayout::Rgba, w, h, &data).unwrap()
}

fn reg(x: usize, y: usize, width: usize, height: usize) -> Region {
    Region { x, y, width, height }
}

#[test]
fn default_view_covers_image() {
    let img = Image::with_size(3, 5);
    let v = img.view();
    assert_eq!(*v.region(), reg(0, 0, 3, 5));
    assert_eq!(v.fit(), Fit::Zoom);
    assert_eq!(v.bg_color(), BgColor { r: 0, g: 0, b: 0 });
    assert_eq!(v.image().width(), 3);
}

#[test]
fn sized_view_is_black_on_any_background() {
    let img = Image::with_size(3, 3);
    for bg in [BgColor { r: 0, g: 0, b: 0 }, BgColor { r: 255, g: 128, b: 7 }] {
        let v = img.view().with_bg_color(bg);
        for y in 0..3 {
            for x in 0..3 {
                assert_eq!(v.pixel(x, y).unwrap().on(v.bg_color()), Rgb { r: 0, g: 0, b: 0 });
            }
        }
    }
}

#[test]
fn region_clamped_to_image() {
    let img = Image::with_size(4, 4);
    let v = img.view();
    assert_eq!(*v.with_region(reg(1, 1, 10, 10)).region(), reg(1, 1, 3, 3));
    assert_eq!(*v.with_region(reg(5, 0, 1, 1)).region(), reg(0, 0, 0, 0));
    assert_eq!(*v.with_region(reg(0, 5, 1, 1)).region(), reg(0, 0, 0, 0));
    assert_eq!(*v.with_region(reg(4, 0, 1, 1)).region(), reg(4, 0, 0, 1));
    assert_eq!(*v.with_region(reg(1, 2, 2, 1)).region(), reg(1, 2, 2, 1));
    assert_eq!(*v.with_region(reg(2, 2, usize::MAX, usize::MAX)).region(), reg(2, 2, 2, 2));
}

#[test]
fn region_clamp_idempotent() {
    let img = Image::with_size(4, 3);
    for r in [reg(1, 1, 10, 10), reg(9, 0, 1, 1), reg(4, 3, 2, 2), reg(0, 0, 2, 2)] {
        let once = *img.view().with_region(r).region();
        let twice = *img.view().with_region(once).region();
        assert_eq!(once, twice);
    }
}

#[test]
fn setters_replace_fields() {
    let img = Image::with_size(2, 2);
    let mut v = img.view();
    v.set_fit(Fit::Stretch);
    v.set_bg_color(BgColor { r: 1, g: 2, b: 3 });
    v.set_region(reg(1, 0, 5, 1));
    assert_eq!(v.fit(), Fit::Stretch);
    assert_eq!(v.bg_color(), BgColor { r: 1, g: 2, b: 3 });
    assert_eq!(*v.region(), reg(1, 0, 1, 1));
    assert_eq!(v.with_fit(Fit::Zoom).fit(), Fit::Zoom);
}

#[test]
fn region_cell_coordinates() {
    let r = reg(3, 5, 4, 7);
    assert_eq!(r.cell_x(), 3);
    assert_eq!(r.cell_y(), 3);
    assert_eq!(r.cell_width(), 4);
    assert_eq!(r.cell_height(), 4);
    assert_eq!(Region::from_cells(2, 3, 4, 5), reg(2, 6, 4, 10));
}

#[test]
fn view_pixel_relative_to_region() {
    let img = numbered(4, 3);
    let v = img.view().with_region(reg(1, 1, 2, 2));
    assert_eq!(v.pixel(0, 0).unwrap().r, 5);
    assert_eq!(v.pixel(1, 1).unwrap().r, 10);
    assert_eq!(v.pixel(2, 0), None);
    assert_eq!(v.pixel(0, 2), None);
}

#[test]
fn view_pixels_row_major() {
    let img = numbered(4, 3);
    let v = img.view().with_region(reg(1, 1, 3, 2));
    let mut it = v.pixels();
    let mut got = Vec::new();
    while let Some(p) = it.next() {
        got.push(p.r);
    }
    assert_eq!(got, vec![5, 6, 7, 9, 10, 11]);
    assert!(it.next().is_none());
    let mut again = v.pixels();
    let mut got2: Vec<Pixel> = Vec::new();
    while let Some(p) = again.next() {
        got2.push(*p);
    }
    assert_eq!(got2.iter().map(|p| p.r).collect::<Vec<_>>(), got);
}

#[test]
fn view_pixels_full_image_count() {
    let img = numbered(3, 3);
    let mut it = img.view().pixels();
    let mut n = 0;
    while it.next().is_some() {
        n += 1;
    }
    assert_eq!(n, 9);
}

#[test]
fn view_pixels_empty_region() {
    let img = numbered(3, 3);
    assert!(img.view().with_region(reg(0, 0, 0, 0)).pixels().next().is_none());
    assert!(img.view().with_region(reg(1, 1, 2, 0)).pixels().next().is_none());
    assert!(img.view().with_region(reg(3, 1, 5, 1)).pixels().next().is_none());
}
