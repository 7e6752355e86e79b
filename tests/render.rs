use ratatui_image::{scale_for, BgColor, Cell, Fit, Image, Paint, Region, Rgb, SampleLayout, Scaling};

fn numbered(w: usize, h: usize) -> Image {
    let mut data = Vec::new();
    for i in 0..w * h {
        data.extend_from_slice(&[i as u8, 0, 0, 255]);
    }
    Image::from_samples8(SampleLayout::Rgba, w, h, &data).unwrap()
}

fn red(v: u8) -> Paint {
    Paint::Color(Rgb { r: v, g: 0, b: 0 })
}

fn filled(top: u8, bottom: u8) -> Cell {
    Cell::Filled { fg: red(top), bg: red(bottom) }
}

fn at(cells: &[Cell], width: u16, x: u16, y: u16) -> Cell {
    cells[y as usize * width as usize + x as usize]
}

#[test]
fn exact_fit_copies_pixels() {
    let img = numbered(2, 4);
    let cells = img.view().render_cells(2, 2);
    assert_eq!(cells, vec![filled(0, 2), filled(1, 3), filled(4, 6), filled(5, 7)]);
}

#[test]
fn exact_fit_blends_alpha() {
    let img = Image::from_samples8(SampleLayout::Rgba, 1, 2, &vec![255, 0, 0, 0, 0, 0, 255, 255]).unwrap();
    let bg = BgColor { r: 9, g: 8, b: 7 };
    let cells = img.view().with_bg_color(bg).render_cells(1, 1);
    let expect = Cell::Filled {
        fg: Paint::Color(Rgb { r: 9, g: 8, b: 7 }),
        bg: Paint::Color(Rgb { r: 0, g: 0, b: 255 }),
    };
    assert_eq!(cells, vec![expect]);
}

#[test]
fn sized_image_renders_black() {
    let img = Image::with_size(3, 3);
    let black = Paint::Color(Rgb { r: 0, g: 0, b: 0 });
    let cells = img.view().with_bg_color(BgColor { r: 90, g: 80, b: 70 }).render_cells(3, 2);
    assert_eq!(cells.len(), 6);
    for x in 0..3 {
        assert_eq!(at(&cells, 3, x, 0), Cell::Filled { fg: black, bg: black });
        assert_eq!(at(&cells, 3, x, 1), Cell::Filled { fg: black, bg: Paint::Reset });
    }
}

#[test]
fn scaled_identity_matches_exact_fit() {
    let img = numbered(4, 3);
    let view = img.view().with_region(Region { x: 0, y: 0, width: 4, height: 2 });
    let exact = view.render_cells(4, 1);
    assert_eq!(exact, vec![filled(0, 4), filled(1, 5), filled(2, 6), filled(3, 7)]);
    assert_eq!(scale_for(Fit::Zoom, 4, 2, 4, 1), Scaling {
        zoom_x_num: 2,
        zoom_x_den: 2,
        zoom_y_num: 2,
        zoom_y_den: 2,
        x_pos: 0,
        y_pos: 0,
    });
    assert_eq!(scale_for(Fit::Stretch, 4, 2, 4, 1), Scaling {
        zoom_x_num: 4,
        zoom_x_den: 4,
        zoom_y_num: 2,
        zoom_y_den: 2,
        x_pos: 0,
        y_pos: 0,
    });
}

#[test]
fn zoom_centers_horizontally() {
    let img = numbered(4, 4);
    let view = img.view();
    let s = scale_for(Fit::Zoom, 4, 4, 10, 1);
    assert_eq!((s.zoom_x_num, s.zoom_x_den, s.x_pos, s.y_pos), (2, 4, 4, 0));
    let cells = view.render_cells(10, 1);
    for x in [0u16, 1, 2, 3, 6, 7, 8, 9] {
        assert_eq!(at(&cells, 10, x, 0), Cell::Blank);
    }
    assert_eq!(at(&cells, 10, 4, 0), filled(0, 8));
    assert_eq!(at(&cells, 10, 5, 0), filled(2, 10));
}

#[test]
fn zoom_square_into_short_area() {
    let img = numbered(4, 4);
    assert_eq!(scale_for(Fit::Zoom, 4, 4, 4, 1), Scaling {
        zoom_x_num: 2,
        zoom_x_den: 4,
        zoom_y_num: 2,
        zoom_y_den: 4,
        x_pos: 1,
        y_pos: 0,
    });
    let cells = img.view().render_cells(4, 1);
    assert_eq!(cells, vec![Cell::Blank, filled(0, 8), filled(2, 10), Cell::Blank]);
}

#[test]
fn zoom_centers_vertically() {
    let img = numbered(2, 2);
    let s = scale_for(Fit::Zoom, 2, 2, 2, 4);
    assert_eq!((s.zoom_x_num, s.zoom_x_den, s.zoom_y_num, s.zoom_y_den, s.x_pos, s.y_pos), (2, 2, 2, 2, 0, 1));
    let cells = img.view().render_cells(2, 4);
    assert_eq!(at(&cells, 2, 0, 0), Cell::Blank);
    assert_eq!(at(&cells, 2, 0, 1), filled(0, 2));
    assert_eq!(at(&cells, 2, 1, 1), filled(1, 3));
    assert_eq!(at(&cells, 2, 0, 2), Cell::Blank);
    assert_eq!(at(&cells, 2, 1, 3), Cell::Blank);
}

#[test]
fn stretch_doubles_columns() {
    let img = numbered(4, 4);
    let view = img.view().with_fit(Fit::Stretch);
    let s = scale_for(Fit::Stretch, 4, 4, 8, 1);
    assert_eq!((s.zoom_x_num, s.zoom_x_den, s.zoom_y_num, s.zoom_y_den), (8, 4, 2, 4));
    let cells = view.render_cells(8, 1);
    for col in 0..4u16 {
        assert_eq!(at(&cells, 8, 2 * col, 0), at(&cells, 8, 2 * col + 1, 0));
        assert_eq!(at(&cells, 8, 2 * col, 0), filled(col as u8, 8 + col as u8));
    }
}

#[test]
fn partial_rows_leave_a_gap() {
    let img = numbered(4, 3);
    let cells = img.view().render_cells(4, 2);
    assert_eq!(at(&cells, 4, 0, 0), filled(0, 4));
    assert_eq!(at(&cells, 4, 2, 1), Cell::Filled { fg: red(10), bg: Paint::Reset });
}

#[test]
fn degenerate_geometry_is_blank() {
    let img = numbered(3, 3);
    let empty = img.view().with_region(Region { x: 0, y: 0, width: 0, height: 0 });
    assert!(empty.render_cells(5, 2).iter().all(|c| *c == Cell::Blank));
    assert_eq!(empty.render_cells(5, 2).len(), 10);
    assert!(img.view().render_cells(0, 4).is_empty());
    assert!(img.view().render_cells(4, 0).is_empty());
    let none = Image::with_size(0, 0);
    assert_eq!(none.view().render_cells(0, 0), vec![]);
    assert!(none.view().render_cells(2, 2).iter().all(|c| *c == Cell::Blank));
}

#[test]
fn repeated_renders_agree() {
    let img = numbered(5, 3);
    let v = img.view().with_region(Region { x: 1, y: 0, width: 3, height: 3 });
    assert_eq!(v.render_cells(7, 3), v.render_cells(7, 3));
}
