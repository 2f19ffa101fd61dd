use bmp::Pixel;
use colorlut::codec::{coordify, HPixel};
use colorlut::color_set::ColorSet;
use colorlut::render::{
    classify, diff_paint, lut_paint, render_diff, render_lut, true_rgb, Background, BothPresent,
    DiffKind, DiffModes, Reporting, ADDED, EMPTY, HIGHLIGHT, REMOVED,
};

fn px(rgb: (u8, u8, u8)) -> Pixel {
    Pixel { r: rgb.0, g: rgb.1, b: rgb.2 }
}

fn set_of(colors: &[(u32, &str)]) -> ColorSet {
    let mut s = ColorSet::new();
    for (n, name) in colors {
        s.insert(HPixel::from_packed(*n), name.to_string());
    }
    s
}

#[test]
fn classification_has_four_cases() {
    assert_eq!(classify(true, true), DiffKind::Both);
    assert_eq!(classify(false, false), DiffKind::Neither);
    assert_eq!(classify(false, true), DiffKind::Added);
    assert_eq!(classify(true, false), DiffKind::Removed);
}

#[test]
fn paints_follow_the_modes() {
    let c = HPixel::new(10, 20, 30);
    let lut = DiffModes {
        background: Background::Spectrum,
        reporting: Reporting::Silent,
        both_present: BothPresent::Neutral,
    };
    let flat = DiffModes {
        background: Background::Flat,
        reporting: Reporting::Silent,
        both_present: BothPresent::Suppress,
    };
    assert_eq!(true_rgb(c), (10, 20, 30));
    assert_eq!(lut_paint(true, c), HIGHLIGHT);
    assert_eq!(lut_paint(false, c), (10, 20, 30));
    assert_eq!(diff_paint(DiffKind::Both, c, lut), HIGHLIGHT);
    assert_eq!(diff_paint(DiffKind::Both, c, flat), EMPTY);
    assert_eq!(diff_paint(DiffKind::Neither, c, lut), (10, 20, 30));
    assert_eq!(diff_paint(DiffKind::Neither, c, flat), EMPTY);
    assert_eq!(diff_paint(DiffKind::Added, c, flat), ADDED);
    assert_eq!(diff_paint(DiffKind::Removed, c, lut), REMOVED);
    assert_eq!(HIGHLIGHT, (255, 255, 255));
    assert_eq!(EMPTY, (0, 0, 0));
    assert_eq!(ADDED, (0, 255, 0));
    assert_eq!(REMOVED, (255, 0, 0));
}

#[test]
fn switches_read_their_words_and_fall_back() {
    assert_eq!(Background::parse(Some("black_bg")), (Background::Flat, false));
    assert_eq!(Background::parse(Some("lut_bg")), (Background::Spectrum, false));
    assert_eq!(Background::parse(Some("purple")), (Background::Spectrum, true));
    assert_eq!(Background::parse(None), (Background::Spectrum, true));
    assert_eq!(Reporting::parse(Some("print_diff")), (Reporting::PrintEach, false));
    assert_eq!(Reporting::parse(Some("no_print")), (Reporting::Silent, false));
    assert_eq!(Reporting::parse(Some("print")), (Reporting::Silent, true));
    assert_eq!(Reporting::parse(None), (Reporting::Silent, true));
    assert_eq!(BothPresent::parse(Some("only_diff")), (BothPresent::Suppress, false));
    assert_eq!(BothPresent::parse(Some("show_both")), (BothPresent::Neutral, false));
    assert_eq!(BothPresent::parse(Some("")), (BothPresent::Neutral, true));
    assert_eq!(BothPresent::parse(None), (BothPresent::Neutral, true));
}

#[test]
fn lut_whites_out_members() {
    let set = set_of(&[(0x123456, "Sky"), (0x000000, "Black")]);
    let img = render_lut(&set);
    assert_eq!((img.get_width(), img.get_height()), (4096, 4096));
    let (x, y) = coordify(HPixel::from_packed(0x123456));
    assert_eq!(img.get_pixel(x, y), px(HIGHLIGHT));
    assert_eq!(img.get_pixel(0, 0), px(HIGHLIGHT));
    let other = HPixel::new(1, 2, 200);
    let (x, y) = coordify(other);
    assert_eq!(img.get_pixel(x, y), px((1, 2, 200)));
    assert_eq!(img.get_pixel(4095, 4095), px((255, 255, 255)));
}

#[test]
fn diff_paints_both_added_and_background() {
    let first = set_of(&[(0xAAAAAA, "A")]);
    let second = set_of(&[(0xAAAAAA, "A"), (0xBBBBBB, "B")]);
    let modes = DiffModes {
        background: Background::Spectrum,
        reporting: Reporting::PrintEach,
        both_present: BothPresent::Neutral,
    };
    let (img, report) = render_diff(&first, &second, modes);
    let a = HPixel::from_packed(0xAAAAAA);
    let b = HPixel::from_packed(0xBBBBBB);
    let (ax, ay) = coordify(a);
    let (bx, by) = coordify(b);
    assert_eq!(img.get_pixel(ax, ay), px(HIGHLIGHT));
    assert_eq!(img.get_pixel(bx, by), px(ADDED));
    let other = HPixel::new(9, 8, 7);
    let (ox, oy) = coordify(other);
    assert_eq!(img.get_pixel(ox, oy), px((9, 8, 7)));
    assert_eq!(report, vec![(b, DiffKind::Added)]);
}

#[test]
fn diff_on_flat_background_with_removals() {
    let first = set_of(&[(0xAAAAAA, "A"), (0x010203, "C")]);
    let second = set_of(&[(0xAAAAAA, "A"), (0xBBBBBB, "B")]);
    let modes = DiffModes {
        background: Background::Flat,
        reporting: Reporting::Silent,
        both_present: BothPresent::Suppress,
    };
    let (img, report) = render_diff(&first, &second, modes);
    let (ax, ay) = coordify(HPixel::from_packed(0xAAAAAA));
    let (bx, by) = coordify(HPixel::from_packed(0xBBBBBB));
    let (cx, cy) = coordify(HPixel::from_packed(0x010203));
    assert_eq!(img.get_pixel(ax, ay), px(EMPTY));
    assert_eq!(img.get_pixel(bx, by), px(ADDED));
    assert_eq!(img.get_pixel(cx, cy), px(REMOVED));
    assert_eq!(img.get_pixel(100, 100), px(EMPTY));
    assert!(report.is_empty());
}
