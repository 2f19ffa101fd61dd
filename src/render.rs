use vstd::prelude::*;
use vstd::string::*;
use bmp::Image;
use crate::canvas::{canvas_pixels, grid, new_canvas, paint};
use crate::codec::{
    coordify, lemma_coordinate_injective, HPixel, CANVAS_SIDE, CHANNEL, TILES_PER_ROW,
};
use crate::color_set::ColorSet;

verus! {

/// Paint of colors that are members, in a single-set rendering, and of
/// colors present in both sets, in a diff rendering.
pub const HIGHLIGHT: (u8, u8, u8) = (255, 255, 255);

/// Paint of empty places: colors in neither set on a flat background, and
/// colors in both sets when those are suppressed.
pub const EMPTY: (u8, u8, u8) = (0, 0, 0);

/// Paint of colors that only the second set holds.
pub const ADDED: (u8, u8, u8) = (0, 255, 0);

/// Paint of colors that only the first set holds.
pub const REMOVED: (u8, u8, u8) = (255, 0, 0);

/// The color's own red, green and blue values.
pub open spec fn true_rgb_spec(c: HPixel) -> (u8, u8, u8) {
    (c.r, c.g, c.b)
}

/// The color's own red, green and blue values, as painted on the spectrum.
pub fn true_rgb(c: HPixel) -> (r: (u8, u8, u8))
    ensures
        r == true_rgb_spec(c),
{
    (c.r, c.g, c.b)
}

pub open spec fn lut_paint_spec(member: bool, c: HPixel) -> (u8, u8, u8) {
    if member {
        HIGHLIGHT
    } else {
        true_rgb_spec(c)
    }
}

/// Paint of `c` in a single-set rendering: the highlight for a member, else
/// the color itself.
pub fn lut_paint(member: bool, c: HPixel) -> (r: (u8, u8, u8))
    ensures
        r == lut_paint_spec(member, c),
{
    if member {
        HIGHLIGHT
    } else {
        true_rgb(c)
    }
}

/// Whether `c` comes before the position `(w, h, x, y)` of the enumeration,
/// which runs over tile columns, then tile rows, then red, then green.
pub open spec fn before_position(c: HPixel, w: int, h: int, x: int, y: int) -> bool {
    c.tile_col() < w || (c.tile_col() == w && (c.tile_row() < h || (c.tile_row() == h && (c.r < x
        || (c.r == x && c.g < y)))))
}

/// Whether the renderers reach `c1` before `c2`.
pub open spec fn comes_before(c1: HPixel, c2: HPixel) -> bool {
    before_position(c1, c2.tile_col(), c2.tile_row(), c2.r as int, c2.g as int)
}

/// Renders every 24-bit color at its coordinate on a 4096x4096 canvas: the
/// members of `set` in the highlight, every other color in its own value.
pub fn render_lut(set: &ColorSet) -> (img: Image)
    ensures
        canvas_pixels(img).dom() == grid(CANVAS_SIDE, CANVAS_SIDE),
        forall|c: HPixel| #[trigger]
            canvas_pixels(img)[c.coordinate()] == lut_paint_spec(set.has(c), c),
{
    let mut img = new_canvas(CANVAS_SIDE, CANVAS_SIDE);
    let mut w: u32 = 0;
    while w < TILES_PER_ROW
        invariant
            w <= 16,
            canvas_pixels(img).dom() == grid(CANVAS_SIDE, CANVAS_SIDE),
            forall|c: HPixel|
                before_position(c, w as int, 0, 0, 0)
                    ==> #[trigger] canvas_pixels(img)[c.coordinate()]
                    == lut_paint_spec(set.has(c), c),
        decreases 16 - w,
    {
        let mut h: u32 = 0;
        while h < TILES_PER_ROW
            invariant
                w < 16,
                h <= 16,
                canvas_pixels(img).dom() == grid(CANVAS_SIDE, CANVAS_SIDE),
                forall|c: HPixel|
                    before_position(c, w as int, h as int, 0, 0)
                        ==> #[trigger] canvas_pixels(img)[c.coordinate()]
                        == lut_paint_spec(set.has(c), c),
            decreases 16 - h,
        {
            let mut x: u32 = 0;
            while x < CHANNEL
                invariant
                    w < 16,
                    h < 16,
                    x <= 256,
                    canvas_pixels(img).dom() == grid(CANVAS_SIDE, CANVAS_SIDE),
                    forall|c: HPixel|
                        before_position(c, w as int, h as int, x as int, 0)
                            ==> #[trigger] canvas_pixels(img)[c.coordinate()]
                            == lut_paint_spec(set.has(c), c),
                decreases 256 - x,
            {
                let mut y: u32 = 0;
                while y < CHANNEL
                    invariant
                        w < 16,
                        h < 16,
                        x < 256,
                        y <= 256,
                        canvas_pixels(img).dom() == grid(CANVAS_SIDE, CANVAS_SIDE),
                        forall|c: HPixel|
                            before_position(c, w as int, h as int, x as int, y as int)
                                ==> #[trigger] canvas_pixels(img)[c.coordinate()] == lut_paint_spec(
                                set.has(c),
                                c,
                            ),
                    decreases 256 - y,
                {
                    let col = HPixel { r: x as u8, g: y as u8, b: (w + h * TILES_PER_ROW) as u8 };
                    assert(col.tile_col() == w && col.tile_row() == h);
                    let (px, py) = coordify(col);
                    let member = set.contains(&col);
                    let ghost old_pixels = canvas_pixels(img);
                    paint(&mut img, px, py, lut_paint(member, col));
                    assert forall|c: HPixel|
                        before_position(c, w as int, h as int, x as int, y + 1) implies #[trigger]
                        canvas_pixels(img)[c.coordinate()] == lut_paint_spec(set.has(c), c) by {
                        if c != col {
                            lemma_coordinate_injective(c, col);
                            assert(before_position(c, w as int, h as int, x as int, y as int));
                        }
                    }
                    assert(canvas_pixels(img).dom() =~= grid(CANVAS_SIDE, CANVAS_SIDE));
                    y = y + 1;
                }
                x = x + 1;
            }
            h = h + 1;
        }
        w = w + 1;
    }
    img
}

/// How a color stands with respect to two sets.
#[derive(Clone, Copy, Debug, PartialEq, Eq, Structural)]
pub enum DiffKind {
    /// In both sets.
    Both,
    /// In neither set.
    Neither,
    /// Only in the second set.
    Added,
    /// Only in the first set.
    Removed,
}

impl DiffKind {
    /// Whether this kind is a difference between the sets.
    pub open spec fn is_change(self) -> bool {
        self is Added || self is Removed
    }
}

pub open spec fn classify_spec(in_first: bool, in_second: bool) -> DiffKind {
    if in_first && in_second {
        DiffKind::Both
    } else if !in_first && !in_second {
        DiffKind::Neither
    } else if in_second {
        DiffKind::Added
    } else {
        DiffKind::Removed
    }
}

/// Sorts a color by its membership in a first and a second set.
pub fn classify(in_first: bool, in_second: bool) -> (k: DiffKind)
    ensures
        k == classify_spec(in_first, in_second),
{
    if in_first && in_second {
        DiffKind::Both
    } else if !in_first && !in_second {
        DiffKind::Neither
    } else if in_second {
        DiffKind::Added
    } else {
        DiffKind::Removed
    }
}

/// What colors in neither set look like.
#[derive(Clone, Copy, Debug, PartialEq, Eq, Structural)]
pub enum Background {
    /// Their own values, as in a single-set rendering.
    Spectrum,
    /// All the same empty paint.
    Flat,
}

/// Whether the differences are listed.
#[derive(Clone, Copy, Debug, PartialEq, Eq, Structural)]
pub enum Reporting {
    PrintEach,
    Silent,
}

/// What colors in both sets look like.
#[derive(Clone, Copy, Debug, PartialEq, Eq, Structural)]
pub enum BothPresent {
    /// The highlight.
    Neutral,
    /// The empty paint, so that only the differences stand out.
    Suppress,
}

/// The three switches of a diff rendering.
#[derive(Clone, Copy, Debug, PartialEq, Eq, Structural)]
pub struct DiffModes {
    pub background: Background,
    pub reporting: Reporting,
    pub both_present: BothPresent,
}

pub open spec fn diff_paint_spec(kind: DiffKind, c: HPixel, modes: DiffModes) -> (u8, u8, u8) {
    match kind {
        DiffKind::Both => if modes.both_present is Suppress {
            EMPTY
        } else {
            HIGHLIGHT
        },
        DiffKind::Neither => if modes.background is Spectrum {
            true_rgb_spec(c)
        } else {
            EMPTY
        },
        DiffKind::Added => ADDED,
        DiffKind::Removed => REMOVED,
    }
}

/// Paint of `c` in a diff rendering, from how it stands with respect to the two sets.
pub fn diff_paint(kind: DiffKind, c: HPixel, modes: DiffModes) -> (r: (u8, u8, u8))
    ensures
        r == diff_paint_spec(kind, c, modes),
{
    match kind {
        DiffKind::Both => match modes.both_present {
            BothPresent::Suppress => EMPTY,
            BothPresent::Neutral => HIGHLIGHT,
        },
        DiffKind::Neither => match modes.background {
            Background::Spectrum => true_rgb(c),
            Background::Flat => EMPTY,
        },
        DiffKind::Added => ADDED,
        DiffKind::Removed => REMOVED,
    }
}

/// How `c` stands with respect to `first` and `second`.
pub open spec fn diff_kind(first: ColorSet, second: ColorSet, c: HPixel) -> DiffKind {
    classify_spec(first.has(c), second.has(c))
}

/// What a diff rendering has done once it reaches position `(w, h, x, y)`.
spec fn diff_progress(
    first: ColorSet,
    second: ColorSet,
    modes: DiffModes,
    pixels: Map<(u32, u32), (u8, u8, u8)>,
    report: Seq<(HPixel, DiffKind)>,
    w: int,
    h: int,
    x: int,
    y: int,
) -> bool {
    &&& pixels.dom() == grid(CANVAS_SIDE, CANVAS_SIDE)
    &&& forall|c: HPixel|
        before_position(c, w, h, x, y) ==> #[trigger] pixels[c.coordinate()] == diff_paint_spec(
            diff_kind(first, second, c),
            c,
            modes,
        )
    &&& forall|i: int|
        0 <= i < report.len() ==> before_position(#[trigger] report[i].0, w, h, x, y)
            && report[i].1 == diff_kind(first, second, report[i].0) && report[i].1.is_change()
    &&& forall|i: int, j: int|
        0 <= i < j < report.len() ==> comes_before(#[trigger] report[i].0, #[trigger] report[j].0)
    &&& modes.reporting is Silent ==> report.len() == 0
    &&& modes.reporting is PrintEach ==> forall|c: HPixel|
        before_position(c, w, h, x, y) && (#[trigger] diff_kind(first, second, c)).is_change()
            ==> exists|i: int| 0 <= i < report.len() && report[i].0 == c
}

/// Renders the difference of two sets on a 4096x4096 canvas: each 24-bit
/// color at its coordinate, painted by how it stands with respect to the two
/// sets and the switches in `modes`. When those ask for it, the colors that
/// only one set holds are also listed, in the order in which they are reached.
pub fn render_diff(first: &ColorSet, second: &ColorSet, modes: DiffModes) -> (r: (
    Image,
    Vec<(HPixel, DiffKind)>,
))
    ensures
        canvas_pixels(r.0).dom() == grid(CANVAS_SIDE, CANVAS_SIDE),
        forall|c: HPixel| #[trigger]
            canvas_pixels(r.0)[c.coordinate()] == diff_paint_spec(
                diff_kind(*first, *second, c),
                c,
                modes,
            ),
        forall|i: int|
            0 <= i < r.1@.len() ==> #[trigger] r.1@[i].1 == diff_kind(*first, *second, r.1@[i].0)
                && r.1@[i].1.is_change(),
        forall|i: int, j: int|
            0 <= i < j < r.1@.len() ==> comes_before(#[trigger] r.1@[i].0, #[trigger] r.1@[j].0),
        modes.reporting is Silent ==> r.1@.len() == 0,
        modes.reporting is PrintEach ==> forall|c: HPixel| #[trigger]
            diff_kind(*first, *second, c).is_change() ==> exists|i: int|
                0 <= i < r.1@.len() && r.1@[i].0 == c,
{
    let mut img = new_canvas(CANVAS_SIDE, CANVAS_SIDE);
    let mut report: Vec<(HPixel, DiffKind)> = Vec::new();
    let mut w: u32 = 0;
    while w < TILES_PER_ROW
        invariant
            w <= 16,
            diff_progress(
                *first,
                *second,
                modes,
                canvas_pixels(img),
                report@,
                w as int,
                0,
                0,
                0,
            ),
        decreases 16 - w,
    {
        let mut h: u32 = 0;
        while h < TILES_PER_ROW
            invariant
                w < 16,
                h <= 16,
                diff_progress(
                    *first,
                    *second,
                    modes,
                    canvas_pixels(img),
                    report@,
                    w as int,
                    h as int,
                    0,
                    0,
                ),
            decreases 16 - h,
        {
            let mut x: u32 = 0;
            while x < CHANNEL
                invariant
                    w < 16,
                    h < 16,
                    x <= 256,
                    diff_progress(
                        *first,
                        *second,
                        modes,
                        canvas_pixels(img),
                        report@,
                        w as int,
                        h as int,
                        x as int,
                        0,
                    ),
                decreases 256 - x,
            {
                let mut y: u32 = 0;
                while y < CHANNEL
                    invariant
                        w < 16,
                        h < 16,
                        x < 256,
                        y <= 256,
                        diff_progress(
                            *first,
                            *second,
                            modes,
                            canvas_pixels(img),
                            report@,
                            w as int,
                            h as int,
                            x as int,
                            y as int,
                        ),
                    decreases 256 - y,
                {
                    let col = HPixel { r: x as u8, g: y as u8, b: (w + h * TILES_PER_ROW) as u8 };
                    assert(col.tile_col() == w && col.tile_row() == h);
                    let (px, py) = coordify(col);
                    let kind = classify(first.contains(&col), second.contains(&col));
                    let ghost old_pixels = canvas_pixels(img);
                    let ghost old_report = report@;
                    paint(&mut img, px, py, diff_paint(kind, col, modes));
                    let listed = modes.reporting == Reporting::PrintEach && (kind == DiffKind::Added
                        || kind == DiffKind::Removed);
                    if listed {
                        report.push((col, kind));
                    }
                    proof {
                        lemma_diff_step(
                            *first,
                            *second,
                            modes,
                            old_pixels,
                            canvas_pixels(img),
                            old_report,
                            report@,
                            col,
                            w as int,
                            h as int,
                            x as int,
                            y as int,
                        );
                    }
                    y = y + 1;
                }
                x = x + 1;
            }
            h = h + 1;
        }
        w = w + 1;
    }
    (img, report)
}

proof fn lemma_diff_step(
    first: ColorSet,
    second: ColorSet,
    modes: DiffModes,
    old_pixels: Map<(u32, u32), (u8, u8, u8)>,
    pixels: Map<(u32, u32), (u8, u8, u8)>,
    old_report: Seq<(HPixel, DiffKind)>,
    report: Seq<(HPixel, DiffKind)>,
    col: HPixel,
    w: int,
    h: int,
    x: int,
    y: int,
)
    requires
        diff_progress(first, second, modes, old_pixels, old_report, w, h, x, y),
        col.tile_col() == w,
        col.tile_row() == h,
        col.r == x,
        col.g == y,
        pixels == old_pixels.insert(
            col.coordinate(),
            diff_paint_spec(diff_kind(first, second, col), col, modes),
        ),
        ({
            if modes.reporting is PrintEach && diff_kind(first, second, col).is_change() {
                report == old_report.push((col, diff_kind(first, second, col)))
            } else {
                report == old_report
            }
        }),
    ensures
        diff_progress(first, second, modes, pixels, report, w, h, x, y + 1),
{
    assert(pixels.dom() =~= grid(CANVAS_SIDE, CANVAS_SIDE));
    assert forall|c: HPixel| before_position(c, w, h, x, y + 1) implies #[trigger]
        pixels[c.coordinate()] == diff_paint_spec(diff_kind(first, second, c), c, modes) by {
        if c != col {
            lemma_coordinate_injective(c, col);
        }
    }
    assert forall|i: int| 0 <= i < report.len() implies before_position(
        #[trigger] report[i].0,
        w,
        h,
        x,
        y + 1,
    ) && report[i].1 == diff_kind(first, second, report[i].0) && report[i].1.is_change() by {
        if i < old_report.len() {
            assert(report[i] == old_report[i]);
        }
    }
    assert forall|i: int, j: int| 0 <= i < j < report.len() implies comes_before(
        #[trigger] report[i].0,
        #[trigger] report[j].0,
    ) by {
        assert(report[i] == old_report[i]);
        if j < old_report.len() {
            assert(report[j] == old_report[j]);
        } else {
            assert(before_position(old_report[i].0, w, h, x, y));
        }
    }
    if modes.reporting is PrintEach {
        assert forall|c: HPixel|
            before_position(c, w, h, x, y + 1) && (#[trigger] diff_kind(
                first,
                second,
                c,
            )).is_change() implies exists|i: int| 0 <= i < report.len() && report[i].0 == c by {
            if c == col {
                assert(report[report.len() - 1].0 == c);
            } else {
                assert(before_position(c, w, h, x, y));
                let i = choose|i: int| 0 <= i < old_report.len() && old_report[i].0 == c;
                assert(report[i] == old_report[i]);
            }
        }
    }
}

/// `text` as a mathematical value.
pub open spec fn text_view(text: Option<&str>) -> Option<Seq<char>> {
    match text {
        Some(t) => Some(t@),
        None => None,
    }
}

/// A switch given as text: `Some(true)` for the word `on`, `Some(false)` for
/// the word `off`, `None` for anything else or no text.
pub open spec fn switch_of(text: Option<Seq<char>>, on: Seq<char>, off: Seq<char>) -> Option<bool> {
    match text {
        Some(t) => if t == on {
            Some(true)
        } else if t == off {
            Some(false)
        } else {
            None
        },
        None => None,
    }
}

fn same_text(a: &str, b: &str) -> (r: bool)
    ensures
        r == (a@ == b@),
{
    let n = a.unicode_len();
    if n != b.unicode_len() {
        return false;
    }
    let mut i: usize = 0;
    while i < n
        invariant
            i <= n,
            n == a@.len(),
            n == b@.len(),
            forall|j: int| 0 <= j < i ==> a@[j] == b@[j],
        decreases n - i,
    {
        if a.get_char(i) != b.get_char(i) {
            return false;
        }
        i = i + 1;
    }
    assert(a@ =~= b@);
    true
}

fn switch(text: Option<&str>, on: &str, off: &str) -> (r: Option<bool>)
    ensures
        r == switch_of(text_view(text), on@, off@),
{
    match text {
        Some(t) => if same_text(t, on) {
            Some(true)
        } else if same_text(t, off) {
            Some(false)
        } else {
            None
        },
        None => None,
    }
}

impl Background {
    pub open spec fn parse_spec(text: Option<Seq<char>>) -> (Background, bool) {
        match switch_of(text, "black_bg"@, "lut_bg"@) {
            Some(true) => (Background::Flat, false),
            Some(false) => (Background::Spectrum, false),
            None => (Background::Spectrum, true),
        }
    }

    /// Reads `black_bg` or `lut_bg`. Anything else, or no text, gives the
    /// spectrum background; the flag returned then says that the default was taken.
    pub fn parse(text: Option<&str>) -> (r: (Background, bool))
        ensures
            r == Background::parse_spec(text_view(text)),
    {
        match switch(text, "black_bg", "lut_bg") {
            Some(true) => (Background::Flat, false),
            Some(false) => (Background::Spectrum, false),
            None => (Background::Spectrum, true),
        }
    }
}

impl Reporting {
    pub open spec fn parse_spec(text: Option<Seq<char>>) -> (Reporting, bool) {
        match switch_of(text, "print_diff"@, "no_print"@) {
            Some(true) => (Reporting::PrintEach, false),
            Some(false) => (Reporting::Silent, false),
            None => (Reporting::Silent, true),
        }
    }

    /// Reads `print_diff` or `no_print`. Anything else, or no text, gives
    /// silence; the flag returned then says that the default was taken.
    pub fn parse(text: Option<&str>) -> (r: (Reporting, bool))
        ensures
            r == Reporting::parse_spec(text_view(text)),
    {
        match switch(text, "print_diff", "no_print") {
            Some(true) => (Reporting::PrintEach, false),
            Some(false) => (Reporting::Silent, false),
            None => (Reporting::Silent, true),
        }
    }
}

impl BothPresent {
    pub open spec fn parse_spec(text: Option<Seq<char>>) -> (BothPresent, bool) {
        match switch_of(text, "only_diff"@, "show_both"@) {
            Some(true) => (BothPresent::Suppress, false),
            Some(false) => (BothPresent::Neutral, false),
            None => (BothPresent::Neutral, true),
        }
    }

    /// Reads `only_diff` or `show_both`. Anything else, or no text, shows
    /// colors of both sets; the flag returned then says that the default was taken.
    pub fn parse(text: Option<&str>) -> (r: (BothPresent, bool))
        ensures
            r == BothPresent::parse_spec(text_view(text)),
    {
        match switch(text, "only_diff", "show_both") {
            Some(true) => (BothPresent::Suppress, false),
            Some(false) => (BothPresent::Neutral, false),
            None => (BothPresent::Neutral, true),
        }
    }
}

} // verus!
