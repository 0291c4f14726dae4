//! Where the panel sits on the screen, which way it moves when dragged, and
//! the regions behind it that the compositor blurs.

use vstd::prelude::*;
use crate::text::str_eq;

verus! {

/// The screen corner (or the centre) the panel is anchored to.
#[derive(Debug, Clone, Copy, PartialEq, Eq, Structural)]
pub enum Corner {
    TopLeft,
    TopRight,
    BottomLeft,
    BottomRight,
    Center,
}

impl Default for Corner {
    fn default() -> (c: Self)
        ensures
            c == Corner::Center,
    {
        Corner::Center
    }
}

/// A screen edge the panel can be anchored to.
#[derive(Debug, Clone, Copy, PartialEq, Eq, Structural)]
pub enum ScreenEdge {
    Left,
    Right,
    Top,
    Bottom,
}

/// The corner an anchor setting names; anything unknown is the top right.
pub open spec fn corner_named(anchor: Seq<char>) -> Corner {
    if anchor == "top-left"@ {
        Corner::TopLeft
    } else if anchor == "top-right"@ {
        Corner::TopRight
    } else if anchor == "bottom-left"@ {
        Corner::BottomLeft
    } else if anchor == "bottom-right"@ {
        Corner::BottomRight
    } else if anchor == "center"@ {
        Corner::Center
    } else {
        Corner::TopRight
    }
}

/// The corner the anchor setting `anchor` names; anything unknown is the top
/// right.
pub fn parse_corner(anchor: &str) -> (c: Corner)
    ensures
        c == corner_named(anchor@),
{
    if str_eq(anchor, "top-left") {
        Corner::TopLeft
    } else if str_eq(anchor, "top-right") {
        Corner::TopRight
    } else if str_eq(anchor, "bottom-left") {
        Corner::BottomLeft
    } else if str_eq(anchor, "bottom-right") {
        Corner::BottomRight
    } else if str_eq(anchor, "center") {
        Corner::Center
    } else {
        Corner::TopRight
    }
}

/// The side edge `corner` is anchored to; the centre has none.
pub open spec fn side_edge(corner: Corner) -> Option<ScreenEdge> {
    match corner {
        Corner::TopLeft | Corner::BottomLeft => Some(ScreenEdge::Left),
        Corner::TopRight | Corner::BottomRight => Some(ScreenEdge::Right),
        Corner::Center => None,
    }
}

/// The top or bottom edge `corner` is anchored to; the centre has none.
pub open spec fn end_edge(corner: Corner) -> Option<ScreenEdge> {
    match corner {
        Corner::TopLeft | Corner::TopRight => Some(ScreenEdge::Top),
        Corner::BottomLeft | Corner::BottomRight => Some(ScreenEdge::Bottom),
        Corner::Center => None,
    }
}

/// How the side margin follows the pointer moving right.
pub open spec fn sign_x(corner: Corner) -> i32 {
    match corner {
        Corner::TopLeft | Corner::BottomLeft => 1i32,
        Corner::TopRight | Corner::BottomRight => -1i32,
        Corner::Center => 0i32,
    }
}

/// How the top or bottom margin follows the pointer moving down.
pub open spec fn sign_y(corner: Corner) -> i32 {
    match corner {
        Corner::TopLeft | Corner::TopRight => 1i32,
        Corner::BottomLeft | Corner::BottomRight => -1i32,
        Corner::Center => 0i32,
    }
}

/// The side edge a corner is anchored to; the centre has none.
pub fn h_edge(corner: Corner) -> (e: Option<ScreenEdge>)
    ensures
        e == side_edge(corner),
{
    match corner {
        Corner::TopLeft | Corner::BottomLeft => Some(ScreenEdge::Left),
        Corner::TopRight | Corner::BottomRight => Some(ScreenEdge::Right),
        Corner::Center => None,
    }
}

/// The top or bottom edge a corner is anchored to; the centre has none.
pub fn v_edge(corner: Corner) -> (e: Option<ScreenEdge>)
    ensures
        e == end_edge(corner),
{
    match corner {
        Corner::TopLeft | Corner::TopRight => Some(ScreenEdge::Top),
        Corner::BottomLeft | Corner::BottomRight => Some(ScreenEdge::Bottom),
        Corner::Center => None,
    }
}

/// How the side margin follows the pointer: it grows as the pointer moves
/// right from a left anchor (1), shrinks from a right anchor (-1), and the
/// centre does not move (0).
pub fn drag_sign_x(corner: Corner) -> (s: i32)
    ensures
        s == sign_x(corner),
{
    match corner {
        Corner::TopLeft | Corner::BottomLeft => 1,
        Corner::TopRight | Corner::BottomRight => -1,
        Corner::Center => 0,
    }
}

/// How the top or bottom margin follows the pointer moving down: 1 from a
/// top anchor, -1 from a bottom one, 0 at the centre.
pub fn drag_sign_y(corner: Corner) -> (s: i32)
    ensures
        s == sign_y(corner),
{
    match corner {
        Corner::TopLeft | Corner::TopRight => 1,
        Corner::BottomLeft | Corner::BottomRight => -1,
        Corner::Center => 0,
    }
}

/// A corner is anchored to a side edge exactly when it is anchored to a top
/// or bottom edge, and then it follows the pointer on both axes, away from
/// the edges it is anchored to; only the centre floats free and stays put.
pub proof fn lemma_corners_anchor_both_ways(c: Corner)
    ensures
        side_edge(c) is None <==> c == Corner::Center,
        end_edge(c) is None <==> c == Corner::Center,
        sign_x(c) == 0 <==> c == Corner::Center,
        sign_y(c) == 0 <==> c == Corner::Center,
        side_edge(c) == Some(ScreenEdge::Left) <==> sign_x(c) == 1,
        end_edge(c) == Some(ScreenEdge::Top) <==> sign_y(c) == 1,
{
}

/// Every anchor offered on the settings page names its own corner, and
/// reading it back gives its place in the list.
pub proof fn lemma_offered_anchors_round_trip()
    ensures
        forall|i: int| 0 <= i < anchor_names().len() ==> anchor_position(#[trigger] anchor_names()[i]) == i,
        corner_named(anchor_names()[0]) == Corner::TopRight,
        corner_named(anchor_names()[1]) == Corner::TopLeft,
        corner_named(anchor_names()[2]) == Corner::BottomRight,
        corner_named(anchor_names()[3]) == Corner::BottomLeft,
        corner_named(anchor_names()[4]) == Corner::Center,
{
    reveal_strlit("top-right");
    reveal_strlit("top-left");
    reveal_strlit("bottom-right");
    reveal_strlit("bottom-left");
    reveal_strlit("center");
    assert(anchor_names()[0] == "top-right"@);
    assert(anchor_names()[1] == "top-left"@);
    assert(anchor_names()[2] == "bottom-right"@);
    assert(anchor_names()[3] == "bottom-left"@);
    assert(anchor_names()[4] == "center"@);
    assert(anchor_names().len() == 5);
    assert("top-right"@.len() == 9 && "top-left"@.len() == 8 && "bottom-right"@.len() == 12);
    assert("bottom-left"@.len() == 11 && "center"@.len() == 6);
    assert(anchor_position(anchor_names()[2]) == 2);
    assert(anchor_position(anchor_names()[3]) == 3);
    assert(anchor_position(anchor_names()[4]) == 4);
}

/// The anchor settings offered, in the order the settings page lists them.
pub open spec fn anchor_names() -> Seq<Seq<char>> {
    seq!["top-right"@, "top-left"@, "bottom-right"@, "bottom-left"@, "center"@]
}

/// Where `anchor` stands among the anchor settings offered; an anchor not
/// offered is shown as the first.
pub open spec fn anchor_position(anchor: Seq<char>) -> nat {
    if anchor == anchor_names()[0] {
        0
    } else if anchor == anchor_names()[1] {
        1
    } else if anchor == anchor_names()[2] {
        2
    } else if anchor == anchor_names()[3] {
        3
    } else if anchor == anchor_names()[4] {
        4
    } else {
        0
    }
}

/// Where `anchor` stands among the anchor settings offered (the first if it
/// is not among them).
pub fn anchor_index(anchor: &str) -> (i: u32)
    ensures
        i == anchor_position(anchor@),
{
    if str_eq(anchor, "top-right") {
        0
    } else if str_eq(anchor, "top-left") {
        1
    } else if str_eq(anchor, "bottom-right") {
        2
    } else if str_eq(anchor, "bottom-left") {
        3
    } else if str_eq(anchor, "center") {
        4
    } else {
        0
    }
}

/// The anchor setting offered at `index`, if any.
pub fn anchor_at(index: u32) -> (a: Option<&'static str>)
    ensures
        index < anchor_names().len() ==> (a matches Some(s) && s@ == anchor_names()[index as int]),
        index >= anchor_names().len() ==> a is None,
{
    if index == 0 {
        Some("top-right")
    } else if index == 1 {
        Some("top-left")
    } else if index == 2 {
        Some("bottom-right")
    } else if index == 3 {
        Some("bottom-left")
    } else if index == 4 {
        Some("center")
    } else {
        None
    }
}

/// A rectangle in surface coordinates.
#[derive(Debug, Clone, Copy, PartialEq, Eq, Structural)]
pub struct Rect {
    pub x: i32,
    pub y: i32,
    pub width: i32,
    pub height: i32,
}

/// `v` held between `lo` and `hi`.
pub open spec fn clamp_int(v: int, lo: int, hi: int) -> int {
    if v < lo { lo } else if v > hi { hi } else { v }
}

/// The rectangles that cover a rounded rectangle but its four corner
/// squares: a top and a bottom strip between the corners (where there is
/// room between them) and a full-width middle band. An empty rectangle needs
/// none. The corner radius is held between zero and half the shorter side.
pub open spec fn rounded_cover(x: int, y: int, w: int, h: int, radius: int) -> Seq<Rect> {
    if w <= 0 || h <= 0 {
        seq![]
    } else {
        let r = corner_radius(w, h, radius);
        let band = Rect { x: x as i32, y: (y + r) as i32, width: w as i32, height: (h - 2 * r) as i32 };
        if w - 2 * r > 0 {
            seq![
                Rect { x: (x + r) as i32, y: y as i32, width: (w - 2 * r) as i32, height: r as i32 },
                Rect { x: (x + r) as i32, y: (y + h - r) as i32, width: (w - 2 * r) as i32, height: r as i32 },
                band,
            ]
        } else {
            seq![band]
        }
    }
}

/// The corner radius a rounded rectangle is drawn with: `radius` held
/// between zero and half the shorter side.
pub open spec fn corner_radius(w: int, h: int, radius: int) -> int {
    clamp_int(radius, 0, (if w < h { w } else { h }) / 2)
}

/// Whether the sums the cover is computed with stay within `i32`: the top
/// of the middle band, and, where there are strips, their left edge and the
/// bottom edge they are measured back from.
pub open spec fn fits(x: int, y: int, w: int, h: int, radius: int) -> bool {
    let r = corner_radius(w, h, radius);
    w > 0 && h > 0 ==> y + r <= i32::MAX && (w - 2 * r > 0 ==> x + r <= i32::MAX && y + h <= i32::MAX)
}

/// The rectangles that cover a rounded rectangle (see [`rounded_cover`]).
pub fn rounded_rects(x: i32, y: i32, w: i32, h: i32, radius: i32) -> (rects: Vec<Rect>)
    requires
        fits(x as int, y as int, w as int, h as int, radius as int),
    ensures
        rects@ == rounded_cover(x as int, y as int, w as int, h as int, radius as int),
{
    let mut rects: Vec<Rect> = Vec::new();
    if w <= 0 || h <= 0 {
        assert(rects@ =~= rounded_cover(x as int, y as int, w as int, h as int, radius as int));
        return rects;
    }
    let shorter = if w < h { w } else { h };
    let half = shorter / 2;
    let r = if radius < 0 { 0 } else if radius > half { half } else { radius };
    if w - 2 * r > 0 {
        rects.push(Rect { x: x + r, y, width: w - 2 * r, height: r });
        rects.push(Rect { x: x + r, y: y + h - r, width: w - 2 * r, height: r });
    }
    rects.push(Rect { x, y: y + r, width: w, height: h - 2 * r });
    assert(rects@ =~= rounded_cover(x as int, y as int, w as int, h as int, radius as int));
    rects
}

/// Corner radius of the dropdown, as its stylesheet draws it.
pub const DROPDOWN_RADIUS: i32 = 22;

/// The region to blur behind the panel: the pill, a capsule whose corner
/// radius is half its height, and the dropdown where it is open (not empty).
pub open spec fn blur_cover(pill: Rect, dropdown: Rect, pill_radius: int) -> Seq<Rect> {
    rounded_cover(pill.x as int, pill.y as int, pill.width as int, pill.height as int, pill_radius) + if dropdown.width
        > 0 && dropdown.height > 0 {
        rounded_cover(
            dropdown.x as int,
            dropdown.y as int,
            dropdown.width as int,
            dropdown.height as int,
            DROPDOWN_RADIUS as int,
        )
    } else {
        seq![]
    }
}

/// Whether the cover of the pill and of the open dropdown can be computed
/// within `i32` (see [`fits`]).
pub open spec fn blur_fits(pill: Rect, dropdown: Rect) -> bool {
    &&& fits(pill.x as int, pill.y as int, pill.width as int, pill.height as int, pill.height / 2)
    &&& dropdown.width > 0 && dropdown.height > 0 ==> fits(
        dropdown.x as int,
        dropdown.y as int,
        dropdown.width as int,
        dropdown.height as int,
        DROPDOWN_RADIUS as int,
    )
}

/// Whether [`blur_rects`] can compute the cover of `pill` and `dropdown`
/// within `i32`.
pub fn blur_rects_fit(pill: Rect, dropdown: Rect) -> (ok: bool)
    ensures
        ok == blur_fits(pill, dropdown),
{
    rect_fits(pill.x, pill.y, pill.width, pill.height, pill.height / 2) && (dropdown.width <= 0
        || dropdown.height <= 0 || rect_fits(dropdown.x, dropdown.y, dropdown.width, dropdown.height, DROPDOWN_RADIUS))
}

/// Whether [`rounded_rects`] can compute the cover within `i32`.
pub fn rect_fits(x: i32, y: i32, w: i32, h: i32, radius: i32) -> (ok: bool)
    ensures
        ok == fits(x as int, y as int, w as int, h as int, radius as int),
{
    if w <= 0 || h <= 0 {
        return true;
    }
    let shorter = if w < h { w } else { h };
    let half = shorter / 2;
    let r = if radius < 0 { 0 } else if radius > half { half } else { radius };
    let room = i32::MAX - r;
    if y > room {
        return false;
    }
    if w - 2 * r > 0 {
        x <= room && y <= i32::MAX - h
    } else {
        true
    }
}

/// The rectangles of the region to blur behind the pill and the dropdown.
/// The pill's radius is half its height, rounded toward zero.
pub fn blur_rects(pill: Rect, dropdown: Rect) -> (rects: Vec<Rect>)
    requires
        blur_fits(pill, dropdown),
    ensures
        pill.height > 0 ==> rects@ == blur_cover(pill, dropdown, pill.height / 2),
        pill.height <= 0 ==> rects@ == blur_cover(pill, dropdown, 0),
{
    let mut rects = rounded_rects(pill.x, pill.y, pill.width, pill.height, pill.height / 2);
    if dropdown.width > 0 && dropdown.height > 0 {
        let mut more = rounded_rects(dropdown.x, dropdown.y, dropdown.width, dropdown.height, DROPDOWN_RADIUS);
        rects.append(&mut more);
    }
    proof {
        if pill.height <= 0 {
            assert(rounded_cover(pill.x as int, pill.y as int, pill.width as int, pill.height as int, (pill.height / 2) as int)
                == rounded_cover(pill.x as int, pill.y as int, pill.width as int, pill.height as int, 0));
        }
    }
    assert(pill.height > 0 ==> rects@ =~= blur_cover(pill, dropdown, pill.height / 2));
    assert(pill.height <= 0 ==> rects@ =~= blur_cover(pill, dropdown, 0));
    rects
}

/// The blurred region stays inside the rectangle it covers and leaves its
/// corner squares out: every rectangle of the cover lies within the
/// rectangle, and none reaches into a corner square of side `r`.
pub proof fn lemma_cover_within_rect(x: int, y: int, w: int, h: int, radius: int)
    requires
        w > 0,
        h > 0,
        fits(x, y, w, h, radius),
        i32::MIN <= x <= i32::MAX,
        i32::MIN <= y <= i32::MAX,
        w <= i32::MAX,
        h <= i32::MAX,
    ensures
        forall|k: int| 0 <= k < rounded_cover(x, y, w, h, radius).len() ==> {
            let c = #[trigger] rounded_cover(x, y, w, h, radius)[k];
            &&& x <= c.x && c.x + c.width <= x + w
            &&& y <= c.y && c.y + c.height <= y + h
            &&& c.width >= 0 && c.height >= 0
        },
{
}

} // verus!
