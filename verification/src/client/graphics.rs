//! Geometry of block elements and box-drawing characters.
//!
//! These characters are painted as rectangles instead of font text, so that
//! neighbouring cells tile without seams. Lengths inside a cell are counted
//! in quarters of the cell, line widths in half pixels.

use vstd::prelude::*;

verus! {

/// Horizontal part of a box-drawing character.
#[derive(Clone, Copy, PartialEq, Eq, Structural, Debug)]
pub enum BarSide {
    Absent,
    Left,
    Right,
    Full,
}

/// Vertical part of a box-drawing character.
#[derive(Clone, Copy, PartialEq, Eq, Structural, Debug)]
pub enum StemSide {
    Absent,
    Up,
    Down,
    Full,
}

/// Stroke of a box-drawing character.
#[derive(Clone, Copy, PartialEq, Eq, Structural, Debug)]
pub enum LineWeight {
    Light,
    Heavy,
    Double,
}

/// What a graphic character is painted as.
#[derive(Clone, Copy, PartialEq, Eq, Structural, Debug)]
pub enum Graphic {
    /// A rectangle `(x0, y0, x1, y1)` and its opacity, all in quarters.
    Block(u8, u8, u8, u8, u8),
    /// Lines through the middle of the cell.
    Lines(BarSide, StemSide, LineWeight),
}

/// Which part of the cell a line crosses.
#[derive(Clone, Copy, PartialEq, Eq, Structural, Debug)]
pub enum Reach {
    /// From the top or left edge to the middle.
    Near,
    /// From the middle to the bottom or right edge.
    Far,
    /// From edge to edge.
    Whole,
}

/// One line of a box-drawing character.
#[derive(Clone, Copy, PartialEq, Eq, Structural, Debug)]
pub struct BoxLine {
    /// A stem (true) or a bar (false).
    pub vertical: bool,
    /// Distance from the middle of the cell, in half pixels.
    pub offset: i8,
    /// Width of the stroke, in half pixels.
    pub thickness: u8,
    /// The part of the cell that is crossed.
    pub reach: Reach,
}

/// Whether `c` is one of the block elements that are painted as a rectangle.
pub open spec fn is_block(c: char) -> bool {
    c == '\u{2580}' || c == '\u{2584}' || c == '\u{2588}' || c == '\u{258C}' || c == '\u{2590}' || c
        == '\u{2591}' || c == '\u{2592}' || c == '\u{2593}'
}

/// Rectangle and opacity of the block element `c`, in quarters: the halves
/// start or end in the middle of the cell, the shades cover it all.
pub open spec fn block(c: char) -> (u8, u8, u8, u8, u8) {
    (
        if c == '\u{2590}' { 2 } else { 0 },
        if c == '\u{2584}' { 2 } else { 0 },
        if c == '\u{258C}' { 2 } else { 4 },
        if c == '\u{2580}' { 2 } else { 4 },
        if c == '\u{2591}' { 1 } else if c == '\u{2592}' { 2 } else if c == '\u{2593}' { 3 } else { 4 },
    )
}

/// Rectangle and opacity of a block element, in quarters of the cell.
pub fn block_geometry(c: char) -> (geometry: Option<(u8, u8, u8, u8, u8)>)
    ensures
        geometry == if is_block(c) {
            Some(block(c))
        } else {
            None
        },
{
    let g: (u8, u8, u8, u8, u8) = match c {
        '\u{2580}' => (0, 0, 4, 2, 4),
        '\u{2584}' => (0, 2, 4, 4, 4),
        '\u{2588}' => (0, 0, 4, 4, 4),
        '\u{258C}' => (0, 0, 2, 4, 4),
        '\u{2590}' => (2, 0, 4, 4, 4),
        '\u{2591}' => (0, 0, 4, 4, 1),
        '\u{2592}' => (0, 0, 4, 4, 2),
        '\u{2593}' => (0, 0, 4, 4, 3),
        _ => return None,
    };
    Some(g)
}

/// Whether `c` is a box-drawing character that is painted as lines.
pub open spec fn is_box(c: char) -> bool {
    let p = c as int;
    ||| 0x2500 <= p <= 0x2551
    ||| p == 0x2554 || p == 0x2557 || p == 0x255A || p == 0x255D
    ||| p == 0x2560 || p == 0x2563 || p == 0x2566 || p == 0x2569
    ||| 0x256C <= p <= 0x2570
}

/// The horizontal part of the box-drawing character `c`.
pub open spec fn box_bar(c: char) -> BarSide {
    let p = c as int;
    if 0x2502 <= p <= 0x2503 || 0x2505 <= p <= 0x2507 || 0x2509 <= p <= 0x250B || 0x254E <= p <= 0x254F
        || p == 0x2551 {
        BarSide::Absent
    } else if 0x250C <= p <= 0x250F || 0x2514 <= p <= 0x2517 || 0x251C <= p <= 0x2523 || p == 0x2543 || p
        == 0x2547 || p == 0x2554 || p == 0x255A || p == 0x2560 || p == 0x256D || p == 0x2570 {
        BarSide::Right
    } else if 0x2510 <= p <= 0x2513 || 0x2518 <= p <= 0x251B || 0x2524 <= p <= 0x252B || p == 0x2544 || p
        == 0x2548 || p == 0x2557 || p == 0x255D || p == 0x2563 || p == 0x256E || p == 0x256F {
        BarSide::Left
    } else {
        BarSide::Full
    }
}

/// The vertical part of the box-drawing character `c`.
pub open spec fn box_stem(c: char) -> StemSide {
    let p = c as int;
    if 0x2500 <= p <= 0x2501 || p == 0x2504 || p == 0x2508 || 0x254C <= p <= 0x254D || p == 0x2550 {
        StemSide::Absent
    } else if 0x250C <= p <= 0x2513 || p == 0x251E || p == 0x2520 || p == 0x2526 || p == 0x2528 || 0x252C
        <= p <= 0x2533 || p == 0x2545 || p == 0x2549 || p == 0x2554 || p == 0x2557 || p == 0x2566
        || 0x256D <= p <= 0x256E {
        StemSide::Up
    } else if 0x2514 <= p <= 0x251B || p == 0x251F || p == 0x2521 || p == 0x2527 || p == 0x2529 || 0x2534
        <= p <= 0x253B || p == 0x2546 || p == 0x254A || p == 0x255A || p == 0x255D || p == 0x2569
        || 0x256F <= p <= 0x2570 {
        StemSide::Down
    } else {
        StemSide::Full
    }
}

/// The stroke of the box-drawing character `c`.
pub open spec fn box_weight(c: char) -> LineWeight {
    let p = c as int;
    if 0x2550 <= p <= 0x256C {
        LineWeight::Double
    } else if p == 0x2501 || p == 0x2503 || 0x250E <= p <= 0x250F || 0x2512 <= p <= 0x2513 || 0x2516 <= p
        <= 0x2517 || 0x251A <= p <= 0x251B || p == 0x2523 || p == 0x252B || p == 0x2533 || p == 0x253B
        || p == 0x254B {
        LineWeight::Heavy
    } else {
        LineWeight::Light
    }
}

/// The lines of a box-drawing character.
pub fn box_geometry(c: char) -> (geometry: Option<(BarSide, StemSide, LineWeight)>)
    ensures
        geometry == if is_box(c) {
            Some((box_bar(c), box_stem(c), box_weight(c)))
        } else {
            None
        },
{
    let g: (BarSide, StemSide, LineWeight) = match c {
        '\u{2500}' => (BarSide::Full, StemSide::Absent, LineWeight::Light),
        '\u{2501}' => (BarSide::Full, StemSide::Absent, LineWeight::Heavy),
        '\u{2502}' => (BarSide::Absent, StemSide::Full, LineWeight::Light),
        '\u{2503}' => (BarSide::Absent, StemSide::Full, LineWeight::Heavy),
        '\u{250C}' => (BarSide::Right, StemSide::Up, LineWeight::Light),
        '\u{250D}' => (BarSide::Right, StemSide::Up, LineWeight::Light),
        '\u{250E}' => (BarSide::Right, StemSide::Up, LineWeight::Heavy),
        '\u{250F}' => (BarSide::Right, StemSide::Up, LineWeight::Heavy),
        '\u{2510}' => (BarSide::Left, StemSide::Up, LineWeight::Light),
        '\u{2511}' => (BarSide::Left, StemSide::Up, LineWeight::Light),
        '\u{2512}' => (BarSide::Left, StemSide::Up, LineWeight::Heavy),
        '\u{2513}' => (BarSide::Left, StemSide::Up, LineWeight::Heavy),
        '\u{2514}' => (BarSide::Right, StemSide::Down, LineWeight::Light),
        '\u{2515}' => (BarSide::Right, StemSide::Down, LineWeight::Light),
        '\u{2516}' => (BarSide::Right, StemSide::Down, LineWeight::Heavy),
        '\u{2517}' => (BarSide::Right, StemSide::Down, LineWeight::Heavy),
        '\u{2518}' => (BarSide::Left, StemSide::Down, LineWeight::Light),
        '\u{2519}' => (BarSide::Left, StemSide::Down, LineWeight::Light),
        '\u{251A}' => (BarSide::Left, StemSide::Down, LineWeight::Heavy),
        '\u{251B}' => (BarSide::Left, StemSide::Down, LineWeight::Heavy),
        '\u{251C}' => (BarSide::Right, StemSide::Full, LineWeight::Light),
        '\u{251D}' => (BarSide::Right, StemSide::Full, LineWeight::Light),
        '\u{251E}' => (BarSide::Right, StemSide::Up, LineWeight::Light),
        '\u{251F}' => (BarSide::Right, StemSide::Down, LineWeight::Light),
        '\u{2520}' => (BarSide::Right, StemSide::Up, LineWeight::Light),
        '\u{2521}' => (BarSide::Right, StemSide::Down, LineWeight::Light),
        '\u{2522}' => (BarSide::Right, StemSide::Full, LineWeight::Light),
        '\u{2523}' => (BarSide::Right, StemSide::Full, LineWeight::Heavy),
        '\u{2524}' => (BarSide::Left, StemSide::Full, LineWeight::Light),
        '\u{2525}' => (BarSide::Left, StemSide::Full, LineWeight::Light),
        '\u{2526}' => (BarSide::Left, StemSide::Up, LineWeight::Light),
        '\u{2527}' => (BarSide::Left, StemSide::Down, LineWeight::Light),
        '\u{2528}' => (BarSide::Left, StemSide::Up, LineWeight::Light),
        '\u{2529}' => (BarSide::Left, StemSide::Down, LineWeight::Light),
        '\u{252A}' => (BarSide::Left, StemSide::Full, LineWeight::Light),
        '\u{252B}' => (BarSide::Left, StemSide::Full, LineWeight::Heavy),
        '\u{252C}' => (BarSide::Full, StemSide::Up, LineWeight::Light),
        '\u{252D}' => (BarSide::Full, StemSide::Up, LineWeight::Light),
        '\u{252E}' => (BarSide::Full, StemSide::Up, LineWeight::Light),
        '\u{252F}' => (BarSide::Full, StemSide::Up, LineWeight::Light),
        '\u{2530}' => (BarSide::Full, StemSide::Up, LineWeight::Light),
        '\u{2531}' => (BarSide::Full, StemSide::Up, LineWeight::Light),
        '\u{2532}' => (BarSide::Full, StemSide::Up, LineWeight::Light),
        '\u{2533}' => (BarSide::Full, StemSide::Up, LineWeight::Heavy),
        '\u{2534}' => (BarSide::Full, StemSide::Down, LineWeight::Light),
        '\u{2535}' => (BarSide::Full, StemSide::Down, LineWeight::Light),
        '\u{2536}' => (BarSide::Full, StemSide::Down, LineWeight::Light),
        '\u{2537}' => (BarSide::Full, StemSide::Down, LineWeight::Light),
        '\u{2538}' => (BarSide::Full, StemSide::Down, LineWeight::Light),
        '\u{2539}' => (BarSide::Full, StemSide::Down, LineWeight::Light),
        '\u{253A}' => (BarSide::Full, StemSide::Down, LineWeight::Light),
        '\u{253B}' => (BarSide::Full, StemSide::Down, LineWeight::Heavy),
        '\u{253C}' => (BarSide::Full, StemSide::Full, LineWeight::Light),
        '\u{253D}' => (BarSide::Full, StemSide::Full, LineWeight::Light),
        '\u{253E}' => (BarSide::Full, StemSide::Full, LineWeight::Light),
        '\u{253F}' => (BarSide::Full, StemSide::Full, LineWeight::Light),
        '\u{2540}' => (BarSide::Full, StemSide::Full, LineWeight::Light),
        '\u{2541}' => (BarSide::Full, StemSide::Full, LineWeight::Light),
        '\u{2542}' => (BarSide::Full, StemSide::Full, LineWeight::Light),
        '\u{2543}' => (BarSide::Right, StemSide::Full, LineWeight::Light),
        '\u{2544}' => (BarSide::Left, StemSide::Full, LineWeight::Light),
        '\u{2545}' => (BarSide::Full, StemSide::Up, LineWeight::Light),
        '\u{2546}' => (BarSide::Full, StemSide::Down, LineWeight::Light),
        '\u{2547}' => (BarSide::Right, StemSide::Full, LineWeight::Light),
        '\u{2548}' => (BarSide::Left, StemSide::Full, LineWeight::Light),
        '\u{2549}' => (BarSide::Full, StemSide::Up, LineWeight::Light),
        '\u{254A}' => (BarSide::Full, StemSide::Down, LineWeight::Light),
        '\u{254B}' => (BarSide::Full, StemSide::Full, LineWeight::Heavy),
        '\u{2550}' => (BarSide::Full, StemSide::Absent, LineWeight::Double),
        '\u{2551}' => (BarSide::Absent, StemSide::Full, LineWeight::Double),
        '\u{2554}' => (BarSide::Right, StemSide::Up, LineWeight::Double),
        '\u{2557}' => (BarSide::Left, StemSide::Up, LineWeight::Double),
        '\u{255A}' => (BarSide::Right, StemSide::Down, LineWeight::Double),
        '\u{255D}' => (BarSide::Left, StemSide::Down, LineWeight::Double),
        '\u{2560}' => (BarSide::Right, StemSide::Full, LineWeight::Double),
        '\u{2563}' => (BarSide::Left, StemSide::Full, LineWeight::Double),
        '\u{2566}' => (BarSide::Full, StemSide::Up, LineWeight::Double),
        '\u{2569}' => (BarSide::Full, StemSide::Down, LineWeight::Double),
        '\u{256C}' => (BarSide::Full, StemSide::Full, LineWeight::Double),
        '\u{256D}' => (BarSide::Right, StemSide::Up, LineWeight::Light),
        '\u{256E}' => (BarSide::Left, StemSide::Up, LineWeight::Light),
        '\u{256F}' => (BarSide::Left, StemSide::Down, LineWeight::Light),
        '\u{2570}' => (BarSide::Right, StemSide::Down, LineWeight::Light),
        '\u{2504}' | '\u{2508}' | '\u{254C}' | '\u{254D}' => (
            BarSide::Full,
            StemSide::Absent,
            LineWeight::Light,
        ),
        '\u{2505}' | '\u{2506}' | '\u{2507}' | '\u{2509}' | '\u{250A}' | '\u{250B}' | '\u{254E}'
        | '\u{254F}' => (BarSide::Absent, StemSide::Full, LineWeight::Light),
        _ => return None,
    };
    Some(g)
}

/// What the character `c` is painted as, or `None` when it is font text.
pub open spec fn graphic(c: char) -> Option<Graphic> {
    if is_block(c) {
        let g = block(c);
        Some(Graphic::Block(g.0, g.1, g.2, g.3, g.4))
    } else if is_box(c) {
        Some(Graphic::Lines(box_bar(c), box_stem(c), box_weight(c)))
    } else {
        None
    }
}

/// What a cell's text is painted as: its first character decides.
pub open spec fn glyph_graphic(glyph: Seq<char>) -> Option<Graphic> {
    if glyph.len() == 0 {
        None
    } else {
        graphic(glyph[0])
    }
}

/// The geometry that a cell's text is painted as, or `None` when the caller
/// has to draw it as font text.
pub fn draw_graphic_cell(glyph: &str) -> (shape: Option<Graphic>)
    ensures
        shape == glyph_graphic(glyph@),
{
    if glyph.is_empty() {
        return None;
    }
    let c: char = glyph.get_char(0);
    if let Some(g) = block_geometry(c) {
        return Some(Graphic::Block(g.0, g.1, g.2, g.3, g.4));
    }
    match box_geometry(c) {
        Some(g) => Some(Graphic::Lines(g.0, g.1, g.2)),
        None => None,
    }
}

/// Stroke width and distance of the strokes from the middle, in half pixels.
pub fn box_line_width(weight: LineWeight) -> (width: (u8, u8))
    ensures
        width == line_width(weight),
{
    match weight {
        LineWeight::Light => (4, 0),
        LineWeight::Heavy => (6, 0),
        LineWeight::Double => (3, 6),
    }
}

/// Stroke width and distance of the strokes from the middle: single strokes
/// of 2 or 3 pixels, or two of 1.5 pixels that lie 3 pixels off the middle.
pub open spec fn line_width(weight: LineWeight) -> (u8, u8) {
    match weight {
        LineWeight::Light => (4, 0),
        LineWeight::Heavy => (6, 0),
        LineWeight::Double => (3, 6),
    }
}

/// The strokes at distance `offset` from the middle, the stem first.
pub open spec fn strokes_at(bar: BarSide, stem: StemSide, thickness: u8, offset: i8) -> Seq<BoxLine> {
    let stem_line = |reach: Reach| seq![BoxLine { vertical: true, offset, thickness, reach }];
    let bar_line = |reach: Reach| seq![BoxLine { vertical: false, offset, thickness, reach }];
    (match stem {
        StemSide::Absent => Seq::empty(),
        StemSide::Up => stem_line(Reach::Near),
        StemSide::Down => stem_line(Reach::Far),
        StemSide::Full => stem_line(Reach::Whole),
    }) + (match bar {
        BarSide::Absent => Seq::empty(),
        BarSide::Left => bar_line(Reach::Near),
        BarSide::Right => bar_line(Reach::Far),
        BarSide::Full => bar_line(Reach::Whole),
    })
}

/// All strokes of a box-drawing character, in painting order.
pub open spec fn strokes(bar: BarSide, stem: StemSide, weight: LineWeight) -> Seq<BoxLine> {
    let (t, gap) = line_width(weight);
    if gap > 0 {
        strokes_at(bar, stem, t, (-gap) as i8) + strokes_at(bar, stem, t, gap as i8)
    } else {
        strokes_at(bar, stem, t, 0)
    }
}

/// Appends the strokes at one distance from the middle.
fn push_strokes(out: &mut Vec<BoxLine>, bar: BarSide, stem: StemSide, thickness: u8, offset: i8)
    ensures
        final(out)@ == old(out)@ + strokes_at(bar, stem, thickness, offset),
{
    match stem {
        StemSide::Absent => {},
        StemSide::Up => out.push(BoxLine { vertical: true, offset, thickness, reach: Reach::Near }),
        StemSide::Down => out.push(BoxLine { vertical: true, offset, thickness, reach: Reach::Far }),
        StemSide::Full => out.push(BoxLine { vertical: true, offset, thickness, reach: Reach::Whole }),
    }
    match bar {
        BarSide::Absent => {},
        BarSide::Left => out.push(BoxLine { vertical: false, offset, thickness, reach: Reach::Near }),
        BarSide::Right => out.push(BoxLine { vertical: false, offset, thickness, reach: Reach::Far }),
        BarSide::Full => out.push(BoxLine { vertical: false, offset, thickness, reach: Reach::Whole }),
    }
    assert(out@ =~= old(out)@ + strokes_at(bar, stem, thickness, offset));
}

/// The strokes that a box-drawing character is painted with.
pub fn draw_box_lines(bar: BarSide, stem: StemSide, weight: LineWeight) -> (lines: Vec<BoxLine>)
    ensures
        lines@ == strokes(bar, stem, weight),
{
    let (t, gap): (u8, u8) = box_line_width(weight);
    let mut lines: Vec<BoxLine> = Vec::new();
    if gap > 0 {
        push_strokes(&mut lines, bar, stem, t, -(gap as i8));
        push_strokes(&mut lines, bar, stem, t, gap as i8);
    } else {
        push_strokes(&mut lines, bar, stem, t, 0);
    }
    assert(lines@ =~= strokes(bar, stem, weight));
    lines
}

/// No character is both a block element and a box-drawing character.
pub proof fn lemma_graphics_are_disjoint(c: char)
    ensures
        !(is_block(c) && is_box(c)),
{
}

/// Every box-drawing character paints at least one stroke, so none of them
/// is invisible.
pub proof fn lemma_box_characters_are_visible(c: char)
    requires
        is_box(c),
    ensures
        strokes(box_bar(c), box_stem(c), box_weight(c)).len() > 0,
{
}

/// The halves of a cell: the upper and the lower half block meet in the middle
/// and together cover the cell, and so do the left and the right one. All of
/// them, and the full block, are opaque.
pub proof fn lemma_half_blocks_make_up_the_cell()
    ensures
        ({
            let (upper, lower) = (block('\u{2580}'), block('\u{2584}'));
            let (left, right) = (block('\u{258C}'), block('\u{2590}'));
            let full = block('\u{2588}');
            &&& full == (0u8, 0u8, 4u8, 4u8, 4u8)
            &&& upper == (full.0, full.1, full.2, lower.1, full.4)
            &&& lower == (full.0, upper.3, full.2, full.3, full.4)
            &&& left == (full.0, full.1, right.0, full.3, full.4)
            &&& right == (left.2, full.1, full.2, full.3, full.4)
            &&& 2 * upper.3 == 4 && 2 * left.2 == 4
        }),
{
}

/// The shades cover the whole cell, each by a quarter more than the one before.
pub proof fn lemma_shades_grow_by_quarters(k: int)
    requires
        1 <= k <= 3,
    ensures
        is_block((0x2590 + k) as char),
        block((0x2590 + k) as char) == (0u8, 0u8, 4u8, 4u8, k as u8),
{
}

/// Which characters are painted: the half blocks, the full block and the
/// shades; the box-drawing characters from U+2500 to U+2570, but of the ones
/// with double strokes only those that are double in both directions.
pub proof fn lemma_graphic_characters(c: char)
    ensures
        ({
            let p = c as int;
            &&& is_block(c) <==> 0x2580 <= p <= 0x2590 && (p - 0x2580) % 4 == 0 || 0x2591 <= p <= 0x2593
            &&& is_box(c) <==> 0x2500 <= p <= 0x2570 && (0x2552 <= p <= 0x256c ==> (p - 0x2554) % 3
                == 0)
            &&& graphic(c) is Some <==> is_block(c) || is_box(c)
        }),
{
}

/// The first character of a cell's text decides what is painted, and nothing
/// else of it.
pub proof fn lemma_first_character_decides(c: char, rest: Seq<char>)
    ensures
        glyph_graphic(seq![c] + rest) == graphic(c),
        graphic(c) matches Some(Graphic::Block(x0, y0, x1, y1, opacity)) ==> is_block(c) && (
            x0,
            y0,
            x1,
            y1,
            opacity,
        ) == block(c),
        graphic(c) matches Some(Graphic::Lines(bar, stem, weight)) ==> is_box(c) && bar == box_bar(c)
            && stem == box_stem(c) && weight == box_weight(c),
{
    assert((seq![c] + rest)[0] == c);
}

/// The straight lines: a horizontal one is a bar without a stem, a vertical
/// one a stem without a bar, and both run through the whole cell. All other
/// characters have both.
pub proof fn lemma_straight_lines(c: char)
    requires
        is_box(c),
    ensures
        ({
            let p = c as int;
            let horizontal = p == 0x2500 || p == 0x2501 || p == 0x2504 || p == 0x2508 || p == 0x254c
                || p == 0x254d || p == 0x2550;
            let vertical = !horizontal && (p < 0x250c || 0x254c <= p <= 0x2551);
            &&& box_stem(c) == StemSide::Absent <==> horizontal
            &&& box_bar(c) == BarSide::Absent <==> vertical
            &&& horizontal ==> box_bar(c) == BarSide::Full
            &&& vertical ==> box_stem(c) == StemSide::Full
            &&& p < 0x250c ==> (box_weight(c) == LineWeight::Heavy <==> p == 0x2501 || p == 0x2503)
            &&& p < 0x250c || 0x254c <= p < 0x2550 ==> box_weight(c) != LineWeight::Double
            &&& 0x254c <= p < 0x2550 ==> box_weight(c) == LineWeight::Light
        }),
{
}

/// The corners come in four groups of four, and once more with double strokes
/// and with rounded ones: the bar goes to the right in every first group and
/// to the left in every second, the stem is up in the first two groups and
/// down in the others. The two last of each group are heavy.
pub proof fn lemma_corners(group: int, k: int)
    requires
        0 <= group < 4,
        0 <= k < 4,
    ensures
        ({
            let bar = if group % 2 == 0 {
                BarSide::Right
            } else {
                BarSide::Left
            };
            let stem = if group < 2 {
                StemSide::Up
            } else {
                StemSide::Down
            };
            let simple = (0x250c + 4 * group + k) as char;
            let double = (0x2554 + 3 * group) as char;
            let round = (if group < 2 {
                0x256d + group
            } else {
                0x2572 - group
            }) as char;
            &&& box_bar(simple) == bar && box_stem(simple) == stem
            &&& box_weight(simple) == if k < 2 {
                LineWeight::Light
            } else {
                LineWeight::Heavy
            }
            &&& box_bar(double) == bar && box_stem(double) == stem
            &&& box_weight(double) == LineWeight::Double
            &&& box_bar(round) == bar && box_stem(round) == stem
            &&& box_weight(round) == LineWeight::Light
        }),
{
}

/// The tees come in groups of eight: two that point to the right and to the
/// left and are mirror images of each other, and two that point up and down
/// and are, too. The last of each group is heavy. The double tees follow the
/// same order.
pub proof fn lemma_tees(k: int)
    requires
        0 <= k < 8,
    ensures
        ({
            let right = (0x251c + k) as char;
            let left = (0x2524 + k) as char;
            let up = (0x252c + k) as char;
            let down = (0x2534 + k) as char;
            let weight = if k == 7 {
                LineWeight::Heavy
            } else {
                LineWeight::Light
            };
            &&& box_bar(right) == BarSide::Right && box_bar(left) == BarSide::Left
            &&& box_stem(right) == box_stem(left)
            &&& box_stem(right) == if k == 2 || k == 4 {
                StemSide::Up
            } else if k == 3 || k == 5 {
                StemSide::Down
            } else {
                StemSide::Full
            }
            &&& box_bar(up) == BarSide::Full && box_bar(down) == BarSide::Full
            &&& box_stem(up) == StemSide::Up && box_stem(down) == StemSide::Down
            &&& box_weight(right) == weight && box_weight(left) == weight
            &&& box_weight(up) == weight && box_weight(down) == weight
        }),
        ({
            let (right, left) = ('\u{2560}', '\u{2563}');
            let (up, down) = ('\u{2566}', '\u{2569}');
            &&& box_bar(right) == BarSide::Right && box_stem(right) == StemSide::Full
            &&& box_bar(left) == BarSide::Left && box_stem(left) == StemSide::Full
            &&& box_bar(up) == BarSide::Full && box_stem(up) == StemSide::Up
            &&& box_bar(down) == BarSide::Full && box_stem(down) == StemSide::Down
            &&& box_weight(right) == LineWeight::Double && box_weight(left) == LineWeight::Double
            &&& box_weight(up) == LineWeight::Double && box_weight(down) == LineWeight::Double
        }),
{
}

/// The crosses: sixteen simple ones, of which those with one short arm come in
/// pairs, and the double one. Only the last of the simple ones is heavy.
pub proof fn lemma_crosses(k: int)
    requires
        0 <= k < 16,
    ensures
        ({
            let c = (0x253c + k) as char;
            let short_bar = k == 7 || k == 8 || k == 11 || k == 12;
            let short_stem = k == 9 || k == 10 || k == 13 || k == 14;
            &&& box_bar(c) == if !short_bar {
                BarSide::Full
            } else if k % 2 == 1 {
                BarSide::Right
            } else {
                BarSide::Left
            }
            &&& box_stem(c) == if !short_stem {
                StemSide::Full
            } else if k % 2 == 1 {
                StemSide::Up
            } else {
                StemSide::Down
            }
            &&& box_weight(c) == if k == 15 {
                LineWeight::Heavy
            } else {
                LineWeight::Light
            }
        }),
        box_bar('\u{256C}') == BarSide::Full,
        box_stem('\u{256C}') == StemSide::Full,
        box_weight('\u{256C}') == LineWeight::Double,
        box_weight('\u{2550}') == LineWeight::Double,
        box_weight('\u{2551}') == LineWeight::Double,
{
}

/// What every stroke of a box-drawing character is like: it reaches from the
/// near edge to the middle for an arm that goes up or left, from the middle to
/// the far edge for one that goes down or right, and through the cell for a
/// whole one. Light strokes are 2 pixels wide, heavy ones 3 and double ones
/// 1.5, and only those lie off the middle, by 3 pixels.
pub proof fn lemma_strokes_follow_the_arms(bar: BarSide, stem: StemSide, weight: LineWeight, i: int)
    requires
        0 <= i < strokes(bar, stem, weight).len(),
    ensures
        ({
            let line = strokes(bar, stem, weight)[i];
            &&& line.vertical ==> match line.reach {
                Reach::Near => stem == StemSide::Up,
                Reach::Far => stem == StemSide::Down,
                Reach::Whole => stem == StemSide::Full,
            }
            &&& !line.vertical ==> match line.reach {
                Reach::Near => bar == BarSide::Left,
                Reach::Far => bar == BarSide::Right,
                Reach::Whole => bar == BarSide::Full,
            }
            &&& weight == LineWeight::Light ==> line.thickness == 2 * 2 && line.offset == 0
            &&& weight == LineWeight::Heavy ==> line.thickness == 2 * 3 && line.offset == 0
            &&& weight == LineWeight::Double ==> line.thickness == 3 && (line.offset == 2 * 3
                || line.offset == -2 * 3)
        }),
{
}

/// How many arms a box-drawing character has: a bar, a stem or both.
pub open spec fn arms(bar: BarSide, stem: StemSide) -> int {
    (if stem == StemSide::Absent {
        0int
    } else {
        1
    }) + (if bar == BarSide::Absent {
        0int
    } else {
        1
    })
}

/// Every arm is stroked, and no stroke is painted for an arm that is absent.
pub proof fn lemma_every_arm_is_stroked(bar: BarSide, stem: StemSide, weight: LineWeight)
    ensures
        ({
            let lines = strokes(bar, stem, weight);
            &&& lines.len() == if weight == LineWeight::Double {
                2 * arms(bar, stem)
            } else {
                arms(bar, stem)
            }
            &&& stem != StemSide::Absent ==> lines.len() > 0 && lines[0].vertical
            &&& bar != BarSide::Absent ==> lines.len() > 0 && !lines.last().vertical
        }),
{
}

/// Double strokes come in pairs that lie equally far on both sides of the
/// middle and differ in nothing else.
pub proof fn lemma_double_strokes_come_in_pairs(bar: BarSide, stem: StemSide, k: int)
    requires
        0 <= k < arms(bar, stem),
    ensures
        ({
            let lines = strokes(bar, stem, LineWeight::Double);
            let (near, far) = (lines[k], lines[k + arms(bar, stem)]);
            near.offset < 0 && near.offset + far.offset == 0 && near == BoxLine {
                offset: near.offset,
                ..far
            }
        }),
{
    let near = strokes_at(bar, stem, 3, (-6) as i8);
    let far = strokes_at(bar, stem, 3, 6);
    let lines = strokes(bar, stem, LineWeight::Double);
    assert(lines == near + far);
    assert(near.len() == arms(bar, stem));
    assert(lines[k] == near[k]);
    assert(lines[k + arms(bar, stem)] == far[k]);
}

} // verus!
