//! What the WebGL2 renderer draws: one instance for every cell of the grid.
//!
//! Every instance is drawn twice, as a background quad and as text: a quad
//! that samples the glyph's slot of the atlas, or the flat geometry of a
//! graphic character.

use crate::client::atlas::{char_edges, GlyphAtlas};
use crate::client::color::{cell_visual, visual, CellOverride};
use crate::client::graphics::{draw_graphic_cell, glyph_graphic, graphic, Graphic};
use crate::client::paint::{painted_cell, read_painted_cell};
use crate::client::screen::{grid_cols, grid_rows, shown_cols, shown_rows, Cell, CellView};
use std::collections::HashSet;
use vstd::prelude::*;

verus! {

/// How the text of a cell is drawn.
#[derive(Clone, Copy, Debug)]
pub enum CellPaint {
    /// A quad that shows the atlas between these edges; an empty one for a
    /// character without a slot.
    Glyph((u32, u32, u32, u32)),
    /// The geometry of a graphic character.
    Shape(Graphic),
}

/// One cell of the grid.
#[derive(Clone, Copy, Debug)]
pub struct CellInstance {
    /// Left edge in pixels.
    pub px: u32,
    /// Upper edge in pixels; row 0 is at the top.
    pub py: u32,
    /// Foreground color.
    pub fg: u32,
    /// Background color.
    pub bg: u32,
    /// The cell is drawn as selected.
    pub selected: bool,
    /// The cell is drawn as the cursor.
    pub cursor: bool,
    /// How the text is drawn.
    pub paint: CellPaint,
}

/// The character that stands for a cell: the first one of its text, or a
/// space.
pub open spec fn cell_char(cell: Option<CellView>) -> char {
    match cell {
        Some(c) => if c.contents.len() > 0 {
            c.contents[0]
        } else {
            ' '
        },
        None => ' ',
    }
}

/// How a cell is drawn: the cursor masks the selection.
pub open spec fn cell_override(selected: bool, cursor: bool) -> CellOverride {
    if cursor {
        CellOverride::Cursor
    } else if selected {
        CellOverride::Selected
    } else {
        CellOverride::Normal
    }
}

/// How a character is drawn: graphic characters as geometry, all others from
/// the atlas.
pub open spec fn char_paint(uv_map: Seq<(u32, u32, u32, u32)>, ch: char) -> CellPaint {
    match graphic(ch) {
        Some(shape) => CellPaint::Shape(shape),
        None => match char_edges(uv_map, ch) {
            Some(edges) => CellPaint::Glyph(edges),
            None => CellPaint::Glyph((0, 0, 0, 0)),
        },
    }
}

/// What a frame is drawn from.
pub struct Scene {
    pub screen: vt100::Screen,
    pub uv_map: Seq<(u32, u32, u32, u32)>,
    pub selection: Seq<(u16, u16)>,
    pub cursor: (u16, u16),
    pub default_fg: u32,
    pub default_bg: u32,
    pub cell_w: u32,
    pub cell_h: u32,
}

/// Whether `instance` draws the cell at (`row`, `col`) of the scene.
pub open spec fn draws_cell(scene: Scene, row: u16, col: u16, instance: CellInstance) -> bool {
    let cell = painted_cell(scene.screen, row, col);
    let selected = scene.selection.contains((row, col));
    let cursor = (row, col) == scene.cursor;
    let colors = visual(
        cell,
        scene.default_fg,
        scene.default_bg,
        cell_override(selected, cursor),
    );
    &&& instance.px == col * scene.cell_w
    &&& instance.py == row * scene.cell_h
    &&& (instance.fg as int, instance.bg as int) == colors
    &&& instance.selected == (selected && !cursor)
    &&& instance.cursor == cursor
    &&& instance.paint == char_paint(scene.uv_map, cell_char(cell))
}

/// The cell at (`row`, `col`) as a single number.
pub open spec fn cell_key(cell: (u16, u16)) -> u32 {
    (cell.0 * 0x10000 + cell.1) as u32
}

/// The cells as a set of numbers.
fn cell_keys(cells: &[(u16, u16)]) -> (keys: HashSet<u32>)
    ensures
        forall|c: (u16, u16)| #[trigger] cells@.contains(c) <==> keys@.contains(cell_key(c)),
{
    broadcast use vstd::std_specs::hash::group_hash_axioms;

    let mut keys: HashSet<u32> = HashSet::new();
    let mut i: usize = 0;
    while i < cells.len()
        invariant
            i <= cells@.len(),
            forall|k: u32| #[trigger]
                keys@.contains(k) <==> exists|j: int|
                    0 <= j < i && cell_key(#[trigger] cells@[j]) == k,
        decreases cells.len() - i,
    {
        let (row, col): (u16, u16) = cells[i];
        let ghost before = keys@;
        keys.insert(row as u32 * 0x10000 + col as u32);
        assert(cell_key(cells@[i as int]) == row * 0x10000 + col);
        assert forall|k: u32| #[trigger] keys@.contains(k) <==> exists|j: int|
            0 <= j < i + 1 && cell_key(#[trigger] cells@[j]) == k by {
            if keys@.contains(k) {
                if before.contains(k) {
                    let j = choose|j: int| 0 <= j < i && cell_key(#[trigger] cells@[j]) == k;
                    assert(cell_key(cells@[j]) == k);
                } else {
                    assert(cell_key(cells@[i as int]) == k);
                }
            }
        }
        i += 1;
    }
    assert forall|c: (u16, u16)| #[trigger] cells@.contains(c) <==> keys@.contains(cell_key(c)) by {
        if cells@.contains(c) {
            let j = choose|j: int| 0 <= j < cells@.len() && cells@[j] == c;
            assert(cell_key(cells@[j]) == cell_key(c));
        }
        if keys@.contains(cell_key(c)) {
            let j = choose|j: int|
                0 <= j < cells@.len() && cell_key(#[trigger] cells@[j]) == cell_key(c);
            assert(cells@[j] == c);
        }
    }
    keys
}

/// The instance that draws the cell at (`row`, `col`).
fn build_instance(
    row: u16,
    col: u16,
    cell_w: u32,
    cell_h: u32,
    atlas: &GlyphAtlas,
    screen: &vt100::Screen,
    selected: bool,
    cursor: bool,
    default_fg: u32,
    default_bg: u32,
    scene: Ghost<Scene>,
) -> (instance: CellInstance)
    requires
        col * cell_w <= u32::MAX,
        row * cell_h <= u32::MAX,
        scene@.screen == *screen,
        scene@.uv_map == atlas.uv_map@,
        scene@.default_fg == default_fg,
        scene@.default_bg == default_bg,
        scene@.cell_w == cell_w,
        scene@.cell_h == cell_h,
        selected == scene@.selection.contains((row, col)),
        cursor == ((row, col) == scene@.cursor),
    ensures
        draws_cell(scene@, row, col, instance),
{
    let cell: Option<Cell> = read_painted_cell(screen, row, col);
    let (fg, bg): (u32, u32) = cell_visual(
        &cell,
        default_fg,
        default_bg,
        if cursor {
            CellOverride::Cursor
        } else if selected {
            CellOverride::Selected
        } else {
            CellOverride::Normal
        },
    );
    let (ch, shape): (char, Option<Graphic>) = match &cell {
        Some(c) => if c.contents.as_str().is_empty() {
            (' ', None)
        } else {
            (c.contents.as_str().get_char(0), draw_graphic_cell(c.contents.as_str()))
        },
        None => (' ', None),
    };
    let paint: CellPaint = match shape {
        Some(shape) => CellPaint::Shape(shape),
        None => match atlas.uv_for(ch) {
            Some(edges) => CellPaint::Glyph(edges),
            None => CellPaint::Glyph((0, 0, 0, 0)),
        },
    };
    CellInstance {
        px: col as u32 * cell_w,
        py: row as u32 * cell_h,
        fg,
        bg,
        selected: selected && !cursor,
        cursor,
        paint,
    }
}

/// Whether the pixel position of every cell of the grid can be computed.
pub open spec fn grid_fits(rows: u16, cols: u16, cell_w: u32, cell_h: u32) -> bool {
    rows > 0 && cols > 0 ==> (cols - 1) * cell_w <= u32::MAX && (rows - 1) * cell_h <= u32::MAX
}

/// Whether `instances` draw the whole grid of the scene, row by row.
pub open spec fn draws_grid(scene: Scene, rows: u16, cols: u16, instances: Seq<CellInstance>) -> bool {
    &&& instances.len() == rows * cols
    &&& forall|row: u16, col: u16|
        row < rows && col < cols ==> #[trigger] draws_cell(
            scene,
            row,
            col,
            instances[row * cols + col],
        )
}

/// The instances that draw a grid of `rows` by `cols` cells.
pub fn build_instances(
    rows: u16,
    cols: u16,
    cell_w: u32,
    cell_h: u32,
    atlas: &GlyphAtlas,
    screen: &vt100::Screen,
    selection: &[(u16, u16)],
    cursor: (u16, u16),
    default_fg: u32,
    default_bg: u32,
) -> (instances: Vec<CellInstance>)
    requires
        grid_fits(rows, cols, cell_w, cell_h),
    ensures
        draws_grid(
            (Scene {
                screen: *screen,
                uv_map: atlas.uv_map@,
                selection: selection@,
                cursor,
                default_fg,
                default_bg,
                cell_w,
                cell_h,
            }),
            rows,
            cols,
            instances@,
        ),
{
    broadcast use vstd::std_specs::hash::group_hash_axioms;

    let ghost scene = Scene {
        screen: *screen,
        uv_map: atlas.uv_map@,
        selection: selection@,
        cursor,
        default_fg,
        default_bg,
        cell_w,
        cell_h,
    };
    let keys: HashSet<u32> = cell_keys(selection);
    let mut instances: Vec<CellInstance> = Vec::new();
    let mut row: u16 = 0;
    assert(0 * cols == 0);
    while row < rows
        invariant
            row <= rows,
            grid_fits(rows, cols, cell_w, cell_h),
            scene == (Scene {
                screen: *screen,
                uv_map: atlas.uv_map@,
                selection: selection@,
                cursor,
                default_fg,
                default_bg,
                cell_w,
                cell_h,
            }),
            forall|c: (u16, u16)| #[trigger] selection@.contains(c) <==> keys@.contains(cell_key(c)),
            instances@.len() == row * cols,
            forall|r: u16, c: u16|
                r < row && c < cols ==> #[trigger] draws_cell(scene, r, c, instances@[r * cols + c]),
        decreases rows - row,
    {
        let mut col: u16 = 0;
        while col < cols
            invariant
                row < rows,
                col <= cols,
                grid_fits(rows, cols, cell_w, cell_h),
                scene == (Scene {
                    screen: *screen,
                    uv_map: atlas.uv_map@,
                    selection: selection@,
                    cursor,
                    default_fg,
                    default_bg,
                    cell_w,
                    cell_h,
                }),
                forall|c: (u16, u16)| #[trigger]
                    selection@.contains(c) <==> keys@.contains(cell_key(c)),
                instances@.len() == row * cols + col,
                forall|r: u16, c: u16|
                    c < cols && (r < row || (r == row && c < col)) ==> #[trigger] draws_cell(
                        scene,
                        r,
                        c,
                        instances@[r * cols + c],
                    ),
            decreases cols - col,
        {
            proof {
                assert(col * cell_w <= (cols - 1) * cell_w) by (nonlinear_arith)
                    requires
                        col <= cols - 1,
                        cell_w >= 0,
                ;
                assert(row * cell_h <= (rows - 1) * cell_h) by (nonlinear_arith)
                    requires
                        row <= rows - 1,
                        cell_h >= 0,
                ;
                assert(selection@.contains((row, col)) <==> keys@.contains(cell_key((row, col))));
            }
            let key: u32 = row as u32 * 0x10000 + col as u32;
            let selected: bool = keys.contains(&key);
            let at_cursor: bool = row == cursor.0 && col == cursor.1;
            let instance: CellInstance = build_instance(
                row,
                col,
                cell_w,
                cell_h,
                atlas,
                screen,
                selected,
                at_cursor,
                default_fg,
                default_bg,
                Ghost(scene),
            );
            let ghost before = instances@;
            instances.push(instance);
            assert forall|r: u16, c: u16|
                c < cols && (r < row || (r == row && c < col + 1)) implies #[trigger] draws_cell(
                scene,
                r,
                c,
                instances@[r * cols + c],
            ) by {
                if !(r == row && c == col) {
                    assert(0 <= r * cols + c < row * cols + col) by (nonlinear_arith)
                        requires
                            c < cols,
                            r < row || (r == row && c < col),
                            0 <= r,
                            0 <= c,
                            0 <= col,
                    ;
                    assert(draws_cell(scene, r, c, before[r * cols + c]));
                }
            }
            col += 1;
        }
        assert((row + 1) * cols == row * cols + cols) by (nonlinear_arith);
        row += 1;
    }
    instances
}

/// The WebGL2 renderer: the size of a cell in pixels, the grid and the atlas.
pub struct WebGL2Renderer {
    /// Width of a cell in pixels.
    pub cell_w: u32,
    /// Height of a cell in pixels.
    pub cell_h: u32,
    /// Rows of the grid; 0 stands for the screen's rows.
    pub rows: u16,
    /// Columns of the grid; 0 stands for the screen's columns.
    pub cols: u16,
    /// The glyph atlas.
    pub atlas: GlyphAtlas,
}

impl WebGL2Renderer {
    /// The instances that draw the next frame.
    pub fn render(
        &self,
        screen: &vt100::Screen,
        default_fg: u32,
        default_bg: u32,
        selection: &[(u16, u16)],
        cursor: (u16, u16),
    ) -> (instances: Vec<CellInstance>)
        requires
            grid_fits(grid_rows(self.rows, *screen), grid_cols(self.cols, *screen), self.cell_w, self.cell_h),
        ensures
            draws_grid(
                (Scene {
                    screen: *screen,
                    uv_map: self.atlas.uv_map@,
                    selection: selection@,
                    cursor,
                    default_fg,
                    default_bg,
                    cell_w: self.cell_w,
                    cell_h: self.cell_h,
                }),
                grid_rows(self.rows, *screen),
                grid_cols(self.cols, *screen),
                instances@,
            ),
    {
        let rows: u16 = shown_rows(self.rows, screen);
        let cols: u16 = shown_cols(self.cols, screen);
        build_instances(
            rows,
            cols,
            self.cell_w,
            self.cell_h,
            &self.atlas,
            screen,
            selection,
            cursor,
            default_fg,
            default_bg,
        )
    }

    /// The instances that draw the next frame, or `None` when the position of
    /// a cell cannot be computed.
    pub fn try_render(
        &self,
        screen: &vt100::Screen,
        default_fg: u32,
        default_bg: u32,
        selection: &[(u16, u16)],
        cursor: (u16, u16),
    ) -> (instances: Option<Vec<CellInstance>>)
        ensures
            ({
                let rows = grid_rows(self.rows, *screen);
                let cols = grid_cols(self.cols, *screen);
                match instances {
                    Some(list) => {
                        &&& grid_fits(rows, cols, self.cell_w, self.cell_h)
                        &&& draws_grid(
                            (Scene {
                                screen: *screen,
                                uv_map: self.atlas.uv_map@,
                                selection: selection@,
                                cursor,
                                default_fg,
                                default_bg,
                                cell_w: self.cell_w,
                                cell_h: self.cell_h,
                            }),
                            rows,
                            cols,
                            list@,
                        )
                    },
                    None => !grid_fits(rows, cols, self.cell_w, self.cell_h),
                }
            }),
    {
        let rows: u16 = shown_rows(self.rows, screen);
        let cols: u16 = shown_cols(self.cols, screen);
        if rows > 0 && cols > 0 {
            if last_start(cols, self.cell_w) > u32::MAX as u64 || last_start(rows, self.cell_h)
                > u32::MAX as u64 {
                return None;
            }
        }
        Some(self.render(screen, default_fg, default_bg, selection, cursor))
    }
}

/// Where the last one of `n` cells of the given size starts.
fn last_start(n: u16, size: u32) -> (start: u64)
    requires
        n > 0,
    ensures
        start == (n - 1) * size,
{
    assert((n - 1) * size <= 65535 * 0xffff_ffff) by (nonlinear_arith)
        requires
            1 <= n <= 65535,
            size <= 0xffff_ffff,
    ;
    (n - 1) as u64 * size as u64
}

/// A vertex attribute of an instance: how many floats it has and at which
/// byte of the instance it starts.
#[derive(Clone, Copy, PartialEq, Eq, Structural, Debug)]
pub struct Attribute {
    pub floats: u32,
    pub byte_offset: u32,
}

/// Floats of an instance.
pub const INSTANCE_FLOATS: u32 = 16;

/// Bytes of an instance.
pub const INSTANCE_STRIDE: u32 = 64;

/// The attributes of an instance in their order: offset, size, atlas
/// coordinates, foreground, background, selection flag and cursor flag. They
/// follow each other without gaps and fill the instance.
pub fn instance_attributes() -> (attributes: [Attribute; 7])
    ensures
        attributes@.map_values(|a: Attribute| a.floats) == seq![2u32, 2, 4, 3, 3, 1, 1],
        attributes@[0].byte_offset == 0,
        forall|i: int|
            0 <= i < 6 ==> #[trigger] attributes@[i].byte_offset + 4 * attributes@[i].floats
                == attributes@[i + 1].byte_offset,
        attributes@[6].byte_offset + 4 * attributes@[6].floats == INSTANCE_STRIDE,
{
    let attributes: [Attribute; 7] = [
        Attribute { floats: 2, byte_offset: 0 },
        Attribute { floats: 2, byte_offset: 8 },
        Attribute { floats: 4, byte_offset: 16 },
        Attribute { floats: 3, byte_offset: 32 },
        Attribute { floats: 3, byte_offset: 44 },
        Attribute { floats: 1, byte_offset: 56 },
        Attribute { floats: 1, byte_offset: 60 },
    ];
    assert(attributes@.map_values(|a: Attribute| a.floats) =~= seq![2u32, 2, 4, 3, 3, 1, 1]);
    attributes
}

/// The cursor masks the selection: a selected cell under the cursor is drawn
/// like one that is not selected.
pub proof fn lemma_cursor_masks_selection(
    cell: Option<CellView>,
    default_fg: u32,
    default_bg: u32,
    selected: bool,
)
    ensures
        visual(cell, default_fg, default_bg, cell_override(selected, true)) == visual(
            cell,
            default_fg,
            default_bg,
            cell_override(false, true),
        ),
{
}

/// Drawing the cursor over a cell twice swaps its colors back: the cursor
/// shows exactly the two colors that the cell has.
pub proof fn lemma_cursor_swaps_colors(cell: Option<CellView>, default_fg: u32, default_bg: u32)
    ensures
        ({
            let plain = visual(cell, default_fg, default_bg, CellOverride::Normal);
            let cursor = visual(cell, default_fg, default_bg, CellOverride::Cursor);
            cursor == (plain.1, plain.0)
        }),
{
}

/// The scene determines how every cell is drawn.
pub proof fn lemma_instances_are_determined(
    scene: Scene,
    row: u16,
    col: u16,
    a: CellInstance,
    b: CellInstance,
)
    requires
        draws_cell(scene, row, col, a),
        draws_cell(scene, row, col, b),
    ensures
        a == b,
{
}

/// The cells form a grid: the first one is in the upper left corner, and the
/// next one in a row or a column starts where the one before it ends.
pub proof fn lemma_cells_lie_side_by_side(
    scene: Scene,
    row: u16,
    col: u16,
    a: CellInstance,
    right: CellInstance,
    below: CellInstance,
)
    requires
        row < u16::MAX,
        col < u16::MAX,
        draws_cell(scene, row, col, a),
        draws_cell(scene, row, (col + 1) as u16, right),
        draws_cell(scene, (row + 1) as u16, col, below),
    ensures
        right.px == a.px + scene.cell_w && right.py == a.py,
        below.py == a.py + scene.cell_h && below.px == a.px,
        row == 0 ==> a.py == 0,
        col == 0 ==> a.px == 0,
{
    assert((col + 1) * scene.cell_w == col * scene.cell_w + scene.cell_w) by (nonlinear_arith);
    assert((row + 1) * scene.cell_h == row * scene.cell_h + scene.cell_h) by (nonlinear_arith);
}

/// The cursor's cell has the cell's own colors swapped, a selected one is black
/// on its own foreground, and every other cell has its own colors.
pub proof fn lemma_instances_show_the_overrides(scene: Scene, row: u16, col: u16, a: CellInstance)
    requires
        draws_cell(scene, row, col, a),
    ensures
        ({
            let own = visual(
                painted_cell(scene.screen, row, col),
                scene.default_fg,
                scene.default_bg,
                CellOverride::Normal,
            );
            let under_cursor = scene.cursor == (row, col);
            let marked = !under_cursor && scene.selection.contains((row, col));
            &&& a.cursor <==> under_cursor
            &&& a.selected <==> marked
            &&& under_cursor ==> (a.fg as int, a.bg as int) == (own.1, own.0)
            &&& marked ==> (a.fg as int, a.bg as int) == (0int, own.0)
            &&& !under_cursor && !marked ==> (a.fg as int, a.bg as int) == own
        }),
{
}

/// Graphic characters are drawn as the same geometry that the 2D canvas paints,
/// all other text from the slot of its first character, an empty cell as a
/// space.
pub proof fn lemma_renderers_agree_on_graphics(scene: Scene, row: u16, col: u16, a: CellInstance)
    requires
        draws_cell(scene, row, col, a),
    ensures
        match painted_cell(scene.screen, row, col) {
            Some(c) if c.contents.len() > 0 => match glyph_graphic(c.contents) {
                Some(shape) => a.paint == CellPaint::Shape(shape),
                None => a.paint == CellPaint::Glyph(
                    match char_edges(scene.uv_map, c.contents[0]) {
                        Some(edges) => edges,
                        None => (0, 0, 0, 0),
                    },
                ),
            },
            _ => a.paint == CellPaint::Glyph(
                match char_edges(scene.uv_map, ' ') {
                    Some(edges) => edges,
                    None => (0, 0, 0, 0),
                },
            ),
        },
{
}

/// Different cells have different numbers.
pub proof fn lemma_cell_numbers_differ(a: (u16, u16), b: (u16, u16))
    requires
        cell_key(a) == cell_key(b),
    ensures
        a == b,
{
}

/// A grid can be laid out exactly when the place of every one of its cells can
/// be computed, which is so when that of the last cell can.
pub proof fn lemma_grids_fit_when_their_cells_do(
    rows: u16,
    cols: u16,
    cell_w: u32,
    cell_h: u32,
    row: u16,
    col: u16,
)
    requires
        row < rows,
        col < cols,
    ensures
        grid_fits(rows, cols, cell_w, cell_h) ==> col * cell_w <= 0xffff_ffff && row * cell_h
            <= 0xffff_ffff,
        row == rows - 1 && col == cols - 1 && col * cell_w <= 0xffff_ffff && row * cell_h
            <= 0xffff_ffff ==> grid_fits(rows, cols, cell_w, cell_h),
{
    assert(col * cell_w <= (cols - 1) * cell_w) by (nonlinear_arith)
        requires
            col <= cols - 1,
            cell_w >= 0,
    ;
    assert(row * cell_h <= (rows - 1) * cell_h) by (nonlinear_arith)
        requires
            row <= rows - 1,
            cell_h >= 0,
    ;
}

} // verus!
