//! The render engine: a character grid split into a listing pane and a
//! preview pane, serialised row by row with display-width aware clipping, and
//! a status line that scrolls horizontally to keep the edit cursor in view.
use vstd::prelude::*;
use crate::browser::Browser;
use crate::ops::Mode;
use crate::text::{chars_of, decimal, push_char, push_decimal};
use crate::theme::{theme_colors, theme_index, Theme};
use crate::width::{char_width, WidthTable};

verus! {

/// The escape sequence `ESC [` followed by `s`.
pub open spec fn csi_spec(s: Seq<char>) -> Seq<char> {
    "\x1b["@ + s
}

/// Total display width of `s`.
pub open spec fn width_sum(s: Seq<char>) -> nat
    decreases s.len(),
{
    if s.len() == 0 {
        0
    } else {
        width_sum(s.drop_last()) + char_width(s.last())
    }
}

/// Columns of cell `i` of the edit line: the width of its character, and one
/// column for the cell just after the text, where the cursor may stand.
pub open spec fn cell_width(txt: Seq<char>, i: int) -> nat {
    if i == txt.len() {
        1
    } else {
        char_width(txt[i])
    }
}

/// Number of consecutive cells from `i` onward that fit in `room` columns.
pub open spec fn fit_forward(txt: Seq<char>, i: int, room: int) -> nat
    decreases txt.len() + 1 - i,
{
    if i < 0 || i > txt.len() || cell_width(txt, i) > room {
        0
    } else {
        1 + fit_forward(txt, i + 1, room - cell_width(txt, i))
    }
}

/// Number of consecutive cells from `i` backward that fit in `room` columns.
pub open spec fn fit_backward(txt: Seq<char>, i: int, room: int) -> nat
    decreases i,
{
    if i < 0 || i > txt.len() || cell_width(txt, i) > room {
        0
    } else if i == 0 {
        1
    } else {
        1 + fit_backward(txt, i - 1, room - cell_width(txt, i))
    }
}

/// Columns taken by the cells that `fit_backward` counts.
pub open spec fn used_backward(txt: Seq<char>, i: int, room: int) -> int
    decreases i,
{
    if i < 0 || i > txt.len() || cell_width(txt, i) > room {
        0
    } else if i == 0 {
        cell_width(txt, i) as int
    } else {
        cell_width(txt, i) + used_backward(txt, i - 1, room - cell_width(txt, i))
    }
}

/// Number of characters of `text` from `i` onward whose widths fit in `room`.
pub open spec fn fit_text(text: Seq<char>, i: int, room: int) -> nat
    decreases text.len() - i,
{
    if i < 0 || i >= text.len() || char_width(text[i]) > room {
        0
    } else {
        1 + fit_text(text, i + 1, room - char_width(text[i]))
    }
}

/// Up to `n` characters of `text` from index `s`.
pub open spec fn segment(text: Seq<char>, s: int, n: int) -> Seq<char> {
    let lo = if s < text.len() { s } else { text.len() as int };
    let hi = if s + n < text.len() { s + n } else { text.len() as int };
    text.subrange(lo, hi)
}

/// The state of the status line after a frame and the text that it shows, for
/// the edit text `txt`, the shown text `text` (the edit text while searching,
/// the current path otherwise), the edit cursor, the scroll start and the
/// alignment flag before the frame, `cols` columns, and whether a mode glyph
/// takes one of them. Yields the new scroll start, the new alignment flag and
/// the characters shown after the glyphs.
pub open spec fn bottom_layout(
    txt: Seq<char>,
    text: Seq<char>,
    cursor: int,
    start: int,
    pad: bool,
    cols: int,
    glyph: bool,
) -> (int, bool, Seq<char>) {
    let width = cols - (if glyph { 1int } else { 0 }) - (if pad { 1int } else { 0 });
    let full = width + (if pad { 1int } else { 0 });
    let k = fit_forward(txt, start, width);
    let right_end = if start > txt.len() || k == 0 { start + width } else { start + k };
    if start > cursor {
        (cursor, false, segment(text, cursor, fit_text(text, cursor, full) as int))
    } else if right_end <= cursor {
        let m = fit_backward(txt, cursor, full);
        let new_start = if m == 0 { start } else { cursor - (m - 1) };
        (new_start, used_backward(txt, cursor, full) != full, segment(text, new_start, cursor - new_start + 1))
    } else {
        (start, pad, segment(text, start, fit_text(text, start, width) as int))
    }
}

/// The glyph that marks a search mode on the status line.
pub open spec fn mode_glyph(mode: Mode) -> Seq<char> {
    match mode {
        Mode::Search => seq!['/'],
        Mode::RevSearch => seq!['?'],
        Mode::Normal => Seq::empty(),
    }
}

/// The characters of the status line: the mode glyph, the scroll indicator
/// `>` where the alignment flag is set, and the visible part of the text.
pub open spec fn bottom_line_text(mode: Mode, pad: bool, shown: Seq<char>) -> Seq<char> {
    mode_glyph(mode) + (if pad { seq!['>'] } else { Seq::empty() }) + shown
}

/// The text that the status line shows: the search text while searching,
/// the current path otherwise.
pub open spec fn status_text(b: &Browser) -> Seq<char> {
    if b.mode.is_search() {
        b.search_txt@
    } else {
        b.current_path@
    }
}

/// `n` spaces.
pub open spec fn spaces(n: nat) -> Seq<char> {
    Seq::new(n, |_i: int| ' ')
}

/// The colour escapes that start a pane row: the highlight colours on the
/// cursor row of the listing pane (`j == 0`), the normal ones elsewhere, and
/// the directory colour after them where the entry is a directory.
pub open spec fn highlight_text(theme: Theme, i: int, j: int, cursor: int, is_dir: bool) -> Seq<char> {
    (if i == cursor && j == 0 {
        theme.highlight@ + theme.highlight_background@
    } else {
        theme.normal@ + theme.normal_background@
    }) + (if is_dir { theme.highlight_dir@ } else { Seq::empty() })
}

/// Screen column (1-based, after the mode glyph and the scroll indicator) of
/// the edit cursor on the status line.
pub open spec fn cursor_column(txt: Seq<char>, start: int, cursor: int, pad: bool) -> nat {
    (if start < cursor { width_sum(txt.subrange(start, cursor)) } else { 0 }) + 2 + (if pad {
        1nat
    } else {
        0
    })
}

/// The status line escapes and text for a screen of `height` rows and `width`
/// columns: go to the last row, clear it, paint it in the bar colours, go back,
/// write `line`, and while searching show the terminal cursor at `column`.
pub open spec fn bottom_bar_text(
    theme: Theme,
    height: nat,
    width: nat,
    line: Seq<char>,
    searching: bool,
    column: nat,
) -> Seq<char> {
    let home = csi_spec(decimal(height) + "H"@) + csi_spec("0K"@);
    home + theme.bottom_bar@ + theme.bottom_bar_background@ + spaces(width) + home + line + (
    if searching {
        csi_spec("?25h"@) + csi_spec(decimal(height) + ";"@ + decimal(column) + "H"@)
    } else {
        Seq::empty()
    })
}

/// Columns that a grid cell holding `c` takes while a row is laid out: a
/// zero-width character still takes its cell.
pub open spec fn cell_cost(c: char) -> nat {
    if char_width(c) == 0 {
        1
    } else {
        char_width(c)
    }
}

/// Total `cell_cost` of `s`.
pub open spec fn cost_sum(s: Seq<char>) -> nat
    decreases s.len(),
{
    if s.len() == 0 {
        0
    } else {
        cost_sum(s.drop_last()) + cell_cost(s.last())
    }
}

/// Number of zero-width characters in `s`.
pub open spec fn zero_count(s: Seq<char>) -> nat
    decreases s.len(),
{
    if s.len() == 0 {
        0
    } else {
        zero_count(s.drop_last()) + (if char_width(s.last()) == 0 {
            1nat
        } else {
            0
        })
    }
}

/// Number of cells from `k` on that a pane emits, `used` columns being taken.
pub open spec fn pane_fit(cells: Seq<char>, k: int, used: int, budget: int) -> nat
    decreases cells.len() - k,
{
    if k < 0 || k >= cells.len() || used + cell_cost(cells[k]) > budget {
        0
    } else {
        1 + pane_fit(cells, k + 1, used + cell_cost(cells[k]), budget)
    }
}

/// Number of cells that a pane of `budget` columns emits.
pub open spec fn pane_count(cells: Seq<char>, budget: int) -> nat {
    pane_fit(cells, 0, 0, budget)
}

/// Padding spaces after the emitted cells of a pane: one where a double-width
/// character is one column short of fitting, and one for each zero-width
/// character emitted.
pub open spec fn pane_pad(cells: Seq<char>, budget: int) -> nat {
    let n = pane_count(cells, budget) as int;
    let used = cost_sum(cells.subrange(0, n));
    (if n < cells.len() && used + cell_cost(cells[n]) == budget + 1 && char_width(cells[n]) > 1 {
        1nat
    } else {
        0
    }) + zero_count(cells.subrange(0, n))
}

/// What one pane row emits for its `cells` in `budget` columns.
pub open spec fn pane_text(cells: Seq<char>, budget: int) -> Seq<char> {
    cells.subrange(0, pane_count(cells, budget) as int) + spaces(pane_pad(cells, budget))
}

proof fn lemma_pane_fit(cells: Seq<char>, k: int, used: int, budget: int)
    requires
        0 <= k <= cells.len(),
        used == cost_sum(cells.subrange(0, k)),
        used <= budget,
    ensures
        ({
            let n = k + pane_fit(cells, k, used, budget);
            &&& n <= cells.len()
            &&& cost_sum(cells.subrange(0, n)) <= budget
            &&& n < cells.len() ==> cost_sum(cells.subrange(0, n)) + cell_cost(cells[n]) > budget
        }),
    decreases cells.len() - k,
{
    if k < cells.len() && used + cell_cost(cells[k]) <= budget {
        assert(cells.subrange(0, k + 1).drop_last() =~= cells.subrange(0, k));
        lemma_pane_fit(cells, k + 1, used + cell_cost(cells[k]), budget);
    }
}

proof fn lemma_cost_split(s: Seq<char>)
    ensures
        cost_sum(s) == width_sum(s) + zero_count(s),
        cost_sum(s) >= s.len(),
    decreases s.len(),
{
    if s.len() > 0 {
        lemma_cost_split(s.drop_last());
    }
}

/// A pane row of `budget` cells emits characters whose display widths, with
/// the padding spaces after them, fill exactly `budget` columns.
pub proof fn lemma_pane_width(cells: Seq<char>, budget: nat)
    requires
        cells.len() == budget,
    ensures
        width_sum(cells.subrange(0, pane_count(cells, budget as int) as int)) + pane_pad(
            cells,
            budget as int,
        ) == budget,
{
    assert(cells.subrange(0, 0) =~= Seq::<char>::empty());
    lemma_pane_fit(cells, 0, 0, budget as int);
    let n = pane_count(cells, budget as int) as int;
    lemma_cost_split(cells.subrange(0, n));
    crate::width::lemma_range_width_le_two(crate::width::width_ranges(), 0);
    if n < cells.len() {
        crate::width::lemma_range_width_le_two(crate::width::width_ranges(), cells[n] as int);
    }
}

/// Character `j` of `name` as a grid cell: a space past its end.
pub open spec fn cell_of(name: Seq<char>, j: int) -> char {
    if 0 <= j < name.len() {
        name[j]
    } else {
        ' '
    }
}

/// The listing entry shown on screen row `i`, empty past the end.
pub open spec fn listing_name(b: &Browser, i: int) -> Seq<char> {
    if b.window_start + i < b.content.len() {
        b.content[b.window_start + i]@
    } else {
        Seq::empty()
    }
}

/// The preview entry shown on screen row `i`, empty past the end.
pub open spec fn preview_name(b: &Browser, i: int) -> Seq<char> {
    if i < b.preview.len() {
        b.preview[i]@
    } else {
        Seq::empty()
    }
}

/// Grid row `i` of a frame `width` cells wide: the listing entry in the first
/// `left` cells, the preview entry in the others, each cut to its pane.
#[verifier::opaque]
pub open spec fn frame_row(b: &Browser, i: int, left: int, width: int) -> Seq<char> {
    Seq::new(
        width as nat,
        |j: int|
            if j < left {
                cell_of(listing_name(b, i), j)
            } else {
                cell_of(preview_name(b, i), j - left)
            },
    )
}

/// Width of the listing pane of a screen `width` columns wide.
pub open spec fn left_width(width: int) -> int {
    width / 10 * 6
}

/// Whether the listing entry on screen row `i` is marked as a directory.
pub open spec fn listing_is_dir(b: &Browser, row_is_dir: Seq<bool>, i: int) -> bool {
    b.window_start + i < b.content.len() && i < row_is_dir.len() && row_is_dir[i]
}

/// Whether the preview entry on screen row `i` is marked as a directory.
pub open spec fn preview_is_dir_at(b: &Browser, preview_is_dir: Seq<bool>, i: int) -> bool {
    b.cursor < b.content.len() && i < b.preview.len() && i < preview_is_dir.len()
        && preview_is_dir[i]
}

/// The escapes and text of screen row `i`: each pane starts with its colours
/// and emits its cells as far as they fit.
#[verifier::opaque]
pub open spec fn row_text(
    theme: Theme,
    b: &Browser,
    row_is_dir: Seq<bool>,
    preview_is_dir: Seq<bool>,
    i: int,
    width: int,
) -> Seq<char> {
    let left = left_width(width);
    let row = frame_row(b, i, left, width);
    let cursor_row = b.cursor - b.window_start;
    highlight_text(theme, i, 0, cursor_row, listing_is_dir(b, row_is_dir, i)) + pane_text(
        row.subrange(0, left),
        left,
    ) + highlight_text(theme, i, left, cursor_row, preview_is_dir_at(b, preview_is_dir, i))
        + pane_text(row.subrange(left, width), width - left)
}

/// The first `n` screen rows, one after the other.
pub open spec fn rows_text(
    theme: Theme,
    b: &Browser,
    row_is_dir: Seq<bool>,
    preview_is_dir: Seq<bool>,
    n: int,
    width: int,
) -> Seq<char>
    decreases n,
{
    if n <= 0 {
        Seq::empty()
    } else {
        rows_text(theme, b, row_is_dir, preview_is_dir, n - 1, width) + row_text(
            theme,
            b,
            row_is_dir,
            preview_is_dir,
            n - 1,
            width,
        )
    }
}

/// `row` with the cells `from..to` overwritten by the characters of `name`,
/// as far as it has any.
pub open spec fn fill(row: Seq<char>, name: Seq<char>, from: int, to: int) -> Seq<char> {
    Seq::new(
        row.len(),
        |j: int|
            if from <= j < to && j - from < name.len() {
                name[j - from]
            } else {
                row[j]
            },
    )
}

/// Two-pane character grid and the status line state kept between frames.
pub struct Canvas {
    pub height: usize,
    pub width: usize,
    pub pixels: Vec<Vec<char>>,
    pub theme: Theme,
    pub utf8_table: WidthTable,
    /// Index of the first character of the status line text that is shown.
    pub bottom_start: usize,
    /// Whether a `>` glyph takes a column to mark the scrolled text.
    pub add_algnmt: bool,
}

/// `ESC [` followed by `s`.
pub fn csi(s: &str) -> (r: String)
    ensures
        r@ == csi_spec(s@),
{
    let mut ret = String::from_str("\x1b[");
    ret.append(s);
    ret
}

impl Canvas {
    /// The grid, row by row.
    pub open spec fn grid(&self) -> Seq<Seq<char>> {
        self.pixels@.map_values(|r: Vec<char>| r@)
    }

    pub open spec fn wf(&self) -> bool {
        &&& self.utf8_table.wf()
        &&& self.pixels.len() == self.height
        &&& forall|i: int| 0 <= i < self.height ==> #[trigger] self.pixels[i].len() == self.width
    }

    /// Set the character of cell (`i`, `j`); a cell outside the grid is ignored.
    pub fn set(&mut self, i: usize, j: usize, c: char)
        requires
            old(self).wf(),
        ensures
            final(self).wf(),
            final(self).height == old(self).height,
            final(self).width == old(self).width,
            final(self).theme == old(self).theme,
            final(self).bottom_start == old(self).bottom_start,
            final(self).add_algnmt == old(self).add_algnmt,
            final(self).utf8_table == old(self).utf8_table,
            final(self).grid() == if i < old(self).height && j < old(self).width {
                old(self).grid().update(i as int, old(self).grid()[i as int].update(j as int, c))
            } else {
                old(self).grid()
            },
    {
        if i < self.height && j < self.width {
            assert(self.pixels[i as int].len() == self.width);
            self.pixels[i][j] = c;
            assert(self.grid() =~= old(self).grid().update(
                i as int,
                old(self).grid()[i as int].update(j as int, c),
            ));
        }
    }

    pub fn reset_bottom_bar(&mut self)
        ensures
            final(self).bottom_start == 0,
            final(self).add_algnmt == false,
            final(self).height == old(self).height,
            final(self).width == old(self).width,
            final(self).pixels == old(self).pixels,
            final(self).theme == old(self).theme,
            final(self).utf8_table == old(self).utf8_table,
    {
        self.bottom_start = 0;
        self.add_algnmt = false;
    }

    /// Fill the grid with spaces.
    pub fn clear_pixels(&mut self)
        requires
            old(self).wf(),
        ensures
            final(self).wf(),
            final(self).grid() == Seq::new(old(self).height as nat, |_i: int| spaces(old(self).width as nat)),
            final(self).height == old(self).height,
            final(self).width == old(self).width,
            final(self).theme == old(self).theme,
            final(self).utf8_table == old(self).utf8_table,
            final(self).bottom_start == old(self).bottom_start,
            final(self).add_algnmt == old(self).add_algnmt,
    {
        let mut i: usize = 0;
        proof {
            assert forall|k: int| 0 <= k < self.height implies #[trigger] self.grid()[k].len() == self.width by {
                assert(self.pixels[k].len() == self.width);
            }
        }
        while i < self.height
            invariant
                self.wf(),
                i <= self.height,
                self.height == old(self).height,
                self.width == old(self).width,
                self.theme == old(self).theme,
                self.utf8_table == old(self).utf8_table,
                self.bottom_start == old(self).bottom_start,
                self.add_algnmt == old(self).add_algnmt,
                forall|k: int| 0 <= k < i ==> #[trigger] self.grid()[k] == spaces(self.width as nat),
            decreases self.height - i,
        {
            let mut j: usize = 0;
            assert(self.pixels[i as int].len() == self.width);
            assert(self.grid()[i as int] == self.pixels[i as int]@);
            while j < self.width
                invariant
                    self.wf(),
                    i < self.height,
                    j <= self.width,
                    self.height == old(self).height,
                    self.width == old(self).width,
                    self.theme == old(self).theme,
                    self.utf8_table == old(self).utf8_table,
                    self.bottom_start == old(self).bottom_start,
                    self.add_algnmt == old(self).add_algnmt,
                    forall|k: int| 0 <= k < i ==> #[trigger] self.grid()[k] == spaces(self.width as nat),
                    self.grid()[i as int].len() == self.width,
                    forall|l: int| 0 <= l < j ==> #[trigger] self.grid()[i as int][l] == ' ',
                decreases self.width - j,
            {
                let ghost g = self.grid();
                self.set(i, j, ' ');
                assert(self.grid()[i as int] == g[i as int].update(j as int, ' '));
                assert forall|l: int| 0 <= l <= j implies #[trigger] self.grid()[i as int][l] == ' ' by {
                    if l < j {
                        assert(g[i as int][l] == ' ');
                    }
                }
                j = j + 1;
            }
            assert(self.pixels[i as int].len() == self.width);
            assert(self.grid()[i as int] =~= spaces(self.width as nat));
            i = i + 1;
        }
        assert(self.grid() =~= Seq::new(self.height as nat, |_i: int| spaces(self.width as nat)));
    }

    /// Append the colour escapes that start a pane row: highlight colours on
    /// the cursor row at column 0, normal colours elsewhere, then the directory
    /// colour for a directory.
    pub fn check_insert_highlight(
        &self,
        str_to_draw: &mut String,
        i: usize,
        j: usize,
        cursor: usize,
        is_dir: bool,
    )
        ensures
            final(str_to_draw)@ == old(str_to_draw)@ + highlight_text(
                self.theme,
                i as int,
                j as int,
                cursor as int,
                is_dir,
            ),
    {
        if i == cursor && j == 0 {
            str_to_draw.append(self.theme.highlight.as_str());
            str_to_draw.append(self.theme.highlight_background.as_str());
        } else {
            str_to_draw.append(self.theme.normal.as_str());
            str_to_draw.append(self.theme.normal_background.as_str());
        }
        if is_dir {
            str_to_draw.append(self.theme.highlight_dir.as_str());
        }
        proof {
            assert(final(str_to_draw)@ =~= old(str_to_draw)@ + highlight_text(
                self.theme,
                i as int,
                j as int,
                cursor as int,
                is_dir,
            ));
        }
    }

    /// Append `ESC [ <height> H` and `ESC [ 0K`: go to the last row and clear it.
    fn push_goto_bottom(&self, s: &mut String)
        ensures
            final(s)@ == old(s)@ + csi_spec(decimal(self.height as nat) + "H"@) + csi_spec("0K"@),
    {
        let mut seq = String::new();
        push_decimal(&mut seq, self.height);
        seq.append("H");
        s.append(csi(seq.as_str()).as_str());
        s.append(csi("0K").as_str());
        proof {
            assert(final(s)@ =~= old(s)@ + csi_spec(decimal(self.height as nat) + "H"@) + csi_spec(
                "0K"@,
            ));
        }
    }

    /// Display width of the characters of `txt` from `start` up to `end`.
    fn span_width(&self, txt: &Vec<char>, start: usize, end: usize) -> (w: usize)
        requires
            self.utf8_table.wf(),
            end <= txt.len() < usize::MAX / 4,
        ensures
            w == (if start < end { width_sum(txt@.subrange(start as int, end as int)) } else { 0 }),
            w < usize::MAX / 2,
    {
        let mut w: usize = 0;
        let mut i: usize = start;
        while i < end
            invariant
                self.utf8_table.wf(),
                end <= txt.len() < usize::MAX / 4,
                start <= i,
                i <= end || i == start,
                start < end ==> w == width_sum(txt@.subrange(start as int, i as int)),
                start >= end ==> w == 0,
                w <= 2 * (i - start),
            decreases end - i,
        {
            let cw = self.get_utf8_len(txt[i]);
            w = w + cw;
            i = i + 1;
            assert(txt@.subrange(start as int, i - 1) =~= txt@.subrange(
                start as int,
                i as int,
            ).drop_last());
        }
        w
    }

    /// Append the status line: the path, or the search text with the terminal
    /// cursor placed at the edit position.
    pub fn draw_bottom_line(&mut self, str_to_draw: &mut String, browser: &Browser)
        requires
            old(self).utf8_table.wf(),
            old(self).width >= 2,
            browser.input_cursor_pos <= browser.search_txt.len() < usize::MAX / 4,
        ensures
            ({
                let (start, pad, shown) = bottom_layout(
                    browser.search_txt@,
                    status_text(browser),
                    browser.input_cursor_pos as int,
                    old(self).bottom_start as int,
                    old(self).add_algnmt,
                    old(self).width as int,
                    browser.mode.is_search(),
                );
                &&& final(self).bottom_start == start
                &&& final(self).add_algnmt == pad
                &&& final(str_to_draw)@ == old(str_to_draw)@ + bottom_bar_text(
                    old(self).theme,
                    old(self).height as nat,
                    old(self).width as nat,
                    bottom_line_text(browser.mode, pad, shown),
                    browser.mode.is_search(),
                    cursor_column(
                        browser.search_txt@,
                        start,
                        browser.input_cursor_pos as int,
                        pad,
                    ),
                )
            }),
            final(self).height == old(self).height,
            final(self).width == old(self).width,
            final(self).pixels == old(self).pixels,
            final(self).theme == old(self).theme,
            final(self).utf8_table == old(self).utf8_table,
    {
        let ghost s0 = str_to_draw@;
        self.push_goto_bottom(str_to_draw);
        str_to_draw.append(self.theme.bottom_bar.as_str());
        str_to_draw.append(self.theme.bottom_bar_background.as_str());
        let mut k: usize = 0;
        let ghost s1 = str_to_draw@;
        while k < self.width
            invariant
                k <= self.width,
                str_to_draw@ == s1 + spaces(k as nat),
            decreases self.width - k,
        {
            push_char(str_to_draw, ' ');
            k = k + 1;
            assert(str_to_draw@ =~= s1 + spaces(k as nat));
        }
        self.push_goto_bottom(str_to_draw);
        let content = self.bottom_line_configure(browser);
        str_to_draw.append(content.as_str());
        let ghost s2 = str_to_draw@;
        if browser.mode == Mode::Search || browser.mode == Mode::RevSearch {
            str_to_draw.append(csi("?25h").as_str());
            let real_len = self.span_width(
                &browser.search_txt,
                self.bottom_start,
                browser.input_cursor_pos,
            );
            let col = real_len + 2 + if self.add_algnmt {
                1
            } else {
                0
            };
            let mut seq = String::new();
            push_decimal(&mut seq, self.height);
            seq.append(";");
            push_decimal(&mut seq, col);
            seq.append("H");
            str_to_draw.append(csi(seq.as_str()).as_str());
        }
        proof {
            assert(final(str_to_draw)@ =~= s0 + bottom_bar_text(
                old(self).theme,
                old(self).height as nat,
                old(self).width as nat,
                content@,
                browser.mode.is_search(),
                cursor_column(
                    browser.search_txt@,
                    self.bottom_start as int,
                    browser.input_cursor_pos as int,
                    self.add_algnmt,
                ),
            ));
        }
    }

    /// Append `n` spaces.
    fn push_spaces(out: &mut String, n: usize)
        ensures
            final(out)@ == old(out)@ + spaces(n as nat),
    {
        let mut k: usize = 0;
        while k < n
            invariant
                k <= n,
                out@ == old(out)@ + spaces(k as nat),
            decreases n - k,
        {
            push_char(out, ' ');
            k = k + 1;
            assert(out@ =~= old(out)@ + spaces(k as nat));
        }
    }

    /// Append one pane of a row: the cells `from..to` of `row` as far as they
    /// fit in `to - from` columns, then the padding.
    fn render_pane(&self, out: &mut String, row: &Vec<char>, from: usize, to: usize)
        requires
            self.utf8_table.wf(),
            from <= to <= row.len(),
        ensures
            final(out)@ == old(out)@ + pane_text(row@.subrange(from as int, to as int), to - from),
    {
        let ghost cells = row@.subrange(from as int, to as int);
        let budget = to - from;
        let mut k: usize = from;
        let mut used: usize = 0;
        let mut comp: usize = 0;
        proof {
            assert(cells.subrange(0, 0) =~= Seq::<char>::empty());
        }
        while k < to
            invariant
                self.utf8_table.wf(),
                from <= k <= to <= row.len(),
                cells == row@.subrange(from as int, to as int),
                budget == to - from,
                used <= budget,
                comp <= k - from,
                used == cost_sum(cells.subrange(0, k - from)),
                comp == zero_count(cells.subrange(0, k - from)),
                pane_count(cells, budget as int) == (k - from) + pane_fit(
                    cells,
                    k - from,
                    used as int,
                    budget as int,
                ),
                out@ == old(out)@ + cells.subrange(0, k - from),
            decreases to - k,
        {
            let w = self.get_utf8_len(row[k]);
            let cost = if w == 0 {
                1
            } else {
                w
            };
            if cost > budget - used {
                let pad: usize = if cost - 1 == budget - used && w > 1 {
                    1
                } else {
                    0
                };
                Self::push_spaces(out, pad + comp);
                return;
            }
            push_char(out, row[k]);
            used = used + cost;
            if w == 0 {
                comp = comp + 1;
            }
            k = k + 1;
            proof {
                let j = k - from;
                assert(cells.subrange(0, j).drop_last() =~= cells.subrange(0, j - 1));
                assert(out@ =~= old(out)@ + cells.subrange(0, j));
            }
        }
        Self::push_spaces(out, comp);
    }

    /// Write the characters of `name` into the cells `from..to` of row `i`, as
    /// far as it has any.
    fn fill_row(&mut self, i: usize, name: &String, from: usize, to: usize)
        requires
            old(self).wf(),
            i < old(self).height,
            from <= to <= old(self).width,
        ensures
            final(self).wf(),
            final(self).height == old(self).height,
            final(self).width == old(self).width,
            final(self).theme == old(self).theme,
            final(self).utf8_table == old(self).utf8_table,
            final(self).bottom_start == old(self).bottom_start,
            final(self).add_algnmt == old(self).add_algnmt,
            final(self).grid().len() == old(self).grid().len(),
            final(self).grid()[i as int] == fill(old(self).grid()[i as int], name@, from as int, to as int),
            forall|k: int| 0 <= k < old(self).height && k != i ==> #[trigger] final(self).grid()[k] == old(self).grid()[k],
    {
        let c_a = chars_of(name.as_str());
        let mut j: usize = from;
        let ghost g0 = self.grid();
        assert(self.pixels[i as int].len() == self.width);
        assert(g0[i as int].len() == self.width);
        assert(self.grid()[i as int] =~= fill(g0[i as int], name@, from as int, j as int));
        while j < to && j - from < c_a.len()
            invariant
                self.wf(),
                from <= j <= to <= self.width,
                i < self.height,
                c_a@ == name@,
                self.height == old(self).height,
                self.width == old(self).width,
                self.theme == old(self).theme,
                self.utf8_table == old(self).utf8_table,
                self.bottom_start == old(self).bottom_start,
                self.add_algnmt == old(self).add_algnmt,
                g0 == old(self).grid(),
                g0[i as int].len() == self.width,
                self.grid().len() == g0.len(),
                self.grid()[i as int] == fill(g0[i as int], name@, from as int, j as int),
                forall|k: int| 0 <= k < self.height && k != i ==> #[trigger] self.grid()[k] == g0[k],
            decreases to - j,
        {
            let ghost g = self.grid();
            self.set(i, j, c_a[j - from]);
            assert(self.grid()[i as int] == g[i as int].update(j as int, name@[j - from]));
            j = j + 1;
            assert(self.grid()[i as int] =~= fill(g0[i as int], name@, from as int, j as int));
        }
        assert(self.grid()[i as int] =~= fill(g0[i as int], name@, from as int, to as int));
    }

    /// Lay the listing rows from `window_start` and the preview rows into the
    /// grid.
    fn fill_grid(&mut self, browser: &Browser)
        requires
            old(self).wf(),
            old(self).width >= 10,
        ensures
            final(self).wf(),
            final(self).height == old(self).height,
            final(self).width == old(self).width,
            final(self).theme == old(self).theme,
            final(self).utf8_table == old(self).utf8_table,
            final(self).bottom_start == old(self).bottom_start,
            final(self).add_algnmt == old(self).add_algnmt,
            forall|k: int|
                0 <= k < old(self).height ==> #[trigger] final(self).grid()[k] == frame_row(
                    browser,
                    k,
                    left_width(old(self).width as int),
                    old(self).width as int,
                ),
    {
        self.clear_pixels();
        let left = self.width / 10 * 6;
        let width = self.width;
        let mut i: usize = 0;
        while i < self.height
            invariant
                self.wf(),
                i <= self.height,
                left == left_width(width as int),
                width == self.width,
                width >= 10,
                self.height == old(self).height,
                self.width == old(self).width,
                self.theme == old(self).theme,
                self.utf8_table == old(self).utf8_table,
                self.bottom_start == old(self).bottom_start,
                self.add_algnmt == old(self).add_algnmt,
                forall|k: int| 0 <= k < i ==> #[trigger] self.grid()[k] == frame_row(browser, k, left as int, width as int),
                forall|k: int| i <= k < self.height ==> #[trigger] self.grid()[k] == spaces(width as nat),
            decreases self.height - i,
        {
            let ghost g0 = self.grid();
            if browser.window_start < browser.content.len() && i < browser.content.len() - browser.window_start {
                self.fill_row(i, &browser.content[browser.window_start + i], 0, left);
            }
            let ghost g1 = self.grid();
            if i < browser.preview.len() {
                self.fill_row(i, &browser.preview[i], left, width);
            }
            proof {
                let row = self.grid()[i as int];
                let want = frame_row(browser, i as int, left as int, width as int);
                reveal(frame_row);
                assert(g0[i as int] == spaces(width as nat));
                assert(row.len() == want.len());
                assert forall|j: int| 0 <= j < row.len() implies row[j] == want[j] by {
                    if j < left {
                        assert(g1[i as int][j] == cell_of(listing_name(browser, i as int), j));
                    }
                }
                assert(row =~= want);
            }
            i = i + 1;
        }
    }

    /// Append screen row `i`: each pane's colours, then its cells.
    fn render_row(
        &self,
        out: &mut String,
        browser: &Browser,
        row_is_dir: &Vec<bool>,
        preview_is_dir: &Vec<bool>,
        i: usize,
    )
        requires
            self.wf(),
            self.width >= 10,
            i < self.height,
            browser.window_start <= browser.cursor,
            self.grid()[i as int] == frame_row(
                browser,
                i as int,
                left_width(self.width as int),
                self.width as int,
            ),
        ensures
            final(out)@ == old(out)@ + row_text(
                self.theme,
                browser,
                row_is_dir@,
                preview_is_dir@,
                i as int,
                self.width as int,
            ),
    {
        let left = self.width / 10 * 6;
        let width = self.width;
        let cursor_row = browser.cursor - browser.window_start;
        let ld = browser.window_start < browser.content.len() && i < browser.content.len()
            - browser.window_start && i < row_is_dir.len() && row_is_dir[i];
        let rd = browser.cursor < browser.content.len() && i < browser.preview.len() && i
            < preview_is_dir.len() && preview_is_dir[i];
        assert(self.pixels[i as int].len() == self.width);
        assert(self.grid()[i as int] == self.pixels[i as int]@);
        self.check_insert_highlight(out, i, 0, cursor_row, ld);
        self.render_pane(out, &self.pixels[i], 0, left);
        self.check_insert_highlight(out, i, left, cursor_row, rd);
        self.render_pane(out, &self.pixels[i], left, width);
        proof {
            reveal(row_text);
            assert(ld == listing_is_dir(browser, row_is_dir@, i as int));
            assert(rd == preview_is_dir_at(browser, preview_is_dir@, i as int));
            assert(final(out)@ =~= old(out)@ + row_text(
                self.theme,
                browser,
                row_is_dir@,
                preview_is_dir@,
                i as int,
                width as int,
            ));
        }
    }

    /// Render a frame: the listing rows from the viewport start and the
    /// preview rows, each pane clipped to its columns and coloured, then the
    /// status line. `row_is_dir[i]` tells whether the listing entry on screen
    /// row `i` is a directory, `preview_is_dir[i]` the same of preview entry
    /// `i`; rows past either vector count as no directory.
    pub fn draw(&mut self, browser: &Browser, row_is_dir: &Vec<bool>, preview_is_dir: &Vec<bool>) -> (r: String)
        requires
            old(self).wf(),
            old(self).width >= 10,
            browser.window_start <= browser.cursor,
            browser.input_cursor_pos <= browser.search_txt.len() < usize::MAX / 4,
        ensures
            final(self).wf(),
            final(self).height == old(self).height,
            final(self).width == old(self).width,
            final(self).theme == old(self).theme,
            forall|k: int|
                0 <= k < old(self).height ==> #[trigger] final(self).grid()[k] == frame_row(
                    browser,
                    k,
                    left_width(old(self).width as int),
                    old(self).width as int,
                ),
            ({
                let (start, pad, shown) = bottom_layout(
                    browser.search_txt@,
                    status_text(browser),
                    browser.input_cursor_pos as int,
                    old(self).bottom_start as int,
                    old(self).add_algnmt,
                    old(self).width as int,
                    browser.mode.is_search(),
                );
                &&& final(self).bottom_start == start
                &&& final(self).add_algnmt == pad
                &&& r@ == csi_spec("1H"@) + csi_spec("?25l"@) + rows_text(
                    old(self).theme,
                    browser,
                    row_is_dir@,
                    preview_is_dir@,
                    old(self).height as int,
                    old(self).width as int,
                ) + bottom_bar_text(
                    old(self).theme,
                    old(self).height as nat,
                    old(self).width as nat,
                    bottom_line_text(browser.mode, pad, shown),
                    browser.mode.is_search(),
                    cursor_column(browser.search_txt@, start, browser.input_cursor_pos as int, pad),
                )
            }),
    {
        let mut str_to_draw = csi("1H");
        str_to_draw.append(csi("?25l").as_str());
        let ghost head = str_to_draw@;
        self.fill_grid(browser);
        let left = self.width / 10 * 6;
        let width = self.width;
        let mut i: usize = 0;
        assert(str_to_draw@ =~= head + rows_text(self.theme, browser, row_is_dir@, preview_is_dir@, 0, width as int));
        while i < self.height
            invariant
                self.wf(),
                i <= self.height,
                left == left_width(width as int),
                width == self.width,
                width >= 10,
                browser.window_start <= browser.cursor,
                forall|k: int| 0 <= k < self.height ==> #[trigger] self.grid()[k] == frame_row(browser, k, left as int, width as int),
                str_to_draw@ == head + rows_text(self.theme, browser, row_is_dir@, preview_is_dir@, i as int, width as int),
            decreases self.height - i,
        {
            self.render_row(&mut str_to_draw, browser, row_is_dir, preview_is_dir, i);
            i = i + 1;
        }
        let ghost g = self.grid();
        self.draw_bottom_line(&mut str_to_draw, browser);
        assert(self.grid() == g);
        str_to_draw
    }

    /// Take a new terminal size: where it differs from the current one, the
    /// grid is made anew, filled with spaces.
    pub fn resize(&mut self, height: usize, width: usize)
        requires
            old(self).wf(),
        ensures
            final(self).wf(),
            final(self).height == height,
            final(self).width == width,
            final(self).theme == old(self).theme,
            final(self).bottom_start == old(self).bottom_start,
            final(self).add_algnmt == old(self).add_algnmt,
            old(self).height == height && old(self).width == width ==> final(self).pixels
                == old(self).pixels,
            old(self).height != height || old(self).width != width ==> final(self).grid()
                == Seq::new(height as nat, |_i: int| spaces(width as nat)),
    {
        if self.height != height || self.width != width {
            let mut pixels: Vec<Vec<char>> = Vec::new();
            let mut i: usize = 0;
            while i < height
                invariant
                    i <= height,
                    pixels.len() == i,
                    forall|k: int| 0 <= k < i ==> #[trigger] pixels[k].len() == width,
                    forall|k: int| 0 <= k < i ==> #[trigger] pixels[k]@ == spaces(width as nat),
                decreases height - i,
            {
                let row = vec![' '; width];
                assert(row@ =~= spaces(width as nat));
                pixels.push(row);
                i = i + 1;
            }
            self.height = height;
            self.width = width;
            self.pixels = pixels;
            assert(self.grid() =~= Seq::new(height as nat, |_i: int| spaces(width as nat)));
        }
    }

    /// Columns of cell `i` of the edit line `txt`.
    fn cell_w(&self, txt: &Vec<char>, i: usize) -> (w: usize)
        requires
            self.utf8_table.wf(),
            i <= txt.len(),
        ensures
            w == cell_width(txt@, i as int),
            w <= 2,
    {
        if i == txt.len() {
            1
        } else {
            self.get_utf8_len(txt[i])
        }
    }

    /// Number of cells of `txt` from `start` that fit in `width` columns.
    fn forward_fit(&self, txt: &Vec<char>, start: usize, width: usize) -> (k: usize)
        requires
            self.utf8_table.wf(),
            start <= txt.len() < usize::MAX,
        ensures
            k == fit_forward(txt@, start as int, width as int),
            k <= txt.len() + 1 - start,
    {
        let mut i: usize = start;
        let mut used: usize = 0;
        let mut k: usize = 0;
        while i <= txt.len()
            invariant
                self.utf8_table.wf(),
                start <= i <= txt.len() + 1,
                txt.len() < usize::MAX,
                k == i - start,
                used <= width,
                fit_forward(txt@, start as int, width as int) == k + fit_forward(
                    txt@,
                    i as int,
                    width - used,
                ),
            decreases txt.len() + 1 - i,
        {
            let cw = self.cell_w(txt, i);
            if cw > width - used {
                return k;
            }
            used = used + cw;
            k = k + 1;
            i = i + 1;
        }
        k
    }

    /// Number of cells of `txt` from `cursor` backward that fit in `width`
    /// columns, and the columns that they take.
    fn backward_fit(&self, txt: &Vec<char>, cursor: usize, width: usize) -> (r: (usize, usize))
        requires
            self.utf8_table.wf(),
            cursor <= txt.len() < usize::MAX,
        ensures
            r.0 == fit_backward(txt@, cursor as int, width as int),
            r.1 == used_backward(txt@, cursor as int, width as int),
            r.1 <= width,
            r.0 <= cursor + 1,
    {
        let mut i: usize = cursor;
        let mut used: usize = 0;
        let mut m: usize = 0;
        let mut go = true;
        while go
            invariant
                self.utf8_table.wf(),
                i <= cursor <= txt.len() < usize::MAX,
                used <= width,
                go ==> m == cursor - i,
                !go ==> m <= cursor + 1,
                go ==> fit_backward(txt@, cursor as int, width as int) == m + fit_backward(
                    txt@,
                    i as int,
                    width - used,
                ),
                go ==> used_backward(txt@, cursor as int, width as int) == used + used_backward(
                    txt@,
                    i as int,
                    width - used,
                ),
                !go ==> fit_backward(txt@, cursor as int, width as int) == m,
                !go ==> used_backward(txt@, cursor as int, width as int) == used,
            decreases i + (if go { 1int } else { 0 }),
        {
            let cw = self.cell_w(txt, i);
            if cw > width - used {
                go = false;
            } else {
                used = used + cw;
                m = m + 1;
                if i == 0 {
                    go = false;
                } else {
                    i = i - 1;
                }
            }
        }
        (m, used)
    }

    /// Number of characters of `text` from `start` whose widths fit in `width`.
    fn text_fit(&self, text: &Vec<char>, start: usize, width: usize) -> (n: usize)
        requires
            self.utf8_table.wf(),
        ensures
            n == fit_text(text@, start as int, width as int),
            start < text.len() ==> n <= text.len() - start,
            start >= text.len() ==> n == 0,
    {
        if start >= text.len() {
            return 0;
        }
        let mut i: usize = start;
        let mut used: usize = 0;
        while i < text.len()
            invariant
                self.utf8_table.wf(),
                start <= i <= text.len(),
                used <= width,
                fit_text(text@, start as int, width as int) == (i - start) + fit_text(
                    text@,
                    i as int,
                    width - used,
                ),
            decreases text.len() - i,
        {
            let cw = self.get_utf8_len(text[i]);
            if cw > width - used {
                return i - start;
            }
            used = used + cw;
            i = i + 1;
        }
        i - start
    }

    /// The new scroll start and alignment flag of the status line, and the
    /// bounds `lo..hi` in `text` of the characters that it shows.
    fn scroll(
        &self,
        txt: &Vec<char>,
        text: &Vec<char>,
        p: usize,
        glyph: bool,
    ) -> (r: (usize, bool, usize, usize))
        requires
            self.utf8_table.wf(),
            self.width >= 2,
            p <= txt.len() < usize::MAX,
        ensures
            ({
                let (start, pad, shown) = bottom_layout(
                    txt@,
                    text@,
                    p as int,
                    self.bottom_start as int,
                    self.add_algnmt,
                    self.width as int,
                    glyph,
                );
                &&& r.0 == start
                &&& r.1 == pad
                &&& r.2 <= r.3 <= text.len()
                &&& text@.subrange(r.2 as int, r.3 as int) == shown
            }),
    {
        let s = self.bottom_start;
        let pad = self.add_algnmt;
        let mut width = self.width;
        if glyph {
            width = width - 1;
        }
        if pad {
            width = width - 1;
        }
        let full = if pad {
            width + 1
        } else {
            width
        };
        if s > p {
            let n = self.text_fit(text, p, full);
            let lo = if p < text.len() {
                p
            } else {
                text.len()
            };
            return (p, false, lo, lo + n);
        }
        let k = if s <= txt.len() {
            self.forward_fit(txt, s, width)
        } else {
            0
        };
        let right_le = if s > txt.len() || k == 0 {
            p - s >= width
        } else {
            k <= p - s
        };
        if right_le {
            let (m, used) = self.backward_fit(txt, p, full);
            let new_start = if m == 0 {
                s
            } else {
                p - (m - 1)
            };
            let lo = if new_start < text.len() {
                new_start
            } else {
                text.len()
            };
            let hi = if p < text.len() {
                p + 1
            } else {
                text.len()
            };
            (new_start, used != full, lo, hi)
        } else {
            let n = self.text_fit(text, s, width);
            let lo = if s < text.len() {
                s
            } else {
                text.len()
            };
            (s, pad, lo, lo + n)
        }
    }

    /// Move the status line's scroll start so that the edit cursor stays in
    /// view, and return the line's text: the mode glyph, the scroll indicator
    /// where it is set, and the visible part of the search text or the path.
    pub fn bottom_line_configure(&mut self, browser: &Browser) -> (r: String)
        requires
            old(self).utf8_table.wf(),
            old(self).width >= 2,
            browser.input_cursor_pos <= browser.search_txt.len() < usize::MAX,
        ensures
            ({
                let (start, pad, shown) = bottom_layout(
                    browser.search_txt@,
                    status_text(browser),
                    browser.input_cursor_pos as int,
                    old(self).bottom_start as int,
                    old(self).add_algnmt,
                    old(self).width as int,
                    browser.mode.is_search(),
                );
                &&& final(self).bottom_start == start
                &&& final(self).add_algnmt == pad
                &&& r@ == bottom_line_text(browser.mode, pad, shown)
            }),
            final(self).height == old(self).height,
            final(self).width == old(self).width,
            final(self).pixels == old(self).pixels,
            final(self).theme == old(self).theme,
            final(self).utf8_table == old(self).utf8_table,
    {
        let glyph = browser.mode == Mode::Search || browser.mode == Mode::RevSearch;
        let text: Vec<char> = if glyph {
            browser.search_txt.clone()
        } else {
            chars_of(browser.current_path.as_str())
        };
        proof {
            if glyph {
                assert(text@ =~= browser.search_txt@);
            }
        }
        let (new_start, new_pad, lo, hi) = self.scroll(
            &browser.search_txt,
            &text,
            browser.input_cursor_pos,
            glyph,
        );
        self.bottom_start = new_start;
        self.add_algnmt = new_pad;
        let mut r = String::new();
        if browser.mode == Mode::Search {
            push_char(&mut r, '/');
        } else if browser.mode == Mode::RevSearch {
            push_char(&mut r, '?');
        }
        if new_pad {
            push_char(&mut r, '>');
        }
        let ghost head = r@;
        assert(head =~= mode_glyph(browser.mode) + (if new_pad {
            seq!['>']
        } else {
            Seq::empty()
        }));
        let mut i: usize = lo;
        while i < hi
            invariant
                lo <= i <= hi <= text.len(),
                r@ == head + text@.subrange(lo as int, i as int),
            decreases hi - i,
        {
            push_char(&mut r, text[i]);
            i = i + 1;
            assert(text@.subrange(lo as int, i as int) =~= text@.subrange(lo as int, i - 1).push(
                text@[i - 1],
            ));
        }
        r
    }

    /// Display width of `c` in columns.
    pub fn get_utf8_len(&self, c: char) -> (w: usize)
        requires
            self.utf8_table.wf(),
        ensures
            w == char_width(c),
            w <= 2,
    {
        self.utf8_table.classify(c)
    }
}

/// A canvas of no rows and no columns, coloured by the built-in theme called
/// `theme_name` ("lucius" where there is none of that name).
pub fn new(theme_name: &str) -> (c: Canvas)
    ensures
        c.wf(),
        c.height == 0,
        c.width == 0,
        c.pixels.len() == 0,
        c.theme.colors() == theme_colors(theme_index(theme_name@)),
        c.bottom_start == 0,
        c.add_algnmt == false,
{
    Canvas {
        height: 0,
        width: 0,
        pixels: Vec::new(),
        theme: Theme::from(theme_name),
        utf8_table: WidthTable::new(),
        bottom_start: 0,
        add_algnmt: false,
    }
}

} // verus!
