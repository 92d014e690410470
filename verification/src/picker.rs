//! The colour picker's palette and geometry: where each colour's cell lies, the box
//! that ratatui's layout places in the terminal, which cell a click hits, and the
//! red, green and blue of a colour written in hexadecimal.

use ratatui::layout as tui;
use ratatui::layout::{Constraint, Direction, Layout};
use vstd::prelude::*;
use crate::text::{chars_of, copy_range, trim_start_char, trim_start_char_chars};

verus! {

/// The number of colours in the picker's palette.
pub const PALETTE_LEN: usize = 24;

/// The picker's palette, six colours a row, four rows.
pub open spec fn palette_hex(i: int) -> Seq<char> {
    if i == 0 { "FF0000"@ }
    else if i == 1 { "00FF00"@ }
    else if i == 2 { "0000FF"@ }
    else if i == 3 { "FFFF00"@ }
    else if i == 4 { "00FFFF"@ }
    else if i == 5 { "FF00FF"@ }
    else if i == 6 { "FFFFFF"@ }
    else if i == 7 { "000000"@ }
    else if i == 8 { "FFA500"@ }
    else if i == 9 { "800080"@ }
    else if i == 10 { "008000"@ }
    else if i == 11 { "FFC0CB"@ }
    else if i == 12 { "808080"@ }
    else if i == 13 { "A52A2A"@ }
    else if i == 14 { "FFD700"@ }
    else if i == 15 { "4B0082"@ }
    else if i == 16 { "F08080"@ }
    else if i == 17 { "E6E6FA"@ }
    else if i == 18 { "FF7F50"@ }
    else if i == 19 { "008080"@ }
    else if i == 20 { "000080"@ }
    else if i == 21 { "00008B"@ }
    else if i == 22 { "40E0D0"@ }
    else { "8B0000"@ }
}

/// The `i`-th colour of the palette.
pub fn palette_color(i: usize) -> (r: &'static str)
    requires
        i < PALETTE_LEN,
    ensures
        r@ == palette_hex(i as int),
{
    if i == 0 { "FF0000" }
    else if i == 1 { "00FF00" }
    else if i == 2 { "0000FF" }
    else if i == 3 { "FFFF00" }
    else if i == 4 { "00FFFF" }
    else if i == 5 { "FF00FF" }
    else if i == 6 { "FFFFFF" }
    else if i == 7 { "000000" }
    else if i == 8 { "FFA500" }
    else if i == 9 { "800080" }
    else if i == 10 { "008000" }
    else if i == 11 { "FFC0CB" }
    else if i == 12 { "808080" }
    else if i == 13 { "A52A2A" }
    else if i == 14 { "FFD700" }
    else if i == 15 { "4B0082" }
    else if i == 16 { "F08080" }
    else if i == 17 { "E6E6FA" }
    else if i == 18 { "FF7F50" }
    else if i == 19 { "008080" }
    else if i == 20 { "000080" }
    else if i == 21 { "00008B" }
    else if i == 22 { "40E0D0" }
    else { "8B0000" }
}

/// A rectangle of terminal cells.
#[derive(Clone, Copy, Debug, PartialEq, Eq, Structural)]
pub struct Rect {
    pub x: u16,
    pub y: u16,
    pub width: u16,
    pub height: u16,
}

/// Whether a rectangle lies within the coordinates a `u16` holds.
pub open spec fn fits_u16(r: Rect) -> bool {
    r.x + r.width <= u16::MAX && r.y + r.height <= u16::MAX
}

/// The cell of the `i`-th palette colour within `area`: six equal columns, four equal
/// rows, row by row.
pub open spec fn palette_cell(area: Rect, i: int) -> Rect {
    Rect {
        x: (area.x + (i % 6) * (area.width / 6)) as u16,
        y: (area.y + (i / 6) * (area.height / 4)) as u16,
        width: (area.width / 6) as u16,
        height: (area.height / 4) as u16,
    }
}

proof fn lemma_cell_bounds(area: Rect, row: int, col: int)
    requires
        0 <= row < 4,
        0 <= col < 6,
    ensures
        col * (area.width / 6) + area.width / 6 <= area.width,
        row * (area.height / 4) + area.height / 4 <= area.height,
{
    assert(col * (area.width / 6) + area.width / 6 <= 6 * (area.width / 6)) by (nonlinear_arith)
        requires
            0 <= col < 6,
            area.width / 6 >= 0,
    ;
    assert(row * (area.height / 4) + area.height / 4 <= 4 * (area.height / 4)) by (nonlinear_arith)
        requires
            0 <= row < 4,
            area.height / 4 >= 0,
    ;
}

/// The cells of the palette colours within `area`.
pub fn get_palette_rects(area: Rect) -> (r: Vec<Rect>)
    requires
        fits_u16(area),
    ensures
        r@.len() == PALETTE_LEN,
        forall|i: int| 0 <= i < PALETTE_LEN ==> #[trigger] r@[i] == palette_cell(area, i),
        forall|i: int| 0 <= i < PALETTE_LEN ==> fits_u16(#[trigger] r@[i]),
{
    let mut rects: Vec<Rect> = Vec::new();
    let col_width = area.width / 6;
    let row_height = area.height / 4;
    let mut row: u16 = 0;
    while row < 4
        invariant
            row <= 4,
            fits_u16(area),
            col_width == area.width / 6,
            row_height == area.height / 4,
            rects@.len() == 6 * row,
            forall|i: int| 0 <= i < rects@.len() ==> #[trigger] rects@[i] == palette_cell(area, i),
            forall|i: int| 0 <= i < rects@.len() ==> fits_u16(#[trigger] rects@[i]),
        decreases 4 - row,
    {
        let mut col: u16 = 0;
        while col < 6
            invariant
                row < 4,
                col <= 6,
                fits_u16(area),
                col_width == area.width / 6,
                row_height == area.height / 4,
                rects@.len() == 6 * row + col,
                forall|i: int| 0 <= i < rects@.len() ==> #[trigger] rects@[i] == palette_cell(area, i),
                forall|i: int| 0 <= i < rects@.len() ==> fits_u16(#[trigger] rects@[i]),
            decreases 6 - col,
        {
            proof {
                lemma_cell_bounds(area, row as int, col as int);
            }
            let x = area.x + col * col_width;
            let y = area.y + row * row_height;
            let cell = Rect { x, y, width: col_width, height: row_height };
            let ghost i = 6 * row + col;
            assert(i % 6 == col && i / 6 == row) by (nonlinear_arith)
                requires
                    i == 6 * row + col,
                    0 <= col < 6,
                    0 <= row,
            ;
            rects.push(cell);
            col = col + 1;
        }
        row = row + 1;
    }
    rects
}

/// Whether the cell at column `col`, row `row` lies in `r`.
pub open spec fn inside(r: Rect, col: u16, row: u16) -> bool {
    col >= r.x && col < r.x + r.width && row >= r.y && row < r.y + r.height
}

pub(crate) fn is_inside(r: Rect, col: u16, row: u16) -> (b: bool)
    requires
        fits_u16(r),
    ensures
        b == inside(r, col, row),
{
    col >= r.x && col < r.x + r.width && row >= r.y && row < r.y + r.height
}


/// The direction along which a layout splits an area.
#[derive(Clone, Copy, Debug, PartialEq, Eq, Structural)]
pub enum Axis {
    Vertical,
    Horizontal,
}

/// One constraint of a layout: a fixed length, or at least a length.
#[derive(Clone, Copy, Debug, PartialEq, Eq, Structural)]
pub enum Extent {
    Length(u16),
    Min(u16),
}

/// `a + b`, or the largest `u16` when that does not fit.
pub open spec fn sat_add(a: u16, b: u16) -> u16 {
    if a + b > u16::MAX {
        u16::MAX
    } else {
        (a + b) as u16
    }
}

/// The area that a layout with margin `margin` splits: `area` with `margin` cells
/// taken from every side, or the empty area at the origin when it is too small for
/// that (`Rect::inner`).
pub open spec fn inner_of(area: Rect, margin: u16) -> Rect {
    let d: u16 = if 2 * margin > u16::MAX {
        u16::MAX
    } else {
        (2 * margin) as u16
    };
    if area.width < d || area.height < d {
        Rect { x: 0, y: 0, width: 0, height: 0 }
    } else {
        Rect {
            x: sat_add(area.x, margin),
            y: sat_add(area.y, margin),
            width: (area.width - d) as u16,
            height: (area.height - d) as u16,
        }
    }
}

/// A part of a split lies across the whole of `inner` and along `axis` within it.
pub open spec fn lies_along(p: Rect, inner: Rect, axis: Axis) -> bool {
    match axis {
        Axis::Vertical => p.x == inner.x && p.width == inner.width && inner.y <= p.y && p.y
            + p.height <= sat_add(inner.y, inner.height),
        Axis::Horizontal => p.y == inner.y && p.height == inner.height && inner.x <= p.x && p.x
            + p.width <= sat_add(inner.x, inner.width),
    }
}

/// Part `p` ends, along `axis`, where part `q` starts or before.
pub open spec fn comes_before(p: Rect, q: Rect, axis: Axis) -> bool {
    match axis {
        Axis::Vertical => p.y + p.height <= q.y,
        Axis::Horizontal => p.x + p.width <= q.x,
    }
}

/// What holds of every split of `area` along `axis` with `margin` and `extents`:
/// one part for each extent, each across the whole margin-reduced area and within
/// it along the axis, and in order without overlap. How long each part is, is left
/// to the solver.
pub open spec fn split_outcome(area: Rect, axis: Axis, margin: u16, extents: Seq<Extent>, parts: Seq<
    Rect,
>) -> bool {
    let inner = inner_of(area, margin);
    &&& parts.len() == extents.len()
    &&& forall|i: int| 0 <= i < parts.len() ==> #[trigger] lies_along(parts[i], inner, axis)
    &&& forall|i: int, j: int|
        0 <= i < j < parts.len() ==> #[trigger] comes_before(parts[i], parts[j], axis)
}

/// Calls `ratatui::layout::Layout::split` on a layout with the given direction,
/// margin and constraints. What its source shows of every outcome is claimed: one
/// part for each constraint (`changes_to_rects` maps each segment to a part), each
/// taking the whole margin-reduced area (`Rect::inner`) across the axis and a stretch
/// within it along the axis, in order (the solver's required constraints keep every
/// variable within the area and in ascending order). How long each part is, is not
/// stated: the solver walks its own tables in an order that can differ from one
/// process to the next.
#[verifier::external_body]
pub(crate) fn split_area(area: Rect, axis: Axis, margin: u16, extents: &[Extent]) -> (r: Vec<Rect>)
    ensures
        split_outcome(area, axis, margin, extents@, r@),
{
    let direction = match axis {
        Axis::Vertical => Direction::Vertical,
        Axis::Horizontal => Direction::Horizontal,
    };
    let whole = tui::Rect { x: area.x, y: area.y, width: area.width, height: area.height };
    let parts = Layout::default().direction(direction).margin(margin).constraints(
        extents.iter().map(|e| match e {
            Extent::Length(n) => Constraint::Length(*n),
            Extent::Min(n) => Constraint::Min(*n),
        }),
    ).split(whole);
    parts.iter().map(|p| Rect { x: p.x, y: p.y, width: p.width, height: p.height }).collect()
}

/// `a - b`, or 0 when `b` is larger.
pub open spec fn less_or_zero(a: u16, b: u16) -> u16 {
    if a > b {
        (a - b) as u16
    } else {
        0
    }
}

/// The constraints that centre `size` cells in `total`: half the room that is left,
/// the size itself, and whatever remains.
pub open spec fn centring(total: u16, size: u16) -> Seq<Extent> {
    seq![Extent::Length((less_or_zero(total, size) / 2) as u16), Extent::Length(size), Extent::Min(0)]
}

/// The constraints that centre `size` cells in `total`.
pub fn centring_extents(total: u16, size: u16) -> (r: Vec<Extent>)
    ensures
        r@ == centring(total, size),
{
    let room = if total > size {
        total - size
    } else {
        0
    };
    let r = vec![Extent::Length(room / 2), Extent::Length(size), Extent::Min(0)];
    assert(r@ =~= centring(total, size));
    r
}

/// The middle one of three parts.
pub fn middle_part(parts: &Vec<Rect>) -> (r: Rect)
    requires
        parts@.len() == 3,
    ensures
        r == parts@[1],
{
    parts[1]
}

/// What holds of the box of `width` by `height` cells that `popup_area` centres in
/// `area`: it is the middle part of a split by columns with `centring(area.width,
/// width)` of the middle part of a split by rows with `centring(area.height, height)`.
pub open spec fn popup_outcome(area: Rect, width: u16, height: u16, r: Rect) -> bool {
    exists|rows: Seq<Rect>, cols: Seq<Rect>|
        #[trigger] split_outcome(area, Axis::Vertical, 0, centring(area.height, height), rows)
            && #[trigger] split_outcome(
            rows[1],
            Axis::Horizontal,
            0,
            centring(area.width, width),
            cols,
        ) && r == cols[1]
}

/// A box of `width` by `height` cells centred in `area`, as ratatui's layout places
/// it. How long the solver makes the parts is not stated (see `split_area`).
pub fn popup_area(area: Rect, width: u16, height: u16) -> (r: Rect)
    ensures
        popup_outcome(area, width, height, r),
{
    let rows = split_area(area, Axis::Vertical, 0, centring_extents(area.height, height).as_slice());
    let row = middle_part(&rows);
    let columns = split_area(row, Axis::Horizontal, 0, centring_extents(area.width, width).as_slice());
    let r = middle_part(&columns);
    assert(split_outcome(area, Axis::Vertical, 0, centring(area.height, height), rows@)
        && split_outcome(rows@[1], Axis::Horizontal, 0, centring(area.width, width), columns@)
        && r == columns@[1]);
    r
}

/// The rows of the colour picker box: a line of help, the palette and the typed colour.
pub open spec fn picker_rows() -> Seq<Extent> {
    seq![Extent::Length(2), Extent::Length(12), Extent::Length(3)]
}

/// The rows of the colour picker box.
pub fn picker_extents() -> (r: Vec<Extent>)
    ensures
        r@ == picker_rows(),
{
    let r = vec![Extent::Length(2), Extent::Length(12), Extent::Length(3)];
    assert(r@ =~= picker_rows());
    r
}

/// The palette and the typed-colour box of the three parts of the picker box.
pub fn picker_parts(parts: &Vec<Rect>) -> (r: (Rect, Rect))
    requires
        parts@.len() == 3,
    ensures
        r == (parts@[1], parts@[2]),
{
    (parts[1], parts[2])
}

/// The palette area and the typed-colour box of the colour picker in a terminal of
/// `term_area`: the picker is the box of 44 by 22 cells that `popup_area` centres,
/// split by rows as `picker_rows` says, with a margin of one cell. How long the
/// solver makes the parts is not stated (see `split_area`).
pub fn picker_click_areas(term_area: Rect) -> (r: (Rect, Rect))
    ensures
        exists|popup: Rect, parts: Seq<Rect>|
            popup_outcome(term_area, 44, 22, popup) && #[trigger] split_outcome(
                popup,
                Axis::Vertical,
                1,
                picker_rows(),
                parts,
            ) && r == (parts[1], parts[2]),
{
    let popup = popup_area(term_area, 44, 22);
    let parts = split_area(popup, Axis::Vertical, 1, picker_extents().as_slice());
    let r = picker_parts(&parts);
    assert(popup_outcome(term_area, 44, 22, popup) && split_outcome(
        popup,
        Axis::Vertical,
        1,
        picker_rows(),
        parts@,
    ) && r == (parts@[1], parts@[2]));
    r
}

/// The first of the first `n` palette cells of `area` that holds the cell at
/// column `col`, row `row`.
pub open spec fn cell_hit_before(area: Rect, col: u16, row: u16, n: int) -> Option<int>
    decreases n,
{
    if n <= 0 {
        None
    } else {
        match cell_hit_before(area, col, row, n - 1) {
            Some(i) => Some(i),
            None => if inside(palette_cell(area, n - 1), col, row) {
                Some(n - 1)
            } else {
                None
            },
        }
    }
}

/// The palette colour whose cell in `area` holds the cell at column `col`, row
/// `row`; none when `area` reaches past the coordinates a `u16` holds.
pub open spec fn palette_hit(area: Rect, col: u16, row: u16) -> Option<int> {
    if fits_u16(area) {
        cell_hit_before(area, col, row, PALETTE_LEN as int)
    } else {
        None
    }
}

proof fn lemma_cell_hit_stays(area: Rect, col: u16, row: u16, n: int, m: int)
    requires
        0 <= n <= m,
        cell_hit_before(area, col, row, n) is Some,
    ensures
        cell_hit_before(area, col, row, m) == cell_hit_before(area, col, row, n),
    decreases m - n,
{
    if n < m {
        lemma_cell_hit_stays(area, col, row, n, m - 1);
    }
}

pub(crate) fn find_palette_hit(area: Rect, col: u16, row: u16) -> (r: Option<usize>)
    ensures
        r matches Some(i) ==> palette_hit(area, col, row) == Some(i as int) && i < PALETTE_LEN,
        r is None ==> palette_hit(area, col, row) is None,
{
    if !(area.x <= u16::MAX - area.width && area.y <= u16::MAX - area.height) {
        return None;
    }
    let rects = get_palette_rects(area);
    let mut i: usize = 0;
    while i < PALETTE_LEN
        invariant
            i <= PALETTE_LEN,
            fits_u16(area),
            rects@.len() == PALETTE_LEN,
            forall|j: int| 0 <= j < PALETTE_LEN ==> #[trigger] rects@[j] == palette_cell(area, j),
            forall|j: int| 0 <= j < PALETTE_LEN ==> fits_u16(#[trigger] rects@[j]),
            cell_hit_before(area, col, row, i as int) is None,
        decreases PALETTE_LEN - i,
    {
        if is_inside(rects[i], col, row) {
            proof {
                lemma_cell_hit_stays(area, col, row, i + 1, PALETTE_LEN as int);
            }
            return Some(i);
        }
        i = i + 1;
    }
    None
}

/// A hexadecimal digit.
pub open spec fn hex_digit(c: char) -> bool {
    ||| ('0' <= c && c <= '9')
    ||| ('a' <= c && c <= 'f')
    ||| ('A' <= c && c <= 'F')
}

pub(crate) fn is_hex_digit(c: char) -> (b: bool)
    ensures
        b == hex_digit(c),
{
    ('0' <= c && c <= '9') || ('a' <= c && c <= 'f') || ('A' <= c && c <= 'F')
}

/// The value of a hexadecimal digit.
pub open spec fn hex_value(c: char) -> int {
    if '0' <= c && c <= '9' {
        c as int - '0' as int
    } else if 'a' <= c && c <= 'f' {
        c as int - 'a' as int + 10
    } else {
        c as int - 'A' as int + 10
    }
}

/// Two characters read as a base-16 byte, an optional `+` sign included; 255 when
/// they are no such number.
pub open spec fn byte_of(a: char, b: char) -> u8 {
    if hex_digit(a) && hex_digit(b) {
        (16 * hex_value(a) + hex_value(b)) as u8
    } else if a == '+' && hex_digit(b) {
        hex_value(b) as u8
    } else {
        255
    }
}

/// The number of bytes UTF-8 takes for a character.
pub open spec fn utf8_len(c: char) -> int {
    if (c as u32) < 0x80 {
        1
    } else if (c as u32) < 0x800 {
        2
    } else if (c as u32) < 0x10000 {
        3
    } else {
        4
    }
}

/// The number of bytes UTF-8 takes for a text.
pub open spec fn byte_len(s: Seq<char>) -> int
    decreases s.len(),
{
    if s.len() == 0 {
        0
    } else {
        byte_len(s.drop_last()) + utf8_len(s.last())
    }
}

/// How many characters of `s` make up its first `b` bytes, when byte `b` falls
/// between two characters.
pub open spec fn chars_in_bytes(s: Seq<char>, b: int) -> Option<int> {
    if exists|k: int| 0 <= k <= s.len() && byte_len(s.take(k)) == b {
        Some(choose|k: int| 0 <= k <= s.len() && byte_len(s.take(k)) == b)
    } else {
        None
    }
}

/// The byte that one of the three parts of a colour gives: two characters as
/// `byte_of` reads them; 255 for a part that is a single character.
pub open spec fn part_byte(t: Seq<char>) -> u8 {
    if t.len() == 2 {
        byte_of(t[0], t[1])
    } else {
        255
    }
}

/// Whether a colour can be cut into its three two-byte parts: unless the text after
/// any leading `#` is six bytes long and a character lies across byte 2 or byte 4.
pub open spec fn splits_cleanly(hex: Seq<char>) -> bool {
    let h = trim_start_char(hex, '#');
    byte_len(h) == 6 ==> chars_in_bytes(h, 2) is Some && chars_in_bytes(h, 4) is Some
}

/// The red, green and blue of a colour written in six bytes after any leading `#`,
/// each pair of bytes read by `part_byte`; none for text of any other length.
pub open spec fn rgb_of(hex: Seq<char>) -> Option<(u8, u8, u8)> {
    let h = trim_start_char(hex, '#');
    if byte_len(h) == 6 && chars_in_bytes(h, 2) is Some && chars_in_bytes(h, 4) is Some {
        let a = chars_in_bytes(h, 2)->0;
        let b = chars_in_bytes(h, 4)->0;
        Some((part_byte(h.take(a)), part_byte(h.subrange(a, b)), part_byte(h.skip(b))))
    } else {
        None
    }
}

proof fn lemma_byte_len_grows(s: Seq<char>, j: int, k: int)
    requires
        0 <= j < k <= s.len(),
    ensures
        byte_len(s.take(j)) < byte_len(s.take(k)),
    decreases k - j,
{
    assert(s.take(k).drop_last() =~= s.take(k - 1));
    if j < k - 1 {
        lemma_byte_len_grows(s, j, k - 1);
    }
}

fn utf8_bytes(c: char) -> (n: usize)
    ensures
        n == utf8_len(c),
{
    if (c as u32) < 0x80 {
        1
    } else if (c as u32) < 0x800 {
        2
    } else if (c as u32) < 0x10000 {
        3
    } else {
        4
    }
}

fn six_bytes(h: &Vec<char>) -> (b: bool)
    ensures
        b == (byte_len(h@) == 6),
{
    let mut total: usize = 0;
    let mut k: usize = 0;
    while k < h.len() && total <= 6
        invariant
            k <= h.len(),
            total == byte_len(h@.take(k as int)),
        decreases h.len() - k,
    {
        assert(h@.take(k + 1).drop_last() =~= h@.take(k as int));
        total = total + utf8_bytes(h[k]);
        k = k + 1;
    }
    proof {
        assert(h@.take(h.len() as int) =~= h@);
        if k < h.len() {
            lemma_byte_len_grows(h@, k as int, h.len() as int);
        }
    }
    k == h.len() && total == 6
}

fn find_chars_in_bytes(h: &Vec<char>, b: usize) -> (r: Option<usize>)
    requires
        b <= 6,
    ensures
        r matches Some(k) ==> chars_in_bytes(h@, b as int) == Some(k as int) && k <= h.len(),
        r is None ==> chars_in_bytes(h@, b as int) is None,
{
    let mut total: usize = 0;
    let mut k: usize = 0;
    while k < h.len() && total < b
        invariant
            k <= h.len(),
            b <= 6,
            total == byte_len(h@.take(k as int)),
            forall|j: int| 0 <= j < k ==> #[trigger] byte_len(h@.take(j)) < b,
        decreases h.len() - k,
    {
        assert(h@.take(k + 1).drop_last() =~= h@.take(k as int));
        total = total + utf8_bytes(h[k]);
        k = k + 1;
    }
    if total == b {
        proof {
            let c = choose|c: int| 0 <= c <= h@.len() && byte_len(h@.take(c)) == b;
            if c < k {
                assert(byte_len(h@.take(c)) < b);
            } else if c > k {
                lemma_byte_len_grows(h@, k as int, c);
            }
        }
        Some(k)
    } else {
        proof {
            assert forall|c: int| 0 <= c <= h@.len() implies #[trigger] byte_len(h@.take(c)) != b by {
                if c < k {
                    assert(byte_len(h@.take(c)) < b);
                } else if c > k {
                    lemma_byte_len_grows(h@, k as int, c);
                }
            }
        }
        None
    }
}

fn part_value(t: &Vec<char>) -> (r: u8)
    ensures
        r == part_byte(t@),
{
    if t.len() == 2 {
        read_byte(t[0], t[1])
    } else {
        255
    }
}

/// Whether a colour can be cut into its three two-byte parts.
pub fn hex_splits_cleanly(hex: &str) -> (b: bool)
    ensures
        b == splits_cleanly(hex@),
{
    let cs = chars_of(hex);
    let h = trim_start_char_chars(cs.as_slice(), '#');
    if !six_bytes(&h) {
        return true;
    }
    find_chars_in_bytes(&h, 2).is_some() && find_chars_in_bytes(&h, 4).is_some()
}

fn hex_digit_value(c: char) -> (r: u8)
    requires
        hex_digit(c),
    ensures
        r == hex_value(c),
{
    if '0' <= c && c <= '9' {
        (c as u32 - '0' as u32) as u8
    } else if 'a' <= c && c <= 'f' {
        (c as u32 - 'a' as u32 + 10) as u8
    } else {
        (c as u32 - 'A' as u32 + 10) as u8
    }
}

fn read_byte(a: char, b: char) -> (r: u8)
    ensures
        r == byte_of(a, b),
{
    if is_hex_digit(a) && is_hex_digit(b) {
        16 * hex_digit_value(a) + hex_digit_value(b)
    } else if a == '+' && is_hex_digit(b) {
        hex_digit_value(b)
    } else {
        255
    }
}

/// The red, green and blue of a theme colour, for drawing.
pub fn hex_to_rgb(hex: &str) -> (r: Option<(u8, u8, u8)>)
    requires
        splits_cleanly(hex@),
    ensures
        r == rgb_of(hex@),
{
    let cs = chars_of(hex);
    let h = trim_start_char_chars(cs.as_slice(), '#');
    if !six_bytes(&h) {
        return None;
    }
    let a = find_chars_in_bytes(&h, 2);
    let b = find_chars_in_bytes(&h, 4);
    match (a, b) {
        (Some(a), Some(b)) => {
            proof {
                if b < a {
                    lemma_byte_len_grows(h@, b as int, a as int);
                }
            }
            let red = part_value(&copy_range(h.as_slice(), 0, a));
            let green = part_value(&copy_range(h.as_slice(), a, b));
            let blue = part_value(&copy_range(h.as_slice(), b, h.len()));
            proof {
                assert(h@.subrange(0, a as int) =~= h@.take(a as int));
                assert(h@.subrange(b as int, h.len() as int) =~= h@.skip(b as int));
            }
            Some((red, green, blue))
        },
        _ => None,
    }
}

} // verus!
