//! The splash-screen asset: parsing its line-oriented text form (five
//! fields `x y r g b` per line, separated by ASCII whitespace, malformed or
//! missing fields defaulting to 0), the skip-on-zero-coordinate rule, the
//! bounding box of the kept cells, and the integer layout rules for placing
//! the splash and the help panel in a viewport.

use vstd::prelude::*;

verus! {

/// One decorative cell of the splash image: a position and an RGB color.
#[derive(Clone, Copy, PartialEq, Eq, Structural, Debug)]
pub struct DrawingCell {
    pub x: u16,
    pub y: u16,
    pub r: u8,
    pub g: u8,
    pub b: u8,
}

/// A corner of the splash image's bounding box.
#[derive(Clone, Copy, PartialEq, Eq, Structural, Debug)]
pub struct DrawingCoords {
    pub x: u16,
    pub y: u16,
}

/// The parsed splash image: its cells in input order, plus the componentwise
/// bounding box of those cells (both corners at the origin when there are
/// none).
pub struct DrawingData {
    pub data: Vec<DrawingCell>,
    pub min_coords: DrawingCoords,
    pub max_coords: DrawingCoords,
}

/// ASCII whitespace, the field separator of the asset format. The parser
/// works on raw bytes and deliberately recognizes only these separators: a
/// non-ASCII space in a line is taken as part of a field, which then fails
/// to parse as a number and defaults to 0 like any other malformed field.
pub open spec fn is_ws(b: u8) -> bool {
    b == 32 || b == 9 || b == 10 || b == 11 || b == 12 || b == 13
}

/// An ASCII decimal digit.
pub open spec fn is_digit(b: u8) -> bool {
    48 <= b <= 57
}

pub open spec fn all_digits(s: Seq<u8>) -> bool {
    forall|i: int| 0 <= i < s.len() ==> is_digit(#[trigger] s[i])
}

/// The number the digit string `s` denotes in base 10.
pub open spec fn digits_val(s: Seq<u8>) -> int
    decreases s.len(),
{
    if s.len() == 0 {
        0
    } else {
        digits_val(s.drop_last()) * 10 + s.last() - 48
    }
}

/// What parsing one field yields: an optional leading `+`, then a non-empty
/// run of digits denoting a value at most `max`; anything else (including
/// overflow and a missing field) yields 0.
pub open spec fn dec_or_zero(s: Seq<u8>, max: int) -> int {
    let digits = if s.len() > 0 && s[0] == 43 {
        s.drop_first()
    } else {
        s
    };
    if digits.len() > 0 && all_digits(digits) && digits_val(digits) <= max {
        digits_val(digits)
    } else {
        0
    }
}

/// The first non-whitespace position at or after `i`.
pub open spec fn skip_ws(s: Seq<u8>, i: int) -> int
    decreases s.len() - i,
{
    if i < s.len() && is_ws(s[i]) {
        skip_ws(s, i + 1)
    } else {
        i
    }
}

/// The first whitespace position (or the end) at or after `i`.
pub open spec fn token_end(s: Seq<u8>, i: int) -> int
    decreases s.len() - i,
{
    if i < s.len() && !is_ws(s[i]) {
        token_end(s, i + 1)
    } else {
        i
    }
}

/// The `k`-th whitespace-separated token at or after position `i`, or the
/// empty sequence when fewer than `k + 1` tokens remain.
pub open spec fn nth_token(s: Seq<u8>, i: int, k: nat) -> Seq<u8>
    decreases k,
{
    let j = skip_ws(s, i);
    if j >= s.len() {
        Seq::empty()
    } else if k == 0 {
        s.subrange(j, token_end(s, j))
    } else {
        nth_token(s, token_end(s, j), (k - 1) as nat)
    }
}

/// The cell one asset line denotes: its five fields parsed with the
/// default-to-zero rule, coordinates capped at the u16 range and color
/// channels at the u8 range.
pub open spec fn cell_of_line(s: Seq<u8>) -> DrawingCell {
    DrawingCell {
        x: dec_or_zero(nth_token(s, 0, 0), 65535) as u16,
        y: dec_or_zero(nth_token(s, 0, 1), 65535) as u16,
        r: dec_or_zero(nth_token(s, 0, 2), 255) as u8,
        g: dec_or_zero(nth_token(s, 0, 3), 255) as u8,
        b: dec_or_zero(nth_token(s, 0, 4), 255) as u8,
    }
}

/// A line is kept only when neither coordinate is the 0 sentinel.
pub open spec fn line_kept(s: Seq<u8>) -> bool {
    cell_of_line(s).x != 0 && cell_of_line(s).y != 0
}

/// A digit string denotes a non-negative number.
pub proof fn lemma_digits_val_nonneg(s: Seq<u8>)
    requires
        all_digits(s),
    ensures
        digits_val(s) >= 0,
    decreases s.len(),
{
    if s.len() > 0 {
        assert(all_digits(s.drop_last()));
        lemma_digits_val_nonneg(s.drop_last());
    }
}

/// Skipping whitespace never passes the end and lands on a non-whitespace
/// byte (or the end), skipping only whitespace on the way.
pub proof fn lemma_skip_ws(s: Seq<u8>, i: int)
    requires
        0 <= i <= s.len(),
    ensures
        i <= skip_ws(s, i) <= s.len(),
        skip_ws(s, i) < s.len() ==> !is_ws(s[skip_ws(s, i)]),
    decreases s.len() - i,
{
    if i < s.len() && is_ws(s[i]) {
        lemma_skip_ws(s, i + 1);
    }
}

/// Unrolls `nth_token` one step past the token that starts at `skip_ws(s, i)`
/// and ends at `e`.
pub proof fn lemma_nth_token_unroll(s: Seq<u8>, i: int, k: nat, e: int)
    requires
        0 <= i <= s.len(),
        e == token_end(s, skip_ws(s, i)),
        k >= 1,
    ensures
        nth_token(s, i, k) == nth_token(s, e, (k - 1) as nat),
{
    let j = skip_ws(s, i);
    lemma_skip_ws(s, i);
    if j >= s.len() {
        assert(j == s.len());
        assert(token_end(s, j) == j);
        assert(skip_ws(s, e) == e);
        assert(nth_token(s, i, k) == Seq::<u8>::empty());
        assert(nth_token(s, e, (k - 1) as nat) == Seq::<u8>::empty());
    }
}

/// Whether `b` is an ASCII whitespace byte, as executable code.
pub fn is_ws_byte(b: u8) -> (r: bool)
    ensures
        r == is_ws(b),
{
    b == 32 || b == 9 || b == 10 || b == 11 || b == 12 || b == 13
}

/// Find the next field of `line` at or after `from`: its start after any
/// whitespace and its end.
pub fn scan_token(line: &Vec<u8>, from: usize) -> (r: (usize, usize))
    requires
        from <= line@.len(),
    ensures
        r.0 as int == skip_ws(line@, from as int),
        r.1 as int == token_end(line@, r.0 as int),
        from <= r.0 <= r.1 <= line@.len(),
{
    let mut j = from;
    while j < line.len() && is_ws_byte(line[j])
        invariant
            from <= j <= line@.len(),
            skip_ws(line@, from as int) == skip_ws(line@, j as int),
        decreases line@.len() - j,
    {
        j = j + 1;
    }
    let mut e = j;
    while e < line.len() && !is_ws_byte(line[e])
        invariant
            j <= e <= line@.len(),
            token_end(line@, j as int) == token_end(line@, e as int),
        decreases line@.len() - e,
    {
        e = e + 1;
    }
    (j, e)
}

/// Parse the field `line[start..end]` with the default-to-zero rule, capped
/// at `max`.
#[verifier::loop_isolation(false)]
pub fn parse_field(line: &Vec<u8>, start: usize, end: usize, max: u32) -> (r: u32)
    requires
        start <= end <= line@.len(),
        1 <= max <= 65535,
    ensures
        r as int == dec_or_zero(line@.subrange(start as int, end as int), max as int),
        r <= max,
{
    let ghost tok = line@.subrange(start as int, end as int);
    let mut ds = start;
    if end > start && line[start] == 43 {
        ds = start + 1;
        proof {
            assert(tok.drop_first() =~= line@.subrange(ds as int, end as int));
        }
    }
    let ghost digits = line@.subrange(ds as int, end as int);
    if ds == end {
        proof {
            assert(digits.len() == 0);
        }
        return 0;
    }
    let mut acc: u32 = 0;
    let mut pos = ds;
    while pos < end
        invariant
            ds <= pos <= end <= line@.len(),
            1 <= max <= 65535,
            digits == line@.subrange(ds as int, end as int),
            all_digits(line@.subrange(ds as int, pos as int)),
            acc <= max + 1,
            if digits_val(line@.subrange(ds as int, pos as int)) <= max {
                acc as int == digits_val(line@.subrange(ds as int, pos as int))
            } else {
                acc == max + 1
            },
        decreases end - pos,
    {
        let ghost pref = line@.subrange(ds as int, pos as int);
        let b = line[pos];
        if b < 48 || b > 57 {
            proof {
                assert(digits[pos - ds] == b);
                assert(!all_digits(digits));
            }
            return 0;
        }
        let d = (b - 48) as u32;
        proof {
            let pref2 = line@.subrange(ds as int, pos as int + 1);
            assert(pref2.drop_last() =~= pref);
            assert(pref2.last() == b);
            assert(digits_val(pref2) == digits_val(pref) * 10 + b - 48);
            assert(all_digits(pref2));
            lemma_digits_val_nonneg(pref);
        }
        let cand = acc * 10 + d;
        if cand > max {
            acc = max + 1;
        } else {
            acc = cand;
        }
        pos = pos + 1;
    }
    proof {
        assert(line@.subrange(ds as int, pos as int) == digits);
    }
    if acc > max {
        0
    } else {
        acc
    }
}

/// Parse one asset line into its cell, exactly as `cell_of_line` says.
pub fn parse_drawing_line(line: &Vec<u8>) -> (r: DrawingCell)
    ensures
        r == cell_of_line(line@),
{
    let (s0, e0) = scan_token(line, 0);
    let (s1, e1) = scan_token(line, e0);
    let (s2, e2) = scan_token(line, e1);
    let (s3, e3) = scan_token(line, e2);
    let (s4, e4) = scan_token(line, e3);
    proof {
        let l = line@;
        lemma_nth_token_unroll(l, 0, 1, e0 as int);
        lemma_nth_token_unroll(l, 0, 2, e0 as int);
        lemma_nth_token_unroll(l, 0, 3, e0 as int);
        lemma_nth_token_unroll(l, 0, 4, e0 as int);
        lemma_nth_token_unroll(l, e0 as int, 1, e1 as int);
        lemma_nth_token_unroll(l, e0 as int, 2, e1 as int);
        lemma_nth_token_unroll(l, e0 as int, 3, e1 as int);
        lemma_nth_token_unroll(l, e1 as int, 1, e2 as int);
        lemma_nth_token_unroll(l, e1 as int, 2, e2 as int);
        lemma_nth_token_unroll(l, e2 as int, 1, e3 as int);
        if s0 == l.len() {
            assert(l.subrange(s0 as int, e0 as int) =~= Seq::<u8>::empty());
        }
        if s1 == l.len() {
            assert(l.subrange(s1 as int, e1 as int) =~= Seq::<u8>::empty());
        }
        if s2 == l.len() {
            assert(l.subrange(s2 as int, e2 as int) =~= Seq::<u8>::empty());
        }
        if s3 == l.len() {
            assert(l.subrange(s3 as int, e3 as int) =~= Seq::<u8>::empty());
        }
        if s4 == l.len() {
            assert(l.subrange(s4 as int, e4 as int) =~= Seq::<u8>::empty());
        }
        assert(nth_token(l, 0, 0) == l.subrange(s0 as int, e0 as int));
        assert(nth_token(l, 0, 1) == l.subrange(s1 as int, e1 as int));
        assert(nth_token(l, 0, 2) == l.subrange(s2 as int, e2 as int));
        assert(nth_token(l, 0, 3) == l.subrange(s3 as int, e3 as int));
        assert(nth_token(l, 0, 4) == l.subrange(s4 as int, e4 as int));
    }
    DrawingCell {
        x: parse_field(line, s0, e0, 65535) as u16,
        y: parse_field(line, s1, e1, 65535) as u16,
        r: parse_field(line, s2, e2, 255) as u8,
        g: parse_field(line, s3, e3, 255) as u8,
        b: parse_field(line, s4, e4, 255) as u8,
    }
}

/// The views of a list of lines.
pub open spec fn line_views(lines: Seq<Vec<u8>>) -> Seq<Seq<u8>> {
    lines.map_values(|l: Vec<u8>| l@)
}

/// The cells the kept lines denote, in input order.
pub open spec fn kept_cells(lines: Seq<Seq<u8>>) -> Seq<DrawingCell>
    decreases lines.len(),
{
    if lines.len() == 0 {
        Seq::empty()
    } else if line_kept(lines.last()) {
        kept_cells(lines.drop_last()).push(cell_of_line(lines.last()))
    } else {
        kept_cells(lines.drop_last())
    }
}

/// The bounding box of the cells: the componentwise minimum and maximum of
/// their coordinates, with both corners at the origin for an empty sequence.
pub open spec fn bbox_fold(cells: Seq<DrawingCell>) -> (DrawingCoords, DrawingCoords)
    decreases cells.len(),
{
    if cells.len() == 0 {
        (DrawingCoords { x: 0, y: 0 }, DrawingCoords { x: 0, y: 0 })
    } else if cells.len() == 1 {
        let c = cells.last();
        (DrawingCoords { x: c.x, y: c.y }, DrawingCoords { x: c.x, y: c.y })
    } else {
        let (mn, mx) = bbox_fold(cells.drop_last());
        let c = cells.last();
        (
            DrawingCoords {
                x: if c.x < mn.x {
                    c.x
                } else {
                    mn.x
                },
                y: if c.y < mn.y {
                    c.y
                } else {
                    mn.y
                },
            },
            DrawingCoords {
                x: if c.x > mx.x {
                    c.x
                } else {
                    mx.x
                },
                y: if c.y > mx.y {
                    c.y
                } else {
                    mx.y
                },
            },
        )
    }
}

/// Parse the whole asset: keep the cells of the lines that pass the
/// zero-sentinel rule and fold the bounding box over them.
#[verifier::loop_isolation(false)]
pub fn build_drawing_data(lines: &Vec<Vec<u8>>) -> (r: DrawingData)
    ensures
        r.data@ == kept_cells(line_views(lines@)),
        (r.min_coords, r.max_coords) == bbox_fold(kept_cells(line_views(lines@))),
{
    let mut data: Vec<DrawingCell> = Vec::new();
    let mut min_coords = DrawingCoords { x: 0, y: 0 };
    let mut max_coords = DrawingCoords { x: 0, y: 0 };
    let mut i: usize = 0;
    while i < lines.len()
        invariant
            0 <= i <= lines@.len(),
            data@ == kept_cells(line_views(lines@).subrange(0, i as int)),
            (min_coords, max_coords) == bbox_fold(data@),
        decreases lines@.len() - i,
    {
        let ghost pref = line_views(lines@).subrange(0, i as int);
        let ghost pref2 = line_views(lines@).subrange(0, i as int + 1);
        proof {
            assert(pref2.drop_last() =~= pref);
            assert(pref2.last() == lines@[i as int]@);
        }
        let drawing_cell = parse_drawing_line(&lines[i]);
        if !(drawing_cell.x == 0 || drawing_cell.y == 0) {
            if data.len() == 0 {
                min_coords = DrawingCoords { x: drawing_cell.x, y: drawing_cell.y };
                max_coords = DrawingCoords { x: drawing_cell.x, y: drawing_cell.y };
            } else {
                if drawing_cell.x < min_coords.x {
                    min_coords.x = drawing_cell.x;
                }
                if drawing_cell.y < min_coords.y {
                    min_coords.y = drawing_cell.y;
                }
                if drawing_cell.x > max_coords.x {
                    max_coords.x = drawing_cell.x;
                }
                if drawing_cell.y > max_coords.y {
                    max_coords.y = drawing_cell.y;
                }
            }
            data.push(drawing_cell);
            proof {
                assert(data@.drop_last() =~= kept_cells(pref));
            }
        }
        i = i + 1;
    }
    proof {
        assert(line_views(lines@).subrange(0, lines@.len() as int) =~= line_views(lines@));
    }
    DrawingData { data, min_coords, max_coords }
}

/// Whether the splash image, with the fixed 15-row menu below it, fits the
/// viewport: its width strictly under the viewport's width and its height
/// plus the menu strictly under the viewport's height.
pub fn splash_fits(d: &DrawingData, width: u16, height: u16) -> (r: bool)
    ensures
        r == ((d.max_coords.x as int - d.min_coords.x as int) < (width as int) && (
        d.max_coords.y as int + 15 - d.min_coords.y as int) < (height as int)),
{
    (d.max_coords.x as u32) < (d.min_coords.x as u32) + (width as u32)
        && (d.max_coords.y as u32) + 15 < (d.min_coords.y as u32) + (height as u32)
}

/// Where the splash image's origin goes: centered, leaving 5 columns of
/// slack and 15 rows for the menu, with odd remainders truncated toward the
/// top-left corner.
pub fn splash_offsets(d: &DrawingData, width: u16, height: u16) -> (r: (u16, u16))
    requires
        d.max_coords.x as int - d.min_coords.x as int + 5 <= width as int,
        d.max_coords.y as int - d.min_coords.y as int + 15 <= height as int,
        d.min_coords.x <= d.max_coords.x,
        d.min_coords.y <= d.max_coords.y,
    ensures
        r.0 as int == (width as int - (d.max_coords.x as int - d.min_coords.x as int) - 5) / 2,
        r.1 as int == (height as int - (d.max_coords.y as int - d.min_coords.y as int) - 15) / 2,
{
    let drawing_width = d.max_coords.x - d.min_coords.x;
    let drawing_height = d.max_coords.y - d.min_coords.y;
    ((width - drawing_width - 5) / 2, (height - drawing_height - 15) / 2)
}

/// Where the help panel's top-left corner goes: horizontally centered for
/// its 21-column width (clamped to the left edge on narrow viewports), and
/// either centered vertically for its 10 rows or two rows under the splash.
pub fn help_panel_origin(width: u16, height: u16, splash_bottom: u16) -> (r: (u16, u16))
    requires
        splash_bottom as int + 2 <= u16::MAX as int,
    ensures
        r.0 as int == if width >= 14 {
            (width as int - 14) / 2
        } else {
            0
        },
        r.1 as int == if splash_bottom == 0 {
            if height >= 10 {
                (height as int - 10) / 2
            } else {
                0
            }
        } else {
            splash_bottom as int + 2
        },
{
    let x = if width >= 14 {
        (width - 14) / 2
    } else {
        0
    };
    let y = if splash_bottom == 0 {
        if height >= 10 {
            (height - 10) / 2
        } else {
            0
        }
    } else {
        splash_bottom + 2
    };
    (x, y)
}

} // verus!
