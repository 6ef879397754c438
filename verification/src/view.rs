//! What the control panel shows: colours, texts, rows and the spectrum.

use crate::config::AudioRuntimeConfig;
use crate::text;
use crate::tui::Selected;
use vstd::prelude::*;

verus! {

/// The colours of the panel.
#[derive(Clone, Copy, Debug, PartialEq, Eq, Structural)]
pub enum Color {
    Cyan,
    Green,
    Yellow,
    Magenta,
    Red,
    DarkGray,
}

/// The colour of a playback state.
pub fn playback_color(playback: &str) -> (r: Color)
    ensures
        playback@ == "Playing"@ ==> r == Color::Green,
        playback@ == "Stopped"@ ==> r == Color::Red,
        playback@ != "Playing"@ && playback@ != "Stopped"@ ==> r == Color::Yellow,
{
    if text::same(playback, "Playing") {
        proof {
            reveal_strlit("Playing");
            reveal_strlit("Stopped");
            assert("Playing"@[0] != "Stopped"@[0]);
        }
        Color::Green
    } else if text::same(playback, "Stopped") {
        Color::Red
    } else {
        Color::Yellow
    }
}

/// The colour of the buffer gauge: whether the fill is near its target, and
/// whether it is tolerable at all.
pub fn fill_color(near_target: bool, tolerable: bool) -> (r: Color)
    ensures
        near_target ==> r == Color::Green,
        !near_target && tolerable ==> r == Color::Yellow,
        !near_target && !tolerable ==> r == Color::Red,
{
    if near_target {
        Color::Green
    } else if tolerable {
        Color::Yellow
    } else {
        Color::Red
    }
}

/// The text that describes the output: its rate and format, or a dash while
/// there is none.
pub fn output_text(rate: u32, format: &str) -> (r: String)
    ensures
        rate > 0 ==> r@ == text::decimal(rate as nat) + " Hz \u{b7} "@ + format@ + " \u{b7} 6ch"@,
        rate == 0 ==> r@ == "\u{2014}"@,
{
    if rate > 0 {
        let a = text::joined(text::decimal_of(rate as u64).as_str(), " Hz \u{b7} ");
        let b = text::joined(a.as_str(), format);
        text::joined(b.as_str(), " \u{b7} 6ch")
    } else {
        "\u{2014}".to_owned()
    }
}

/// The title of the spectrum: its range up to half the rate, in whole kHz, once
/// the rate is known.
pub fn spectrum_title(rate: u32) -> (r: String)
    ensures
        rate > 0 ==> r@ == " Spectrum  (20 Hz \u{2013} "@ + text::decimal((rate / 2 / 1000) as nat)
            + " kHz) "@,
        rate == 0 ==> r@ == " Spectrum "@,
{
    if rate > 0 {
        let khz = text::decimal_of((rate / 2 / 1000) as u64);
        let a = text::joined(" Spectrum  (20 Hz \u{2013} ", khz.as_str());
        text::joined(a.as_str(), " kHz) ")
    } else {
        " Spectrum ".to_owned()
    }
}

/// The last line: an error in red, or else the keys.
pub fn footer(last_error: Option<&str>) -> (r: (String, Color))
    ensures
        match last_error {
            Some(e) => r.0@ == " "@ + e@ + " "@ && r.1 == Color::Red,
            None => {
                &&& r.0@
                    == " 1-4: gains  5-6: cutoffs  m: mute  s: solo  b: bypass  Tab/\u{2191}\u{2193}: sel  \u{2190}\u{2192}: adjust  Shift: fine  0: reset  r: all"@
                &&& r.1 == Color::DarkGray
            },
        },
{
    match last_error {
        Some(e) => (text::joined(text::joined(" ", e).as_str(), " "), Color::Red),
        None => (
            " 1-4: gains  5-6: cutoffs  m: mute  s: solo  b: bypass  Tab/\u{2191}\u{2193}: sel  \u{2190}\u{2192}: adjust  Shift: fine  0: reset  r: all".to_owned(),
            Color::DarkGray,
        ),
    }
}

// ---------------------------------------------------------------------------
// Rows
// ---------------------------------------------------------------------------
/// A row of the gains: the value, its colour, and the switches of its band.
#[derive(Clone, Copy, Debug)]
pub struct GainRow<R> {
    pub sel: Selected,
    pub value: R,
    pub color: Color,
    pub selected: bool,
    /// The row shows switches.
    pub switches: bool,
    pub mute: bool,
    pub solo: bool,
    pub bypass: bool,
}

/// A row of the cut frequencies.
#[derive(Clone, Copy, Debug)]
pub struct CutRow<R> {
    pub sel: Selected,
    pub value: R,
    pub color: Color,
    pub selected: bool,
}

/// The row of the gain at this place.
pub open spec fn gain_row<R>(
    cfg: AudioRuntimeConfig<R>,
    selected: Selected,
    i: int,
) -> GainRow<R> {
    if i == 0 {
        GainRow {
            sel: Selected::Master,
            value: cfg.volume,
            color: Color::Cyan,
            selected: selected == Selected::Master,
            switches: false,
            mute: false,
            solo: false,
            bypass: false,
        }
    } else if i == 1 {
        GainRow {
            sel: Selected::Low,
            value: cfg.low_gain,
            color: Color::Green,
            selected: selected == Selected::Low,
            switches: true,
            mute: cfg.low_mute,
            solo: cfg.low_solo,
            bypass: cfg.low_bypass,
        }
    } else if i == 2 {
        GainRow {
            sel: Selected::Mid,
            value: cfg.mid_gain,
            color: Color::Yellow,
            selected: selected == Selected::Mid,
            switches: true,
            mute: cfg.mid_mute,
            solo: cfg.mid_solo,
            bypass: cfg.mid_bypass,
        }
    } else {
        GainRow {
            sel: Selected::High,
            value: cfg.high_gain,
            color: Color::Magenta,
            selected: selected == Selected::High,
            switches: true,
            mute: cfg.high_mute,
            solo: cfg.high_solo,
            bypass: cfg.high_bypass,
        }
    }
}

/// The rows of the gains.
pub fn gain_rows<R: Copy>(cfg: &AudioRuntimeConfig<R>, selected: Selected) -> (r: Vec<GainRow<R>>)
    ensures
        r@.len() == 4,
        forall|i: int| 0 <= i < 4 ==> #[trigger] r@[i] == gain_row(*cfg, selected, i),
{
    let mut rows: Vec<GainRow<R>> = Vec::new();
    rows.push(
        GainRow {
            sel: Selected::Master,
            value: cfg.volume,
            color: Color::Cyan,
            selected: selected == Selected::Master,
            switches: false,
            mute: false,
            solo: false,
            bypass: false,
        },
    );
    rows.push(
        GainRow {
            sel: Selected::Low,
            value: cfg.low_gain,
            color: Color::Green,
            selected: selected == Selected::Low,
            switches: true,
            mute: cfg.low_mute,
            solo: cfg.low_solo,
            bypass: cfg.low_bypass,
        },
    );
    rows.push(
        GainRow {
            sel: Selected::Mid,
            value: cfg.mid_gain,
            color: Color::Yellow,
            selected: selected == Selected::Mid,
            switches: true,
            mute: cfg.mid_mute,
            solo: cfg.mid_solo,
            bypass: cfg.mid_bypass,
        },
    );
    rows.push(
        GainRow {
            sel: Selected::High,
            value: cfg.high_gain,
            color: Color::Magenta,
            selected: selected == Selected::High,
            switches: true,
            mute: cfg.high_mute,
            solo: cfg.high_solo,
            bypass: cfg.high_bypass,
        },
    );
    rows
}

/// The rows of the cut frequencies.
pub fn cut_rows<R: Copy>(cfg: &AudioRuntimeConfig<R>, selected: Selected) -> (r: Vec<CutRow<R>>)
    ensures
        r@ == seq![
            CutRow {
                sel: Selected::LowCut,
                value: cfg.low_cut_hz,
                color: Color::Green,
                selected: selected == Selected::LowCut,
            },
            CutRow {
                sel: Selected::MidCut,
                value: cfg.mid_cut_hz,
                color: Color::Yellow,
                selected: selected == Selected::MidCut,
            },
        ],
{
    let mut rows: Vec<CutRow<R>> = Vec::new();
    rows.push(
        CutRow {
            sel: Selected::LowCut,
            value: cfg.low_cut_hz,
            color: Color::Green,
            selected: selected == Selected::LowCut,
        },
    );
    rows.push(
        CutRow {
            sel: Selected::MidCut,
            value: cfg.mid_cut_hz,
            color: Color::Yellow,
            selected: selected == Selected::MidCut,
        },
    );
    rows
}

/// The colours of the mute, solo and bypass badges of a row.
pub fn badge_colors<R>(row: &GainRow<R>) -> (r: (Color, Color, Color))
    ensures
        r.0 == (if row.mute {
            Color::Red
        } else {
            Color::DarkGray
        }),
        r.1 == (if row.solo {
            Color::Yellow
        } else {
            Color::DarkGray
        }),
        r.2 == (if row.bypass {
            Color::Cyan
        } else {
            Color::DarkGray
        }),
{
    (
        if row.mute {
            Color::Red
        } else {
            Color::DarkGray
        },
        if row.solo {
            Color::Yellow
        } else {
            Color::DarkGray
        },
        if row.bypass {
            Color::Cyan
        } else {
            Color::DarkGray
        },
    )
}

/// `s` with spaces behind it, up to this width.
pub open spec fn padded(s: Seq<char>, width: int) -> Seq<char> {
    if s.len() < width {
        s + Seq::new((width - s.len()) as nat, |i: int| ' ')
    } else {
        s
    }
}

/// The start of a row: a marker where it is selected, the name of the value in a
/// column of this width, and spaces between.
pub fn row_prefix(sel: Selected, selected: bool, width: usize) -> (r: String)
    ensures
        r@ == (if selected {
            "> "@
        } else {
            "  "@
        }) + padded(sel.spec_label(), width as int) + " "@,
{
    let mut r = if selected {
        "> ".to_owned()
    } else {
        "  ".to_owned()
    };
    let label = sel.label();
    let n: usize = text::chars_of(label).len();
    let ghost head = r@;
    r.append(label);
    let mut k: usize = n;
    proof {
        assert(head + (label@ + Seq::new(0, |i: int| ' ')) == r@);
    }
    while k < width
        invariant
            n == label@.len(),
            n <= k,
            n <= width ==> k <= width,
            n >= width ==> k == n,
            r@ == head + (label@ + Seq::new((k - n) as nat, |i: int| ' ')),
        decreases width - k,
    {
        r.push(' ');
        k += 1;
        proof {
            assert(r@ == head + (label@ + Seq::new((k - n) as nat, |i: int| ' ')));
        }
    }
    proof {
        assert(label@ + Seq::new(0, |i: int| ' ') == label@);
        assert(r@ == head + padded(label@, width as int));
    }
    r.append(" ");
    r
}

// ---------------------------------------------------------------------------
// Spectrum
// ---------------------------------------------------------------------------
/// The bins that a column shows, from the first up to but without the last. The
/// two positions on the scale are cut so that every column shows at least one
/// bin and no bin that is not there.
pub open spec fn shown_bins(start: int, end: int, n_bins: int) -> (int, int) {
    let last = if end <= 0 {
        1
    } else if end <= n_bins {
        end
    } else {
        n_bins
    };
    (
        if start < last {
            start
        } else {
            last - 1
        },
        last,
    )
}

/// The bins that a column shows.
pub fn bin_range(start: usize, end: usize, n_bins: usize) -> (r: (usize, usize))
    requires
        n_bins > 0,
    ensures
        r.0 < r.1 <= n_bins,
        (r.0 as int, r.1 as int) == shown_bins(start as int, end as int, n_bins as int),
{
    let b1: usize = if end < n_bins {
        end
    } else {
        n_bins
    };
    let last: usize = if b1 == 0 {
        0
    } else {
        b1 - 1
    };
    let b0: usize = if start < last {
        start
    } else {
        last
    };
    let b1: usize = if b1 > b0 + 1 {
        b1
    } else {
        b0 + 1
    };
    (
        b0,
        if b1 < n_bins {
            b1
        } else {
            n_bins
        },
    )
}

/// The colour of a column: that of its band.
pub open spec fn column_color(col: int, low_col: int, mid_col: int) -> Color {
    if col < low_col {
        Color::Green
    } else if col < mid_col {
        Color::Yellow
    } else {
        Color::Magenta
    }
}

/// The bar of a column: so many full cells, and a part of the cell above, in
/// eighths, where there is one.
#[derive(Clone, Copy, Debug, PartialEq, Eq, Structural)]
pub struct Bar {
    pub cells: usize,
    pub part: Option<usize>,
}

/// A cell of the spectrum: its character, and its colour where it is lit.
#[derive(Clone, Copy, Debug, PartialEq, Eq, Structural)]
pub struct Cell {
    pub glyph: char,
    pub color: Option<Color>,
}

/// The block that fills so many eighths of a cell, seven at most.
pub open spec fn block(eighths: int) -> char {
    if eighths <= 0 {
        ' '
    } else if eighths == 1 {
        '\u{2581}'
    } else if eighths == 2 {
        '\u{2582}'
    } else if eighths == 3 {
        '\u{2583}'
    } else if eighths == 4 {
        '\u{2584}'
    } else if eighths == 5 {
        '\u{2585}'
    } else if eighths == 6 {
        '\u{2586}'
    } else {
        '\u{2587}'
    }
}

/// The cell of a bar at a height, counted from the bottom.
pub open spec fn bar_cell(bar: Bar, height: int, color: Color) -> Cell {
    if height < bar.cells {
        Cell { glyph: '\u{2588}', color: Some(color) }
    } else {
        match bar.part {
            Some(eighths) if height == bar.cells => Cell {
                glyph: block(eighths as int),
                color: Some(color),
            },
            _ => Cell { glyph: ' ', color: None },
        }
    }
}

fn block_of(eighths: usize) -> (r: char)
    ensures
        r == block(eighths as int),
{
    match eighths {
        0 => ' ',
        1 => '\u{2581}',
        2 => '\u{2582}',
        3 => '\u{2583}',
        4 => '\u{2584}',
        5 => '\u{2585}',
        6 => '\u{2586}',
        _ => '\u{2587}',
    }
}

/// The cell of a bar at a height, counted from the bottom.
pub fn cell_at(bar: Bar, height: usize, color: Color) -> (r: Cell)
    ensures
        r == bar_cell(bar, height as int, color),
{
    if height < bar.cells {
        Cell { glyph: '\u{2588}', color: Some(color) }
    } else {
        match bar.part {
            Some(eighths) => if height == bar.cells {
                Cell { glyph: block_of(eighths), color: Some(color) }
            } else {
                Cell { glyph: ' ', color: None }
            },
            None => Cell { glyph: ' ', color: None },
        }
    }
}

/// The colour of a column.
pub fn color_of_column(col: usize, low_col: usize, mid_col: usize) -> (r: Color)
    ensures
        r == column_color(col as int, low_col as int, mid_col as int),
{
    if col < low_col {
        Color::Green
    } else if col < mid_col {
        Color::Yellow
    } else {
        Color::Magenta
    }
}

/// `peak` may be what is left of the levels when the louder of two is taken again
/// and again, from `floor` on.
pub open spec fn peaks<R, X: Fn(R, R) -> R>(louder: X, levels: Seq<R>, floor: R, peak: R) -> bool
    decreases levels.len(),
{
    if levels.len() == 0 {
        peak == floor
    } else {
        exists|before: R|
            peaks(louder, levels.drop_last(), floor, before) && #[trigger] call_ensures(
                louder,
                (before, levels.last()),
                peak,
            )
    }
}

/// The peak of the levels from `from` up to `to`.
pub fn peak_of<R: Copy, X: Fn(R, R) -> R>(
    levels: &Vec<R>,
    from: usize,
    to: usize,
    floor: R,
    louder: &X,
) -> (peak: R)
    requires
        from <= to <= levels@.len(),
        forall|a: R, b: R| #[trigger] call_requires(*louder, (a, b)),
    ensures
        peaks(*louder, levels@.subrange(from as int, to as int), floor, peak),
{
    let mut peak = floor;
    let mut i: usize = from;
    while i < to
        invariant
            from <= i <= to <= levels@.len(),
            forall|a: R, b: R| #[trigger] call_requires(*louder, (a, b)),
            peaks(*louder, levels@.subrange(from as int, i as int), floor, peak),
        decreases to - i,
    {
        let before = peak;
        peak = louder(before, levels[i]);
        proof {
            let seen = levels@.subrange(from as int, i + 1);
            assert(seen.drop_last() == levels@.subrange(from as int, i as int));
            assert(peaks(*louder, seen.drop_last(), floor, before));
            assert(call_ensures(*louder, (before, seen.last()), peak));
            assert(peaks(*louder, seen, floor, peak));
        }
        i += 1;
    }
    peak
}

/// `bar` may be the bar of a column: the bar of the peak of the bins that the
/// column shows, which lie between the positions of this column and of the next
/// one on the scale.
pub open spec fn column_shown<R, P: Fn(usize) -> usize, X: Fn(R, R) -> R, B: Fn(R) -> Bar>(
    bins: Seq<R>,
    col: usize,
    scale: P,
    floor: R,
    louder: X,
    bar_of: B,
    bar: Bar,
) -> bool {
    exists|start: usize, end: usize, peak: R|
        {
            &&& #[trigger] call_ensures(scale, (col,), start)
            &&& #[trigger] call_ensures(scale, ((col + 1) as usize,), end)
            &&& peaks(louder, shown_levels(bins, start, end), floor, peak)
            &&& #[trigger] call_ensures(bar_of, (peak,), bar)
        }
}

/// The levels of the bins that a column between these positions shows.
pub open spec fn shown_levels<R>(bins: Seq<R>, start: usize, end: usize) -> Seq<R> {
    let range = shown_bins(start as int, end as int, bins.len() as int);
    bins.subrange(range.0, range.1)
}

/// The bars of the columns. `scale` gives the position of a column among the
/// bins, `louder` the louder of two levels, and `bar_of` the bar of a level.
pub fn column_bars<R: Copy, P: Fn(usize) -> usize, X: Fn(R, R) -> R, B: Fn(R) -> Bar>(
    bins: &Vec<R>,
    cols: usize,
    scale: &P,
    floor: R,
    louder: &X,
    bar_of: &B,
) -> (r: Vec<Bar>)
    requires
        bins@.len() > 0,
        forall|col: usize| #[trigger] call_requires(*scale, (col,)),
        forall|a: R, b: R| #[trigger] call_requires(*louder, (a, b)),
        forall|level: R| #[trigger] call_requires(*bar_of, (level,)),
    ensures
        r@.len() == cols,
        forall|col: usize|
            #![trigger r@[col as int]]
            col < cols ==> column_shown(
                bins@,
                col,
                *scale,
                floor,
                *louder,
                *bar_of,
                r@[col as int],
            ),
{
    let mut bars: Vec<Bar> = Vec::new();
    let mut col: usize = 0;
    while col < cols
        invariant
            col <= cols,
            bins@.len() > 0,
            bars@.len() == col,
            forall|c: usize| #[trigger] call_requires(*scale, (c,)),
            forall|a: R, b: R| #[trigger] call_requires(*louder, (a, b)),
            forall|level: R| #[trigger] call_requires(*bar_of, (level,)),
            forall|c: usize|
                #![trigger bars@[c as int]]
                c < col ==> column_shown(
                    bins@,
                    c,
                    *scale,
                    floor,
                    *louder,
                    *bar_of,
                    bars@[c as int],
                ),
        decreases cols - col,
    {
        let start: usize = scale(col);
        let end: usize = scale(col + 1);
        let (from, to) = bin_range(start, end, bins.len());
        let peak = peak_of(bins, from, to, floor, louder);
        let bar = bar_of(peak);
        proof {
            assert(shown_levels(bins@, start, end) == bins@.subrange(from as int, to as int));
            assert(column_shown(bins@, col, *scale, floor, *louder, *bar_of, bar));
        }
        bars.push(bar);
        col += 1;
    }
    bars
}

/// The cells of the spectrum, row by row from the top; each row has a cell for
/// every column.
pub fn spectrum_grid(bars: &Vec<Bar>, rows: usize, low_col: usize, mid_col: usize) -> (r: Vec<
    Vec<Cell>,
>)
    ensures
        r@.len() == rows,
        forall|row: int| 0 <= row < rows ==> (#[trigger] r@[row])@.len() == bars@.len(),
        forall|row: int, col: int|
            0 <= row < rows && 0 <= col < bars@.len() ==> #[trigger] r@[row]@[col] == bar_cell(
                bars@[col],
                rows - 1 - row,
                column_color(col, low_col as int, mid_col as int),
            ),
{
    let mut grid: Vec<Vec<Cell>> = Vec::new();
    let mut row: usize = 0;
    while row < rows
        invariant
            row <= rows,
            grid@.len() == row,
            forall|i: int| 0 <= i < row ==> (#[trigger] grid@[i])@.len() == bars@.len(),
            forall|i: int, col: int|
                0 <= i < row && 0 <= col < bars@.len() ==> #[trigger] grid@[i]@[col] == bar_cell(
                    bars@[col],
                    rows - 1 - i,
                    column_color(col, low_col as int, mid_col as int),
                ),
        decreases rows - row,
    {
        let mut line: Vec<Cell> = Vec::new();
        let mut col: usize = 0;
        while col < bars.len()
            invariant
                row < rows,
                col <= bars@.len(),
                line@.len() == col,
                forall|c: int|
                    0 <= c < col ==> #[trigger] line@[c] == bar_cell(
                        bars@[c],
                        rows - 1 - row,
                        column_color(c, low_col as int, mid_col as int),
                    ),
            decreases bars@.len() - col,
        {
            line.push(cell_at(bars[col], rows - 1 - row, color_of_column(col, low_col, mid_col)));
            col += 1;
        }
        grid.push(line);
        row += 1;
    }
    grid
}

/// A bar stands on the bottom without a gap: below a lit cell every cell is
/// lit, and fully so.
pub proof fn bars_have_no_gaps(bar: Bar, height: int, below: int, color: Color)
    requires
        0 <= below < height,
        bar_cell(bar, height, color).color is Some,
    ensures
        bar_cell(bar, below, color) == (Cell { glyph: '\u{2588}', color: Some(color) }),
{
}

/// Bar `a` is not higher than bar `b`: it has fewer full cells, or as many and no
/// larger part of the cell above.
pub open spec fn at_most_as_high(a: Bar, b: Bar) -> bool {
    ||| a.cells < b.cells
    ||| a.cells == b.cells && match (a.part, b.part) {
        (Some(x), Some(y)) => x <= y,
        (Some(_), None) => false,
        (None, _) => true,
    }
}

/// A higher bar lights at least the cells of a lower one, and fills each of them
/// at least as far: the blocks are ordered by how much of a cell they fill. Where
/// it has more full cells, the cell in which the lower bar ends is full.
pub proof fn higher_bars_light_more(a: Bar, b: Bar, height: int, color: Color)
    requires
        at_most_as_high(a, b),
    ensures
        bar_cell(a, height, color).color is Some ==> bar_cell(b, height, color).color is Some,
        bar_cell(a, height, color).glyph <= bar_cell(b, height, color).glyph,
        a.cells < b.cells ==> bar_cell(b, a.cells as int, color) == (Cell {
            glyph: '\u{2588}',
            color: Some(color),
        }),
{
}

/// The blocks are ordered by how many eighths of a cell they fill.
pub proof fn more_eighths_fill_more(x: int, y: int)
    requires
        x <= y,
    ensures
        block(x) <= block(y) < '\u{2588}',
        0 <= x < y <= 7 ==> block(x) < block(y),
{
}

/// A bar with as many full cells as there are rows fills its column, and a bar
/// without any cell or part leaves it blank.
pub proof fn bars_span_their_column(bar: Bar, rows: int, height: int, color: Color)
    requires
        0 <= height < rows,
    ensures
        rows <= bar.cells ==> bar_cell(bar, height, color) == (Cell {
            glyph: '\u{2588}',
            color: Some(color),
        }),
        bar.cells == 0 && bar.part is None ==> bar_cell(bar, height, color) == (Cell {
            glyph: ' ',
            color: None,
        }),
{
}

/// `louder` gives one of two levels, and neither of the two is above it, where
/// both are `sound`: levels that the order `le` compares.
pub open spec fn takes_the_louder<R, X: Fn(R, R) -> R>(
    louder: X,
    le: spec_fn(R, R) -> bool,
    sound: spec_fn(R) -> bool,
) -> bool {
    &&& forall|a: R, b: R, m: R|
        #[trigger] call_ensures(louder, (a, b), m) && sound(a) && sound(b) ==> {
            &&& m == a || m == b
            &&& le(a, m)
            &&& le(b, m)
        }
    &&& forall|a: R| #[trigger] sound(a) ==> le(a, a)
    &&& forall|a: R, b: R, c: R|
        #[trigger] le(a, b) && #[trigger] le(b, c) && sound(a) && sound(b) && sound(c) ==> le(a, c)
}

/// A louder level has no lower bar.
pub open spec fn bars_rise<R, B: Fn(R) -> Bar>(
    bar_of: B,
    le: spec_fn(R, R) -> bool,
    sound: spec_fn(R) -> bool,
) -> bool {
    forall|p: R, q: R, a: Bar, b: Bar|
        #[trigger] call_ensures(bar_of, (p,), a) && #[trigger] call_ensures(bar_of, (q,), b)
            && sound(p) && sound(q) && le(p, q) ==> at_most_as_high(a, b)
}

/// The peak is the loudest level: none of the levels is above it, and it is one of
/// them, or the floor.
pub proof fn the_peak_is_the_loudest<R, X: Fn(R, R) -> R>(
    louder: X,
    le: spec_fn(R, R) -> bool,
    sound: spec_fn(R) -> bool,
    levels: Seq<R>,
    floor: R,
    peak: R,
)
    requires
        takes_the_louder(louder, le, sound),
        sound(floor),
        forall|i: int| 0 <= i < levels.len() ==> sound(#[trigger] levels[i]),
        peaks(louder, levels, floor, peak),
    ensures
        sound(peak),
        le(floor, peak),
        forall|i: int| 0 <= i < levels.len() ==> le(#[trigger] levels[i], peak),
        peak == floor || levels.contains(peak),
    decreases levels.len(),
{
    if levels.len() > 0 {
        let init = levels.drop_last();
        let last = levels.last();
        let before = choose|before: R|
            peaks(louder, init, floor, before) && #[trigger] call_ensures(
                louder,
                (before, last),
                peak,
            );
        assert(levels[levels.len() - 1] == last);
        assert forall|i: int| 0 <= i < init.len() implies sound(#[trigger] init[i]) by {
            assert(init[i] == levels[i]);
        }
        the_peak_is_the_loudest(louder, le, sound, init, floor, before);
        assert forall|i: int| 0 <= i < levels.len() implies le(#[trigger] levels[i], peak) by {
            if i < init.len() {
                assert(init[i] == levels[i]);
                assert(le(init[i], before) && le(before, peak));
            }
        }
        assert(le(floor, before) && le(before, peak));
        if peak == before && peak != floor {
            let i = choose|i: int| 0 <= i < init.len() && init[i] == peak;
            assert(levels[i] == peak);
        }
    }
}

/// Raising levels never lowers a bar: where every level of the one spectrum is at
/// most that of the other, so is the bar of every column.
pub proof fn raising_bins_lowers_no_bar<
    R,
    P: Fn(usize) -> usize,
    X: Fn(R, R) -> R,
    B: Fn(R) -> Bar,
>(
    le: spec_fn(R, R) -> bool,
    sound: spec_fn(R) -> bool,
    bins: Seq<R>,
    raised: Seq<R>,
    col: usize,
    scale: P,
    floor: R,
    louder: X,
    bar_of: B,
    bar: Bar,
    raised_bar: Bar,
)
    requires
        takes_the_louder(louder, le, sound),
        bars_rise(bar_of, le, sound),
        forall|c: usize, x: usize, y: usize|
            #[trigger] call_ensures(scale, (c,), x) && #[trigger] call_ensures(scale, (c,), y)
                ==> x == y,
        sound(floor),
        bins.len() > 0,
        raised.len() == bins.len(),
        forall|i: int|
            0 <= i < bins.len() ==> sound(#[trigger] bins[i]) && sound(raised[i]) && le(
                bins[i],
                raised[i],
            ),
        column_shown(bins, col, scale, floor, louder, bar_of, bar),
        column_shown(raised, col, scale, floor, louder, bar_of, raised_bar),
    ensures
        at_most_as_high(bar, raised_bar),
{
    let (s1, e1, p) = choose|start: usize, end: usize, peak: R|
        {
            &&& #[trigger] call_ensures(scale, (col,), start)
            &&& #[trigger] call_ensures(scale, ((col + 1) as usize,), end)
            &&& peaks(louder, shown_levels(bins, start, end), floor, peak)
            &&& #[trigger] call_ensures(bar_of, (peak,), bar)
        };
    let (s2, e2, q) = choose|start: usize, end: usize, peak: R|
        {
            &&& #[trigger] call_ensures(scale, (col,), start)
            &&& #[trigger] call_ensures(scale, ((col + 1) as usize,), end)
            &&& peaks(louder, shown_levels(raised, start, end), floor, peak)
            &&& #[trigger] call_ensures(bar_of, (peak,), raised_bar)
        };
    assert(s1 == s2 && e1 == e2);
    let xs = shown_levels(bins, s1, e1);
    let ys = shown_levels(raised, s1, e1);
    let range = shown_bins(s1 as int, e1 as int, bins.len() as int);
    assert forall|i: int| 0 <= i < xs.len() implies sound(#[trigger] xs[i]) && sound(ys[i]) && le(
        xs[i],
        ys[i],
    ) by {
        assert(xs[i] == bins[range.0 + i]);
        assert(ys[i] == raised[range.0 + i]);
    }
    assert forall|i: int| 0 <= i < ys.len() implies sound(#[trigger] ys[i]) by {
        assert(sound(xs[i]));
    }
    the_peak_is_the_loudest(louder, le, sound, xs, floor, p);
    the_peak_is_the_loudest(louder, le, sound, ys, floor, q);
    if p != floor {
        let i = choose|i: int| 0 <= i < xs.len() && xs[i] == p;
        assert(le(xs[i], ys[i]) && le(ys[i], q));
    }
    assert(le(p, q));
}

/// The columns from left to right show the low, the mid and the high band, in
/// this order.
pub proof fn bands_stand_in_order(a: int, b: int, low_col: int, mid_col: int)
    requires
        a <= b,
    ensures
        column_color(a, low_col, mid_col) == Color::Magenta ==> column_color(b, low_col, mid_col)
            == Color::Magenta,
        column_color(b, low_col, mid_col) == Color::Green ==> column_color(a, low_col, mid_col)
            == Color::Green,
{
}

/// Whether there is a spectrum to draw: some bins, and an area to draw on.
pub fn spectrum_ready(n_bins: usize, width: u16, height: u16) -> (r: bool)
    ensures
        r == (n_bins > 0 && width > 0 && height > 0),
{
    n_bins > 0 && width > 0 && height > 0
}

} // verus!
