//! Laws of what the control panel shows.

use crate::config::AudioRuntimeConfig;
use crate::laws::panel::{chosen, on_a_band};
use crate::text::decimal_of;
use crate::tui::Selected;
use crate::view::{
    at_most_as_high, badge_colors, bars_rise, bin_range, cell_at, color_of_column, column_bars,
    column_shown, cut_rows, fill_color, footer, gain_row, gain_rows, output_text, padded, peak_of,
    peaks, playback_color, row_prefix, shown_levels, spectrum_grid, spectrum_ready, spectrum_title,
    takes_the_louder, the_peak_is_the_loudest, Bar, Cell, Color, CutRow, GainRow,
};
use vstd::prelude::*;

verus! {

// ---------------------------------------------------------------------------
// Columns and bins
// ---------------------------------------------------------------------------
/// A column shows exactly the bins between its position and the next, as far as they
/// are there; where there is none between, it shows the last bin before the next
/// position, or the first bin of all.
pub proof fn columns_show_what_lies_between(start: usize, end: usize, n: usize, r: (usize, usize))
    requires
        n > 0,
        call_ensures(bin_range, (start, end, n), r),
    ensures
        start < end <= n ==> r.0 == start && r.1 == end,
        start < n <= end ==> r.0 == start && r.1 == n,
        start >= n <= end ==> r.0 == n - 1 && r.1 == n,
        0 < end <= n && end <= start ==> r.0 == end - 1 && r.1 == end,
        end == 0 ==> r.0 == 0 && r.1 == 1,
{
}

/// The peak of some levels is one of them or the floor, and none of them and not
/// the floor is above it.
pub proof fn the_loudest_is_found<R: Copy, X: Fn(R, R) -> R>(
    levels: Vec<R>,
    from: usize,
    to: usize,
    floor: R,
    louder: X,
    peak: R,
    le: spec_fn(R, R) -> bool,
    sound: spec_fn(R) -> bool,
)
    requires
        from <= to <= levels@.len(),
        call_ensures(peak_of::<R, X>, (&levels, from, to, floor, &louder), peak),
        takes_the_louder(louder, le, sound),
        sound(floor),
        forall|i: int| 0 <= i < levels@.len() ==> sound(#[trigger] levels@[i]),
    ensures
        le(floor, peak),
        forall|i: int| from <= i < to ==> le(#[trigger] levels@[i], peak),
        peak == floor || exists|i: int| from <= i < to && #[trigger] levels@[i] == peak,
{
    let part = levels@.subrange(from as int, to as int);
    assert forall|i: int| 0 <= i < part.len() implies sound(#[trigger] part[i]) by {
        assert(part[i] == levels@[from + i]);
    }
    the_peak_is_the_loudest(louder, le, sound, part, floor, peak);
    assert forall|i: int| from <= i < to implies le(#[trigger] levels@[i], peak) by {
        assert(part[i - from] == levels@[i]);
    }
    if peak != floor {
        let k = choose|k: int| 0 <= k < part.len() && part[k] == peak;
        assert(levels@[from + k] == peak);
    }
}

/// `position` tells where each column stands among the bins.
pub open spec fn stands_at<P: Fn(usize) -> usize>(
    scale: P,
    position: spec_fn(int) -> int,
) -> bool {
    forall|col: usize, at: usize|
        #[trigger] call_ensures(scale, (col,), at) ==> at == position(col as int)
}

/// The bin with this number lies between the position of the column and the next.
pub open spec fn lies_in(bin: int, col: int, position: spec_fn(int) -> int) -> bool {
    position(col) <= bin < position(col + 1)
}

/// `bar` is the bar of a level that is the floor or one of the bins of the column.
pub open spec fn is_the_bar_of_one<R, B: Fn(R) -> Bar>(
    bins: Seq<R>,
    col: int,
    position: spec_fn(int) -> int,
    floor: R,
    bar_of: B,
    bar: Bar,
) -> bool {
    exists|level: R| #[trigger]
        call_ensures(bar_of, (level,), bar) && (level == floor || exists|bin: int|
            lies_in(bin, col, position) && 0 <= bin < bins.len() && #[trigger] bins[bin] == level)
}

proof fn lemma_column<R, P: Fn(usize) -> usize, X: Fn(R, R) -> R, B: Fn(R) -> Bar>(
    bins: Seq<R>,
    col: usize,
    scale: P,
    floor: R,
    louder: X,
    bar_of: B,
    bar: Bar,
    le: spec_fn(R, R) -> bool,
    sound: spec_fn(R) -> bool,
    position: spec_fn(int) -> int,
)
    requires
        bins.len() > 0,
        col < usize::MAX,
        column_shown(bins, col, scale, floor, louder, bar_of, bar),
        stands_at(scale, position),
        takes_the_louder(louder, le, sound),
        bars_rise(bar_of, le, sound),
        sound(floor),
        forall|i: int| 0 <= i < bins.len() ==> sound(#[trigger] bins[i]),
    ensures
        forall|bin: int, of_bin: Bar|
            0 <= bin < bins.len() && lies_in(bin, col as int, position) && #[trigger] call_ensures(
                bar_of,
                (bins[bin],),
                of_bin,
            ) ==> at_most_as_high(of_bin, bar),
        position(col as int) < position(col + 1) && position(col as int) < bins.len()
            ==> is_the_bar_of_one(bins, col as int, position, floor, bar_of, bar),
{
    let (start, end, peak) = choose|start: usize, end: usize, peak: R|
        {
            &&& #[trigger] call_ensures(scale, (col,), start)
            &&& #[trigger] call_ensures(scale, ((col + 1) as usize,), end)
            &&& peaks(louder, shown_levels(bins, start, end), floor, peak)
            &&& #[trigger] call_ensures(bar_of, (peak,), bar)
        };
    assert(start == position(col as int) && end == position(col + 1));
    let part = shown_levels(bins, start, end);
    let range = crate::view::shown_bins(start as int, end as int, bins.len() as int);
    assert forall|i: int| 0 <= i < part.len() implies sound(#[trigger] part[i]) by {
        assert(part[i] == bins[range.0 + i]);
    }
    the_peak_is_the_loudest(louder, le, sound, part, floor, peak);
    assert forall|bin: int, of_bin: Bar|
        0 <= bin < bins.len() && lies_in(bin, col as int, position) && #[trigger] call_ensures(
            bar_of,
            (bins[bin],),
            of_bin,
        ) implies at_most_as_high(of_bin, bar) by {
        assert(part[bin - range.0] == bins[bin]);
        assert(le(bins[bin], peak));
    }
    if start < end && start < bins.len() {
        if peak != floor {
            let k = choose|k: int| 0 <= k < part.len() && part[k] == peak;
            assert(bins[range.0 + k] == peak);
            assert(lies_in(range.0 + k, col as int, position));
        }
        assert(call_ensures(bar_of, (peak,), bar));
    }
}

/// There is a bar for every column. No bar is lower than that of any bin between the
/// positions of its column and the next, and it is the bar of one of these bins, or
/// of the floor.
pub proof fn bars_stand_for_their_bins<
    R: Copy,
    P: Fn(usize) -> usize,
    X: Fn(R, R) -> R,
    B: Fn(R) -> Bar,
>(
    bins: Vec<R>,
    cols: usize,
    scale: P,
    floor: R,
    louder: X,
    bar_of: B,
    r: Vec<Bar>,
    le: spec_fn(R, R) -> bool,
    sound: spec_fn(R) -> bool,
    position: spec_fn(int) -> int,
)
    requires
        bins@.len() > 0,
        call_ensures(
            column_bars::<R, P, X, B>,
            (&bins, cols, &scale, floor, &louder, &bar_of),
            r,
        ),
        stands_at(scale, position),
        takes_the_louder(louder, le, sound),
        bars_rise(bar_of, le, sound),
        sound(floor),
        forall|i: int| 0 <= i < bins@.len() ==> sound(#[trigger] bins@[i]),
    ensures
        r@.len() == cols,
        forall|col: int, bin: int, of_bin: Bar|
            0 <= col < cols && 0 <= bin < bins@.len() && #[trigger] lies_in(bin, col, position)
                && #[trigger] call_ensures(bar_of, (bins@[bin],), of_bin) ==> at_most_as_high(
                of_bin,
                r@[col],
            ),
        forall|col: int|
            0 <= col < cols && position(col) < position(col + 1) && position(col) < bins@.len()
                ==> is_the_bar_of_one(bins@, col, position, floor, bar_of, #[trigger] r@[col]),
{
    assert forall|col: int, bin: int, of_bin: Bar|
        0 <= col < cols && 0 <= bin < bins@.len() && #[trigger] lies_in(bin, col, position)
            && #[trigger] call_ensures(bar_of, (bins@[bin],), of_bin) implies at_most_as_high(
        of_bin,
        r@[col],
    ) by {
        let c = col as usize;
        assert(column_shown(bins@, c, scale, floor, louder, bar_of, r@[c as int]));
        lemma_column(bins@, c, scale, floor, louder, bar_of, r@[col], le, sound, position);
    }
    assert forall|col: int|
        0 <= col < cols && position(col) < position(col + 1) && position(col)
            < bins@.len() implies is_the_bar_of_one(
        bins@,
        col,
        position,
        floor,
        bar_of,
        #[trigger] r@[col],
    ) by {
        let c = col as usize;
        assert(column_shown(bins@, c, scale, floor, louder, bar_of, r@[c as int]));
        lemma_column(bins@, c, scale, floor, louder, bar_of, r@[col], le, sound, position);
    }
}

proof fn lemma_some_column(bin: int, cols: int, position: spec_fn(int) -> int) -> (col: int)
    requires
        0 <= cols,
        position(0) <= bin < position(cols),
    ensures
        0 <= col < cols,
        lies_in(bin, col, position),
    decreases cols,
{
    if position(cols - 1) <= bin {
        cols - 1
    } else {
        lemma_some_column(bin, cols - 1, position)
    }
}

/// With a scale that ends at the last of the bins or behind it, every bin from the
/// first position on is shown: some column has it between its position and the next,
/// and a bar that is not lower than that of the bin.
pub proof fn every_bin_is_shown<
    R: Copy,
    P: Fn(usize) -> usize,
    X: Fn(R, R) -> R,
    B: Fn(R) -> Bar,
>(
    bins: Vec<R>,
    cols: usize,
    scale: P,
    floor: R,
    louder: X,
    bar_of: B,
    r: Vec<Bar>,
    le: spec_fn(R, R) -> bool,
    sound: spec_fn(R) -> bool,
    position: spec_fn(int) -> int,
    bin: int,
    of_bin: Bar,
)
    requires
        bins@.len() > 0,
        call_ensures(
            column_bars::<R, P, X, B>,
            (&bins, cols, &scale, floor, &louder, &bar_of),
            r,
        ),
        stands_at(scale, position),
        takes_the_louder(louder, le, sound),
        bars_rise(bar_of, le, sound),
        sound(floor),
        forall|i: int| 0 <= i < bins@.len() ==> sound(#[trigger] bins@[i]),
        position(cols as int) >= bins@.len(),
        0 <= position(0) <= bin < bins@.len(),
        call_ensures(bar_of, (bins@[bin],), of_bin),
    ensures
        exists|col: int|
            0 <= col < r@.len() && #[trigger] lies_in(bin, col, position) && at_most_as_high(
                of_bin,
                r@[col],
            ),
{
    let col = lemma_some_column(bin, cols as int, position);
    bars_stand_for_their_bins(
        bins,
        cols,
        scale,
        floor,
        louder,
        bar_of,
        r,
        le,
        sound,
        position,
    );
    assert(lies_in(bin, col, position));
}

// ---------------------------------------------------------------------------
// Cells
// ---------------------------------------------------------------------------
/// The cell of a bar at a height: full and lit below the top of the bar; lit, and
/// full by so many eighths, in the cell that the bar fills in part, where the blocks
/// follow one another in the order of what they fill; and blank above.
pub open spec fn cell_is_of(cell: Cell, bar: Bar, height: int, color: Color) -> bool {
    &&& height < bar.cells ==> cell.glyph as int == 0x2588 && cell.color == Some(color)
    &&& height == bar.cells && bar.part is Some ==> {
        &&& cell.color == Some(color)
        &&& bar.part == Some(0usize) ==> cell.glyph == ' '
        &&& 1 <= bar.part->0 <= 7 ==> cell.glyph as int == 0x2580 + bar.part->0
        &&& bar.part->0 > 7 ==> cell.glyph as int == 0x2587
    }
    &&& height > bar.cells || (height == bar.cells && bar.part is None) ==> cell.glyph == ' '
        && cell.color is None
}

/// The colour is that of the band in which the column stands: green below the low
/// cut, yellow up to the mid cut, and magenta above.
pub open spec fn color_is_of(color: Color, col: int, low_col: int, mid_col: int) -> bool {
    &&& color == Color::Green <==> col < low_col
    &&& color == Color::Yellow <==> low_col <= col < mid_col
    &&& color == Color::Magenta <==> low_col <= col && mid_col <= col
}

/// A bar is drawn cell by cell.
pub proof fn cells_are_drawn(bar: Bar, height: usize, color: Color, r: Cell)
    requires
        call_ensures(cell_at, (bar, height, color), r),
    ensures
        cell_is_of(r, bar, height as int, color),
{
}

/// A column has the colour of its band.
pub proof fn columns_are_coloured(col: usize, low_col: usize, mid_col: usize, r: Color)
    requires
        call_ensures(color_of_column, (col, low_col, mid_col), r),
    ensures
        color_is_of(r, col as int, low_col as int, mid_col as int),
{
}

/// The grid has as many rows as it should and a cell for every bar in each. The
/// lowest row stands at height nothing, and every cell is that of its bar at its
/// height, in the colour of its column.
pub proof fn the_grid_shows_the_bars(
    bars: Vec<Bar>,
    rows: usize,
    low_col: usize,
    mid_col: usize,
    r: Vec<Vec<Cell>>,
    height: int,
    col: int,
    color: Color,
)
    requires
        call_ensures(spectrum_grid, (&bars, rows, low_col, mid_col), r),
        0 <= height < rows,
        0 <= col < bars@.len(),
        color_is_of(color, col, low_col as int, mid_col as int),
    ensures
        r@.len() == rows,
        r@[rows - 1 - height]@.len() == bars@.len(),
        cell_is_of(r@[rows - 1 - height]@[col], bars@[col], height, color),
{
    let row = rows - 1 - height;
    assert(r@[row]@[col].glyph == r@[row]@[col].glyph);
}

/// There is a spectrum to draw where there is a bin and an area of some size.
pub proof fn a_spectrum_needs_bins_and_room(n: usize, width: u16, height: u16, r: bool)
    requires
        call_ensures(spectrum_ready, (n, width, height), r),
    ensures
        r <==> n != 0 && width != 0 && height != 0,
{
}

// ---------------------------------------------------------------------------
// Colours and rows
// ---------------------------------------------------------------------------
/// Playing is green, stopped is red, and any other state is yellow.
pub proof fn states_have_their_colour(playback: &str, r: Color)
    requires
        call_ensures(playback_color, (playback,), r),
    ensures
        r == Color::Green <==> playback@ == seq!['P', 'l', 'a', 'y', 'i', 'n', 'g'],
        r == Color::Red <==> playback@ == seq!['S', 't', 'o', 'p', 'p', 'e', 'd'],
        r == Color::Green || r == Color::Red || r == Color::Yellow,
{
    reveal_strlit("Playing");
    reveal_strlit("Stopped");
    assert("Playing"@ == seq!['P', 'l', 'a', 'y', 'i', 'n', 'g']);
    assert("Stopped"@ == seq!['S', 't', 'o', 'p', 'p', 'e', 'd']);
}

/// The gauge is green near its target, yellow while tolerable, and red otherwise.
pub proof fn fills_have_their_colour(near_target: bool, tolerable: bool, r: Color)
    requires
        call_ensures(fill_color, (near_target, tolerable), r),
    ensures
        r == Color::Green <==> near_target,
        r == Color::Red <==> !near_target && !tolerable,
        r == Color::Yellow <==> !near_target && tolerable,
{
}

/// The row stands for this value of the configuration: it shows the value, whether it
/// is selected, and the switches of its band, which are off where it has none.
pub open spec fn row_stands_for<R>(
    row: GainRow<R>,
    cfg: AudioRuntimeConfig<R>,
    selected: Selected,
    sel: Selected,
) -> bool {
    &&& row.sel == sel
    &&& row.value == chosen(cfg, sel)
    &&& row.selected <==> selected == sel
    &&& row.switches <==> on_a_band(sel)
    &&& row.mute <==> {
        ||| sel == Selected::Low && cfg.low_mute
        ||| sel == Selected::Mid && cfg.mid_mute
        ||| sel == Selected::High && cfg.high_mute
    }
    &&& row.solo <==> {
        ||| sel == Selected::Low && cfg.low_solo
        ||| sel == Selected::Mid && cfg.mid_solo
        ||| sel == Selected::High && cfg.high_solo
    }
    &&& row.bypass <==> {
        ||| sel == Selected::Low && cfg.low_bypass
        ||| sel == Selected::Mid && cfg.mid_bypass
        ||| sel == Selected::High && cfg.high_bypass
    }
}

/// The rows show the master gain and the gains of the three bands, from low to high,
/// then the two cuts, each with its own value and colour.
pub proof fn rows_show_their_values<R: Copy>(
    cfg: AudioRuntimeConfig<R>,
    selected: Selected,
    gains: Vec<GainRow<R>>,
    cuts: Vec<CutRow<R>>,
)
    requires
        call_ensures(gain_rows::<R>, (&cfg, selected), gains),
        call_ensures(cut_rows::<R>, (&cfg, selected), cuts),
    ensures
        gains@.len() == 4,
        row_stands_for(gains@[0], cfg, selected, Selected::Master),
        row_stands_for(gains@[1], cfg, selected, Selected::Low),
        row_stands_for(gains@[2], cfg, selected, Selected::Mid),
        row_stands_for(gains@[3], cfg, selected, Selected::High),
        gains@[0].color == Color::Cyan,
        gains@[1].color == Color::Green,
        gains@[2].color == Color::Yellow,
        gains@[3].color == Color::Magenta,
        cuts@.len() == 2,
        cuts@[0].sel == Selected::LowCut && cuts@[1].sel == Selected::MidCut,
        cuts@[0].value == cfg.low_cut_hz && cuts@[1].value == cfg.mid_cut_hz,
        cuts@[0].color == Color::Green && cuts@[1].color == Color::Yellow,
        cuts@[0].selected <==> selected == Selected::LowCut,
        cuts@[1].selected <==> selected == Selected::MidCut,
{
    assert(gains@[0] == gain_row(cfg, selected, 0));
    assert(gains@[1] == gain_row(cfg, selected, 1));
    assert(gains@[2] == gain_row(cfg, selected, 2));
    assert(gains@[3] == gain_row(cfg, selected, 3));
}

/// A badge is lit in its colour exactly where its switch is on.
pub proof fn badges_show_their_switch<R>(row: GainRow<R>, r: (Color, Color, Color))
    requires
        call_ensures(badge_colors::<R>, (&row,), r),
    ensures
        r.0 == Color::Red <==> row.mute,
        r.1 == Color::Yellow <==> row.solo,
        r.2 == Color::Cyan <==> row.bypass,
        !row.mute ==> r.0 == Color::DarkGray,
        !row.solo ==> r.1 == Color::DarkGray,
        !row.bypass ==> r.2 == Color::DarkGray,
{
}

/// A row starts with its marker where it is selected. The label follows behind two
/// characters, and spaces fill the column and one place more.
pub proof fn rows_start_with_their_label(
    sel: Selected,
    selected: bool,
    width: usize,
    label: &'static str,
    r: String,
)
    requires
        call_ensures(row_prefix, (sel, selected, width), r),
        call_ensures(Selected::label, (sel,), label),
    ensures
        r@.len() == 3 + (if width < label@.len() {
            label@.len()
        } else {
            width as nat
        }),
        r@[0] == (if selected {
            '>'
        } else {
            ' '
        }),
        r@[1] == ' ',
        forall|i: int| 0 <= i < label@.len() ==> r@[2 + i] == #[trigger] label@[i],
        forall|i: int| 2 + label@.len() <= i < r@.len() ==> #[trigger] r@[i] == ' ',
{
    reveal_strlit("> ");
    reveal_strlit("  ");
    reveal_strlit(" ");
    let body = padded(label@, width as int);
    assert(body.len() == (if width < label@.len() {
        label@.len()
    } else {
        width as nat
    }));
}

// ---------------------------------------------------------------------------
// Texts
// ---------------------------------------------------------------------------
/// The output is described by its rate in Hz, its format and its six channels, with
/// dots between; without a rate there is a dash.
pub proof fn the_output_is_described(rate: u32, format: &str, digits: String, r: String)
    requires
        call_ensures(output_text, (rate, format), r),
        call_ensures(decimal_of, (rate as u64,), digits),
    ensures
        rate > 0 ==> r@ == digits@ + seq![' ', 'H', 'z', ' ', '\u{b7}', ' '] + format@ + seq![
            ' ',
            '\u{b7}',
            ' ',
            '6',
            'c',
            'h',
        ],
        rate == 0 ==> r@ == seq!['\u{2014}'],
{
    reveal_strlit(" Hz \u{b7} ");
    reveal_strlit(" \u{b7} 6ch");
    reveal_strlit("\u{2014}");
    assert(" Hz \u{b7} "@ == seq![' ', 'H', 'z', ' ', '\u{b7}', ' ']);
    assert(" \u{b7} 6ch"@ == seq![' ', '\u{b7}', ' ', '6', 'c', 'h']);
    assert("\u{2014}"@ == seq!['\u{2014}']);
}

/// The title of the spectrum ends its range at half the rate, in whole kHz, and has
/// no range without a rate.
pub proof fn the_title_names_the_range(rate: u32, khz: u64, digits: String, r: String)
    requires
        call_ensures(spectrum_title, (rate,), r),
        2000 * khz <= rate < 2000 * (khz + 1),
        call_ensures(decimal_of, (khz,), digits),
    ensures
        rate > 0 ==> r@ == seq![
            ' ',
            'S',
            'p',
            'e',
            'c',
            't',
            'r',
            'u',
            'm',
            ' ',
            ' ',
            '(',
            '2',
            '0',
            ' ',
            'H',
            'z',
            ' ',
            '\u{2013}',
            ' ',
        ] + digits@ + seq![' ', 'k', 'H', 'z', ')', ' '],
        rate == 0 ==> r@ == seq![' ', 'S', 'p', 'e', 'c', 't', 'r', 'u', 'm', ' '],
{
    reveal_strlit(" Spectrum  (20 Hz \u{2013} ");
    reveal_strlit(" kHz) ");
    reveal_strlit(" Spectrum ");
    assert(rate / 2 / 1000 == khz);
    assert(" Spectrum  (20 Hz \u{2013} "@ == seq![
        ' ',
        'S',
        'p',
        'e',
        'c',
        't',
        'r',
        'u',
        'm',
        ' ',
        ' ',
        '(',
        '2',
        '0',
        ' ',
        'H',
        'z',
        ' ',
        '\u{2013}',
        ' ',
    ]);
    assert(" kHz) "@ == seq![' ', 'k', 'H', 'z', ')', ' ']);
    assert(" Spectrum "@ == seq![' ', 'S', 'p', 'e', 'c', 't', 'r', 'u', 'm', ' ']);
}

/// An error stands in the footer in red, between two spaces; without one the footer
/// is gray.
pub proof fn errors_stand_in_the_footer(
    error: &str,
    with_error: (String, Color),
    without: (String, Color),
)
    requires
        call_ensures(footer, (Some(error),), with_error),
        call_ensures(footer, (None,), without),
    ensures
        with_error.0@ == seq![' '] + error@ + seq![' '],
        with_error.1 == Color::Red,
        without.1 == Color::DarkGray,
{
    reveal_strlit(" ");
    assert(" "@ == seq![' ']);
}

} // verus!
