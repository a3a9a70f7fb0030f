use vstd::prelude::*;
use vstd::string::{StrSliceExecFns, StringExecFns};
use crate::dates::{
    CalendarDate, days_in_month, first_weekday, first_weekday_offset, month_length,
};
use crate::text::{dec_rep, digit_char, lemma_dec_rep_len, spaces, spaces_string, u32_to_string};

verus! {

/// The escape sequence that turns reverse video on.
pub open spec fn reverse_open() -> Seq<char> {
    seq!['\u{1b}', '[', '7', 'm']
}

/// The escape sequence that resets the style.
pub open spec fn reverse_close() -> Seq<char> {
    seq!['\u{1b}', '[', '0', 'm']
}

/// Relies on `ansi_term::Style::paint`: painting with the reverse style
/// brackets the text between the escape sequences `ESC[7m` and `ESC[0m`.
#[verifier::external_body]
fn paint_reverse(s: &str) -> (r: String)
    ensures
        r@ == reverse_open() + s@ + reverse_close(),
{
    ansi_term::Style::new().reverse().paint(s).to_string()
}

/// The two-character cell of a day number: right-aligned in width two.
pub open spec fn day_cell(day: int) -> Seq<char> {
    if day < 10 {
        seq![' ', digit_char(day)]
    } else {
        dec_rep(day as nat)
    }
}

/// Whether the cell for day `day` of month (`y`, `m`) is the highlighted one.
pub open spec fn is_today_cell(y: int, m: int, day: int, today: CalendarDate) -> bool {
    today.year == y && today.month == m && today.day == day
}

/// Cell `n` of the 42-cell month grid: blank before the first weekday and
/// past the month's end, otherwise the day number, highlighted when it is
/// today.
pub open spec fn grid_cell(y: int, m: int, today: CalendarDate, n: int) -> Seq<char> {
    let off = first_weekday_offset(y, m);
    let day = n - off + 1;
    if n < off || day > month_length(y, m) {
        seq![' ', ' ']
    } else if is_today_cell(y, m, day, today) {
        reverse_open() + day_cell(day) + reverse_close()
    } else {
        day_cell(day)
    }
}

/// The first `k` cells of week `w`, joined by single spaces.
pub open spec fn cells_upto(y: int, m: int, today: CalendarDate, w: int, k: int) -> Seq<char>
    decreases k,
{
    if k <= 0 {
        Seq::empty()
    } else if k == 1 {
        grid_cell(y, m, today, 7 * w)
    } else {
        cells_upto(y, m, today, w, k - 1) + seq![' '] + grid_cell(y, m, today, 7 * w + k - 1)
    }
}

/// Week row `w` of the month block: its seven cells joined by spaces, with
/// the two-space trailing pad.
pub open spec fn week_line(y: int, m: int, today: CalendarDate, w: int) -> Seq<char> {
    cells_upto(y, m, today, w, 7) + seq![' ', ' ']
}

/// The constant weekday-label row.
pub open spec fn weekday_labels() -> Seq<char> {
    "Su Mo Tu We Th Fr Sa  "@
}

/// The English name of month `m`.
pub open spec fn month_title(m: int) -> Seq<char> {
    if m == 1 {
        "January"@
    } else if m == 2 {
        "February"@
    } else if m == 3 {
        "March"@
    } else if m == 4 {
        "April"@
    } else if m == 5 {
        "May"@
    } else if m == 6 {
        "June"@
    } else if m == 7 {
        "July"@
    } else if m == 8 {
        "August"@
    } else if m == 9 {
        "September"@
    } else if m == 10 {
        "October"@
    } else if m == 11 {
        "November"@
    } else {
        "December"@
    }
}

/// The text of the header: the month name, followed by the year when asked.
pub open spec fn header_text(y: int, m: int, print_year: bool) -> Seq<char> {
    if print_year {
        month_title(m) + seq![' '] + dec_rep(y as nat)
    } else {
        month_title(m)
    }
}

/// A text centered in width 20, left-biased, with the two-space trailing pad.
pub open spec fn centered(text: Seq<char>) -> Seq<char> {
    let pad = 20 - text.len() as int;
    if pad < 0 {
        text + seq![' ', ' ']
    } else {
        spaces(pad / 2) + text + spaces(pad - pad / 2) + seq![' ', ' ']
    }
}

/// The header row of the month block.
pub open spec fn header_line(y: int, m: int, print_year: bool) -> Seq<char> {
    centered(header_text(y, m, print_year))
}

/// The eight rows of a rendered month: header, weekday labels, six weeks.
pub open spec fn month_lines(y: int, m: int, print_year: bool, today: CalendarDate) -> Seq<
    Seq<char>,
> {
    seq![
        header_line(y, m, print_year),
        weekday_labels(),
        week_line(y, m, today, 0),
        week_line(y, m, today, 1),
        week_line(y, m, today, 2),
        week_line(y, m, today, 3),
        week_line(y, m, today, 4),
        week_line(y, m, today, 5),
    ]
}

pub(crate) fn month_name(m: u32) -> (r: &'static str)
    requires
        1 <= m <= 12,
    ensures
        r@ == month_title(m as int),
{
    match m {
        1 => "January",
        2 => "February",
        3 => "March",
        4 => "April",
        5 => "May",
        6 => "June",
        7 => "July",
        8 => "August",
        9 => "September",
        10 => "October",
        11 => "November",
        _ => "December",
    }
}

/// Every month name has between three and nine characters.
pub proof fn lemma_month_title_len(m: int)
    requires
        1 <= m <= 12,
    ensures
        3 <= month_title(m).len() <= 9,
{
    reveal_strlit("January");
    reveal_strlit("February");
    reveal_strlit("March");
    reveal_strlit("April");
    reveal_strlit("May");
    reveal_strlit("June");
    reveal_strlit("July");
    reveal_strlit("August");
    reveal_strlit("September");
    reveal_strlit("October");
    reveal_strlit("November");
    reveal_strlit("December");
}

/// Whether today's cell shows somewhere in the grid of month (`y`, `m`).
pub open spec fn month_has_highlight(y: int, m: int, today: CalendarDate) -> bool {
    today.year == y && today.month == m && 1 <= today.day <= month_length(y, m)
}

/// The grid index of today's cell, where it shows.
pub open spec fn highlight_index(y: int, m: int, today: CalendarDate) -> int {
    first_weekday_offset(y, m) + today.day - 1
}

/// A day cell is always two characters wide.
pub proof fn lemma_day_cell_len(day: int)
    requires
        1 <= day <= 31,
    ensures
        day_cell(day).len() == 2,
{
    if day >= 10 {
        lemma_dec_rep_len(day as nat);
    }
}

/// Every grid cell is two characters wide, except today's, which carries
/// four escape characters on each side.
pub proof fn lemma_grid_cell_len(y: int, m: int, today: CalendarDate, n: int)
    requires
        0 <= n < 42,
    ensures
        grid_cell(y, m, today, n).len() == if month_has_highlight(y, m, today) && n
            == highlight_index(y, m, today) {
            10int
        } else {
            2int
        },
{
    let off = first_weekday_offset(y, m);
    let day = n - off + 1;
    if !(n < off || day > month_length(y, m)) {
        lemma_day_cell_len(day);
    }
}

proof fn lemma_cells_upto_len(y: int, m: int, today: CalendarDate, w: int, k: int)
    requires
        0 <= w < 6,
        0 <= k <= 7,
    ensures
        cells_upto(y, m, today, w, k).len() == if k == 0 {
            0int
        } else {
            3 * k - 1 + if month_has_highlight(y, m, today) && 7 * w <= highlight_index(
                y,
                m,
                today,
            ) < 7 * w + k {
                8int
            } else {
                0int
            }
        },
    decreases k,
{
    if k == 1 {
        lemma_grid_cell_len(y, m, today, 7 * w);
    } else if k > 1 {
        lemma_cells_upto_len(y, m, today, w, k - 1);
        lemma_grid_cell_len(y, m, today, 7 * w + k - 1);
    }
}

/// A week row is 22 characters wide, or 30 when it holds today's
/// highlighted cell.
pub proof fn lemma_week_line_len(y: int, m: int, today: CalendarDate, w: int)
    requires
        0 <= w < 6,
    ensures
        week_line(y, m, today, w).len() == if month_has_highlight(y, m, today) && 7 * w
            <= highlight_index(y, m, today) < 7 * w + 7 {
            30int
        } else {
            22int
        },
{
    lemma_cells_upto_len(y, m, today, w, 7);
}

/// The header row is 22 characters wide.
pub proof fn lemma_header_line_len(y: int, m: int, print_year: bool)
    requires
        1 <= y <= 9999,
        1 <= m <= 12,
    ensures
        header_line(y, m, print_year).len() == 22,
{
    lemma_month_title_len(m);
    lemma_dec_rep_len(y as nat);
}

/// A month block has exactly eight lines. Each is 22 characters wide, but
/// for the single week row that holds today's highlighted cell, which the
/// escape sequences widen to 30; when today does not show in the month,
/// every line is exactly 22 characters wide.
pub proof fn lemma_month_block_shape(y: int, m: int, print_year: bool, today: CalendarDate)
    requires
        1 <= y <= 9999,
        1 <= m <= 12,
    ensures
        month_lines(y, m, print_year, today).len() == 8,
        forall|i: int|
            0 <= i < 8 ==> (#[trigger] month_lines(y, m, print_year, today)[i].len() == 22
                || month_lines(y, m, print_year, today)[i].len() == 30),
        !month_has_highlight(y, m, today) ==> forall|i: int|
            0 <= i < 8 ==> #[trigger] month_lines(y, m, print_year, today)[i].len() == 22,
{
    lemma_header_line_len(y, m, print_year);
    reveal_strlit("Su Mo Tu We Th Fr Sa  ");
    lemma_week_line_len(y, m, today, 0);
    lemma_week_line_len(y, m, today, 1);
    lemma_week_line_len(y, m, today, 2);
    lemma_week_line_len(y, m, today, 3);
    lemma_week_line_len(y, m, today, 4);
    lemma_week_line_len(y, m, today, 5);
}

fn day_cell_string(day: u32) -> (r: String)
    requires
        1 <= day <= 31,
    ensures
        r@ == day_cell(day as int),
{
    if day < 10 {
        let mut s = String::from_str(" ");
        s.append(u32_to_string(day).as_str());
        proof {
            reveal_strlit(" ");
            assert(s@ =~= day_cell(day as int));
        }
        s
    } else {
        u32_to_string(day)
    }
}

fn header_string(year: i32, month: u32, print_year: bool) -> (r: String)
    requires
        1 <= year <= 9999,
        1 <= month <= 12,
    ensures
        r@ == header_line(year as int, month as int, print_year),
{
    let mut text = String::from_str(month_name(month));
    if print_year {
        text.append(" ");
        text.append(u32_to_string(year as u32).as_str());
        proof {
            reveal_strlit(" ");
            assert(text@ =~= header_text(year as int, month as int, print_year));
        }
    }
    proof {
        lemma_month_title_len(month as int);
        lemma_dec_rep_len(year as nat);
    }
    let len = text.as_str().unicode_len();
    let pad: usize = 20 - len;
    let left: usize = pad / 2;
    let mut s = spaces_string(left);
    s.append(text.as_str());
    s.append(spaces_string(pad - left).as_str());
    s.append("  ");
    proof {
        reveal_strlit("  ");
        assert(s@ =~= header_line(year as int, month as int, print_year));
    }
    s
}

fn week_line_string(year: i32, month: u32, today: CalendarDate, w: u32, off: u32, last: u32) -> (r:
    String)
    requires
        1 <= year <= 9999,
        1 <= month <= 12,
        w < 6,
        off as int == first_weekday_offset(year as int, month as int),
        off < 7,
        last as int == month_length(year as int, month as int),
    ensures
        r@ == week_line(year as int, month as int, today, w as int),
{
    let mut s = String::new();
    let mut k: u32 = 0;
    while k < 7
        invariant
            k <= 7,
            w < 6,
            1 <= year <= 9999,
            1 <= month <= 12,
            off as int == first_weekday_offset(year as int, month as int),
            off < 7,
            last as int == month_length(year as int, month as int),
            s@ == cells_upto(year as int, month as int, today, w as int, k as int),
        decreases 7 - k,
    {
        if k > 0 {
            s.append(" ");
        }
        let n: u32 = 7 * w + k;
        if n < off || n - off >= last {
            s.append("  ");
        } else {
            let day: u32 = n - off + 1;
            let cell = day_cell_string(day);
            if today.year == year && today.month == month && today.day == day {
                let painted = paint_reverse(cell.as_str());
                s.append(painted.as_str());
            } else {
                s.append(cell.as_str());
            }
        }
        proof {
            reveal_strlit(" ");
            reveal_strlit("  ");
            assert(s@ =~= cells_upto(year as int, month as int, today, w as int, k as int + 1));
        }
        k = k + 1;
    }
    s.append("  ");
    proof {
        reveal_strlit("  ");
        assert(s@ =~= week_line(year as int, month as int, today, w as int));
    }
    s
}

/// The rendered block of one month: exactly the eight lines that
/// `month_lines` describes, header first, then the weekday labels, then the
/// six week rows with today's cell highlighted.
pub fn format_month(year: i32, month: u32, print_year: bool, today: CalendarDate) -> (r: Vec<
    String,
>)
    requires
        1 <= year <= 9999,
        1 <= month <= 12,
    ensures
        r@.len() == 8,
        forall|i: int|
            0 <= i < 8 ==> r@[i]@ == month_lines(year as int, month as int, print_year, today)[i],
{
    let mut lines: Vec<String> = Vec::new();
    lines.push(header_string(year, month, print_year));
    lines.push(String::from_str("Su Mo Tu We Th Fr Sa  "));
    let off = first_weekday(year, month);
    let last = days_in_month(year, month);
    let mut w: u32 = 0;
    while w < 6
        invariant
            w <= 6,
            1 <= year <= 9999,
            1 <= month <= 12,
            off as int == first_weekday_offset(year as int, month as int),
            off < 7,
            last as int == month_length(year as int, month as int),
            lines@.len() == 2 + w,
            forall|i: int|
                0 <= i < 2 + w ==> lines@[i]@ == month_lines(
                    year as int,
                    month as int,
                    print_year,
                    today,
                )[i],
        decreases 6 - w,
    {
        lines.push(week_line_string(year, month, today, w, off, last));
        w = w + 1;
    }
    lines
}

} // verus!
