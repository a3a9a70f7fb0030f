use vstd::prelude::*;
use vstd::string::{StrSliceExecFns, StringExecFns};
use crate::dates::CalendarDate;
use crate::month::{format_month, lemma_month_block_shape, month_has_highlight, month_lines};
use crate::text::{dec_rep, lemma_dec_rep_len, spaces, spaces_string, u32_to_string};

verus! {

/// The first `k` of the given lines, each followed by a newline.
pub open spec fn lines_text(lines: Seq<Seq<char>>, k: int) -> Seq<char>
    decreases k,
{
    if k <= 0 {
        Seq::empty()
    } else {
        lines_text(lines, k - 1) + lines[k - 1] + seq!['\n']
    }
}

/// `lines_text` reads only the first `k` lines.
pub proof fn lemma_lines_text_ext(a: Seq<Seq<char>>, b: Seq<Seq<char>>, k: int)
    requires
        forall|i: int| 0 <= i < k ==> a[i] == b[i],
    ensures
        lines_text(a, k) == lines_text(b, k),
    decreases k,
{
    if k > 0 {
        lemma_lines_text_ext(a, b, k - 1);
    }
}

/// The text of one month block: its eight lines, each ended by a newline.
pub open spec fn month_text(y: int, m: int, print_year: bool, today: CalendarDate) -> Seq<char> {
    lines_text(month_lines(y, m, print_year, today), 8)
}

/// The label line of the year view: the year right-aligned in width 32.
pub open spec fn year_label_line(y: int) -> Seq<char> {
    spaces(32 - dec_rep(y as nat).len() as int) + dec_rep(y as nat)
}

/// The label line is always 32 characters wide.
pub proof fn lemma_year_label_width(y: int)
    requires
        1 <= y <= 9999,
    ensures
        year_label_line(y).len() == 32,
{
    lemma_dec_rep_len(y as nat);
}

/// Row `g` of the year view joins months `3g+1`, `3g+2` and `3g+3` line by
/// line: all three blocks have eight lines, so the zip is total.
pub open spec fn row_lines(y: int, today: CalendarDate, g: int) -> Seq<Seq<char>> {
    Seq::new(
        8,
        |i: int|
            month_lines(y, 3 * g + 1, false, today)[i] + month_lines(y, 3 * g + 2, false, today)[i]
                + month_lines(y, 3 * g + 3, false, today)[i],
    )
}

/// The first `g` rows of the year view, separated by blank lines.
pub open spec fn rows_text(y: int, today: CalendarDate, g: int) -> Seq<char>
    decreases g,
{
    if g <= 0 {
        Seq::empty()
    } else if g == 1 {
        lines_text(row_lines(y, today, 0), 8)
    } else {
        rows_text(y, today, g - 1) + seq!['\n'] + lines_text(row_lines(y, today, g - 1), 8)
    }
}

/// The whole year view: the label line, then the four rows of three months,
/// with one blank line between rows and none after the last.
pub open spec fn year_text(y: int, today: CalendarDate) -> Seq<char> {
    year_label_line(y) + seq!['\n'] + rows_text(y, today, 4)
}

/// The resolved rendering intent: a single month of a year when `month` is
/// set, the whole year otherwise, with `today` highlighted where it shows.
#[derive(Clone, Copy, Debug)]
pub struct Config {
    pub month: Option<u32>,
    pub year: i32,
    pub today: CalendarDate,
}

impl Config {
    /// The month, when present, and the year are in range, and today is a
    /// real date.
    pub open spec fn wf(self) -> bool {
        &&& (self.month matches Some(m) ==> 1 <= m <= 12)
        &&& 1 <= self.year <= 9999
        &&& self.today.wf()
    }
}

/// What a run prints for a configuration: the single month block when a
/// month is set (the year shown in its header only when it is not today's),
/// and the whole year view otherwise.
pub open spec fn rendered_output(c: Config) -> Seq<char> {
    match c.month {
        Some(m) => month_text(c.year as int, m as int, c.year != c.today.year, c.today),
        None => year_text(c.year as int, c.today),
    }
}

fn joined_lines(lines: &Vec<String>) -> (r: String)
    ensures
        r@ == lines_text(lines@.map_values(|l: String| l@), lines@.len() as int),
{
    let mut s = String::new();
    let mut i: usize = 0;
    while i < lines.len()
        invariant
            i <= lines@.len(),
            s@ == lines_text(lines@.map_values(|l: String| l@), i as int),
        decreases lines@.len() - i,
    {
        s.append(lines[i].as_str());
        s.append("\n");
        proof {
            reveal_strlit("\n");
            assert(s@ =~= lines_text(lines@.map_values(|l: String| l@), i as int + 1));
        }
        i = i + 1;
    }
    s
}

/// The year view of `format_year`, as `year_text` describes it.
#[verifier::rlimit(60)]
pub fn format_year(year: i32, today: CalendarDate) -> (r: String)
    requires
        1 <= year <= 9999,
    ensures
        r@ == year_text(year as int, today),
{
    let digits = u32_to_string(year as u32);
    proof {
        lemma_dec_rep_len(year as nat);
    }
    let mut s = spaces_string(32 - digits.as_str().unicode_len());
    s.append(digits.as_str());
    s.append("\n");
    proof {
        reveal_strlit("\n");
        assert(s@ =~= year_label_line(year as int) + seq!['\n'] + rows_text(
            year as int,
            today,
            0,
        ));
    }
    let mut g: u32 = 0;
    while g < 4
        invariant
            g <= 4,
            1 <= year <= 9999,
            s@ == year_label_line(year as int) + seq!['\n'] + rows_text(
                year as int,
                today,
                g as int,
            ),
        decreases 4 - g,
    {
        if g > 0 {
            s.append("\n");
        }
        let ma = format_month(year, 3 * g + 1, false, today);
        let mb = format_month(year, 3 * g + 2, false, today);
        let mc = format_month(year, 3 * g + 3, false, today);
        let ghost base = s@;
        let mut i: usize = 0;
        while i < 8
            invariant
                i <= 8,
                ma@.len() == 8,
                mb@.len() == 8,
                mc@.len() == 8,
                forall|j: int|
                    0 <= j < 8 ==> ma@[j]@ == month_lines(
                        year as int,
                        3 * (g as int) + 1,
                        false,
                        today,
                    )[j],
                forall|j: int|
                    0 <= j < 8 ==> mb@[j]@ == month_lines(
                        year as int,
                        3 * (g as int) + 2,
                        false,
                        today,
                    )[j],
                forall|j: int|
                    0 <= j < 8 ==> mc@[j]@ == month_lines(
                        year as int,
                        3 * (g as int) + 3,
                        false,
                        today,
                    )[j],
                s@ == base + lines_text(row_lines(year as int, today, g as int), i as int),
            decreases 8 - i,
        {
            s.append(ma[i].as_str());
            s.append(mb[i].as_str());
            s.append(mc[i].as_str());
            s.append("\n");
            proof {
                reveal_strlit("\n");
                assert(s@ =~= base + lines_text(
                    row_lines(year as int, today, g as int),
                    i as int + 1,
                ));
            }
            i = i + 1;
        }
        g = g + 1;
        proof {
            reveal_strlit("\n");
            assert(s@ =~= year_label_line(year as int) + seq!['\n'] + rows_text(
                year as int,
                today,
                g as int,
            ));
        }
    }
    s
}

/// The full text a run prints for a validated configuration.
pub fn render(config: &Config) -> (r: String)
    requires
        config.wf(),
    ensures
        r@ == rendered_output(*config),
{
    match config.month {
        Some(m) => {
            let print_year = config.year != config.today.year;
            let lines = format_month(config.year, m, print_year, config.today);
            let r = joined_lines(&lines);
            proof {
                lemma_lines_text_ext(
                    lines@.map_values(|l: String| l@),
                    month_lines(config.year as int, m as int, print_year, config.today),
                    8,
                );
            }
            r
        },
        None => format_year(config.year, config.today),
    }
}

/// The three blocks of a year row each have exactly eight lines, so joining
/// them line by line never meets a missing line: every row line is the
/// concatenation of the three blocks' lines at that index.
pub proof fn lemma_year_row_total(y: int, today: CalendarDate, g: int)
    requires
        0 <= g < 4,
    ensures
        month_lines(y, 3 * g + 1, false, today).len() == 8,
        month_lines(y, 3 * g + 2, false, today).len() == 8,
        month_lines(y, 3 * g + 3, false, today).len() == 8,
        row_lines(y, today, g).len() == 8,
        forall|i: int|
            0 <= i < 8 ==> row_lines(y, today, g)[i] == month_lines(y, 3 * g + 1, false, today)[i]
                + month_lines(y, 3 * g + 2, false, today)[i] + month_lines(
                y,
                3 * g + 3,
                false,
                today,
            )[i],
{
}

/// The three blocks of a year row are the same width line for line: every
/// row line is 66 characters, except the one holding today's highlighted
/// cell, which the escape sequences widen to 74.
pub proof fn lemma_year_row_width(y: int, today: CalendarDate, g: int)
    requires
        1 <= y <= 9999,
        0 <= g < 4,
    ensures
        forall|i: int|
            0 <= i < 8 ==> (#[trigger] row_lines(y, today, g)[i].len() == 66 || row_lines(
                y,
                today,
                g,
            )[i].len() == 74),
        (!month_has_highlight(y, 3 * g + 1, today) && !month_has_highlight(y, 3 * g + 2, today)
            && !month_has_highlight(y, 3 * g + 3, today)) ==> forall|i: int|
            0 <= i < 8 ==> #[trigger] row_lines(y, today, g)[i].len() == 66,
{
    lemma_month_block_shape(y, 3 * g + 1, false, today);
    lemma_month_block_shape(y, 3 * g + 2, false, today);
    lemma_month_block_shape(y, 3 * g + 3, false, today);
}

} // verus!
