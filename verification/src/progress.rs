//! How far the exchanges have been fetched.

use vstd::prelude::*;
use vstd::string::*;

use crate::text::{push_decimal, push_left_aligned, push_right_aligned, push_run};
use crate::venue::Venue;

verus! {

/// The progress of a whole window.
pub const WHOLE: u64 = 1000;

/// How wide a bar is.
pub const BAR: usize = 30;

/// How far one exchange has been fetched.
#[derive(Clone, Copy, Debug, PartialEq, Eq, Structural)]
pub struct Prog {
    /// The part of the window that has been covered, in thousandths.
    pub permille: u64,
    /// How many candles have come.
    pub candles: u64,
    /// Whether the exchange has failed.
    pub failed: bool,
}

/// No more than the whole.
pub open spec fn clamped(permille: u64) -> u64 {
    if permille < WHOLE {
        permille
    } else {
        WHOLE
    }
}

fn clamp(permille: u64) -> (r: u64)
    ensures
        r == clamped(permille),
{
    if permille < WHOLE {
        permille
    } else {
        WHOLE
    }
}

impl Prog {
    /// Whether no more than the whole window has been covered.
    pub open spec fn valid(self) -> bool {
        self.permille <= WHOLE
    }

    /// Nothing has been fetched yet.
    pub fn new() -> (r: Prog)
        ensures
            r == (Prog { permille: 0, candles: 0, failed: false }),
            r.valid(),
    {
        Prog { permille: 0, candles: 0, failed: false }
    }

    /// Records the part of the window that has been covered, in thousandths.
    pub fn set_frac(&mut self, permille: u64)
        ensures
            *final(self) == (Prog { permille: clamped(permille), ..*old(self) }),
            final(self).valid(),
    {
        self.permille = clamp(permille);
    }

    /// Records that candles have come.
    pub fn add_candles(&mut self, n: u64)
        ensures
            *final(self) == (Prog {
                candles: ((old(self).candles + n) % 0x1_0000_0000_0000_0000) as u64,
                ..*old(self)
            }),
            old(self).valid() ==> final(self).valid(),
    {
        self.candles = self.candles.wrapping_add(n);
    }

    /// Records that the whole window has been covered.
    pub fn finish(&mut self)
        ensures
            *final(self) == (Prog { permille: WHOLE, ..*old(self) }),
            final(self).valid(),
    {
        self.permille = WHOLE;
    }

    /// Records that the exchange has failed.
    pub fn fail(&mut self)
        ensures
            *final(self) == (Prog { failed: true, ..*old(self) }),
            old(self).valid() ==> final(self).valid(),
    {
        self.failed = true;
    }
}

/// How many marks of a bar are filled.
pub open spec fn filled_marks(permille: u64) -> nat {
    (clamped(permille) * BAR / WHOLE as int) as nat
}

/// A bar that is filled as far as the window has been covered.
pub open spec fn bar_words(permille: u64) -> Seq<char> {
    "["@ + crate::text::run('#', filled_marks(permille)) + crate::text::run(
        '-',
        (BAR - filled_marks(permille)) as nat,
    ) + "]"@
}

/// Draws a bar.
pub fn progress_bar(permille: u64) -> (r: String)
    ensures
        r@ == bar_words(permille),
{
    let filled: usize = (clamp(permille) * 30 / WHOLE) as usize;
    assert(filled == filled_marks(permille) && filled <= BAR);
    let mut out = "[".to_owned();
    proof {
        reveal_strlit("#");
        reveal_strlit("-");
    }
    push_run(&mut out, "#", filled);
    push_run(&mut out, "-", BAR - filled);
    out.append("]");
    out
}

/// A bar is as wide as any other, and a window that has been covered further
/// has no shorter one.
pub proof fn bars_grow(a: u64, b: u64)
    requires
        a <= b,
    ensures
        filled_marks(a) <= filled_marks(b) <= BAR,
        bar_words(a).len() == bar_words(b).len(),
{
    reveal_strlit("[");
    reveal_strlit("]");
}

/// Thousandths in percent, with one decimal.
pub open spec fn percent_words(permille: u64) -> Seq<char> {
    crate::text::decimal((clamped(permille) / 10) as nat) + "."@ + crate::text::decimal(
        (clamped(permille) % 10) as nat,
    )
}

/// How an exchange is doing.
pub open spec fn status_words(p: Prog) -> Seq<char> {
    if p.failed {
        "FAILED"@
    } else {
        crate::text::right_aligned(percent_words(p.permille), 5) + "%"@
    }
}

fn status(p: &Prog) -> (r: String)
    ensures
        r@ == status_words(*p),
{
    if p.failed {
        return "FAILED".to_owned();
    }
    let permille = clamp(p.permille);
    let mut number = String::new();
    push_decimal(&mut number, permille / 10);
    number.append(".");
    push_decimal(&mut number, permille % 10);
    assert(number@ =~= percent_words(p.permille));
    let mut out = String::new();
    push_right_aligned(&mut out, number.as_str(), 5);
    out.append("%");
    assert(out@ =~= status_words(*p));
    out
}

/// The line on an exchange in a display that is drawn in place.
pub open spec fn row_words(venue: Venue, p: Prog) -> Seq<char> {
    crate::text::left_aligned(crate::venue::venue_name(venue), 11) + " "@ + bar_words(p.permille)
        + " "@ + crate::text::right_aligned(status_words(p), 7) + "  "@ + crate::text::decimal(
        p.candles as nat,
    ) + " candles\x1b[K\n"@
}

/// The lines on some exchanges in a display that is drawn in place.
pub open spec fn rows_words(rows: Seq<(Venue, Prog)>) -> Seq<char>
    decreases rows.len(),
{
    if rows.len() == 0 {
        Seq::empty()
    } else {
        rows_words(rows.drop_last()) + row_words(rows.last().0, rows.last().1)
    }
}

/// A display that is drawn in place: over the one before, unless it is the
/// first.
pub open spec fn display_words(rows: Seq<(Venue, Prog)>, first: bool) -> Seq<char> {
    (if first {
        Seq::empty()
    } else {
        "\x1b["@ + crate::text::decimal(rows.len()) + "A"@
    }) + rows_words(rows)
}

fn push_row(out: &mut String, venue: Venue, p: &Prog)
    ensures
        final(out)@ == old(out)@ + row_words(venue, *p),
{
    push_left_aligned(out, venue.name(), 11);
    out.append(" ");
    out.append(progress_bar(p.permille).as_str());
    out.append(" ");
    push_right_aligned(out, status(p).as_str(), 7);
    out.append("  ");
    push_decimal(out, p.candles);
    out.append(" candles\x1b[K\n");
    assert(out@ =~= old(out)@ + row_words(venue, *p));
}

/// Draws a display in place. The next one is not the first.
pub fn draw_progress_tty(rows: &Vec<(Venue, Prog)>, first: &mut bool) -> (r: String)
    ensures
        r@ == display_words(rows@, *old(first)),
        *final(first) == false,
{
    let mut out = String::new();
    if !*first {
        out.append("\x1b[");
        push_decimal(&mut out, rows.len() as u64);
        out.append("A");
    }
    let ghost start = out@;
    *first = false;
    let mut i: usize = 0;
    assert(rows@.take(0) =~= Seq::empty());
    assert(out@ =~= start + rows_words(rows@.take(0)));
    while i < rows.len()
        invariant
            i <= rows@.len(),
            out@ == start + rows_words(rows@.take(i as int)),
        decreases rows.len() - i,
    {
        assert(rows@.take(i + 1).drop_last() =~= rows@.take(i as int));
        let (venue, p) = rows[i];
        push_row(&mut out, venue, &p);
        i = i + 1;
        assert(out@ =~= start + rows_words(rows@.take(i as int)));
    }
    assert(rows@.take(rows@.len() as int) =~= rows@);
    assert(out@ =~= display_words(rows@, *old(first)));
    out
}

/// What a log shows of an exchange, whose progress in whole percent is
/// `percent`.
pub open spec fn part_words(venue: Venue, p: Prog, percent: Seq<char>) -> Seq<char> {
    crate::venue::venue_name(venue) + " "@ + if p.failed {
        "FAILED"@
    } else {
        percent + "%"@
    }
}

/// What a log shows of some exchanges.
pub open spec fn parts_words(rows: Seq<(Venue, Prog)>, percents: Seq<String>) -> Seq<char>
    decreases rows.len(),
{
    if rows.len() == 0 {
        Seq::empty()
    } else {
        let last = part_words(
            rows.last().0,
            rows.last().1,
            percents[rows.len() - 1]@,
        );
        if rows.len() == 1 {
            last
        } else {
            parts_words(rows.drop_last(), percents) + " | "@ + last
        }
    }
}

fn push_part(out: &mut String, venue: Venue, p: &Prog, percent: &str)
    ensures
        final(out)@ == old(out)@ + part_words(venue, *p, percent@),
{
    out.append(venue.name());
    out.append(" ");
    if p.failed {
        out.append("FAILED");
    } else {
        out.append(percent);
        out.append("%");
    }
    assert(out@ =~= old(out)@ + part_words(venue, *p, percent@));
}

/// Draws a line for a log. `percents` holds the progress of each exchange in
/// whole percent.
pub fn draw_progress_plain(rows: &Vec<(Venue, Prog)>, percents: &Vec<String>) -> (r: String)
    requires
        percents@.len() == rows@.len(),
    ensures
        r@ == "progress: "@ + parts_words(rows@, percents@),
{
    let mut out = "progress: ".to_owned();
    let ghost start = out@;
    let mut i: usize = 0;
    assert(rows@.take(0) =~= Seq::empty());
    assert(out@ =~= start + parts_words(rows@.take(0), percents@));
    while i < rows.len()
        invariant
            i <= rows@.len(),
            percents@.len() == rows@.len(),
            out@ == start + parts_words(rows@.take(i as int), percents@),
        decreases rows.len() - i,
    {
        assert(rows@.take(i + 1).drop_last() =~= rows@.take(i as int));
        if i > 0 {
            out.append(" | ");
        }
        let (venue, p) = rows[i];
        push_part(&mut out, venue, &p, percents[i].as_str());
        i = i + 1;
        assert(out@ =~= start + parts_words(rows@.take(i as int), percents@));
    }
    assert(rows@.take(rows@.len() as int) =~= rows@);
    out
}

/// How long to wait before the progress is drawn again, in milliseconds:
/// longer for a log than for a display, and not at all once the fetching has
/// stopped.
pub fn next_drawing(tty: bool, stopping: bool) -> (r: Option<u64>)
    ensures
        r == (if stopping {
            None::<u64>
        } else if tty {
            Some(500u64)
        } else {
            Some(30_000u64)
        }),
{
    if stopping {
        None
    } else if tty {
        Some(500)
    } else {
        Some(30_000)
    }
}


/// A display has a line for each exchange, in their order.
pub proof fn displays_have_a_line_each(rows: Seq<(Venue, Prog)>)
    ensures
        rows_words(rows) == rows.map_values(|r: (Venue, Prog)| row_words(r.0, r.1)).flatten(),
    decreases rows.len(),
{
    let row = |r: (Venue, Prog)| row_words(r.0, r.1);
    crate::text::lemma_last_line(rows.map_values(row));
    if rows.len() > 0 {
        displays_have_a_line_each(rows.drop_last());
        assert(rows.map_values(row).drop_last() =~= rows.drop_last().map_values(row));
    }
}

/// The line on an exchange has its name, a bar of thirty marks of which the part
/// that has been covered is filled, how the exchange is doing, and how many
/// candles have come.
#[verifier::rlimit(60)]
pub proof fn display_lines_have_four_cells(venue: Venue, p: Prog) -> (cells: Seq<Seq<char>>)
    ensures
        cells.len() == 4,
        row_words(venue, p) == cells[0] + " ["@ + cells[1] + "] "@ + cells[2] + "  "@ + cells[3]
            + " candles\x1b[K\n"@,
        crate::text::fills_left(cells[0], crate::venue::venue_name(venue), 11),
        cells[1].len() == 30,
        exists|k: int|
            {
                &&& 0 <= k <= 30
                &&& p.permille <= 1000 ==> k * 1000 <= p.permille * 30 < (k + 1) * 1000
                &&& p.permille > 1000 ==> k == 30
                &&& #[trigger] cells[1].take(k) == crate::text::run('#', k as nat)
                &&& cells[1].skip(k) == crate::text::run('-', (30 - k) as nat)
            },
        crate::text::fills_right(cells[2], status_words(p), 7),
        p.failed ==> status_words(p) == "FAILED"@,
        crate::text::parsed_u64(cells[3]) == Ok::<u64, crate::text::IntError>(p.candles),
{
    let name = crate::venue::venue_name(venue);
    let k = filled_marks(p.permille);
    let bar = crate::text::run('#', k) + crate::text::run('-', (30 - k) as nat);
    crate::text::aligned_texts_fill_their_cells(name, 11);
    crate::text::aligned_texts_fill_their_cells(status_words(p), 7);
    crate::text::decimal_reads_back(p.candles);
    assert(bar.take(k as int) =~= crate::text::run('#', k));
    assert(bar.skip(k as int) =~= crate::text::run('-', (30 - k) as nat));
    let cells = seq![
        crate::text::left_aligned(name, 11),
        bar,
        crate::text::right_aligned(status_words(p), 7),
        crate::text::decimal(p.candles as nat),
    ];
    reveal_strlit(" ");
    reveal_strlit("[");
    reveal_strlit("]");
    reveal_strlit(" [");
    reveal_strlit("] ");
    assert(" ["@ =~= " "@ + "["@);
    assert("] "@ =~= "]"@ + " "@);
    assert(row_words(venue, p) =~= cells[0] + " ["@ + cells[1] + "] "@ + cells[2] + "  "@ + cells[3]
        + " candles\x1b[K\n"@);
    cells
}


/// A display that is not the first goes back over as many lines as it has, and is
/// then drawn like the first.
pub proof fn displays_are_drawn_over_the_last(rows: Seq<(Venue, Prog)>) -> (number: Seq<char>)
    requires
        rows.len() <= u64::MAX,
    ensures
        display_words(rows, true) == rows_words(rows),
        display_words(rows, false) == "\x1b["@ + number + "A"@ + display_words(rows, true),
        crate::text::parsed_u64(number) == Ok::<u64, crate::text::IntError>(rows.len() as u64),
{
    crate::text::decimal_reads_back(rows.len() as u64);
    assert(display_words(rows, true) =~= rows_words(rows));
    crate::text::decimal(rows.len())
}

/// A line for a log has a part for each exchange, in their order, with a mark
/// between them. It says of an exchange that it has failed, or else how far it
/// has been fetched.
pub proof fn log_lines_have_a_part_each(rows: Seq<(Venue, Prog)>, percents: Seq<String>)
    requires
        percents.len() >= rows.len(),
    ensures
        parts_words(rows, percents) == Seq::new(
            rows.len(),
            |i: int|
                (if i == 0 {
                    Seq::<char>::empty()
                } else {
                    " | "@
                }) + (crate::venue::venue_name(rows[i].0) + " "@ + if rows[i].1.failed {
                    "FAILED"@
                } else {
                    percents[i]@ + "%"@
                }),
        ).flatten(),
    decreases rows.len(),
{
    let part = |i: int|
        (if i == 0 {
            Seq::<char>::empty()
        } else {
            " | "@
        }) + (crate::venue::venue_name(rows[i].0) + " "@ + if rows[i].1.failed {
            "FAILED"@
        } else {
            percents[i]@ + "%"@
        });
    let all = Seq::new(rows.len(), part);
    crate::text::lemma_last_line(all);
    if rows.len() > 0 {
        let fewer = rows.drop_last();
        log_lines_have_a_part_each(fewer, percents);
        let some = Seq::new(
            fewer.len(),
            |i: int|
                (if i == 0 {
                    Seq::<char>::empty()
                } else {
                    " | "@
                }) + (crate::venue::venue_name(fewer[i].0) + " "@ + if fewer[i].1.failed {
                    "FAILED"@
                } else {
                    percents[i]@ + "%"@
                }),
        );
        assert(all.drop_last() =~= some);
        assert(parts_words(rows, percents) =~= some.flatten() + all.last()) by {
            if rows.len() == 1 {
                crate::text::lemma_last_line(some);
            }
        }
    }
}

} // verus!
