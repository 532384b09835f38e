//! The summary of an analysis.

use vstd::prelude::*;
use vstd::string::*;

use crate::clock::{fmt_duration, iso8601};
use crate::divergence::analysis::{band_label, Analysis, Episode, SlotFigures, STEP};
use crate::divergence::ranking::{list_band, list_shown, CAP};
use crate::number::Num;
use crate::text::{decimal_text, push_decimal, push_left_aligned, push_right_aligned};
use crate::venue::{with_minutes, Venue};

verus! {

/// How the figures at the peak of an episode are shown.
pub struct PeakTexts {
    pub percent: String,
    pub price: String,
    pub mean: String,
}

/// How the figures of an analysis are shown.
pub struct SummaryTexts {
    /// For each exchange the share of slots in which it has a price, in
    /// percent.
    pub coverage: Vec<String>,
    /// For each band its share of the slots, in percent.
    pub shares: Vec<String>,
    /// The figures at the peak of each episode.
    pub peaks: Vec<PeakTexts>,
}

/// How many slots are in some band.
pub open spec fn analyzable(band_slots: Seq<u64>) -> nat
    decreases band_slots.len(),
{
    if band_slots.len() == 0 {
        0
    } else {
        analyzable(band_slots.drop_last()) + band_slots.last() as nat
    }
}

/// Whether an analysis can be summed up with these texts.
pub open spec fn fits(a: Analysis, t: SummaryTexts) -> bool {
    &&& a.band_slots@.len() == 4
    &&& analyzable(a.band_slots@) <= u64::MAX
    &&& t.coverage@.len() == a.coverage@.len()
    &&& t.shares@.len() == 4
    &&& t.peaks@.len() == a.episodes@.len()
    &&& forall|i: int|
        0 <= i < a.episodes@.len() ==> {
            &&& (#[trigger] a.episodes@[i]).start_ts <= a.episodes@[i].end_ts
            &&& a.episodes@[i].peak_venue < crate::venue::minute_venues().len()
        }
    &&& crate::divergence::ranking::is_cut(a.episodes@, 1)
        ==> crate::divergence::ranking::comparable(
        a.episodes@,
        crate::divergence::ranking::of_band(a.episodes@, 1),
    )
}

// ---------------------------------------------------------------------------
// The window
// ---------------------------------------------------------------------------

/// The lines on the window.
pub open spec fn window_words(from: u64, to: u64, a: Analysis) -> Seq<char> {
    "\nwindow     : "@ + crate::clock::iso8601_text(from as nat) + " .. "@
        + crate::clock::iso8601_text(to as nat) + " ("@ + crate::text::decimal(
        a.total_slots as nat,
    ) + " slots of 1m)\nanalyzable : "@ + crate::text::decimal(analyzable(a.band_slots@))
        + " slots ("@ + crate::text::decimal(a.no_data_slots as nat)
        + " with <2 venues, excluded from percentages)\n\nvenue coverage:\n"@
}

fn count_analyzable(band_slots: &Vec<u64>) -> (r: u64)
    requires
        analyzable(band_slots@) <= u64::MAX,
    ensures
        r == analyzable(band_slots@),
{
    let mut sum: u64 = 0;
    let mut i: usize = 0;
    assert(band_slots@.take(0) =~= Seq::empty());
    while i < band_slots.len()
        invariant
            i <= band_slots@.len(),
            sum == analyzable(band_slots@.take(i as int)),
            analyzable(band_slots@) <= u64::MAX,
        decreases band_slots.len() - i,
    {
        assert(band_slots@.take(i + 1).drop_last() =~= band_slots@.take(i as int));
        proof {
            lemma_analyzable(band_slots@, i + 1);
        }
        sum = sum + band_slots[i];
        i = i + 1;
    }
    assert(band_slots@.take(band_slots@.len() as int) =~= band_slots@);
    sum
}

proof fn lemma_analyzable(band_slots: Seq<u64>, n: int)
    requires
        0 <= n <= band_slots.len(),
    ensures
        analyzable(band_slots.take(n)) <= analyzable(band_slots),
    decreases band_slots.len(),
{
    if n == band_slots.len() {
        assert(band_slots.take(n) =~= band_slots);
    } else {
        assert(band_slots.drop_last().take(n) =~= band_slots.take(n));
        lemma_analyzable(band_slots.drop_last(), n);
    }
}

fn push_window(out: &mut String, from: u64, to: u64, a: &Analysis)
    requires
        analyzable(a.band_slots@) <= u64::MAX,
    ensures
        final(out)@ == old(out)@ + window_words(from, to, *a),
{
    out.append("\nwindow     : ");
    out.append(iso8601(from).as_str());
    out.append(" .. ");
    out.append(iso8601(to).as_str());
    out.append(" (");
    push_decimal(out, a.total_slots);
    out.append(" slots of 1m)\nanalyzable : ");
    push_decimal(out, count_analyzable(&a.band_slots));
    out.append(" slots (");
    push_decimal(out, a.no_data_slots);
    out.append(" with <2 venues, excluded from percentages)\n\nvenue coverage:\n");
    assert(out@ =~= old(out)@ + window_words(from, to, *a));
}

// ---------------------------------------------------------------------------
// Coverage
// ---------------------------------------------------------------------------

/// The line on how many slots an exchange has a price in.
pub open spec fn coverage_words(venue: Venue, n: u64, share: Seq<char>, total: u64) -> Seq<char> {
    "  "@ + crate::text::left_aligned(crate::venue::venue_name(venue), 11) + " "@
        + crate::text::right_aligned(share, 6) + "%  ("@ + crate::text::decimal(n as nat) + "/"@
        + crate::text::decimal(total as nat) + " slots)\n"@
}

/// The lines on how many slots each of the first `n` exchanges has a price in.
pub open spec fn coverages_words(a: Analysis, t: SummaryTexts, n: nat) -> Seq<char>
    decreases n,
{
    if n == 0 {
        Seq::empty()
    } else {
        coverages_words(a, t, (n - 1) as nat) + coverage_words(
            a.coverage@[n - 1].0,
            a.coverage@[n - 1].1,
            t.coverage@[n - 1]@,
            a.total_slots,
        )
    }
}

fn push_coverage(out: &mut String, venue: Venue, n: u64, share: &str, total: u64)
    ensures
        final(out)@ == old(out)@ + coverage_words(venue, n, share@, total),
{
    out.append("  ");
    push_left_aligned(out, venue.name(), 11);
    out.append(" ");
    push_right_aligned(out, share, 6);
    out.append("%  (");
    push_decimal(out, n);
    out.append("/");
    push_decimal(out, total);
    out.append(" slots)\n");
    assert(out@ =~= old(out)@ + coverage_words(venue, n, share@, total));
}

fn push_coverages(out: &mut String, a: &Analysis, t: &SummaryTexts)
    requires
        t.coverage@.len() == a.coverage@.len(),
    ensures
        final(out)@ == old(out)@ + coverages_words(*a, *t, a.coverage@.len()),
{
    let ghost start = out@;
    let mut i: usize = 0;
    assert(out@ =~= start + coverages_words(*a, *t, 0));
    while i < a.coverage.len()
        invariant
            i <= a.coverage@.len(),
            t.coverage@.len() == a.coverage@.len(),
            out@ == start + coverages_words(*a, *t, i as nat),
        decreases a.coverage.len() - i,
    {
        let (venue, n) = a.coverage[i];
        push_coverage(out, venue, n, t.coverage[i].as_str(), a.total_slots);
        i = i + 1;
        assert(out@ =~= start + coverages_words(*a, *t, i as nat));
    }
}

// ---------------------------------------------------------------------------
// Bands
// ---------------------------------------------------------------------------

/// The line on a band.
pub open spec fn band_line(band: int, n: u64, share: Seq<char>, episodes: nat) -> Seq<char> {
    "  "@ + crate::text::left_aligned(crate::divergence::analysis::band_words(band), 8) + " "@
        + crate::text::right_aligned(crate::text::decimal(n as nat), 8) + " slots  "@
        + crate::text::right_aligned(share, 6) + "%  "@ + crate::text::left_aligned(
        crate::clock::duration_text(n as nat),
        12,
    ) + (if band == 0 {
        Seq::empty()
    } else {
        "  ("@ + crate::text::decimal(episodes) + " episodes)"@
    }) + "\n"@
}

/// The lines on the first `n` bands.
pub open spec fn bands_words(a: Analysis, t: SummaryTexts, n: nat) -> Seq<char>
    decreases n,
{
    if n == 0 {
        Seq::empty()
    } else {
        bands_words(a, t, (n - 1) as nat) + band_line(
            n - 1,
            a.band_slots@[n - 1],
            t.shares@[n - 1]@,
            crate::divergence::ranking::of_band(a.episodes@, n - 1).len(),
        )
    }
}

fn push_band(out: &mut String, band: usize, n: u64, share: &str, episodes: u64)
    ensures
        final(out)@ == old(out)@ + band_line(band as int, n, share@, episodes as nat),
{
    out.append("  ");
    push_left_aligned(out, band_label(band), 8);
    out.append(" ");
    push_right_aligned(out, decimal_text(n).as_str(), 8);
    out.append(" slots  ");
    push_right_aligned(out, share, 6);
    out.append("%  ");
    push_left_aligned(out, fmt_duration(n).as_str(), 12);
    if band != 0 {
        out.append("  (");
        push_decimal(out, episodes);
        out.append(" episodes)");
    }
    out.append("\n");
    assert(out@ =~= old(out)@ + band_line(band as int, n, share@, episodes as nat));
}

fn push_bands(out: &mut String, a: &Analysis, t: &SummaryTexts)
    requires
        a.band_slots@.len() == 4,
        t.shares@.len() == 4,
    ensures
        final(out)@ == old(out)@ + bands_words(*a, *t, 4),
{
    let ghost start = out@;
    let mut i: usize = 0;
    assert(out@ =~= start + bands_words(*a, *t, 0));
    while i < 4
        invariant
            i <= 4,
            a.band_slots@.len() == 4,
            t.shares@.len() == 4,
            out@ == start + bands_words(*a, *t, i as nat),
        decreases 4 - i,
    {
        let episodes = list_band(&a.episodes, i);
        push_band(out, i, a.band_slots[i], t.shares[i].as_str(), episodes.len() as u64);
        i = i + 1;
        assert(out@ =~= start + bands_words(*a, *t, i as nat));
    }
}

// ---------------------------------------------------------------------------
// Episodes
// ---------------------------------------------------------------------------

/// When an episode started, and how long it lasted.
pub open spec fn episode_time(e: Episode) -> Seq<char> {
    "  "@ + crate::text::left_aligned(crate::clock::iso8601_text(e.start_ts as nat), 20) + " "@
        + crate::text::right_aligned(
        crate::clock::duration_text(((e.end_ts - e.start_ts) / STEP as int) as nat),
        9,
    )
}

/// The divergence at the peak of an episode, and the exchange.
pub open spec fn episode_peak(e: Episode, t: PeakTexts) -> Seq<char> {
    " "@ + crate::text::right_aligned(t.percent@, 7) + " "@ + crate::text::left_aligned(
        crate::venue::venue_name(crate::venue::minute_venues()[e.peak_venue as int]),
        11,
    )
}

/// The prices at the peak of an episode.
pub open spec fn episode_prices(e: Episode, t: PeakTexts) -> Seq<char> {
    " "@ + crate::text::right_aligned(t.price@, 9) + " "@ + crate::text::right_aligned(t.mean@, 9)
        + " "@ + crate::text::right_aligned(crate::text::decimal(e.venues_at_peak as nat), 7)
        + "\n"@
}

/// The line on an episode.
pub open spec fn episode_line(e: Episode, t: PeakTexts) -> Seq<char> {
    episode_time(e) + episode_peak(e, t) + episode_prices(e, t)
}

/// The lines on the first `n` of some episodes.
pub open spec fn episode_lines(a: Analysis, t: SummaryTexts, shown: Seq<usize>, n: nat) -> Seq<char>
    decreases n,
{
    if n == 0 {
        Seq::empty()
    } else {
        let i = shown[n - 1] as int;
        episode_lines(a, t, shown, (n - 1) as nat) + episode_line(a.episodes@[i], t.peaks@[i])
    }
}

/// The heading of the table of a band, which has `total` episodes.
pub open spec fn table_heading(band: int, total: nat, path: Seq<char>) -> Seq<char> {
    "episodes "@ + crate::divergence::analysis::band_words(band) + (if band == 1 && total > CAP {
        " (top "@ + crate::text::decimal(CAP as nat) + " of "@ + crate::text::decimal(total)
            + " by peak; full list in "@ + path + "):\n"@
    } else {
        ":\n"@
    })
}

/// The names of the columns of the table of a band.
pub open spec fn table_columns() -> Seq<char> {
    "  start (UTC)           duration   peak% venue           price      mean  venues\n"@
}

/// The table of a band. A band without an episode has none.
pub open spec fn table(band: int, a: Analysis, t: SummaryTexts, path: Seq<char>) -> Seq<char> {
    let total = crate::divergence::ranking::of_band(a.episodes@, band).len();
    let shown = crate::divergence::ranking::listed(a.episodes@, band);
    if total == 0 {
        Seq::empty()
    } else {
        table_heading(band, total, path) + table_columns() + episode_lines(
            a,
            t,
            shown,
            shown.len(),
        ) + "\n"@
    }
}

fn push_episode_time(out: &mut String, e: &Episode)
    requires
        e.start_ts <= e.end_ts,
    ensures
        final(out)@ == old(out)@ + episode_time(*e),
{
    out.append("  ");
    push_left_aligned(out, iso8601(e.start_ts).as_str(), 20);
    out.append(" ");
    push_right_aligned(out, fmt_duration((e.end_ts - e.start_ts) / STEP).as_str(), 9);
    assert(out@ =~= old(out)@ + episode_time(*e));
}

fn push_episode_peak(out: &mut String, e: &Episode, t: &PeakTexts)
    requires
        e.peak_venue < crate::venue::minute_venues().len(),
    ensures
        final(out)@ == old(out)@ + episode_peak(*e, *t),
{
    let venues = with_minutes();
    out.append(" ");
    push_right_aligned(out, t.percent.as_str(), 7);
    out.append(" ");
    push_left_aligned(out, venues[e.peak_venue].name(), 11);
    assert(out@ =~= old(out)@ + episode_peak(*e, *t));
}

fn push_episode_prices(out: &mut String, e: &Episode, t: &PeakTexts)
    ensures
        final(out)@ == old(out)@ + episode_prices(*e, *t),
{
    out.append(" ");
    push_right_aligned(out, t.price.as_str(), 9);
    out.append(" ");
    push_right_aligned(out, t.mean.as_str(), 9);
    out.append(" ");
    push_right_aligned(out, decimal_text(e.venues_at_peak as u64).as_str(), 7);
    out.append("\n");
    assert(out@ =~= old(out)@ + episode_prices(*e, *t));
}

fn push_episode(out: &mut String, e: &Episode, t: &PeakTexts)
    requires
        e.start_ts <= e.end_ts,
        e.peak_venue < crate::venue::minute_venues().len(),
    ensures
        final(out)@ == old(out)@ + episode_line(*e, *t),
{
    push_episode_time(out, e);
    push_episode_peak(out, e, t);
    push_episode_prices(out, e, t);
    assert(out@ =~= old(out)@ + episode_line(*e, *t));
}

fn push_heading(out: &mut String, band: usize, total: usize, path: &str)
    ensures
        final(out)@ == old(out)@ + table_heading(band as int, total as nat, path@),
{
    out.append("episodes ");
    out.append(band_label(band));
    if band == 1 && total > CAP {
        out.append(" (top ");
        push_decimal(out, CAP as u64);
        out.append(" of ");
        push_decimal(out, total as u64);
        out.append(" by peak; full list in ");
        out.append(path);
        out.append("):\n");
    } else {
        out.append(":\n");
    }
    assert(out@ =~= old(out)@ + table_heading(band as int, total as nat, path@));
}

fn push_table(out: &mut String, band: usize, a: &Analysis, t: &SummaryTexts, path: &str)
    requires
        fits(*a, *t),
    ensures
        final(out)@ == old(out)@ + table(band as int, *a, *t, path@),
{
    let ghost start = out@;
    let total: usize = list_band(&a.episodes, band).len();
    if total == 0 {
        assert(out@ =~= start + table(band as int, *a, *t, path@));
        return;
    }
    let shown = list_shown(&a.episodes, band);
    push_heading(out, band, total, path);
    out.append(
        "  start (UTC)           duration   peak% venue           price      mean  venues\n",
    );
    let ghost before = out@;
    let mut k: usize = 0;
    assert(out@ =~= before + episode_lines(*a, *t, shown@, 0));
    while k < shown.len()
        invariant
            k <= shown@.len(),
            fits(*a, *t),
            forall|i: int| 0 <= i < shown@.len() ==> #[trigger] shown@[i] < a.episodes@.len(),
            out@ == before + episode_lines(*a, *t, shown@, k as nat),
        decreases shown.len() - k,
    {
        let i: usize = shown[k];
        push_episode(out, &a.episodes[i], &t.peaks[i]);
        k = k + 1;
        assert(out@ =~= before + episode_lines(*a, *t, shown@, k as nat));
    }
    out.append("\n");
    assert(out@ =~= start + table(band as int, *a, *t, path@));
}

// ---------------------------------------------------------------------------
// The whole
// ---------------------------------------------------------------------------

/// The summary of an analysis of the window from `from` up to `to`, whose
/// episodes are all listed in the file at `path`.
pub open spec fn summary_words(
    path: Seq<char>,
    from: u64,
    to: u64,
    a: Analysis,
    t: SummaryTexts,
) -> Seq<char> {
    window_words(from, to, a) + coverages_words(a, t, a.coverage@.len())
        + "\ndivergence d = max |price - mean| / mean across venues, per 1m slot:\n"@ + bands_words(
        a,
        t,
        4,
    ) + "\n"@ + table(3, a, t, path) + table(2, a, t, path) + table(1, a, t, path)
}

/// Sums up an analysis.
pub fn summary(path: &str, from: u64, to: u64, a: &Analysis, t: &SummaryTexts) -> (r: String)
    requires
        fits(*a, *t),
    ensures
        r@ == summary_words(path@, from, to, *a, *t),
{
    let mut out = String::new();
    push_window(&mut out, from, to, a);
    push_coverages(&mut out, a, t);
    out.append("\ndivergence d = max |price - mean| / mean across venues, per 1m slot:\n");
    push_bands(&mut out, a, t);
    out.append("\n");
    push_table(&mut out, 3, a, t, path);
    push_table(&mut out, 2, a, t, path);
    push_table(&mut out, 1, a, t, path);
    assert(out@ =~= summary_words(path@, from, to, *a, *t));
    out
}

proof fn lemma_of_band(episodes: Seq<Episode>, band: int)
    requires
        episodes.len() <= usize::MAX,
    ensures
        forall|k: int|
            0 <= k < crate::divergence::ranking::of_band(episodes, band).len() ==> {
                let i = #[trigger] crate::divergence::ranking::of_band(episodes, band)[k];
                i < episodes.len() && episodes[i as int].band == band
            },
    decreases episodes.len(),
{
    if episodes.len() > 0 {
        lemma_of_band(episodes.drop_last(), band);
        let before = crate::divergence::ranking::of_band(episodes.drop_last(), band);
        let all = crate::divergence::ranking::of_band(episodes, band);
        assert forall|k: int| 0 <= k < all.len() implies {
            let i = #[trigger] all[k];
            i < episodes.len() && episodes[i as int].band == band
        } by {
            if k < before.len() {
                assert(all[k] == before[k]);
                assert(episodes.drop_last()[before[k] as int] == episodes[before[k] as int]);
            }
        }
    }
}

/// What the analysis of a window gives can be summed up: its counts fit, every
/// episode ends after it starts and names an exchange, and the peaks of the
/// lowest band are numbers.
pub proof fn analyses_can_be_summed_up(
    columns: Seq<Map<u64, Num>>,
    from: u64,
    to: u64,
    figures: Seq<SlotFigures>,
    a: Analysis,
    t: SummaryTexts,
)
    requires
        columns.len() == crate::venue::minute_venues().len(),
        from <= to <= u64::MAX - STEP,
        crate::divergence::analysis::window_figures_fit(columns, from, to, figures),
        a@ == crate::divergence::analysis::analysis_of(columns, from, to, figures),
        t.coverage@.len() == a.coverage@.len(),
        t.shares@.len() == 4,
        t.peaks@.len() == a.episodes@.len(),
    ensures
        fits(a, t),
{
    let slots = crate::divergence::analysis::window_readings(columns, from, to, figures);
    let n = crate::divergence::analysis::window_slots(from, to);
    if n > 0 {
        crate::grid::slots_lie_in_the_window(from as nat, to as nat, STEP as nat, (n - 1) as nat);
    }
    assert(crate::divergence::laws::in_time(slots, from));
    crate::divergence::laws::counts_add_up(slots);
    reveal_with_fuel(analyzable, 5);
    let b = a.band_slots@;
    assert(b.len() == a@.band_slots.len());
    assert forall|i: int| 0 <= i < 4 implies #[trigger] b[i]
        == crate::divergence::analysis::band_count(slots, i) by {
        assert(a@.band_slots[i] == b[i] as nat);
    }
    assert(b.drop_last().drop_last().drop_last().drop_last().len() == 0);
    assert(analyzable(b) == b[0] + b[1] + b[2] + b[3]);
    assert forall|i: int| 0 <= i < a.episodes@.len() implies {
        &&& (#[trigger] a.episodes@[i]).start_ts <= a.episodes@[i].end_ts
        &&& a.episodes@[i].peak_venue < crate::venue::minute_venues().len()
        &&& crate::divergence::analysis::band_of(a.episodes@[i].peak_pct) == a.episodes@[i].band
    } by {
        crate::divergence::laws::episodes_are_maximal_runs(slots, from, i);
        let e = a.episodes@[i];
        let p = crate::divergence::laws::slot_at(from, e.peak_ts);
        let cells = crate::grid::cells_at(
            columns,
            crate::divergence::analysis::slot_ts(from, p),
        );
        crate::grid::cells_are_what_is_held(
            columns,
            crate::divergence::analysis::slot_ts(from, p),
        );
        assert(slots[p] is Some);
        crate::divergence::analysis::widest_in_range(figures[p].deviations@, cells.len());
        assert(crate::divergence::laws::slot_band(slots[p]) == e.band);
    }
    assert(a.episodes@.len() == a.episodes.len());
    lemma_of_band(a.episodes@, 1);
}


// ---------------------------------------------------------------------------
// What a reader finds in a summary
// ---------------------------------------------------------------------------

/// The line on an episode has seven cells: when it started, how many whole
/// minutes it lasted, the divergence at its peak, the exchange, its price, the
/// mean, and how many exchanges had a price. The first reads back as the start
/// of the episode, whenever its peak was.
#[verifier::rlimit(60)]
pub proof fn episode_lines_have_seven_cells(e: Episode, t: PeakTexts, minutes: nat) -> (cells: Seq<
    Seq<char>,
>)
    requires
        e.start_ts <= crate::clock::LAST,
        minutes * 60 <= e.end_ts - e.start_ts < (minutes + 1) * 60,
        e.peak_venue < crate::venue::minute_venues().len(),
    ensures
        cells.len() == 7,
        episode_line(e, t).len() >= 22,
        episode_line(e, t).take(22) == "  "@ + cells[0],
        episode_line(e, t) == "  "@ + cells[0] + " "@ + cells[1] + " "@ + cells[2] + " "@ + cells[3]
            + " "@ + cells[4] + " "@ + cells[5] + " "@ + cells[6] + "\n"@,
        crate::clock::is_stamp(cells[0]),
        crate::clock::time_in(cells[0]) == e.start_ts,
        crate::text::fills_right(cells[1], crate::clock::duration_text(minutes), 9),
        crate::text::fills_right(cells[2], t.percent@, 7),
        crate::text::fills_left(
            cells[3],
            crate::venue::venue_name(crate::venue::minute_venues()[e.peak_venue as int]),
            11,
        ),
        crate::text::fills_right(cells[4], t.price@, 9),
        crate::text::fills_right(cells[5], t.mean@, 9),
        crate::text::fills_right(cells[6], crate::text::decimal(e.venues_at_peak as nat), 7),
{
    let start = crate::clock::iso8601_text(e.start_ts as nat);
    let name = crate::venue::venue_name(crate::venue::minute_venues()[e.peak_venue as int]);
    let lasted = crate::clock::duration_text(minutes);
    let number = crate::text::decimal(e.venues_at_peak as nat);
    crate::clock::iso8601_reads_back(e.start_ts);
    assert(crate::text::left_aligned(start, 20) =~= start);
    assert((e.end_ts - e.start_ts) / STEP as int == minutes);
    crate::text::aligned_texts_fill_their_cells(lasted, 9);
    crate::text::aligned_texts_fill_their_cells(t.percent@, 7);
    crate::text::aligned_texts_fill_their_cells(name, 11);
    crate::text::aligned_texts_fill_their_cells(t.price@, 9);
    crate::text::aligned_texts_fill_their_cells(t.mean@, 9);
    crate::text::aligned_texts_fill_their_cells(number, 7);
    let cells = seq![
        start,
        crate::text::right_aligned(lasted, 9),
        crate::text::right_aligned(t.percent@, 7),
        crate::text::left_aligned(name, 11),
        crate::text::right_aligned(t.price@, 9),
        crate::text::right_aligned(t.mean@, 9),
        crate::text::right_aligned(number, 7),
    ];
    assert(episode_line(e, t) =~= "  "@ + cells[0] + " "@ + cells[1] + " "@ + cells[2] + " "@
        + cells[3] + " "@ + cells[4] + " "@ + cells[5] + " "@ + cells[6] + "\n"@);
    reveal_strlit("  ");
    assert(episode_line(e, t).take(22) =~= "  "@ + cells[0]);
    cells
}

#[verifier::rlimit(60)]
proof fn lemma_start_of_line(e: Episode, t: PeakTexts)
    requires
        e.start_ts <= crate::clock::LAST,
        e.start_ts <= e.end_ts,
        e.peak_venue < crate::venue::minute_venues().len(),
    ensures
        crate::clock::time_in(episode_line(e, t).subrange(2, 22)) == e.start_ts,
{
    reveal_strlit("  ");
    let cells = episode_lines_have_seven_cells(e, t, ((e.end_ts - e.start_ts) / 60) as nat);
    lemma_behind_two("  "@, cells[0], episode_line(e, t));
}

proof fn lemma_behind_two(indent: Seq<char>, cell: Seq<char>, line: Seq<char>)
    requires
        indent.len() == 2,
        cell.len() == 20,
        line.len() >= 22,
        line.take(22) == indent + cell,
    ensures
        line.subrange(2, 22) == cell,
{
    assert forall|i: int| 0 <= i < 20 implies line.subrange(2, 22)[i] == cell[i] by {
        assert(line.take(22)[i + 2] == (indent + cell)[i + 2]);
        assert(line.take(22)[i + 2] == line[i + 2]);
        assert((indent + cell)[i + 2] == cell[i]);
    }
    assert(line.subrange(2, 22) =~= cell);
}

/// The line on an episode starts, behind its indent, with a text that reads back
/// as the start of the episode. So two episodes that started at different times
/// have different lines.
pub proof fn episode_lines_start_with_the_start(e: Episode, f: Episode, t: PeakTexts, u: PeakTexts)
    requires
        e.start_ts <= crate::clock::LAST,
        f.start_ts <= crate::clock::LAST,
        e.start_ts <= e.end_ts,
        f.start_ts <= f.end_ts,
        e.peak_venue < crate::venue::minute_venues().len(),
        f.peak_venue < crate::venue::minute_venues().len(),
    ensures
        crate::clock::time_in(episode_line(e, t).subrange(2, 22)) == e.start_ts,
        episode_line(e, t) == episode_line(f, u) ==> e.start_ts == f.start_ts,
{
    lemma_start_of_line(e, t);
    lemma_start_of_line(f, u);
}

/// The line on an episode does not depend on when it peaked.
#[verifier::rlimit(60)]
pub proof fn episode_lines_do_not_tell_when_it_peaked(e: Episode, t: PeakTexts, peak_ts: u64)
    ensures
        episode_line(Episode { peak_ts, ..e }, t) == episode_line(e, t),
{
}

/// The line on an exchange has its name, the share that is shown, and in
/// brackets how many of how many slots it has a price in.
#[verifier::rlimit(60)]
pub proof fn coverage_lines_have_two_cells(
    venue: Venue,
    n: u64,
    share: Seq<char>,
    total: u64,
) -> (cells: Seq<Seq<char>>)
    ensures
        cells.len() == 4,
        coverage_words(venue, n, share, total) == "  "@ + cells[0] + " "@ + cells[1] + "%  ("@
            + cells[2] + "/"@ + cells[3] + " slots)\n"@,
        crate::text::fills_left(cells[0], crate::venue::venue_name(venue), 11),
        crate::text::fills_right(cells[1], share, 6),
        crate::text::parsed_u64(cells[2]) == Ok::<u64, crate::text::IntError>(n),
        crate::text::parsed_u64(cells[3]) == Ok::<u64, crate::text::IntError>(total),
{
    let name = crate::venue::venue_name(venue);
    crate::text::aligned_texts_fill_their_cells(name, 11);
    crate::text::aligned_texts_fill_their_cells(share, 6);
    crate::text::decimal_reads_back(n);
    crate::text::decimal_reads_back(total);
    seq![
        crate::text::left_aligned(name, 11),
        crate::text::right_aligned(share, 6),
        crate::text::decimal(n as nat),
        crate::text::decimal(total as nat),
    ]
}

/// The line on a band has its name, how many slots are in it, the share that is
/// shown, and how many minutes the slots make up; and above the lowest band how
/// many episodes there are.
#[verifier::rlimit(60)]
pub proof fn band_lines_have_four_cells(
    band: int,
    n: u64,
    share: Seq<char>,
    episodes: u64,
) -> (cells: Seq<Seq<char>>)
    ensures
        cells.len() == 5,
        band_line(band, n, share, episodes as nat) == "  "@ + cells[0] + " "@ + cells[1]
            + " slots  "@ + cells[2] + "%  "@ + cells[3] + (if band == 0 {
            "\n"@
        } else {
            "  ("@ + cells[4] + " episodes)\n"@
        }),
        crate::text::fills_left(cells[0], crate::divergence::analysis::band_words(band), 8),
        crate::text::fills_right(cells[1], crate::text::decimal(n as nat), 8),
        crate::text::fills_right(cells[2], share, 6),
        crate::text::fills_left(cells[3], crate::clock::duration_text(n as nat), 12),
        crate::text::parsed_u64(cells[4]) == Ok::<u64, crate::text::IntError>(episodes),
{
    let name = crate::divergence::analysis::band_words(band);
    let number = crate::text::decimal(n as nat);
    let lasted = crate::clock::duration_text(n as nat);
    crate::text::aligned_texts_fill_their_cells(name, 8);
    crate::text::aligned_texts_fill_their_cells(number, 8);
    crate::text::aligned_texts_fill_their_cells(share, 6);
    crate::text::aligned_texts_fill_their_cells(lasted, 12);
    crate::text::decimal_reads_back(episodes);
    let cells = seq![
        crate::text::left_aligned(name, 8),
        crate::text::right_aligned(number, 8),
        crate::text::right_aligned(share, 6),
        crate::text::left_aligned(lasted, 12),
        crate::text::decimal(episodes as nat),
    ];
    reveal_strlit(" episodes)\n");
    reveal_strlit(" episodes)");
    reveal_strlit("\n");
    assert(" episodes)\n"@ =~= " episodes)"@ + "\n"@);
    assert(band_line(band, n, share, episodes as nat) =~= "  "@ + cells[0] + " "@ + cells[1]
        + " slots  "@ + cells[2] + "%  "@ + cells[3] + (if band == 0 {
        "\n"@
    } else {
        "  ("@ + cells[4] + " episodes)\n"@
    }));
    cells
}

/// The lines on the window say from when to when it goes, how many slots it has,
/// how many of them are in some band, and how many have too few prices.
#[verifier::rlimit(60)]
pub proof fn windows_are_told(from: u64, to: u64, a: Analysis, b: Seq<u64>) -> (told: Seq<
    Seq<char>,
>)
    requires
        from <= crate::clock::LAST,
        to <= crate::clock::LAST,
        a.band_slots@ == b,
        b.len() == 4,
        b[0] + b[1] + b[2] + b[3] <= u64::MAX,
    ensures
        told.len() == 5,
        window_words(from, to, a) == "\nwindow     : "@ + told[0] + " .. "@ + told[1] + " ("@
            + told[2] + " slots of 1m)\nanalyzable : "@ + told[3] + " slots ("@ + told[4]
            + " with <2 venues, excluded from percentages)\n\nvenue coverage:\n"@,
        crate::clock::is_stamp(told[0]) && crate::clock::time_in(told[0]) == from,
        crate::clock::is_stamp(told[1]) && crate::clock::time_in(told[1]) == to,
        crate::text::parsed_u64(told[2]) == Ok::<u64, crate::text::IntError>(a.total_slots),
        crate::text::parsed_u64(told[3]) == Ok::<u64, crate::text::IntError>(
            (b[0] + b[1] + b[2] + b[3]) as u64,
        ),
        crate::text::parsed_u64(told[4]) == Ok::<u64, crate::text::IntError>(a.no_data_slots),
{
    reveal_with_fuel(analyzable, 5);
    assert(b.drop_last().drop_last().drop_last().drop_last().len() == 0);
    assert(analyzable(b) == b[0] + b[1] + b[2] + b[3]);
    crate::clock::iso8601_reads_back(from);
    crate::clock::iso8601_reads_back(to);
    crate::text::decimal_reads_back(a.total_slots);
    crate::text::decimal_reads_back((b[0] + b[1] + b[2] + b[3]) as u64);
    crate::text::decimal_reads_back(a.no_data_slots);
    seq![
        crate::clock::iso8601_text(from as nat),
        crate::clock::iso8601_text(to as nat),
        crate::text::decimal(a.total_slots as nat),
        crate::text::decimal(analyzable(b)),
        crate::text::decimal(a.no_data_slots as nat),
    ]
}

proof fn lemma_coverages(a: Analysis, t: SummaryTexts, n: nat)
    ensures
        coverages_words(a, t, n) == Seq::new(
            n,
            |v: int|
                coverage_words(
                    a.coverage@[v].0,
                    a.coverage@[v].1,
                    t.coverage@[v]@,
                    a.total_slots,
                ),
        ).flatten(),
    decreases n,
{
    let line = |v: int|
        coverage_words(a.coverage@[v].0, a.coverage@[v].1, t.coverage@[v]@, a.total_slots);
    crate::text::lemma_last_line(Seq::new(n, line));
    if n > 0 {
        lemma_coverages(a, t, (n - 1) as nat);
        assert(Seq::new(n, line).drop_last() =~= Seq::new((n - 1) as nat, line));
    }
}

proof fn lemma_bands(a: Analysis, t: SummaryTexts, n: nat)
    requires
        a.episodes@.len() <= usize::MAX,
    ensures
        bands_words(a, t, n) == Seq::new(
            n,
            |b: int|
                band_line(
                    b,
                    a.band_slots@[b],
                    t.shares@[b]@,
                    a.episodes@.filter(|e: Episode| e.band == b).len(),
                ),
        ).flatten(),
    decreases n,
{
    let line = |b: int|
        band_line(
            b,
            a.band_slots@[b],
            t.shares@[b]@,
            a.episodes@.filter(|e: Episode| e.band == b).len(),
        );
    crate::text::lemma_last_line(Seq::new(n, line));
    if n > 0 {
        lemma_bands(a, t, (n - 1) as nat);
        crate::divergence::ranking::bands_list_their_episodes(a.episodes@, n - 1);
        assert(Seq::new(n, line).drop_last() =~= Seq::new((n - 1) as nat, line));
    }
}

proof fn lemma_episode_lines(a: Analysis, t: SummaryTexts, shown: Seq<usize>, n: nat)
    requires
        n <= shown.len(),
    ensures
        episode_lines(a, t, shown, n) == Seq::new(
            n,
            |k: int| episode_line(a.episodes@[shown[k] as int], t.peaks@[shown[k] as int]),
        ).flatten(),
    decreases n,
{
    let line = |k: int| episode_line(a.episodes@[shown[k] as int], t.peaks@[shown[k] as int]);
    crate::text::lemma_last_line(Seq::new(n, line));
    if n > 0 {
        lemma_episode_lines(a, t, shown, (n - 1) as nat);
        assert(Seq::new(n, line).drop_last() =~= Seq::new((n - 1) as nat, line));
    }
}

/// A band with episodes has a table, which has a line for each episode that is
/// listed, with the figures of that episode. A heading says how many there are
/// where some are left out.
#[verifier::rlimit(60)]
pub proof fn tables_have_a_line_for_each_episode(
    band: int,
    a: Analysis,
    t: SummaryTexts,
    path: Seq<char>,
)
    requires
        a.episodes@.len() <= usize::MAX,
    ensures
        ({
            let shown = crate::divergence::ranking::listed(a.episodes@, band);
            let total = a.episodes@.filter(|e: Episode| e.band == band).len();
            &&& total == 0 ==> table(band, a, t, path) == Seq::<char>::empty()
            &&& total > 0 ==> table(band, a, t, path) == "episodes "@
                + crate::divergence::analysis::band_words(band) + (if band == 1 && total > 50 {
                " (top 50 of "@ + crate::text::decimal(total) + " by peak; full list in "@ + path
                    + "):\n"@
            } else {
                ":\n"@
            }) + table_columns() + Seq::new(
                shown.len(),
                |k: int| episode_line(a.episodes@[shown[k] as int], t.peaks@[shown[k] as int]),
            ).flatten() + "\n"@
        }),
{
    let shown = crate::divergence::ranking::listed(a.episodes@, band);
    let total = a.episodes@.filter(|e: Episode| e.band == band).len();
    crate::divergence::ranking::bands_list_their_episodes(a.episodes@, band);
    lemma_episode_lines(a, t, shown, shown.len());
    reveal_strlit(" (top ");
    reveal_strlit(" of ");
    reveal_strlit(" (top 50 of ");
    reveal_with_fuel(crate::text::decimal, 2);
    assert(" (top 50 of "@ =~= " (top "@ + crate::text::decimal(50) + " of "@);
    let tail = crate::text::decimal(total) + " by peak; full list in "@ + path + "):\n"@;
    assert(" (top "@ + crate::text::decimal(CAP as nat) + " of "@ + crate::text::decimal(total)
        + " by peak; full list in "@ + path + "):\n"@ =~= " (top 50 of "@ + crate::text::decimal(
        total,
    ) + " by peak; full list in "@ + path + "):\n"@);
}

/// A summary tells of the window, has a line for each exchange in its order and
/// one for each band from the lowest to the highest, and then the tables of the
/// upper three bands from the highest to the lowest.
#[verifier::rlimit(60)]
pub proof fn summaries_tell_everything(
    path: Seq<char>,
    from: u64,
    to: u64,
    a: Analysis,
    t: SummaryTexts,
)
    requires
        a.episodes@.len() <= usize::MAX,
    ensures
        summary_words(path, from, to, a, t) == window_words(from, to, a) + Seq::new(
            a.coverage@.len(),
            |v: int|
                coverage_words(
                    a.coverage@[v].0,
                    a.coverage@[v].1,
                    t.coverage@[v]@,
                    a.total_slots,
                ),
        ).flatten() + "\ndivergence d = max |price - mean| / mean across venues, per 1m slot:\n"@
            + Seq::new(
            4,
            |b: int|
                band_line(
                    b,
                    a.band_slots@[b],
                    t.shares@[b]@,
                    a.episodes@.filter(|e: Episode| e.band == b).len(),
                ),
        ).flatten() + "\n"@ + table(3, a, t, path) + table(2, a, t, path) + table(1, a, t, path),
{
    lemma_coverages(a, t, a.coverage@.len());
    lemma_bands(a, t, 4);
}

} // verus!
