//! Reading the closes of an earlier run back from their log.

use serde_json::{Error, Map as Object, Value};

use vstd::prelude::*;
use vstd::string::*;

use crate::divergence::analysis::snap;
use crate::grid::Grid;
use crate::json::{get, parse_object, value_count, value_number, Json};
use crate::number::Num;
use crate::text::{blank, push_decimal};
use crate::venue::{with_minutes, Venue};

verus! {

/// The price of an exchange in a row: the number under the name of the
/// exchange.
pub open spec fn price_in(entries: Seq<(Seq<char>, Json)>, venue: Venue) -> Option<Num> {
    match crate::json::lookup(entries, crate::venue::venue_name(venue)) {
        Some(j) => match crate::json::number_in(j) {
            Some(bits) => Some(Num { bits }),
            None => None,
        },
        None => None,
    }
}

/// The time of a row: the whole number under `ts`.
pub open spec fn time_in(entries: Seq<(Seq<char>, Json)>) -> Option<u64> {
    match crate::json::lookup(entries, "ts"@) {
        Some(j) => crate::json::count_in(j),
        None => None,
    }
}

/// The start of the minute that holds `ts`.
pub open spec fn minute(ts: u64) -> u64 {
    crate::grid::slot_start(ts as nat, crate::divergence::analysis::STEP as nat) as u64
}

/// The columns with the prices of one more row, at the minute that holds `ts`.
pub open spec fn with_row(
    columns: Seq<Map<u64, Num>>,
    ts: u64,
    entries: Seq<(Seq<char>, Json)>,
) -> Seq<Map<u64, Num>> {
    Seq::new(
        columns.len(),
        |v: int|
            match price_in(entries, crate::venue::minute_venues()[v]) {
                Some(p) => columns[v].insert(minute(ts), p),
                None => columns[v],
            },
    )
}

/// What is wrong with a line.
pub enum LineFault {
    /// It is no JSON object.
    Syntax,
    /// It has no time.
    NoTime,
}

/// The columns with one more line. A blank line adds nothing.
pub open spec fn with_line(columns: Seq<Map<u64, Num>>, line: Seq<char>) -> Result<
    Seq<Map<u64, Num>>,
    LineFault,
> {
    if crate::text::is_blank(line) {
        Ok(columns)
    } else {
        match crate::json::parsed_object(line) {
            Some(entries) => match time_in(entries) {
                Some(ts) => Ok(with_row(columns, ts, entries)),
                None => Err(LineFault::NoTime),
            },
            None => Err(LineFault::Syntax),
        }
    }
}

/// Columns for every exchange with candles of one minute that hold nothing.
pub open spec fn no_prices() -> Seq<Map<u64, Num>> {
    Seq::new(crate::venue::minute_venues().len(), |v: int| Map::<u64, Num>::empty())
}

/// The columns that lines add up to, or the number of the first faulty line,
/// counted from 1, and what is wrong with it.
pub open spec fn added_up(lines: Seq<Seq<char>>) -> Result<Seq<Map<u64, Num>>, (nat, LineFault)>
    decreases lines.len(),
{
    if lines.len() == 0 {
        Ok(no_prices())
    } else {
        match added_up(lines.drop_last()) {
            Ok(columns) => match with_line(columns, lines.last()) {
                Ok(more) => Ok(more),
                Err(fault) => Err((lines.len(), fault)),
            },
            Err(e) => Err(e),
        }
    }
}

/// Why a log cannot be read.
pub enum InputFault {
    /// A line is faulty.
    Line { number: nat, fault: LineFault },
    /// No line has a price of a known exchange.
    NoRows,
}

/// The columns that the lines of a log stand for.
pub open spec fn loaded(lines: Seq<Seq<char>>) -> Result<Seq<Map<u64, Num>>, InputFault> {
    match added_up(lines) {
        Ok(columns) => if crate::grid::in_use(columns) == 0 {
            Err(InputFault::NoRows)
        } else {
            Ok(columns)
        },
        Err((number, fault)) => Err(InputFault::Line { number, fault }),
    }
}

/// What is wrong with a line, with what the parser says.
pub enum LineError {
    Syntax(Error),
    NoTime,
}

impl View for LineError {
    type V = LineFault;

    open spec fn view(&self) -> LineFault {
        match *self {
            LineError::Syntax(_) => LineFault::Syntax,
            LineError::NoTime => LineFault::NoTime,
        }
    }
}

/// Why a log cannot be read.
pub enum InputError {
    Line { number: usize, error: LineError },
    NoRows,
}

impl View for InputError {
    type V = InputFault;

    open spec fn view(&self) -> InputFault {
        match *self {
            InputError::Line { number, error } => InputFault::Line {
                number: number as nat,
                fault: error@,
            },
            InputError::NoRows => InputFault::NoRows,
        }
    }
}

fn read_price(obj: &Object<String, Value>, venue: Venue) -> (r: Option<Num>)
    ensures
        r == price_in(crate::json::entries(*obj), venue),
{
    match get(obj, venue.name()) {
        Some(value) => match value_number(value) {
            Some(bits) => Some(Num { bits }),
            None => None,
        },
        None => None,
    }
}

fn read_time(obj: &Object<String, Value>) -> (r: Option<u64>)
    ensures
        r == time_in(crate::json::entries(*obj)),
{
    match get(obj, "ts") {
        Some(value) => value_count(value),
        None => None,
    }
}

fn add_row(grid: &mut Grid<Num>, ts: u64, obj: &Object<String, Value>)
    requires
        old(grid)@.len() == crate::venue::minute_venues().len(),
    ensures
        final(grid)@ == with_row(old(grid)@, ts, crate::json::entries(*obj)),
{
    let ghost start = grid@;
    let ghost goal = with_row(start, ts, crate::json::entries(*obj));
    let venues = with_minutes();
    let slot = snap(ts);
    let mut v: usize = 0;
    while v < venues.len()
        invariant
            v <= venues@.len(),
            venues@ == crate::venue::minute_venues(),
            slot == minute(ts),
            start.len() == venues@.len(),
            grid@.len() == venues@.len(),
            goal == with_row(start, ts, crate::json::entries(*obj)),
            forall|k: int| 0 <= k < v ==> #[trigger] grid@[k] == goal[k],
            forall|k: int| v <= k < venues@.len() ==> #[trigger] grid@[k] == start[k],
        decreases venues.len() - v,
    {
        match read_price(obj, venues[v]) {
            Some(p) => {
                grid.put(v, slot, p);
            },
            None => {},
        }
        v = v + 1;
    }
    assert(grid@ =~= goal);
}

/// Adds the prices of a line to a grid. A faulty line adds nothing.
pub fn add_line(grid: &mut Grid<Num>, line: &str) -> (r: Result<(), LineError>)
    requires
        old(grid)@.len() == crate::venue::minute_venues().len(),
    ensures
        match r {
            Ok(_) => with_line(old(grid)@, line@) == Ok::<Seq<Map<u64, Num>>, LineFault>(
                final(grid)@,
            ),
            Err(e) => with_line(old(grid)@, line@) == Err::<Seq<Map<u64, Num>>, LineFault>(e@)
                && final(grid)@ == old(grid)@,
        },
{
    if blank(line) {
        return Ok(());
    }
    match parse_object(line) {
        Ok(obj) => match read_time(&obj) {
            Some(ts) => {
                add_row(grid, ts, &obj);
                Ok(())
            },
            None => Err(LineError::NoTime),
        },
        Err(e) => Err(LineError::Syntax(e)),
    }
}

/// Reads the lines of a log.
pub fn load_input(lines: &Vec<String>) -> (r: Result<Grid<Num>, InputError>)
    ensures
        match r {
            Ok(grid) => loaded(crate::args::texts(lines@)) == Ok::<
                Seq<Map<u64, Num>>,
                InputFault,
            >(grid@),
            Err(e) => loaded(crate::args::texts(lines@)) == Err::<
                Seq<Map<u64, Num>>,
                InputFault,
            >(e@),
        },
{
    let ghost all = crate::args::texts(lines@);
    let mut grid: Grid<Num> = Grid::new(6);
    assert(grid@ =~= no_prices());
    let mut i: usize = 0;
    assert(all.take(0) =~= Seq::empty());
    while i < lines.len()
        invariant
            i <= lines@.len(),
            all == crate::args::texts(lines@),
            grid@.len() == crate::venue::minute_venues().len(),
            added_up(all.take(i as int)) == Ok::<Seq<Map<u64, Num>>, (nat, LineFault)>(grid@),
        decreases lines.len() - i,
    {
        assert(all.take(i + 1).drop_last() =~= all.take(i as int));
        assert(all.take(i + 1).last() == lines@[i as int]@);
        let number: usize = i + 1;
        match add_line(&mut grid, lines[i].as_str()) {
            Ok(_) => {},
            Err(error) => {
                proof {
                    lemma_first_fault(all, number as int);
                }
                return Err(InputError::Line { number, error });
            },
        }
        i = i + 1;
    }
    assert(all.take(all.len() as int) =~= all);
    if grid.columns_in_use() == 0 {
        Err(InputError::NoRows)
    } else {
        Ok(grid)
    }
}

proof fn lemma_first_fault(lines: Seq<Seq<char>>, n: int)
    requires
        0 <= n <= lines.len(),
        added_up(lines.take(n)) is Err,
    ensures
        added_up(lines) == added_up(lines.take(n)),
    decreases lines.len(),
{
    if n == lines.len() {
        assert(lines.take(n) =~= lines);
    } else {
        assert(lines.drop_last().take(n) =~= lines.take(n));
        lemma_first_fault(lines.drop_last(), n);
    }
}

/// What a failure to read the log at `path` says.
pub open spec fn input_words(fault: InputFault, path: Seq<char>) -> Seq<char> {
    match fault {
        InputFault::Line { number, fault: LineFault::Syntax } => "parsing "@ + path + ":"@
            + crate::text::decimal(number),
        InputFault::Line { number, fault: LineFault::NoTime } => path + ":"@
            + crate::text::decimal(number) + ": missing ts"@,
        InputFault::NoRows => path + ": no rows for any known exchange"@,
    }
}

impl InputError {
    /// Says why the log at `path` cannot be read.
    pub fn message(&self, path: &str) -> (r: String)
        ensures
            r@ == input_words(self@, path@),
    {
        match self {
            InputError::Line { number, error } => match error {
                LineError::Syntax(_) => {
                    let mut out = "parsing ".to_owned();
                    out.append(path);
                    out.append(":");
                    push_decimal(&mut out, *number as u64);
                    out
                },
                LineError::NoTime => {
                    let mut out = path.to_owned();
                    out.append(":");
                    push_decimal(&mut out, *number as u64);
                    out.append(": missing ts");
                    out
                },
            },
            InputError::NoRows => {
                let mut out = path.to_owned();
                out.append(": no rows for any known exchange");
                out
            },
        }
    }
}


/// A row adds the price of each exchange for which it has a number to the minute
/// that holds its time, in place of what that minute held; and it changes
/// nothing else.
pub proof fn rows_add_their_prices(
    columns: Seq<Map<u64, Num>>,
    line: Seq<char>,
    entries: Seq<(Seq<char>, Json)>,
    ts: u64,
    v: int,
    other: u64,
)
    requires
        !crate::text::is_blank(line),
        crate::json::parsed_object(line) == Some(entries),
        crate::json::lookup(entries, "ts"@) == Some(Json::Count(ts)),
        0 <= v < columns.len(),
        columns.len() <= crate::venue::minute_venues().len(),
    ensures
        with_line(columns, line) matches Ok(more) && {
            let slot = (ts - ts % 60) as u64;
            let found = crate::json::lookup(
                entries,
                crate::venue::venue_name(crate::venue::minute_venues()[v]),
            );
            &&& more.len() == columns.len()
            &&& found matches Some(Json::Float(bits)) ==> more[v] == columns[v].insert(
                slot,
                Num { bits },
            )
            &&& found matches Some(Json::Count(n)) ==> more[v] == columns[v].insert(
                slot,
                Num { bits: crate::json::whole_as_float(n as int) },
            )
            &&& found matches Some(Json::Negative(n)) ==> more[v] == columns[v].insert(
                slot,
                Num { bits: crate::json::whole_as_float(n as int) },
            )
            &&& found is None || found->Some_0 is Null || found->Some_0 is Bool
                || found->Some_0 is Text || found->Some_0 is Array || found->Some_0 is Object
                ==> more[v] == columns[v]
            &&& other != slot ==> crate::grid::held(more[v], other) == crate::grid::held(
                columns[v],
                other,
            )
        },
{
    crate::grid::slot_start_is_on_the_grid(ts as nat, 60);
}

/// A blank line adds nothing. A line that is no object, and one without a whole
/// number under `ts`, is faulty.
pub proof fn lines_without_a_time_are_faulty(columns: Seq<Map<u64, Num>>, line: Seq<char>)
    ensures
        crate::text::is_blank(line) ==> with_line(columns, line) == Ok::<
            Seq<Map<u64, Num>>,
            LineFault,
        >(columns),
        !crate::text::is_blank(line) && crate::json::parsed_object(line) is None ==> with_line(
            columns,
            line,
        ) == Err::<Seq<Map<u64, Num>>, LineFault>(LineFault::Syntax),
        !crate::text::is_blank(line) && crate::json::parsed_object(line) is Some && !(
        crate::json::lookup(crate::json::parsed_object(line)->Some_0, "ts"@) matches Some(Json::Count(_)))
            ==> with_line(columns, line) == Err::<Seq<Map<u64, Num>>, LineFault>(
            LineFault::NoTime,
        ),
{
}

/// A log is refused for its first faulty line, which is counted from one. Without
/// a faulty line, every line is added to what those before it add up to.
pub proof fn logs_are_read_line_by_line(lines: Seq<Seq<char>>)
    ensures
        match added_up(lines) {
            Ok(_) => forall|i: int|
                0 <= i < lines.len() ==> added_up(lines.take(i)) is Ok && with_line(
                    added_up(lines.take(i))->Ok_0,
                    #[trigger] lines[i],
                ) == Ok::<Seq<Map<u64, Num>>, LineFault>(added_up(lines.take(i + 1))->Ok_0),
            Err((number, fault)) => {
                &&& 1 <= number <= lines.len()
                &&& added_up(lines.take(number - 1)) is Ok
                &&& with_line(added_up(lines.take(number - 1))->Ok_0, lines[number - 1]) == Err::<
                    Seq<Map<u64, Num>>,
                    LineFault,
                >(fault)
            },
        },
        added_up(Seq::empty()) matches Ok(columns) && columns.len() == 6 && forall|v: int|
            0 <= v < 6 ==> #[trigger] columns[v] == Map::<u64, Num>::empty(),
    decreases lines.len(),
{
    if lines.len() > 0 {
        let before = lines.drop_last();
        logs_are_read_line_by_line(before);
        assert(lines.take(lines.len() - 1) =~= before);
        assert(lines.take(lines.len() as int) =~= lines);
        match added_up(before) {
            Ok(_) => {
                if added_up(lines) is Ok {
                    assert forall|i: int| 0 <= i < lines.len() implies added_up(lines.take(i)) is Ok
                        && with_line(added_up(lines.take(i))->Ok_0, #[trigger] lines[i]) == Ok::<
                        Seq<Map<u64, Num>>,
                        LineFault,
                    >(added_up(lines.take(i + 1))->Ok_0) by {
                        if i < before.len() {
                            assert(before.take(i) =~= lines.take(i));
                            assert(before.take(i + 1) =~= lines.take(i + 1));
                            assert(before[i] == lines[i]);
                        }
                    }
                }
            },
            Err((number, _)) => {
                assert(before.take(number - 1) =~= lines.take(number - 1));
                assert(before[number - 1] == lines[number - 1]);
            },
        }
    }
}

/// A log loads where no line is faulty and some exchange has a price.
pub proof fn logs_need_a_price(lines: Seq<Seq<char>>)
    ensures
        match added_up(lines) {
            Ok(columns) => if exists|v: int| 0 <= v < columns.len() && !(#[trigger] columns[v]).is_empty() {
                loaded(lines) == Ok::<Seq<Map<u64, Num>>, InputFault>(columns)
            } else {
                loaded(lines) == Err::<Seq<Map<u64, Num>>, InputFault>(InputFault::NoRows)
            },
            Err((number, fault)) => loaded(lines) == Err::<Seq<Map<u64, Num>>, InputFault>(
                InputFault::Line { number, fault },
            ),
        },
{
    if let Ok(columns) = added_up(lines) {
        lemma_in_use(columns);
    }
}

proof fn lemma_in_use(columns: Seq<Map<u64, Num>>)
    ensures
        crate::grid::in_use(columns) > 0 <==> exists|v: int|
            0 <= v < columns.len() && !(#[trigger] columns[v]).is_empty(),
    decreases columns.len(),
{
    if columns.len() > 0 {
        let before = columns.drop_last();
        lemma_in_use(before);
        if crate::grid::in_use(before) > 0 {
            let v = choose|v: int| 0 <= v < before.len() && !(#[trigger] before[v]).is_empty();
            assert(columns[v] == before[v]);
        }
        if exists|v: int| 0 <= v < columns.len() && !(#[trigger] columns[v]).is_empty() {
            let v = choose|v: int| 0 <= v < columns.len() && !(#[trigger] columns[v]).is_empty();
            if v < before.len() {
                assert(before[v] == columns[v]);
            }
        }
        if !columns.last().is_empty() {
            assert(columns[columns.len() - 1] == columns.last());
        }
    }
}


/// A refusal names the log, and the number of the line where one is faulty.
pub proof fn refusals_name_the_line(number: u64, path: Seq<char>) -> (told: Seq<char>)
    ensures
        input_words(
            InputFault::Line { number: number as nat, fault: LineFault::Syntax },
            path,
        ) == "parsing "@ + path + ":"@ + told,
        input_words(
            InputFault::Line { number: number as nat, fault: LineFault::NoTime },
            path,
        ) == path + ":"@ + told + ": missing ts"@,
        crate::text::parsed_u64(told) == Ok::<u64, crate::text::IntError>(number),
{
    crate::text::decimal_reads_back(number);
    crate::text::decimal(number as nat)
}

} // verus!
