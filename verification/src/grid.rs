//! Values of several exchanges on a common grid of time slots.

use std::collections::BTreeMap;

use vstd::prelude::*;

verus! {

/// The start of the slot that holds `ts`, on a grid of `step` seconds.
pub open spec fn slot_start(ts: nat, step: nat) -> nat {
    (ts - ts % step) as nat
}

/// Finds the start of the slot that holds `ts`.
pub fn snap_to(ts: u64, step: u64) -> (r: u64)
    requires
        step > 0,
    ensures
        r == slot_start(ts as nat, step as nat),
{
    proof {
        vstd::arithmetic::div_mod::lemma_mod_decreases(ts as nat, step as nat);
    }
    ts - ts % step
}

/// The start of a slot is on the grid, no later than what it holds, and less
/// than a step before it; and a time on the grid is the start of its slot.
pub proof fn slot_start_is_on_the_grid(ts: nat, step: nat)
    requires
        step > 0,
    ensures
        slot_start(ts, step) % step == 0,
        slot_start(ts, step) <= ts < slot_start(ts, step) + step,
        ts % step == 0 ==> slot_start(ts, step) == ts,
{
    vstd::arithmetic::div_mod::lemma_mod_decreases(ts, step);
    vstd::arithmetic::div_mod::lemma_fundamental_div_mod(ts as int, step as int);
    assert(ts - ts % step == step * (ts / step));
    vstd::arithmetic::div_mod::lemma_mod_multiples_basic((ts / step) as int, step as int);
    assert(step * (ts / step) == (ts / step) * step) by (nonlinear_arith);
}

/// Of two times the later one is in no earlier slot.
pub proof fn slots_keep_the_order(a: nat, b: nat, step: nat)
    requires
        step > 0,
        a <= b,
    ensures
        slot_start(a, step) <= slot_start(b, step),
{
    slot_start_is_on_the_grid(a, step);
    slot_start_is_on_the_grid(b, step);
    if slot_start(b, step) < slot_start(a, step) {
        let s = slot_start(a, step);
        let t = slot_start(b, step);
        vstd::arithmetic::div_mod::lemma_fundamental_div_mod(s as int, step as int);
        vstd::arithmetic::div_mod::lemma_fundamental_div_mod(t as int, step as int);
        let i = s / step;
        let j = t / step;
        assert(i >= j + 1) by (nonlinear_arith)
            requires
                step > 0,
                s == step * i,
                t == step * j,
                t < s,
        ;
        assert(step * i >= step * j + step) by (nonlinear_arith)
            requires
                i >= j + 1,
                step > 0,
        ;
    }
}

/// How many slots start in the window from `from` up to `to`.
pub open spec fn slot_count(from: nat, to: nat, step: nat) -> nat {
    if to <= from || step == 0 {
        0
    } else {
        ((to - from - 1) / step as int + 1) as nat
    }
}

/// The time of the slot with the number `i` in a window that starts at `from`.
pub open spec fn slot_time(from: nat, i: nat, step: nat) -> nat {
    from + i * step
}

/// The slots that are numbered below the count are those that start in the
/// window.
pub proof fn slots_lie_in_the_window(from: nat, to: nat, step: nat, i: nat)
    requires
        step > 0,
    ensures
        i < slot_count(from, to, step) <==> slot_time(from, i, step) < to,
{
    if to > from {
        let n = to - from - 1;
        vstd::arithmetic::div_mod::lemma_fundamental_div_mod(n, step as int);
        let q = n / step as int;
        assert(0 <= n % step as int && n % (step as int) < step);
        assert(i <= q ==> i * step <= q * step) by (nonlinear_arith);
        assert(i >= q + 1 ==> i * step >= (q + 1) * step) by (nonlinear_arith);
        assert((q + 1) * step == q * step + step) by (nonlinear_arith);
        assert(step * q == q * step) by (nonlinear_arith);
        vstd::arithmetic::div_mod::lemma_div_pos_is_pos(n, step as int);
    } else {
        assert(i * step >= 0) by (nonlinear_arith);
    }
}

/// For each exchange the values of its slots, by the time of the slot.
pub struct Grid<T> {
    pub columns: Vec<BTreeMap<u64, T>>,
}

impl<T> View for Grid<T> {
    type V = Seq<Map<u64, T>>;

    open spec fn view(&self) -> Seq<Map<u64, T>> {
        self.columns@.map_values(|c: BTreeMap<u64, T>| c@)
    }
}

/// What the exchanges hold at `ts`: the number of each exchange that holds
/// something, in ascending order, and what it holds.
pub open spec fn cells_at<T>(columns: Seq<Map<u64, T>>, ts: u64) -> Seq<(usize, T)>
    decreases columns.len(),
{
    if columns.len() == 0 {
        Seq::empty()
    } else {
        let before = cells_at(columns.drop_last(), ts);
        if columns.last().contains_key(ts) {
            before.push(((columns.len() - 1) as usize, columns.last()[ts]))
        } else {
            before
        }
    }
}

/// What a column holds at `ts`.
pub open spec fn held<T>(column: Map<u64, T>, ts: u64) -> Option<T> {
    if column.contains_key(ts) {
        Some(column[ts])
    } else {
        None
    }
}

/// What the exchanges hold at a time depends on nothing but that.
pub proof fn cells_depend_on_what_is_held<T>(
    a: Seq<Map<u64, T>>,
    b: Seq<Map<u64, T>>,
    ts: u64,
)
    requires
        a.len() == b.len(),
        forall|v: int| 0 <= v < a.len() ==> held(#[trigger] a[v], ts) == held(b[v], ts),
    ensures
        cells_at(a, ts) == cells_at(b, ts),
    decreases a.len(),
{
    if a.len() > 0 {
        let x = a.drop_last();
        let y = b.drop_last();
        assert forall|v: int| 0 <= v < x.len() implies held(#[trigger] x[v], ts) == held(
            y[v],
            ts,
        ) by {
            assert(x[v] == a[v] && y[v] == b[v]);
        }
        cells_depend_on_what_is_held(x, y, ts);
        assert(held(a[a.len() - 1], ts) == held(b[b.len() - 1], ts));
    }
}

/// The exchanges that hold something at `ts` are listed in ascending order, and
/// each of them with what it holds.
pub proof fn cells_are_what_is_held<T>(columns: Seq<Map<u64, T>>, ts: u64)
    requires
        columns.len() <= usize::MAX,
    ensures
        forall|k: int|
            0 <= k < cells_at(columns, ts).len() ==> {
                let cell = #[trigger] cells_at(columns, ts)[k];
                &&& cell.0 < columns.len()
                &&& columns[cell.0 as int].contains_key(ts)
                &&& cell.1 == columns[cell.0 as int][ts]
            },
        forall|j: int, k: int|
            0 <= j < k < cells_at(columns, ts).len() ==> (#[trigger] cells_at(columns, ts)[j]).0 < (
            #[trigger] cells_at(columns, ts)[k]).0,
        forall|v: int|
            0 <= v < columns.len() && (#[trigger] columns[v]).contains_key(ts) ==> cells_at(
                columns,
                ts,
            ).contains((v as usize, columns[v][ts])),
    decreases columns.len(),
{
    if columns.len() > 0 {
        let before = columns.drop_last();
        cells_are_what_is_held(before, ts);
        let old_cells = cells_at(before, ts);
        let cells = cells_at(columns, ts);
        assert forall|v: int|
            0 <= v < columns.len() && (#[trigger] columns[v]).contains_key(ts) implies cells.contains(
            (v as usize, columns[v][ts]),
        ) by {
            if v < columns.len() - 1 {
                assert(before[v] == columns[v]);
                let k = choose|k: int|
                    0 <= k < old_cells.len() && old_cells[k] == (v as usize, columns[v][ts]);
                assert(cells[k] == old_cells[k]);
            } else {
                assert(cells[cells.len() - 1] == (v as usize, columns[v][ts]));
            }
        }
    }
}

/// A slot and what the exchanges hold in it.
pub struct Row<T> {
    pub ts: u64,
    pub cells: Vec<(usize, T)>,
}

impl<T> View for Row<T> {
    type V = (u64, Seq<(usize, T)>);

    open spec fn view(&self) -> (u64, Seq<(usize, T)>) {
        (self.ts, self.cells@)
    }
}

/// The slots in which some exchange holds something, among the first `n` from
/// `from` on.
pub open spec fn held_rows<T>(columns: Seq<Map<u64, T>>, from: u64, n: nat, step: u64) -> Seq<
    (u64, Seq<(usize, T)>),
>
    decreases n,
{
    if n == 0 {
        Seq::empty()
    } else {
        let before = held_rows(columns, from, (n - 1) as nat, step);
        let ts = slot_time(from as nat, (n - 1) as nat, step as nat) as u64;
        let cells = cells_at(columns, ts);
        if cells.len() == 0 {
            before
        } else {
            before.push((ts, cells))
        }
    }
}

/// The rows of a window come in the order of time, each at a slot of the
/// window, and each with what the exchanges hold at that slot, of which there
/// is some.
pub proof fn rows_are_in_order<T>(columns: Seq<Map<u64, T>>, from: u64, n: nat, step: u64)
    requires
        step > 0,
        from + n * step <= u64::MAX,
    ensures
        forall|k: int|
            0 <= k < held_rows(columns, from, n, step).len() ==> {
                let row = #[trigger] held_rows(columns, from, n, step)[k];
                &&& row.1 == cells_at(columns, row.0)
                &&& row.1.len() > 0
                &&& from <= row.0
                &&& (row.0 - from) % step as int == 0
                &&& row.0 < from + n * step
            },
        forall|j: int, k: int|
            0 <= j < k < held_rows(columns, from, n, step).len() ==> (#[trigger] held_rows(
                columns,
                from,
                n,
                step,
            )[j]).0 < (#[trigger] held_rows(columns, from, n, step)[k]).0,
    decreases n,
{
    if n > 0 {
        let m = (n - 1) as nat;
        let rows = held_rows(columns, from, n, step);
        let before = held_rows(columns, from, m, step);
        assert(n * step == m * step + step) by (nonlinear_arith)
            requires
                n == m + 1,
        ;
        assert(m * step >= 0) by (nonlinear_arith);
        rows_are_in_order(columns, from, m, step);
        let ts = slot_time(from as nat, m, step as nat) as u64;
        assert((ts - from) % step as int == 0) by {
            vstd::arithmetic::div_mod::lemma_mod_multiples_basic(m as int, step as int);
        }
        assert forall|j: int, k: int| 0 <= j < k < rows.len() implies (#[trigger] rows[j]).0 < (
        #[trigger] rows[k]).0 by {
            if k < before.len() {
                assert(before[j].0 < before[k].0);
            } else {
                assert(rows[j] == before[j]);
            }
        }
    }
}

/// Every slot of a window in which some exchange holds something has a row.
pub proof fn every_held_slot_has_a_row<T>(
    columns: Seq<Map<u64, T>>,
    from: u64,
    n: nat,
    step: u64,
    i: nat,
    v: int,
) -> (k: int)
    requires
        step > 0,
        from + n * step <= u64::MAX,
        columns.len() <= usize::MAX,
        i < n,
        0 <= v < columns.len(),
        columns[v].contains_key((from + i * step) as u64),
    ensures
        0 <= k < held_rows(columns, from, n, step).len(),
        held_rows(columns, from, n, step)[k].0 == from + i * step,
        held_rows(columns, from, n, step)[k].1.contains(
            (v as usize, columns[v][(from + i * step) as u64]),
        ),
    decreases n,
{
    let m = (n - 1) as nat;
    let before = held_rows(columns, from, m, step);
    assert(n * step == m * step + step) by (nonlinear_arith)
        requires
            n == m + 1,
    ;
    if i < m {
        let k = every_held_slot_has_a_row(columns, from, m, step, i, v);
        assert(held_rows(columns, from, n, step)[k] == before[k]);
        k
    } else {
        let ts = slot_time(from as nat, m, step as nat) as u64;
        assert(ts == from + i * step);
        cells_are_what_is_held(columns, ts);
        assert(cells_at(columns, ts).contains((v as usize, columns[v][ts])));
        held_rows(columns, from, n, step).len() - 1
    }
}

/// Whether `r` is the first and the last time at which a column holds
/// something, or nothing where it holds nothing.
pub open spec fn is_column_span<T>(column: Map<u64, T>, r: Option<(u64, u64)>) -> bool {
    match r {
        Some((first, last)) => {
            &&& column.contains_key(first)
            &&& column.contains_key(last)
            &&& forall|ts: u64| #[trigger] column.contains_key(ts) ==> first <= ts <= last
        },
        None => forall|ts: u64| !(#[trigger] column.contains_key(ts)),
    }
}

/// Whether some exchange holds something at `ts`.
pub open spec fn holds_at<T>(columns: Seq<Map<u64, T>>, ts: u64) -> bool {
    exists|v: int| 0 <= v < columns.len() && (#[trigger] columns[v]).contains_key(ts)
}

/// Whether `r` is the first and the last time at which some exchange holds
/// something, or nothing where none does.
pub open spec fn is_span<T>(columns: Seq<Map<u64, T>>, r: Option<(u64, u64)>) -> bool {
    match r {
        Some((first, last)) => {
            &&& holds_at(columns, first)
            &&& holds_at(columns, last)
            &&& forall|ts: u64| #[trigger] holds_at(columns, ts) ==> first <= ts <= last
        },
        None => forall|ts: u64| !(#[trigger] holds_at(columns, ts)),
    }
}

/// How many exchanges hold something.
pub open spec fn in_use<T>(columns: Seq<Map<u64, T>>) -> nat
    decreases columns.len(),
{
    if columns.len() == 0 {
        0
    } else {
        in_use(columns.drop_last()) + if columns.last().is_empty() {
            0nat
        } else {
            1nat
        }
    }
}

impl<T: Copy> Grid<T> {
    /// A grid for `n` exchanges that holds nothing.
    pub fn new(n: usize) -> (r: Self)
        ensures
            r@ == Seq::new(n as nat, |i: int| Map::<u64, T>::empty()),
    {
        let mut columns: Vec<BTreeMap<u64, T>> = Vec::new();
        let mut i: usize = 0;
        while i < n
            invariant
                i <= n,
                columns.len() == i,
                forall|k: int| 0 <= k < i ==> (#[trigger] columns@[k])@ == Map::<u64, T>::empty(),
            decreases n - i,
        {
            columns.push(BTreeMap::new());
            i = i + 1;
        }
        let r = Grid { columns };
        assert(r@ =~= Seq::new(n as nat, |i: int| Map::<u64, T>::empty()));
        r
    }

    /// Puts a value into the slot at `ts` of the exchange with the number `v`,
    /// in place of what the slot held.
    pub fn put(&mut self, v: usize, ts: u64, value: T)
        requires
            v < old(self)@.len(),
        ensures
            final(self)@ == old(self)@.update(v as int, old(self)@[v as int].insert(ts, value)),
    {
        self.columns[v].insert(ts, value);
        assert(self@ =~= old(self)@.update(v as int, old(self)@[v as int].insert(ts, value)));
    }

    /// What the exchange with the number `v` holds at `ts`.
    pub fn cell(&self, v: usize, ts: u64) -> (r: Option<T>)
        requires
            v < self@.len(),
        ensures
            r == held(self@[v as int], ts),
    {
        match self.columns[v].get(&ts) {
            Some(value) => Some(*value),
            None => None,
        }
    }

    /// What the exchanges hold at `ts`.
    pub fn cells(&self, ts: u64) -> (r: Vec<(usize, T)>)
        ensures
            r@ == cells_at(self@, ts),
    {
        let mut out: Vec<(usize, T)> = Vec::new();
        let mut v: usize = 0;
        assert(self@.take(0) =~= Seq::empty());
        while v < self.columns.len()
            invariant
                v <= self@.len(),
                self@.len() == self.columns.len(),
                out@ == cells_at(self@.take(v as int), ts),
            decreases self.columns.len() - v,
        {
            assert(self@.take(v + 1).drop_last() =~= self@.take(v as int));
            match self.cell(v, ts) {
                Some(value) => {
                    out.push((v, value));
                },
                None => {},
            }
            v = v + 1;
        }
        assert(self@.take(self@.len() as int) =~= self@);
        out
    }

    /// The slot at `ts` with what the exchanges hold in it, where one does.
    pub fn row_at(&self, ts: u64) -> (r: Option<Row<T>>)
        ensures
            r is None <==> cells_at(self@, ts).len() == 0,
            r matches Some(row) ==> row@ == (ts, cells_at(self@, ts)),
    {
        let cells = self.cells(ts);
        if cells.len() == 0 {
            None
        } else {
            Some(Row { ts, cells })
        }
    }

    /// The first and the last time at which the exchange with the number `v`
    /// holds something.
    pub fn column_span(&self, v: usize) -> (r: Option<(u64, u64)>)
        requires
            v < self@.len(),
        ensures
            is_column_span(self@[v as int], r),
    {
        let column = &self.columns[v];
        let mut span: Option<(u64, u64)> = None;
        for key in it: column.keys()
            invariant
                it.seq().unref().to_set() == column@.dom(),
                match span {
                    Some((first, last)) => {
                        &&& column@.contains_key(first)
                        &&& column@.contains_key(last)
                        &&& forall|k: int|
                            0 <= k < it.index() ==> first <= *(#[trigger] it.seq()[k]) <= last
                    },
                    None => it.index() == 0,
                },
        {
            let ts: u64 = *key;
            assert(it.seq().unref().to_set().contains(ts)) by {
                assert(it.seq().unref()[it.index() as int] == ts);
            }
            span = match span {
                Some((first, last)) => Some(
                    (
                        if ts < first {
                            ts
                        } else {
                            first
                        },
                        if ts > last {
                            ts
                        } else {
                            last
                        },
                    ),
                ),
                None => Some((ts, ts)),
            };
        }
        span
    }

    /// How many slots of the exchange with the number `v` hold something.
    pub fn column_len(&self, v: usize) -> (r: usize)
        requires
            v < self@.len(),
        ensures
            r == self@[v as int].len(),
    {
        self.columns[v].len()
    }

    /// The first and the last time at which some exchange holds something.
    pub fn span(&self) -> (r: Option<(u64, u64)>)
        ensures
            is_span(self@, r),
    {
        let mut span: Option<(u64, u64)> = None;
        let mut v: usize = 0;
        assert(self@.take(0) =~= Seq::empty());
        while v < self.columns.len()
            invariant
                v <= self@.len(),
                self@.len() == self.columns.len(),
                is_span(self@.take(v as int), span),
            decreases self.columns.len() - v,
        {
            let ghost before = self@.take(v as int);
            let ghost after = self@.take(v + 1);
            let one = self.column_span(v);
            let joined = match (span, one) {
                (Some((a, b)), Some((c, d))) => Some(
                    (
                        if c < a {
                            c
                        } else {
                            a
                        },
                        if d > b {
                            d
                        } else {
                            b
                        },
                    ),
                ),
                (Some(s), None) => Some(s),
                (None, other) => other,
            };
            proof {
                assert(after[v as int] == self@[v as int]);
                assert forall|ts: u64| #[trigger] holds_at(after, ts) <==> holds_at(before, ts)
                    || self@[v as int].contains_key(ts) by {
                    if holds_at(before, ts) {
                        let w = choose|w: int|
                            0 <= w < before.len() && (#[trigger] before[w]).contains_key(ts);
                        assert(after[w] == before[w]);
                    }
                    if holds_at(after, ts) {
                        let w = choose|w: int|
                            0 <= w < after.len() && (#[trigger] after[w]).contains_key(ts);
                        if w < v {
                            assert(before[w] == after[w]);
                        }
                    }
                }
            }
            span = joined;
            v = v + 1;
        }
        assert(self@.take(self@.len() as int) =~= self@);
        span
    }

    /// How many exchanges hold something.
    pub fn columns_in_use(&self) -> (r: usize)
        ensures
            r == in_use(self@),
    {
        let mut n: usize = 0;
        let mut v: usize = 0;
        assert(self@.take(0) =~= Seq::empty());
        while v < self.columns.len()
            invariant
                v <= self@.len(),
                self@.len() == self.columns.len(),
                n <= v,
                n == in_use(self@.take(v as int)),
            decreases self.columns.len() - v,
        {
            assert(self@.take(v + 1).drop_last() =~= self@.take(v as int));
            assert(self@.take(v + 1).last() == self.columns@[v as int]@);
            if !self.columns[v].is_empty() {
                n = n + 1;
            }
            v = v + 1;
        }
        assert(self@.take(self@.len() as int) =~= self@);
        n
    }

    /// The slots of the window from `from` up to `to` in which some exchange
    /// holds something.
    pub fn rows(&self, from: u64, to: u64, step: u64) -> (r: Vec<Row<T>>)
        requires
            step > 0,
            to <= u64::MAX - step,
        ensures
            r@.map_values(|row: Row<T>| row@) == held_rows(
                self@,
                from,
                slot_count(from as nat, to as nat, step as nat),
                step,
            ),
    {
        let ghost n = slot_count(from as nat, to as nat, step as nat);
        let mut out: Vec<Row<T>> = Vec::new();
        let mut ts: u64 = from;
        let ghost mut i: nat = 0;
        assert(slot_time(from as nat, 0, step as nat) == from);
        assert(out@.map_values(|row: Row<T>| row@) =~= held_rows(self@, from, 0, step));
        proof {
            slots_lie_in_the_window(from as nat, to as nat, step as nat, 0);
        }
        while ts < to
            invariant
                step > 0,
                to <= u64::MAX - step,
                n == slot_count(from as nat, to as nat, step as nat),
                ts == slot_time(from as nat, i, step as nat),
                i <= n,
                ts < to <==> i < n,
                out@.map_values(|row: Row<T>| row@) == held_rows(self@, from, i, step),
            decreases u64::MAX - ts,
        {
            let ghost before = out@;
            match self.row_at(ts) {
                Some(row) => {
                    out.push(row);
                    assert(out@.map_values(|row: Row<T>| row@) =~= before.map_values(
                        |row: Row<T>| row@,
                    ).push(row@));
                },
                None => {},
            }
            proof {
                assert((i + 1) * step == i * step + step) by (nonlinear_arith);
                i = i + 1;
                slots_lie_in_the_window(from as nat, to as nat, step as nat, i);
            }
            ts = ts + step;
        }
        out
    }
}


/// The exchanges in use are those that hold something.
pub proof fn columns_in_use_hold_something<T>(columns: Seq<Map<u64, T>>)
    ensures
        in_use(columns) == columns.filter(|c: Map<u64, T>| !c.is_empty()).len(),
    decreases columns.len(),
{
    reveal(Seq::filter);
    if columns.len() > 0 {
        columns_in_use_hold_something(columns.drop_last());
    }
}

} // verus!
