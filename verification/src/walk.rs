//! What a whole run draws: the laws that tie the driver's single steps to the
//! order of the walk, and the walk to the counters in the tables.

use vstd::prelude::*;
use vstd::arithmetic::div_mod::{lemma_fundamental_div_mod_converse, lemma_mod_pos_bound};
use crate::driver::{DriverModel, Report, Stage};
use crate::mapping::{Load, MappingPolicy};
use crate::store::{
    draw_statements, drawn, execute_all, lemma_counters_never_decrease, lemma_draws_accumulate,
    provisioned, routable, routed, Store,
};

verus! {

impl DriverModel {
    /// The number of pixel visits in a whole run: every pixel once in every
    /// pass of its column's interval.
    pub open spec fn draw_count(self) -> nat {
        self.width * self.plan.passes_per_interval * self.height
    }

    /// The load of the visit at place `k` of a whole run. The visits go
    /// column by column; within a column pass by pass; within a pass row by
    /// row.
    pub open spec fn draw(self, k: int) -> Load {
        self.load_at(
            k / ((self.plan.passes_per_interval * self.height) as int),
            k % (self.height as int),
        )
    }

    /// The loads of a whole run, in the order of the walk.
    pub open spec fn draws(self) -> Seq<Load> {
        Seq::new(self.draw_count(), |k: int| self.draw(k))
    }

    /// The number of visits that the driver has asked for so far, as its
    /// cursor tells it. It is not defined for an aborted run.
    pub open spec fn asked(self) -> nat {
        ((self.cursor.column * self.plan.passes_per_interval + self.cursor.pass) * self.height
            + self.cursor.row + if self.cursor.stage == Stage::Drawing {
            1int
        } else {
            0int
        }) as nat
    }

    /// The load that the driver asks to draw in answer to `report`, if it
    /// asks for a drawing.
    pub open spec fn asks_draw(self, report: Report) -> Option<Load> {
        let next = self.step_cursor(report);
        if next.stage == Stage::Drawing {
            Some(self.load_at(next.column as int, next.row as int))
        } else {
            None
        }
    }

    /// The driver after the reports were given to it in order.
    pub open spec fn run(self, reports: Seq<Report>) -> DriverModel
        decreases reports.len(),
    {
        if reports.len() == 0 {
            self
        } else {
            self.run(reports.drop_last()).step(reports.last())
        }
    }

    /// The loads that the driver asked to draw, in order, while the reports
    /// were given to it.
    pub open spec fn run_draws(self, reports: Seq<Report>) -> Seq<Load>
        decreases reports.len(),
    {
        if reports.len() == 0 {
            Seq::empty()
        } else {
            let sofar = self.run_draws(reports.drop_last());
            match self.run(reports.drop_last()).asks_draw(reports.last()) {
                Some(load) => sofar.push(load),
                None => sofar,
            }
        }
    }
}

/// The visit of `row` in pass `pass` of `column` stands at the place that
/// the order of the walk gives it, and that place lies within the column.
proof fn lemma_draw_index(column: nat, pass: nat, row: nat, passes: nat, height: nat)
    requires
        pass < passes,
        row < height,
    ensures
        (((column * passes + pass) * height + row) as int) / ((passes * height) as int) == column,
        (((column * passes + pass) * height + row) as int) % (height as int) == row,
        (column * passes + pass) * height + row < (column + 1) * passes * height,
{
    let k = ((column * passes + pass) * height + row) as int;
    let inner = (pass * height + row) as int;
    assert(k == column * (passes * height) + inner && 0 <= inner < passes * height && (column + 1)
        * passes * height == column * (passes * height) + passes * height) by (nonlinear_arith)
        requires
            k == (column * passes + pass) * height + row,
            inner == pass * height + row,
            pass < passes,
            row < height,
    ;
    lemma_fundamental_div_mod_converse(k, (passes * height) as int, column as int, inner);
    lemma_fundamental_div_mod_converse(
        k,
        height as int,
        (column * passes + pass) as int,
        row as int,
    );
}

/// The walk never leaves the image: whole columns passed by stay below the
/// number of visits of the whole run.
proof fn lemma_column_bound(column: nat, width: nat, passes: nat, height: nat)
    requires
        column < width,
    ensures
        (column + 1) * passes * height <= width * passes * height,
{
    assert((column + 1) * passes * height <= width * passes * height) by (nonlinear_arith)
        requires
            column + 1 <= width,
    ;
}

/// One step of a run that has not been aborted keeps the driver consistent.
/// If the step asks for a drawing, the load is the next one in the order of
/// the walk; if it does not, no visit is counted. A run finishes only when
/// every visit of the walk has been asked for.
pub proof fn lemma_step_follows_walk(driver: DriverModel, report: Report)
    requires
        driver.consistent(),
        driver.cursor.stage != Stage::Aborted,
    ensures
        driver.step(report).consistent(),
        driver.asked() <= driver.draw_count(),
        driver.asks_draw(report) matches Some(load) ==> {
            &&& driver.asked() < driver.draw_count()
            &&& load == driver.draws()[driver.asked() as int]
            &&& driver.step(report).asked() == driver.asked() + 1
        },
        driver.asks_draw(report).is_none() && driver.step(report).cursor.stage != Stage::Aborted
            ==> driver.step(report).asked() == driver.asked(),
        driver.step(report).cursor.stage == Stage::Finished ==> driver.step(report).asked()
            == driver.draw_count(),
{
    let passes = driver.plan.passes_per_interval;
    let height = driver.height;
    let width = driver.width;
    let column = driver.cursor.column as nat;
    let pass = driver.cursor.pass as nat;
    let row = driver.cursor.row as nat;
    let base = (column * passes + pass) * height;
    assert(width * passes * height == (width * passes + 0) * height + 0) by (nonlinear_arith);
    if driver.cursor.stage == Stage::Finished || driver.cursor.stage == Stage::Ready {
        assert((column * passes + pass) * height == column * passes * height) by (nonlinear_arith)
            requires
                pass == 0,
        ;
        assert(0 * passes * height == 0) by (nonlinear_arith);
        assert(0 <= width * passes * height) by (nonlinear_arith);
    } else {
        if row < height {
            lemma_draw_index(column, pass, row, passes, height);
        }
        lemma_column_bound(column, width, passes, height);
        assert(base + height <= (column + 1) * passes * height && base + height == (column * passes
            + (pass + 1)) * height && ((column + 1) * passes + 0) * height == (column + 1) * passes
            * height && (pass + 1 == passes ==> base + height == (column + 1) * passes * height))
            by (nonlinear_arith)
            requires
                base == (column * passes + pass) * height,
                pass < passes,
        ;
        if driver.cursor.stage == Stage::Drawing && row + 1 < height {
            lemma_draw_index(column, pass, row + 1, passes, height);
        }
    }
}

/// However a run goes, what it has drawn is a first part of the walk: the
/// loads that the driver asked for are the loads of the whole walk, in
/// order and without a gap. Until the run is aborted their number is what
/// the cursor says, and a run that finished has drawn the whole walk.
pub proof fn lemma_run_follows_walk(driver: DriverModel, reports: Seq<Report>)
    requires
        driver.consistent(),
        driver.cursor.stage == Stage::Ready,
    ensures
        driver.run(reports).consistent(),
        driver.run(reports) == (DriverModel { cursor: driver.run(reports).cursor, ..driver }),
        driver.run_draws(reports).len() <= driver.draw_count(),
        driver.run_draws(reports) == driver.draws().take(driver.run_draws(reports).len() as int),
        driver.run(reports).cursor.stage != Stage::Aborted ==> driver.run_draws(reports).len()
            == driver.run(reports).asked(),
        driver.run(reports).cursor.stage == Stage::Finished ==> driver.run_draws(reports)
            == driver.draws(),
    decreases reports.len(),
{
    if reports.len() == 0 {
        assert(driver.asked() == 0) by (nonlinear_arith)
            requires
                driver.asked() == (0 * driver.plan.passes_per_interval + 0) * driver.height + 0,
        ;
        assert(0 <= driver.width * driver.plan.passes_per_interval * driver.height)
            by (nonlinear_arith);
        assert(driver.run_draws(reports) =~= driver.draws().take(0));
    } else {
        let front = reports.drop_last();
        let report = reports.last();
        lemma_run_follows_walk(driver, front);
        let before = driver.run(front);
        let sofar = driver.run_draws(front);
        let after = driver.run(reports);
        assert(after == before.step(report));
        assert(before.draws() == driver.draws());
        assert(before.draw_count() == driver.draw_count());
        if before.cursor.stage != Stage::Aborted {
            lemma_step_follows_walk(before, report);
            match before.asks_draw(report) {
                Some(load) => {
                    assert(driver.run_draws(reports) == sofar.push(load));
                    assert(sofar.push(load) =~= driver.draws().take((sofar.len() + 1) as int));
                },
                None => {},
            }
        }
        if after.cursor.stage == Stage::Finished {
            assert(driver.draws().take(driver.draw_count() as int) =~= driver.draws());
        }
    }
}

/// The counters after a run: if the driver was given the reports on a state
/// whose namespace is selected and which holds every table that the walk
/// writes to, then the writes it asked for succeed, and they raise the
/// counter of every row by exactly the sum of the repetitions that the run
/// routed to its table, a first part of what the whole walk routes there.
pub proof fn lemma_run_accumulates(
    driver: DriverModel,
    reports: Seq<Report>,
    store: Store,
    rows: usize,
)
    requires
        driver.consistent(),
        driver.cursor.stage == Stage::Ready,
        store.selected,
        routable(store, driver.draws()),
    ensures
        execute_all(store, draw_statements(driver.run_draws(reports), rows)) == Some(
            drawn(store, driver.run_draws(reports), rows as nat),
        ),
        forall|t: nat, i: int|
            store.tables.dom().contains(t) && 0 <= i < store.tables[t].len() ==> {
                &&& (#[trigger] drawn(store, driver.run_draws(reports), rows as nat).tables[t][i]).id
                    == store.tables[t][i].id
                &&& drawn(store, driver.run_draws(reports), rows as nat).tables[t][i].val
                    == store.tables[t][i].val + if store.tables[t][i].id < rows {
                    routed(driver.run_draws(reports), t) as int
                } else {
                    0int
                }
            },
        forall|t: nat| routed(driver.run_draws(reports), t) <= routed(driver.draws(), t),
{
    lemma_run_follows_walk(driver, reports);
    let done = driver.run_draws(reports);
    let all = driver.draws();
    assert forall|i: int| 0 <= i < done.len() && done[i].repetitions > 0 implies
        store.tables.dom().contains(#[trigger] done[i].table as nat) by {
        assert(done[i] == all[i]);
    }
    lemma_draws_accumulate(store, done, rows);
    lemma_counters_never_decrease(store, all, rows, done.len() as int);
}

/// Under the inverted policy every load of the walk is routed to a table
/// below the height of the image: tables provisioned one for each row hold
/// every table that the run writes to.
pub proof fn lemma_inverted_walk_is_routable(driver: DriverModel, rows: nat)
    requires
        driver.consistent(),
        driver.plan.policy == MappingPolicy::InvertedIntensity,
    ensures
        routable(provisioned(driver.height, rows), driver.draws()),
{
    let draws = driver.draws();
    assert forall|k: int| 0 <= k < draws.len() && draws[k].repetitions > 0 implies provisioned(
        driver.height,
        rows,
    ).tables.dom().contains(#[trigger] draws[k].table as nat) by {
        if driver.height == 0 {
            assert(driver.draw_count() == 0) by (nonlinear_arith)
                requires
                    driver.draw_count() == driver.width * driver.plan.passes_per_interval
                        * driver.height,
                    driver.height == 0,
            ;
        } else {
            lemma_mod_pos_bound(k, driver.height as int);
        }
    }
}

/// Under the direct policy every load of the walk is routed to a table
/// below 256: tables provisioned one for each intensity hold every table
/// that the run writes to.
pub proof fn lemma_direct_walk_is_routable(driver: DriverModel, table_count: nat, rows: nat)
    requires
        driver.consistent(),
        driver.plan.policy == MappingPolicy::Direct,
        table_count >= 256,
    ensures
        routable(provisioned(table_count, rows), driver.draws()),
{
}

/// An inverted run on freshly provisioned tables, one table for each row of
/// the image: whatever the reports, every write that the driver asks for
/// succeeds, and afterwards the row at place `i` of table `t` still has
/// `id` `i`, and its `val` is `i` plus the repetitions that the run routed
/// to `t`.
pub proof fn lemma_inverted_run_on_fresh_tables(
    driver: DriverModel,
    reports: Seq<Report>,
    rows: usize,
)
    requires
        driver.consistent(),
        driver.cursor.stage == Stage::Ready,
        driver.plan.policy == MappingPolicy::InvertedIntensity,
    ensures
        execute_all(
            provisioned(driver.height, rows as nat),
            draw_statements(driver.run_draws(reports), rows),
        ) == Some(drawn(provisioned(driver.height, rows as nat), driver.run_draws(reports), rows as nat)),
        forall|t: nat, i: int|
            t < driver.height && 0 <= i < rows ==> {
                &&& (#[trigger] drawn(
                    provisioned(driver.height, rows as nat),
                    driver.run_draws(reports),
                    rows as nat,
                ).tables[t][i]).id == i
                &&& drawn(
                    provisioned(driver.height, rows as nat),
                    driver.run_draws(reports),
                    rows as nat,
                ).tables[t][i].val == i + routed(driver.run_draws(reports), t)
            },
{
    let fresh = provisioned(driver.height, rows as nat);
    lemma_inverted_walk_is_routable(driver, rows as nat);
    lemma_run_accumulates(driver, reports, fresh, rows);
    assert forall|t: nat, i: int| t < driver.height && 0 <= i < rows implies {
        &&& (#[trigger] drawn(fresh, driver.run_draws(reports), rows as nat).tables[t][i]).id == i
        &&& drawn(fresh, driver.run_draws(reports), rows as nat).tables[t][i].val == i + routed(
            driver.run_draws(reports),
            t,
        )
    } by {
        assert(fresh.tables.dom().contains(t));
        assert(fresh.tables[t][i].id == i);
    }
}

} // verus!
