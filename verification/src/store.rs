//! What the statements mean: a mathematical model of the storage engine,
//! and what the plans of this library do to it.
//!
//! Nothing here runs. The model says which statements the engine accepts in
//! which state and what each does to the tables; the laws below are proved
//! of the statements that the library plans, executed on that model.

use vstd::prelude::*;
use crate::mapping::Load;
use crate::statement::{load_statements, provision_statements, Statement};

verus! {

/// One row of a table: its key and its counter.
pub struct RowModel {
    pub id: nat,
    pub val: int,
}

/// The state of the engine as far as a run can tell: whether the namespace
/// exists, whether it has been selected, and the rows of each of its tables,
/// by table number.
pub struct Store {
    pub present: bool,
    pub selected: bool,
    pub tables: Map<nat, Seq<RowModel>>,
}

/// The rows of a table right after it was filled: `rows` rows, the row at
/// place `i` with `id` and `val` both `i`.
pub open spec fn initial_rows(rows: nat) -> Seq<RowModel> {
    Seq::new(rows, |i: int| RowModel { id: i as nat, val: i })
}

/// The rows of a table after `by` increments of width `rows`: every row
/// whose `id` is below `rows` has gained `by`, and nothing else has changed.
pub open spec fn bumped(table: Seq<RowModel>, rows: nat, by: nat) -> Seq<RowModel> {
    Seq::new(
        table.len(),
        |i: int|
            RowModel {
                id: table[i].id,
                val: if table[i].id < rows {
                    table[i].val + by
                } else {
                    table[i].val
                },
            },
    )
}

/// The state that a statement leaves behind, or `None` when the engine
/// refuses it. Dropping the namespace is never refused: it leaves no
/// namespace, whether or not there was one. A namespace can be created only
/// while there is none and selected only while there is one, a table can be
/// created only once, and tables can be created, filled and updated only in
/// the selected namespace. A refused statement changes nothing.
pub open spec fn execute(store: Store, statement: Statement) -> Option<Store> {
    match statement {
        Statement::DropNamespace => Some(
            Store { present: false, selected: false, tables: Map::empty() },
        ),
        Statement::CreateNamespace => if !store.present {
            Some(Store { present: true, selected: false, tables: Map::empty() })
        } else {
            None
        },
        Statement::SelectNamespace => if store.present {
            Some(Store { selected: true, ..store })
        } else {
            None
        },
        Statement::CreateTable { table } => if store.selected && !store.tables.dom().contains(
            table as nat,
        ) {
            Some(Store { tables: store.tables.insert(table as nat, Seq::empty()), ..store })
        } else {
            None
        },
        Statement::InsertRows { table, rows } => if store.selected && store.tables.dom().contains(
            table as nat,
        ) {
            Some(
                Store {
                    tables: store.tables.insert(
                        table as nat,
                        store.tables[table as nat] + initial_rows(rows as nat),
                    ),
                    ..store
                },
            )
        } else {
            None
        },
        Statement::IncrementRows { table, rows } => if store.selected
            && store.tables.dom().contains(table as nat) {
            Some(
                Store {
                    tables: store.tables.insert(
                        table as nat,
                        bumped(store.tables[table as nat], rows as nat, 1),
                    ),
                    ..store
                },
            )
        } else {
            None
        },
    }
}

/// The state after the statements were executed in order, or `None` when
/// one of them was refused.
pub open spec fn execute_all(store: Store, statements: Seq<Statement>) -> Option<Store>
    decreases statements.len(),
{
    if statements.len() == 0 {
        Some(store)
    } else {
        match execute_all(store, statements.drop_last()) {
            Some(reached) => execute(reached, statements.last()),
            None => None,
        }
    }
}

/// The state right after provisioning: the namespace exists and is selected,
/// and it holds the tables numbered below `table_count`, each freshly filled
/// with `rows` rows.
pub open spec fn provisioned(table_count: nat, rows: nat) -> Store {
    Store {
        present: true,
        selected: true,
        tables: Map::new(|table: nat| table < table_count, |table: nat| initial_rows(rows)),
    }
}

/// The batched updates that a row of loads asks for, in order.
pub open spec fn draw_statements(draws: Seq<Load>, rows: usize) -> Seq<Statement>
    decreases draws.len(),
{
    if draws.len() == 0 {
        Seq::empty()
    } else {
        draw_statements(draws.drop_last(), rows) + load_statements(draws.last(), rows)
    }
}

/// The sum of the repetitions of those loads that are routed to `table`.
pub open spec fn routed(draws: Seq<Load>, table: nat) -> nat
    decreases draws.len(),
{
    if draws.len() == 0 {
        0
    } else {
        routed(draws.drop_last(), table) + if draws.last().table == table {
            draws.last().repetitions as nat
        } else {
            0
        }
    }
}

/// Whether every load that writes at all is routed to a table that exists.
pub open spec fn routable(store: Store, draws: Seq<Load>) -> bool {
    forall|i: int|
        0 <= i < draws.len() && draws[i].repetitions > 0 ==> store.tables.dom().contains(
            #[trigger] draws[i].table as nat,
        )
}

/// The state after the loads were written: each table has been bumped by
/// what was routed to it.
pub open spec fn drawn(store: Store, draws: Seq<Load>, rows: nat) -> Store {
    Store {
        tables: Map::new(
            |table: nat| store.tables.dom().contains(table),
            |table: nat| bumped(store.tables[table], rows, routed(draws, table)),
        ),
        ..store
    }
}

/// Executing one row of statements and then another is executing the two
/// rows joined.
pub proof fn lemma_execute_joined(store: Store, first: Seq<Statement>, second: Seq<Statement>)
    ensures
        execute_all(store, first + second) == match execute_all(store, first) {
            Some(reached) => execute_all(reached, second),
            None => None,
        },
    decreases second.len(),
{
    if second.len() == 0 {
        assert(first + second =~= first);
    } else {
        assert((first + second).drop_last() =~= first + second.drop_last());
        assert((first + second).last() == second.last());
        lemma_execute_joined(store, first, second.drop_last());
    }
}

/// Provisioning succeeds on every state of the engine, on one without a
/// namespace as on one whose namespace holds tables from before, and always
/// leaves the provisioned state: the tables numbered below `table_count` and
/// no others, each with exactly `rows` rows, the row at place `i` with `id`
/// and `val` both `i`.
pub proof fn lemma_provisioning(store: Store, table_count: usize, rows: usize)
    ensures
        execute_all(store, provision_statements(table_count as nat, rows as nat)) == Some(
            provisioned(table_count as nat, rows as nat),
        ),
        forall|table: nat|
            provisioned(table_count as nat, rows as nat).tables.dom().contains(table) <==> table
                < table_count,
        forall|table: nat|
            table < table_count ==> (#[trigger] provisioned(
                table_count as nat,
                rows as nat,
            ).tables[table]).len() == rows,
        forall|table: nat, i: int|
            table < table_count && 0 <= i < rows ==> {
                &&& (#[trigger] provisioned(table_count as nat, rows as nat).tables[table][i]).id
                    == i
                &&& provisioned(table_count as nat, rows as nat).tables[table][i].val == i
            },
    decreases table_count,
{
    let plan = provision_statements(table_count as nat, rows as nat);
    if table_count == 0 {
        let one = seq![Statement::DropNamespace];
        let two = seq![Statement::DropNamespace, Statement::CreateNamespace];
        assert(plan.drop_last() =~= two);
        assert(two.drop_last() =~= one);
        assert(one.drop_last() =~= Seq::<Statement>::empty());
        assert(execute_all(store, one.drop_last()) == Some(store));
        assert(execute_all(store, one) == execute(store, Statement::DropNamespace));
        assert(execute_all(store, two) == match execute_all(store, one) {
            Some(reached) => execute(reached, Statement::CreateNamespace),
            None => None,
        });
        assert(plan.last() == Statement::SelectNamespace);
        assert(execute_all(store, plan) == match execute_all(store, two) {
            Some(reached) => execute(reached, Statement::SelectNamespace),
            None => None,
        });
        assert(execute_all(store, plan).unwrap().tables =~= provisioned(0, rows as nat).tables);
    } else {
        let before = (table_count - 1) as usize;
        let table = before;
        lemma_provisioning(store, before, rows);
        let shorter = provision_statements(before as nat, rows as nat);
        let created = shorter.push(Statement::CreateTable { table });
        assert(plan == created.push(Statement::InsertRows { table, rows }));
        assert(plan.drop_last() =~= created);
        assert(created.drop_last() =~= shorter);
        assert(execute_all(store, created) == match execute_all(store, shorter) {
            Some(reached) => execute(reached, Statement::CreateTable { table }),
            None => None,
        });
        assert(execute_all(store, plan) == match execute_all(store, created) {
            Some(reached) => execute(reached, Statement::InsertRows { table, rows }),
            None => None,
        });
        let base = provisioned(before as nat, rows as nat);
        let made = execute(base, Statement::CreateTable { table }).unwrap();
        let filled = execute(made, Statement::InsertRows { table, rows }).unwrap();
        assert(Seq::<RowModel>::empty() + initial_rows(rows as nat) =~= initial_rows(rows as nat));
        assert(filled.tables =~= provisioned(table_count as nat, rows as nat).tables);
    }
}

/// Provisioning twice in a row comes to the same as provisioning once: the
/// second run meets the provisioned state and leaves it again.
pub proof fn lemma_provisioning_twice(store: Store, table_count: usize, rows: usize)
    ensures
        execute_all(
            store,
            provision_statements(table_count as nat, rows as nat) + provision_statements(
                table_count as nat,
                rows as nat,
            ),
        ) == execute_all(store, provision_statements(table_count as nat, rows as nat)),
        execute_all(
            provisioned(table_count as nat, rows as nat),
            provision_statements(table_count as nat, rows as nat),
        ) == Some(provisioned(table_count as nat, rows as nat)),
{
    let plan = provision_statements(table_count as nat, rows as nat);
    lemma_provisioning(store, table_count, rows);
    lemma_provisioning(provisioned(table_count as nat, rows as nat), table_count, rows);
    lemma_execute_joined(store, plan, plan);
}

/// One batched update never adds or removes a table or a row and never
/// changes an `id`; it raises by one the counters of the rows it names, in
/// the table it names, and leaves every other counter as it was.
pub proof fn lemma_increment_keeps_rows(store: Store, table: usize, rows: usize)
    requires
        execute(store, Statement::IncrementRows { table, rows }).is_some(),
    ensures
        ({
            let after = execute(store, Statement::IncrementRows { table, rows }).unwrap();
            &&& after.tables.dom() == store.tables.dom()
            &&& forall|t: nat|
                store.tables.dom().contains(t) ==> (#[trigger] after.tables[t]).len()
                    == store.tables[t].len()
            &&& forall|t: nat, i: int|
                store.tables.dom().contains(t) && 0 <= i < store.tables[t].len() ==> {
                    &&& (#[trigger] after.tables[t][i]).id == store.tables[t][i].id
                    &&& after.tables[t][i].val == store.tables[t][i].val + if t == table
                        && store.tables[t][i].id < rows {
                        1int
                    } else {
                        0int
                    }
                }
        }),
{
    let after = execute(store, Statement::IncrementRows { table, rows }).unwrap();
    assert(after.tables.dom() =~= store.tables.dom());
}

/// Bumping by nothing changes nothing, and bumping twice is bumping by the
/// sum.
proof fn lemma_bumped_sum(table: Seq<RowModel>, rows: nat, first: nat, second: nat)
    ensures
        bumped(table, rows, 0) == table,
        bumped(bumped(table, rows, first), rows, second) == bumped(table, rows, first + second),
{
    assert(bumped(table, rows, 0) =~= table);
    assert(bumped(bumped(table, rows, first), rows, second) =~= bumped(
        table,
        rows,
        first + second,
    ));
}

/// The repetitions of one load, executed on a state that holds its table,
/// bump that table by their number.
proof fn lemma_load_written(store: Store, load: Load, rows: usize)
    requires
        store.selected,
        load.repetitions > 0 ==> store.tables.dom().contains(load.table as nat),
    ensures
        execute_all(store, load_statements(load, rows)) == Some(
            drawn(store, seq![load], rows as nat),
        ),
{
    lemma_repeated(store, load, rows, load.repetitions as nat);
}

/// The first `count` repetitions of one load bump its table by `count`.
proof fn lemma_repeated(store: Store, load: Load, rows: usize, count: nat)
    requires
        store.selected,
        count > 0 ==> store.tables.dom().contains(load.table as nat),
        count <= usize::MAX,
    ensures
        execute_all(store, load_statements(Load { repetitions: count as usize, ..load }, rows))
            == Some(drawn(store, seq![Load { repetitions: count as usize, ..load }], rows as nat)),
    decreases count,
{
    let this = Load { repetitions: count as usize, ..load };
    let statements = load_statements(this, rows);
    let target = drawn(store, seq![this], rows as nat);
    assert(seq![this].drop_last() =~= Seq::<Load>::empty());
    assert forall|t: nat| routed(seq![this], t) == if t == load.table {
        count
    } else {
        0
    } by {
        assert(routed(seq![this].drop_last(), t) == 0);
    }
    if count == 0 {
        assert forall|t: nat| store.tables.dom().contains(t) implies #[trigger] target.tables[t]
            == store.tables[t] by {
            lemma_bumped_sum(store.tables[t], rows as nat, 0, 0);
        }
        assert(target.tables =~= store.tables);
    } else {
        let fewer = Load { repetitions: (count - 1) as usize, ..load };
        lemma_repeated(store, fewer, rows, (count - 1) as nat);
        assert(Load { repetitions: (count - 1) as usize, ..fewer } == fewer);
        assert(statements.drop_last() =~= load_statements(fewer, rows));
        let reached = drawn(store, seq![fewer], rows as nat);
        assert(seq![fewer].drop_last() =~= Seq::<Load>::empty());
        assert forall|t: nat| routed(seq![fewer], t) == if t == load.table {
            (count - 1) as nat
        } else {
            0
        } by {
            assert(routed(seq![fewer].drop_last(), t) == 0);
        }
        let after = execute(reached, statements.last()).unwrap();
        assert forall|t: nat| store.tables.dom().contains(t) implies #[trigger] after.tables[t]
            == target.tables[t] by {
            if t == load.table {
                lemma_bumped_sum(store.tables[t], rows as nat, (count - 1) as nat, 1);
            }
        }
        assert(after.tables =~= target.tables);
    }
}

/// What is routed to a table by two rows of loads joined is the sum of what
/// each routes to it.
pub proof fn lemma_routed_joined(first: Seq<Load>, second: Seq<Load>, table: nat)
    ensures
        routed(first + second, table) == routed(first, table) + routed(second, table),
    decreases second.len(),
{
    if second.len() == 0 {
        assert(first + second =~= first);
    } else {
        assert((first + second).drop_last() =~= first + second.drop_last());
        assert((first + second).last() == second.last());
        lemma_routed_joined(first, second.drop_last(), table);
    }
}

/// Writing the loads of a run, in order, on a state whose namespace is
/// selected and which holds every table that a load writes to, succeeds, and
/// raises the counter of every row by exactly the sum of the repetitions
/// routed to its table. No table and no row is added or removed, and no
/// `id` changes.
pub proof fn lemma_draws_accumulate(store: Store, draws: Seq<Load>, rows: usize)
    requires
        store.selected,
        routable(store, draws),
    ensures
        execute_all(store, draw_statements(draws, rows)) == Some(drawn(store, draws, rows as nat)),
        drawn(store, draws, rows as nat).tables.dom() == store.tables.dom(),
        forall|t: nat|
            store.tables.dom().contains(t) ==> (#[trigger] drawn(
                store,
                draws,
                rows as nat,
            ).tables[t]).len() == store.tables[t].len(),
        forall|t: nat, i: int|
            store.tables.dom().contains(t) && 0 <= i < store.tables[t].len() ==> {
                &&& (#[trigger] drawn(store, draws, rows as nat).tables[t][i]).id
                    == store.tables[t][i].id
                &&& drawn(store, draws, rows as nat).tables[t][i].val == store.tables[t][i].val
                    + if store.tables[t][i].id < rows {
                    routed(draws, t) as int
                } else {
                    0int
                }
            },
    decreases draws.len(),
{
    let target = drawn(store, draws, rows as nat);
    assert(target.tables.dom() =~= store.tables.dom());
    if draws.len() == 0 {
        assert forall|t: nat| store.tables.dom().contains(t) implies #[trigger] target.tables[t]
            == store.tables[t] by {
            lemma_bumped_sum(store.tables[t], rows as nat, 0, 0);
        }
        assert(target.tables =~= store.tables);
    } else {
        let front = draws.drop_last();
        let last = draws.last();
        assert forall|i: int| 0 <= i < front.len() && front[i].repetitions > 0 implies
            store.tables.dom().contains(#[trigger] front[i].table as nat) by {
            assert(front[i] == draws[i]);
        }
        lemma_draws_accumulate(store, front, rows);
        let reached = drawn(store, front, rows as nat);
        assert(reached.tables.dom() =~= store.tables.dom());
        assert(last == draws[draws.len() - 1]);
        lemma_load_written(reached, last, rows);
        lemma_execute_joined(store, draw_statements(front, rows), load_statements(last, rows));
        let after = drawn(reached, seq![last], rows as nat);
        assert(seq![last].drop_last() =~= Seq::<Load>::empty());
        assert forall|t: nat| store.tables.dom().contains(t) implies #[trigger] after.tables[t]
            == target.tables[t] by {
            assert(routed(seq![last].drop_last(), t) == 0);
            lemma_bumped_sum(store.tables[t], rows as nat, routed(front, t), routed(seq![last], t));
        }
        assert(after.tables =~= target.tables);
    }
}

/// Over a run no counter ever decreases: after any first part of the loads
/// every counter is at most what it is after all of them.
pub proof fn lemma_counters_never_decrease(
    store: Store,
    draws: Seq<Load>,
    rows: usize,
    written: int,
)
    requires
        0 <= written <= draws.len(),
    ensures
        forall|t: nat| routed(draws.take(written), t) <= routed(draws, t),
        forall|t: nat, i: int|
            store.tables.dom().contains(t) && 0 <= i < store.tables[t].len() ==> {
                &&& store.tables[t][i].val <= (#[trigger] drawn(
                    store,
                    draws.take(written),
                    rows as nat,
                ).tables[t][i]).val
                &&& drawn(store, draws.take(written), rows as nat).tables[t][i].val <= drawn(
                    store,
                    draws,
                    rows as nat,
                ).tables[t][i].val
            },
{
    assert(draws =~= draws.take(written) + draws.skip(written));
    assert forall|t: nat| routed(draws.take(written), t) <= routed(draws, t) by {
        lemma_routed_joined(draws.take(written), draws.skip(written), t);
    }
}

} // verus!
