//! The statements that a run sends to the storage engine, and the plan that
//! sets the tables up.
//!
//! A statement is a value: which of the six operations it is, and on which
//! table. Its text and the rows it is bound to are computed here; sending it
//! is the caller's part.

use vstd::prelude::*;
use vstd::string::*;
use crate::mapping::Load;

verus! {

/// One operation on the storage engine. All tables live in one namespace,
/// `test`, and table `n` is called `draw` followed by `n` in decimal.
#[derive(Clone, Copy, Debug, PartialEq, Eq, Structural)]
pub enum Statement {
    /// Removes the namespace with everything in it, if there is one. Where
    /// there is none the statement does nothing, and is no error.
    DropNamespace,
    /// Creates the namespace, empty.
    CreateNamespace,
    /// Makes the namespace the one that later statements act on.
    SelectNamespace,
    /// Creates the table, empty, with the columns `id` and `val`, both
    /// integers that cannot be null.
    CreateTable { table: usize },
    /// Inserts `rows` rows as one batch: for each `id` below `rows` the row
    /// with that `id` and with `val` equal to it.
    InsertRows { table: usize, rows: usize },
    /// Adds one to `val` as one batch: once for each `id` below `rows`, in
    /// every row with that `id`.
    IncrementRows { table: usize, rows: usize },
}

/// The values bound to the named parameters of one execution within a batch:
/// `:id` always, `:val` for an insertion only.
#[derive(Clone, Copy, Debug, PartialEq, Eq)]
pub struct Binding {
    pub id: usize,
    pub val: Option<usize>,
}

/// The character of a decimal digit.
pub open spec fn digit_char(d: nat) -> char
    recommends
        d < 10,
{
    seq!['0', '1', '2', '3', '4', '5', '6', '7', '8', '9'][d as int]
}

/// A number in decimal, without sign and without leading zeros.
pub open spec fn decimal(n: nat) -> Seq<char>
    decreases n,
{
    if n < 10 {
        seq![digit_char(n)]
    } else {
        decimal(n / 10).push(digit_char(n % 10))
    }
}

/// The name of table `table`.
pub open spec fn table_name(table: nat) -> Seq<char> {
    "draw"@ + decimal(table)
}

/// The text of a statement.
pub open spec fn statement_text(statement: Statement) -> Seq<char> {
    match statement {
        Statement::DropNamespace => "DROP DATABASE IF EXISTS test"@,
        Statement::CreateNamespace => "CREATE DATABASE test"@,
        Statement::SelectNamespace => "USE test"@,
        Statement::CreateTable { table } => "CREATE TABLE "@ + table_name(table as nat)
            + " (id int not null, val int not null)"@,
        Statement::InsertRows { table, rows } => "INSERT INTO "@ + table_name(table as nat)
            + " (id, val) VALUES (:id, :val)"@,
        Statement::IncrementRows { table, rows } => "UPDATE "@ + table_name(table as nat)
            + " SET val = val + 1 WHERE id = :id"@,
    }
}

/// The executions that make up the batch of a statement, in order. Only
/// insertions and increments are batches; the other statements run once,
/// with nothing bound.
pub open spec fn statement_bindings(statement: Statement) -> Seq<Binding> {
    match statement {
        Statement::InsertRows { table, rows } => Seq::new(
            rows as nat,
            |r: int| Binding { id: r as usize, val: Some(r as usize) },
        ),
        Statement::IncrementRows { table, rows } => Seq::new(
            rows as nat,
            |r: int| Binding { id: r as usize, val: None },
        ),
        _ => Seq::empty(),
    }
}

/// The statements that set up `table_count` tables of `rows` rows each: any
/// namespace left from before is dropped, a fresh one is created and
/// selected, and then each table in turn, from table 0 up, is created and
/// filled.
pub open spec fn provision_statements(table_count: nat, rows: nat) -> Seq<Statement>
    decreases table_count,
{
    if table_count == 0 {
        seq![Statement::DropNamespace, Statement::CreateNamespace, Statement::SelectNamespace]
    } else {
        let table = (table_count - 1) as usize;
        provision_statements((table_count - 1) as nat, rows).push(
            Statement::CreateTable { table },
        ).push(Statement::InsertRows { table, rows: rows as usize })
    }
}

/// The batched updates that one load asks for: as many as it has
/// repetitions, each against its table and over `rows` rows.
pub open spec fn load_statements(load: Load, rows: usize) -> Seq<Statement> {
    Seq::new(
        load.repetitions as nat,
        |i: int| Statement::IncrementRows { table: load.table, rows },
    )
}

/// Appends the digit `d` to `text`.
fn append_digit(text: &mut String, d: usize)
    requires
        d < 10,
    ensures
        final(text)@ == old(text)@.push(digit_char(d as nat)),
{
    let digits = "0123456789";
    proof {
        reveal_strlit("0123456789");
        assert(digits@ =~= seq!['0', '1', '2', '3', '4', '5', '6', '7', '8', '9']);
        assert(digits.is_ascii());
    }
    let digit = digits.substring_ascii(d, d + 1);
    assert(digit@ =~= seq![digit_char(d as nat)]);
    text.append(digit);
    assert(text@ =~= old(text)@.push(digit_char(d as nat)));
}

/// Appends `n` in decimal to `text`.
fn append_decimal(text: &mut String, n: usize)
    ensures
        final(text)@ == old(text)@ + decimal(n as nat),
    decreases n,
{
    if n < 10 {
        append_digit(text, n);
        assert(text@ =~= old(text)@ + decimal(n as nat));
    } else {
        append_decimal(text, n / 10);
        append_digit(text, n % 10);
        assert(text@ =~= old(text)@ + decimal(n as nat));
    }
}

/// Starts a text with `head` and the name of table `table`.
fn text_on_table(head: &str, table: usize) -> (text: String)
    ensures
        text@ == head@ + table_name(table as nat),
{
    let mut text = String::from_str(head);
    text.append("draw");
    append_decimal(&mut text, table);
    assert(text@ =~= head@ + table_name(table as nat));
    text
}

impl Statement {
    /// The table that the statement acts on, if it acts on one.
    pub open spec fn on_table(self) -> Option<nat> {
        match self {
            Statement::CreateTable { table } => Some(table as nat),
            Statement::InsertRows { table, rows } => Some(table as nat),
            Statement::IncrementRows { table, rows } => Some(table as nat),
            _ => None,
        }
    }

    /// Whether the statement is a batch: prepared once and then executed
    /// once for each of its bindings. The others are sent as they are.
    pub open spec fn batched(self) -> bool {
        self is InsertRows || self is IncrementRows
    }

    /// Tells whether the statement is a batch.
    pub fn is_batch(&self) -> (batch: bool)
        ensures
            batch == self.batched(),
            !batch ==> statement_bindings(*self).len() == 0,
    {
        match self {
            Statement::InsertRows { table, rows } => true,
            Statement::IncrementRows { table, rows } => true,
            _ => false,
        }
    }

    /// The text of the statement, as the engine is to receive it.
    pub fn sql(&self) -> (text: String)
        ensures
            text@ == statement_text(*self),
    {
        match self {
            Statement::DropNamespace => String::from_str("DROP DATABASE IF EXISTS test"),
            Statement::CreateNamespace => String::from_str("CREATE DATABASE test"),
            Statement::SelectNamespace => String::from_str("USE test"),
            Statement::CreateTable { table } => {
                let mut text = text_on_table("CREATE TABLE ", *table);
                text.append(" (id int not null, val int not null)");
                text
            },
            Statement::InsertRows { table, rows } => {
                let mut text = text_on_table("INSERT INTO ", *table);
                text.append(" (id, val) VALUES (:id, :val)");
                text
            },
            Statement::IncrementRows { table, rows } => {
                let mut text = text_on_table("UPDATE ", *table);
                text.append(" SET val = val + 1 WHERE id = :id");
                text
            },
        }
    }

    /// The executions of the statement's batch with the values bound in
    /// each, in the order in which they run.
    pub fn bindings(&self) -> (bound: Vec<Binding>)
        ensures
            bound@ == statement_bindings(*self),
    {
        let mut bound: Vec<Binding> = Vec::new();
        match self {
            Statement::InsertRows { table, rows } => {
                let mut r: usize = 0;
                while r < *rows
                    invariant
                        r <= *rows,
                        bound@ == Seq::new(
                            r as nat,
                            |i: int| Binding { id: i as usize, val: Some(i as usize) },
                        ),
                    decreases *rows - r,
                {
                    bound.push(Binding { id: r, val: Some(r) });
                    r = r + 1;
                }
            },
            Statement::IncrementRows { table, rows } => {
                let mut r: usize = 0;
                while r < *rows
                    invariant
                        r <= *rows,
                        bound@ == Seq::new(
                            r as nat,
                            |i: int| Binding { id: i as usize, val: None },
                        ),
                    decreases *rows - r,
                {
                    bound.push(Binding { id: r, val: None });
                    r = r + 1;
                }
            },
            _ => {},
        }
        bound
    }
}

/// Plans the provisioning of `table_count` tables of `rows` rows each. The
/// statements are to be executed in order, and the first that fails ends the
/// provisioning: nothing after it may run.
pub fn provision_plan(table_count: usize, rows: usize) -> (plan: Vec<Statement>)
    ensures
        plan@ == provision_statements(table_count as nat, rows as nat),
{
    let mut plan: Vec<Statement> = Vec::new();
    plan.push(Statement::DropNamespace);
    plan.push(Statement::CreateNamespace);
    plan.push(Statement::SelectNamespace);
    assert(plan@ =~= provision_statements(0, rows as nat));
    let mut table: usize = 0;
    while table < table_count
        invariant
            table <= table_count,
            plan@ == provision_statements(table as nat, rows as nat),
        decreases table_count - table,
    {
        plan.push(Statement::CreateTable { table });
        plan.push(Statement::InsertRows { table, rows });
        table = table + 1;
    }
    plan
}

/// Plans the writing of one load on tables of `rows` rows: one batched
/// update for each repetition. The statements are to be executed in order,
/// and the first that fails ends the run.
pub fn write_plan(load: Load, rows: usize) -> (plan: Vec<Statement>)
    ensures
        plan@ == load_statements(load, rows),
{
    let mut plan: Vec<Statement> = Vec::new();
    let mut written: usize = 0;
    while written < load.repetitions
        invariant
            written <= load.repetitions,
            plan@ == Seq::new(
                written as nat,
                |i: int| Statement::IncrementRows { table: load.table, rows },
            ),
        decreases load.repetitions - written,
    {
        plan.push(Statement::IncrementRows { table: load.table, rows });
        written = written + 1;
    }
    plan
}

} // verus!
