//! Setting the tables up, one statement at a time: which statement comes
//! next, given how the last one went.
//!
//! Like the driver, the provisioner never touches the engine. It hands out
//! the statements of the provisioning plan in order; the caller sends each
//! and reports back. The first statement that the engine refuses ends the
//! provisioning: nothing after it is handed out, nothing is retried, and
//! what was done before is left as it is.

use vstd::prelude::*;
use crate::driver::Report;
use crate::statement::{provision_plan, provision_statements, Statement};
use crate::store::{execute_all, lemma_provisioning, provisioned, Store};

verus! {

/// What the caller is to do next.
#[derive(Clone, Copy, Debug, PartialEq, Eq, Structural)]
pub enum Provision {
    /// Send this statement and report how it went.
    Execute(Statement),
    /// Every statement was accepted: the tables are ready.
    Finish,
    /// A statement was refused: the run cannot go on.
    Abort,
}

/// How far the provisioning is.
#[derive(Clone, Copy, Debug, PartialEq, Eq, Structural)]
pub enum Progress {
    /// Statements are still being sent.
    Sending,
    /// The whole plan was accepted.
    Finished,
    /// The provisioning was given up.
    Aborted,
}

/// A provisioner as mathematics: the plan, the number of statements handed
/// out so far, and how far the provisioning is.
pub struct ProvisionerModel {
    pub plan: Seq<Statement>,
    pub sent: nat,
    pub progress: Progress,
}

impl ProvisionerModel {
    /// No more statements were handed out than the plan holds, and a
    /// finished provisioning has handed out all of them.
    pub open spec fn consistent(self) -> bool {
        &&& self.sent <= self.plan.len()
        &&& self.progress == Progress::Finished ==> self.sent == self.plan.len()
    }

    /// The provisioner after `report`. A finished or aborted provisioning
    /// stays as it is. While statements are being sent, any report but
    /// `Done` aborts; `Done` moves on to the next statement, or finishes
    /// when there is none left.
    pub open spec fn step(self, report: Report) -> ProvisionerModel {
        match self.progress {
            Progress::Sending => if !(report is Done) {
                ProvisionerModel { progress: Progress::Aborted, ..self }
            } else if self.sent < self.plan.len() {
                ProvisionerModel { sent: self.sent + 1, ..self }
            } else {
                ProvisionerModel { progress: Progress::Finished, ..self }
            },
            _ => self,
        }
    }

    /// What the provisioner asks for in answer to `report`.
    pub open spec fn answer(self, report: Report) -> Provision {
        match self.step(report).progress {
            Progress::Sending => Provision::Execute(self.plan[self.sent as int]),
            Progress::Finished => Provision::Finish,
            Progress::Aborted => Provision::Abort,
        }
    }

    /// The provisioner after the reports were given to it in order.
    pub open spec fn run(self, reports: Seq<Report>) -> ProvisionerModel
        decreases reports.len(),
    {
        if reports.len() == 0 {
            self
        } else {
            self.run(reports.drop_last()).step(reports.last())
        }
    }

    /// The statements that the provisioner handed out, in order, while the
    /// reports were given to it.
    pub open spec fn run_sent(self, reports: Seq<Report>) -> Seq<Statement>
        decreases reports.len(),
    {
        if reports.len() == 0 {
            Seq::empty()
        } else {
            let sofar = self.run_sent(reports.drop_last());
            match self.run(reports.drop_last()).answer(reports.last()) {
                Provision::Execute(statement) => sofar.push(statement),
                _ => sofar,
            }
        }
    }
}

/// The state of one provisioning: its plan, and how far it has come.
pub struct Provisioner {
    plan: Vec<Statement>,
    sent: usize,
    progress: Progress,
}

impl View for Provisioner {
    type V = ProvisionerModel;

    closed spec fn view(&self) -> ProvisionerModel {
        ProvisionerModel { plan: self.plan@, sent: self.sent as nat, progress: self.progress }
    }
}

impl Provisioner {
    #[verifier::type_invariant]
    spec fn consistent(self) -> bool {
        self@.consistent()
    }

    /// A provisioner at the start of the provisioning of `table_count`
    /// tables of `rows` rows each.
    pub fn new(table_count: usize, rows: usize) -> (provisioner: Provisioner)
        ensures
            provisioner@ == (ProvisionerModel {
                plan: provision_statements(table_count as nat, rows as nat),
                sent: 0,
                progress: Progress::Sending,
            }),
            provisioner@.consistent(),
    {
        Provisioner { plan: provision_plan(table_count, rows), sent: 0, progress: Progress::Sending }
    }

    /// How far the provisioning is.
    pub fn progress(&self) -> (progress: Progress)
        ensures
            progress == self@.progress,
            self@.consistent(),
    {
        proof {
            use_type_invariant(self);
        }
        self.progress
    }

    /// The number of statements handed out so far.
    pub fn sent(&self) -> (sent: usize)
        ensures
            sent == self@.sent,
            self@.consistent(),
    {
        proof {
            use_type_invariant(self);
        }
        self.sent
    }

    /// Takes the report on the last statement and names what comes next.
    ///
    /// The first call reports `Done`. After `Finish` or `Abort` every call
    /// gives the same answer again. The plan never changes.
    pub fn step(&mut self, report: Report) -> (next: Provision)
        ensures
            final(self)@ == old(self)@.step(report),
            next == old(self)@.answer(report),
            final(self)@.consistent(),
    {
        proof {
            use_type_invariant(&*self);
        }
        match self.progress {
            Progress::Finished => Provision::Finish,
            Progress::Aborted => Provision::Abort,
            Progress::Sending => {
                match report {
                    Report::Done => {
                        if self.sent < self.plan.len() {
                            let statement = self.plan[self.sent];
                            self.sent = self.sent + 1;
                            Provision::Execute(statement)
                        } else {
                            self.progress = Progress::Finished;
                            Provision::Finish
                        }
                    },
                    _ => {
                        self.progress = Progress::Aborted;
                        Provision::Abort
                    },
                }
            },
        }
    }
}

/// However a provisioning goes, what was handed out is a first part of the
/// plan, in order and without a gap, as many as were counted. After
/// the first report that is not `Done` the provisioning is aborted and stays
/// so: no later report brings another statement. A provisioning that
/// finished has handed out the whole plan.
pub proof fn lemma_provisioner_follows_plan(provisioner: ProvisionerModel, reports: Seq<Report>)
    requires
        provisioner.sent == 0,
        provisioner.progress == Progress::Sending,
    ensures
        provisioner.run(reports).consistent(),
        provisioner.run(reports).plan == provisioner.plan,
        provisioner.run_sent(reports) == provisioner.plan.take(
            provisioner.run(reports).sent as int,
        ),
        provisioner.run(reports).progress == Progress::Finished ==> provisioner.run_sent(reports)
            == provisioner.plan,
        (exists|i: int| 0 <= i < reports.len() && !(#[trigger] reports[i] is Done))
            ==> provisioner.run(reports).progress != Progress::Sending,
        (forall|i: int| 0 <= i < reports.len() ==> #[trigger] reports[i] is Done)
            ==> provisioner.run(reports).progress != Progress::Aborted,
    decreases reports.len(),
{
    if reports.len() == 0 {
        assert(provisioner.run_sent(reports) =~= provisioner.plan.take(0));
    } else {
        let front = reports.drop_last();
        let report = reports.last();
        lemma_provisioner_follows_plan(provisioner, front);
        let before = provisioner.run(front);
        let sofar = provisioner.run_sent(front);
        let after = provisioner.run(reports);
        assert(after == before.step(report));
        assert(forall|i: int| 0 <= i < front.len() ==> front[i] == reports[i]);
        assert(report == reports[reports.len() - 1]);
        match before.answer(report) {
            Provision::Execute(statement) => {
                assert(provisioner.run_sent(reports) == sofar.push(statement));
                assert(sofar.push(statement) =~= provisioner.plan.take(after.sent as int));
            },
            _ => {},
        }
        if after.progress == Progress::Finished {
            assert(provisioner.plan.take(provisioner.plan.len() as int) =~= provisioner.plan);
        }
        if exists|i: int| 0 <= i < reports.len() && !(#[trigger] reports[i] is Done) {
            let i = choose|i: int| 0 <= i < reports.len() && !(#[trigger] reports[i] is Done);
            if i < front.len() {
                assert(!(front[i] is Done));
            }
        }
    }
}

/// A provisioning that finished has left the provisioned state on the
/// engine, whatever the engine held before, if the engine did to each
/// statement handed out what the statement means.
pub proof fn lemma_finished_provisioning(
    table_count: usize,
    rows: usize,
    reports: Seq<Report>,
    store: Store,
)
    requires
        (ProvisionerModel {
            plan: provision_statements(table_count as nat, rows as nat),
            sent: 0,
            progress: Progress::Sending,
        }).run(reports).progress == Progress::Finished,
    ensures
        execute_all(
            store,
            (ProvisionerModel {
                plan: provision_statements(table_count as nat, rows as nat),
                sent: 0,
                progress: Progress::Sending,
            }).run_sent(reports),
        ) == Some(provisioned(table_count as nat, rows as nat)),
{
    let start = ProvisionerModel {
        plan: provision_statements(table_count as nat, rows as nat),
        sent: 0,
        progress: Progress::Sending,
    };
    lemma_provisioner_follows_plan(start, reports);
    lemma_provisioning(store, table_count, rows);
}

} // verus!
