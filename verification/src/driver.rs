//! The walk over the image: which action comes next, given how the last one
//! went.
//!
//! The driver never touches the engine or the clock. It names the next
//! action; the caller performs it and reports back. Columns are walked from
//! left to right, each column once per pass of its interval, and within a
//! pass the rows from top to bottom.

use vstd::prelude::*;
use crate::luma::{luma_height, luma_samples, luma_width, LumaImage};
use crate::mapping::{map_pixel, pixel_load, Load};
use crate::pacing::{pause_after, PlanModel, RunPlan, Span, NANOS_PER_SEC};
use crate::provisioner::{Progress, Provisioner, ProvisionerModel};
use crate::statement::{load_statements, provision_statements, write_plan, Statement};

verus! {

/// What the caller tells the driver about the action it was last given.
#[derive(Clone, Copy, Debug, PartialEq, Eq)]
pub enum Report {
    /// The action was carried out, or there was none yet.
    Done,
    /// A write of the action failed.
    Failed,
    /// The pass has ended, and its work took this long.
    Took(Span),
}

/// What the caller is to do next.
#[derive(Clone, Copy, Debug, PartialEq, Eq)]
pub enum Action {
    /// A pass over a column begins: note the time.
    BeginPass { column: u32, pass: u64 },
    /// Visit one pixel: issue the repetitions of its load, one batched
    /// update each, and report `Failed` at the first that fails.
    Draw { row: u32, load: Load },
    /// All rows are done: report how long the pass has taken since it began.
    EndPass,
    /// Sleep this long.
    Sleep(Span),
    /// The whole image has been painted.
    Finish,
    /// The run is over before its end. Nothing is retried or undone.
    Abort,
}

/// What the driver is waiting for.
#[derive(Clone, Copy, Debug, PartialEq, Eq, Structural)]
pub enum Stage {
    /// Nothing has been asked for yet.
    Ready,
    /// A pass was announced.
    Timing,
    /// A pixel is being drawn.
    Drawing,
    /// The length of the pass is being measured.
    Measuring,
    /// The rest of the pass is being slept away.
    Sleeping,
    /// The run is complete.
    Finished,
    /// The run was given up.
    Aborted,
}

/// Where a run stands: the column, the pass within the column's interval,
/// the row within the pass, and what the driver is waiting for.
#[derive(Clone, Copy, Debug, PartialEq, Eq, Structural)]
pub struct Cursor {
    pub column: u32,
    pub pass: u64,
    pub row: u32,
    pub stage: Stage,
}

/// A driver as mathematics: the image, the plan and the cursor.
pub struct DriverModel {
    pub width: nat,
    pub height: nat,
    pub samples: Seq<u8>,
    pub plan: PlanModel,
    pub cursor: Cursor,
}

impl DriverModel {
    /// The cursor points into the image and the plan. While a pixel is being
    /// drawn the row is one of the image; between the last row and the next
    /// pass it is the height.
    pub open spec fn consistent(self) -> bool {
        &&& self.plan.valid()
        &&& self.plan.passes_per_interval <= u64::MAX
        &&& self.width <= u32::MAX
        &&& self.height <= u32::MAX
        &&& match self.cursor.stage {
            Stage::Ready => self.cursor.column == 0 && self.cursor.pass == 0 && self.cursor.row
                == 0,
            Stage::Timing => self.in_pass() && self.cursor.row == 0,
            Stage::Drawing => self.in_pass() && self.cursor.row < self.height,
            Stage::Measuring => self.in_pass() && self.cursor.row == self.height,
            Stage::Sleeping => self.in_pass() && self.cursor.row == self.height,
            Stage::Finished => self.cursor.column == self.width && self.cursor.pass == 0
                && self.cursor.row == 0,
            Stage::Aborted => true,
        }
    }

    /// The cursor names a column of the image and a pass of the plan.
    pub open spec fn in_pass(self) -> bool {
        self.cursor.column < self.width && self.cursor.pass < self.plan.passes_per_interval
    }

    /// The nominal length of a pass, in nanoseconds.
    pub open spec fn nominal(self) -> nat {
        self.plan.pass_secs() * NANOS_PER_SEC as nat
    }

    /// The load of the pixel at `column` of `row`.
    pub open spec fn load_at(self, column: int, row: int) -> Load {
        pixel_load(
            self.plan.policy,
            self.samples[row * self.width + column],
            row as u32,
            self.height as u32,
        )
    }

    /// Whether `report` answers what the driver is waiting for. A finished
    /// or aborted run waits for nothing and takes any report.
    pub open spec fn accepts(self, report: Report) -> bool {
        match self.cursor.stage {
            Stage::Measuring => report is Took,
            Stage::Finished | Stage::Aborted => true,
            _ => report is Done,
        }
    }

    /// The cursor at the start of the pass `pass` over the column `column`.
    pub open spec fn at_pass(self, column: int, pass: int) -> Cursor {
        Cursor { column: column as u32, pass: pass as u64, row: 0, stage: Stage::Timing }
    }

    /// The cursor at `row` of the current pass: on that pixel, or past the
    /// last row.
    pub open spec fn at_row(self, row: int) -> Cursor {
        Cursor {
            row: row as u32,
            stage: if row < self.height {
                Stage::Drawing
            } else {
                Stage::Measuring
            },
            ..self.cursor
        }
    }

    /// The cursor after the current pass: at the next pass of the same
    /// column, else at the first pass of the next column, else finished.
    pub open spec fn after_pass(self) -> Cursor {
        if self.cursor.pass + 1 < self.plan.passes_per_interval {
            self.at_pass(self.cursor.column as int, self.cursor.pass + 1)
        } else if self.cursor.column + 1 < self.width {
            self.at_pass(self.cursor.column + 1, 0)
        } else {
            self.finished()
        }
    }

    /// The cursor of a complete run.
    pub open spec fn finished(self) -> Cursor {
        Cursor { column: self.width as u32, pass: 0, row: 0, stage: Stage::Finished }
    }

    /// The cursor after `report`. A complete or aborted run stays as it is.
    /// A report that does not answer what the driver waits for, a failure
    /// among them, aborts the run where it stands. Otherwise the walk goes
    /// on: from the announcement of a pass to its first row, from a row to
    /// the next, from the last row to the measurement, from there to the
    /// sleep if the work took less than the nominal length, and from the
    /// sleep, or from a pass without one, to the next pass.
    pub open spec fn step_cursor(self, report: Report) -> Cursor {
        if !self.accepts(report) {
            Cursor { stage: Stage::Aborted, ..self.cursor }
        } else {
            match self.cursor.stage {
                Stage::Ready => if self.width > 0 {
                    self.at_pass(0, 0)
                } else {
                    self.finished()
                },
                Stage::Timing => self.at_row(0),
                Stage::Drawing => self.at_row(self.cursor.row + 1),
                Stage::Measuring => if report->Took_0@ < self.nominal() {
                    Cursor { stage: Stage::Sleeping, ..self.cursor }
                } else {
                    self.after_pass()
                },
                Stage::Sleeping => self.after_pass(),
                Stage::Finished => self.cursor,
                Stage::Aborted => self.cursor,
            }
        }
    }

    /// The driver after `report`.
    pub open spec fn step(self, report: Report) -> DriverModel {
        DriverModel { cursor: self.step_cursor(report), ..self }
    }

    /// Whether `action` is what the driver asks for in answer to `report`.
    /// The action goes with the stage that the report leads to.
    pub open spec fn emits(self, report: Report, action: Action) -> bool {
        let next = self.step_cursor(report);
        match next.stage {
            Stage::Ready => false,
            Stage::Timing => action == (Action::BeginPass { column: next.column, pass: next.pass }),
            Stage::Drawing => action == (Action::Draw {
                row: next.row,
                load: self.load_at(next.column as int, next.row as int),
            }),
            Stage::Measuring => action == Action::EndPass,
            Stage::Sleeping => {
                &&& report is Took
                &&& action is Sleep
                &&& action->Sleep_0@ == self.nominal() - report->Took_0@
            },
            Stage::Finished => action == Action::Finish,
            Stage::Aborted => action == Action::Abort,
        }
    }
}

/// The state of one run: the image it paints, the plan it follows, and
/// where it stands.
pub struct Driver {
    image: LumaImage,
    plan: RunPlan,
    cursor: Cursor,
}

impl View for Driver {
    type V = DriverModel;

    closed spec fn view(&self) -> DriverModel {
        DriverModel {
            width: luma_width(self.image),
            height: luma_height(self.image),
            samples: luma_samples(self.image),
            plan: self.plan@,
            cursor: self.cursor,
        }
    }
}

impl Driver {
    #[verifier::type_invariant]
    spec fn consistent(self) -> bool {
        self@.consistent()
    }

    /// A driver at the start of the run that paints `image` under `plan`.
    pub fn new(image: LumaImage, plan: RunPlan) -> (driver: Driver)
        ensures
            driver@ == (DriverModel {
                width: luma_width(image),
                height: luma_height(image),
                samples: luma_samples(image),
                plan: plan@,
                cursor: Cursor { column: 0, pass: 0, row: 0, stage: Stage::Ready },
            }),
            driver@.consistent(),
    {
        let _ = image.width();
        let _ = image.height();
        let _ = plan.passes_per_interval();
        Driver { image, plan, cursor: Cursor { column: 0, pass: 0, row: 0, stage: Stage::Ready } }
    }

    /// Where the run stands.
    pub fn cursor(&self) -> (cursor: Cursor)
        ensures
            cursor == self@.cursor,
            self@.consistent(),
    {
        proof {
            use_type_invariant(self);
        }
        self.cursor
    }

    /// The plan that the run follows.
    pub fn plan(&self) -> (plan: RunPlan)
        ensures
            plan@ == self@.plan,
    {
        self.plan
    }

    /// A provisioner for the tables of this run: one table for each row of
    /// the image, with as many rows as the plan gives a table.
    pub fn provisioner(&self) -> (provisioner: Provisioner)
        ensures
            provisioner@ == (ProvisionerModel {
                plan: provision_statements(self@.height, self@.plan.rows_per_table),
                sent: 0,
                progress: Progress::Sending,
            }),
    {
        Provisioner::new(self.image.height() as usize, self.plan.rows_per_table())
    }

    /// The statements that write `load` to the tables of this run: one
    /// batched update over all rows of its table for each of its
    /// repetitions.
    pub fn writes(&self, load: Load) -> (statements: Vec<Statement>)
        ensures
            statements@ == load_statements(load, self@.plan.rows_per_table as usize),
    {
        write_plan(load, self.plan.rows_per_table())
    }

    /// Takes the report on the last action and names the next one.
    ///
    /// The first call reports `Done`. After `Finish` or `Abort` every call
    /// gives the same answer again. The image and the plan never change.
    pub fn step(&mut self, report: Report) -> (action: Action)
        ensures
            final(self)@ == old(self)@.step(report),
            old(self)@.emits(report, action),
            final(self)@.consistent(),
    {
        proof {
            use_type_invariant(&*self);
        }
        let cursor = self.cursor;
        match (cursor.stage, report) {
            (Stage::Finished, _) => Action::Finish,
            (Stage::Aborted, _) => Action::Abort,
            (Stage::Ready, Report::Done) => {
                if self.image.width() > 0 {
                    self.enter_pass(0, 0)
                } else {
                    self.finish()
                }
            },
            (Stage::Timing, Report::Done) => self.enter_row(0),
            (Stage::Drawing, Report::Done) => self.enter_row(cursor.row + 1),
            (Stage::Measuring, Report::Took(elapsed)) => {
                match pause_after(self.plan.pass_length(), elapsed) {
                    Some(pause) => {
                        self.cursor = Cursor { stage: Stage::Sleeping, ..cursor };
                        Action::Sleep(pause)
                    },
                    None => self.leave_pass(),
                }
            },
            (Stage::Sleeping, Report::Done) => self.leave_pass(),
            _ => {
                self.cursor = Cursor { stage: Stage::Aborted, ..cursor };
                Action::Abort
            },
        }
    }

    /// Moves to the start of a pass and announces it.
    fn enter_pass(&mut self, column: u32, pass: u64) -> (action: Action)
        requires
            column < old(self)@.width,
            pass < old(self)@.plan.passes_per_interval,
        ensures
            final(self)@ == (DriverModel {
                cursor: old(self)@.at_pass(column as int, pass as int),
                ..old(self)@
            }),
            action == (Action::BeginPass { column, pass }),
    {
        proof {
            use_type_invariant(&*self);
        }
        self.cursor = Cursor { column, pass, row: 0, stage: Stage::Timing };
        Action::BeginPass { column, pass }
    }

    /// Moves to `row` of the current pass: asks for the pixel there, or for
    /// the measurement when the rows are used up.
    fn enter_row(&mut self, row: u32) -> (action: Action)
        requires
            old(self)@.in_pass(),
            row <= old(self)@.height,
        ensures
            final(self)@ == (DriverModel { cursor: old(self)@.at_row(row as int), ..old(self)@ }),
            row < old(self)@.height ==> action == (Action::Draw {
                row,
                load: old(self)@.load_at(old(self)@.cursor.column as int, row as int),
            }),
            row == old(self)@.height ==> action == Action::EndPass,
    {
        proof {
            use_type_invariant(&*self);
        }
        let cursor = self.cursor;
        let height = self.image.height();
        if row < height {
            let intensity = self.image.intensity(cursor.column, row).unwrap();
            let load = map_pixel(self.plan.policy(), intensity, row, height);
            self.cursor = Cursor { row, stage: Stage::Drawing, ..cursor };
            Action::Draw { row, load }
        } else {
            self.cursor = Cursor { row, stage: Stage::Measuring, ..cursor };
            Action::EndPass
        }
    }

    /// Moves past the current pass: to the next one, or to the end.
    fn leave_pass(&mut self) -> (action: Action)
        requires
            old(self)@.in_pass(),
        ensures
            final(self)@ == (DriverModel { cursor: old(self)@.after_pass(), ..old(self)@ }),
            final(self)@.cursor.stage == Stage::Timing ==> action == (Action::BeginPass {
                column: final(self)@.cursor.column,
                pass: final(self)@.cursor.pass,
            }),
            final(self)@.cursor.stage != Stage::Timing ==> action == Action::Finish,
    {
        proof {
            use_type_invariant(&*self);
        }
        let cursor = self.cursor;
        let passes = self.plan.passes_per_interval();
        if cursor.pass + 1 < passes {
            self.enter_pass(cursor.column, cursor.pass + 1)
        } else if cursor.column + 1 < self.image.width() {
            self.enter_pass(cursor.column + 1, 0)
        } else {
            self.finish()
        }
    }

    /// Ends the run.
    fn finish(&mut self) -> (action: Action)
        ensures
            final(self)@ == (DriverModel { cursor: old(self)@.finished(), ..old(self)@ }),
            action == Action::Finish,
    {
        proof {
            use_type_invariant(&*self);
        }
        let width = self.image.width();
        self.cursor = Cursor { column: width, pass: 0, row: 0, stage: Stage::Finished };
        Action::Finish
    }
}

} // verus!
