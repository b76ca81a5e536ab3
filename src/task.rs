//! The background run that turns a grid into a table.
//!
//! A run is staged with a snapshot of the grid, the image and the command
//! template, started, advanced one finished job at a time, and completed
//! with the outcomes of its jobs. Only one run is in flight at a time: while
//! one runs, staging and starting are refused and change nothing.
use vstd::prelude::*;
use crate::clean::CleaningOptions;
use crate::crop::PixelBuffer;
use crate::grid::{Grid, HorizSep, VertSep};
use crate::table::{assemble, cell_text, JobOutcome, TableEdit};

verus! {

/// Where a run stands.
#[derive(Clone, Copy, Debug, PartialEq, Eq)]
pub enum Phase {
    /// Nothing staged.
    Idle,
    /// Parameters staged, not started.
    Ready,
    /// Jobs dispatched, not all resolved.
    Running,
    /// All jobs resolved; the table is there.
    Finished,
}

/// Why a request to the run was refused.
#[derive(Clone, Copy, Debug, PartialEq, Eq)]
pub enum TaskError {
    /// A run is in flight.
    RunAlreadyInProgress,
    /// There are no staged parameters to start from.
    NothingStaged,
    /// No run is in flight.
    NotRunning,
    /// The grid has more cells than a `usize` counts.
    TooManyCells,
}

/// What a run works on, copied when it is staged.
#[derive(Clone, Debug)]
pub struct RunParams {
    pub grid: Grid,
    pub image: PixelBuffer,
    pub cmd_template: String,
    pub cleaning: CleaningOptions,
}

/// A copy of `g` with the same separators.
pub fn copy_grid(g: &Grid) -> (r: Grid)
    ensures
        r.horizontals@ == g.horizontals@,
        r.verticals@ == g.verticals@,
{
    let mut hs: Vec<HorizSep> = Vec::new();
    let mut i: usize = 0;
    while i < g.horizontals.len()
        invariant
            i <= g.horizontals.len(),
            hs@ == g.horizontals@.subrange(0, i as int),
        decreases g.horizontals.len() - i,
    {
        hs.push(g.horizontals[i]);
        assert(hs@ =~= g.horizontals@.subrange(0, i + 1));
        i += 1;
    }
    let mut vs: Vec<VertSep> = Vec::new();
    let mut j: usize = 0;
    while j < g.verticals.len()
        invariant
            j <= g.verticals.len(),
            vs@ == g.verticals@.subrange(0, j as int),
        decreases g.verticals.len() - j,
    {
        vs.push(g.verticals[j]);
        assert(vs@ =~= g.verticals@.subrange(0, j + 1));
        j += 1;
    }
    assert(hs@ =~= g.horizontals@);
    assert(vs@ =~= g.verticals@);
    Grid { horizontals: hs, verticals: vs }
}

/// A copy of `img` with the same pixels.
pub fn copy_image(img: &PixelBuffer) -> (r: PixelBuffer)
    ensures
        r.width == img.width,
        r.height == img.height,
        r.pixels@ == img.pixels@,
{
    let mut px: Vec<u8> = Vec::new();
    let mut i: usize = 0;
    while i < img.pixels.len()
        invariant
            i <= img.pixels.len(),
            px@ == img.pixels@.subrange(0, i as int),
        decreases img.pixels.len() - i,
    {
        px.push(img.pixels[i]);
        assert(px@ =~= img.pixels@.subrange(0, i + 1));
        i += 1;
    }
    assert(px@ =~= img.pixels@);
    PixelBuffer { width: img.width, height: img.height, pixels: px }
}

/// The single background run and its progress.
#[derive(Debug)]
pub struct BackgroundOcr {
    pub phase: Phase,
    pub params: Option<RunParams>,
    pub n_tasks: usize,
    pub completed: usize,
    pub table: Option<TableEdit>,
}

impl BackgroundOcr {
    /// Parameters exist unless idle; the count never passes the number of
    /// jobs, which is the number of cells of the staged grid; a table
    /// exists exactly when finished.
    pub open spec fn wf(&self) -> bool {
        &&& (self.phase == Phase::Idle) == self.params.is_none()
        &&& self.completed <= self.n_tasks
        &&& (self.phase == Phase::Finished) == self.table.is_some()
        &&& self.params matches Some(p) ==> {
            &&& p.grid.wf()
            &&& p.image.wf()
            &&& self.n_tasks == (p.grid.horizontals.len() - 1) * (p.grid.verticals.len() - 1)
        }
    }

    /// An idle run.
    pub fn new() -> (r: BackgroundOcr)
        ensures
            r.wf(),
            r.phase == Phase::Idle,
            r.completed == 0,
    {
        BackgroundOcr { phase: Phase::Idle, params: None, n_tasks: 0, completed: 0, table: None }
    }

    /// Stages `params` for the next run, replacing what was staged or
    /// finished before. Refused, with nothing changed, while a run is in
    /// flight or where the grid has more cells than a `usize` counts.
    pub fn stage(&mut self, params: RunParams) -> (r: Result<(), TaskError>)
        requires
            old(self).wf(),
            params.grid.wf(),
            params.image.wf(),
        ensures
            final(self).wf(),
            old(self).phase == Phase::Running ==> r == Err::<(), TaskError>(TaskError::RunAlreadyInProgress)
                && *final(self) == *old(self),
            old(self).phase != Phase::Running && (params.grid.horizontals.len() - 1) * (
            params.grid.verticals.len() - 1) > usize::MAX ==> r == Err::<(), TaskError>(TaskError::TooManyCells)
                && *final(self) == *old(self),
            r is Ok <==> (old(self).phase != Phase::Running && (params.grid.horizontals.len() - 1) * (
            params.grid.verticals.len() - 1) <= usize::MAX),
            r is Ok ==> {
                &&& final(self).phase == Phase::Ready
                &&& final(self).params == Some(params)
                &&& final(self).completed == 0
                &&& final(self).table.is_none()
            },
    {
        if matches!(self.phase, Phase::Running) {
            return Err(TaskError::RunAlreadyInProgress);
        }
        let rows = params.grid.horizontals.len() - 1;
        let cols = params.grid.verticals.len() - 1;
        let n = match rows.checked_mul(cols) {
            Some(n) => n,
            None => {
                return Err(TaskError::TooManyCells);
            },
        };
        self.phase = Phase::Ready;
        self.params = Some(params);
        self.n_tasks = n;
        self.completed = 0;
        self.table = None;
        Ok(())
    }

    /// Starts the staged run and gives the number of its jobs. Refused, with
    /// nothing changed, while a run is in flight or where nothing is staged.
    pub fn start(&mut self) -> (r: Result<usize, TaskError>)
        requires
            old(self).wf(),
        ensures
            final(self).wf(),
            old(self).phase == Phase::Running ==> r == Err::<usize, TaskError>(TaskError::RunAlreadyInProgress)
                && *final(self) == *old(self),
            (old(self).phase == Phase::Idle || old(self).phase == Phase::Finished) ==> r == Err::<
                usize,
                TaskError,
            >(TaskError::NothingStaged) && *final(self) == *old(self),
            old(self).phase == Phase::Ready ==> r == Ok::<usize, TaskError>(old(self).n_tasks)
                && final(self).phase == Phase::Running && final(self).params == old(self).params
                && final(self).n_tasks == old(self).n_tasks && final(self).completed == 0
                && final(self).table == old(self).table,
    {
        match self.phase {
            Phase::Running => Err(TaskError::RunAlreadyInProgress),
            Phase::Ready => {
                self.phase = Phase::Running;
                self.completed = 0;
                Ok(self.n_tasks)
            },
            _ => Err(TaskError::NothingStaged),
        }
    }

    /// Counts one more resolved job of the run in flight. Nothing changes
    /// where no run is in flight or all its jobs are counted.
    pub fn record_completion(&mut self) -> (counted: bool)
        requires
            old(self).wf(),
        ensures
            final(self).wf(),
            counted == (old(self).phase == Phase::Running && old(self).completed < old(self).n_tasks),
            counted ==> *final(self) == (BackgroundOcr { completed: (old(self).completed + 1) as usize, ..*old(self) }),
            !counted ==> *final(self) == *old(self),
    {
        if matches!(self.phase, Phase::Running) && self.completed < self.n_tasks {
            self.completed = self.completed + 1;
            true
        } else {
            false
        }
    }

    /// Ends the run in flight with the outcomes of its jobs: the table is
    /// the one they assemble into, with the staged grid's shape, and every
    /// job counts as resolved. Refused, with nothing changed, where no run
    /// is in flight.
    pub fn complete(&mut self, outcomes: &Vec<JobOutcome>) -> (r: Result<(), TaskError>)
        requires
            old(self).wf(),
        ensures
            final(self).wf(),
            r is Ok <==> old(self).phase == Phase::Running,
            r is Err ==> r == Err::<(), TaskError>(TaskError::NotRunning) && *final(self) == *old(self),
            r is Ok ==> {
                let g = old(self).params.unwrap().grid;
                let rows = g.horizontals.len() - 1;
                let cols = g.verticals.len() - 1;
                &&& final(self).phase == Phase::Finished
                &&& final(self).params == old(self).params
                &&& final(self).n_tasks == old(self).n_tasks
                &&& final(self).completed == old(self).n_tasks
                &&& final(self).table matches Some(t) && {
                    &&& t.items@.len() == rows
                    &&& forall|i: int| 0 <= i < rows ==> #[trigger] t.items@[i]@.len() == cols
                    &&& forall|i: int, j: int|
                        0 <= i < rows && 0 <= j < cols ==> (#[trigger] t.items@[i]@[j])@
                            == cell_text(outcomes@, i, j)
                }
            },
    {
        if !matches!(self.phase, Phase::Running) {
            return Err(TaskError::NotRunning);
        }
        let (rows, cols) = match &self.params {
            Some(p) => p.grid.table_shape(),
            None => {
                return Err(TaskError::NotRunning);
            },
        };
        let items = assemble(rows, cols, outcomes);
        self.table = Some(TableEdit { items });
        self.completed = self.n_tasks;
        self.phase = Phase::Finished;
        Ok(())
    }
}

} // verus!
