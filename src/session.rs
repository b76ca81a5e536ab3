//! The state of one editing session: the loaded image, the grid over it,
//! the command template, the cleaning options and the background run.
use vstd::prelude::*;
use crate::clean::CleaningOptions;
use crate::command::{template_of, OcrEngine};
use crate::crop::PixelBuffer;
use crate::grid::{Extents, Grid, Point, UNIT};
use crate::task::{copy_grid, copy_image, BackgroundOcr, Phase, RunParams, TaskError};

verus! {

/// Why an extraction was not started.
#[derive(Clone, Copy, Debug, PartialEq, Eq)]
pub enum ExtractError {
    /// No image is loaded.
    NoImage,
    /// The background run refused.
    Task(TaskError),
}

/// One editing session.
#[derive(Debug)]
pub struct TableGrid {
    pub image: Option<PixelBuffer>,
    pub grid: Grid,
    pub cmd_template: String,
    pub cleaning: CleaningOptions,
    pub process_task: BackgroundOcr,
}

impl Default for TableGrid {
    /// A fresh session.
    fn default() -> (s: TableGrid)
        ensures
            s.wf(),
            s.image.is_none(),
            s.grid.ys() == seq![800000i64, 900000i64],
            s.grid.xs() == seq![100000i64, 200000i64],
            s.cmd_template@ == template_of(OcrEngine::Tesseract),
            s.process_task.phase == Phase::Idle,
    {
        TableGrid::new()
    }
}

impl TableGrid {
    /// The grid keeps two separators a side, the image is well formed, and
    /// the run keeps its own invariant.
    pub open spec fn wf(&self) -> bool {
        &&& self.grid.wf()
        &&& self.process_task.wf()
        &&& self.image matches Some(img) ==> img.wf()
    }

    /// A session with no image, the starting grid, the first built-in
    /// template, every cleaning step, and an idle run.
    pub fn new() -> (s: TableGrid)
        ensures
            s.wf(),
            s.image.is_none(),
            s.grid.ys() == seq![800000i64, 900000i64],
            s.grid.xs() == seq![100000i64, 200000i64],
            s.cmd_template@ == template_of(OcrEngine::Tesseract),
            s.process_task.phase == Phase::Idle,
    {
        TableGrid {
            image: None,
            grid: Grid::new(),
            cmd_template: OcrEngine::Tesseract.cmd_template(),
            cleaning: CleaningOptions::default(),
            process_task: BackgroundOcr::new(),
        }
    }

    /// Makes `img` the image to annotate.
    pub fn load_image(&mut self, img: PixelBuffer)
        requires
            old(self).wf(),
            img.wf(),
        ensures
            final(self).wf(),
            final(self).image == Some(img),
            final(self).grid == old(self).grid,
            final(self).cmd_template == old(self).cmd_template,
            final(self).cleaning == old(self).cleaning,
            final(self).process_task == old(self).process_task,
    {
        self.image = Some(img);
    }

    /// Puts the built-in template of `e` in place of the current one.
    pub fn use_preset(&mut self, e: OcrEngine)
        requires
            old(self).wf(),
        ensures
            final(self).wf(),
            final(self).cmd_template@ == template_of(e),
            final(self).grid == old(self).grid,
            final(self).image == old(self).image,
            final(self).cleaning == old(self).cleaning,
            final(self).process_task == old(self).process_task,
    {
        self.cmd_template = e.cmd_template();
    }

    /// Puts the grid back to its starting state.
    pub fn reset_grid(&mut self)
        requires
            old(self).wf(),
        ensures
            final(self).wf(),
            final(self).grid.ys() == seq![800000i64, 900000i64],
            final(self).grid.xs() == seq![100000i64, 200000i64],
            final(self).image == old(self).image,
            final(self).cmd_template == old(self).cmd_template,
            final(self).cleaning == old(self).cleaning,
            final(self).process_task == old(self).process_task,
    {
        self.grid = Grid::new();
    }

    /// Places a separator where the user clicked: a vertical one at `p.x`
    /// or a horizontal one at `p.y`. Only a click strictly inside the image
    /// places one.
    pub fn place_separator(&mut self, p: Point, vertical: bool) -> (placed: bool)
        requires
            old(self).wf(),
        ensures
            final(self).wf(),
            placed == (0 < p.x < UNIT && 0 < p.y < UNIT),
            placed && vertical ==> final(self).grid.xs() == old(self).grid.xs().push(p.x)
                && final(self).grid.ys() == old(self).grid.ys(),
            placed && !vertical ==> final(self).grid.ys() == old(self).grid.ys().push(p.y)
                && final(self).grid.xs() == old(self).grid.xs(),
            !placed ==> final(self).grid == old(self).grid,
            final(self).image == old(self).image,
            final(self).cmd_template == old(self).cmd_template,
            final(self).cleaning == old(self).cleaning,
            final(self).process_task == old(self).process_task,
    {
        if 0 < p.x && p.x < UNIT && 0 < p.y && p.y < UNIT {
            if vertical {
                self.grid.add_vertical(p.x);
            } else {
                self.grid.add_horizontal(p.y);
            }
            true
        } else {
            false
        }
    }

    /// Sorts the grid and gives its extents, as each frame does before it
    /// draws or hit-tests the separators.
    pub fn update_extents(&mut self) -> (e: Extents)
        requires
            old(self).wf(),
        ensures
            final(self).wf(),
            final(self).grid.is_sorted(),
            final(self).grid.ys().to_multiset() == old(self).grid.ys().to_multiset(),
            final(self).grid.xs().to_multiset() == old(self).grid.xs().to_multiset(),
            e == final(self).grid.spec_extents(),
            e.xmin <= e.xmax && e.ymin <= e.ymax,
            final(self).image == old(self).image,
            final(self).cmd_template == old(self).cmd_template,
            final(self).cleaning == old(self).cleaning,
            final(self).process_task == old(self).process_task,
    {
        self.grid.sort();
        proof {
            self.grid.ys().to_multiset_ensures();
            self.grid.xs().to_multiset_ensures();
            old(self).grid.ys().to_multiset_ensures();
            old(self).grid.xs().to_multiset_ensures();
            crate::grid::lemma_sorted_extents_ordered(self.grid);
        }
        self.grid.extents()
    }

    /// The number of cells of the grid, as a mathematical integer.
    pub open spec fn cell_count(&self) -> int {
        (self.grid.horizontals.len() - 1) * (self.grid.verticals.len() - 1)
    }

    /// Sorts the grid, stages a run on copies of the sorted grid and of the
    /// image, template and cleaning options, and starts it; gives the number
    /// of its jobs. Refused, with nothing changed, where no image is loaded,
    /// a run is in flight, or the cells are more than a `usize` counts.
    pub fn request_extract(&mut self) -> (r: Result<usize, ExtractError>)
        requires
            old(self).wf(),
        ensures
            final(self).wf(),
            old(self).image.is_none() ==> r == Err::<usize, ExtractError>(ExtractError::NoImage)
                && *final(self) == *old(self),
            old(self).image.is_some() && old(self).process_task.phase == Phase::Running ==> r == Err::<
                usize,
                ExtractError,
            >(ExtractError::Task(TaskError::RunAlreadyInProgress)) && *final(self) == *old(self),
            old(self).image.is_some() && old(self).process_task.phase != Phase::Running
                && old(self).cell_count() > usize::MAX ==> r == Err::<usize, ExtractError>(
                ExtractError::Task(TaskError::TooManyCells),
            ) && *final(self) == *old(self),
            (r is Ok) <==> (old(self).image.is_some() && old(self).process_task.phase != Phase::Running
                && old(self).cell_count() <= usize::MAX),
            r is Ok ==> ({
                let t = final(self).process_task;
                let p = t.params.unwrap();
                &&& final(self).grid.is_sorted()
                &&& final(self).grid.ys().to_multiset() == old(self).grid.ys().to_multiset()
                &&& final(self).grid.xs().to_multiset() == old(self).grid.xs().to_multiset()
                &&& t.phase == Phase::Running
                &&& t.params is Some
                &&& p.grid.horizontals@ == final(self).grid.horizontals@
                &&& p.grid.verticals@ == final(self).grid.verticals@
                &&& p.grid.is_sorted()
                &&& p.image.pixels@ == old(self).image.unwrap().pixels@
                &&& p.image.width == old(self).image.unwrap().width
                &&& p.image.height == old(self).image.unwrap().height
                &&& p.cmd_template@ == old(self).cmd_template@
                &&& p.cleaning == old(self).cleaning
                &&& r == Ok::<usize, ExtractError>(t.n_tasks)
                &&& t.n_tasks == old(self).cell_count()
                &&& t.completed == 0
                &&& t.table.is_none()
            }),
            r is Err ==> *final(self) == *old(self),
            final(self).image == old(self).image,
            final(self).cmd_template == old(self).cmd_template,
            final(self).cleaning == old(self).cleaning,
    {
        if self.image.is_none() {
            return Err(ExtractError::NoImage);
        }
        if matches!(self.process_task.phase, Phase::Running) {
            return Err(ExtractError::Task(TaskError::RunAlreadyInProgress));
        }
        let rows = self.grid.horizontals.len() - 1;
        let cols = self.grid.verticals.len() - 1;
        if rows.checked_mul(cols).is_none() {
            return Err(ExtractError::Task(TaskError::TooManyCells));
        }
        self.grid.sort();
        let params = match &self.image {
            None => {
                return Err(ExtractError::NoImage);
            },
            Some(img) => RunParams {
                grid: copy_grid(&self.grid),
                image: copy_image(img),
                cmd_template: self.cmd_template.clone(),
                cleaning: self.cleaning,
            },
        };
        proof {
            assert(params.grid.ys() =~= self.grid.ys());
            assert(params.grid.xs() =~= self.grid.xs());
        }
        match self.process_task.stage(params) {
            Ok(()) => {},
            Err(e) => {
                return Err(ExtractError::Task(e));
            },
        }
        match self.process_task.start() {
            Ok(n) => Ok(n),
            Err(e) => Err(ExtractError::Task(e)),
        }
    }
}

} // verus!
