use table_ocr::command::OcrEngine;
use table_ocr::crop::PixelBuffer;
use table_ocr::grid::Point;
use table_ocr::session::{ExtractError, TableGrid};
use table_ocr::table::{CellText, JobError};
use table_ocr::task::{BackgroundOcr, Phase, TaskError};

fn small_image() -> PixelBuffer {
    PixelBuffer { width: 2, height: 2, pixels: vec![7; 16] }
}

#[test]
fn extract_needs_an_image() {
    let mut s = TableGrid::new();
    assert_eq!(s.request_extract(), Err(ExtractError::NoImage));
    assert_eq!(s.process_task.phase, Phase::Idle);
}

#[test]
fn second_request_while_running_changes_nothing() {
    let mut s = TableGrid::new();
    s.load_image(small_image());
    assert_eq!(s.request_extract(), Ok(1));
    assert_eq!(s.process_task.phase, Phase::Running);
    assert!(s.place_separator(Point { x: 500000, y: 300000 }, false));
    s.use_preset(OcrEngine::Cuneiform);
    assert_eq!(
        s.request_extract(),
        Err(ExtractError::Task(TaskError::RunAlreadyInProgress))
    );
    let p = s.process_task.params.as_ref().unwrap();
    assert_eq!(p.grid.horizontals.len(), 2);
    assert_eq!(p.cmd_template, "tesseract -l eng %img_in% %txt_out%");
    assert_eq!(s.process_task.n_tasks, 1);
}

#[test]
fn run_goes_through_its_phases() {
    let mut s = TableGrid::new();
    s.load_image(small_image());
    s.place_separator(Point { x: 150000, y: 500000 }, true);
    s.update_extents();
    assert_eq!(s.request_extract(), Ok(2));
    let t = &mut s.process_task;
    assert!(t.record_completion());
    assert!(t.record_completion());
    assert!(!t.record_completion());
    assert_eq!(t.completed, 2);
    let outcomes = vec![Ok(CellText { row: 0, col: 1, text: "r".to_string() }), Err(JobError::Exit)];
    assert_eq!(t.complete(&outcomes), Ok(()));
    assert_eq!(t.phase, Phase::Finished);
    let table = &t.table.as_ref().unwrap().items;
    assert_eq!(table, &vec![vec!["".to_string(), "r".to_string()]]);
    assert_eq!(t.complete(&outcomes), Err(TaskError::NotRunning));
    assert_eq!(t.start(), Err(TaskError::NothingStaged));
    assert_eq!(s.request_extract(), Ok(2));
    assert!(s.process_task.table.is_none());
}

#[test]
fn start_without_staging_is_refused() {
    let mut b = BackgroundOcr::new();
    assert_eq!(b.start(), Err(TaskError::NothingStaged));
    assert!(!b.record_completion());
    assert_eq!(b.complete(&vec![]), Err(TaskError::NotRunning));
}

#[test]
fn clicks_outside_the_image_place_nothing() {
    let mut s = TableGrid::new();
    assert!(!s.place_separator(Point { x: 0, y: 500000 }, true));
    assert!(!s.place_separator(Point { x: 500000, y: 1000000 }, false));
    assert_eq!(s.grid.verticals.len(), 2);
    assert_eq!(s.grid.horizontals.len(), 2);
    s.place_separator(Point { x: 10, y: 10 }, false);
    s.reset_grid();
    assert_eq!(s.grid.horizontals.len(), 2);
    let e = s.update_extents();
    assert_eq!((e.ymin, e.ymax), (800000, 900000));
}

#[test]
fn extract_sorts_the_grid_it_stages() {
    let mut s = TableGrid::new();
    s.load_image(small_image());
    s.place_separator(Point { x: 500000, y: 100000 }, false);
    s.use_preset(OcrEngine::Cuneiform);
    let cleaning = s.cleaning;
    assert_eq!(s.request_extract(), Ok(2));
    let ys: Vec<i64> = s.grid.horizontals.iter().map(|h| h.y).collect();
    assert_eq!(ys, vec![100000, 800000, 900000]);
    let p = s.process_task.params.as_ref().unwrap();
    let staged: Vec<i64> = p.grid.horizontals.iter().map(|h| h.y).collect();
    assert_eq!(staged, ys);
    assert_eq!(p.cmd_template, "cuneiform -l eng -f text -o %txt_out%.txt %img_in%");
    assert_eq!(p.cleaning, cleaning);
    assert_eq!(s.cmd_template, p.cmd_template);
}
