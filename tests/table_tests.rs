use table_ocr::grid::Grid;
use table_ocr::table::{assemble, plan_jobs, quote, CellText, JobError, JobOutcome, TableEdit};

fn ok(row: usize, col: usize, text: &str) -> JobOutcome {
    Ok(CellText { row, col, text: text.to_string() })
}

#[test]
fn four_by_three_separators_give_three_by_two() {
    let mut g = Grid::new();
    g.add_horizontal(100000);
    g.add_horizontal(500000);
    g.add_vertical(900000);
    g.sort();
    assert_eq!(g.table_shape(), (3, 2));
    let jobs = plan_jobs(&g);
    assert_eq!(jobs.len(), 3);
    assert!(jobs.iter().all(|r| r.len() == 2));
    let t = assemble(3, 2, &vec![]);
    assert_eq!(t.len(), 3);
    assert!(t.iter().all(|r| r.len() == 2 && r.iter().all(|s| s.is_empty())));
}

#[test]
fn row_zero_is_the_top_gap() {
    let mut g = Grid::new();
    g.add_horizontal(100000);
    g.sort();
    let jobs = plan_jobs(&g);
    let top = jobs[0][0];
    assert_eq!((top.row, top.col), (0, 0));
    assert_eq!((top.y1, top.y2), (800000, 900000));
    assert_eq!((top.x1, top.x2), (100000, 200000));
    let bottom = jobs[1][0];
    assert_eq!((bottom.row, bottom.col), (1, 0));
    assert_eq!((bottom.y1, bottom.y2), (100000, 800000));
}

#[test]
fn one_failed_job_leaves_one_empty_cell() {
    let results = vec![
        ok(0, 0, "a"),
        ok(0, 1, "b"),
        Err(JobError::Exit),
        ok(1, 1, "d"),
        ok(2, 0, "e"),
        ok(2, 1, "f"),
    ];
    let t = assemble(3, 2, &results);
    let empty: Vec<(usize, usize)> = (0..3)
        .flat_map(|i| (0..2).map(move |j| (i, j)))
        .filter(|&(i, j)| t[i][j].is_empty())
        .collect();
    assert_eq!(empty, vec![(1, 0)]);
    assert_eq!(t[2][1], "f");
}

#[test]
fn assembly_ignores_completion_order() {
    let a = vec![ok(0, 0, "x"), Err(JobError::Spawn), ok(1, 0, "y"), ok(0, 1, "z")];
    let b = vec![ok(0, 1, "z"), ok(1, 0, "y"), Err(JobError::OutputMissing), ok(0, 0, "x")];
    assert_eq!(assemble(2, 2, &a), assemble(2, 2, &b));
}

#[test]
fn outcomes_outside_the_table_are_ignored() {
    let t = assemble(1, 1, &vec![ok(4, 0, "far"), ok(0, 0, "near"), Err(JobError::Cleanup)]);
    assert_eq!(t, vec![vec!["near".to_string()]]);
}

#[test]
fn csv_quotes_each_field() {
    let table = TableEdit {
        items: vec![
            vec!["a".to_string(), "".to_string()],
            vec!["say \"hi\"".to_string(), "c".to_string()],
        ],
    };
    assert_eq!(table.csv(), "\"a\", \"\"\n\"say \"hi\"\", \"c\"");
    assert_eq!(TableEdit { items: vec![] }.csv(), "");
    assert_eq!(quote("q"), "\"q\"");
}
