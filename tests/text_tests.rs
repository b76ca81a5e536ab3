use table_ocr::clean::{clean_text, CleaningOptions};
use table_ocr::command::{job_command, materialize, output_paths, OcrEngine};

#[test]
fn all_steps_clean_quoted_text() {
    assert_eq!(clean_text(" 'hello world'\n", CleaningOptions::default()), "hello world");
}

#[test]
fn steps_apply_on_their_own() {
    let none = CleaningOptions {
        trim_whitespace: false,
        trim_single_quote: false,
        trim_double_quote: false,
        no_newlines: false,
    };
    assert_eq!(clean_text(" 'a'\n", none), " 'a'\n");
    let ws = CleaningOptions { trim_whitespace: true, ..none };
    assert_eq!(clean_text("\u{3000} 'a b'\t\n", ws), "'a b'");
    let sq = CleaningOptions { trim_single_quote: true, ..none };
    assert_eq!(clean_text("''\u{2018}x'\u{2018}", sq), "x");
    assert_eq!(clean_text("\u{2018}'x'\u{2018}", sq), "x");
    assert_eq!(clean_text("'it\u{2018}s'", sq), "it\u{2018}s");
    let dq = CleaningOptions { trim_double_quote: true, ..none };
    assert_eq!(clean_text("\"\"a\"b\"", dq), "a\"b");
    let nl = CleaningOptions { no_newlines: true, ..none };
    assert_eq!(clean_text("\na\nb\n", nl), "ab");
}

#[test]
fn newlines_inside_are_removed_after_trimming() {
    assert_eq!(clean_text(" \"line one\nline two\" ", CleaningOptions::default()), "line oneline two");
}

#[test]
fn presets_hold_both_placeholders() {
    assert_eq!(OcrEngine::Tesseract.cmd_template(), "tesseract -l eng %img_in% %txt_out%");
    assert_eq!(
        OcrEngine::Cuneiform.cmd_template(),
        "cuneiform -l eng -f text -o %txt_out%.txt %img_in%"
    );
}

#[test]
fn placeholders_are_replaced() {
    let t = OcrEngine::Cuneiform.cmd_template();
    assert_eq!(
        materialize(&t, "/tmp/c_0_1.png", "/tmp/o_0_1"),
        "cuneiform -l eng -f text -o /tmp/o_0_1.txt /tmp/c_0_1.png"
    );
    assert_eq!(materialize("%img_in%%img_in%", "a", "b"), "aa");
}

#[test]
fn command_splits_into_program_and_arguments() {
    let t = OcrEngine::Tesseract.cmd_template();
    let inv = job_command(&t, "/tmp/in.png", "/tmp/out").unwrap();
    assert_eq!(inv.program, "tesseract");
    assert_eq!(inv.args, vec!["-l", "eng", "/tmp/in.png", "/tmp/out"]);
    let spaced = job_command("  prog\t a  ", "", "").unwrap();
    assert_eq!(spaced.program, "prog");
    assert_eq!(spaced.args, vec!["a"]);
}

#[test]
fn empty_command_has_no_program() {
    assert!(job_command("   ", "x", "y").is_none());
    assert!(job_command("%img_in%", "", "y").is_none());
}

#[test]
fn output_is_looked_for_with_extension_first() {
    assert_eq!(output_paths("/tmp/o_1_2"), vec!["/tmp/o_1_2.txt", "/tmp/o_1_2"]);
}
