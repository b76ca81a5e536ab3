//! The command that runs the recogniser on one cell.
//!
//! A command template holds the placeholders `%img_in%`, for the cell's
//! image file, and `%txt_out%`, for the text file that the recogniser
//! writes. After substitution the command is split on whitespace into a
//! program and its arguments.
use vstd::prelude::*;
use vstd::string::*;
use crate::text::{replace_all, words, views, replace_str, split_words};

verus! {

/// The recognisers with a built-in template.
#[derive(Clone, Copy, Debug, PartialEq, Eq)]
pub enum OcrEngine {
    Tesseract,
    Cuneiform,
}

/// The built-in template of `e`.
pub open spec fn template_of(e: OcrEngine) -> Seq<char> {
    match e {
        OcrEngine::Tesseract => "tesseract -l eng %img_in% %txt_out%"@,
        OcrEngine::Cuneiform => "cuneiform -l eng -f text -o %txt_out%.txt %img_in%"@,
    }
}

impl OcrEngine {
    /// The built-in template of this recogniser.
    pub fn cmd_template(&self) -> (r: String)
        ensures
            r@ == template_of(*self),
    {
        match self {
            OcrEngine::Tesseract => String::from_str("tesseract -l eng %img_in% %txt_out%"),
            OcrEngine::Cuneiform => String::from_str(
                "cuneiform -l eng -f text -o %txt_out%.txt %img_in%",
            ),
        }
    }
}

/// `template` with its placeholders replaced: first `%img_in%`, then
/// `%txt_out%`.
pub open spec fn materialized(template: Seq<char>, img_in: Seq<char>, txt_out: Seq<char>) -> Seq<char> {
    replace_all(replace_all(template, "%img_in%"@, img_in), "%txt_out%"@, txt_out)
}

/// `template` with its placeholders replaced.
pub fn materialize(template: &str, img_in: &str, txt_out: &str) -> (r: String)
    ensures
        r@ == materialized(template@, img_in@, txt_out@),
{
    let img_key = "%img_in%";
    let txt_key = "%txt_out%";
    proof {
        reveal_strlit("%img_in%");
        reveal_strlit("%txt_out%");
    }
    let a = replace_str(template, img_key, img_in);
    replace_str(a.as_str(), txt_key, txt_out)
}

/// A program and its arguments.
#[derive(Clone, Debug)]
pub struct Invocation {
    pub program: String,
    pub args: Vec<String>,
}

/// The command of one cell: the first word of the materialised template is
/// the program, the others its arguments. `None` where the template has no
/// word, so that there is no program to run.
pub fn job_command(template: &str, img_in: &str, txt_out: &str) -> (r: Option<Invocation>)
    ensures
        ({
            let ws = words(materialized(template@, img_in@, txt_out@));
            match r {
                None => ws.len() == 0,
                Some(inv) => ws.len() > 0 && inv.program@ == ws[0] && views(inv.args@) == ws.drop_first(),
            }
        }),
{
    let cmd = materialize(template, img_in, txt_out);
    let mut parts = split_words(cmd.as_str());
    if parts.len() == 0 {
        return None;
    }
    let ghost all = parts@;
    let program = parts.remove(0);
    proof {
        assert(parts@ =~= all.drop_first());
        assert(views(parts@) =~= views(all).drop_first());
    }
    Some(Invocation { program, args: parts })
}

/// The files in which the text of a cell may be found, in the order to try
/// them: `txt_out` with `.txt` appended, as recognisers that add the
/// extension themselves leave it, then `txt_out` itself.
pub fn output_paths(txt_out: &str) -> (r: Vec<String>)
    ensures
        r@.len() == 2,
        r@[0]@ == txt_out@ + ".txt"@,
        r@[1]@ == txt_out@,
{
    let with_ext = String::from_str(txt_out).concat(".txt");
    let plain = String::from_str(txt_out);
    let mut r: Vec<String> = Vec::new();
    r.push(with_ext);
    r.push(plain);
    r
}

} // verus!
