//! Normalising the raw text that the recogniser wrote for one cell.
use vstd::prelude::*;
use crate::text::{
    lemma_replace_char_by_nothing, one_of, replace_str, trim_by, trim_char, trim_matching, trim_spaces,
    trim_whitespace, without_char,
};

verus! {

/// The left single quotation mark, which recognisers emit in place of an
/// apostrophe.
pub const LEFT_SINGLE_QUOTE: char = '\u{2018}';

/// Which cleaning steps to apply, each on its own.
#[derive(Clone, Copy, Debug, PartialEq, Eq)]
pub struct CleaningOptions {
    pub trim_whitespace: bool,
    pub trim_single_quote: bool,
    pub trim_double_quote: bool,
    pub no_newlines: bool,
}

impl Default for CleaningOptions {
    /// Every step enabled.
    fn default() -> (r: Self)
        ensures
            r.trim_whitespace && r.trim_single_quote && r.trim_double_quote && r.no_newlines,
    {
        CleaningOptions {
            trim_whitespace: true,
            trim_single_quote: true,
            trim_double_quote: true,
            no_newlines: true,
        }
    }
}

/// The text after the enabled steps, in this order: outer whitespace
/// trimmed; outer single quotes, apostrophes and left single quotes in any
/// mix, trimmed; outer double quotes trimmed; every newline removed.
pub open spec fn cleaned(s: Seq<char>, co: CleaningOptions) -> Seq<char> {
    let a = if co.trim_whitespace { trim_spaces(s) } else { s };
    let b = if co.trim_single_quote { trim_by(a, one_of('\'', LEFT_SINGLE_QUOTE)) } else { a };
    let c = if co.trim_double_quote { trim_char(b, '"') } else { b };
    if co.no_newlines { without_char(c, '\n') } else { c }
}

/// Cleans the raw text of one cell.
pub fn clean_text(raw: &str, co: CleaningOptions) -> (r: String)
    ensures
        r@ == cleaned(raw@, co),
{
    let mut out = String::from_str(raw);
    if co.trim_whitespace {
        out = trim_whitespace(out.as_str());
    }
    if co.trim_single_quote {
        out = trim_matching(out.as_str(), '\'', LEFT_SINGLE_QUOTE);
    }
    if co.trim_double_quote {
        out = trim_matching(out.as_str(), '"', '"');
    }
    if co.no_newlines {
        let newline = "\n";
        let nothing = "";
        proof {
            reveal_strlit("\n");
            reveal_strlit("");
            assert(newline@ =~= seq!['\n']);
            assert(nothing@ =~= Seq::<char>::empty());
            lemma_replace_char_by_nothing(out@, '\n');
        }
        out = replace_str(out.as_str(), newline, nothing);
    }
    out
}

} // verus!
