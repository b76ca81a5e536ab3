//! Text operations: trimming, removing characters, replacing patterns and
//! splitting on whitespace, each stated over sequences of characters.
use vstd::prelude::*;

verus! {

/// The characters that Unicode gives the White_Space property, which is
/// what `char::is_whitespace` tests.
pub open spec fn is_space(c: char) -> bool {
    let u = c as u32;
    (0x9 <= u <= 0xD) || u == 0x20 || u == 0x85 || u == 0xA0 || u == 0x1680 || (0x2000 <= u
        <= 0x200A) || u == 0x2028 || u == 0x2029 || u == 0x202F || u == 0x205F || u == 0x3000
}

/// `s` without its leading characters that satisfy `p`.
pub open spec fn strip_start(s: Seq<char>, p: spec_fn(char) -> bool) -> Seq<char>
    decreases s.len(),
{
    if s.len() > 0 && p(s[0]) {
        strip_start(s.drop_first(), p)
    } else {
        s
    }
}

/// `s` without its trailing characters that satisfy `p`.
pub open spec fn strip_end(s: Seq<char>, p: spec_fn(char) -> bool) -> Seq<char>
    decreases s.len(),
{
    if s.len() > 0 && p(s.last()) {
        strip_end(s.drop_last(), p)
    } else {
        s
    }
}

/// `s` without its leading and trailing characters that satisfy `p`.
pub open spec fn trim_by(s: Seq<char>, p: spec_fn(char) -> bool) -> Seq<char> {
    strip_end(strip_start(s, p), p)
}

/// `s` without leading and trailing whitespace.
pub open spec fn trim_spaces(s: Seq<char>) -> Seq<char> {
    trim_by(s, |c: char| is_space(c))
}

/// The test for the characters `a` and `b`.
pub open spec fn one_of(a: char, b: char) -> spec_fn(char) -> bool {
    |x: char| x == a || x == b
}

/// `s` without leading and trailing copies of `c`.
pub open spec fn trim_char(s: Seq<char>, c: char) -> Seq<char> {
    trim_by(s, one_of(c, c))
}

/// `s` with every copy of `c` removed.
pub open spec fn without_char(s: Seq<char>, c: char) -> Seq<char> {
    s.filter(other_than(c))
}

/// The test for characters other than `c`.
pub open spec fn other_than(c: char) -> spec_fn(char) -> bool {
    |x: char| x != c
}

/// `s` with each occurrence of `pat`, taken left to right without overlap,
/// replaced by `to`.
pub open spec fn replace_all(s: Seq<char>, pat: Seq<char>, to: Seq<char>) -> Seq<char>
    decreases s.len(),
{
    if pat.len() == 0 || s.len() < pat.len() {
        s
    } else if s.subrange(0, pat.len() as int) == pat {
        to + replace_all(s.skip(pat.len() as int), pat, to)
    } else {
        seq![s[0]] + replace_all(s.drop_first(), pat, to)
    }
}

/// Replacing a one-character pattern by nothing removes that character.
pub proof fn lemma_replace_char_by_nothing(s: Seq<char>, c: char)
    ensures
        replace_all(s, seq![c], Seq::empty()) == without_char(s, c),
    decreases s.len(),
{
    if s.len() > 0 {
        let rest = s.drop_first();
        lemma_replace_char_by_nothing(rest, c);
        assert(s =~= seq![s[0]] + rest);
        rest.lemma_filter_prepend(s[0], other_than(c));
        assert(s.skip(1) =~= rest);
        if s[0] == c {
            assert(s.subrange(0, 1) =~= seq![c]);
            assert(replace_all(s, seq![c], Seq::empty()) =~= replace_all(rest, seq![c], Seq::empty()));
            assert(without_char(s, c) =~= without_char(rest, c));
        } else {
            assert(s.subrange(0, 1) != seq![c]) by {
                assert(s.subrange(0, 1)[0] != seq![c][0]);
            }
            assert(replace_all(s, seq![c], Seq::empty()) == seq![s[0]] + replace_all(rest, seq![c], Seq::empty()));
            assert(without_char(s, c) == seq![s[0]] + without_char(rest, c));
        }
    } else {
        assert(s.filter(other_than(c)) =~= s) by {
            reveal(Seq::filter);
        }
    }
}

/// The word `cur` in a list of its own, or no word where it is empty.
pub open spec fn word_list(cur: Seq<char>) -> Seq<Seq<char>> {
    if cur.len() > 0 {
        seq![cur]
    } else {
        Seq::empty()
    }
}

/// The words of `s`, with `cur` the part of a word read so far.
pub open spec fn words_from(s: Seq<char>, cur: Seq<char>) -> Seq<Seq<char>>
    decreases s.len(),
{
    if s.len() == 0 {
        word_list(cur)
    } else if is_space(s[0]) {
        word_list(cur) + words_from(s.drop_first(), Seq::empty())
    } else {
        words_from(s.drop_first(), cur.push(s[0]))
    }
}

/// The maximal runs of non-whitespace characters of `s`, in order.
pub open spec fn words(s: Seq<char>) -> Seq<Seq<char>> {
    words_from(s, Seq::empty())
}

/// The characters of each string.
pub open spec fn views(v: Seq<String>) -> Seq<Seq<char>> {
    v.map_values(|w: String| w@)
}

/// Relies on `str::trim`, which removes leading and trailing whitespace.
#[verifier::external_body]
pub(crate) fn trim_whitespace(s: &str) -> (r: String)
    ensures
        r@ == trim_spaces(s@),
{
    s.trim().to_string()
}

/// Relies on `str::trim_matches` with a slice of two characters as the
/// pattern, which removes every leading and trailing character equal to
/// either.
#[verifier::external_body]
pub(crate) fn trim_matching(s: &str, a: char, b: char) -> (r: String)
    ensures
        r@ == trim_by(s@, one_of(a, b)),
{
    s.trim_matches(&[a, b][..]).to_string()
}

/// Relies on `str::replace` with a non-empty `&str` pattern, which replaces
/// the matches found left to right without overlap.
#[verifier::external_body]
pub(crate) fn replace_str(s: &str, from: &str, to: &str) -> (r: String)
    requires
        from@.len() > 0,
    ensures
        r@ == replace_all(s@, from@, to@),
{
    s.replace(from, to)
}

/// Relies on `str::split_whitespace`, which yields the runs of
/// non-whitespace characters.
#[verifier::external_body]
pub(crate) fn split_words(s: &str) -> (r: Vec<String>)
    ensures
        views(r@) == words(s@),
{
    s.split_whitespace().map(|w| w.to_string()).collect()
}

} // verus!
