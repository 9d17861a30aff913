//! The number in the label of a thread, for use as a tag in file names.

use crate::decimal::parse_decimal;
use crate::decimal::spec_parse;
use vstd::prelude::*;
use vstd::string::*;

verus! {

/// The text of the leftmost match that the regular expression `pattern`
/// finds in `text`; `None` where it finds none, or where the pattern is no
/// regular expression.
pub uninterp spec fn spec_first_match(pattern: Seq<char>, text: Seq<char>) -> Option<Seq<char>>;

/// The text of the leftmost match of a regular expression in a text.
///
/// Not proved: the result is what `regex::Regex::find` answers for the
/// expression that `regex::Regex::new` makes of the pattern, and `None`
/// where it makes none; nothing more is claimed of it than that it depends
/// on the pattern and the text alone.
#[verifier::external_body]
fn first_match(pattern: &str, text: &str) -> (found: Option<String>)
    ensures
        found is Some <==> spec_first_match(pattern@, text@) is Some,
        found matches Some(part) ==> spec_first_match(pattern@, text@) == Some(part@),
{
    match regex::Regex::new(pattern) {
        Ok(expression) => match expression.find(text) {
            Some(part) => Some(part.as_str().to_owned()),
            None => None,
        },
        Err(_) => None,
    }
}

/// The pattern of a row of decimal digits.
pub open spec fn spec_digits_pattern() -> Seq<char> {
    seq!['\\', 'd', '+']
}

/// The number that a row of digits stands for, as far as a `u64` holds it;
/// zero where there is no row or where it stands for no such number.
pub open spec fn spec_number_in(run: Option<Seq<char>>) -> u64 {
    match run {
        Some(text) => match spec_parse(text) {
            Some(number) => number,
            None => 0,
        },
        None => 0,
    }
}

/// The number of a thread: that of the first row of digits in its label,
/// zero where there is none.
pub open spec fn spec_thread_id_number(label: Seq<char>) -> u64 {
    spec_number_in(spec_first_match(spec_digits_pattern(), label))
}

/// The number that a row of digits stands for, zero where there is no row
/// or where it stands for no number that a `u64` holds.
pub fn number_in(run: Option<&str>) -> (number: u64)
    ensures
        number == spec_number_in(
            match run {
                Some(text) => Some(text@),
                None => None,
            },
        ),
{
    match run {
        Some(text) => match parse_decimal(text) {
            Some(number) => number,
            None => 0,
        },
        None => 0,
    }
}

/// The number of a thread, from the label that its identifier prints as:
/// the number that the first row of digits in the label stands for, zero
/// where there is none.
pub fn get_thread_id_number(label: &str) -> (number: u64)
    ensures
        number == spec_thread_id_number(label@),
{
    let pattern = "\\d+";
    proof {
        reveal_strlit("\\d+");
        assert(pattern@ =~= spec_digits_pattern());
    }
    match first_match(pattern, label) {
        Some(run) => number_in(Some(run.as_str())),
        None => number_in(None),
    }
}

} // verus!
