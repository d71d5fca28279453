use vstd::prelude::*;

verus! {

/// What `str::trim` leaves of a string: it depends on the characters alone.
pub uninterp spec fn trim_of(s: Seq<char>) -> Seq<char>;

/// Relies on `str::trim`: the string without its leading and trailing
/// whitespace.
#[verifier::external_body]
fn trimmed(s: &str) -> (r: &str)
    ensures
        r@ == trim_of(s@),
{
    s.trim()
}

/// A name is blank when nothing but whitespace is in it.
pub open spec fn is_blank(s: Seq<char>) -> bool {
    trim_of(s).len() == 0
}

/// Whether `s` holds nothing but whitespace.
pub fn blank(s: &String) -> (r: bool)
    ensures
        r == is_blank(s@),
{
    trimmed(s.as_str()).is_empty()
}

} // verus!
