use vstd::prelude::*;

verus! {

/// The upper-case form of a string, as Unicode case mapping defines it.
pub uninterp spec fn upper_of(s: Seq<char>) -> Seq<char>;

/// Relies on str::to_uppercase: the result depends on the characters alone, and an
/// empty string stays empty.
#[verifier::external_body]
fn to_upper(s: &str) -> (r: String)
    ensures
        r@ == upper_of(s@),
        s@.len() == 0 ==> r@.len() == 0,
{
    s.to_uppercase()
}

/// A name as it is shown: upper-cased.
pub fn format_name(name: &str) -> (r: String)
    ensures
        r@ == upper_of(name@),
        name@.len() == 0 ==> r@.len() == 0,
{
    to_upper(name)
}

} // verus!
