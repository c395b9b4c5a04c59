//! The texts of the performance log: the build version and the breakdown of a run's stages.
use vstd::prelude::*;
use crate::numbers::{decimal, u64_to_decimal};
use crate::text::{join_with, string_views};

verus! {

broadcast use vstd::string::group_string_axioms;

/// The full build version: the package version, `+`, and the build number in decimal
/// (such as `0.1.4+12`).
pub open spec fn full_version(pkg_version: Seq<char>, build_number: u64) -> Seq<char> {
    pkg_version + seq!['+'] + decimal(build_number as nat)
}

/// The full build version of a package version and build number (see [`full_version`]).
pub fn get_build_version(pkg_version: &str, build_number: u64) -> (r: String)
    ensures
        r@ == full_version(pkg_version@, build_number),
{
    let with_plus = crate::text::concat(pkg_version, "+");
    let number = u64_to_decimal(build_number);
    proof {
        reveal_strlit("+");
    }
    crate::text::concat(with_plus.as_str(), number.as_str())
}

/// The breakdown part of a detailed log line: empty when there are no stage timings,
/// otherwise ` | Breakdown: ` followed by the timings separated by `, `.
pub open spec fn breakdown(details: Seq<Seq<char>>) -> Seq<char> {
    if details.len() == 0 {
        Seq::empty()
    } else {
        " | Breakdown: "@ + join_with(details, ", "@)
    }
}

/// The breakdown part of a detailed log line (see [`breakdown`]).
pub fn breakdown_suffix(details: &[String]) -> (r: String)
    ensures
        r@ == breakdown(string_views(details@)),
{
    if details.len() == 0 {
        return String::new();
    }
    let joined = crate::text::join_strings(details, ", ");
    crate::text::concat(" | Breakdown: ", joined.as_str())
}

} // verus!
