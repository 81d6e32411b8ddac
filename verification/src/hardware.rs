//! The parts of a hardware report that are decided rather than measured.
use vstd::prelude::*;
use crate::text::{copy_str, trim, trim_spec};

verus! {

/// Stands in for a value the system could not report.
pub const UNKNOWN: &'static str = "Unknown";

/// Stands in for a CPU whose brand is unknown.
pub const UNKNOWN_CPU: &'static str = "Unknown CPU";

/// The CPU model for a report: the first CPU's brand without surrounding
/// white space, or `Unknown CPU` when there is no CPU or the brand is blank.
pub fn cpu_brand(first_cpu_brand: Option<&str>) -> (r: String)
    ensures
        match first_cpu_brand {
            Some(b) => if trim_spec(b@).len() == 0 { r@ == UNKNOWN_CPU@ } else { r@ == trim_spec(b@) },
            None => r@ == UNKNOWN_CPU@,
        },
{
    match first_cpu_brand {
        Some(b) => {
            let brand = trim(b);
            if brand.as_str().is_empty() {
                copy_str(UNKNOWN_CPU)
            } else {
                brand
            }
        },
        None => copy_str(UNKNOWN_CPU),
    }
}

/// A reported text field, or `Unknown` when the system gave none.
pub fn or_unknown(value: Option<String>) -> (r: String)
    ensures
        match value {
            Some(v) => r@ == v@,
            None => r@ == UNKNOWN@,
        },
{
    match value {
        Some(v) => v,
        None => copy_str(UNKNOWN),
    }
}

/// The greeting for `name`.
pub fn greet(name: &str) -> (r: String)
    ensures
        r@ == "Hello, "@ + name@ + "! You've been greeted from Rust!"@,
{
    let mut r = String::new();
    crate::text::append_str(&mut r, "Hello, ");
    crate::text::append_str(&mut r, name);
    crate::text::append_str(&mut r, "! You've been greeted from Rust!");
    proof {
        assert(r@ =~= "Hello, "@ + name@ + "! You've been greeted from Rust!"@);
    }
    r
}

} // verus!
