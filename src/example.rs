//! The value shapes of the example hook, and what it computes.
use vstd::prelude::*;

verus! {

/// The request of the example hook.
pub struct Arg {
    pub print_this_string: String,
    pub trim_this_string: String,
    pub print_this_int: i64,
    pub double_this_int: i64,
}

/// The response of the example hook.
#[derive(Debug)]
pub struct Ret {
    pub trimmed_string: String,
    pub doubled_int: i64,
}

/// What `str::trim` leaves of a string.
pub uninterp spec fn trimmed(s: Seq<char>) -> Seq<char>;

/// Relies on `str::trim`: the string without leading and trailing
/// whitespace, which depends on the characters alone.
#[verifier::external_body]
fn trim_whitespace(s: &str) -> (r: String)
    ensures
        r@ == trimmed(s@),
{
    String::from(s.trim())
}

/// The example hook's answer: the trimmed string and the doubled integer.
pub fn example_hook(arg: &Arg) -> (r: Ret)
    requires
        i64::MIN <= 2 * arg.double_this_int <= i64::MAX,
    ensures
        r.trimmed_string@ == trimmed(arg.trim_this_string@),
        r.doubled_int == 2 * arg.double_this_int,
{
    Ret {
        trimmed_string: trim_whitespace(arg.trim_this_string.as_str()),
        doubled_int: arg.double_this_int * 2,
    }
}

} // verus!
