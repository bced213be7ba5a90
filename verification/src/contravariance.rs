use vstd::prelude::*;
use vstd::string::StringSliceAdditionalSpecFns;

verus! {

broadcast use vstd::string::group_string_axioms;

/// The string that a handler for `'static` strings is applied to.
pub const STATIC_TEXT: &'static str = "this string lives forever";

/// Byte length of a string slice of any lifetime.
pub fn handle_any(s: &str) -> (n: usize)
    ensures
        n == s.spec_bytes().len() as usize,
        vstd::string::is_ascii(s) ==> n == s@.len() as usize,
{
    s.len()
}

/// Applies a handler for `'static` strings to `STATIC_TEXT`.
pub fn needs_static_handler<F: Fn(&'static str) -> usize>(f: F) -> (n: usize)
    requires
        f.requires((STATIC_TEXT,)),
    ensures
        f.ensures((STATIC_TEXT,), n),
{
    f(STATIC_TEXT)
}

/// A handler that accepts strings of any lifetime, used where one for
/// `'static` strings is expected: the result is the byte length of `STATIC_TEXT`.
pub fn contravariance_functions() -> (n: usize)
    ensures
        n == STATIC_TEXT.spec_bytes().len(),
        n == STATIC_TEXT@.len(),
        n == 25,
{
    let n = needs_static_handler(handle_any);
    proof {
        reveal_strlit("this string lives forever");
        assert(vstd::string::is_ascii(STATIC_TEXT));
        assert(STATIC_TEXT.spec_bytes().len() == 25);
    }
    n
}

/// A handler for strings of any lifetime can stand wherever a handler for
/// `'static` strings is expected: it accepts every `'static` string, and what
/// it returns is that string's byte length.
pub proof fn handle_any_serves_static_strings(s: &'static str)
    ensures
        call_requires(handle_any, (s,)),
        forall|n: usize| call_ensures(handle_any, (s,), n) ==> n == s.spec_bytes().len() as usize,
{
}

} // verus!
