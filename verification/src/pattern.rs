//! Pattern validation: compiling a validation expression and applying it to an
//! observed value. The compilation and the search are done by the `regex`
//! crate; everything downstream speaks of their results through the two named
//! spec functions below.

use vstd::prelude::*;

verus! {

/// What compiling `pattern` as a regular expression yields: `Ok` when the
/// pattern is well formed, otherwise the compile error's text. The result is
/// a function of the pattern string alone.
pub uninterp spec fn regex_compile(pattern: Seq<char>) -> Result<(), Seq<char>>;

/// Whether the regular expression `pattern` matches anywhere within `value`
/// (search semantics, not anchored). Meaningful when `regex_compile(pattern)`
/// is `Ok`; a function of the two strings alone.
pub uninterp spec fn regex_found(pattern: Seq<char>, value: Seq<char>) -> bool;

/// Whether `pattern` is a well-formed expression that matches somewhere
/// within `value`.
pub open spec fn spec_pattern_accepts(pattern: Seq<char>, value: Seq<char>) -> bool {
    regex_compile(pattern) is Ok && regex_found(pattern, value)
}

/// Relies on `regex::Regex::new` and `regex::Regex::is_match`: whether a
/// pattern compiles, the text of its compile error, and whether the compiled
/// expression matches anywhere within a value depend on the pattern and value
/// strings alone. The pattern is compiled afresh on every call.
#[verifier::external_body]
pub(crate) fn regex_search(pattern: &str, value: &str) -> (r: Result<bool, String>)
    ensures
        match r {
            Ok(found) => regex_compile(pattern@) is Ok && found == regex_found(
                pattern@,
                value@,
            ),
            Err(m) => regex_compile(pattern@) == Result::<(), Seq<char>>::Err(m@),
        },
{
    match regex::Regex::new(pattern) {
        Ok(re) => Ok(re.is_match(value)),
        Err(e) => Err(format!("{}", e)),
    }
}

} // verus!
