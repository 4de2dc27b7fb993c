//! Environment lookup over an execution context's captured variables. The
//! context object is built once at startup and passed in explicitly; the
//! lookup returns the first variable whose key matches, as the inherited
//! environment block may hold duplicates.

use vstd::prelude::*;

use crate::shell::EnvVar;

verus! {

/// Index of the first variable at or after `i` whose key is `name`.
pub open spec fn first_key_from(env: Seq<EnvVar>, name: Seq<char>, i: int) -> Option<int>
    decreases env.len() - i,
    when 0 <= i
{
    if i >= env.len() {
        None
    } else if env[i].key@ == name {
        Some(i)
    } else {
        first_key_from(env, name, i + 1)
    }
}

/// Index of the first variable whose key is `name`, if any.
pub open spec fn first_key(env: Seq<EnvVar>, name: Seq<char>) -> Option<int> {
    first_key_from(env, name, 0)
}

/// Looks a variable up by name: the value of the first matching key, or
/// `None` when no key matches.
pub fn var<'a>(env: &'a Vec<EnvVar>, name: &str) -> (r: Option<&'a String>)
    ensures
        match first_key(env@, name@) {
            None => r is None,
            Some(i) => r matches Some(v) && v@ == env@[i].val@,
        },
{
    let n = env.len();
    let mut k: usize = 0;
    while k < n
        invariant
            0 <= k <= n,
            n == env@.len(),
            first_key(env@, name@) == first_key_from(env@, name@, k as int),
        decreases n - k,
    {
        if crate::helpers::str_eq(env[k].key.as_str(), name) {
            return Some(&env[k].val);
        }
        k = k + 1;
    }
    None
}

/// How a finished program's result turns into the process exit status.
pub trait Termination: Sized {
    /// The exit status this value stands for.
    spec fn report_spec(&self) -> int;

    /// Converts the value into its exit status.
    fn report(self) -> (r: i32)
        ensures
            r as int == self.report_spec(),
    ;
}

impl Termination for () {
    open spec fn report_spec(&self) -> int {
        0
    }

    fn report(self) -> (r: i32) {
        0
    }
}

impl Termination for i32 {
    open spec fn report_spec(&self) -> int {
        *self as int
    }

    fn report(self) -> (r: i32) {
        self
    }
}

/// A failed run exits with status `-1`; reporting the error itself is the
/// caller's business.
impl<T: Termination, E> Termination for Result<T, E> {
    open spec fn report_spec(&self) -> int {
        match self {
            Ok(v) => v.report_spec(),
            Err(_) => -1,
        }
    }

    fn report(self) -> (r: i32) {
        match self {
            Ok(v) => v.report(),
            Err(_) => -1,
        }
    }
}

} // verus!
