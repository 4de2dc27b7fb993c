//! Dispatch planning for a parsed line: recognizing the terminating
//! built-ins and their numeric status argument, classifying external
//! commands as direct paths or `PATH` searches, splitting the `PATH`
//! variable, and deciding the outcome of an ordered search from the
//! kernel's per-entry status codes.

use vstd::prelude::*;

use crate::error::STATUS_DOES_NOT_EXIST;
use crate::helpers::{first_index_of, lemma_first_index_of, str_eq};
use crate::shell::ShellLine;

verus! {

/// An ASCII decimal digit.
pub open spec fn is_ascii_digit(c: char) -> bool {
    48 <= c as u32 <= 57
}

/// The numeric value of an ASCII decimal digit.
pub open spec fn digit_val(c: char) -> int {
    c as u32 - 48
}

/// Every character of `s` is an ASCII decimal digit.
pub open spec fn all_digits(s: Seq<char>) -> bool {
    forall|i: int| 0 <= i < s.len() ==> is_ascii_digit(s[i])
}

/// The value of a most-significant-first digit string.
pub open spec fn digits_val(s: Seq<char>) -> int
    decreases s.len(),
{
    if s.len() == 0 {
        0
    } else {
        digits_val(s.drop_last()) * 10 + digit_val(s.last())
    }
}

/// The optional sign of a decimal literal and the digits that follow it.
pub open spec fn int_literal_parts(s: Seq<char>) -> (bool, Seq<char>) {
    if s.len() > 0 && (s[0] == '+' || s[0] == '-') {
        (s[0] == '-', s.drop_first())
    } else {
        (false, s)
    }
}

/// The value of `s` read as a decimal `i32` literal: an optional sign, then
/// one or more digits, rejected on overflow.
pub open spec fn parse_i32_spec(s: Seq<char>) -> Option<int> {
    let parts = int_literal_parts(s);
    if parts.1.len() == 0 || !all_digits(parts.1) {
        None
    } else {
        let v = if parts.0 {
            -digits_val(parts.1)
        } else {
            digits_val(parts.1)
        };
        if i32::MIN as int <= v <= i32::MAX as int {
            Some(v)
        } else {
            None
        }
    }
}

proof fn lemma_digits_val_nonneg(s: Seq<char>)
    requires
        all_digits(s),
    ensures
        digits_val(s) >= 0,
    decreases s.len(),
{
    if s.len() > 0 {
        assert(all_digits(s.drop_last()));
        lemma_digits_val_nonneg(s.drop_last());
    }
}

/// Reads a decimal `i32` as `str::parse` does: an optional `+` or `-`, then
/// one or more ASCII digits; anything else, or a value outside the `i32`
/// range, is rejected.
pub fn parse_i32(s: &str) -> (r: Option<i32>)
    ensures
        match r {
            Some(v) => parse_i32_spec(s@) == Some(v as int),
            None => parse_i32_spec(s@) is None,
        },
{
    let n = s.unicode_len();
    let mut j: usize = 0;
    let mut neg = false;
    if n > 0 {
        let c0 = s.get_char(0);
        if c0 == '+' {
            j = 1;
        } else if c0 == '-' {
            neg = true;
            j = 1;
        }
    }
    let ghost d = int_literal_parts(s@).1;
    proof {
        assert(s@ =~= s@.skip(0));
        assert(s@.drop_first() =~= s@.skip(1));
        assert(d == s@.skip(j as int));
        assert(neg == int_literal_parts(s@).0);
    }
    if j >= n {
        return None;
    }
    let mut acc: u64 = 0;
    let mut k: usize = j;
    while k < n
        invariant
            j <= k <= n,
            n == s@.len(),
            d == s@.skip(j as int),
            d == int_literal_parts(s@).1,
            d.len() == n - j,
            forall|t: int| 0 <= t < k - j ==> is_ascii_digit(d[t]),
            acc <= 10_000_000_000,
            acc < 10_000_000_000 ==> acc == digits_val(d.take(k - j)),
            acc == 10_000_000_000 ==> digits_val(d.take(k - j)) >= 10_000_000_000,
        decreases n - k,
    {
        let c = s.get_char(k);
        let u = c as u32;
        proof {
            assert(d[k - j] == s@[k as int]);
        }
        if u < 48 || u > 57 {
            proof {
                assert(!is_ascii_digit(d[k - j]));
            }
            return None;
        }
        proof {
            assert(d.take(k - j + 1).drop_last() =~= d.take(k - j));
            assert(d.take(k - j + 1).last() == d[k - j]);
            assert(all_digits(d.take(k - j)));
            lemma_digits_val_nonneg(d.take(k - j));
        }
        let dig = (u - 48) as u64;
        if acc < 10_000_000_000 {
            acc = acc * 10 + dig;
            if acc > 10_000_000_000 {
                acc = 10_000_000_000;
            }
        }
        k = k + 1;
    }
    proof {
        assert(d.take((n - j) as int) =~= d);
        assert(all_digits(d));
        lemma_digits_val_nonneg(d);
    }
    if neg {
        if acc > 2147483648 {
            return None;
        }
        if acc == 2147483648 {
            Some(i32::MIN)
        } else {
            Some(0i32 - (acc as i32))
        }
    } else {
        if acc > 2147483647 {
            return None;
        }
        Some(acc as i32)
    }
}

/// The command names of the terminating built-in; all three behave
/// identically.
pub open spec fn is_exit_builtin(c: Seq<char>) -> bool {
    c == "exit"@ || c == "return"@ || c == "logout"@
}

/// `s` contains the character `c`.
pub open spec fn contains_char(s: Seq<char>, c: char) -> bool {
    exists|i: int| 0 <= i < s.len() && s[i] == c
}

/// Decides whether `s` contains the character `c`.
pub fn has_char(s: &str, c: char) -> (r: bool)
    ensures
        r == contains_char(s@, c),
{
    let n = s.unicode_len();
    let mut i: usize = 0;
    while i < n
        invariant
            0 <= i <= n,
            n == s@.len(),
            forall|j: int| 0 <= j < i ==> s@[j] != c,
        decreases n - i,
    {
        if s.get_char(i) == c {
            return true;
        }
        i = i + 1;
    }
    false
}

/// What a parsed line asks the shell to do.
#[derive(Clone, Copy, Debug, PartialEq, Eq, Structural)]
pub enum Dispatch {
    /// No command: a successful no-op.
    Empty,
    /// A terminating built-in with its exit status.
    Terminate { status: i32 },
    /// A terminating built-in whose status argument is not a valid number;
    /// reported as invalid input, and the process keeps running.
    InvalidStatus,
    /// The command names a path and is launched without a `PATH` search.
    LaunchDirect,
    /// The command is a bare name, resolved against the `PATH` cache.
    LaunchSearch,
}

/// Classifies a parsed line: nothing to do, a terminating built-in (with
/// its status, `0` when absent, or a report of an invalid one), a direct
/// path launch, or a `PATH` search.
pub fn plan_line(line: &ShellLine) -> (d: Dispatch)
    ensures
        match line.command {
            None => d == Dispatch::Empty,
            Some(c) => {
                if is_exit_builtin(c@) {
                    if line.args@.len() == 0 {
                        d == (Dispatch::Terminate { status: 0 })
                    } else {
                        match parse_i32_spec(line.args@[0]@) {
                            Some(v) => d matches Dispatch::Terminate { status } && status as int
                                == v,
                            None => d == Dispatch::InvalidStatus,
                        }
                    }
                } else if contains_char(c@, '/') {
                    d == Dispatch::LaunchDirect
                } else {
                    d == Dispatch::LaunchSearch
                }
            },
        },
{
    match &line.command {
        None => Dispatch::Empty,
        Some(c) => {
            let cs = c.as_str();
            if str_eq(cs, "exit") || str_eq(cs, "return") || str_eq(cs, "logout") {
                if line.args.len() == 0 {
                    Dispatch::Terminate { status: 0 }
                } else {
                    match parse_i32(line.args[0].as_str()) {
                        Some(v) => Dispatch::Terminate { status: v },
                        None => Dispatch::InvalidStatus,
                    }
                }
            } else if has_char(cs, '/') {
                Dispatch::LaunchDirect
            } else {
                Dispatch::LaunchSearch
            }
        },
    }
}

/// The argument vector handed to a launched image: the command name as
/// argument zero, then the parsed arguments, unmodified.
pub fn argv_of(line: &ShellLine) -> (argv: Vec<String>)
    requires
        line.command is Some,
    ensures
        argv.deep_view() == seq![line.command->Some_0@] + line.args.deep_view(),
{
    let mut argv: Vec<String> = Vec::new();
    match &line.command {
        Some(c) => argv.push(c.clone()),
        None => (),
    }
    proof {
        assert(argv.deep_view() =~= seq![line.command->Some_0@]);
        assert(line.args.deep_view().take(0) =~= Seq::<Seq<char>>::empty());
        assert(argv.deep_view() + line.args.deep_view().take(0) =~= argv.deep_view());
    }
    let n = line.args.len();
    let mut k: usize = 0;
    while k < n
        invariant
            0 <= k <= n,
            n == line.args@.len(),
            argv.deep_view() == seq![line.command->Some_0@] + line.args.deep_view().take(k as int),
        decreases n - k,
    {
        let ghost av = argv.deep_view();
        argv.push(line.args[k].clone());
        proof {
            assert(argv.deep_view() =~= av.push(line.args@[k as int]@));
            assert(line.args.deep_view().take(k + 1) =~= line.args.deep_view().take(k as int).push(
                line.args@[k as int]@,
            ));
            assert(seq![line.command->Some_0@] + line.args.deep_view().take(k + 1) =~= (seq![
                line.command->Some_0@,
            ] + line.args.deep_view().take(k as int)).push(line.args@[k as int]@));
        }
        k = k + 1;
    }
    proof {
        assert(line.args.deep_view().take(n as int) =~= line.args.deep_view());
    }
    argv
}

/// The fields of a `PATH` value, split on `:`; empty fields are kept and
/// simply fail to open later.
pub open spec fn split_colon(s: Seq<char>) -> Seq<Seq<char>>
    decreases s.len(),
    via split_colon_decreases
{
    match first_index_of(s, ':') {
        None => seq![s],
        Some(i) => seq![s.take(i)] + split_colon(s.skip(i + 1)),
    }
}

#[via_fn]
proof fn split_colon_decreases(s: Seq<char>) {
    lemma_first_index_of(s, ':');
}

/// Splits a `PATH` value into its `:`-delimited entries, in order.
pub fn split_path_entries(path: &str) -> (entries: Vec<String>)
    ensures
        entries.deep_view() == split_colon(path@),
{
    let n = path.unicode_len();
    let mut entries: Vec<String> = Vec::new();
    let mut start: usize = 0;
    let mut j: usize = 0;
    proof {
        assert(entries.deep_view() + split_colon(path@.skip(0)) =~= split_colon(path@.skip(0)));
        assert(path@.skip(0) =~= path@);
    }
    while j < n
        invariant
            0 <= start <= j <= n,
            n == path@.len(),
            forall|t: int| start <= t < j ==> path@[t] != ':',
            split_colon(path@) == entries.deep_view() + split_colon(path@.skip(start as int)),
        decreases n - j,
    {
        if path.get_char(j) == ':' {
            let piece = path.substring_char(start, j).to_owned();
            let ghost ev = entries.deep_view();
            let ghost u = path@.skip(start as int);
            entries.push(piece);
            proof {
                lemma_first_index_of(u, ':');
                assert(u[j - start] == ':');
                assert(forall|t: int| 0 <= t < j - start ==> u[t] != ':');
                assert(first_index_of(u, ':') == Some(j - start));
                assert(u.take(j - start) =~= path@.subrange(start as int, j as int));
                assert(u.skip(j - start + 1) =~= path@.skip(j + 1));
                assert(entries.deep_view() =~= ev.push(piece@));
                assert(ev.push(piece@) + split_colon(path@.skip(j + 1)) =~= ev + (seq![piece@]
                    + split_colon(path@.skip(j + 1))));
            }
            start = j + 1;
        }
        j = j + 1;
    }
    let piece = path.substring_char(start, n).to_owned();
    let ghost ev = entries.deep_view();
    let ghost u = path@.skip(start as int);
    entries.push(piece);
    proof {
        lemma_first_index_of(u, ':');
        assert(forall|t: int| 0 <= t < u.len() ==> u[t] != ':');
        assert(first_index_of(u, ':') is None);
        assert(u =~= path@.subrange(start as int, n as int));
        assert(entries.deep_view() =~= ev.push(piece@));
        assert(ev.push(piece@) =~= ev + seq![piece@]);
    }
    entries
}

/// The outcome of an ordered `PATH` search, given the status code each
/// tried entry returned: the first entry that succeeded (code `0`), or,
/// when every entry failed, the last failure's code; an empty search fails
/// with the kernel's "does not exist" code.
pub fn search_verdict(codes: &Vec<i64>) -> (r: Result<usize, i64>)
    ensures
        match r {
            Ok(i) => i < codes@.len() && codes@[i as int] == 0 && (forall|j: int|
                0 <= j < i ==> codes@[j] != 0),
            Err(c) => (forall|j: int| 0 <= j < codes@.len() ==> codes@[j] != 0) && c == (
            if codes@.len() > 0 {
                codes@.last()
            } else {
                STATUS_DOES_NOT_EXIST
            }),
        },
{
    let n = codes.len();
    let mut i: usize = 0;
    while i < n
        invariant
            0 <= i <= n,
            n == codes@.len(),
            forall|j: int| 0 <= j < i ==> codes@[j] != 0,
        decreases n - i,
    {
        if codes[i] == 0 {
            return Ok(i);
        }
        i = i + 1;
    }
    if n > 0 {
        Err(codes[n - 1])
    } else {
        Err(STATUS_DOES_NOT_EXIST)
    }
}

} // verus!
