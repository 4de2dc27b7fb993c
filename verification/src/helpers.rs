//! Small shared utilities: first-occurrence searches over sequences, exact
//! string comparison, a single-context cell wrapper, and splitting a string
//! once on a pattern.

use vstd::prelude::*;

verus! {

/// The pattern `p` occurs in `s` starting at index `i`.
pub open spec fn match_at<T>(s: Seq<T>, p: Seq<T>, i: int) -> bool {
    0 <= i && i + p.len() <= s.len() && s.subrange(i, i + p.len()) == p
}

/// Index of the first occurrence of the pattern `p` in `s` at or after `i`.
pub open spec fn first_match_from<T>(s: Seq<T>, p: Seq<T>, i: int) -> Option<int>
    decreases s.len() - i,
    when 0 <= i
    via first_match_from_decreases::<T>
{
    if i + p.len() > s.len() {
        None
    } else if match_at(s, p, i) {
        Some(i)
    } else {
        first_match_from(s, p, i + 1)
    }
}

#[via_fn]
proof fn first_match_from_decreases<T>(s: Seq<T>, p: Seq<T>, i: int) {
    if 0 <= i && i + p.len() <= s.len() && !match_at(s, p, i) && p.len() == 0 {
        assert(s.subrange(i, i) =~= p);
    }
}

/// Index of the first occurrence of the pattern `p` in `s`, if any.
pub open spec fn first_match<T>(s: Seq<T>, p: Seq<T>) -> Option<int> {
    first_match_from(s, p, 0)
}

/// Index of the first occurrence of the element `x` in `s` at or after `i`.
pub open spec fn first_index_from<T>(s: Seq<T>, x: T, i: int) -> Option<int>
    decreases s.len() - i,
    when 0 <= i
{
    if i >= s.len() {
        None
    } else if s[i] == x {
        Some(i)
    } else {
        first_index_from(s, x, i + 1)
    }
}

/// Index of the first occurrence of the element `x` in `s`, if any.
pub open spec fn first_index_of<T>(s: Seq<T>, x: T) -> Option<int> {
    first_index_from(s, x, 0)
}

/// `first_index_from` finds exactly the least index, at or after `i`, holding
/// the element.
pub proof fn lemma_first_index_from<T>(s: Seq<T>, x: T, i: int)
    requires
        0 <= i,
    ensures
        match first_index_from(s, x, i) {
            None => forall|j: int| i <= j < s.len() ==> s[j] != x,
            Some(k) => i <= k < s.len() && s[k] == x && (forall|j: int| i <= j < k ==> s[j] != x),
        },
    decreases s.len() - i,
{
    if i >= s.len() {
    } else if s[i] == x {
    } else {
        lemma_first_index_from(s, x, i + 1);
    }
}

/// `first_index_of` finds exactly the least index holding the element.
pub proof fn lemma_first_index_of<T>(s: Seq<T>, x: T)
    ensures
        match first_index_of(s, x) {
            None => forall|i: int| 0 <= i < s.len() ==> s[i] != x,
            Some(k) => 0 <= k < s.len() && s[k] == x && (forall|j: int| 0 <= j < k ==> s[j] != x),
        },
{
    lemma_first_index_from(s, x, 0);
}

/// Compares two string slices character by character.
pub fn str_eq(a: &str, b: &str) -> (r: bool)
    ensures
        r == (a@ == b@),
{
    let n = a.unicode_len();
    let m = b.unicode_len();
    if n != m {
        return false;
    }
    let mut i: usize = 0;
    while i < n
        invariant
            0 <= i <= n,
            n == a@.len(),
            n == b@.len(),
            forall|j: int| 0 <= j < i ==> a@[j] == b@[j],
        decreases n - i,
    {
        if a.get_char(i) != b.get_char(i) {
            return false;
        }
        i = i + 1;
    }
    proof {
        assert(a@ =~= b@);
    }
    true
}

/// Marks a value as used from a single execution context only; it merely
/// carries its content.
pub struct AssertThreadSafe<T>(pub T);

impl<T> AssertThreadSafe<T> {
    /// Wraps a value; the caller asserts that it will not be shared across
    /// contexts.
    pub fn new_unchecked(val: T) -> (r: Self)
        ensures
            r.0 == val,
    {
        AssertThreadSafe(val)
    }

    /// Returns the wrapped value.
    pub fn into_innner(this: Self) -> (r: T)
        ensures
            r == this.0,
    {
        this.0
    }

    /// Borrows the wrapped value.
    pub fn get(this: &Self) -> (r: &T)
        ensures
            r == this.0,
    {
        &this.0
    }

    /// Borrows the wrapped value mutably.
    pub fn get_mut(this: &mut Self) -> (r: &mut T)
        ensures
            *r == old(this).0,
            final(this).0 == *final(r),
    {
        &mut this.0
    }
}

/// Splitting a value once on the first occurrence of a pattern, consuming it.
pub trait SplitOnceOwned: Sized + View<V = Seq<char>> {
    /// Truncates `self` to what precedes the first occurrence of `p` and
    /// returns what follows it, or leaves `self` unchanged when `p` does not
    /// occur.
    fn split_once_take(&mut self, p: &str) -> (r: Option<Self>)
        ensures
            match r {
                Some(tail) => {
                    &&& first_match(old(self)@, p@) matches Some(i)
                    &&& final(self)@ == old(self)@.take(first_match(old(self)@, p@)->Some_0)
                    &&& tail@ == old(self)@.skip(
                        first_match(old(self)@, p@)->Some_0 + p@.len() as int,
                    )
                },
                None => first_match(old(self)@, p@) is None && final(self)@ == old(self)@,
            },
    ;

    /// Splits `self` into the parts before and after the first occurrence of
    /// `p`, or hands `self` back when `p` does not occur.
    fn split_once_owned(self, p: &str) -> (r: Result<(Self, Self), Self>)
        ensures
            match r {
                Ok(pair) => {
                    &&& first_match(self@, p@) matches Some(i)
                    &&& pair.0@ == self@.take(first_match(self@, p@)->Some_0)
                    &&& pair.1@ == self@.skip(first_match(self@, p@)->Some_0 + p@.len() as int)
                },
                Err(orig) => first_match(self@, p@) is None && orig@ == self@,
            },
    {
        let mut this = self;
        match this.split_once_take(p) {
            Some(val) => Ok((this, val)),
            None => Err(this),
        }
    }
}

impl SplitOnceOwned for String {
    fn split_once_take(&mut self, p: &str) -> (r: Option<Self>) {
        let n = self.as_str().unicode_len();
        let m = p.unicode_len();
        if m > n {
            proof {
                assert(first_match_from(self@, p@, 0) is None);
            }
            return None;
        }
        if m == 0 {
            proof {
                assert(self@.subrange(0, 0) =~= p@);
                assert(match_at(self@, p@, 0));
                assert(first_match_from(self@, p@, 0) == Some(0int));
            }
            let tail = self.clone();
            proof {
                assert(tail@ =~= self@.skip(0));
                assert(self@.take(0) =~= Seq::<char>::empty());
            }
            *self = String::new();
            return Some(tail);
        }
        let mut i: usize = 0;
        while i <= n - m
            invariant
                0 <= i <= n - m + 1,
                0 < m <= n,
                self@ == old(self)@,
                n == self@.len(),
                m == p@.len(),
                first_match(self@, p@) == first_match_from(self@, p@, i as int),
            decreases n - i,
        {
            let mut k: usize = 0;
            let mut same = true;
            while k < m && same
                invariant
                    0 <= k <= m,
                    0 <= i,
                    i + m <= n,
                    self@ == old(self)@,
                    n == self@.len(),
                    m == p@.len(),
                    same ==> forall|t: int| 0 <= t < k ==> self@[i + t] == p@[t],
                    !same ==> !match_at(self@, p@, i as int),
                decreases m - k + (if same { 1int } else { 0int }),
            {
                if self.as_str().get_char(i + k) != p.get_char(k) {
                    proof {
                        if match_at(self@, p@, i as int) {
                            assert(self@.subrange(i as int, i + m)[k as int] == self@[i + k]);
                        }
                    }
                    same = false;
                } else {
                    k = k + 1;
                }
            }
            if same {
                proof {
                    assert(self@.subrange(i as int, i + m) =~= p@);
                    assert(match_at(self@, p@, i as int));
                    assert(first_match_from(self@, p@, i as int) == Some(i as int));
                }
                let tail = self.as_str().substring_char(i + m, n).to_owned();
                let head = self.as_str().substring_char(0, i).to_owned();
                proof {
                    assert(head@ =~= self@.take(i as int));
                    assert(tail@ =~= self@.skip(i + m));
                }
                *self = head;
                return Some(tail);
            }
            i = i + 1;
        }
        proof {
            assert(i + m > n);
            assert(first_match_from(self@, p@, i as int) is None);
        }
        None
    }
}

} // verus!
