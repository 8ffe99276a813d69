//! Small helpers shared across the crate.
use vstd::prelude::*;
use vstd::std_specs::cmp::PartialEqSpec;

verus! {

/// The distance between two naturals.
pub open spec fn abs_diff(a: int, b: int) -> int {
    if a > b {
        a - b
    } else {
        b - a
    }
}

/// The distance between two numbers does not depend on their order, is never negative,
/// and is zero only between equal numbers.
pub proof fn lemma_abs_diff_symmetric(a: int, b: int)
    ensures
        abs_diff(a, b) == abs_diff(b, a),
        abs_diff(a, b) >= 0,
        abs_diff(a, b) == 0 <==> a == b,
{
}

/// Copies the first `N` items of `src` into an array.
pub fn array_copy<T: Copy + Default, const N: usize>(src: &[T]) -> (r: [T; N])
    requires
        N <= src@.len(),
    ensures
        r@ == src@.take(N as int),
{
    let mut out: [T; N] = [T::default(); N];
    let mut i: usize = 0;
    proof {
        broadcast use vstd::array::group_array_axioms;
    }
    while i < N
        invariant
            i <= N,
            N <= src@.len(),
            out@.len() == N,
            forall|k: int| 0 <= k < i ==> #[trigger] out@[k] == src@[k],
        decreases N - i,
    {
        out[i] = src[i];
        i = i + 1;
    }
    assert(out@ =~= src@.take(N as int));
    out
}

/// Absolute difference between two values of one type.
pub trait AbsSub: Sized {
    type Output;

    fn abs_sub(self, other: Self) -> Self::Output;
}

impl AbsSub for u64 {
    type Output = u64;

    fn abs_sub(self, other: u64) -> (r: u64)
        ensures
            r == abs_diff(self as int, other as int),
    {
        if self > other {
            self - other
        } else {
            other - self
        }
    }
}

/// Why a stream did not hold exactly one distinct value.
#[derive(PartialEq, Debug)]
pub enum AllowOnlyOneError<T: PartialEq> {
    /// The stream was empty.
    NoneFound,
    /// The stream held this value after a different first one.
    GotSecond(T),
}

/// The state after one more value: the first value is kept while the values that
/// follow equal it; the first value that differs is kept as the error, and nothing
/// after it counts.
pub open spec fn next_state<T: PartialEq>(
    state: Result<T, AllowOnlyOneError<T>>,
    next: T,
) -> Result<T, AllowOnlyOneError<T>> {
    match state {
        Ok(cur) => if cur.eq_spec(&next) {
            Ok(cur)
        } else {
            Err(AllowOnlyOneError::GotSecond(next))
        },
        Err(AllowOnlyOneError::NoneFound) => Ok(next),
        Err(AllowOnlyOneError::GotSecond(second)) => Err(AllowOnlyOneError::GotSecond(second)),
    }
}

/// The state after each value of `items` in turn, from `state`.
pub open spec fn fold_state<T: PartialEq>(
    state: Result<T, AllowOnlyOneError<T>>,
    items: Seq<T>,
) -> Result<T, AllowOnlyOneError<T>>
    decreases items.len(),
{
    if items.len() == 0 {
        state
    } else {
        next_state(fold_state(state, items.drop_last()), items.last())
    }
}

/// Checks that a stream of values holds one value, possibly repeated.
pub struct AllowOnlyOne<T: PartialEq> {
    state: Result<T, AllowOnlyOneError<T>>,
}

impl<T: PartialEq> View for AllowOnlyOne<T> {
    type V = Result<T, AllowOnlyOneError<T>>;

    closed spec fn view(&self) -> Result<T, AllowOnlyOneError<T>> {
        self.state
    }
}

impl<T: PartialEq> AllowOnlyOne<T> {
    /// Nothing seen yet.
    pub fn new() -> (r: Self)
        ensures
            r@ == Err::<T, AllowOnlyOneError<T>>(AllowOnlyOneError::NoneFound),
    {
        Self { state: Err(AllowOnlyOneError::NoneFound) }
    }

    /// One value seen.
    pub fn from_first(cur: T) -> (r: Self)
        ensures
            r@ == Ok::<T, AllowOnlyOneError<T>>(cur),
    {
        Self { state: Ok(cur) }
    }

    /// A second, different value seen.
    pub fn from_second(second: T) -> (r: Self)
        ensures
            r@ == Err::<T, AllowOnlyOneError<T>>(AllowOnlyOneError::GotSecond(second)),
    {
        Self { state: Err(AllowOnlyOneError::GotSecond(second)) }
    }

    /// Whether a second, different value was seen.
    pub fn has_second(&self) -> (r: bool)
        ensures
            r == self@ matches Err(AllowOnlyOneError::GotSecond(_)),
    {
        match &self.state {
            Err(AllowOnlyOneError::GotSecond(_)) => true,
            _ => false,
        }
    }

    /// The state after one more value. Where `T`'s `==` is the one its specification
    /// describes, the result is `next_state`; in any case a first value is kept or
    /// replaced by the new one as the second, and a second value stays.
    pub fn with_next(self, next: T) -> (r: Self)
        ensures
            T::obeys_eq_spec() ==> r@ == next_state(self@, next),
            self@ is Ok ==> (r@ == self@ || r@ == Err::<T, AllowOnlyOneError<T>>(
                AllowOnlyOneError::GotSecond(next),
            )),
            self@ is Err ==> r@ == next_state(self@, next),
    {
        match self.state {
            Ok(cur) => {
                if cur == next {
                    Self::from_first(cur)
                } else {
                    Self::from_second(next)
                }
            },
            Err(AllowOnlyOneError::NoneFound) => Self::from_first(next),
            Err(AllowOnlyOneError::GotSecond(err)) => Self::from_second(err),
        }
    }

    /// Takes one more value in place.
    pub fn push_next(&mut self, next: T)
        ensures
            T::obeys_eq_spec() ==> final(self)@ == next_state(old(self)@, next),
            old(self)@ is Ok ==> (final(self)@ == old(self)@ || final(self)@ == Err::<
                T,
                AllowOnlyOneError<T>,
            >(AllowOnlyOneError::GotSecond(next))),
            old(self)@ is Err ==> final(self)@ == next_state(old(self)@, next),
    {
        let mut cur = Self::new();
        std::mem::swap(&mut cur, self);
        *self = cur.with_next(next);
    }

    /// The outcome: the one value, or why there was not exactly one.
    pub fn into_res(self) -> (r: Result<T, AllowOnlyOneError<T>>)
        ensures
            r == self@,
    {
        self.state
    }

    /// Takes each value of `items` in turn, stopping early once a second value was seen.
    pub fn extend_items(&mut self, items: Vec<T>)
        ensures
            T::obeys_eq_spec() ==> final(self)@ == fold_state(old(self)@, items@),
    {
        let ghost all = items@;
        let ghost start = self@;
        let mut rest = items;
        let n = rest.len();
        let mut i: usize = 0;
        while rest.len() > 0 && !self.has_second()
            invariant
                i + rest@.len() == all.len(),
                all.len() == n,
                rest@ == all.subrange(i as int, all.len() as int),
                T::obeys_eq_spec() ==> self@ == fold_state(start, all.take(i as int)),
            decreases rest@.len(),
        {
            let item = rest.remove(0);
            self.push_next(item);
            proof {
                assert(all.take(i + 1).drop_last() =~= all.take(i as int));
                assert(all.take(i + 1).last() == all[i as int]);
            }
            i = i + 1;
        }
        proof {
            if rest@.len() > 0 {
                lemma_second_stays(self@, all.subrange(i as int, all.len() as int));
                lemma_fold_split(start, all, i as int);
            } else {
                assert(all.take(i as int) =~= all);
            }
        }
    }

    /// The state after each value of `items` in turn.
    pub fn from_items(items: Vec<T>) -> (r: Self)
        ensures
            T::obeys_eq_spec() ==> r@ == fold_state(
                Err::<T, AllowOnlyOneError<T>>(AllowOnlyOneError::NoneFound),
                items@,
            ),
    {
        let mut r = Self::new();
        r.extend_items(items);
        r
    }
}

impl<T: PartialEq> Default for AllowOnlyOne<T> {
    fn default() -> (r: Self)
        ensures
            r@ == Err::<T, AllowOnlyOneError<T>>(AllowOnlyOneError::NoneFound),
    {
        Self::new()
    }
}

/// Once a second value was seen, further values change nothing.
pub proof fn lemma_second_stays<T: PartialEq>(state: Result<T, AllowOnlyOneError<T>>, items: Seq<T>)
    requires
        state matches Err(AllowOnlyOneError::GotSecond(_)),
    ensures
        fold_state(state, items) == state,
    decreases items.len(),
{
    if items.len() > 0 {
        lemma_second_stays(state, items.drop_last());
    }
}

/// Folding a sequence is folding its first `i` values, then the rest.
pub proof fn lemma_fold_split<T: PartialEq>(state: Result<T, AllowOnlyOneError<T>>, items: Seq<T>, i: int)
    requires
        0 <= i <= items.len(),
    ensures
        fold_state(state, items) == fold_state(fold_state(state, items.take(i)), items.subrange(i, items.len() as int)),
    decreases items.len(),
{
    if items.len() > i {
        lemma_fold_split(state, items.drop_last(), i);
        assert(items.drop_last().take(i) =~= items.take(i));
        assert(items.subrange(i, items.len() as int).drop_last() =~= items.drop_last().subrange(i, items.len() - 1));
    } else {
        assert(items.take(i) =~= items);
        assert(items.subrange(i, items.len() as int) =~= Seq::<T>::empty());
    }
}

} // verus!
