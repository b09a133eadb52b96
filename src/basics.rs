use vstd::prelude::*;
use vstd::std_specs::cmp::{PartialEqSpec, PartialOrdIs, PartialOrdSpec};
use vstd::string::StringSliceAdditionalSpecFns;
use vstd::utf8::is_char_boundary;

verus! {

/// The first element of a non-empty slice.
pub fn first<T>(slice: &[T]) -> (r: &T)
    requires
        slice@.len() > 0,
    ensures
        *r == slice@[0],
{
    &slice[0]
}

/// `a` when it compares greater than `b`, else `b`.
pub fn max<T: PartialOrd>(a: T, b: T) -> (r: T)
    ensures
        T::obeys_partial_cmp_spec() ==> r == if a.is_gt(&b) {
            a
        } else {
            b
        },
{
    if a > b {
        a
    } else {
        b
    }
}

/// A point of the integer plane.
#[derive(Debug, Clone, Copy, PartialEq, Eq, Structural)]
pub struct Point {
    pub x: i32,
    pub y: i32,
}

impl Point {
    pub fn new(x: i32, y: i32) -> (p: Point)
        ensures
            p == (Point { x, y }),
    {
        Point { x, y }
    }

    /// Moves the point by (`dx`, `dy`).
    pub fn translate(&mut self, dx: i32, dy: i32)
        requires
            i32::MIN <= old(self).x + dx <= i32::MAX,
            i32::MIN <= old(self).y + dy <= i32::MAX,
        ensures
            final(self).x == old(self).x + dx,
            final(self).y == old(self).y + dy,
    {
        self.x += dx;
        self.y += dy;
    }
}

/// Moves the point one step to the right.
pub fn inc_x(p: &mut Point)
    requires
        old(p).x < i32::MAX,
    ensures
        final(p).x == old(p).x + 1,
        final(p).y == old(p).y,
{
    p.x += 1;
}

/// Splits `s` at byte `i`, which must start a character (or be the end).
pub fn mysplit_at(s: &str, i: usize) -> (r: (&str, &str))
    requires
        is_char_boundary(s.spec_bytes(), i as int),
    ensures
        r.0.spec_bytes() == s.spec_bytes().subrange(0, i as int),
        r.1.spec_bytes() == s.spec_bytes().subrange(i as int, s.spec_bytes().len() as int),
{
    s.split_at(i)
}

/// The position of the first element equal to `target`.
pub fn index<T: PartialEq>(slice: &[T], target: &T) -> (r: Option<usize>)
    ensures
        T::obeys_eq_spec() ==> match r {
            Some(i) => {
                &&& i < slice@.len()
                &&& slice@[i as int].eq_spec(target)
                &&& forall|j: int| 0 <= j < i ==> !(#[trigger] slice@[j]).eq_spec(target)
            },
            None => forall|j: int| 0 <= j < slice@.len() ==> !(#[trigger] slice@[j]).eq_spec(target),
        },
{
    let mut i: usize = 0;
    while i < slice.len()
        invariant
            i <= slice@.len(),
            T::obeys_eq_spec() ==> forall|j: int| 0 <= j < i ==> !(#[trigger] slice@[j]).eq_spec(target),
        decreases slice@.len() - i,
    {
        if slice[i].eq(target) {
            return Some(i);
        }
        i += 1;
    }
    None
}

/// The running maximum of `s` from `init`: an element replaces it when it
/// compares greater.
pub open spec fn max_fold<T: PartialOrd>(init: T, s: Seq<T>) -> T
    decreases s.len(),
{
    if s.len() == 0 {
        init
    } else {
        let m = max_fold(init, s.drop_last());
        if s.last().is_gt(&m) {
            s.last()
        } else {
            m
        }
    }
}

/// The running minimum of `s` from `init`: an element replaces it when it
/// compares less.
pub open spec fn min_fold<T: PartialOrd>(init: T, s: Seq<T>) -> T
    decreases s.len(),
{
    if s.len() == 0 {
        init
    } else {
        let m = min_fold(init, s.drop_last());
        if s.last().is_lt(&m) {
            s.last()
        } else {
            m
        }
    }
}

/// The smallest and the largest element of a slice, or nothing when it is
/// empty.
pub fn min_max<T: PartialOrd + Copy>(slice: &[T]) -> (r: Option<(T, T)>)
    ensures
        r is None <==> slice@.len() == 0,
        T::obeys_partial_cmp_spec() && slice@.len() > 0 ==> r == Some(
            (min_fold(slice@[0], slice@), max_fold(slice@[0], slice@)),
        ),
{
    if slice.len() == 0 {
        return None;
    }
    let mut min = slice[0];
    let mut max = slice[0];
    let mut i: usize = 0;
    while i < slice.len()
        invariant
            0 < slice@.len(),
            i <= slice@.len(),
            T::obeys_partial_cmp_spec() ==> max == max_fold(slice@[0], slice@.take(i as int)),
            T::obeys_partial_cmp_spec() ==> min == min_fold(slice@[0], slice@.take(i as int)),
        decreases slice@.len() - i,
    {
        let element = slice[i];
        proof {
            assert(slice@.take(i + 1).drop_last() =~= slice@.take(i as int));
        }
        if element > max {
            max = element;
        }
        if element < min {
            min = element;
        }
        i += 1;
    }
    assert(slice@.take(slice@.len() as int) =~= slice@);
    Some((min, max))
}

} // verus!
