//! Values that are compared and copied by what they stand for.
use vstd::prelude::*;

verus! {

/// A value that can be compared and copied by its view.
pub trait Viewed: View + Sized {
    fn same_view(&self, other: &Self) -> (r: bool)
        ensures
            r == (self@ == other@),
    ;

    fn copy_view(&self) -> (r: Self)
        ensures
            r@ == self@,
    ;
}

/// The views of a list of values.
pub open spec fn views<T: View>(s: Seq<T>) -> Seq<T::V> {
    s.map_values(|x: T| x@)
}

/// Whether two lists stand for the same.
pub fn same_list<T: Viewed>(a: &Vec<T>, b: &Vec<T>) -> (r: bool)
    ensures
        r == (views(a@) == views(b@)),
{
    if a.len() != b.len() {
        assert(views(a@).len() != views(b@).len());
        return false;
    }
    let n: usize = a.len();
    for i in 0..n
        invariant
            n == a@.len(),
            n == b@.len(),
            forall|k: int| 0 <= k < i ==> (#[trigger] a@[k])@ == b@[k]@,
    {
        if !a[i].same_view(&b[i]) {
            assert(views(a@)[i as int] != views(b@)[i as int]);
            return false;
        }
    }
    assert(views(a@) =~= views(b@));
    true
}

/// A copy of a list.
pub fn copy_list<T: Viewed>(a: &Vec<T>) -> (r: Vec<T>)
    ensures
        views(r@) == views(a@),
{
    let mut r: Vec<T> = Vec::new();
    let n: usize = a.len();
    for i in 0..n
        invariant
            n == a@.len(),
            r@.len() == i,
            forall|k: int| 0 <= k < i ==> (#[trigger] r@[k])@ == a@[k]@,
    {
        r.push(a[i].copy_view());
    }
    assert(views(r@) =~= views(a@));
    r
}

} // verus!
