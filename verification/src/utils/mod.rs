//! Small helpers shared by the drivers and the process tables.
use vstd::prelude::*;

verus! {

/// The entry under `k` of a keyed table, if there is one.
pub open spec fn entry_of<K, V>(m: Map<K, V>, k: K) -> Option<V> {
    if m.contains_key(k) { Some(m[k]) } else { None }
}

/// A zero-sized marker for an array of `T` of unknown length that ends a
/// structure laid out as C lays it out.
#[allow(non_camel_case_types)]
pub struct __IncompleteArrayField<T>(pub core::marker::PhantomData<T>);

impl<T> __IncompleteArrayField<T> {
    pub fn new() -> (r: Self)
        ensures
            r == __IncompleteArrayField::<T>(core::marker::PhantomData),
    {
        __IncompleteArrayField(core::marker::PhantomData)
    }
}

} // verus!
