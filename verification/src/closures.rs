//! A memoizing wrapper around a calculation: the closure runs at most once,
//! and the first result answers every later request.

use vstd::prelude::*;

verus! {

/// Caches the result of a `u32 -> u32` calculation after its first run.
pub struct Cacher<T> where T: Fn(u32) -> u32 {
    calculation: T,
    value: Option<u32>,
}

impl<T> Cacher<T> where T: Fn(u32) -> u32 {
    /// The cached result, if the calculation has run.
    pub closed spec fn cached(&self) -> Option<u32> {
        self.value
    }

    /// The calculation this cacher wraps.
    pub closed spec fn func(&self) -> T {
        self.calculation
    }

    /// Wraps a calculation; nothing is cached yet.
    pub fn new(calculation: T) -> (c: Cacher<T>)
        ensures
            c.cached() is None,
            c.func() == calculation,
    {
        Cacher { calculation, value: None }
    }

    /// The cached result if there is one; otherwise runs the calculation on
    /// `arg`, caches its result, and returns it.
    pub fn value(&mut self, arg: u32) -> (r: u32)
        requires
            old(self).cached() is None ==> old(self).func().requires((arg,)),
        ensures
            final(self).cached() == Some(r),
            final(self).func() == old(self).func(),
            old(self).cached() matches Some(v) ==> r == v,
            old(self).cached() is None ==> old(self).func().ensures((arg,), r),
    {
        match self.value {
            Some(v) => v,
            None => {
                let v = (self.calculation)(arg);
                self.value = Some(v);
                v
            },
        }
    }
}

} // verus!
