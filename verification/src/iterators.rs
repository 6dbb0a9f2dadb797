//! Hand-rolled iteration: a bounded counter, a filter over shoes by size,
//! and an owner-replacing pass over a vector of names.

use vstd::prelude::*;

verus! {

/// Counts from 1 to 5, then stops.
pub struct Counter {
    count: u32,
}

impl Counter {
    /// The numbers handed out so far.
    pub closed spec fn spec_count(&self) -> u32 {
        self.count
    }

    /// A counter that has not counted yet.
    pub fn new() -> (c: Counter)
        ensures
            c.spec_count() == 0,
    {
        Counter { count: 0 }
    }

    /// The next number: 1 through 5 in turn, then `None` forever.
    pub fn next(&mut self) -> (r: Option<u32>)
        ensures
            old(self).spec_count() < 5 ==> final(self).spec_count() == old(self).spec_count() + 1
                && r == Some((old(self).spec_count() + 1) as u32),
            old(self).spec_count() >= 5 ==> final(self).spec_count() == old(self).spec_count()
                && r is None,
    {
        if self.count < 5 {
            self.count = self.count + 1;
            Some(self.count)
        } else {
            None
        }
    }
}

/// A shoe: its size and its style.
#[derive(PartialEq, Debug)]
pub struct Shoe {
    pub size: u32,
    pub style: String,
}

/// The shoes among `shoes` of exactly the given size, in order.
pub open spec fn shoes_matching(shoes: Seq<Shoe>, size: u32) -> Seq<Shoe>
    decreases shoes.len(),
{
    if shoes.len() == 0 {
        Seq::empty()
    } else {
        shoes_matching(shoes.drop_last(), size) + if shoes.last().size == size {
            seq![shoes.last()]
        } else {
            Seq::empty()
        }
    }
}

/// Keeps exactly the shoes of the given size, in their original order.
pub fn shoes_in_my_size(shoes: Vec<Shoe>, shoe_size: u32) -> (r: Vec<Shoe>)
    ensures
        r@ == shoes_matching(shoes@, shoe_size),
{
    let ghost orig = shoes@;
    let mut shoes = shoes;
    let mut results: Vec<Shoe> = Vec::new();
    proof {
        assert(orig.subrange(0, orig.len() as int) =~= orig);
    }
    while shoes.len() > 0
        invariant
            shoes@.len() <= orig.len(),
            shoes@ == orig.subrange(orig.len() - shoes@.len(), orig.len() as int),
            results@ == shoes_matching(
                orig.subrange(0, orig.len() - shoes@.len()),
                shoe_size,
            ),
        decreases shoes.len(),
    {
        let ghost i = orig.len() - shoes@.len();
        let ghost prev = shoes@;
        let s = shoes.remove(0);
        proof {
            assert(shoes@ =~= prev.subrange(1, prev.len() as int));
            assert(s == orig[i]);
            assert(shoes@ =~= orig.subrange(i + 1, orig.len() as int));
            assert(orig.subrange(0, i + 1).drop_last() =~= orig.subrange(0, i));
            assert(orig.subrange(0, i + 1).last() == orig[i]);
        }
        if s.size == shoe_size {
            results.push(s);
        }
    }
    proof {
        assert(orig.subrange(0, orig.len() as int) =~= orig);
    }
    results
}

/// A name borrowed from elsewhere.
#[derive(Debug, Clone, Copy)]
pub struct Name<'a> {
    pub owner: &'a str,
}

/// Relies on str's `==`: two string slices are equal exactly when their
/// character sequences are.
#[verifier::external_body]
fn str_eq(a: &str, b: &str) -> (r: bool)
    ensures
        r == (a@ == b@),
{
    a == b
}

/// Rebuilds the vector, replacing every owner named "Case" by `value` and
/// keeping everyone else as they were.
pub fn update_vector<'a>(value: &'a str, name_vec: Vec<Name<'a>>) -> (r: Vec<Name<'a>>)
    ensures
        r@.len() == name_vec@.len(),
        forall|i: int|
            0 <= i < name_vec@.len() ==> (#[trigger] r@[i]).owner@ == if name_vec@[i].owner@
                == "Case"@ {
                value@
            } else {
                name_vec@[i].owner@
            },
{
    let mut x: Vec<Name<'a>> = Vec::new();
    let mut i: usize = 0;
    while i < name_vec.len()
        invariant
            i <= name_vec.len(),
            x@.len() == i,
            forall|k: int|
                0 <= k < i ==> (#[trigger] x@[k]).owner@ == if name_vec@[k].owner@ == "Case"@ {
                    value@
                } else {
                    name_vec@[k].owner@
                },
        decreases name_vec.len() - i,
    {
        let vals = name_vec[i];
        if str_eq(vals.owner, "Case") {
            x.push(Name { owner: value });
        } else {
            x.push(vals);
        }
        i += 1;
    }
    x
}

} // verus!
