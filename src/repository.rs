use vstd::prelude::*;
use std::collections::HashMap;

verus! {

broadcast use vstd::std_specs::hash::group_hash_axioms;

/// Items of type `T` stored by numeric id.
pub struct Repository<T: Clone> {
    items: HashMap<u64, T>,
}

impl<T: Clone> View for Repository<T> {
    type V = Map<u64, T>;

    closed spec fn view(&self) -> Map<u64, T> {
        self.items@
    }
}

impl<T: Clone> Repository<T> {
    pub fn new() -> (r: Repository<T>)
        ensures
            r@ == Map::<u64, T>::empty(),
    {
        Repository { items: HashMap::new() }
    }

    /// Stores `item` under `id`, replacing what was there.
    pub fn save(&mut self, id: u64, item: T)
        ensures
            final(self)@ == old(self)@.insert(id, item),
    {
        self.items.insert(id, item);
    }

    pub fn find(&self, id: u64) -> (r: Option<&T>)
        ensures
            match r {
                Some(v) => self@.contains_key(id) && *v == self@[id],
                None => !self@.contains_key(id),
            },
    {
        self.items.get(&id)
    }
}

/// A view of borrowed text.
pub struct Borrowed<'a> {
    pub data: &'a str,
}

impl<'a> Borrowed<'a> {
    pub fn new(data: &'a str) -> (r: Borrowed<'a>)
        ensures
            r.data == data,
    {
        Borrowed { data }
    }

    pub fn get(&self) -> (r: &str)
        ensures
            r == self.data,
    {
        self.data
    }
}

/// Calls `f` on `val`.
pub fn apply<F: Fn(i32) -> i32>(f: F, val: i32) -> (r: i32)
    requires
        f.requires((val,)),
    ensures
        f.ensures((val,), r),
{
    f(val)
}

pub fn double(x: i32) -> (r: i32)
    requires
        i32::MIN <= 2 * x <= i32::MAX,
    ensures
        r == 2 * x,
{
    x * 2
}

} // verus!
