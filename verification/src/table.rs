//! Tables whose keys are handed out by a slab.
//!
//! A [`slab::Slab`] decides which key a new item gets; the items themselves are kept beside it, so
//! that all that is taken on trust of the slab is which keys are live and in which order released
//! keys are given out again.

use slab::Slab;
use vstd::prelude::*;

verus! {

/// The slab of the `slab` crate.
#[verifier::external_type_specification]
#[verifier::external_body]
#[verifier::reject_recursive_types(T)]
pub struct ExSlab<T>(Slab<T>);

/// The keys that are live in a slab.
pub uninterp spec fn slab_live(slab: Slab<()>) -> Set<usize>;

/// The keys that were released and not given out since, in the order of their release.
pub uninterp spec fn slab_released(slab: Slab<()>) -> Seq<usize>;

/// The keys of a slab: those in use, and those released and not given out since, in the order of
/// their release.
pub struct Keys {
    pub live: Set<usize>,
    pub released: Seq<usize>,
}

impl Keys {
    pub open spec fn none() -> Keys {
        Keys { live: Set::empty(), released: Seq::empty() }
    }

    /// The live and the released keys are the numbers below their common count, each of them once.
    pub open spec fn valid(self) -> bool {
        &&& self.live.finite()
        &&& self.released.no_duplicates()
        &&& forall|i: int|
            0 <= i < self.released.len() ==> !self.live.contains(#[trigger] self.released[i])
        &&& forall|i: int|
            0 <= i < self.released.len() ==> (#[trigger] self.released[i]) < self.live.len()
                + self.released.len()
        &&& forall|key: usize| #[trigger]
            self.live.contains(key) ==> key < self.live.len() + self.released.len()
    }

    /// The number that is given out next: the key released last, or, where no released key is
    /// left, the number of live keys.
    pub open spec fn next_number(self) -> nat {
        if self.released.len() > 0 {
            self.released.last() as nat
        } else {
            self.live.len()
        }
    }

    /// The key that is given out next.
    pub open spec fn next(self) -> usize {
        self.next_number() as usize
    }

    /// Whether there is a key left to give out.
    pub open spec fn has_next(self) -> bool {
        self.next_number() < usize::MAX
    }

    /// The keys after the next one was given out.
    pub open spec fn take(self) -> Keys {
        Keys {
            live: self.live.insert(self.next()),
            released: if self.released.len() > 0 {
                self.released.drop_last()
            } else {
                self.released
            },
        }
    }

    /// The keys after `key` was released, if it was live.
    pub open spec fn release(self, key: usize) -> Keys {
        if self.live.contains(key) {
            Keys { live: self.live.remove(key), released: self.released.push(key) }
        } else {
            self
        }
    }
}

/// A key is not given out while it is in use, and giving one out keeps the keys in order.
pub proof fn next_key_is_fresh(keys: Keys)
    requires
        keys.valid(),
        keys.has_next(),
    ensures
        !keys.live.contains(keys.next()),
        keys.take().valid(),
{
    let taken = keys.take();
    if keys.released.len() > 0 {
        let last = keys.released.len() - 1;
        assert(!keys.live.contains(keys.released[last]));
        assert forall|i: int| 0 <= i < taken.released.len() implies !taken.live.contains(
            #[trigger] taken.released[i],
        ) by {
            assert(taken.released[i] == keys.released[i]);
            assert(keys.released[i] != keys.released[last]);
        }
        assert(keys.released[last] < keys.live.len() + keys.released.len());
        assert forall|i: int| 0 <= i < taken.released.len() implies (
        #[trigger] taken.released[i]) < taken.live.len() + taken.released.len() by {
            assert(taken.released[i] == keys.released[i]);
        }
    }
}

/// Releasing a key keeps the keys in order.
pub proof fn release_keeps_keys_valid(keys: Keys, key: usize)
    requires
        keys.valid(),
    ensures
        keys.release(key).valid(),
{
    let freed = keys.release(key);
    if keys.live.contains(key) {
        assert forall|i: int| 0 <= i < freed.released.len() implies !freed.live.contains(
            #[trigger] freed.released[i],
        ) by {
            if i < keys.released.len() {
                assert(freed.released[i] == keys.released[i]);
            }
        }
        assert forall|i: int| 0 <= i < freed.released.len() implies (
        #[trigger] freed.released[i]) < freed.live.len() + freed.released.len() by {
            if i < keys.released.len() {
                assert(freed.released[i] == keys.released[i]);
            }
        }
        assert forall|i: int, j: int|
            0 <= i < j < freed.released.len() implies freed.released[i] != freed.released[j] by {
            assert(freed.released[i] == keys.released[i]);
            if j < keys.released.len() {
                assert(freed.released[j] == keys.released[j]);
            }
        }
    }
}

/// The key that was released last is the next one to be given out.
pub proof fn released_key_is_given_out_next(keys: Keys, key: usize)
    requires
        keys.live.contains(key),
    ensures
        keys.release(key).next() == key,
        keys.release(key).take().live == keys.live,
        keys.release(key).take().released == keys.released,
{
    let freed = keys.release(key);
    assert(freed.released.drop_last() =~= keys.released);
    assert(freed.live.insert(key) =~= keys.live);
}

/// The keys of a slab.
pub open spec fn slab_keys(slab: Slab<()>) -> Keys {
    Keys { live: slab_live(slab), released: slab_released(slab) }
}

/// [`slab::Slab::new`]: an empty slab, from which no key was released.
#[verifier::external_body]
fn slab_new() -> (slab: Slab<()>)
    ensures
        slab_live(slab) == Set::<usize>::empty(),
        slab_released(slab) == Seq::<usize>::empty(),
{
    Slab::new()
}

/// [`slab::Slab::insert`]: takes the vacant slot at the head of the slab's free list, which is the
/// slot released last, and, where the list is empty, appends a slot behind the live ones. The
/// slots are held in a `Vec` of entries that are not zero-sized, so a key stays below
/// `usize::MAX`. Like `Vec::push`, it ends the process where there is no memory for another slot.
#[verifier::external_body]
fn slab_insert(slab: &mut Slab<()>) -> (key: usize)
    ensures
        key == slab_keys(*old(slab)).next_number(),
        key < usize::MAX,
        slab_live(*final(slab)) == slab_keys(*old(slab)).take().live,
        slab_released(*final(slab)) == slab_keys(*old(slab)).take().released,
{
    slab.insert(())
}

/// [`slab::Slab::try_remove`]: releases the key and tells whether it was live; a key that is not
/// live is left alone.
#[verifier::external_body]
fn slab_remove(slab: &mut Slab<()>, key: usize) -> (ret: Option<()>)
    ensures
        ret is Some <==> slab_live(*old(slab)).contains(key),
        slab_live(*final(slab)) == slab_keys(*old(slab)).release(key).live,
        slab_released(*final(slab)) == slab_keys(*old(slab)).release(key).released,
{
    slab.try_remove(key)
}

/// Items that are found by the key they got when they were inserted.
pub struct Table<T> {
    keys: Slab<()>,
    items: Vec<Option<T>>,
}

impl<T> Table<T> {
    /// An item is held exactly at the live keys.
    pub closed spec fn wf(&self) -> bool {
        &&& slab_keys(self.keys).valid()
        &&& forall|key: usize| #[trigger]
            slab_live(self.keys).contains(key) <==> key < self.items@.len()
                && self.items@[key as int] is Some
    }

    /// The items by their keys.
    pub closed spec fn map(&self) -> Map<usize, T> {
        Map::new(
            |key: usize| key < self.items@.len() && self.items@[key as int] is Some,
            |key: usize| self.items@[key as int]->0,
        )
    }

    /// The released keys that were not given out again, in the order of their release.
    pub closed spec fn released(&self) -> Seq<usize> {
        slab_released(self.keys)
    }

    /// The keys of the table.
    pub open spec fn keys(&self) -> Keys {
        Keys { live: self.map().dom(), released: self.released() }
    }

    /// The keys of a well-formed table are in order, and the largest number is none of them.
    pub proof fn keys_are_valid(&self)
        requires
            self.wf(),
        ensures
            self.keys().valid(),
            !self.map().contains_key(usize::MAX),
    {
        assert(self.map().dom() =~= slab_live(self.keys));
        assert(self.items.len() == self.items@.len());
    }

    pub fn new() -> (ret: Self)
        ensures
            ret.wf(),
            ret.map() == Map::<usize, T>::empty(),
            ret.released() == Seq::<usize>::empty(),
    {
        let ret = Table { keys: slab_new(), items: Vec::new() };
        assert(ret.map() =~= Map::<usize, T>::empty());
        ret
    }

    /// Inserts an item and returns its key, which no other item has.
    pub fn insert(&mut self, item: T) -> (key: usize)
        requires
            old(self).wf(),
        ensures
            final(self).wf(),
            key == old(self).keys().next_number(),
            key < usize::MAX,
            !old(self).map().contains_key(key),
            final(self).map() == old(self).map().insert(key, item),
            final(self).keys() == old(self).keys().take(),
    {
        assert(self.keys() == slab_keys(self.keys)) by {
            assert(self.map().dom() =~= slab_live(self.keys));
        }
        let key: usize = slab_insert(&mut self.keys);
        proof {
            next_key_is_fresh(old(self).keys());
        }
        let ghost keys = self.keys;
        while self.items.len() <= key
            invariant
                old(self).items@.len() <= self.items@.len(),
                self.keys == keys,
                forall|i: int| 0 <= i < old(self).items@.len() ==> #[trigger] self.items@[i]
                    == old(self).items@[i],
                forall|i: int|
                    old(self).items@.len() <= i < self.items@.len() ==> #[trigger] self.items@[i]
                        is None,
            decreases key + 1 - self.items@.len(),
        {
            self.items.push(None);
        }
        self.items.set(key, Some(item));
        assert(self.map() =~= old(self).map().insert(key, item));
        assert(self.map().dom() =~= slab_live(self.keys));
        key
    }

    pub fn get(&self, key: usize) -> (ret: Option<&T>)
        requires
            self.wf(),
        ensures
            match ret {
                Some(item) => self.map().contains_key(key) && *item == self.map()[key],
                None => !self.map().contains_key(key),
            },
    {
        if key < self.items.len() {
            self.items[key].as_ref()
        } else {
            None
        }
    }

    pub fn contains(&self, key: usize) -> (ret: bool)
        requires
            self.wf(),
        ensures
            ret == self.map().contains_key(key),
    {
        key < self.items.len() && self.items[key].is_some()
    }

    /// The item at `key`, to be changed in place.
    pub fn get_mut(&mut self, key: usize) -> (ret: Option<&mut T>)
        requires
            old(self).wf(),
        ensures
            match ret {
                Some(item) => {
                    &&& old(self).map().contains_key(key)
                    &&& *item == old(self).map()[key]
                    &&& final(self).map() == old(self).map().insert(key, *final(item))
                },
                None => {
                    &&& !old(self).map().contains_key(key)
                    &&& final(self).map() == old(self).map()
                },
            },
            final(self).wf(),
            final(self).released() == old(self).released(),
    {
        if key < self.items.len() {
            let slot = &mut self.items[key];
            match slot {
                Some(item) => Some(item),
                None => None,
            }
        } else {
            None
        }
    }

    /// Removes the item at `key`, if there is one.
    pub fn try_remove(&mut self, key: usize) -> (ret: Option<T>)
        requires
            old(self).wf(),
        ensures
            final(self).wf(),
            match ret {
                Some(item) => old(self).map().contains_key(key) && item == old(self).map()[key],
                None => !old(self).map().contains_key(key),
            },
            final(self).map() == old(self).map().remove(key),
            final(self).keys() == old(self).keys().release(key),
    {
        assert(self.keys() == slab_keys(self.keys)) by {
            assert(self.map().dom() =~= slab_live(self.keys));
        }
        proof {
            release_keeps_keys_valid(self.keys(), key);
        }
        match slab_remove(&mut self.keys, key) {
            Some(()) => {
                let mut slot: Option<T> = None;
                self.items.set_and_swap(key, &mut slot);
                assert(self.map() =~= old(self).map().remove(key));
                assert(self.map().dom() =~= slab_live(self.keys));
                slot
            },
            None => {
                assert(self.map() =~= old(self).map().remove(key));
                None
            },
        }
    }
}

} // verus!
