//! The play queue: items in the order they were queued, each with its state.
use vstd::prelude::*;
use super::item::{Item, ItemState};

verus! {

broadcast use vstd::seq_lib::group_seq_properties;

/// The queue of items to play.
pub struct Queue {
    inner: Vec<Item>,
}

/// What a look for the next item found.
#[derive(Debug, Clone, Copy, PartialEq, Eq, Structural)]
pub enum NextCheck {
    /// The first prepared item stands at this place.
    Found(usize),
    /// No item is prepared yet but some have no state: wait a while, then
    /// look again with this many retries left.
    Retry(usize),
    /// No item can be played.
    NotFound,
}

/// The first place that holds an item in state `s`, or the
/// length when there is none.
pub open spec fn first_in_state(items: Seq<ItemState>, s: ItemState) -> int {
    if exists|i: int| 0 <= i < items.len() && items[i] == s {
        choose|i: int|
            0 <= i < items.len() && items[i] == s && forall|k: int| 0 <= k < i ==> items[k] != s
    } else {
        items.len() as int
    }
}

/// The number of retries a look for the next item starts with.
pub const NEXT_RETRIES: usize = 5;

/// The milliseconds to wait before looking again.
pub const RETRY_WAIT_MS: u64 = 500;

impl Queue {
    /// The queued items, in order.
    pub closed spec fn items(&self) -> Seq<Item> {
        self.inner@
    }

    /// The states of the queued items, in order.
    pub open spec fn states(&self) -> Seq<ItemState> {
        self.items().map_values(|i: Item| i.state)
    }

    /// The addresses of the queued items, in order.
    pub open spec fn uris(&self) -> Seq<Seq<char>> {
        self.items().map_values(|i: Item| i.uri@)
    }

    /// An empty queue.
    pub fn new() -> (r: Queue)
        ensures
            r.items() == Seq::<Item>::empty(),
            r.states() == Seq::<ItemState>::empty(),
            r.uris() == Seq::<Seq<char>>::empty(),
    {
        let r = Queue { inner: Vec::new() };
        assert(r.states() =~= Seq::<ItemState>::empty());
        assert(r.uris() =~= Seq::<Seq<char>>::empty());
        r
    }

    /// Queues an item at the end.
    pub fn push(&mut self, value: Item)
        ensures
            final(self).items() == old(self).items().push(value),
            final(self).states() == old(self).states().push(value.state),
            final(self).uris() == old(self).uris().push(value.uri@),
    {
        self.inner.push(value);
        assert(self.states() =~= old(self).states().push(value.state));
        assert(self.uris() =~= old(self).uris().push(value.uri@));
    }

    /// Looks for the next item to play: the first prepared item. When there
    /// is none but some item has no state yet, and retries are left, the
    /// caller is to wait and look again with one retry less.
    pub fn next_check(&self, retry_count: usize) -> (r: NextCheck)
        ensures
            ({
                let f = first_in_state(self.states(), ItemState::Prepared);
                if f < self.states().len() {
                    r == NextCheck::Found(f as usize)
                } else if self.states().contains(ItemState::Unknown) && retry_count > 0 {
                    r == NextCheck::Retry((retry_count - 1) as usize)
                } else {
                    r == NextCheck::NotFound
                }
            }),
    {
        let mut index: usize = 0;
        let mut found = false;
        while index < self.inner.len() && !found
            invariant
                index <= self.inner@.len(),
                forall|k: int| 0 <= k < index ==> self.states()[k] != ItemState::Prepared,
                self.states().len() == self.inner@.len(),
                found ==> index < self.inner@.len() && self.states()[index as int]
                    == ItemState::Prepared,
            decreases self.inner@.len() - index + if found {
                0int
            } else {
                1
            },
        {
            assert(self.states()[index as int] == self.inner@[index as int].state);
            if self.inner[index].state() == ItemState::Prepared {
                found = true;
            } else {
                index = index + 1;
            }
        }
        let mut has_unknown = false;
        let mut k: usize = 0;
        while k < self.inner.len()
            invariant
                k <= self.inner@.len(),
                self.states().len() == self.inner@.len(),
                has_unknown == exists|m: int| 0 <= m < k && self.states()[m] == ItemState::Unknown,
            decreases self.inner@.len() - k,
        {
            assert(self.states()[k as int] == self.inner@[k as int].state);
            if self.inner[k].state() == ItemState::Unknown {
                has_unknown = true;
            }
            k = k + 1;
        }
        let ghost f = first_in_state(self.states(), ItemState::Prepared);
        if found {
            proof {
                assert(self.states()[index as int] == ItemState::Prepared);
                let c = choose|i: int|
                    0 <= i < self.states().len() && self.states()[i] == ItemState::Prepared && forall|
                        k: int,
                    | 0 <= k < i ==> self.states()[k] != ItemState::Prepared;
                assert(c == index);
            }
            return NextCheck::Found(index);
        }
        assert(f == self.states().len());
        if has_unknown {
            proof {
                let m = choose|m: int| 0 <= m < k && self.states()[m] == ItemState::Unknown;
                assert(self.states().contains(ItemState::Unknown));
            }
            if retry_count > 0 {
                return NextCheck::Retry(retry_count - 1);
            }
        } else {
            assert(!self.states().contains(ItemState::Unknown));
        }
        NextCheck::NotFound
    }

    /// The first look for the next item, with the full number of retries.
    pub fn next(&self) -> (r: NextCheck)
        ensures
            ({
                let f = first_in_state(self.states(), ItemState::Prepared);
                if f < self.states().len() {
                    r == NextCheck::Found(f as usize)
                } else if self.states().contains(ItemState::Unknown) {
                    r == NextCheck::Retry((NEXT_RETRIES - 1) as usize)
                } else {
                    r == NextCheck::NotFound
                }
            }),
    {
        self.next_check(NEXT_RETRIES)
    }

    /// The place of the item that is playing: the first one in state `Activate`.
    pub fn current(&self) -> (r: Option<usize>)
        ensures
            ({
                let f = first_in_state(self.states(), ItemState::Activate);
                if f < self.states().len() {
                    r == Some(f as usize)
                } else {
                    r is None
                }
            }),
    {
        let mut index: usize = 0;
        while index < self.inner.len()
            invariant
                index <= self.inner@.len(),
                forall|k: int| 0 <= k < index ==> self.states()[k] != ItemState::Activate,
                self.states().len() == self.inner@.len(),
            decreases self.inner@.len() - index,
        {
            assert(self.states()[index as int] == self.inner@[index as int].state);
            if self.inner[index].state() == ItemState::Activate {
                proof {
                    let c = choose|i: int|
                        0 <= i < self.states().len() && self.states()[i] == ItemState::Activate
                            && forall|k: int| 0 <= k < i ==> self.states()[k] != ItemState::Activate;
                    assert(c == index);
                }
                return Some(index);
            }
            index = index + 1;
        }
        None
    }

    /// The item at place `index`.
    pub fn get(&self, index: usize) -> (r: &Item)
        requires
            index < self.states().len(),
        ensures
            *r == self.items()[index as int],
            r.state == self.states()[index as int],
            r.uri@ == self.uris()[index as int],
    {
        &self.inner[index]
    }

    /// Puts the item at place `index` into `state`.
    pub fn set_state(&mut self, index: usize, state: ItemState)
        requires
            index < old(self).states().len(),
        ensures
            final(self).items() == old(self).items().update(
                index as int,
                Item { state, ..old(self).items()[index as int] },
            ),
            final(self).states() == old(self).states().update(index as int, state),
            final(self).uris() == old(self).uris(),
    {
        let mut item = self.inner.remove(index);
        item.set_state(state);
        self.inner.insert(index, item);
        assert(self.states() =~= old(self).states().update(index as int, state));
        assert(self.uris() =~= old(self).uris());
    }

    /// Takes every removable item out of the queue; the others keep their order.
    pub fn clean(&mut self)
        ensures
            final(self).items() == old(self).items().filter(|i: Item| i.state != ItemState::Removed),
    {
        let mut kept: Vec<Item> = Vec::new();
        let mut old_items: Vec<Item> = Vec::new();
        std::mem::swap(&mut old_items, &mut self.inner);
        let ghost all = old_items@;
        let ghost mut rest: Seq<Item> = Seq::empty();
        while old_items.len() > 0
            invariant
                all == rest + old_items@,
                kept@ == rest.filter(|i: Item| i.state != ItemState::Removed),
            decreases old_items@.len(),
        {
            let item = old_items.remove(0);
            proof {
                reveal(Seq::filter);
                assert(rest.push(item).drop_last() =~= rest);
                rest = rest.push(item);
                assert(all =~= rest + old_items@);
            }
            if item.state != ItemState::Removed {
                kept.push(item);
            }
        }
        assert(rest =~= all);
        self.inner = kept;
    }

    /// The number of queued items.
    pub fn length(&self) -> (r: usize)
        ensures
            r == self.states().len(),
    {
        self.inner.len()
    }
}

/// A queue that was cleaned holds nothing removable: cleaning it again keeps
/// every item, in order.
pub proof fn lemma_clean_idempotent(items: Seq<Item>)
    ensures
        items.filter(|i: Item| i.state != ItemState::Removed).filter(
            |i: Item| i.state != ItemState::Removed,
        ) == items.filter(|i: Item| i.state != ItemState::Removed),
    decreases items.len(),
{
    reveal(Seq::filter);
    if items.len() > 0 {
        lemma_clean_idempotent(items.drop_last());
        let kept = items.drop_last().filter(|i: Item| i.state != ItemState::Removed);
        if items.last().state != ItemState::Removed {
            assert(kept.push(items.last()).drop_last() =~= kept);
        }
    }
}

} // verus!
