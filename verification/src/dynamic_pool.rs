//! The channels kept open to one peer, and the handles lent out on them.
//!
//! A pool owns its channels. A caller borrows one as a [`CountedItem`], which
//! holds a clone of the channel, and gives it back with
//! [`DynamicChannelPool::release`] or has the channel thrown out with
//! [`DynamicChannelPool::drop_channel`]. The pool counts how many handles are
//! out on each channel and remembers when a request on it last succeeded.
//!
//! Times are readings of one monotonic clock, given as the duration since a
//! moment of the caller's choosing.

use crate::random::random_below;
use crate::time::duration_from_nanos;
use crate::time::duration_nanos;
use crate::time::elapsed;
use crate::time::elapsed_since;
use crate::time::nanos_of;
use crate::time::MAX_DURATION_NANOS;
use std::time::Duration;
use vstd::prelude::*;

verus! {

/// What a [`CountedItem`] stands for.
pub struct CountedItemView<C> {
    /// The pool that lent the handle.
    pub pool_id: nat,
    /// The channel within that pool.
    pub id: nat,
    /// The handle's clone of the channel.
    pub item: C,
    /// When a request on the channel last succeeded, as far as this handle knows.
    pub last_success: nat,
}

/// A channel borrowed from a pool.
#[derive(Debug)]
pub struct CountedItem<C> {
    pool_id: u64,
    id: u64,
    item: C,
    last_success: u128,
}

impl<C> View for CountedItem<C> {
    type V = CountedItemView<C>;

    closed spec fn view(&self) -> CountedItemView<C> {
        CountedItemView {
            pool_id: self.pool_id as nat,
            id: self.id as nat,
            item: self.item,
            last_success: self.last_success as nat,
        }
    }
}

impl<C> CountedItem<C> {
    #[verifier::type_invariant]
    spec fn well_formed(self) -> bool {
        self.last_success <= MAX_DURATION_NANOS
    }

    /// The borrowed channel.
    pub fn item(&self) -> (item: &C)
        ensures
            *item == self@.item,
    {
        &self.item
    }

    /// Records that a request on the channel succeeded at `now`.
    pub fn report_success(&mut self, now: Duration)
        ensures
            final(self)@ == (CountedItemView { last_success: duration_nanos(now), ..old(self)@ }),
    {
        self.last_success = nanos_of(now);
    }

    /// How long ago, at `now`, a request on the channel last succeeded.
    pub fn last_success_age(&self, now: Duration) -> (age: Duration)
        ensures
            duration_nanos(age) == elapsed(duration_nanos(now), self@.last_success),
    {
        let age = elapsed_since(nanos_of(now), self.last_success);
        duration_from_nanos(age)
    }
}

/// One channel of a pool, with what the pool keeps about it.
pub struct SlotView<C> {
    /// The channel's number, never given to another channel of the pool.
    pub id: nat,
    /// The channel.
    pub item: C,
    /// How many handles on the channel are lent out.
    pub usage: nat,
    /// When a request on the channel last succeeded.
    pub last_success: nat,
}

/// What a [`DynamicChannelPool`] stands for.
pub struct PoolView<C> {
    /// The pool's number.
    pub pool_id: nat,
    /// The channels, oldest first.
    pub slots: Seq<SlotView<C>>,
    /// How many channels the pool is meant to hold.
    pub pool_size: nat,
    /// How many handles may be out on one channel at a time.
    pub max_usage: nat,
    /// The number that the next channel gets.
    pub next_id: nat,
}

struct Slot<C> {
    id: u64,
    item: C,
    usage: usize,
    last_success: u128,
}

impl<C> View for Slot<C> {
    type V = SlotView<C>;

    closed spec fn view(&self) -> SlotView<C> {
        SlotView {
            id: self.id as nat,
            item: self.item,
            usage: self.usage as nat,
            last_success: self.last_success as nat,
        }
    }
}

/// The channels kept open to one peer.
pub struct DynamicChannelPool<C> {
    pool_id: u64,
    slots: Vec<Slot<C>>,
    pool_size: usize,
    max_usage: usize,
    next_id: u64,
}

/// The place of the channel numbered `id` among `slots`, or `None` where
/// there is no such channel.
pub open spec fn position_of<C>(slots: Seq<SlotView<C>>, id: nat) -> Option<int>
    decreases slots.len(),
{
    if slots.len() == 0 {
        None
    } else if slots.last().id == id {
        Some(slots.len() - 1)
    } else {
        position_of(slots.drop_last(), id)
    }
}

/// Channel numbers grow along the pool and stay below the next number to give out.
pub open spec fn numbered_in_order<C>(slots: Seq<SlotView<C>>, next_id: nat) -> bool {
    &&& forall|i: int, j: int| 0 <= i < j < slots.len() ==> (#[trigger] slots[i]).id < (
    #[trigger] slots[j]).id
    &&& forall|i: int| 0 <= i < slots.len() ==> (#[trigger] slots[i]).id < next_id
}

/// Where channel numbers grow along the pool, a number is found at the one
/// place that holds it and nowhere else.
pub proof fn position_of_finds<C>(slots: Seq<SlotView<C>>, next_id: nat, id: nat)
    requires
        numbered_in_order(slots, next_id),
    ensures
        match position_of(slots, id) {
            Some(place) => 0 <= place < slots.len() && slots[place].id == id,
            None => forall|i: int| 0 <= i < slots.len() ==> (#[trigger] slots[i]).id != id,
        },
        forall|i: int|
            0 <= i < slots.len() && (#[trigger] slots[i]).id == id ==> position_of(slots, id)
                == Some(i),
    decreases slots.len(),
{
    if slots.len() != 0 {
        let front = slots.drop_last();
        assert forall|i: int| 0 <= i < front.len() implies (#[trigger] front[i]) == slots[i] by {}
        position_of_finds(front, next_id, id);
        if slots.last().id == id {
            assert forall|i: int| 0 <= i < slots.len() && (#[trigger] slots[i]).id == id implies i
                == slots.len() - 1 by {
                if i < slots.len() - 1 {
                    assert(slots[i].id < slots[slots.len() - 1].id);
                }
            }
        } else {
            assert forall|i: int| 0 <= i < slots.len() && (#[trigger] slots[i]).id
                == id implies position_of(slots, id) == Some(i) by {
                assert(i < slots.len() - 1);
                assert(front[i] == slots[i]);
            }
        }
    }
}

spec fn views<C>(slots: Seq<Slot<C>>) -> Seq<SlotView<C>> {
    Seq::new(slots.len(), |i: int| slots[i]@)
}

spec fn sound<C>(slots: Seq<Slot<C>>, next_id: nat) -> bool {
    &&& numbered_in_order(views(slots), next_id)
    &&& forall|i: int|
        0 <= i < slots.len() ==> (#[trigger] slots[i]).last_success <= MAX_DURATION_NANOS
}

proof fn same_numbers_stay_sound<C>(before: Seq<SlotView<C>>, after: Seq<Slot<C>>, next_id: nat)
    requires
        numbered_in_order(before, next_id),
        after.len() == before.len(),
        forall|i: int| 0 <= i < after.len() ==> (#[trigger] after[i])@.id == before[i].id,
        forall|i: int|
            0 <= i < after.len() ==> (#[trigger] after[i]).last_success <= MAX_DURATION_NANOS,
    ensures
        sound(after, next_id),
{
    assert forall|i: int, j: int| 0 <= i < j < after.len() implies (#[trigger] views(after)[i]).id
        < (#[trigger] views(after)[j]).id by {
        assert(after[i]@.id == before[i].id);
        assert(after[j]@.id == before[j].id);
    }
    assert forall|i: int| 0 <= i < after.len() implies (#[trigger] views(after)[i]).id
        < next_id by {
        assert(after[i]@.id == before[i].id);
    }
}

impl<C> View for DynamicChannelPool<C> {
    type V = PoolView<C>;

    closed spec fn view(&self) -> PoolView<C> {
        PoolView {
            pool_id: self.pool_id as nat,
            slots: views(self.slots@),
            pool_size: self.pool_size as nat,
            max_usage: self.max_usage as nat,
            next_id: self.next_id as nat,
        }
    }
}

/// The slots of a pool made from `channels` at the time `now`: numbered from
/// 0, with no handle out, and counted as having last succeeded at `now`.
pub open spec fn fresh_slots<C>(channels: Seq<C>, now: nat) -> Seq<SlotView<C>> {
    Seq::new(
        channels.len(),
        |i: int| SlotView { id: i as nat, item: channels[i], usage: 0, last_success: now },
    )
}

impl<C> DynamicChannelPool<C> {
    #[verifier::type_invariant]
    spec fn well_formed(self) -> bool {
        sound(self.slots@, self.next_id as nat)
    }

    /// A pool numbered `pool_id` over channels that were just connected, at
    /// the time `now`. It is meant to hold `pool_size` channels and lends each
    /// to at most `max_usage` borrowers at a time.
    pub fn new(
        pool_id: u64,
        channels: Vec<C>,
        max_usage: usize,
        pool_size: usize,
        now: Duration,
    ) -> (pool: Self)
        ensures
            pool@ == (PoolView {
                pool_id: pool_id as nat,
                slots: fresh_slots(channels@, duration_nanos(now)),
                pool_size: pool_size as nat,
                max_usage: max_usage as nat,
                next_id: channels@.len(),
            }),
    {
        let created = nanos_of(now);
        let ghost given = channels@;
        let total: usize = channels.len();
        let mut channels = channels;
        let mut slots: Vec<Slot<C>> = Vec::new();
        // Channels come off the back, so the slots are filled in reverse and
        // turned round afterwards.
        let mut backwards: Vec<C> = Vec::new();
        while channels.len() > 0
            invariant
                channels@.len() + backwards@.len() == given.len(),
                forall|i: int| 0 <= i < channels@.len() ==> channels@[i] == given[i],
                forall|i: int|
                    0 <= i < backwards@.len() ==> backwards@[i] == given[given.len() - 1 - i],
            decreases channels@.len(),
        {
            let channel = channels.pop().unwrap();
            backwards.push(channel);
        }
        let mut id: u64 = 0;
        while backwards.len() > 0
            invariant
                slots@.len() + backwards@.len() == given.len(),
                id == slots@.len(),
                given.len() == total,
                forall|i: int|
                    0 <= i < backwards@.len() ==> backwards@[i] == given[given.len() - 1 - i],
                forall|i: int|
                    0 <= i < slots@.len() ==> (#[trigger] slots@[i])@ == (SlotView {
                        id: i as nat,
                        item: given[i],
                        usage: 0,
                        last_success: created as nat,
                    }),
            decreases backwards@.len(),
        {
            let channel = backwards.pop().unwrap();
            slots.push(Slot { id, item: channel, usage: 0, last_success: created });
            id = id + 1;
        }
        let pool = DynamicChannelPool { pool_id, slots, pool_size, max_usage, next_id: id };
        assert(pool@.slots =~= fresh_slots(given, created as nat));
        pool
    }

    /// How many channels the pool holds.
    pub fn len(&self) -> (len: usize)
        ensures
            len == self@.slots.len(),
            numbered_in_order(self@.slots, self@.next_id),
    {
        proof {
            use_type_invariant(self);
        }
        self.slots.len()
    }

    /// How many channels the pool is meant to hold.
    pub fn pool_size(&self) -> (pool_size: usize)
        ensures
            pool_size == self@.pool_size,
    {
        self.pool_size
    }

    /// The pool's number.
    pub fn pool_id(&self) -> (pool_id: u64)
        ensures
            pool_id == self@.pool_id,
    {
        self.pool_id
    }

    /// Whether the pool can number another channel.
    pub fn has_free_number(&self) -> (free: bool)
        ensures
            free <==> self@.next_id < u64::MAX,
    {
        self.next_id < u64::MAX
    }

    /// How many handles are out on the channel that `item` was lent on, or
    /// `None` where that channel is no longer in the pool.
    pub fn usage(&self, item: &CountedItem<C>) -> (usage: Option<usize>)
        ensures
            usage == match slot_of(self@, item@) {
                Some(place) => Some(self@.slots[place].usage as usize),
                None => None,
            },
    {
        match self.find(item) {
            Some(place) => Some(self.slots[place].usage),
            None => None,
        }
    }

    fn find(&self, item: &CountedItem<C>) -> (found: Option<usize>)
        ensures
            match found {
                Some(place) => slot_of(self@, item@) == Some(place as int) && place
                    < self.slots@.len(),
                None => slot_of(self@, item@) is None,
            },
    {
        proof {
            use_type_invariant(self);
            position_of_finds(self@.slots, self.next_id as nat, item.id as nat);
        }
        if item.pool_id != self.pool_id {
            return None;
        }
        let mut place: usize = 0;
        while place < self.slots.len()
            invariant
                place <= self.slots@.len(),
                item.pool_id == self.pool_id,
                numbered_in_order(self@.slots, self.next_id as nat),
                forall|i: int| 0 <= i < place ==> (#[trigger] self@.slots[i]).id != item.id,
            decreases self.slots@.len() - place,
        {
            if self.slots[place].id == item.id {
                proof {
                    position_of_finds(self@.slots, self.next_id as nat, item.id as nat);
                    assert(self@.slots[place as int].id == item.id);
                }
                return Some(place);
            }
            place = place + 1;
        }
        proof {
            position_of_finds(self@.slots, self.next_id as nat, item.id as nat);
        }
        None
    }

    fn open_places(&self) -> (places: Vec<usize>)
        ensures
            places@.len() == eligible(self@.slots, self@.max_usage).len(),
            forall|k: int|
                0 <= k < places@.len() ==> places@[k] == eligible(self@.slots, self@.max_usage)[k],
            forall|k: int|
                0 <= k < places@.len() ==> 0 <= #[trigger] eligible(self@.slots, self@.max_usage)[k]
                    < self.slots@.len() && self.slots@[eligible(
                    self@.slots,
                    self@.max_usage,
                )[k]].usage < self.max_usage,
    {
        let mut places: Vec<usize> = Vec::new();
        let mut seen: usize = 0;
        let ghost slots = self@.slots;
        let ghost max = self@.max_usage;
        while seen < self.slots.len()
            invariant
                seen <= self.slots@.len(),
                slots == self@.slots,
                max == self.max_usage,
                places@.len() == eligible(slots.take(seen as int), max).len(),
                forall|k: int|
                    0 <= k < places@.len() ==> places@[k] == #[trigger] eligible(
                        slots.take(seen as int),
                        max,
                    )[k] && places@[k] < seen && self.slots@[places@[k] as int].usage
                        < self.max_usage,
            decreases self.slots@.len() - seen,
        {
            proof {
                assert(slots.take(seen + 1).drop_last() =~= slots.take(seen as int));
                assert(slots.take(seen + 1).last() == slots[seen as int]);
            }
            if self.slots[seen].usage < self.max_usage {
                places.push(seen);
            }
            seen = seen + 1;
        }
        proof {
            assert(slots.take(seen as int) =~= slots);
        }
        places
    }

    fn lend(&mut self, place: usize) -> (item: CountedItem<C>)
        where C: Clone
        requires
            place < old(self)@.slots.len(),
            old(self)@.slots[place as int].usage < old(self)@.max_usage,
        ensures
            lent_from(old(self)@, place as int, final(self)@, item@),
    {
        proof {
            use_type_invariant(&*self);
        }
        let ghost before = self@;
        let mut slots: Vec<Slot<C>> = Vec::new();
        std::mem::swap(&mut self.slots, &mut slots);
        let mut slot = slots.remove(place);
        slot.usage = slot.usage + 1;
        let item = CountedItem {
            pool_id: self.pool_id,
            id: slot.id,
            item: slot.item.clone(),
            last_success: slot.last_success,
        };
        slots.insert(place, slot);
        proof {
            let lent_on = before.slots[place as int];
            assert(views(slots@) =~= before.slots.update(
                place as int,
                SlotView { usage: lent_on.usage + 1, ..lent_on },
            ));
            same_numbers_stay_sound(before.slots, slots@, self.next_id as nat);
        }
        self.slots = slots;
        item
    }

    /// Lends the channel that `pick` selects among those that can take
    /// another borrower: the one at place `pick` modulo their number.
    ///
    /// Returns `None`, and leaves the pool as it is, where the pool holds
    /// fewer channels than it is meant to (a replacement is due first) or
    /// where every channel is lent out as often as it may be.
    pub fn choose_channel_at(&mut self, pick: usize) -> (lent: Option<CountedItem<C>>)
        where C: Clone
        ensures
            lends(old(self)@, pick as nat, final(self)@, lent),
    {
        if self.slots.len() < self.pool_size {
            return None;
        }
        let places = self.open_places();
        if places.len() == 0 {
            return None;
        }
        let place = places[pick % places.len()];
        Some(self.lend(place))
    }

    /// Lends a channel picked at random, each with the same chance, among
    /// those that can take another borrower.
    ///
    /// The pick is random, so the result is one of those that
    /// [`DynamicChannelPool::choose_channel_at`] gives.
    pub fn choose_channel(&mut self) -> (lent: Option<CountedItem<C>>)
        where C: Clone
        ensures
            exists|pick: nat| #[trigger] lends(old(self)@, pick, final(self)@, lent),
    {
        if self.slots.len() < self.pool_size {
            assert(lends(self@, 0, self@, None));
            return None;
        }
        let places = self.open_places();
        if places.len() == 0 {
            assert(lends(self@, 0, self@, None));
            return None;
        }
        let ghost before = self@;
        let pick = random_below(places.len() as u64) as usize;
        let place = places[pick];
        let item = self.lend(place);
        proof {
            assert(pick as nat % places@.len() as nat == pick as nat) by (nonlinear_arith)
                requires
                    pick < places@.len(),
            ;
            assert(lends(before, pick as nat, self@, Some(item)));
        }
        Some(item)
    }

    /// Takes a newly connected channel into the pool, at the time `now`, and
    /// lends it at once.
    pub fn add(&mut self, channel: C, now: Duration) -> (item: CountedItem<C>)
        where C: Clone
        requires
            old(self)@.next_id < u64::MAX,
        ensures
            final(self)@ == (PoolView {
                slots: old(self)@.slots.push(
                    SlotView {
                        id: old(self)@.next_id,
                        item: channel,
                        usage: 1,
                        last_success: duration_nanos(now),
                    },
                ),
                next_id: old(self)@.next_id + 1,
                ..old(self)@
            }),
            item@.pool_id == old(self)@.pool_id,
            item@.id == old(self)@.next_id,
            item@.last_success == duration_nanos(now),
            cloned(channel, item@.item),
    {
        proof {
            use_type_invariant(&*self);
        }
        let ghost before = self@;
        let created = nanos_of(now);
        let id = self.next_id;
        let item = CountedItem {
            pool_id: self.pool_id,
            id,
            item: channel.clone(),
            last_success: created,
        };
        let mut slots: Vec<Slot<C>> = Vec::new();
        std::mem::swap(&mut self.slots, &mut slots);
        self.next_id = id + 1;
        slots.push(Slot { id, item: channel, usage: 1, last_success: created });
        proof {
            assert(views(slots@) =~= before.slots.push(
                SlotView { id: id as nat, item: channel, usage: 1, last_success: created as nat },
            ));
            assert(forall|i: int|
                0 <= i < before.slots.len() ==> (#[trigger] views(slots@)[i]) == before.slots[i]);
            assert(sound(slots@, (id + 1) as nat));
        }
        self.slots = slots;
        item
    }

    /// Takes a handle back. The channel it was lent on, if the pool still
    /// holds it, has one borrower fewer.
    pub fn release(&mut self, item: CountedItem<C>)
        ensures
            final(self)@ == released(old(self)@, item@),
    {
        proof {
            use_type_invariant(&*self);
        }
        let ghost before = self@;
        match self.find(&item) {
            Some(place) => {
                if self.slots[place].usage > 0 {
                    let mut slots: Vec<Slot<C>> = Vec::new();
                    std::mem::swap(&mut self.slots, &mut slots);
                    let mut slot = slots.remove(place);
                    slot.usage = slot.usage - 1;
                    slots.insert(place, slot);
                    proof {
                        assert(views(slots@) =~= released(before, item@).slots);
                        same_numbers_stay_sound(before.slots, slots@, self.next_id as nat);
                    }
                    self.slots = slots;
                } else {
                    assert(self@.slots =~= released(before, item@).slots);
                }
            },
            None => {},
        }
    }

    /// Throws out the channel that `item` was lent on, and takes the handle
    /// back. Other handles on that channel stay usable; the pool lends it to
    /// nobody else. A channel that is already gone is not missed.
    pub fn drop_channel(&mut self, item: CountedItem<C>)
        ensures
            final(self)@ == without(old(self)@, item@),
    {
        proof {
            use_type_invariant(&*self);
        }
        let ghost before = self@;
        match self.find(&item) {
            Some(place) => {
                let mut slots: Vec<Slot<C>> = Vec::new();
                std::mem::swap(&mut self.slots, &mut slots);
                let _gone = slots.remove(place);
                proof {
                    assert(views(slots@) =~= before.slots.remove(place as int));
                    assert(sound(slots@, self.next_id as nat)) by {
                        assert forall|i: int, j: int| 0 <= i < j < slots@.len() implies (
                        #[trigger] views(slots@)[i]).id < (#[trigger] views(slots@)[j]).id by {
                            let from_i = if i < place { i } else { i + 1 };
                            let from_j = if j < place { j } else { j + 1 };
                            assert(views(slots@)[i] == before.slots[from_i]);
                            assert(views(slots@)[j] == before.slots[from_j]);
                        }
                        assert forall|i: int| 0 <= i < slots@.len() implies (#[trigger] views(
                            slots@,
                        )[i]).id < self.next_id && (#[trigger] slots@[i]).last_success
                            <= MAX_DURATION_NANOS by {
                            let from_i = if i < place { i } else { i + 1 };
                            assert(views(slots@)[i] == before.slots[from_i]);
                        }
                    }
                }
                self.slots = slots;
            },
            None => {},
        }
    }

    /// Records that a request on the channel of `item` succeeded at `now`, in
    /// the handle and, where the pool still holds the channel, in the pool.
    pub fn report_success(&mut self, item: &mut CountedItem<C>, now: Duration)
        ensures
            final(item)@ == (CountedItemView { last_success: duration_nanos(now), ..old(item)@ }),
            final(self)@ == succeeded(old(self)@, old(item)@, duration_nanos(now)),
    {
        proof {
            use_type_invariant(&*self);
        }
        let ghost before = self@;
        let at = nanos_of(now);
        item.last_success = at;
        match self.find(item) {
            Some(place) => {
                let mut slots: Vec<Slot<C>> = Vec::new();
                std::mem::swap(&mut self.slots, &mut slots);
                let mut slot = slots.remove(place);
                slot.last_success = at;
                slots.insert(place, slot);
                proof {
                    assert(views(slots@) =~= succeeded(before, item@, at as nat).slots);
                    same_numbers_stay_sound(before.slots, slots@, self.next_id as nat);
                }
                self.slots = slots;
            },
            None => {},
        }
    }

    /// How long ago, at `now`, a request on the channel of `item` last
    /// succeeded: by the pool's record where it still holds the channel, which
    /// counts the successes of every borrower, and by the handle's own record
    /// where it does not.
    pub fn last_success_age(&self, item: &CountedItem<C>, now: Duration) -> (age: Duration)
        ensures
            duration_nanos(age) == elapsed(duration_nanos(now), last_success_of(self@, item@)),
    {
        proof {
            use_type_invariant(self);
            use_type_invariant(item);
        }
        let last = match self.find(item) {
            Some(place) => self.slots[place].last_success,
            None => item.last_success,
        };
        duration_from_nanos(elapsed_since(nanos_of(now), last))
    }
}

/// The places of the channels that can take another borrower, in order.
pub open spec fn eligible<C>(slots: Seq<SlotView<C>>, max_usage: nat) -> Seq<int>
    decreases slots.len(),
{
    if slots.len() == 0 {
        Seq::empty()
    } else if slots.last().usage < max_usage {
        eligible(slots.drop_last(), max_usage).push(slots.len() - 1)
    } else {
        eligible(slots.drop_last(), max_usage)
    }
}

/// The place in `pool` of the channel that `item` was lent on, or `None`
/// where `item` is of another pool or the channel is gone.
pub open spec fn slot_of<C>(pool: PoolView<C>, item: CountedItemView<C>) -> Option<int> {
    if item.pool_id == pool.pool_id {
        position_of(pool.slots, item.id)
    } else {
        None
    }
}

/// Whether `item` is a handle on the channel at `place` of the pool `before`,
/// and `after` is that pool with one more borrower on that channel.
pub open spec fn lent_from<C: Clone>(
    before: PoolView<C>,
    place: int,
    after: PoolView<C>,
    item: CountedItemView<C>,
) -> bool {
    let slot = before.slots[place];
    &&& item.pool_id == before.pool_id
    &&& item.id == slot.id
    &&& item.last_success == slot.last_success
    &&& cloned(slot.item, item.item)
    &&& after == (PoolView {
        slots: before.slots.update(place, SlotView { usage: slot.usage + 1, ..slot }),
        ..before
    })
}

/// Whether lending by `pick` turns the pool `before` into `after` and gives `lent`.
pub open spec fn lends<C: Clone>(
    before: PoolView<C>,
    pick: nat,
    after: PoolView<C>,
    lent: Option<CountedItem<C>>,
) -> bool {
    let open = eligible(before.slots, before.max_usage);
    if before.slots.len() < before.pool_size || open.len() == 0 {
        lent is None && after == before
    } else {
        &&& lent matches Some(item)
        &&& lent_from(before, open[(pick % open.len()) as int], after, item@)
    }
}

/// The pool after a handle was taken back.
pub open spec fn released<C>(pool: PoolView<C>, item: CountedItemView<C>) -> PoolView<C> {
    match slot_of(pool, item) {
        Some(place) => {
            let slot = pool.slots[place];
            PoolView {
                slots: pool.slots.update(
                    place,
                    SlotView {
                        usage: if slot.usage > 0 {
                            (slot.usage - 1) as nat
                        } else {
                            0
                        },
                        ..slot
                    },
                ),
                ..pool
            }
        },
        None => pool,
    }
}

/// The pool without the channel that `item` was lent on.
pub open spec fn without<C>(pool: PoolView<C>, item: CountedItemView<C>) -> PoolView<C> {
    match slot_of(pool, item) {
        Some(place) => PoolView { slots: pool.slots.remove(place), ..pool },
        None => pool,
    }
}

/// The pool after a request on the channel of `item` succeeded at `now`.
pub open spec fn succeeded<C>(pool: PoolView<C>, item: CountedItemView<C>, now: nat) -> PoolView<
    C,
> {
    match slot_of(pool, item) {
        Some(place) => PoolView {
            slots: pool.slots.update(place, SlotView { last_success: now, ..pool.slots[place] }),
            ..pool
        },
        None => pool,
    }
}

/// When a request on the channel of `item` last succeeded, as far as the pool
/// and the handle know between them.
pub open spec fn last_success_of<C>(pool: PoolView<C>, item: CountedItemView<C>) -> nat {
    match slot_of(pool, item) {
        Some(place) => pool.slots[place].last_success,
        None => item.last_success,
    }
}

} // verus!
