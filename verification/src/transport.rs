//! The pools of all peers, by address, and the steps of a request that
//! touch them.
//!
//! A [`TransportChannelPool`] does no I/O. Whoever drives it connects the
//! channels, runs the calls and reads the clock, and tells the pool what came
//! of it; the pool keeps the books and decides. A request goes like this:
//!
//! 1. [`TransportChannelPool::with_channel_timeout`] opens the request and
//!    gives its [`RetryState`].
//! 2. For each attempt, [`TransportChannelPool::get_pooled_channel`] lends a
//!    channel. Where the peer has no pool yet, the driver connects one and
//!    hands it to [`TransportChannelPool::init_pool_for_uri`]; where the pool
//!    is short of a channel, the driver connects that and hands it to
//!    [`TransportChannelPool::add_channel`]. A connect that fails is the
//!    attempt's failure.
//! 3. The driver races the call against the health probe (see
//!    [`crate::probe`]) and the attempt's timeout, and reports the winner to
//!    [`TransportChannelPool::make_request`], which takes the channel back and
//!    says whether the attempt succeeded.
//! 4. After a failure, [`RetryState::next`] says whether and when to try again.
//!
//! Peers are told apart by the text of their address.

use crate::dynamic_pool::released;
use crate::dynamic_pool::succeeded;
use crate::dynamic_pool::without;
use crate::dynamic_pool::last_success_of;
use crate::dynamic_pool::lends;
use crate::dynamic_pool::slot_of;
use crate::dynamic_pool::fresh_slots;
use crate::dynamic_pool::CountedItem;
use crate::dynamic_pool::CountedItemView;
use crate::dynamic_pool::DynamicChannelPool;
use crate::dynamic_pool::PoolView;
use crate::dynamic_pool::SlotView;
use crate::failure::HealthCheckError;
use crate::failure::RequestFailure;
use crate::retry::RetryState;
use crate::retry::RetryStateView;
use crate::retry::DEFAULT_RETRIES;
use crate::status::deadline_exceeded;
use crate::status::deadline_exceeded_status;
use crate::status::display_uri;
use crate::status::says;
use crate::status::uri_text;
use crate::status::StatusCode;
use crate::text::health_check_timeout_message;
use crate::text::health_check_timeout_text;
use crate::text::timeout_message;
use crate::text::timeout_text;
use crate::time::clamp_to_duration;
use crate::time::duration_from_nanos;
use crate::time::duration_nanos;
use crate::time::elapsed;
use crate::time::nanos_of;
use crate::time::NANOS_PER_MILLI;
use std::time::Duration;
use tonic::transport::Uri;
use tonic::Status;
use vstd::prelude::*;

verus! {

/// How many channels a pool holds unless told otherwise.
pub const DEFAULT_POOL_SIZE: usize = 2;

/// The time a call gets unless told otherwise: 60 s.
pub const DEFAULT_GRPC_TIMEOUT_NANOS: u128 = 60_000_000_000;

/// The time a connect gets unless told otherwise: 2 s.
pub const DEFAULT_CONNECT_TIMEOUT_NANOS: u128 = 2_000_000_000;

/// How many borrowers one channel takes at a time: as many as come.
pub const MAX_CONNECTIONS_PER_CHANNEL: usize = usize::MAX;

/// How long a call may run before the peer's health is looked into: 1 s.
pub const SMART_CONNECT_INTERVAL_NANOS: u128 = 1_000_000_000;

/// How long a health check may take: 2 s.
pub const HEALTH_CHECK_TIMEOUT_NANOS: u128 = 2_000_000_000;

/// A channel without a successful request for longer than this is replaced: 5 s.
pub const CHANNEL_TTL_NANOS: u128 = 5_000_000_000;

/// What came of an attempt's race between the call, the health probe and the
/// attempt's timeout: the one that finished first.
#[derive(Debug)]
pub enum RaceOutcome<T> {
    /// The call finished, with a value or with an error status.
    Call(Result<T, Status>),
    /// The health probe gave the peer up.
    Probe(HealthCheckError),
    /// The attempt's time ran out.
    TimedOut,
}

/// What came of one health check.
#[derive(Debug)]
pub enum HealthOutcome {
    /// The peer answered.
    Healthy,
    /// The peer answered with an error status.
    Failed(Status),
    /// No answer came within the time a health check may take.
    TimedOut,
}

/// What a peer's pool has for a request.
#[derive(Debug)]
pub enum PooledChannel<C> {
    /// There is no pool for the peer.
    NoPool,
    /// The pool has no channel to lend: one has to be connected and added first.
    NeedsChannel,
    /// A channel, lent to the request.
    Ready(CountedItem<C>),
}

/// What a [`TransportChannelPool`] stands for.
pub struct TransportView<C> {
    /// The pool of each peer that has one, by the text of the peer's address.
    pub pools: Map<Seq<char>, PoolView<C>>,
    /// How many channels each pool is meant to hold.
    pub pool_size: nat,
    /// The time a call gets, in nanoseconds.
    pub grpc_timeout: nat,
    /// The time a connect gets, in nanoseconds.
    pub connection_timeout: nat,
    /// How many pools were made so far; the next one gets this number.
    pub pools_created: nat,
}

struct PoolEntry<C> {
    address: String,
    pool: DynamicChannelPool<C>,
}

/// Holds a pool of channels for each peer that requests went to.
/// Make `pool_size` larger to increase throughput.
pub struct TransportChannelPool<C> {
    uri_to_pool: Vec<PoolEntry<C>>,
    pool_size: usize,
    grpc_timeout: Duration,
    connection_timeout: Duration,
    pools_created: u64,
}

spec fn pools_of<C>(entries: Seq<PoolEntry<C>>) -> Map<Seq<char>, PoolView<C>>
    decreases entries.len(),
{
    if entries.len() == 0 {
        Map::empty()
    } else {
        pools_of(entries.drop_last()).insert(entries.last().address@, entries.last().pool@)
    }
}

spec fn one_pool_each<C>(entries: Seq<PoolEntry<C>>) -> bool {
    forall|i: int, j: int|
        0 <= i < j < entries.len() ==> (#[trigger] entries[i]).address@ != (
        #[trigger] entries[j]).address@
}

proof fn pools_of_holds_entries<C>(entries: Seq<PoolEntry<C>>)
    requires
        one_pool_each(entries),
    ensures
        forall|i: int|
            0 <= i < entries.len() ==> pools_of(entries).contains_key(
                (#[trigger] entries[i]).address@,
            ) && pools_of(entries)[entries[i].address@] == entries[i].pool@,
        forall|address: Seq<char>| #[trigger]
            pools_of(entries).contains_key(address) ==> exists|i: int|
                0 <= i < entries.len() && (#[trigger] entries[i]).address@ == address,
    decreases entries.len(),
{
    if entries.len() != 0 {
        let front = entries.drop_last();
        assert forall|i: int| 0 <= i < front.len() implies (#[trigger] front[i]) == entries[i] by {}
        assert(one_pool_each(front)) by {
            assert forall|i: int, j: int| 0 <= i < j < front.len() implies (
            #[trigger] front[i]).address@ != (#[trigger] front[j]).address@ by {
                assert(front[i] == entries[i]);
                assert(front[j] == entries[j]);
            }
        }
        pools_of_holds_entries(front);
        assert forall|i: int| 0 <= i < entries.len() implies pools_of(entries).contains_key(
            (#[trigger] entries[i]).address@,
        ) && pools_of(entries)[entries[i].address@] == entries[i].pool@ by {
            if i < entries.len() - 1 {
                assert(front[i] == entries[i]);
                assert(entries[i].address@ != entries[entries.len() - 1].address@);
            }
        }
        assert forall|address: Seq<char>| #[trigger]
            pools_of(entries).contains_key(address) implies exists|i: int|
            0 <= i < entries.len() && (#[trigger] entries[i]).address@ == address by {
            if address == entries.last().address@ {
                assert(entries[entries.len() - 1].address@ == address);
            } else {
                assert(pools_of(front).contains_key(address));
                let i = choose|i: int| 0 <= i < front.len() && (#[trigger] front[i]).address@
                    == address;
                assert(entries[i].address@ == address);
            }
        }
    }
}

proof fn pools_of_after_update<C>(entries: Seq<PoolEntry<C>>, place: int, entry: PoolEntry<C>)
    requires
        one_pool_each(entries),
        0 <= place < entries.len(),
        entry.address@ == entries[place].address@,
    ensures
        one_pool_each(entries.update(place, entry)),
        pools_of(entries.update(place, entry)) == pools_of(entries).insert(
            entry.address@,
            entry.pool@,
        ),
{
    let after = entries.update(place, entry);
    assert(one_pool_each(after)) by {
        assert forall|i: int, j: int| 0 <= i < j < after.len() implies (
        #[trigger] after[i]).address@ != (#[trigger] after[j]).address@ by {
            assert(after[i].address@ == entries[i].address@);
            assert(after[j].address@ == entries[j].address@);
        }
    }
    pools_of_holds_entries(entries);
    pools_of_holds_entries(after);
    let expected = pools_of(entries).insert(entry.address@, entry.pool@);
    assert forall|address: Seq<char>| pools_of(after).contains_key(address)
        <==> expected.contains_key(address) by {
        if pools_of(after).contains_key(address) {
            let i = choose|i: int| 0 <= i < after.len() && (#[trigger] after[i]).address@
                == address;
            assert(entries[i].address@ == address);
        }
        if expected.contains_key(address) && address != entry.address@ {
            let i = choose|i: int| 0 <= i < entries.len() && (#[trigger] entries[i]).address@
                == address;
            assert(after[i].address@ == address);
        }
        if address == entry.address@ {
            assert(after[place].address@ == address);
        }
    }
    assert forall|address: Seq<char>| pools_of(after).contains_key(address) implies pools_of(
        after,
    )[address] == expected[address] by {
        let i = choose|i: int| 0 <= i < after.len() && (#[trigger] after[i]).address@ == address;
        if i == place {
            assert(after[place].pool@ == entry.pool@);
        } else {
            assert(after[i] == entries[i]);
            assert(entries[i].address@ != entries[place].address@);
        }
    }
    assert(pools_of(after) =~= expected);
}

proof fn pools_of_after_remove<C>(entries: Seq<PoolEntry<C>>, place: int)
    requires
        one_pool_each(entries),
        0 <= place < entries.len(),
    ensures
        one_pool_each(entries.remove(place)),
        pools_of(entries.remove(place)) == pools_of(entries).remove(entries[place].address@),
{
    let after = entries.remove(place);
    let gone = entries[place].address@;
    assert forall|i: int| 0 <= i < after.len() implies (#[trigger] after[i]) == entries[if i
        < place {
        i
    } else {
        i + 1
    }] by {}
    assert(one_pool_each(after)) by {
        assert forall|i: int, j: int| 0 <= i < j < after.len() implies (
        #[trigger] after[i]).address@ != (#[trigger] after[j]).address@ by {
            let from_i = if i < place { i } else { i + 1 };
            let from_j = if j < place { j } else { j + 1 };
            assert(after[i] == entries[from_i]);
            assert(after[j] == entries[from_j]);
        }
    }
    pools_of_holds_entries(entries);
    pools_of_holds_entries(after);
    let expected = pools_of(entries).remove(gone);
    assert forall|address: Seq<char>| pools_of(after).contains_key(address)
        <==> expected.contains_key(address) by {
        if pools_of(after).contains_key(address) {
            let i = choose|i: int| 0 <= i < after.len() && (#[trigger] after[i]).address@
                == address;
            let from_i = if i < place { i } else { i + 1 };
            assert(after[i] == entries[from_i]);
            assert(entries[from_i].address@ == address);
            assert(from_i != place);
            if from_i < place {
                assert(entries[from_i].address@ != entries[place].address@);
            } else {
                assert(entries[place].address@ != entries[from_i].address@);
            }
        }
        if expected.contains_key(address) {
            let i = choose|i: int| 0 <= i < entries.len() && (#[trigger] entries[i]).address@
                == address;
            let to_i = if i < place { i } else { i - 1 };
            assert(after[to_i] == entries[i]);
            assert(after[to_i].address@ == address);
        }
    }
    assert forall|address: Seq<char>| pools_of(after).contains_key(address) implies pools_of(
        after,
    )[address] == expected[address] by {
        let i = choose|i: int| 0 <= i < after.len() && (#[trigger] after[i]).address@ == address;
        let from_i = if i < place { i } else { i + 1 };
        assert(after[i] == entries[from_i]);
        assert(entries[from_i].address@ == address);
    }
    assert(pools_of(after) =~= expected);
}

proof fn pools_of_after_push<C>(entries: Seq<PoolEntry<C>>, entry: PoolEntry<C>)
    requires
        one_pool_each(entries),
        !pools_of(entries).contains_key(entry.address@),
    ensures
        one_pool_each(entries.push(entry)),
        pools_of(entries.push(entry)) == pools_of(entries).insert(entry.address@, entry.pool@),
{
    let after = entries.push(entry);
    assert(after.drop_last() =~= entries);
    pools_of_holds_entries(entries);
    assert forall|i: int, j: int| 0 <= i < j < after.len() implies (#[trigger] after[i]).address@
        != (#[trigger] after[j]).address@ by {
        assert(after[i] == entries[i]);
        if j < entries.len() {
            assert(after[j] == entries[j]);
        }
    }
}

spec fn numbered_below<C>(entries: Seq<PoolEntry<C>>, bound: nat) -> bool {
    forall|i: int| 0 <= i < entries.len() ==> (#[trigger] entries[i]).pool@.pool_id < bound
}

proof fn numbers_after_update<C>(
    entries: Seq<PoolEntry<C>>,
    place: int,
    entry: PoolEntry<C>,
    bound: nat,
)
    requires
        numbered_below(entries, bound),
        0 <= place < entries.len(),
        entry.pool@.pool_id == entries[place].pool@.pool_id,
    ensures
        numbered_below(entries.update(place, entry), bound),
{
    let after = entries.update(place, entry);
    assert forall|i: int| 0 <= i < after.len() implies (#[trigger] after[i]).pool@.pool_id
        < bound by {
        if i != place {
            assert(after[i] == entries[i]);
        }
    }
}

proof fn numbers_after_remove<C>(entries: Seq<PoolEntry<C>>, place: int, bound: nat)
    requires
        numbered_below(entries, bound),
        0 <= place < entries.len(),
    ensures
        numbered_below(entries.remove(place), bound),
{
    let after = entries.remove(place);
    assert forall|i: int| 0 <= i < after.len() implies (#[trigger] after[i]).pool@.pool_id
        < bound by {
        let from_i = if i < place { i } else { i + 1 };
        assert(after[i] == entries[from_i]);
    }
}

proof fn numbers_after_push<C>(entries: Seq<PoolEntry<C>>, entry: PoolEntry<C>, bound: nat)
    requires
        numbered_below(entries, bound),
        entry.pool@.pool_id == bound,
    ensures
        numbered_below(entries.push(entry), bound + 1),
{
    let after = entries.push(entry);
    assert forall|i: int| 0 <= i < after.len() implies (#[trigger] after[i]).pool@.pool_id < bound
        + 1 by {
        if i < entries.len() {
            assert(after[i] == entries[i]);
        }
    }
}

impl<C> View for TransportChannelPool<C> {
    type V = TransportView<C>;

    closed spec fn view(&self) -> TransportView<C> {
        TransportView {
            pools: pools_of(self.uri_to_pool@),
            pool_size: self.pool_size as nat,
            grpc_timeout: duration_nanos(self.grpc_timeout),
            connection_timeout: duration_nanos(self.connection_timeout),
            pools_created: self.pools_created as nat,
        }
    }
}

impl<C> TransportChannelPool<C> {
    #[verifier::type_invariant]
    spec fn well_formed(self) -> bool {
        &&& one_pool_each(self.uri_to_pool@)
        &&& numbered_below(self.uri_to_pool@, self.pools_created as nat)
        &&& self.pool_size >= 1
    }

    /// A pool with no peers yet, which gives each call `p2p_grpc_timeout`,
    /// each connect `connection_timeout`, and each peer `pool_size` channels.
    pub fn new(
        p2p_grpc_timeout: Duration,
        connection_timeout: Duration,
        pool_size: usize,
    ) -> (pool: Self)
        requires
            pool_size > 0,
        ensures
            pool@ == (TransportView::<C> {
                pools: Map::empty(),
                pool_size: pool_size as nat,
                grpc_timeout: duration_nanos(p2p_grpc_timeout),
                connection_timeout: duration_nanos(connection_timeout),
                pools_created: 0,
            }),
    {
        TransportChannelPool {
            uri_to_pool: Vec::new(),
            pool_size,
            grpc_timeout: p2p_grpc_timeout,
            connection_timeout,
            pools_created: 0,
        }
    }

    /// How many channels each pool is meant to hold.
    pub fn pool_size(&self) -> (pool_size: usize)
        ensures
            pool_size == self@.pool_size,
            pool_size >= 1,
    {
        proof {
            use_type_invariant(self);
        }
        self.pool_size
    }

    /// The time a call gets.
    pub fn grpc_timeout(&self) -> (timeout: Duration)
        ensures
            duration_nanos(timeout) == self@.grpc_timeout,
    {
        self.grpc_timeout
    }

    /// The time a connect gets.
    pub fn connection_timeout(&self) -> (timeout: Duration)
        ensures
            duration_nanos(timeout) == self@.connection_timeout,
    {
        self.connection_timeout
    }

    fn find(&self, address: &String) -> (found: Option<usize>)
        ensures
            match found {
                Some(place) => {
                    &&& place < self.uri_to_pool@.len()
                    &&& self.uri_to_pool@[place as int].address@ == address@
                    &&& self@.pools.contains_key(address@)
                    &&& self@.pools[address@] == self.uri_to_pool@[place as int].pool@
                },
                None => !self@.pools.contains_key(address@),
            },
    {
        proof {
            use_type_invariant(self);
            pools_of_holds_entries(self.uri_to_pool@);
        }
        let mut place: usize = 0;
        while place < self.uri_to_pool.len()
            invariant
                place <= self.uri_to_pool@.len(),
                forall|i: int|
                    0 <= i < place ==> (#[trigger] self.uri_to_pool@[i]).address@ != address@,
            decreases self.uri_to_pool@.len() - place,
        {
            if self.uri_to_pool[place].address == *address {
                proof {
                    use_type_invariant(self);
                    pools_of_holds_entries(self.uri_to_pool@);
                }
                return Some(place);
            }
            place = place + 1;
        }
        proof {
            use_type_invariant(self);
            pools_of_holds_entries(self.uri_to_pool@);
            if self@.pools.contains_key(address@) {
                let i = choose|i: int|
                    0 <= i < self.uri_to_pool@.len() && (#[trigger] self.uri_to_pool@[i]).address@
                        == address@;
                assert(false);
            }
        }
        None
    }

    /// Whether there is a pool for the peer at `uri`.
    pub fn has_pool(&self, uri: &Uri) -> (found: bool)
        ensures
            found <==> self@.pools.contains_key(uri_text(*uri)),
    {
        let address = display_uri(uri);
        self.find(&address).is_some()
    }

    /// How many channels the pool of the peer at `uri` holds, or `None` where
    /// the peer has no pool.
    pub fn channels(&self, uri: &Uri) -> (count: Option<usize>)
        ensures
            match count {
                Some(n) => self@.pools.contains_key(uri_text(*uri)) && n == self@.pools[uri_text(
                    *uri,
                )].slots.len(),
                None => !self@.pools.contains_key(uri_text(*uri)),
            },
    {
        let address = display_uri(uri);
        match self.find(&address) {
            Some(place) => Some(self.uri_to_pool[place].pool.len()),
            None => None,
        }
    }

    /// How many handles are out on the channel that `channel` was lent on, or
    /// `None` where the pool of the peer at `uri` no longer holds that channel
    /// or the peer has no pool.
    pub fn usage(&self, uri: &Uri, channel: &CountedItem<C>) -> (usage: Option<usize>)
        ensures
            usage == match borrowed_from(self@, uri_text(*uri), channel@) {
                Some(slot) => Some(slot.usage as usize),
                None => None,
            },
    {
        let address = display_uri(uri);
        match self.find(&address) {
            Some(place) => self.uri_to_pool[place].pool.usage(channel),
            None => None,
        }
    }

    /// Forgets the pool of the peer at `uri`, with all its channels. Handles
    /// that are out on them stay usable.
    pub fn drop_pool(&mut self, uri: &Uri)
        ensures
            final(self)@ == without_pool(old(self)@, uri_text(*uri)),
    {
        let address = display_uri(uri);
        let ghost before = self@;
        match self.find(&address) {
            Some(place) => {
                proof {
                    use_type_invariant(&*self);
                    pools_of_after_remove(self.uri_to_pool@, place as int);
                    numbers_after_remove(
                        self.uri_to_pool@,
                        place as int,
                        self.pools_created as nat,
                    );
                }
                let mut entries: Vec<PoolEntry<C>> = Vec::new();
                std::mem::swap(&mut self.uri_to_pool, &mut entries);
                let _gone = entries.remove(place);
                self.uri_to_pool = entries;
            },
            None => {
                assert(self@.pools =~= before.pools.remove(address@));
            },
        }
    }

    /// Throws the channel that `channel` was lent on out of the pool of the
    /// peer at `uri`, and takes the handle back. Nothing happens where the
    /// peer has no pool or the pool no longer holds the channel.
    pub fn drop_channel(&mut self, uri: &Uri, channel: CountedItem<C>)
        ensures
            final(self)@ == (TransportView {
                pools: with_pool_changed(
                    old(self)@.pools,
                    uri_text(*uri),
                    |pool: PoolView<C>| without(pool, channel@),
                ),
                ..old(self)@
            }),
    {
        let address = display_uri(uri);
        match self.find(&address) {
            Some(place) => {
                proof {
                    use_type_invariant(&*self);
                }
                let ghost entries_before = self.uri_to_pool@;
                let mut entries: Vec<PoolEntry<C>> = Vec::new();
                std::mem::swap(&mut self.uri_to_pool, &mut entries);
                let mut entry = entries.remove(place);
                entry.pool.drop_channel(channel);
                proof {
                    pools_of_after_update(entries_before, place as int, entry);
                    numbers_after_update(
                        entries_before,
                        place as int,
                        entry,
                        self.pools_created as nat,
                    );
                    assert(entries@.insert(place as int, entry) =~= entries_before.update(
                        place as int,
                        entry,
                    ));
                }
                entries.insert(place, entry);
                self.uri_to_pool = entries;
            },
            None => {},
        }
    }

    /// Takes back a handle that was lent on a channel of the peer at `uri`
    /// and not used for an attempt that ended, such as that of a request that
    /// was cancelled. Nothing happens where the peer has no pool or the pool
    /// no longer holds the channel.
    pub fn release(&mut self, uri: &Uri, channel: CountedItem<C>)
        ensures
            final(self)@ == (TransportView {
                pools: with_pool_changed(
                    old(self)@.pools,
                    uri_text(*uri),
                    |pool: PoolView<C>| released(pool, channel@),
                ),
                ..old(self)@
            }),
    {
        let address = display_uri(uri);
        match self.find(&address) {
            Some(place) => {
                proof {
                    use_type_invariant(&*self);
                }
                let ghost entries_before = self.uri_to_pool@;
                let mut entries: Vec<PoolEntry<C>> = Vec::new();
                std::mem::swap(&mut self.uri_to_pool, &mut entries);
                let mut entry = entries.remove(place);
                entry.pool.release(channel);
                proof {
                    pools_of_after_update(entries_before, place as int, entry);
                    numbers_after_update(
                        entries_before,
                        place as int,
                        entry,
                        self.pools_created as nat,
                    );
                    assert(entries@.insert(place as int, entry) =~= entries_before.update(
                        place as int,
                        entry,
                    ));
                }
                entries.insert(place, entry);
                self.uri_to_pool = entries;
            },
            None => {},
        }
    }

    fn lookup(&mut self, address: &String, pick: Option<usize>) -> (found: PooledChannel<C>)
        where C: Clone
        ensures
            exists|chosen: nat|
                {
                    &&& pick matches Some(given) ==> chosen == given
                    &&& #[trigger] looks_up(
                        old(self)@,
                        address@,
                        chosen,
                        final(self)@,
                        found,
                    )
                },
    {
        let ghost before = self@;
        match self.find(address) {
            Some(place) => {
                proof {
                    use_type_invariant(&*self);
                }
                let ghost entries_before = self.uri_to_pool@;
                let mut entries: Vec<PoolEntry<C>> = Vec::new();
                std::mem::swap(&mut self.uri_to_pool, &mut entries);
                let mut entry = entries.remove(place);
                let ghost pool_before = entry.pool@;
                let ghost mut chosen: nat = 0;
                let lent = match pick {
                    Some(given) => {
                        let lent = entry.pool.choose_channel_at(given);
                        proof {
                            chosen = given as nat;
                        }
                        lent
                    },
                    None => {
                        let lent = entry.pool.choose_channel();
                        proof {
                            chosen = choose|chosen: nat| #[trigger]
                                lends(pool_before, chosen, entry.pool@, lent);
                        }
                        lent
                    },
                };
                assert(lends(pool_before, chosen, entry.pool@, lent));
                proof {
                    pools_of_after_update(entries_before, place as int, entry);
                    numbers_after_update(
                        entries_before,
                        place as int,
                        entry,
                        self.pools_created as nat,
                    );
                    assert(entries@.insert(place as int, entry) =~= entries_before.update(
                        place as int,
                        entry,
                    ));
                }
                entries.insert(place, entry);
                self.uri_to_pool = entries;
                let found = match lent {
                    Some(item) => PooledChannel::Ready(item),
                    None => PooledChannel::NeedsChannel,
                };
                proof {
                    assert(self@.pools =~= before.pools.insert(address@, self@.pools[address@]));
                    assert(looks_up(before, address@, chosen, self@, found));
                }
                found
            },
            None => {
                let ghost chosen: nat = match pick {
                    Some(given) => given as nat,
                    None => 0,
                };
                assert(looks_up(before, address@, chosen, self@, PooledChannel::<C>::NoPool));
                PooledChannel::NoPool
            },
        }
    }

    /// Lends a channel to the peer at `uri`, picked by `pick` as
    /// [`DynamicChannelPool::choose_channel_at`] picks it.
    pub fn get_pooled_channel_at(&mut self, uri: &Uri, pick: usize) -> (found: PooledChannel<C>)
        where C: Clone
        ensures
            looks_up(old(self)@, uri_text(*uri), pick as nat, final(self)@, found),
    {
        let address = display_uri(uri);
        self.lookup(&address, Some(pick))
    }

    /// Lends a channel to the peer at `uri`, picked at random among those of
    /// its pool that can take another borrower.
    ///
    /// The pick is random, so the result is one of those that
    /// [`TransportChannelPool::get_pooled_channel_at`] gives.
    pub fn get_pooled_channel(&mut self, uri: &Uri) -> (found: PooledChannel<C>)
        where C: Clone
        ensures
            exists|pick: nat| #[trigger]
                looks_up(old(self)@, uri_text(*uri), pick, final(self)@, found),
    {
        let address = display_uri(uri);
        self.lookup(&address, None)
    }

    /// Whether another pool can be numbered. Every pool so far has a number
    /// below the next one to give out.
    pub fn can_number_pool(&self) -> (free: bool)
        ensures
            free <==> self@.pools_created < u64::MAX,
            pools_are_numbered(self@),
    {
        proof {
            use_type_invariant(self);
            pools_of_holds_entries(self.uri_to_pool@);
            assert forall|address: Seq<char>| #[trigger]
                self@.pools.contains_key(address) implies self@.pools[address].pool_id
                < self@.pools_created by {
                let i = choose|i: int|
                    0 <= i < self.uri_to_pool@.len() && (#[trigger] self.uri_to_pool@[i]).address@
                        == address;
                assert(self.uri_to_pool@[i].pool@.pool_id < self.pools_created);
            }
        }
        self.pools_created < u64::MAX
    }

    /// Whether the pool of the peer at `uri` can number another channel; true
    /// where the peer has no pool.
    pub fn can_number_channel(&self, uri: &Uri) -> (free: bool)
        ensures
            free <==> can_add_channel(self@, uri_text(*uri)),
    {
        let address = display_uri(uri);
        match self.find(&address) {
            Some(place) => self.uri_to_pool[place].pool.has_free_number(),
            None => true,
        }
    }

    /// Makes a pool of `channels` for the peer at `address` unless it has one.
    fn _init_pool_for_uri(&mut self, address: String, channels: Vec<C>, now: Duration)
        requires
            can_add_pool(old(self)@, address@),
        ensures
            final(self)@ == with_pool_for(
                old(self)@,
                address@,
                channels@,
                duration_nanos(now),
            ),
    {
        match self.find(&address) {
            Some(_) => {},
            None => {
                proof {
                    use_type_invariant(&*self);
                }
                let pool = DynamicChannelPool::new(
                    self.pools_created,
                    channels,
                    MAX_CONNECTIONS_PER_CHANNEL,
                    self.pool_size,
                    now,
                );
                let entry = PoolEntry { address, pool };
                proof {
                    pools_of_after_push(self.uri_to_pool@, entry);
                    numbers_after_push(self.uri_to_pool@, entry, self.pools_created as nat);
                }
                let mut entries: Vec<PoolEntry<C>> = Vec::new();
                std::mem::swap(&mut self.uri_to_pool, &mut entries);
                entries.push(entry);
                self.pools_created = self.pools_created + 1;
                self.uri_to_pool = entries;
            },
        }
    }

    /// Makes sure that the peer at `uri` has a pool, and lends a channel of
    /// it, picked by `pick`.
    ///
    /// Where the peer has no pool, one is made of `channels`, which were just
    /// connected at the time `now`. Where it has one already, that pool stays
    /// as it is and `channels` are dropped: however many callers find the peer
    /// without a pool and connect, only the first one's channels are kept.
    pub fn init_pool_for_uri_at(
        &mut self,
        uri: &Uri,
        channels: Vec<C>,
        now: Duration,
        pick: usize,
    ) -> (found: PooledChannel<C>)
        where C: Clone
        requires
            can_add_pool(old(self)@, uri_text(*uri)),
        ensures
            looks_up(
                with_pool_for(old(self)@, uri_text(*uri), channels@, duration_nanos(now)),
                uri_text(*uri),
                pick as nat,
                final(self)@,
                found,
            ),
            found !is NoPool,
    {
        let address = display_uri(uri);
        self._init_pool_for_uri(address, channels, now);
        let address = display_uri(uri);
        self.lookup(&address, Some(pick))
    }

    /// Makes sure that the peer at `uri` has a pool, as
    /// [`TransportChannelPool::init_pool_for_uri_at`] does, and lends a
    /// channel of it, picked at random.
    pub fn init_pool_for_uri(
        &mut self,
        uri: &Uri,
        channels: Vec<C>,
        now: Duration,
    ) -> (found: PooledChannel<C>)
        where C: Clone
        requires
            can_add_pool(old(self)@, uri_text(*uri)),
        ensures
            exists|pick: nat| #[trigger]
                looks_up(
                    with_pool_for(old(self)@, uri_text(*uri), channels@, duration_nanos(now)),
                    uri_text(*uri),
                    pick,
                    final(self)@,
                    found,
                ),
            found !is NoPool,
    {
        let address = display_uri(uri);
        self._init_pool_for_uri(address, channels, now);
        let address = display_uri(uri);
        self.lookup(&address, None)
    }

    /// Takes a newly connected channel into the pool of the peer at `uri`, at
    /// the time `now`, and lends it at once. Where the peer has no pool the
    /// channel is dropped and nothing is lent.
    pub fn add_channel(
        &mut self,
        uri: &Uri,
        channel: C,
        now: Duration,
    ) -> (lent: Option<CountedItem<C>>)
        where C: Clone
        requires
            can_add_channel(old(self)@, uri_text(*uri)),
        ensures
            adds(old(self)@, uri_text(*uri), channel, duration_nanos(now), final(self)@, lent),
    {
        let address = display_uri(uri);
        let ghost before = self@;
        match self.find(&address) {
            Some(place) => {
                proof {
                    use_type_invariant(&*self);
                }
                let ghost entries_before = self.uri_to_pool@;
                let mut entries: Vec<PoolEntry<C>> = Vec::new();
                std::mem::swap(&mut self.uri_to_pool, &mut entries);
                let mut entry = entries.remove(place);
                let item = entry.pool.add(channel, now);
                proof {
                    pools_of_after_update(entries_before, place as int, entry);
                    numbers_after_update(
                        entries_before,
                        place as int,
                        entry,
                        self.pools_created as nat,
                    );
                    assert(entries@.insert(place as int, entry) =~= entries_before.update(
                        place as int,
                        entry,
                    ));
                }
                entries.insert(place, entry);
                self.uri_to_pool = entries;
                Some(item)
            },
            None => None,
        }
    }

    /// Takes a handle back at `now`: records the success first where there
    /// was one, and then throws the channel out where `ttl` is given and the
    /// channel's last success before that is longer ago, and counts one
    /// borrower fewer on it otherwise. Returns the age of that last success.
    fn settle(
        &mut self,
        address: &String,
        item: CountedItem<C>,
        success: bool,
        ttl: Option<u128>,
        now: Duration,
    ) -> (age: u128)
        ensures
            age == elapsed(duration_nanos(now), known_last_success(old(self)@, address@, item@)),
            final(self)@ == (TransportView {
                pools: with_pool_changed(
                    old(self)@.pools,
                    address@,
                    |pool: PoolView<C>| settled(pool, item@, success, ttl, duration_nanos(now)),
                ),
                ..old(self)@
            }),
    {
        let mut item = item;
        let ghost lent = item@;
        match self.find(address) {
            Some(place) => {
                proof {
                    use_type_invariant(&*self);
                }
                let ghost entries_before = self.uri_to_pool@;
                let mut entries: Vec<PoolEntry<C>> = Vec::new();
                std::mem::swap(&mut self.uri_to_pool, &mut entries);
                let mut entry = entries.remove(place);
                let ghost pool_before = entry.pool@;
                let age = nanos_of(entry.pool.last_success_age(&item, now));
                if success {
                    entry.pool.report_success(&mut item, now);
                }
                let stale = match ttl {
                    Some(limit) => age > limit,
                    None => false,
                };
                if stale {
                    entry.pool.drop_channel(item);
                } else {
                    entry.pool.release(item);
                }
                proof {
                    assert(entry.pool@ == settled(
                        pool_before,
                        lent,
                        success,
                        ttl,
                        duration_nanos(now),
                    ));
                    pools_of_after_update(entries_before, place as int, entry);
                    numbers_after_update(
                        entries_before,
                        place as int,
                        entry,
                        self.pools_created as nat,
                    );
                    assert(entries@.insert(place as int, entry) =~= entries_before.update(
                        place as int,
                        entry,
                    ));
                }
                entries.insert(place, entry);
                self.uri_to_pool = entries;
                age
            },
            None => nanos_of(item.last_success_age(now)),
        }
    }

    /// Ends an attempt of a request to the peer at `uri`: takes back the
    /// channel that the attempt ran on and says what came of the attempt.
    ///
    /// `outcome` is whichever of the call, the health probe and the timeout
    /// finished first, `max_timeout` the time that the attempt had, and `now`
    /// the time at its end.
    ///
    /// A call that returned a value is a success: the value is handed on, and
    /// the success is recorded for the channel. Anything else is a failure.
    /// After a failure, a channel that has seen no success for longer than
    /// [`CHANNEL_TTL_NANOS`] is thrown out of the pool, so that the next
    /// attempt connects anew; otherwise the handle is simply taken back.
    pub fn make_request<T>(
        &mut self,
        uri: &Uri,
        channel: CountedItem<C>,
        outcome: RaceOutcome<T>,
        max_timeout: Duration,
        now: Duration,
    ) -> (result: Result<T, RequestFailure>)
        ensures
            result == match outcome {
                RaceOutcome::Call(Ok(body)) => Ok::<T, RequestFailure>(body),
                _ => Err(failure_of(outcome, duration_nanos(max_timeout), uri_text(*uri))),
            },
            outcome is TimedOut ==> says(
                result->Err_0->RequestError_0,
                StatusCode::DeadlineExceeded,
                timeout_text(duration_nanos(max_timeout) / NANOS_PER_MILLI as nat, uri_text(*uri)),
            ),
            final(self)@ == (TransportView {
                pools: with_pool_changed(
                    old(self)@.pools,
                    uri_text(*uri),
                    |pool: PoolView<C>|
                        after_attempt(pool, channel@, is_success(outcome), duration_nanos(now)),
                ),
                ..old(self)@
            }),
    {
        let address = display_uri(uri);
        let ghost before = self@;
        let ghost lent = channel@;
        let ghost at = duration_nanos(now);
        let result = match outcome {
            RaceOutcome::Call(Ok(body)) => {
                self.settle(&address, channel, true, None, now);
                Ok(body)
            },
            RaceOutcome::Call(Err(status)) => {
                self.settle(&address, channel, false, Some(CHANNEL_TTL_NANOS), now);
                Err(RequestFailure::RequestError(status))
            },
            RaceOutcome::Probe(verdict) => {
                self.settle(&address, channel, false, Some(CHANNEL_TTL_NANOS), now);
                Err(RequestFailure::HealthCheck(verdict))
            },
            RaceOutcome::TimedOut => {
                self.settle(&address, channel, false, Some(CHANNEL_TTL_NANOS), now);
                let millis = nanos_of(max_timeout) / NANOS_PER_MILLI;
                let message = timeout_message(millis, &address);
                Err(RequestFailure::RequestError(deadline_exceeded(message)))
            },
        };
        proof {
            assert(self@.pools =~= with_pool_changed(
                before.pools,
                address@,
                |pool: PoolView<C>| after_attempt(pool, lent, is_success(outcome), at),
            ));
        }
        result
    }

    /// Ends one round of the health probe of the peer at `uri`: takes back the
    /// channel that the check ran on and says whether the probe goes on.
    ///
    /// Returns `None` where the probe goes on to its next wait, and the
    /// verdict where it gives the peer up. A peer that answered is alive, and
    /// the success is recorded for the channel. A peer that answered with an
    /// error is given up. A peer that did not answer in time is given up only
    /// where the channel has seen no success of any request for longer than
    /// [`HEALTH_CHECK_TIMEOUT_NANOS`].
    pub fn check_connectability(
        &mut self,
        uri: &Uri,
        channel: CountedItem<C>,
        outcome: HealthOutcome,
        now: Duration,
    ) -> (verdict: Option<HealthCheckError>)
        ensures
            verdict == verdict_of(
                outcome,
                elapsed(
                    duration_nanos(now),
                    known_last_success(old(self)@, uri_text(*uri), channel@),
                ),
            ),
            outcome is TimedOut && verdict is Some ==> says(
                verdict->Some_0->RequestError_0,
                StatusCode::DeadlineExceeded,
                health_check_timeout_text(
                    HEALTH_CHECK_TIMEOUT_NANOS as nat / NANOS_PER_MILLI as nat,
                ),
            ),
            final(self)@ == (TransportView {
                pools: with_pool_changed(
                    old(self)@.pools,
                    uri_text(*uri),
                    |pool: PoolView<C>|
                        after_check(pool, channel@, outcome is Healthy, duration_nanos(now)),
                ),
                ..old(self)@
            }),
    {
        let address = display_uri(uri);
        let ghost before = self@;
        let ghost lent = channel@;
        let ghost at = duration_nanos(now);
        let healthy = matches!(outcome, HealthOutcome::Healthy);
        let age = self.settle(&address, channel, healthy, None, now);
        proof {
            assert(self@.pools =~= with_pool_changed(
                before.pools,
                address@,
                |pool: PoolView<C>| after_check(pool, lent, outcome is Healthy, at),
            ));
        }
        match outcome {
            HealthOutcome::Healthy => None,
            HealthOutcome::Failed(status) => Some(HealthCheckError::RequestError(status)),
            HealthOutcome::TimedOut => {
                if age > HEALTH_CHECK_TIMEOUT_NANOS {
                    let millis = HEALTH_CHECK_TIMEOUT_NANOS / NANOS_PER_MILLI;
                    let message = health_check_timeout_message(millis);
                    Some(HealthCheckError::RequestError(deadline_exceeded(message)))
                } else {
                    None
                }
            },
        }
    }

    /// Opens a request to the peer at `uri` that may be retried `retries`
    /// times. Each attempt gets `timeout`, or, where none is given, the time
    /// of a call and of a connect together.
    pub fn with_channel_timeout(
        &self,
        uri: &Uri,
        timeout: Option<Duration>,
        retries: usize,
    ) -> (state: RetryState)
        ensures
            state@ == (RetryStateView {
                address: uri_text(*uri),
                retries_left: retries as nat,
                attempt: 0,
                max_timeout: match timeout {
                    Some(given) => duration_nanos(given),
                    None => clamp_to_duration(self@.grpc_timeout + self@.connection_timeout),
                },
            }),
    {
        let max_timeout = match timeout {
            Some(given) => given,
            None => duration_from_nanos(
                nanos_of(self.grpc_timeout) + nanos_of(self.connection_timeout),
            ),
        };
        RetryState::new(display_uri(uri), max_timeout, retries)
    }

    /// Opens a request to the peer at `uri` with the default number of
    /// retries and the default time for each attempt.
    pub fn with_channel(&self, uri: &Uri) -> (state: RetryState)
        ensures
            state@ == (RetryStateView {
                address: uri_text(*uri),
                retries_left: DEFAULT_RETRIES as nat,
                attempt: 0,
                max_timeout: clamp_to_duration(self@.grpc_timeout + self@.connection_timeout),
            }),
    {
        self.with_channel_timeout(uri, None, DEFAULT_RETRIES)
    }
}

impl<C> Default for TransportChannelPool<C> {
    /// A pool with no peers yet and the default times and pool size.
    fn default() -> (pool: Self)
        ensures
            pool@ == (TransportView::<C> {
                pools: Map::empty(),
                pool_size: DEFAULT_POOL_SIZE as nat,
                grpc_timeout: DEFAULT_GRPC_TIMEOUT_NANOS as nat,
                connection_timeout: DEFAULT_CONNECT_TIMEOUT_NANOS as nat,
                pools_created: 0,
            }),
    {
        TransportChannelPool::new(
            duration_from_nanos(DEFAULT_GRPC_TIMEOUT_NANOS),
            duration_from_nanos(DEFAULT_CONNECT_TIMEOUT_NANOS),
            DEFAULT_POOL_SIZE,
        )
    }
}

/// How long one health check may take.
pub fn health_check_timeout() -> (timeout: Duration)
    ensures
        duration_nanos(timeout) == HEALTH_CHECK_TIMEOUT_NANOS,
{
    duration_from_nanos(HEALTH_CHECK_TIMEOUT_NANOS)
}

/// The pools without the one of the peer at `address`.
pub open spec fn without_pool<C>(pools: TransportView<C>, address: Seq<char>) -> TransportView<C> {
    TransportView { pools: pools.pools.remove(address), ..pools }
}

/// Dropping a peer's pool a second time changes nothing.
pub proof fn drop_pool_is_idempotent<C>(pools: TransportView<C>, address: Seq<char>)
    ensures
        without_pool(without_pool(pools, address), address) == without_pool(pools, address),
{
    assert(pools.pools.remove(address).remove(address) =~= pools.pools.remove(address));
}

/// A peer gets its pool once: whoever comes second with channels of its own
/// finds the first one's pool and leaves it as it is, and no further pool is
/// made.
pub proof fn pool_is_made_once<C>(
    pools: TransportView<C>,
    address: Seq<char>,
    first: Seq<C>,
    first_at: nat,
    second: Seq<C>,
    second_at: nat,
)
    ensures
        with_pool_for(with_pool_for(pools, address, first, first_at), address, second, second_at)
            == with_pool_for(pools, address, first, first_at),
        with_pool_for(pools, address, first, first_at).pools.contains_key(address),
        with_pool_for(pools, address, first, first_at).pools_created <= pools.pools_created + 1,
{
}

/// Whether every pool has a number below the next one to give out.
pub open spec fn pools_are_numbered<C>(pools: TransportView<C>) -> bool {
    forall|address: Seq<char>| #[trigger]
        pools.pools.contains_key(address) ==> pools.pools[address].pool_id < pools.pools_created
}

/// A handle that outlives its pool means nothing to the pool that takes its
/// place: where a peer's pool is dropped and a new one made, no channel of the
/// new pool is the one that a handle of the old pool was lent on.
pub proof fn new_pool_ignores_old_handles<C>(
    pools: TransportView<C>,
    address: Seq<char>,
    item: CountedItemView<C>,
    channels: Seq<C>,
    now: nat,
)
    requires
        pools_are_numbered(pools),
        pools.pools.contains_key(address),
        item.pool_id == pools.pools[address].pool_id,
    ensures
        borrowed_from(
            with_pool_for(without_pool(pools, address), address, channels, now),
            address,
            item,
        ) is None,
{
}

/// An attempt gives back what it borrowed. Whatever came of the attempt, its
/// channel afterwards has as many borrowers as before the attempt, or is out
/// of the pool; and it is out of the pool exactly where the attempt failed and
/// the channel's last success was longer ago than a channel may go without.
pub proof fn attempt_returns_channel<C: Clone>(
    before: PoolView<C>,
    place: int,
    lent: PoolView<C>,
    item: CountedItemView<C>,
    success: bool,
    now: nat,
)
    requires
        crate::dynamic_pool::numbered_in_order(before.slots, before.next_id),
        0 <= place < before.slots.len(),
        crate::dynamic_pool::lent_from(before, place, lent, item),
    ensures
        after_attempt(lent, item, success, now) == (PoolView {
            slots: if success {
                before.slots.update(
                    place,
                    SlotView { last_success: now, ..before.slots[place] },
                )
            } else if elapsed(now, before.slots[place].last_success) > CHANNEL_TTL_NANOS {
                before.slots.remove(place)
            } else {
                before.slots
            },
            ..before
        }),
{
    let slot = before.slots[place];
    let busy = SlotView { usage: slot.usage + 1, ..slot };
    assert(lent.slots == before.slots.update(place, busy));
    assert(crate::dynamic_pool::numbered_in_order(lent.slots, lent.next_id)) by {
        assert forall|i: int, j: int| 0 <= i < j < lent.slots.len() implies (
        #[trigger] lent.slots[i]).id < (#[trigger] lent.slots[j]).id by {
            assert(lent.slots[i].id == before.slots[i].id);
            assert(lent.slots[j].id == before.slots[j].id);
        }
        assert forall|i: int| 0 <= i < lent.slots.len() implies (#[trigger] lent.slots[i]).id
            < lent.next_id by {
            assert(lent.slots[i].id == before.slots[i].id);
        }
    }
    crate::dynamic_pool::position_of_finds(lent.slots, lent.next_id, item.id);
    assert(lent.slots[place].id == item.id);
    assert(slot_of(lent, item) == Some(place));
    if success {
        let recorded = succeeded(lent, item, now);
        assert(recorded.slots[place].id == item.id);
        assert(crate::dynamic_pool::numbered_in_order(recorded.slots, recorded.next_id)) by {
            assert forall|i: int, j: int| 0 <= i < j < recorded.slots.len() implies (
            #[trigger] recorded.slots[i]).id < (#[trigger] recorded.slots[j]).id by {
                assert(recorded.slots[i].id == lent.slots[i].id);
                assert(recorded.slots[j].id == lent.slots[j].id);
            }
            assert forall|i: int| 0 <= i < recorded.slots.len() implies (
            #[trigger] recorded.slots[i]).id < recorded.next_id by {
                assert(recorded.slots[i].id == lent.slots[i].id);
            }
        }
        crate::dynamic_pool::position_of_finds(recorded.slots, recorded.next_id, item.id);
        assert(slot_of(recorded, item) == Some(place));
        assert(released(recorded, item).slots =~= before.slots.update(
            place,
            SlotView { last_success: now, ..slot },
        ));
    } else if elapsed(now, slot.last_success) > CHANNEL_TTL_NANOS {
        assert(without(lent, item).slots =~= before.slots.remove(place));
    } else {
        assert(released(lent, item).slots =~= before.slots);
    }
}

/// A channel that was thrown out is not lent again: no channel of the pool
/// carries its number afterwards.
pub proof fn dropped_channel_is_gone<C>(pool: PoolView<C>, item: CountedItemView<C>)
    requires
        crate::dynamic_pool::numbered_in_order(pool.slots, pool.next_id),
        item.pool_id == pool.pool_id,
    ensures
        slot_of(without(pool, item), item) is None,
        forall|i: int|
            0 <= i < without(pool, item).slots.len() ==> (#[trigger] without(
                pool,
                item,
            ).slots[i]).id != item.id,
{
    crate::dynamic_pool::position_of_finds(pool.slots, pool.next_id, item.id);
    let after = without(pool, item);
    match slot_of(pool, item) {
        Some(place) => {
            assert forall|i: int| 0 <= i < after.slots.len() implies (#[trigger] after.slots[i]).id
                != item.id by {
                let from_i = if i < place { i } else { i + 1 };
                assert(after.slots[i] == pool.slots[from_i]);
                if from_i < place {
                    assert(pool.slots[from_i].id < pool.slots[place].id);
                } else {
                    assert(pool.slots[place].id < pool.slots[from_i].id);
                }
            }
            assert(crate::dynamic_pool::numbered_in_order(after.slots, after.next_id)) by {
                assert forall|i: int, j: int| 0 <= i < j < after.slots.len() implies (
                #[trigger] after.slots[i]).id < (#[trigger] after.slots[j]).id by {
                    let from_i = if i < place { i } else { i + 1 };
                    let from_j = if j < place { j } else { j + 1 };
                    assert(after.slots[i] == pool.slots[from_i]);
                    assert(after.slots[j] == pool.slots[from_j]);
                }
                assert forall|i: int| 0 <= i < after.slots.len() implies (
                #[trigger] after.slots[i]).id < after.next_id by {
                    let from_i = if i < place { i } else { i + 1 };
                    assert(after.slots[i] == pool.slots[from_i]);
                }
            }
            crate::dynamic_pool::position_of_finds(after.slots, after.next_id, item.id);
        },
        None => {},
    }
}

/// The pools after the pool at `address`, if there is one, was changed by `change`.
pub open spec fn with_pool_changed<C>(
    pools: Map<Seq<char>, PoolView<C>>,
    address: Seq<char>,
    change: spec_fn(PoolView<C>) -> PoolView<C>,
) -> Map<Seq<char>, PoolView<C>> {
    if pools.contains_key(address) {
        pools.insert(address, change(pools[address]))
    } else {
        pools
    }
}

/// What a lookup lent, if anything.
pub open spec fn lent_by<C>(found: PooledChannel<C>) -> Option<CountedItem<C>> {
    match found {
        PooledChannel::Ready(item) => Some(item),
        _ => None,
    }
}

/// Whether looking up the peer at `address` by `pick` turns the pools
/// `before` into `after` and gives `found`.
///
/// Without a pool for the peer nothing changes. With one, the pool lends as
/// [`lends`] says, and no other pool changes.
pub open spec fn looks_up<C: Clone>(
    before: TransportView<C>,
    address: Seq<char>,
    pick: nat,
    after: TransportView<C>,
    found: PooledChannel<C>,
) -> bool {
    if before.pools.contains_key(address) {
        &&& found !is NoPool
        &&& found is NeedsChannel <==> lent_by(found) is None
        &&& after.pools.contains_key(address)
        &&& lends(before.pools[address], pick, after.pools[address], lent_by(found))
        &&& after == (TransportView {
            pools: before.pools.insert(address, after.pools[address]),
            ..before
        })
    } else {
        found is NoPool && after == before
    }
}

/// Whether a pool can be made for the peer at `address` if it has none: the
/// numbers for pools have not run out.
pub open spec fn can_add_pool<C>(pools: TransportView<C>, address: Seq<char>) -> bool {
    !pools.pools.contains_key(address) ==> pools.pools_created < u64::MAX
}

/// Whether the pool of the peer at `address`, if it has one, can take another
/// channel: its numbers for channels have not run out.
pub open spec fn can_add_channel<C>(pools: TransportView<C>, address: Seq<char>) -> bool {
    pools.pools.contains_key(address) ==> pools.pools[address].next_id < u64::MAX
}

/// The pools once the peer at `address` has one: as they were where it had
/// one already, and with a new pool of `channels` where it had none.
pub open spec fn with_pool_for<C>(
    pools: TransportView<C>,
    address: Seq<char>,
    channels: Seq<C>,
    now: nat,
) -> TransportView<C> {
    if pools.pools.contains_key(address) {
        pools
    } else {
        TransportView {
            pools: pools.pools.insert(
                address,
                PoolView {
                    pool_id: pools.pools_created,
                    slots: fresh_slots(channels, now),
                    pool_size: pools.pool_size,
                    max_usage: MAX_CONNECTIONS_PER_CHANNEL as nat,
                    next_id: channels.len(),
                },
            ),
            pools_created: pools.pools_created + 1,
            ..pools
        }
    }
}

/// Whether adding `channel` to the pool of the peer at `address` turns the
/// pools `before` into `after` and lends `lent`.
pub open spec fn adds<C: Clone>(
    before: TransportView<C>,
    address: Seq<char>,
    channel: C,
    now: nat,
    after: TransportView<C>,
    lent: Option<CountedItem<C>>,
) -> bool {
    if before.pools.contains_key(address) {
        let pool = before.pools[address];
        &&& lent matches Some(item)
        &&& item@.pool_id == pool.pool_id
        &&& item@.id == pool.next_id
        &&& item@.last_success == now
        &&& cloned(channel, item@.item)
        &&& after == (TransportView {
            pools: before.pools.insert(
                address,
                PoolView {
                    slots: pool.slots.push(
                        SlotView { id: pool.next_id, item: channel, usage: 1, last_success: now },
                    ),
                    next_id: pool.next_id + 1,
                    ..pool
                },
            ),
            ..before
        })
    } else {
        lent is None && after == before
    }
}

/// What the pool of the peer at `address` keeps about the channel that
/// `item` was lent on, or `None` where it does not hold that channel.
pub open spec fn borrowed_from<C>(
    pools: TransportView<C>,
    address: Seq<char>,
    item: CountedItemView<C>,
) -> Option<SlotView<C>> {
    if pools.pools.contains_key(address) {
        match slot_of(pools.pools[address], item) {
            Some(place) => Some(pools.pools[address].slots[place]),
            None => None,
        }
    } else {
        None
    }
}

/// When a request on the channel of `item` last succeeded: by the record of
/// the peer's pool where that still holds the channel, else by the handle's.
pub open spec fn known_last_success<C>(
    pools: TransportView<C>,
    address: Seq<char>,
    item: CountedItemView<C>,
) -> nat {
    if pools.pools.contains_key(address) {
        last_success_of(pools.pools[address], item)
    } else {
        item.last_success
    }
}

spec fn settled<C>(
    pool: PoolView<C>,
    item: CountedItemView<C>,
    success: bool,
    ttl: Option<u128>,
    now: nat,
) -> PoolView<C> {
    let recorded = if success {
        succeeded(pool, item, now)
    } else {
        pool
    };
    if ttl is Some && elapsed(now, last_success_of(pool, item)) > ttl->0 {
        without(recorded, item)
    } else {
        released(recorded, item)
    }
}

/// Whether an attempt with this outcome succeeded: its call returned a value.
pub open spec fn is_success<T>(outcome: RaceOutcome<T>) -> bool {
    outcome matches RaceOutcome::Call(Ok(_))
}

/// A pool after an attempt that ran on the channel of `item` ended at `now`.
///
/// After a success the success is recorded and the handle taken back. After a
/// failure the channel is thrown out where its last success is longer ago than
/// the time a channel may go without one, and the handle taken back otherwise.
pub open spec fn after_attempt<C>(
    pool: PoolView<C>,
    item: CountedItemView<C>,
    success: bool,
    now: nat,
) -> PoolView<C> {
    if success {
        released(succeeded(pool, item, now), item)
    } else if elapsed(now, last_success_of(pool, item)) > CHANNEL_TTL_NANOS {
        without(pool, item)
    } else {
        released(pool, item)
    }
}

/// A pool after a health check that ran on the channel of `item` ended at
/// `now`: the handle is taken back, after the success was recorded if the
/// peer answered.
pub open spec fn after_check<C>(
    pool: PoolView<C>,
    item: CountedItemView<C>,
    healthy: bool,
    now: nat,
) -> PoolView<C> {
    if healthy {
        released(succeeded(pool, item, now), item)
    } else {
        released(pool, item)
    }
}

/// What an attempt with this outcome failed with; for a call that returned a
/// value, which is no failure, the status of a timeout.
pub open spec fn failure_of<T>(
    outcome: RaceOutcome<T>,
    max_timeout: nat,
    address: Seq<char>,
) -> RequestFailure {
    match outcome {
        RaceOutcome::Call(Err(status)) => RequestFailure::RequestError(status),
        RaceOutcome::Probe(verdict) => RequestFailure::HealthCheck(verdict),
        _ => RequestFailure::RequestError(
            deadline_exceeded_status(timeout_text(max_timeout / NANOS_PER_MILLI as nat, address)),
        ),
    }
}

/// What a round of the health probe ends with, given what came of the check
/// and how long ago the channel last saw a success: `None` where the probe
/// goes on, and the verdict where it gives the peer up.
pub open spec fn verdict_of(outcome: HealthOutcome, age: nat) -> Option<HealthCheckError> {
    match outcome {
        HealthOutcome::Healthy => None,
        HealthOutcome::Failed(status) => Some(HealthCheckError::RequestError(status)),
        HealthOutcome::TimedOut => if age > HEALTH_CHECK_TIMEOUT_NANOS {
            Some(
                HealthCheckError::RequestError(
                    deadline_exceeded_status(
                        health_check_timeout_text(
                            HEALTH_CHECK_TIMEOUT_NANOS as nat / NANOS_PER_MILLI as nat,
                        ),
                    ),
                ),
            )
        } else {
            None
        },
    }
}

} // verus!
