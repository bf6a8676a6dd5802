use channel_pool::dynamic_pool::{CountedItem, DynamicChannelPool};
use std::time::Duration;

fn secs(n: u64) -> Duration {
    Duration::from_secs(n)
}

fn pool_of(channels: Vec<&'static str>, max_usage: usize, pool_size: usize) -> DynamicChannelPool<&'static str> {
    DynamicChannelPool::new(7, channels, max_usage, pool_size, secs(10))
}

fn lend(pool: &mut DynamicChannelPool<&'static str>, pick: usize) -> CountedItem<&'static str> {
    match pool.choose_channel_at(pick) {
        Some(item) => item,
        None => panic!("the pool had nothing to lend"),
    }
}

#[test]
fn new_pool_holds_its_channels() {
    let pool = pool_of(vec!["a", "b", "c"], usize::MAX, 3);
    assert_eq!(pool.len(), 3);
    assert_eq!(pool.pool_size(), 3);
    assert_eq!(pool.pool_id(), 7);
    assert!(pool.has_free_number());
}

#[test]
fn choose_at_picks_in_order() {
    let mut pool = pool_of(vec!["a", "b", "c"], usize::MAX, 3);
    assert_eq!(*lend(&mut pool, 0).item(), "a");
    assert_eq!(*lend(&mut pool, 1).item(), "b");
    assert_eq!(*lend(&mut pool, 2).item(), "c");
    assert_eq!(*lend(&mut pool, 3).item(), "a");
    assert_eq!(*lend(&mut pool, 7).item(), "b");
}

#[test]
fn choose_counts_the_borrowers() {
    let mut pool = pool_of(vec!["a", "b"], usize::MAX, 2);
    let first = lend(&mut pool, 0);
    assert_eq!(pool.usage(&first), Some(1));
    let second = lend(&mut pool, 0);
    assert_eq!(pool.usage(&first), Some(2));
    let other = lend(&mut pool, 1);
    assert_eq!(pool.usage(&other), Some(1));
    assert_eq!(pool.usage(&second), Some(2));
    pool.release(second);
    assert_eq!(pool.usage(&first), Some(1));
    pool.release(first);
    assert_eq!(pool.usage(&other), Some(1));
    assert_eq!(pool.len(), 2);
}

#[test]
fn choose_skips_channels_lent_as_often_as_allowed() {
    let mut pool = pool_of(vec!["a", "b"], 1, 2);
    let first = lend(&mut pool, 0);
    assert_eq!(*first.item(), "a");
    // Only "b" can take another borrower now, whatever the pick.
    let second = lend(&mut pool, 0);
    assert_eq!(*second.item(), "b");
    assert!(pool.choose_channel_at(0).is_none());
    assert!(pool.choose_channel().is_none());
    pool.release(first);
    assert_eq!(*lend(&mut pool, 5).item(), "a");
}

#[test]
fn pool_below_its_size_lends_nothing() {
    let mut pool = pool_of(vec!["a"], usize::MAX, 2);
    assert!(pool.choose_channel_at(0).is_none());
    assert!(pool.choose_channel().is_none());
    assert_eq!(pool.len(), 1);
    let added = pool.add("b", secs(11));
    assert_eq!(*added.item(), "b");
    assert_eq!(pool.usage(&added), Some(1));
    assert_eq!(pool.len(), 2);
    assert_eq!(*lend(&mut pool, 0).item(), "a");
}

#[test]
fn empty_pool_lends_nothing() {
    let mut pool = pool_of(vec![], usize::MAX, 1);
    assert_eq!(pool.len(), 0);
    assert!(pool.choose_channel_at(3).is_none());
    let mut unbounded = pool_of(vec![], usize::MAX, 0);
    assert!(unbounded.choose_channel_at(3).is_none());
}

#[test]
fn random_choice_lends_a_channel_of_the_pool() {
    let mut pool = pool_of(vec!["a", "b", "c"], usize::MAX, 3);
    let mut seen = [0usize; 3];
    for _ in 0..300 {
        match pool.choose_channel() {
            Some(item) => {
                let place = match *item.item() {
                    "a" => 0,
                    "b" => 1,
                    "c" => 2,
                    other => panic!("{} is no channel of the pool", other),
                };
                seen[place] += 1;
                pool.release(item);
            }
            None => panic!("the pool had nothing to lend"),
        }
    }
    // Each of three channels is picked with probability 1/3 each time.
    assert!(seen.iter().all(|&count| count > 0));
    assert_eq!(seen.iter().sum::<usize>(), 300);
}

#[test]
fn drop_channel_removes_just_that_channel() {
    let mut pool = pool_of(vec!["a", "b", "c"], usize::MAX, 3);
    let b = lend(&mut pool, 1);
    pool.drop_channel(b);
    assert_eq!(pool.len(), 2);
    // Below its size the pool waits for the replacement.
    assert!(pool.choose_channel_at(0).is_none());
    let d = pool.add("d", secs(20));
    pool.release(d);
    assert_eq!(*lend(&mut pool, 0).item(), "a");
    assert_eq!(*lend(&mut pool, 1).item(), "c");
    assert_eq!(*lend(&mut pool, 2).item(), "d");
}

#[test]
fn other_handles_outlive_a_dropped_channel() {
    let mut pool = pool_of(vec!["a", "b"], usize::MAX, 2);
    let mine = lend(&mut pool, 0);
    let mut theirs = lend(&mut pool, 0);
    pool.drop_channel(mine);
    assert_eq!(pool.len(), 1);
    assert_eq!(*theirs.item(), "a");
    assert_eq!(pool.usage(&theirs), None);
    assert_eq!(theirs.last_success_age(secs(13)), secs(3));
    theirs.report_success(secs(13));
    assert_eq!(theirs.last_success_age(secs(14)), secs(1));
    // Dropping or releasing what is already gone changes nothing.
    pool.drop_channel(theirs);
    assert_eq!(pool.len(), 1);
}

#[test]
fn replacement_never_gets_a_used_number() {
    let mut pool = pool_of(vec!["a"], usize::MAX, 1);
    let stale = lend(&mut pool, 0);
    let mine = lend(&mut pool, 0);
    pool.drop_channel(mine);
    let fresh = pool.add("b", secs(30));
    assert_eq!(pool.len(), 1);
    // The stale handle is on the channel that is gone, not on its replacement.
    assert_eq!(pool.usage(&stale), None);
    pool.drop_channel(stale);
    assert_eq!(pool.len(), 1);
    assert_eq!(pool.usage(&fresh), Some(1));
}

#[test]
fn handle_of_another_pool_is_ignored() {
    let mut pool = pool_of(vec!["a"], usize::MAX, 1);
    let mut other: DynamicChannelPool<&'static str> =
        DynamicChannelPool::new(8, vec!["x"], usize::MAX, 1, secs(10));
    let foreign = match other.choose_channel_at(0) {
        Some(item) => item,
        None => panic!("the pool had nothing to lend"),
    };
    assert_eq!(pool.usage(&foreign), None);
    pool.drop_channel(foreign);
    assert_eq!(pool.len(), 1);
}

#[test]
fn last_success_starts_at_creation() {
    let mut pool = pool_of(vec!["a"], usize::MAX, 1);
    let item = lend(&mut pool, 0);
    assert_eq!(item.last_success_age(secs(10)), Duration::ZERO);
    assert_eq!(item.last_success_age(secs(16)), secs(6));
    assert_eq!(pool.last_success_age(&item, secs(16)), secs(6));
    // A clock reading from before the last success gives no negative age.
    assert_eq!(item.last_success_age(secs(4)), Duration::ZERO);
}

#[test]
fn success_is_shared_between_borrowers() {
    let mut pool = pool_of(vec!["a"], usize::MAX, 1);
    let watcher = lend(&mut pool, 0);
    let mut caller = lend(&mut pool, 0);
    pool.report_success(&mut caller, secs(15));
    assert_eq!(caller.last_success_age(secs(16)), secs(1));
    // The watcher's own record is old, the pool's is not.
    assert_eq!(watcher.last_success_age(secs(16)), secs(6));
    assert_eq!(pool.last_success_age(&watcher, secs(16)), secs(1));
    let later = lend(&mut pool, 0);
    assert_eq!(later.last_success_age(secs(16)), secs(1));
}

#[test]
fn added_channel_counts_from_its_connect() {
    let mut pool = pool_of(vec![], usize::MAX, 1);
    let item = pool.add("a", secs(40));
    assert_eq!(item.last_success_age(secs(45)), secs(5));
    assert_eq!(pool.last_success_age(&item, secs(45)), secs(5));
}

#[test]
fn release_never_goes_below_zero() {
    let mut pool = pool_of(vec!["a"], usize::MAX, 1);
    let first = lend(&mut pool, 0);
    let second = lend(&mut pool, 0);
    let third = lend(&mut pool, 0);
    pool.release(first);
    pool.release(second);
    assert_eq!(pool.usage(&third), Some(1));
    pool.release(third);
    let again = lend(&mut pool, 0);
    assert_eq!(pool.usage(&again), Some(1));
}
