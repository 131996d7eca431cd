use auction_bot::models::ChannelAuction;
use auction_bot::registry::{AlreadyBound, ChannelRegistry};

fn row(channel: i64, auction: Option<i32>) -> ChannelAuction {
    ChannelAuction { channel, auction }
}

#[test]
fn bind_fails_on_a_bound_channel() {
    let mut registry = ChannelRegistry::new();
    assert_eq!(registry.bind(10, 1), Ok(()));
    assert_eq!(registry.bind(10, 2), Err(AlreadyBound { auction: 1 }));
    assert_eq!(registry.bind(10, 1), Err(AlreadyBound { auction: 1 }));
    assert_eq!(registry.lookup(10), Some(1));
    assert_eq!(registry.bind(11, 2), Ok(()));
    assert_eq!(registry.rows(), &vec![row(10, Some(1)), row(11, Some(2))]);
}

#[test]
fn bind_rewrites_a_free_row_in_place() {
    let mut registry = ChannelRegistry::new();
    assert!(registry.register(10));
    assert!(registry.register(11));
    assert!(!registry.register(10));
    assert_eq!(registry.bind(10, 5), Ok(()));
    assert_eq!(registry.rows(), &vec![row(10, Some(5)), row(11, None)]);
    assert!(registry.is_registered(11));
    assert!(!registry.is_registered(12));
}

#[test]
fn lookup_knows_only_live_auctions() {
    let mut registry = ChannelRegistry::new();
    assert_eq!(registry.lookup(10), None);
    registry.register(10);
    assert_eq!(registry.lookup(10), None);
    registry.bind(10, 3).unwrap();
    assert_eq!(registry.lookup(10), Some(3));
    assert_eq!(registry.lookup(11), None);
}

#[test]
fn release_is_compare_and_clear() {
    let mut registry = ChannelRegistry::new();
    registry.bind(10, 1).unwrap();
    registry.bind(11, 2).unwrap();
    assert!(!registry.release(10, 2));
    assert!(!registry.release(12, 1));
    assert_eq!(registry.lookup(10), Some(1));
    assert!(registry.release(10, 1));
    assert_eq!(registry.lookup(10), None);
    assert_eq!(registry.lookup(11), Some(2));
    assert!(!registry.release(10, 1));
    assert_eq!(registry.rows(), &vec![row(10, None), row(11, Some(2))]);
}

#[test]
fn release_succeeds_exactly_once_in_either_order() {
    for first_is_sweeper in [true, false] {
        let mut registry = ChannelRegistry::new();
        registry.bind(10, 1).unwrap();
        let (sweeper, bidder) = if first_is_sweeper {
            let sweeper = registry.release(10, 1);
            (sweeper, registry.release(10, 1))
        } else {
            let bidder = registry.release(10, 1);
            (registry.release(10, 1), bidder)
        };
        assert_ne!(sweeper, bidder);
        assert_eq!(registry.lookup(10), None);
    }
}

#[test]
fn a_new_auction_is_not_released_by_an_old_finalizer() {
    let mut registry = ChannelRegistry::new();
    registry.bind(10, 1).unwrap();
    assert!(registry.release(10, 1));
    registry.bind(10, 2).unwrap();
    assert!(!registry.release(10, 1));
    assert_eq!(registry.lookup(10), Some(2));
}

#[test]
fn list_active_follows_the_rows() {
    let mut registry = ChannelRegistry::new();
    assert_eq!(registry.list_active(), vec![]);
    registry.bind(30, 3).unwrap();
    registry.register(20);
    registry.bind(10, 1).unwrap();
    assert_eq!(registry.list_active(), vec![(30, 3), (10, 1)]);
    registry.bind(20, 2).unwrap();
    assert_eq!(registry.list_active(), vec![(30, 3), (20, 2), (10, 1)]);
    registry.release(30, 3);
    assert_eq!(registry.list_active(), vec![(20, 2), (10, 1)]);
}

#[test]
fn from_rows_wants_distinct_channels() {
    let registry = ChannelRegistry::from_rows(vec![row(1, None), row(2, Some(7)), row(3, Some(7))]);
    assert_eq!(registry.unwrap().list_active(), vec![(2, 7), (3, 7)]);
    assert!(ChannelRegistry::from_rows(vec![]).is_some());
    assert!(ChannelRegistry::from_rows(vec![row(1, None), row(2, None), row(1, Some(1))]).is_none());
    assert!(ChannelRegistry::from_rows(vec![row(1, None), row(1, None)]).is_none());
}
