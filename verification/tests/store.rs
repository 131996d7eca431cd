use auction_bot::auction_manager::{pair_up, AuctionManager, GetAuctionError, TendError, TendInfo};
use auction_bot::engine::{is_row_valid, rejection, AuctionHouse, RejectReason};
use auction_bot::models::{AuctionInfo, ChannelAuction, NewAuctionInfo, Timestamp};
use auction_bot::registry::ChannelRegistry;
use auction_bot::store::{AuctionStore, Conflict, CreateError};

fn listing(channel_id: i64, start_price: i32, bin_price: Option<i32>) -> NewAuctionInfo {
    NewAuctionInfo {
        channel_id,
        owner_id: 1,
        item: String::from("beacon"),
        end_time: Timestamp::new(5_000, 0),
        start_price,
        bin_price,
        unit: String::from("E"),
        notice: String::from("-"),
    }
}

fn stored(id: i32, tenders_id: Vec<i64>, tends_price: Vec<i32>) -> AuctionInfo {
    AuctionInfo {
        id,
        channel_id: 10,
        owner_id: 1,
        item: String::from("beacon"),
        end_time: Timestamp::new(5_000, 0),
        start_price: 100,
        bin_price: Some(500),
        unit: String::from("E"),
        embed_id: Some(77),
        notice: String::from("-"),
        tenders_id,
        tends_price,
    }
}

fn manager(bin_price: Option<i32>) -> AuctionManager {
    AuctionManager {
        channel_id: 10,
        id: 1,
        owner_id: 1,
        item: String::from("beacon"),
        unit: String::from("E"),
        tend: vec![],
        end_time: Timestamp::new(5_000, 0),
        start_price: 100,
        bin_price,
        notice: String::from("-"),
        embed_id: 77,
    }
}

#[test]
fn create_auction_gives_out_identifiers_in_turn() {
    let mut store = AuctionStore::new();
    assert_eq!(store.create_auction(listing(10, 100, None)), Ok(1));
    assert_eq!(store.create_auction(listing(11, 1, Some(1))), Ok(2));
    let row = store.get_auction(2).unwrap();
    assert_eq!((row.id, row.channel_id, row.owner_id), (2, 11, 1));
    assert_eq!((row.start_price, row.bin_price, row.embed_id), (1, Some(1), None));
    assert_eq!(row.item, "beacon");
    assert!(row.tenders_id.is_empty() && row.tends_price.is_empty());
    assert!(store.get_auction(3).is_none());
    assert_eq!(store.rows().len(), 2);
}

#[test]
fn create_auction_checks_the_prices() {
    let mut store = AuctionStore::new();
    assert_eq!(store.create_auction(listing(10, 0, None)), Err(CreateError::StartPriceTooLow));
    assert_eq!(store.create_auction(listing(10, -5, Some(-9))), Err(CreateError::StartPriceTooLow));
    assert_eq!(store.create_auction(listing(10, 100, Some(99))), Err(CreateError::BinPriceBelowStart));
    assert_eq!(store.create_auction(listing(10, 100, Some(100))), Ok(1));
}

#[test]
fn create_auction_stops_when_identifiers_run_out() {
    let mut store = AuctionStore::from_rows(vec![stored(i32::MAX - 1, vec![], vec![])]).unwrap();
    assert_eq!(store.create_auction(listing(10, 100, None)), Err(CreateError::IdsExhausted));
    assert_eq!(store.create_auction(listing(10, 0, None)), Err(CreateError::StartPriceTooLow));
    assert_eq!(store.rows().len(), 1);
}

#[test]
fn append_bid_wants_a_higher_price() {
    let mut store = AuctionStore::new();
    let id = store.create_auction(listing(10, 100, None)).unwrap();
    assert_eq!(store.append_bid(id + 1, 5, 100), Err(Conflict::UnknownAuction));
    assert_eq!(store.append_bid(id, 5, 100), Ok(()));
    assert_eq!(store.append_bid(id, 6, 100), Err(Conflict::NotAboveLast));
    assert_eq!(store.append_bid(id, 6, 99), Err(Conflict::NotAboveLast));
    assert_eq!(store.append_bid(id, u64::MAX, 101), Ok(()));
    let row = store.get_auction(id).unwrap();
    assert_eq!(row.tenders_id, vec![5, -1]);
    assert_eq!(row.tends_price, vec![100, 101]);
    assert_eq!(row.last_bid(), Some(TendInfo { tender_id: u64::MAX, price: 101 }));
    assert!(row.is_consistent());
}

#[test]
fn set_embed_records_the_message() {
    let mut store = AuctionStore::new();
    let id = store.create_auction(listing(10, 100, None)).unwrap();
    assert!(!store.set_embed(id + 1, 9));
    assert!(store.set_embed(id, 9));
    assert_eq!(store.get_auction(id).unwrap().embed_id, Some(9));
}

#[test]
fn from_rows_checks_the_rows() {
    let store = AuctionStore::from_rows(vec![stored(7, vec![2], vec![100]), stored(3, vec![], vec![])]);
    let mut store = store.unwrap();
    assert_eq!(store.create_auction(listing(10, 100, None)), Ok(8));
    assert!(AuctionStore::from_rows(vec![]).is_some());
    assert!(AuctionStore::from_rows(vec![stored(7, vec![], vec![]), stored(7, vec![], vec![])]).is_none());
    assert!(AuctionStore::from_rows(vec![stored(0, vec![], vec![])]).is_none());
    assert!(AuctionStore::from_rows(vec![stored(i32::MAX, vec![], vec![])]).is_none());
    assert!(AuctionStore::from_rows(vec![stored(1, vec![2], vec![])]).is_none());
    assert!(AuctionStore::from_rows(vec![stored(1, vec![2, 3], vec![100, 100])]).is_none());
    assert!(AuctionStore::from_rows(vec![stored(1, vec![2, 3, 4], vec![100, 102, 101])]).is_none());
}

#[test]
fn last_bid_of_unequal_columns() {
    assert_eq!(stored(1, vec![], vec![]).last_bid(), None);
    assert_eq!(stored(1, vec![4, 5], vec![7]).last_bid(), Some(TendInfo { tender_id: 4, price: 7 }));
    assert_eq!(
        pair_up(&vec![4, 5, 6], &vec![7, 8]),
        vec![TendInfo { tender_id: 4, price: 7 }, TendInfo { tender_id: 5, price: 8 }]
    );
    assert!(!stored(1, vec![4, 5], vec![7]).is_consistent());
}

#[test]
fn is_row_valid_applies_every_rule() {
    assert!(is_row_valid(&stored(1, vec![], vec![])));
    assert!(is_row_valid(&stored(1, vec![2, 3, 2], vec![100, 101, 102])));
    assert!(is_row_valid(&stored(1, vec![2, 2], vec![100, 500])));
    assert!(!is_row_valid(&stored(1, vec![2, 2], vec![100, 499])));
    assert!(!is_row_valid(&stored(1, vec![2, 1], vec![100, 101])));
    assert!(!is_row_valid(&stored(1, vec![1], vec![100])));
    assert!(!is_row_valid(&stored(1, vec![2], vec![99])));
    assert!(!is_row_valid(&stored(1, vec![2, 3], vec![100, 100])));
    assert!(!is_row_valid(&stored(1, vec![2, 3], vec![100])));
    assert!(!is_row_valid(&AuctionInfo { start_price: 0, ..stored(1, vec![], vec![]) }));
    assert!(!is_row_valid(&AuctionInfo { bin_price: Some(99), ..stored(1, vec![], vec![]) }));
    assert!(is_row_valid(&AuctionInfo { bin_price: Some(100), ..stored(1, vec![], vec![]) }));
}

#[test]
fn tend_applies_the_rules_in_order() {
    let mut auction = manager(Some(500));
    assert_eq!(auction.tend(1, 1_000), Err(TendError::ByOwner));
    assert_eq!(auction.tend(2, 99), Err(TendError::LessThanStartPrice));
    assert_eq!(auction.tend(2, 100), Ok(false));
    assert_eq!(auction.tend(1, 50), Err(TendError::ByOwner));
    assert_eq!(auction.tend(2, 100), Err(TendError::LastTendOrLess));
    assert_eq!(auction.tend(2, 101), Err(TendError::SameTender));
    assert_eq!(auction.tend(3, 100), Err(TendError::LastTendOrLess));
    assert_eq!(auction.tend(3, 101), Ok(false));
    assert_eq!(auction.tend(3, 500), Ok(true));
    assert_eq!(
        auction.tend,
        vec![
            TendInfo { tender_id: 2, price: 100 },
            TendInfo { tender_id: 3, price: 101 },
            TendInfo { tender_id: 3, price: 500 },
        ]
    );
    assert_eq!(auction.bid_columns(), (vec![2, 3, 3], vec![100, 101, 500]));
}

#[test]
fn tend_without_instant_win_price_never_ends() {
    let mut auction = manager(None);
    assert_eq!(auction.tend(2, i32::MAX - 1), Ok(false));
    assert_eq!(auction.tend(3, i32::MAX), Ok(false));
    assert_eq!(auction.tend(2, i32::MAX), Err(TendError::LastTendOrLess));
}

#[test]
fn first_bid_may_win_at_once() {
    let mut auction = manager(Some(100));
    assert_eq!(auction.tend(2, 100), Ok(true));
}

#[test]
fn rejection_names_each_error() {
    assert_eq!(rejection(TendError::ByOwner), RejectReason::ByOwner);
    assert_eq!(rejection(TendError::LessThanStartPrice), RejectReason::BelowStartPrice);
    assert_eq!(rejection(TendError::LastTendOrLess), RejectReason::NotAboveLast);
    assert_eq!(rejection(TendError::SameTender), RejectReason::SameBidder);
}

#[test]
fn accepted_bids_always_rise() {
    let mut seed: u64 = 0x2545_f491_4f6c_dd1d;
    let mut next = move || {
        seed ^= seed << 13;
        seed ^= seed >> 7;
        seed ^= seed << 17;
        seed
    };
    for round in 0..200 {
        let bin_price = if round % 2 == 0 { Some(400) } else { None };
        let mut auction = manager(bin_price);
        let mut ended = false;
        for _ in 0..60 {
            let bidder = 1 + next() % 4;
            let price = (next() % 600) as i32;
            let before = auction.tend.clone();
            match auction.tend(bidder, price) {
                Ok(ends) => {
                    assert!(!ended);
                    assert_ne!(bidder, auction.owner_id);
                    assert_eq!(ends, bin_price.map_or(false, |bin| price >= bin));
                    assert_eq!(auction.tend.len(), before.len() + 1);
                    ended = ends;
                }
                Err(_) => assert_eq!(auction.tend, before),
            }
            if ended {
                break;
            }
        }
        assert!(auction.tend.windows(2).all(|pair| pair[0].price < pair[1].price));
        assert!(auction.tend.iter().all(|bid| bid.tender_id != 1 && bid.price >= 100));
        let (tenders_id, tends_price) = auction.bid_columns();
        assert!(is_row_valid(&AuctionInfo { bin_price, ..stored(1, tenders_id, tends_price) }));
    }
}

#[test]
fn from_channel_loads_the_live_auction() {
    let mut house = AuctionHouse::new();
    house.register_channel(10);
    assert_eq!(
        AuctionManager::from_channel(&house.registry, &house.store, 10).unwrap_err(),
        GetAuctionError::NotHeld
    );
    assert_eq!(
        AuctionManager::from_channel(&house.registry, &house.store, 11).unwrap_err(),
        GetAuctionError::NotHeld
    );
    let id = house.open_auction(listing(10, 100, Some(500)), 77).unwrap();
    house.submit_bid(id, 2, 150);
    let auction = AuctionManager::from_channel(&house.registry, &house.store, 10).unwrap();
    assert_eq!((auction.id, auction.channel_id, auction.owner_id), (id, 10, 1));
    assert_eq!((auction.start_price, auction.bin_price, auction.embed_id), (100, Some(500), 77));
    assert_eq!((auction.item.as_str(), auction.unit.as_str(), auction.notice.as_str()), ("beacon", "E", "-"));
    assert_eq!(auction.end_time, Timestamp::new(5_000, 0));
    assert_eq!(auction.tend, vec![TendInfo { tender_id: 2, price: 150 }]);
    assert_eq!(
        AuctionManager::from_id(&house.store, id + 1).unwrap_err(),
        GetAuctionError::InvalidId
    );
}

#[test]
fn finish_releases_once() {
    let mut house = AuctionHouse::new();
    house.register_channel(10);
    let id = house.open_auction(listing(10, 100, None), 77).unwrap();
    let auction = AuctionManager::from_id(&house.store, id).unwrap();
    assert!(auction.finish(&mut house.registry));
    assert!(!auction.finish(&mut house.registry));
    assert_eq!(house.registry.lookup(10), None);
}

#[test]
fn from_parts_checks_rules_and_bindings() {
    let build = |rows: Vec<AuctionInfo>, bindings: Vec<ChannelAuction>| {
        AuctionHouse::from_parts(
            AuctionStore::from_rows(rows).unwrap(),
            ChannelRegistry::from_rows(bindings).unwrap(),
        )
    };
    let bound = |auction| vec![ChannelAuction { channel: 10, auction }];
    let mut house = build(vec![stored(1, vec![2], vec![100])], bound(Some(1))).unwrap();
    assert_eq!(house.live_channel(1), Some(10));
    assert_eq!(house.sweep(Timestamp::new(5_000, 0)), 1);
    assert_eq!(house.live_channel(1), None);
    assert!(build(vec![stored(1, vec![2], vec![100])], bound(None)).is_some());
    assert!(build(vec![], bound(Some(1))).is_none());
    assert!(build(vec![stored(1, vec![1], vec![100])], bound(None)).is_none());
    assert!(build(vec![AuctionInfo { channel_id: 11, ..stored(1, vec![], vec![]) }], bound(Some(1))).is_none());
    assert!(build(vec![AuctionInfo { embed_id: None, ..stored(1, vec![], vec![]) }], bound(Some(1))).is_none());
    assert!(build(vec![AuctionInfo { embed_id: None, ..stored(1, vec![], vec![]) }], bound(None)).is_some());
}
