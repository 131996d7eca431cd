use auction_bot::auction_manager::TendInfo;
use auction_bot::engine::{AuctionHouse, BidOutcome, Notification, OpenError, RejectReason};
use auction_bot::models::{AuctionInfo, ChannelAuction, NewAuctionInfo, Timestamp};
use auction_bot::registry::ChannelRegistry;
use auction_bot::store::{AuctionStore, CreateError};

const CHANNEL: i64 = 700;
const OWNER: u64 = 1;
const ALICE: u64 = 11;
const BOB: u64 = 12;

fn listing(start_price: i32, bin_price: Option<i32>, end_secs: i64) -> NewAuctionInfo {
    NewAuctionInfo {
        channel_id: CHANNEL,
        owner_id: OWNER as i64,
        item: String::from("diamond pickaxe"),
        end_time: Timestamp::new(end_secs, 0),
        start_price,
        bin_price,
        unit: String::from("emerald"),
        notice: String::from("none"),
    }
}

fn house_with(start_price: i32, bin_price: Option<i32>, end_secs: i64) -> (AuctionHouse, i32) {
    let mut house = AuctionHouse::new();
    assert!(house.register_channel(CHANNEL));
    let id = house.open_auction(listing(start_price, bin_price, end_secs), 9000).unwrap();
    (house, id)
}

fn accepted(ends_auction: bool) -> BidOutcome {
    BidOutcome::Accepted { ends_auction }
}

fn rejected(reason: RejectReason) -> BidOutcome {
    BidOutcome::Rejected { reason }
}

#[test]
fn bids_must_rise_above_the_last_one() {
    let (mut house, id) = house_with(100, None, 1_000);
    assert_eq!(house.submit_bid(id, ALICE, 100), accepted(false));
    assert_eq!(house.submit_bid(id, BOB, 100), rejected(RejectReason::NotAboveLast));
    assert_eq!(house.submit_bid(id, BOB, 50), rejected(RejectReason::NotAboveLast));
    assert_eq!(house.submit_bid(id, BOB, 150), accepted(false));
    let row = house.store.get_auction(id).unwrap();
    assert_eq!(row.tenders_id, vec![ALICE as i64, BOB as i64]);
    assert_eq!(row.tends_price, vec![100, 150]);
}

#[test]
fn instant_win_ends_the_auction() {
    let (mut house, id) = house_with(100, Some(500), 1_000);
    assert_eq!(house.submit_bid(id, ALICE, 500), accepted(true));
    assert_eq!(house.submit_bid(id, BOB, 600), rejected(RejectReason::NoActiveAuction));
    assert_eq!(house.registry.lookup(CHANNEL), None);
    assert_eq!(
        house.take_notifications(),
        vec![
            Notification::Bid { channel_id: 700, bidder_id: ALICE, price: 500, ends_auction: true },
            Notification::Finalized {
                channel_id: 700,
                winner: Some(TendInfo { tender_id: ALICE, price: 500 }),
            },
        ]
    );
    assert_eq!(house.store.get_auction(id).unwrap().tends_price, vec![500]);
}

#[test]
fn sweep_finalizes_with_last_bid_as_winner() {
    let (mut house, id) = house_with(100, None, 1_000);
    assert_eq!(house.submit_bid(id, ALICE, 100), accepted(false));
    house.take_notifications();
    assert_eq!(house.sweep(Timestamp::new(2_000, 0)), 1);
    assert_eq!(
        house.take_notifications(),
        vec![Notification::Finalized {
            channel_id: 700,
            winner: Some(TendInfo { tender_id: ALICE, price: 100 }),
        }]
    );
    assert_eq!(house.registry.lookup(CHANNEL), None);
}

#[test]
fn sweep_finalizes_without_bids() {
    let (mut house, _id) = house_with(100, None, 1_000);
    assert_eq!(house.sweep(Timestamp::new(2_000, 0)), 1);
    assert_eq!(
        house.take_notifications(),
        vec![Notification::Finalized { channel_id: 700, winner: None }]
    );
}

#[test]
fn owner_bid_is_rejected() {
    for (start, bin) in [(100, None), (300, None), (100, Some(150)), (100, Some(200))] {
        let (mut house, id) = house_with(start, bin, 1_000);
        assert_eq!(house.submit_bid(id, OWNER, 200), rejected(RejectReason::ByOwner));
        assert!(house.store.get_auction(id).unwrap().tends_price.is_empty());
        assert!(house.take_notifications().is_empty());
    }
}

#[test]
fn first_bid_threshold() {
    let (mut house, id) = house_with(100, None, 1_000);
    assert_eq!(house.submit_bid(id, ALICE, 99), rejected(RejectReason::BelowStartPrice));
    assert_eq!(house.submit_bid(id, ALICE, 100), accepted(false));
}

#[test]
fn same_bidder_only_to_win() {
    let (mut house, id) = house_with(100, Some(500), 1_000);
    assert_eq!(house.submit_bid(id, ALICE, 100), accepted(false));
    assert_eq!(house.submit_bid(id, ALICE, 200), rejected(RejectReason::SameBidder));
    assert_eq!(house.submit_bid(id, ALICE, 100), rejected(RejectReason::NotAboveLast));
    assert_eq!(house.submit_bid(id, ALICE, 500), accepted(true));
}

#[test]
fn sweep_skips_auctions_that_are_not_due() {
    let (mut house, id) = house_with(100, None, 1_000);
    assert_eq!(house.sweep(Timestamp::new(999, 999_999_999)), 0);
    assert_eq!(house.registry.lookup(CHANNEL), Some(id));
    assert!(house.take_notifications().is_empty());
    assert_eq!(house.sweep(Timestamp::new(1_000, 0)), 1);
    assert_eq!(house.sweep(Timestamp::new(1_000, 0)), 0);
    assert_eq!(house.take_notifications().len(), 1);
}

#[test]
fn racing_finalizers_announce_once() {
    let (mut house, id) = house_with(100, Some(500), 1_000);
    assert_eq!(house.record_bid(id, ALICE, 500), accepted(true));
    assert_eq!(house.sweep(Timestamp::new(1_000, 0)), 1);
    assert!(!house.finalize(CHANNEL, id));
    let ends: Vec<Notification> = house
        .take_notifications()
        .into_iter()
        .filter(|n| matches!(n, Notification::Finalized { .. }))
        .collect();
    assert_eq!(
        ends,
        vec![Notification::Finalized {
            channel_id: 700,
            winner: Some(TendInfo { tender_id: ALICE, price: 500 }),
        }]
    );

    let (mut house, id) = house_with(100, Some(500), 1_000);
    assert_eq!(house.record_bid(id, ALICE, 500), accepted(true));
    assert!(house.finalize(CHANNEL, id));
    assert_eq!(house.sweep(Timestamp::new(1_000, 0)), 0);
    assert_eq!(house.take_notifications().len(), 2);
}

#[test]
fn one_auction_per_channel() {
    let mut house = AuctionHouse::new();
    assert_eq!(
        house.open_auction(listing(100, None, 1_000), 1),
        Err(OpenError::NotAuctionChannel)
    );
    assert!(house.register_channel(CHANNEL));
    assert!(!house.register_channel(CHANNEL));
    assert_eq!(
        house.open_auction(listing(0, None, 1_000), 1),
        Err(OpenError::Refused { rule: CreateError::StartPriceTooLow })
    );
    assert_eq!(
        house.open_auction(listing(100, Some(99), 1_000), 1),
        Err(OpenError::Refused { rule: CreateError::BinPriceBelowStart })
    );
    assert_eq!(house.open_auction(listing(100, Some(100), 1_000), 1), Ok(1));
    assert_eq!(
        house.open_auction(listing(100, None, 1_000), 2),
        Err(OpenError::AlreadyHeld { auction: 1 })
    );
    assert_eq!(house.sweep(Timestamp::new(1_000, 0)), 1);
    assert_eq!(house.open_auction(listing(100, None, 1_000), 2), Ok(2));
    assert_eq!(house.store.get_auction(2).unwrap().embed_id, Some(2));
}

fn stored(id: i32, channel_id: i64, end_secs: i64, bids: &[(i64, i32)]) -> AuctionInfo {
    AuctionInfo {
        id,
        channel_id,
        owner_id: OWNER as i64,
        item: String::from("diamond pickaxe"),
        end_time: Timestamp::new(end_secs, 0),
        start_price: 100,
        bin_price: None,
        unit: String::from("emerald"),
        embed_id: Some(9000),
        notice: String::from("none"),
        tenders_id: bids.iter().map(|bid| bid.0).collect(),
        tends_price: bids.iter().map(|bid| bid.1).collect(),
    }
}

#[test]
fn sweep_passes_over_a_binding_without_auction() {
    let bindings = vec![
        ChannelAuction { channel: 1, auction: Some(41) },
        ChannelAuction { channel: 2, auction: Some(42) },
        ChannelAuction { channel: 3, auction: Some(43) },
    ];
    let mut house = AuctionHouse {
        store: AuctionStore::from_rows(vec![stored(42, 2, 1_000, &[(11, 150)]), stored(43, 3, 9_000, &[])])
            .unwrap(),
        registry: ChannelRegistry::from_rows(bindings).unwrap(),
        outbox: vec![],
    };
    assert_eq!(house.sweep(Timestamp::new(2_000, 0)), 1);
    assert_eq!(house.registry.lookup(1), Some(41));
    assert_eq!(house.registry.lookup(2), None);
    assert_eq!(house.registry.lookup(3), Some(43));
    assert_eq!(
        house.take_notifications(),
        vec![Notification::Finalized {
            channel_id: 2,
            winner: Some(TendInfo { tender_id: 11, price: 150 }),
        }]
    );
    assert_eq!(house.sweep(Timestamp::new(2_000, 0)), 0);
    assert_eq!(house.sweep(Timestamp::new(9_000, 0)), 1);
    assert_eq!(house.registry.list_active(), vec![(1, 41)]);
}

#[test]
fn sweep_goes_on_after_a_row_that_breaks_the_rules() {
    let bindings = vec![
        ChannelAuction { channel: 1, auction: Some(41) },
        ChannelAuction { channel: 2, auction: Some(42) },
    ];
    let by_owner = stored(41, 1, 1_000, &[(OWNER as i64, 150)]);
    let mut house = AuctionHouse {
        store: AuctionStore::from_rows(vec![by_owner, stored(42, 2, 1_000, &[])]).unwrap(),
        registry: ChannelRegistry::from_rows(bindings).unwrap(),
        outbox: vec![],
    };
    assert_eq!(house.sweep(Timestamp::new(1_000, 0)), 2);
    assert_eq!(house.registry.list_active(), vec![]);
    assert_eq!(
        house.take_notifications(),
        vec![
            Notification::Finalized {
                channel_id: 1,
                winner: Some(TendInfo { tender_id: OWNER, price: 150 }),
            },
            Notification::Finalized { channel_id: 2, winner: None },
        ]
    );
}

#[test]
fn finalize_of_an_auction_that_is_not_stored() {
    let mut house = AuctionHouse::new();
    house.registry.bind(CHANNEL, 5).unwrap();
    assert!(!house.finalize(CHANNEL, 6));
    assert!(house.finalize(CHANNEL, 5));
    assert!(!house.finalize(CHANNEL, 5));
    assert_eq!(
        house.take_notifications(),
        vec![Notification::Finalized { channel_id: 700, winner: None }]
    );
}
