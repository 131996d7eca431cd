use vstd::prelude::*;
use crate::auction_manager::{
    bid_verdict, reaches_bin_price, strictly_increasing, valid_history, TendError, TendInfo,
};
use crate::engine::{
    due, end_notice, outbox_after_finalize, row_valid, sweep_notices, swept_rows, AuctionHouse,
    BidOutcome, Notification, RejectReason,
};
use crate::formats::{term_items, unit_factor, TERM_LIMIT};
use crate::models::{AuctionInfo, ChannelAuction, Timestamp};
use crate::text::{decimal_digits, decimal_number, lemma_decimal_digits_value};
use crate::registry::{
    bound_auction, distinct_channels, lemma_release_once, lemma_with_binding, position,
    release_rows,
};
use crate::store::{auction_index, has_auction, user_id};

verus! {

/// In a history that obeys the bid rules the prices rise strictly: every bid
/// is above all bids before it.
pub proof fn lemma_valid_history_increases(
    owner_id: u64,
    start_price: i32,
    bin_price: Option<i32>,
    bids: Seq<TendInfo>,
)
    requires
        valid_history(owner_id, start_price, bin_price, bids),
    ensures
        strictly_increasing(bids),
{
    reveal(valid_history);
    assert forall|i: int, j: int| 0 <= i < j < bids.len() implies bids[i].price
        < bids[j].price by {
        lemma_rises_between(bids, i, j);
    }
}

/// Where each price is above the one before it, a later price is above an
/// earlier one.
proof fn lemma_rises_between(bids: Seq<TendInfo>, i: int, j: int)
    requires
        0 <= i < j < bids.len(),
        forall|k: int| 0 < k < bids.len() ==> bids[k - 1].price < (#[trigger] bids[k]).price,
    ensures
        bids[i].price < bids[j].price,
    decreases j - i,
{
    assert(bids[j - 1].price < bids[j].price);
    if i < j - 1 {
        lemma_rises_between(bids, i, j - 1);
    }
}

/// A history that obeys the bid rules holds no bid by the owner, and starts
/// at or above the start price.
pub proof fn lemma_valid_history_bidders(
    owner_id: u64,
    start_price: i32,
    bin_price: Option<i32>,
    bids: Seq<TendInfo>,
    i: int,
)
    requires
        valid_history(owner_id, start_price, bin_price, bids),
        0 <= i < bids.len(),
    ensures
        bids[i].tender_id != owner_id,
        bids[i].price >= start_price,
        i > 0 ==> bids[i - 1].price < bids[i].price,
        i > 0 ==> bids[i - 1].tender_id != bids[i].tender_id || reaches_bin_price(
            bin_price,
            bids[i].price,
        ),
{
    lemma_valid_history_increases(owner_id, start_price, bin_price, bids);
    reveal(valid_history);
    if i > 0 {
        assert(bids[0].price < bids[i].price);
    }
}

/// The empty history obeys the bid rules, and a history that obeys them
/// still does once a bid that the rules take is appended.
pub proof fn lemma_valid_history_grows(
    owner_id: u64,
    start_price: i32,
    bin_price: Option<i32>,
    bids: Seq<TendInfo>,
    tender_id: u64,
    price: i32,
)
    requires
        valid_history(owner_id, start_price, bin_price, bids),
        bid_verdict(owner_id, start_price, bin_price, bids, tender_id, price) is Ok,
    ensures
        valid_history(owner_id, start_price, bin_price, Seq::<TendInfo>::empty()),
        valid_history(
            owner_id,
            start_price,
            bin_price,
            bids.push(TendInfo { tender_id, price }),
        ),
{
    reveal(valid_history);
    let grown = bids.push(TendInfo { tender_id, price });
    assert forall|i: int| 0 <= i < grown.len() implies (#[trigger] grown[i]).tender_id
        != owner_id by {
        if i < bids.len() {
            assert(bids[i].tender_id != owner_id);
        }
    }
    assert forall|i: int| 0 < i < grown.len() implies grown[i - 1].price < (
    #[trigger] grown[i]).price && (grown[i - 1].tender_id != grown[i].tender_id
        || reaches_bin_price(bin_price, grown[i].price)) by {
        if i < bids.len() {
            assert(bids[i - 1].price < bids[i].price);
            assert(bids[i - 1].tender_id != bids[i].tender_id || reaches_bin_price(
                bin_price,
                bids[i].price,
            ));
        }
    }
}

/// In a well-formed auction house the prices of every stored auction rise
/// strictly, and none of its bids is by its owner.
pub proof fn lemma_stored_prices_increase(house: AuctionHouse, i: int)
    requires
        house.wf(),
        0 <= i < house.store@.len(),
    ensures
        strictly_increasing(house.store@[i].history()),
        forall|k: int|
            0 <= k < house.store@[i].history().len() ==> (#[trigger] house.store@[i].history()[k]).tender_id
                != user_id(house.store@[i].owner_id),
{
    let row = house.store@[i];
    assert(row_valid(row));
    lemma_valid_history_increases(
        user_id(row.owner_id),
        row.start_price,
        row.bin_price,
        row.history(),
    );
    reveal(valid_history);
}

/// The owner of an auction is never taken as a bidder, whatever the price
/// and whatever the state of the auction.
pub proof fn lemma_owner_never_bids(
    owner_id: u64,
    start_price: i32,
    bin_price: Option<i32>,
    bids: Seq<TendInfo>,
    price: i32,
)
    ensures
        bid_verdict(owner_id, start_price, bin_price, bids, owner_id, price) == Err::<
            bool,
            TendError,
        >(TendError::ByOwner),
{
}

/// A bid by the owner of a stored auction is rejected by the auction house:
/// as the owner's where the auction is live, and for want of a live auction
/// where it is not.
pub proof fn lemma_house_rejects_owner(house: AuctionHouse, id: i32, price: i32)
    requires
        house.store.contains(id),
    ensures
        house.bid_outcome(id, user_id(house.store.auction(id).owner_id), price) == (
        BidOutcome::Rejected {
            reason: if house.is_live(id) {
                RejectReason::ByOwner
            } else {
                RejectReason::NoActiveAuction
            },
        }),
{
}

/// On an auction without bids, a bid of the start price by anyone but the
/// owner is taken, and a bid of one unit less is turned down as below the
/// start price.
pub proof fn lemma_first_bid_threshold(
    owner_id: u64,
    start_price: i32,
    bin_price: Option<i32>,
    tender_id: u64,
)
    requires
        tender_id != owner_id,
    ensures
        bid_verdict(
            owner_id,
            start_price,
            bin_price,
            Seq::<TendInfo>::empty(),
            tender_id,
            start_price,
        ) == Ok::<bool, TendError>(reaches_bin_price(bin_price, start_price)),
        start_price > i32::MIN ==> bid_verdict(
            owner_id,
            start_price,
            bin_price,
            Seq::<TendInfo>::empty(),
            tender_id,
            (start_price - 1) as i32,
        ) == Err::<bool, TendError>(TendError::LessThanStartPrice),
{
}

/// On an auction with bids, a bid by anyone but the owner that is not above
/// the last price is turned down for that; one above it is taken, unless it
/// comes from the last bidder and does not reach the instant-win price.
pub proof fn lemma_later_bid_threshold(
    owner_id: u64,
    start_price: i32,
    bin_price: Option<i32>,
    bids: Seq<TendInfo>,
    tender_id: u64,
    price: i32,
)
    requires
        bids.len() > 0,
        tender_id != owner_id,
    ensures
        price <= bids.last().price ==> bid_verdict(
            owner_id,
            start_price,
            bin_price,
            bids,
            tender_id,
            price,
        ) == Err::<bool, TendError>(TendError::LastTendOrLess),
        price > bids.last().price && (tender_id != bids.last().tender_id || reaches_bin_price(
            bin_price,
            price,
        )) ==> bid_verdict(owner_id, start_price, bin_price, bids, tender_id, price) == Ok::<
            bool,
            TendError,
        >(reaches_bin_price(bin_price, price)),
        price > bids.last().price && tender_id == bids.last().tender_id && !reaches_bin_price(
            bin_price,
            price,
        ) ==> bid_verdict(owner_id, start_price, bin_price, bids, tender_id, price) == Err::<
            bool,
            TendError,
        >(TendError::SameTender),
{
}

/// In a well-formed and settled auction house, a bid on a live auction that
/// reaches its instant-win price, by anyone but the owner, is accepted and
/// ends the auction.
pub proof fn lemma_instant_win_accepted(house: AuctionHouse, id: i32, bidder_id: u64, price: i32)
    requires
        house.wf(),
        house.settled(),
        house.is_live(id),
        bidder_id != user_id(house.store.auction(id).owner_id),
        reaches_bin_price(house.store.auction(id).bin_price, price),
    ensures
        house.bid_outcome(id, bidder_id, price) == (BidOutcome::Accepted { ends_auction: true }),
{
    let row = house.store.auction(id);
    let channel = row.channel_id;
    let p = position(house.registry@, channel);
    assert(house.registry@[p].auction == Some(id));
    assert(row_valid(house.store@[auction_index(house.store@, id)]));
    let bids = row.history();
    if bids.len() > 0 {
        assert(!reaches_bin_price(row.bin_price, bids[bids.len() - 1].price));
    }
}

/// Once the channel of an auction has been released from it, every bid on
/// the auction is rejected for want of a live auction, whoever bids and
/// whatever the price.
pub proof fn lemma_no_bid_after_release(
    before: AuctionHouse,
    after: AuctionHouse,
    id: i32,
    bidder_id: u64,
    price: i32,
)
    requires
        before.registry.wf(),
        before.store.contains(id),
        after.store.contains(id),
        after.store.auction(id).channel_id == before.store.auction(id).channel_id,
        after.registry@ == release_rows(
            before.registry@,
            before.store.auction(id).channel_id,
            id,
        ).0,
    ensures
        !after.is_live(id),
        after.bid_outcome(id, bidder_id, price) == (BidOutcome::Rejected {
            reason: RejectReason::NoActiveAuction,
        }),
{
    let channel = before.store.auction(id).channel_id;
    lemma_with_binding(before.registry@, channel, None, channel);
}

/// Two finalizers that race for the same auction both try to release its
/// channel from it. Whichever comes first, exactly one of the two releases
/// clears the binding and answers `true`; the other changes nothing.
pub proof fn lemma_exactly_one_release(rows: Seq<ChannelAuction>, channel: i64, id: i32)
    requires
        distinct_channels(rows),
        bound_auction(rows, channel) == Some(id),
    ensures
        release_rows(rows, channel, id).1,
        bound_auction(release_rows(rows, channel, id).0, channel) is None,
        release_rows(release_rows(rows, channel, id).0, channel, id) == (
            release_rows(rows, channel, id).0,
            false,
        ),
{
    lemma_release_once(rows, channel, id);
    lemma_with_binding(rows, channel, None, channel);
}

/// Two finalizers that race for the same live auction queue exactly one
/// announcement of its end between them, whichever comes first.
pub proof fn lemma_exactly_one_announcement(
    outbox: Seq<Notification>,
    auctions: Seq<AuctionInfo>,
    rows: Seq<ChannelAuction>,
    channel: i64,
    id: i32,
)
    requires
        distinct_channels(rows),
        bound_auction(rows, channel) == Some(id),
    ensures
        outbox_after_finalize(
            outbox_after_finalize(outbox, auctions, rows, channel, id),
            auctions,
            release_rows(rows, channel, id).0,
            channel,
            id,
        ) == outbox.push(end_notice(auctions, ChannelAuction { channel, auction: Some(id) })),
{
    lemma_exactly_one_release(rows, channel, id);
}

/// A finalizer that finds the channel released, or bound to another auction,
/// announces nothing and changes nothing.
pub proof fn lemma_late_finalizer_is_silent(
    outbox: Seq<Notification>,
    auctions: Seq<AuctionInfo>,
    rows: Seq<ChannelAuction>,
    channel: i64,
    id: i32,
)
    requires
        bound_auction(rows, channel) != Some(id),
    ensures
        release_rows(rows, channel, id) == (rows, false),
        outbox_after_finalize(outbox, auctions, rows, channel, id) == outbox,
{
}

/// After a sweep no live auction is due any more, and every auction that
/// was not due is bound as before.
pub proof fn lemma_sweep_leaves_none_due(
    auctions: Seq<AuctionInfo>,
    rows: Seq<ChannelAuction>,
    now: Timestamp,
    i: int,
)
    requires
        0 <= i < rows.len(),
    ensures
        !due(auctions, swept_rows(auctions, rows, now)[i], now),
        !due(auctions, rows[i], now) ==> swept_rows(auctions, rows, now)[i] == rows[i],
        swept_rows(auctions, rows, now)[i].channel == rows[i].channel,
{
}

/// A second sweep at the same time announces nothing and changes nothing:
/// the sweeper ends an auction once.
pub proof fn lemma_second_sweep_is_silent(
    auctions: Seq<AuctionInfo>,
    rows: Seq<ChannelAuction>,
    now: Timestamp,
)
    ensures
        sweep_notices(auctions, swept_rows(auctions, rows, now), now) == Seq::<
            Notification,
        >::empty(),
        swept_rows(auctions, swept_rows(auctions, rows, now), now) == swept_rows(
            auctions,
            rows,
            now,
        ),
{
    let swept = swept_rows(auctions, rows, now);
    lemma_no_notice_without_due(auctions, swept, now);
    assert(swept_rows(auctions, swept, now) =~= swept);
}

/// Where no row is due, a sweep announces nothing.
proof fn lemma_no_notice_without_due(
    auctions: Seq<AuctionInfo>,
    rows: Seq<ChannelAuction>,
    now: Timestamp,
)
    requires
        forall|i: int| 0 <= i < rows.len() ==> !due(auctions, #[trigger] rows[i], now),
    ensures
        sweep_notices(auctions, rows, now) == Seq::<Notification>::empty(),
    decreases rows.len(),
{
    if rows.len() > 0 {
        let front = rows.drop_last();
        assert forall|i: int| 0 <= i < front.len() implies !due(
            auctions,
            #[trigger] front[i],
            now,
        ) by {
            assert(front[i] == rows[i]);
        }
        lemma_no_notice_without_due(auctions, front, now);
        assert(!due(auctions, rows[rows.len() - 1], now));
    }
}

/// A sweep passes over a binding whose auction the store does not hold:
/// the channel stays bound to it, whatever the time.
pub proof fn lemma_sweep_passes_over_unstored(
    auctions: Seq<AuctionInfo>,
    rows: Seq<ChannelAuction>,
    now: Timestamp,
    i: int,
)
    requires
        0 <= i < rows.len(),
        rows[i].auction matches Some(id) && !has_auction(auctions, id),
    ensures
        !due(auctions, rows[i], now),
        swept_rows(auctions, rows, now)[i] == rows[i],
{
}

/// Every auction that is due is ended by the sweep, whatever the other rows
/// hold: its channel is released and its result is among the announcements.
pub proof fn lemma_sweep_ends_every_due(
    auctions: Seq<AuctionInfo>,
    rows: Seq<ChannelAuction>,
    now: Timestamp,
    i: int,
)
    requires
        0 <= i < rows.len(),
        due(auctions, rows[i], now),
    ensures
        swept_rows(auctions, rows, now)[i] == (ChannelAuction {
            channel: rows[i].channel,
            auction: None,
        }),
        sweep_notices(auctions, rows, now).contains(end_notice(auctions, rows[i])),
    decreases rows.len(),
{
    let notices = sweep_notices(auctions, rows, now);
    let front = sweep_notices(auctions, rows.drop_last(), now);
    if i == rows.len() - 1 {
        assert(notices == front.push(end_notice(auctions, rows[i])));
        assert(notices[notices.len() - 1] == end_notice(auctions, rows[i]));
    } else {
        assert(rows.drop_last()[i] == rows[i]);
        lemma_sweep_ends_every_due(auctions, rows.drop_last(), now, i);
        let k = choose|k: int| 0 <= k < front.len() && front[k] == end_notice(auctions, rows[i]);
        assert(notices[k] == front[k]);
    }
}

/// A term whose groups hold the digits of a number and a unit reads back
/// as that number of the unit: the number itself without unit, 64 times it
/// in stacks and 3456 times it in large chests.
pub proof fn lemma_term_reads_back(number: nat)
    requires
        number <= TERM_LIMIT,
    ensures
        term_items(Some(Some(decimal_digits(number))), Some(Some(Seq::<char>::empty())))
            == Some(number),
        term_items(Some(Some(decimal_digits(number))), Some(Some(seq!['s', 't']))) == Some(
            number * 64,
        ),
        term_items(Some(Some(decimal_digits(number))), Some(Some(seq!['l', 'c']))) == Some(
            number * 3456,
        ),
{
    lemma_decimal_digits_value(number);
    assert(decimal_number(decimal_digits(number), TERM_LIMIT as nat) == Some(number));
    assert(unit_factor(Seq::<char>::empty()) == Some(1nat));
    assert(number * 1 == number);
    assert(seq!['s', 't'].len() == 2);
    assert(seq!['l', 'c'].len() == 2);
    assert(seq!['l', 'c'][0] == 'l');
    assert(seq!['s', 't'][0] == 's');
}

} // verus!
