use vstd::prelude::*;
use crate::auction_manager::{
    below_bin_price, bid_verdict, last_bid, reaches_bin_price, valid_history, AuctionManager,
    TendError, TendInfo,
};
use crate::models::{AuctionInfo, ChannelAuction, NewAuctionInfo, Timestamp};
use crate::registry::{
    bound_auction, has_channel, lemma_position_unique, lemma_with_binding, position,
    release_rows, with_binding, ChannelRegistry,
};
use crate::store::{
    appended, auction_index, has_auction, lemma_auction_index_unique, lemma_extended,
    lemma_same_ids, lemma_user_id_round_trip, listing_verdict, same_ids, stored_id, user_id,
    AuctionStore, CreateError,
};

verus! {

/// Why a bid was rejected.
#[derive(Clone, Copy, Debug, PartialEq, Eq, Structural)]
pub enum RejectReason {
    NoActiveAuction,
    ByOwner,
    BelowStartPrice,
    NotAboveLast,
    SameBidder,
}

/// What became of a bid.
#[derive(Clone, Copy, Debug, PartialEq, Eq, Structural)]
pub enum BidOutcome {
    Accepted { ends_auction: bool },
    Rejected { reason: RejectReason },
}

/// Something to announce in a channel.
#[derive(Clone, Copy, Debug, PartialEq, Eq, Structural)]
pub enum Notification {
    /// A bid was taken.
    Bid { channel_id: u64, bidder_id: u64, price: i32, ends_auction: bool },
    /// The auction of the channel has ended, with its last bid as the winner.
    Finalized { channel_id: u64, winner: Option<TendInfo> },
}

/// Why no auction was opened.
#[derive(Clone, Copy, Debug, PartialEq, Eq, Structural)]
pub enum OpenError {
    /// The channel is not one that holds auctions.
    NotAuctionChannel,
    /// An auction is live in the channel.
    AlreadyHeld { auction: i32 },
    /// The listing breaks a rule of the store.
    Refused { rule: CreateError },
}

/// The rejection that a broken bid rule stands for.
pub open spec fn reject_reason(error: TendError) -> RejectReason {
    match error {
        TendError::ByOwner => RejectReason::ByOwner,
        TendError::LessThanStartPrice => RejectReason::BelowStartPrice,
        TendError::LastTendOrLess => RejectReason::NotAboveLast,
        TendError::SameTender => RejectReason::SameBidder,
    }
}

/// The rejection that a broken bid rule stands for.
pub fn rejection(error: TendError) -> (reason: RejectReason)
    ensures
        reason == reject_reason(error),
{
    match error {
        TendError::ByOwner => RejectReason::ByOwner,
        TendError::LessThanStartPrice => RejectReason::BelowStartPrice,
        TendError::LastTendOrLess => RejectReason::NotAboveLast,
        TendError::SameTender => RejectReason::SameBidder,
    }
}

/// The stored auction obeys the rules on prices and on its bid history.
pub open spec fn row_valid(row: AuctionInfo) -> bool {
    &&& row.start_price >= 1
    &&& row.bin_price matches Some(bin) ==> bin >= row.start_price
    &&& row.tenders_id@.len() == row.tends_price@.len()
    &&& valid_history(user_id(row.owner_id), row.start_price, row.bin_price, row.history())
}

/// Whether the stored auction obeys the rules on prices and on its bid
/// history.
pub fn is_row_valid(row: &AuctionInfo) -> (yes: bool)
    ensures
        yes == row_valid(*row),
{
    proof {
        reveal(valid_history);
    }
    if row.start_price < 1 {
        return false;
    }
    if let Some(bin) = row.bin_price {
        if bin < row.start_price {
            return false;
        }
    }
    let n = row.tends_price.len();
    if row.tenders_id.len() != n {
        return false;
    }
    let owner = #[verifier::truncate] (row.owner_id as u64);
    let ghost bids = row.history();
    if n > 0 && row.tends_price[0] < row.start_price {
        assert(bids[0].price < row.start_price);
        return false;
    }
    let mut i: usize = 0;
    while i < n
        invariant
            i <= n,
            n == row.tends_price@.len(),
            n == row.tenders_id@.len(),
            bids == row.history(),
            owner == user_id(row.owner_id),
            valid_history(owner, row.start_price, row.bin_price, bids.take(i as int)),
            n > 0 ==> bids[0].price >= row.start_price,
        decreases n - i,
    {
        proof {
            reveal(valid_history);
        }
        let bidder = #[verifier::truncate] (row.tenders_id[i] as u64);
        let price = row.tends_price[i];
        assert(bids[i as int] == TendInfo { tender_id: bidder, price });
        if bidder == owner {
            return false;
        }
        if i > 0 {
            let before = #[verifier::truncate] (row.tenders_id[i - 1] as u64);
            let wins = match row.bin_price {
                Some(bin) => price >= bin,
                None => false,
            };
            if row.tends_price[i - 1] >= price || (before == bidder && !wins) {
                assert(bids[i - 1] == TendInfo {
                    tender_id: before,
                    price: row.tends_price@[i - 1],
                });
                return false;
            }
        }
        i += 1;
        proof {
            let part = bids.take(i as int);
            let shorter = bids.take(i - 1);
            assert forall|k: int| 0 <= k < part.len() implies (#[trigger] part[k]).tender_id
                != owner by {
                if k < i - 1 {
                    assert(shorter[k].tender_id != owner);
                }
            }
            assert forall|k: int| 0 < k < part.len() implies part[k - 1].price < (
            #[trigger] part[k]).price && (part[k - 1].tender_id != part[k].tender_id
                || reaches_bin_price(row.bin_price, part[k].price)) by {
                if k < i - 1 {
                    assert(shorter[k - 1].price < shorter[k].price);
                    assert(shorter[k - 1].tender_id != shorter[k].tender_id || reaches_bin_price(
                        row.bin_price,
                        shorter[k].price,
                    ));
                }
            }
        }
    }
    proof {
        assert(bids.take(i as int) == bids);
    }
    true
}

/// The binding of `channel` to `id` is backed by the store: the auction is
/// there, belongs to the channel and has its message recorded.
pub open spec fn backed(auctions: Seq<AuctionInfo>, channel: i64, id: i32) -> bool {
    &&& has_auction(auctions, id)
    &&& auctions[auction_index(auctions, id)].channel_id == channel
    &&& auctions[auction_index(auctions, id)].embed_id is Some
}

/// A bid that the rules take can be appended to the stored columns: its
/// price is above the last stored one.
proof fn lemma_bid_fits(row: AuctionInfo, bidder_id: u64, price: i32)
    requires
        row.tenders_id@.len() == row.tends_price@.len(),
        bid_verdict(
            user_id(row.owner_id),
            row.start_price,
            row.bin_price,
            row.history(),
            bidder_id,
            price,
        ) is Ok,
    ensures
        row.tends_price@.len() > 0 ==> price > row.tends_price@.last(),
{
    if row.tends_price@.len() > 0 {
        assert(row.history().last().price == row.tends_price@.last());
    }
}

/// A stored auction that obeys the rules still does so after a bid that the
/// rules take has been appended to it.
proof fn lemma_row_after_bid(before: AuctionInfo, after: AuctionInfo, bidder_id: u64, price: i32)
    requires
        row_valid(before),
        appended(before, after, bidder_id, price),
        bid_verdict(
            user_id(before.owner_id),
            before.start_price,
            before.bin_price,
            before.history(),
            bidder_id,
            price,
        ) is Ok,
    ensures
        after.history() == before.history().push(TendInfo { tender_id: bidder_id, price }),
        row_valid(after),
{
    reveal(valid_history);
    lemma_user_id_round_trip(bidder_id);
    let bids = before.history();
    let grown = bids.push(TendInfo { tender_id: bidder_id, price });
    assert(after.history() == grown);
    assert forall|i: int| 0 < i < grown.len() implies grown[i - 1].price < (
    #[trigger] grown[i]).price by {
        if i < bids.len() {
            assert(bids[i - 1].price < bids[i].price);
        }
    }
    assert forall|i: int| 0 < i < grown.len() implies grown[i - 1].tender_id != (
    #[trigger] grown[i]).tender_id || reaches_bin_price(
        before.bin_price,
        grown[i].price,
    ) by {
        if i < bids.len() {
            assert(bids[i - 1].tender_id != bids[i].tender_id
                || reaches_bin_price(before.bin_price, bids[i].price));
        }
    }
    assert forall|i: int| 0 <= i < grown.len() implies (#[trigger] grown[i]).tender_id != user_id(
        before.owner_id,
    ) by {
        if i < bids.len() {
            assert(bids[i].tender_id != user_id(before.owner_id));
        }
    }
}

/// A well-formed house stays well formed when one stored auction changes
/// into another that obeys the rules and keeps its identifier, its channel
/// and a recorded message.
proof fn lemma_wf_after_change(before: AuctionHouse, after: AuctionHouse, at: int)
    requires
        before.wf(),
        after.store.wf(),
        after.registry@ == before.registry@,
        same_ids(before.store@, after.store@),
        0 <= at < before.store@.len(),
        forall|i: int|
            0 <= i < before.store@.len() && i != at ==> after.store@[i] == before.store@[i],
        row_valid(after.store@[at]),
        after.store@[at].channel_id == before.store@[at].channel_id,
        before.store@[at].embed_id is Some ==> after.store@[at].embed_id is Some,
    ensures
        after.wf(),
{
    assert forall|i: int| 0 <= i < after.store@.len() implies row_valid(
        #[trigger] after.store@[i],
    ) by {
        if i != at {
            assert(row_valid(before.store@[i]));
        }
    }
    assert forall|i: int| 0 <= i < after.registry@.len() implies ((
    #[trigger] after.registry@[i]).auction matches Some(id) ==> backed(
        after.store@,
        after.registry@[i].channel,
        id,
    )) by {
        if let Some(id) = after.registry@[i].auction {
            assert(backed(before.store@, before.registry@[i].channel, id));
            before.store.lemma_wf();
            lemma_same_ids(before.store@, after.store@, id);
        }
    }
}

/// A well-formed house stays well formed, and a settled one settled, when
/// the binding of one channel is cleared.
proof fn lemma_after_release(before: AuctionHouse, after: AuctionHouse, channel: i64)
    requires
        after.store == before.store,
        after.registry.wf(),
        has_channel(before.registry@, channel),
        after.registry@ == with_binding(before.registry@, channel, None),
    ensures
        before.wf() ==> after.wf(),
        before.settled() ==> after.settled(),
{
    let at = position(before.registry@, channel);
    assert forall|i: int| 0 <= i < after.registry@.len() implies ((
    #[trigger] after.registry@[i]).auction matches Some(id) ==> after.registry@[i]
        == before.registry@[i]) by {
        if i != at {
            assert(after.registry@[i] == before.registry@[i]);
        }
    }
    if before.wf() {
        assert forall|i: int| 0 <= i < after.registry@.len() implies ((
        #[trigger] after.registry@[i]).auction matches Some(id) ==> backed(
            after.store@,
            after.registry@[i].channel,
            id,
        )) by {
            if let Some(id) = after.registry@[i].auction {
                assert(backed(before.store@, before.registry@[i].channel, id));
            }
        }
    }
    if before.settled() {
        assert forall|i: int| 0 <= i < after.registry@.len() implies ((
        #[trigger] after.registry@[i]).auction matches Some(id) ==> below_bin_price(
            after.store.auction(id).bin_price,
            after.store.auction(id).history(),
        )) by {
            if let Some(id) = after.registry@[i].auction {
                assert(before.registry@[i].auction == Some(id));
            }
        }
    }
}

/// In a well-formed house a channel that is bound to an auction is the
/// channel of that auction, and the auction is live.
proof fn lemma_bound_is_live(house: AuctionHouse, channel: i64, id: i32)
    requires
        house.wf(),
        bound_auction(house.registry@, channel) == Some(id),
    ensures
        has_channel(house.registry@, channel),
        backed(house.store@, channel, id),
        house.is_live(id),
        row_valid(house.store.auction(id)),
{
    let p = position(house.registry@, channel);
    assert(house.registry@[p].auction == Some(id));
    assert(backed(house.store@, house.registry@[p].channel, id));
    assert(row_valid(house.store@[auction_index(house.store@, id)]));
}

/// A settled house stays settled when a bid that does not reach the
/// instant-win price is appended to one of its auctions.
proof fn lemma_settled_after_bid(
    before: AuctionHouse,
    after: AuctionHouse,
    id: i32,
    bidder_id: u64,
    price: i32,
)
    requires
        before.wf(),
        before.settled(),
        before.store.contains(id),
        after.registry@ == before.registry@,
        same_ids(before.store@, after.store@),
        forall|i: int|
            0 <= i < before.store@.len() && i != auction_index(before.store@, id)
                ==> after.store@[i] == before.store@[i],
        appended(before.store.auction(id), after.store.auction(id), bidder_id, price),
        !reaches_bin_price(before.store.auction(id).bin_price, price),
    ensures
        after.settled(),
{
    before.store.lemma_wf();
    lemma_user_id_round_trip(bidder_id);
    let at = auction_index(before.store@, id);
    assert forall|i: int| 0 <= i < after.registry@.len() implies ((
    #[trigger] after.registry@[i]).auction matches Some(bound) ==> below_bin_price(
        after.store.auction(bound).bin_price,
        after.store.auction(bound).history(),
    )) by {
        if let Some(bound) = after.registry@[i].auction {
            assert(backed(before.store@, before.registry@[i].channel, bound));
            lemma_same_ids(before.store@, after.store@, bound);
            let k = auction_index(before.store@, bound);
            assert(below_bin_price(
                before.store.auction(bound).bin_price,
                before.store.auction(bound).history(),
            ));
            if k == at {
                let old_bids = before.store@[at].history();
                let new_bids = after.store@[at].history();
                assert(bound == id);
                assert(new_bids == old_bids.push(TendInfo { tender_id: bidder_id, price }));
                assert forall|j: int| 0 <= j < new_bids.len() implies !reaches_bin_price(
                    after.store@[at].bin_price,
                    (#[trigger] new_bids[j]).price,
                ) by {
                    if j < old_bids.len() {
                        assert(!reaches_bin_price(before.store@[at].bin_price, old_bids[j].price));
                    }
                }
            } else {
                assert(after.store@[k] == before.store@[k]);
            }
        }
    }
}

/// A settled house is settled again once an auction that took a bid has
/// been released from its channel.
proof fn lemma_settled_after_end(
    before: AuctionHouse,
    recorded: AuctionHouse,
    after: AuctionHouse,
    id: i32,
    channel: i64,
)
    requires
        before.wf(),
        recorded.wf(),
        before.store.contains(id),
        before.store.auction(id).channel_id == channel,
        recorded.registry@ == before.registry@,
        same_ids(before.store@, recorded.store@),
        forall|i: int|
            0 <= i < before.store@.len() && i != auction_index(before.store@, id)
                ==> recorded.store@[i] == before.store@[i],
        after.store == recorded.store,
        has_channel(before.registry@, channel),
        after.registry@ == with_binding(before.registry@, channel, None),
    ensures
        before.settled() ==> after.settled(),
{
    before.store.lemma_wf();
    let at = auction_index(before.store@, id);
    let row_at = position(before.registry@, channel);
    if before.settled() {
        assert forall|i: int| 0 <= i < after.registry@.len() implies ((
        #[trigger] after.registry@[i]).auction matches Some(bound) ==> below_bin_price(
            after.store.auction(bound).bin_price,
            after.store.auction(bound).history(),
        )) by {
            if let Some(bound) = after.registry@[i].auction {
                assert(i != row_at);
                assert(after.registry@[i] == before.registry@[i]);
                assert(backed(before.store@, before.registry@[i].channel, bound));
                lemma_same_ids(before.store@, recorded.store@, bound);
                let k = auction_index(before.store@, bound);
                if k == at {
                    lemma_position_unique(before.registry@, i);
                    assert(false);
                } else {
                    assert(recorded.store@[k] == before.store@[k]);
                }
            }
        }
    }
}

/// The announcements after a finalizer has tried to end auction `id` in
/// `channel`: one more, of the result with the last stored bid as the winner,
/// where its release clears the binding, and the same as before where not.
pub open spec fn outbox_after_finalize(
    outbox: Seq<Notification>,
    auctions: Seq<AuctionInfo>,
    rows: Seq<ChannelAuction>,
    channel: i64,
    id: i32,
) -> Seq<Notification> {
    if release_rows(rows, channel, id).1 {
        outbox.push(end_notice(auctions, ChannelAuction { channel, auction: Some(id) }))
    } else {
        outbox
    }
}

/// The binding is of an auction that the store holds and whose end time is
/// not after `now`.
pub open spec fn due(auctions: Seq<AuctionInfo>, row: ChannelAuction, now: Timestamp) -> bool {
    row.auction matches Some(id) && has_auction(auctions, id) && auctions[auction_index(
        auctions,
        id,
    )].end_time.not_after(now)
}

/// The row after a sweep at `now`: cleared where its auction is due.
pub open spec fn swept_row(
    auctions: Seq<AuctionInfo>,
    row: ChannelAuction,
    now: Timestamp,
) -> ChannelAuction {
    if due(auctions, row, now) {
        ChannelAuction { channel: row.channel, auction: None }
    } else {
        row
    }
}

/// The rows after a sweep at `now`.
pub open spec fn swept_rows(
    auctions: Seq<AuctionInfo>,
    rows: Seq<ChannelAuction>,
    now: Timestamp,
) -> Seq<ChannelAuction> {
    Seq::new(rows.len(), |i: int| swept_row(auctions, rows[i], now))
}

/// The winner of auction `id`: its last stored bid, and nobody where it has
/// no bid or the store holds no such auction.
pub open spec fn winner_of(auctions: Seq<AuctionInfo>, id: i32) -> Option<TendInfo> {
    if has_auction(auctions, id) {
        last_bid(auctions[auction_index(auctions, id)].history())
    } else {
        None
    }
}

/// The announcement that ends the auction of a bound row, with its winner.
pub open spec fn end_notice(auctions: Seq<AuctionInfo>, row: ChannelAuction) -> Notification {
    match row.auction {
        Some(id) => Notification::Finalized {
            channel_id: user_id(row.channel),
            winner: winner_of(auctions, id),
        },
        None => Notification::Finalized { channel_id: user_id(row.channel), winner: None },
    }
}

/// The announcements of a sweep at `now`: one for each row whose auction is
/// due, in the order of the rows.
pub open spec fn sweep_notices(
    auctions: Seq<AuctionInfo>,
    rows: Seq<ChannelAuction>,
    now: Timestamp,
) -> Seq<Notification>
    decreases rows.len(),
{
    if rows.len() == 0 {
        Seq::empty()
    } else {
        let rest = sweep_notices(auctions, rows.drop_last(), now);
        if due(auctions, rows.last(), now) {
            rest.push(end_notice(auctions, rows.last()))
        } else {
            rest
        }
    }
}

/// The stored auction that a new listing becomes once it is opened under
/// identifier `id` and announced by message `embed_id`.
pub open spec fn opened(new: NewAuctionInfo, id: i32, embed_id: u64, row: AuctionInfo) -> bool {
    &&& row.id == id
    &&& row.channel_id == new.channel_id
    &&& row.owner_id == new.owner_id
    &&& row.item == new.item
    &&& row.end_time == new.end_time
    &&& row.start_price == new.start_price
    &&& row.bin_price == new.bin_price
    &&& row.unit == new.unit
    &&& row.notice == new.notice
    &&& row.embed_id == Some(stored_id(embed_id))
    &&& row.tenders_id@.len() == 0
    &&& row.tends_price@.len() == 0
}

/// A well-formed house stays well formed, and a settled one settled, when a
/// new auction without bids is stored at the end and bound to its channel,
/// which was free.
proof fn lemma_wf_after_open(before: AuctionHouse, after: AuctionHouse, channel: i64, id: i32)
    requires
        before.wf(),
        after.store.wf(),
        after.registry.wf(),
        after.store@.len() == before.store@.len() + 1,
        forall|i: int| 0 <= i < before.store@.len() ==> after.store@[i] == before.store@[i],
        after.store@.last().id == id,
        after.store@.last().channel_id == channel,
        after.store@.last().embed_id is Some,
        after.store@.last().tenders_id@.len() == 0,
        after.store@.last().tends_price@.len() == 0,
        listing_verdict(after.store@.last().start_price, after.store@.last().bin_price) is Ok,
        has_channel(before.registry@, channel),
        after.registry@ == with_binding(before.registry@, channel, Some(id)),
    ensures
        after.wf(),
        before.settled() ==> after.settled(),
        after.is_live(id),
{
    reveal(valid_history);
    after.store.lemma_wf();
    let last = after.store@.len() - 1;
    let at = position(before.registry@, channel);
    lemma_auction_index_unique(after.store@, last);
    lemma_with_binding(before.registry@, channel, Some(id), channel);
    assert(after.store@.last().history().len() == 0);
    assert forall|i: int| 0 <= i < after.store@.len() implies row_valid(
        #[trigger] after.store@[i],
    ) by {
        if i < last {
            assert(row_valid(before.store@[i]));
        }
    }
    assert forall|i: int| 0 <= i < after.registry@.len() implies ((
    #[trigger] after.registry@[i]).auction matches Some(bound) ==> backed(
        after.store@,
        after.registry@[i].channel,
        bound,
    ) && (before.settled() ==> below_bin_price(
        after.store.auction(bound).bin_price,
        after.store.auction(bound).history(),
    ))) by {
        if let Some(bound) = after.registry@[i].auction {
            if i != at {
                assert(after.registry@[i] == before.registry@[i]);
                assert(backed(before.store@, before.registry@[i].channel, bound));
                lemma_extended(before.store@, after.store@, bound);
            }
        }
    }
}

/// The verdict on a channel that is to take a new auction: it is one that
/// holds auctions, and none is live there.
pub open spec fn channel_verdict(rows: Seq<ChannelAuction>, channel: i64) -> Result<(), OpenError> {
    if !has_channel(rows, channel) {
        Err(OpenError::NotAuctionChannel)
    } else if let Some(auction) = bound_auction(rows, channel) {
        Err(OpenError::AlreadyHeld { auction })
    } else {
        Ok(())
    }
}

/// The auction house: the stored auctions, the channel bindings, and the
/// announcements that are waiting to be sent.
#[derive(Debug)]
pub struct AuctionHouse {
    pub store: AuctionStore,
    pub registry: ChannelRegistry,
    pub outbox: Vec<Notification>,
}

impl AuctionHouse {
    /// Store and registry are well formed, every stored auction obeys the
    /// rules, and every binding is backed by the store.
    pub open spec fn wf(&self) -> bool {
        &&& self.store.wf()
        &&& self.registry.wf()
        &&& forall|i: int| 0 <= i < self.store@.len() ==> row_valid(#[trigger] self.store@[i])
        &&& forall|i: int|
            0 <= i < self.registry@.len() ==> ((#[trigger] self.registry@[i]).auction matches Some(
                id,
            ) ==> backed(self.store@, self.registry@[i].channel, id))
    }

    /// No live auction holds a bid that reaches its instant-win price.
    pub open spec fn settled(&self) -> bool {
        forall|i: int|
            0 <= i < self.registry@.len() ==> ((#[trigger] self.registry@[i]).auction matches Some(
                id,
            ) ==> below_bin_price(self.store.auction(id).bin_price, self.store.auction(id).history()))
    }

    /// Auction `id` is stored and its channel is bound to it.
    pub open spec fn is_live(&self, id: i32) -> bool {
        self.store.contains(id) && bound_auction(self.registry@, self.store.auction(id).channel_id)
            == Some(id)
    }

    /// What becomes of a bid of `price` by `bidder_id` on auction `id`: it is
    /// rejected where the auction is not live, and otherwise judged by the
    /// bid rules against the stored history.
    pub open spec fn bid_outcome(&self, id: i32, bidder_id: u64, price: i32) -> BidOutcome {
        if !self.is_live(id) {
            BidOutcome::Rejected { reason: RejectReason::NoActiveAuction }
        } else {
            let row = self.store.auction(id);
            match bid_verdict(
                user_id(row.owner_id),
                row.start_price,
                row.bin_price,
                row.history(),
                bidder_id,
                price,
            ) {
                Ok(ends_auction) => BidOutcome::Accepted { ends_auction },
                Err(error) => BidOutcome::Rejected { reason: reject_reason(error) },
            }
        }
    }

    /// A house of the given store and registry with nothing to announce,
    /// provided that every stored auction obeys the rules and every binding
    /// is backed by the store.
    pub fn from_parts(store: AuctionStore, registry: ChannelRegistry) -> (house: Option<
        AuctionHouse,
    >)
        requires
            store.wf(),
            registry.wf(),
        ensures
            house is Some <==> {
                &&& forall|i: int| 0 <= i < store@.len() ==> row_valid(#[trigger] store@[i])
                &&& forall|i: int|
                    0 <= i < registry@.len() ==> ((#[trigger] registry@[i]).auction matches Some(
                        id,
                    ) ==> backed(store@, registry@[i].channel, id))
            },
            house matches Some(h) ==> h.wf() && h.store == store && h.registry == registry
                && h.outbox@.len() == 0,
    {
        let auctions = store.rows();
        let mut i: usize = 0;
        while i < auctions.len()
            invariant
                i <= auctions.len(),
                auctions@ == store@,
                forall|k: int| 0 <= k < i ==> row_valid(#[trigger] store@[k]),
            decreases auctions.len() - i,
        {
            if !is_row_valid(&auctions[i]) {
                return None;
            }
            i += 1;
        }
        let rows = registry.rows();
        let mut j: usize = 0;
        while j < rows.len()
            invariant
                j <= rows.len(),
                rows@ == registry@,
                store.wf(),
                forall|k: int|
                    0 <= k < j ==> ((#[trigger] registry@[k]).auction matches Some(id) ==> backed(
                        store@,
                        registry@[k].channel,
                        id,
                    )),
            decreases rows.len() - j,
        {
            if let Some(id) = rows[j].auction {
                let is_backed = match store.get_auction(id) {
                    Some(row) => row.channel_id == rows[j].channel && row.embed_id.is_some(),
                    None => false,
                };
                if !is_backed {
                    assert(!backed(store@, registry@[j as int].channel, id));
                    return None;
                }
            }
            j += 1;
        }
        Some(AuctionHouse { store, registry, outbox: Vec::new() })
    }

    /// A house with no auction, no channel and nothing to announce.
    pub fn new() -> (house: AuctionHouse)
        ensures
            house.wf(),
            house.settled(),
            house.store@.len() == 0,
            house.store.next_id() == 1,
            house.registry@.len() == 0,
            house.outbox@.len() == 0,
    {
        AuctionHouse { store: AuctionStore::new(), registry: ChannelRegistry::new(), outbox: Vec::new() }
    }

    /// The channel of auction `id`, where the auction is live.
    pub fn live_channel(&self, id: i32) -> (channel: Option<i64>)
        requires
            self.wf(),
        ensures
            channel is Some <==> self.is_live(id),
            channel matches Some(c) ==> {
                &&& c == self.store.auction(id).channel_id
                &&& backed(self.store@, c, id)
                &&& row_valid(self.store.auction(id))
                &&& 0 <= auction_index(self.store@, id) < self.store@.len()
            },
    {
        let channel = match self.store.get_auction(id) {
            Some(row) => row.channel_id,
            None => {
                return None;
            },
        };
        match self.registry.lookup(channel) {
            Some(bound) => {
                if bound == id {
                    proof {
                        let p = position(self.registry@, channel);
                        assert(self.registry@[p].auction == Some(id));
                        assert(backed(self.store@, self.registry@[p].channel, id));
                        assert(row_valid(self.store@[auction_index(self.store@, id)]));
                    }
                    Some(channel)
                } else {
                    None
                }
            },
            None => None,
        }
    }

    /// Judges a bid on auction `auction_id` and, where it is taken, stores
    /// it and queues its announcement. The binding is left as it is: an
    /// auction that took a bid at its instant-win price stays live until a
    /// finalizer releases it.
    pub fn record_bid(&mut self, auction_id: i32, bidder_id: u64, price: i32) -> (outcome:
        BidOutcome)
        requires
            old(self).wf(),
        ensures
            final(self).wf(),
            outcome == old(self).bid_outcome(auction_id, bidder_id, price),
            final(self).registry@ == old(self).registry@,
            final(self).store.next_id() == old(self).store.next_id(),
            same_ids(old(self).store@, final(self).store@),
            forall|i: int|
                0 <= i < old(self).store@.len() && (outcome is Rejected || i != auction_index(
                    old(self).store@,
                    auction_id,
                )) ==> final(self).store@[i] == old(self).store@[i],
            outcome is Rejected ==> final(self).outbox@ == old(self).outbox@,
            outcome matches BidOutcome::Accepted { ends_auction } ==> {
                &&& appended(
                    old(self).store.auction(auction_id),
                    final(self).store.auction(auction_id),
                    bidder_id,
                    price,
                )
                &&& final(self).outbox@ == old(self).outbox@.push(
                    Notification::Bid {
                        channel_id: user_id(old(self).store.auction(auction_id).channel_id),
                        bidder_id,
                        price,
                        ends_auction,
                    },
                )
            },
    {
        let channel = match self.live_channel(auction_id) {
            Some(channel) => channel,
            None => {
                return BidOutcome::Rejected { reason: RejectReason::NoActiveAuction };
            },
        };
        let ghost before = self.store.auction(auction_id);
        let ghost at = auction_index(self.store@, auction_id);
        let mut manager = AuctionManager::from_id(&self.store, auction_id).unwrap();
        let ends_auction = match manager.tend(bidder_id, price) {
            Ok(ends_auction) => ends_auction,
            Err(error) => {
                return BidOutcome::Rejected { reason: rejection(error) };
            },
        };
        proof {
            lemma_bid_fits(before, bidder_id, price);
        }
        let stored = self.store.append_bid(auction_id, bidder_id, price);
        assert(stored is Ok);
        self.outbox.push(
            Notification::Bid {
                channel_id: #[verifier::truncate] (channel as u64),
                bidder_id,
                price,
                ends_auction,
            },
        );
        proof {
            old(self).store.lemma_wf();
            lemma_same_ids(old(self).store@, self.store@, auction_id);
            lemma_row_after_bid(before, self.store@[at], bidder_id, price);
            lemma_wf_after_change(*old(self), *self, at);
        }
        BidOutcome::Accepted { ends_auction }
    }

    /// Tries to end auction `auction_id` in `channel`: releases the channel
    /// from the auction, and where this call is the one that cleared the
    /// binding, queues the announcement of the result, with the last stored
    /// bid as the winner. Says whether it was. The binding need not be
    /// backed by the store: an auction that is not stored ends without a
    /// winner.
    pub fn finalize(&mut self, channel: i64, auction_id: i32) -> (released: bool)
        requires
            old(self).store.wf(),
            old(self).registry.wf(),
        ensures
            final(self).registry.wf(),
            old(self).wf() ==> final(self).wf(),
            old(self).settled() ==> final(self).settled(),
            final(self).store == old(self).store,
            (final(self).registry@, released) == release_rows(
                old(self).registry@,
                channel,
                auction_id,
            ),
            final(self).outbox@ == outbox_after_finalize(
                old(self).outbox@,
                old(self).store@,
                old(self).registry@,
                channel,
                auction_id,
            ),
    {
        let released = self.registry.release(channel, auction_id);
        if released {
            proof {
                lemma_after_release(*old(self), *self, channel);
            }
            let winner = match self.store.get_auction(auction_id) {
                Some(row) => row.last_bid(),
                None => None,
            };
            self.outbox.push(
                Notification::Finalized {
                    channel_id: #[verifier::truncate] (channel as u64),
                    winner,
                },
            );
        }
        released
    }

    /// Submits a bid: judges it, stores it where it is taken and queues its
    /// announcement; a bid that reaches the instant-win price then ends the
    /// auction, and the result is announced with that bid as the winner.
    pub fn submit_bid(&mut self, auction_id: i32, bidder_id: u64, price: i32) -> (outcome:
        BidOutcome)
        requires
            old(self).wf(),
        ensures
            final(self).wf(),
            old(self).settled() ==> final(self).settled(),
            outcome == old(self).bid_outcome(auction_id, bidder_id, price),
            final(self).store.next_id() == old(self).store.next_id(),
            same_ids(old(self).store@, final(self).store@),
            forall|i: int|
                0 <= i < old(self).store@.len() && (outcome is Rejected || i != auction_index(
                    old(self).store@,
                    auction_id,
                )) ==> final(self).store@[i] == old(self).store@[i],
            outcome is Rejected ==> final(self).outbox@ == old(self).outbox@ && final(self).registry@ == old(self).registry@,
            outcome matches BidOutcome::Accepted { ends_auction } ==> {
                let channel = old(self).store.auction(auction_id).channel_id;
                let bid = Notification::Bid {
                    channel_id: user_id(channel),
                    bidder_id,
                    price,
                    ends_auction,
                };
                let end = Notification::Finalized {
                    channel_id: user_id(channel),
                    winner: Some(TendInfo { tender_id: bidder_id, price }),
                };
                &&& appended(
                    old(self).store.auction(auction_id),
                    final(self).store.auction(auction_id),
                    bidder_id,
                    price,
                )
                &&& !ends_auction ==> final(self).registry@ == old(self).registry@ && final(self).outbox@ == old(self).outbox@.push(bid)
                &&& ends_auction ==> final(self).registry@ == with_binding(
                    old(self).registry@,
                    channel,
                    None,
                ) && final(self).outbox@ == old(self).outbox@.push(bid).push(end) && !final(self).is_live(auction_id)
            },
    {
        let outcome = self.record_bid(auction_id, bidder_id, price);
        let ghost recorded = *self;
        proof {
            if outcome is Rejected {
                assert(self.store@ =~= old(self).store@);
            }
        }
        if let BidOutcome::Accepted { ends_auction } = outcome {
            proof {
                old(self).store.lemma_wf();
                lemma_same_ids(old(self).store@, self.store@, auction_id);
                lemma_user_id_round_trip(bidder_id);
            }
            if ends_auction {
                let channel = self.store.get_auction(auction_id).unwrap().channel_id;
                proof {
                    lemma_bound_is_live(*self, channel, auction_id);
                }
                let released = self.finalize(channel, auction_id);
                assert(released);
                proof {
                    lemma_with_binding(recorded.registry@, channel, None, channel);
                    lemma_settled_after_end(*old(self), recorded, *self, auction_id, channel);
                }
            } else {
                proof {
                    if old(self).settled() {
                        lemma_settled_after_bid(*old(self), *self, auction_id, bidder_id, price);
                    }
                }
            }
        }
        outcome
    }

    /// One tick of the sweeper: ends every live auction whose end time is not
    /// after `now`, announcing its last bid as the winner, and leaves the
    /// others alone. A binding whose auction the store does not hold is
    /// passed over, and the sweep goes on with the next. Returns how many
    /// auctions it ended.
    pub fn sweep(&mut self, now: Timestamp) -> (finalized: usize)
        requires
            old(self).store.wf(),
            old(self).registry.wf(),
        ensures
            final(self).registry.wf(),
            old(self).wf() ==> final(self).wf(),
            old(self).settled() ==> final(self).settled(),
            final(self).store == old(self).store,
            final(self).registry@ == swept_rows(old(self).store@, old(self).registry@, now),
            final(self).outbox@ == old(self).outbox@ + sweep_notices(
                old(self).store@,
                old(self).registry@,
                now,
            ),
            finalized == sweep_notices(old(self).store@, old(self).registry@, now).len(),
    {
        let n = self.registry.rows().len();
        let mut finalized: usize = 0;
        let mut i: usize = 0;
        while i < n
            invariant
                i <= n,
                n == old(self).registry@.len(),
                self.store.wf(),
                self.registry.wf(),
                old(self).wf() ==> self.wf(),
                old(self).settled() ==> self.settled(),
                self.store == old(self).store,
                self.registry@ == Seq::new(
                    n as nat,
                    |k: int|
                        if k < i {
                            swept_row(old(self).store@, old(self).registry@[k], now)
                        } else {
                            old(self).registry@[k]
                        },
                ),
                self.outbox@ == old(self).outbox@ + sweep_notices(
                    old(self).store@,
                    old(self).registry@.take(i as int),
                    now,
                ),
                finalized == sweep_notices(
                    old(self).store@,
                    old(self).registry@.take(i as int),
                    now,
                ).len(),
                finalized <= i,
            decreases n - i,
        {
            let ghost rows = self.registry@;
            let ghost notices = sweep_notices(
                old(self).store@,
                old(self).registry@.take(i as int),
                now,
            );
            proof {
                let next = old(self).registry@.take(i + 1);
                assert(next.drop_last() == old(self).registry@.take(i as int));
                assert(next.last() == old(self).registry@[i as int]);
                assert(rows[i as int] == old(self).registry@[i as int]);
            }
            let row = self.registry.rows()[i];
            let mut is_due = false;
            if let Some(id) = row.auction {
                if let Some(auction) = self.store.get_auction(id) {
                    is_due = auction.end_time.le(&now);
                }
            }
            if is_due {
                proof {
                    lemma_position_unique(rows, i as int);
                }
                let released = self.finalize(row.channel, row.auction.unwrap());
                assert(released);
                finalized += 1;
                proof {
                    assert(self.registry@ == rows.update(
                        i as int,
                        ChannelAuction { channel: row.channel, auction: None },
                    ));
                    assert(self.outbox@ == old(self).outbox@ + notices.push(
                        end_notice(old(self).store@, row),
                    ));
                }
            }
            i += 1;
            proof {
                assert(self.registry@ =~= Seq::new(
                    n as nat,
                    |k: int|
                        if k < i {
                            swept_row(old(self).store@, old(self).registry@[k], now)
                        } else {
                            old(self).registry@[k]
                        },
                ));
            }
        }
        proof {
            assert(old(self).registry@.take(i as int) == old(self).registry@);
            assert(self.registry@ =~= swept_rows(old(self).store@, old(self).registry@, now));
        }
        finalized
    }

    /// Judges whether `channel` can take a new auction.
    pub fn check_channel(&self, channel: i64) -> (result: Result<(), OpenError>)
        requires
            self.registry.wf(),
        ensures
            result == channel_verdict(self.registry@, channel),
    {
        if !self.registry.is_registered(channel) {
            return Err(OpenError::NotAuctionChannel);
        }
        match self.registry.lookup(channel) {
            Some(auction) => Err(OpenError::AlreadyHeld { auction }),
            None => Ok(()),
        }
    }

    /// The verdict on opening a listing: its channel can take an auction,
    /// the listing obeys the rules of the store, and the store has an
    /// identifier left.
    pub open spec fn open_verdict(&self, channel: i64, start_price: i32, bin_price: Option<i32>)
        -> Result<(), OpenError> {
        if let Err(e) = channel_verdict(self.registry@, channel) {
            Err(e)
        } else if let Err(rule) = listing_verdict(start_price, bin_price) {
            Err(OpenError::Refused { rule })
        } else if self.store.next_id() == i32::MAX {
            Err(OpenError::Refused { rule: CreateError::IdsExhausted })
        } else {
            Ok(())
        }
    }

    /// Makes `channel` one that holds auctions, with none live, unless it is
    /// one already. Returns whether it was new.
    pub fn register_channel(&mut self, channel: i64) -> (added: bool)
        requires
            old(self).wf(),
        ensures
            final(self).wf(),
            old(self).settled() ==> final(self).settled(),
            final(self).store == old(self).store,
            final(self).outbox == old(self).outbox,
            added == !has_channel(old(self).registry@, channel),
            added ==> final(self).registry@ == old(self).registry@.push(
                ChannelAuction { channel, auction: None },
            ),
            !added ==> final(self).registry@ == old(self).registry@,
    {
        let added = self.registry.register(channel);
        proof {
            assert forall|i: int| 0 <= i < self.registry@.len() implies ((
            #[trigger] self.registry@[i]).auction matches Some(bound) ==> self.registry@[i]
                == old(self).registry@[i] && i < old(self).registry@.len()) by {}
        }
        added
    }

    /// Opens an auction: stores the listing under a fresh identifier, records
    /// the message that announces it and binds its channel to it. Returns the
    /// identifier.
    pub fn open_auction(&mut self, new: NewAuctionInfo, embed_id: u64) -> (result: Result<
        i32,
        OpenError,
    >)
        requires
            old(self).wf(),
        ensures
            final(self).wf(),
            old(self).settled() ==> final(self).settled(),
            final(self).outbox == old(self).outbox,
            match result {
                Ok(id) => {
                    &&& old(self).open_verdict(new.channel_id, new.start_price, new.bin_price)
                        is Ok
                    &&& id == old(self).store.next_id()
                    &&& final(self).store.next_id() == id + 1
                    &&& final(self).store@.len() == old(self).store@.len() + 1
                    &&& forall|i: int|
                        0 <= i < old(self).store@.len() ==> final(self).store@[i] == old(
                            self,
                        ).store@[i]
                    &&& opened(new, id, embed_id, final(self).store@.last())
                    &&& final(self).store.auction(id) == final(self).store@.last()
                    &&& final(self).registry@ == with_binding(
                        old(self).registry@,
                        new.channel_id,
                        Some(id),
                    )
                    &&& final(self).is_live(id)
                },
                Err(e) => {
                    &&& old(self).open_verdict(new.channel_id, new.start_price, new.bin_price)
                        == Err::<(), OpenError>(e)
                    &&& final(self).store@ == old(self).store@
                    &&& final(self).store.next_id() == old(self).store.next_id()
                    &&& final(self).registry@ == old(self).registry@
                },
            },
    {
        let channel = new.channel_id;
        if let Err(e) = self.check_channel(channel) {
            return Err(e);
        }
        let id = match self.store.create_auction(new) {
            Ok(id) => id,
            Err(rule) => {
                return Err(OpenError::Refused { rule });
            },
        };
        let ghost created = self.store@;
        proof {
            self.store.lemma_wf();
            lemma_auction_index_unique(created, created.len() - 1);
            assert(forall|i: int|
                0 <= i < old(self).store@.len() ==> created[i] == created.drop_last()[i]);
        }
        let found = self.store.set_embed(id, embed_id);
        let bound = self.registry.bind(channel, id);
        proof {
            self.store.lemma_wf();
            lemma_auction_index_unique(self.store@, self.store@.len() - 1);
            lemma_wf_after_open(*old(self), *self, channel, id);
        }
        Ok(id)
    }

    /// Hands out the announcements that are waiting, oldest first, and leaves
    /// none behind.
    pub fn take_notifications(&mut self) -> (notices: Vec<Notification>)
        ensures
            notices@ == old(self).outbox@,
            final(self).outbox@.len() == 0,
            final(self).store == old(self).store,
            final(self).registry == old(self).registry,
    {
        let mut notices: Vec<Notification> = Vec::new();
        std::mem::swap(&mut self.outbox, &mut notices);
        notices
    }
}

/// The seconds from `now` to the start of the next minute: 60 at the start
/// of a minute, 1 in its last second.
pub open spec fn to_next_minute(now: Timestamp) -> int {
    60 - now.secs as int % 60
}

/// How long the sweeper waits after a tick that ended at `now`, in seconds:
/// until the next minute starts.
pub fn seconds_to_next_minute(now: Timestamp) -> (seconds: u64)
    ensures
        seconds == to_next_minute(now),
        1 <= seconds <= 60,
{
    let within: i64 = now.secs % 60;
    let second: i64 = if within < 0 {
        within + 60
    } else {
        within
    };
    assert(second == now.secs as int % 60);
    (60 - second) as u64
}

} // verus!
