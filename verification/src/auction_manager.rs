use vstd::prelude::*;
use crate::models::{AuctionInfo, Timestamp};
use crate::registry::{bound_auction, release_rows, ChannelRegistry};
use crate::store::{history_of, stored_id, user_id, AuctionStore};

verus! {

/// One bid: who offered which price.
#[derive(Clone, Copy, Debug, PartialEq, Eq, Structural)]
pub struct TendInfo {
    pub tender_id: u64,
    pub price: i32,
}

/// Why no auction could be loaded.
#[derive(Clone, Copy, Debug, PartialEq, Eq, Structural)]
pub enum GetAuctionError {
    NotAuctionChannel,
    NotHeld,
    InvalidId,
}

/// Why a bid was turned down.
#[derive(Clone, Copy, Debug, PartialEq, Eq, Structural)]
pub enum TendError {
    LessThanStartPrice,
    LastTendOrLess,
    SameTender,
    ByOwner,
}

/// A bid of `price` reaches the instant-win threshold, where one is set.
pub open spec fn reaches_bin_price(bin_price: Option<i32>, price: i32) -> bool {
    bin_price matches Some(bin) && price >= bin
}

/// The verdict on a bid of `price` by `tender_id` against an auction with the
/// given owner, prices and bid history: `Ok(ends)` for a bid that is taken,
/// where `ends` says whether it ends the auction, or the first rule it breaks.
/// The owner never bids; a first bid is at least the start price; a later bid
/// is above the last one; and the last bidder bids again only to end the auction.
pub open spec fn bid_verdict(
    owner_id: u64,
    start_price: i32,
    bin_price: Option<i32>,
    bids: Seq<TendInfo>,
    tender_id: u64,
    price: i32,
) -> Result<bool, TendError> {
    let ends = reaches_bin_price(bin_price, price);
    if tender_id == owner_id {
        Err(TendError::ByOwner)
    } else if bids.len() == 0 {
        if price < start_price {
            Err(TendError::LessThanStartPrice)
        } else {
            Ok(ends)
        }
    } else if price <= bids.last().price {
        Err(TendError::LastTendOrLess)
    } else if tender_id == bids.last().tender_id && !ends {
        Err(TendError::SameTender)
    } else {
        Ok(ends)
    }
}

/// What holds of every bid history that the rules let grow from an empty one:
/// the owner is no bidder, the first price is at least the start price, each
/// later price is above the one before it, and a bidder follows themself only
/// with a bid that reaches the instant-win price.
#[verifier::opaque]
pub open spec fn valid_history(
    owner_id: u64,
    start_price: i32,
    bin_price: Option<i32>,
    bids: Seq<TendInfo>,
) -> bool {
    &&& forall|i: int| 0 <= i < bids.len() ==> (#[trigger] bids[i]).tender_id != owner_id
    &&& bids.len() > 0 ==> bids[0].price >= start_price
    &&& forall|i: int| 0 < i < bids.len() ==> bids[i - 1].price < (#[trigger] bids[i]).price
    &&& forall|i: int|
        0 < i < bids.len() ==> bids[i - 1].tender_id != (#[trigger] bids[i]).tender_id
            || reaches_bin_price(bin_price, bids[i].price)
}

/// No bid of the history reaches the instant-win price.
pub open spec fn below_bin_price(bin_price: Option<i32>, bids: Seq<TendInfo>) -> bool {
    forall|i: int| 0 <= i < bids.len() ==> !reaches_bin_price(bin_price, (#[trigger] bids[i]).price)
}

/// The prices of a history rise strictly from each bid to every later one.
pub open spec fn strictly_increasing(bids: Seq<TendInfo>) -> bool {
    forall|i: int, j: int| 0 <= i < j < bids.len() ==> bids[i].price < bids[j].price
}

/// The last bid of a history, if it has one.
pub open spec fn last_bid(bids: Seq<TendInfo>) -> Option<TendInfo> {
    if bids.len() == 0 {
        None
    } else {
        Some(bids.last())
    }
}

/// Pairs up the two stored columns of a bid history.
pub fn pair_up(tenders_id: &Vec<i64>, tends_price: &Vec<i32>) -> (bids: Vec<TendInfo>)
    ensures
        bids@ == history_of(tenders_id@, tends_price@),
{
    let n = if tenders_id.len() <= tends_price.len() {
        tenders_id.len()
    } else {
        tends_price.len()
    };
    let mut bids: Vec<TendInfo> = Vec::new();
    let mut i: usize = 0;
    while i < n
        invariant
            i <= n,
            n <= tenders_id.len(),
            n <= tends_price.len(),
            bids@.len() == i,
            forall|k: int|
                0 <= k < i ==> bids@[k] == (TendInfo {
                    tender_id: user_id(tenders_id@[k]),
                    price: tends_price@[k],
                }),
        decreases n - i,
    {
        bids.push(
            TendInfo {
                tender_id: #[verifier::truncate] (tenders_id[i] as u64),
                price: tends_price[i],
            },
        );
        i += 1;
    }
    bids
}

/// One auction with its bid history, as the bid rules see it.
#[derive(Debug)]
pub struct AuctionManager {
    pub channel_id: u64,
    pub id: i32,
    pub owner_id: u64,
    pub item: String,
    pub unit: String,
    pub tend: Vec<TendInfo>,
    pub end_time: Timestamp,
    pub start_price: i32,
    pub bin_price: Option<i32>,
    pub notice: String,
    pub embed_id: u64,
}

impl AuctionManager {
    /// The bid history obeys the rules of `valid_history`.
    pub open spec fn valid(&self) -> bool {
        valid_history(self.owner_id, self.start_price, self.bin_price, self.tend@)
    }

    /// The verdict of `bid_verdict` on a bid against this auction.
    pub open spec fn verdict(&self, tender_id: u64, price: i32) -> Result<bool, TendError> {
        bid_verdict(self.owner_id, self.start_price, self.bin_price, self.tend@, tender_id, price)
    }

    /// Everything but the bid history is the same in both.
    pub open spec fn same_listing(&self, other: &AuctionManager) -> bool {
        &&& self.channel_id == other.channel_id
        &&& self.id == other.id
        &&& self.owner_id == other.owner_id
        &&& self.item == other.item
        &&& self.unit == other.unit
        &&& self.end_time == other.end_time
        &&& self.start_price == other.start_price
        &&& self.bin_price == other.bin_price
        &&& self.notice == other.notice
        &&& self.embed_id == other.embed_id
    }

    /// The auction is the stored auction `row`, read as the rules see it.
    pub open spec fn loaded_from(&self, row: AuctionInfo) -> bool {
        &&& self.channel_id == user_id(row.channel_id)
        &&& self.id == row.id
        &&& self.owner_id == user_id(row.owner_id)
        &&& self.item == row.item
        &&& self.unit == row.unit
        &&& self.tend@ == row.history()
        &&& self.end_time == row.end_time
        &&& self.start_price == row.start_price
        &&& self.bin_price == row.bin_price
        &&& self.notice == row.notice
        &&& row.embed_id matches Some(embed) && self.embed_id == user_id(embed)
    }

    /// Loads the auction that is live in `channel_id`.
    pub fn from_channel(
        registry: &ChannelRegistry,
        store: &AuctionStore,
        channel_id: u64,
    ) -> (result: Result<AuctionManager, GetAuctionError>)
        requires
            registry.wf(),
            store.wf(),
            bound_auction(registry@, stored_id(channel_id)) matches Some(id) ==> (store.contains(
                id,
            ) ==> store.auction(id).embed_id is Some),
        ensures
            match bound_auction(registry@, stored_id(channel_id)) {
                None => result == Err::<AuctionManager, GetAuctionError>(GetAuctionError::NotHeld),
                Some(id) => match result {
                    Ok(manager) => store.contains(id) && manager.loaded_from(store.auction(id)),
                    Err(e) => e == GetAuctionError::InvalidId && !store.contains(id),
                },
            },
    {
        match registry.lookup(#[verifier::truncate] (channel_id as i64)) {
            Some(auction_id) => AuctionManager::from_id(store, auction_id),
            None => Err(GetAuctionError::NotHeld),
        }
    }

    /// Loads auction `auction_id` from the store, which must have recorded
    /// the auction's message.
    pub fn from_id(store: &AuctionStore, auction_id: i32) -> (result: Result<
        AuctionManager,
        GetAuctionError,
    >)
        requires
            store.wf(),
            store.contains(auction_id) ==> store.auction(auction_id).embed_id is Some,
        ensures
            match result {
                Ok(manager) => store.contains(auction_id) && manager.loaded_from(
                    store.auction(auction_id),
                ),
                Err(e) => e == GetAuctionError::InvalidId && !store.contains(auction_id),
            },
    {
        match store.get_auction(auction_id) {
            Some(info) => {
                let embed_id = #[verifier::truncate] (info.embed_id.unwrap() as u64);
                Ok(
                    AuctionManager {
                        channel_id: #[verifier::truncate] (info.channel_id as u64),
                        id: info.id,
                        owner_id: #[verifier::truncate] (info.owner_id as u64),
                        item: info.item.clone(),
                        unit: info.unit.clone(),
                        tend: pair_up(&info.tenders_id, &info.tends_price),
                        end_time: info.end_time,
                        start_price: info.start_price,
                        bin_price: info.bin_price,
                        notice: info.notice.clone(),
                        embed_id,
                    },
                )
            },
            None => Err(GetAuctionError::InvalidId),
        }
    }

    /// The two columns under which the store keeps the bid history.
    pub fn bid_columns(&self) -> (columns: (Vec<i64>, Vec<i32>))
        ensures
            columns.0@.len() == self.tend@.len(),
            columns.1@.len() == self.tend@.len(),
            forall|i: int|
                0 <= i < self.tend@.len() ==> columns.0@[i] == stored_id(self.tend@[i].tender_id)
                    && columns.1@[i] == self.tend@[i].price,
    {
        let mut tenders_id: Vec<i64> = Vec::new();
        let mut tends_price: Vec<i32> = Vec::new();
        let mut i: usize = 0;
        while i < self.tend.len()
            invariant
                i <= self.tend.len(),
                tenders_id@.len() == i,
                tends_price@.len() == i,
                forall|k: int|
                    0 <= k < i ==> tenders_id@[k] == stored_id(self.tend@[k].tender_id)
                        && tends_price@[k] == self.tend@[k].price,
            decreases self.tend.len() - i,
        {
            let bid = self.tend[i];
            tenders_id.push(#[verifier::truncate] (bid.tender_id as i64));
            tends_price.push(bid.price);
            i += 1;
        }
        (tenders_id, tends_price)
    }

    /// Releases the auction's channel from the auction, and says whether this
    /// call was the one that ended it.
    pub fn finish(&self, registry: &mut ChannelRegistry) -> (released: bool)
        requires
            old(registry).wf(),
        ensures
            final(registry).wf(),
            (final(registry)@, released) == release_rows(
                old(registry)@,
                stored_id(self.channel_id),
                self.id,
            ),
    {
        registry.release(#[verifier::truncate] (self.channel_id as i64), self.id)
    }

    /// Judges a bid and, where it is taken, appends it to the history.
    /// Returns whether the bid ends the auction.
    pub fn tend(&mut self, tender_id: u64, tend_price: i32) -> (result: Result<bool, TendError>)
        ensures
            result == old(self).verdict(tender_id, tend_price),
            final(self).same_listing(old(self)),
            result is Ok ==> final(self).tend@ == old(self).tend@.push(
                TendInfo { tender_id, price: tend_price },
            ),
            result is Err ==> final(self).tend@ == old(self).tend@,
            old(self).valid() ==> final(self).valid(),
    {
        proof {
            reveal(valid_history);
        }
        if tender_id == self.owner_id {
            return Err(TendError::ByOwner);
        }
        let mut finish = false;
        if let Some(bin_price) = self.bin_price {
            if tend_price >= bin_price {
                finish = true;
            }
        }
        let n = self.tend.len();
        if n > 0 {
            let last = self.tend[n - 1];
            if tend_price <= last.price {
                return Err(TendError::LastTendOrLess);
            } else if tender_id == last.tender_id && !finish {
                return Err(TendError::SameTender);
            }
        } else {
            if tend_price < self.start_price {
                return Err(TendError::LessThanStartPrice);
            }
        }
        self.tend.push(TendInfo { tender_id, price: tend_price });
        Ok(finish)
    }
}

} // verus!
