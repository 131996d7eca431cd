use vstd::prelude::*;
use crate::auction_manager::{last_bid, strictly_increasing, TendInfo};
use crate::models::{AuctionInfo, NewAuctionInfo};

verus! {

/// Why a listing was not stored.
#[derive(Clone, Copy, Debug, PartialEq, Eq, Structural)]
pub enum CreateError {
    /// The start price is below 1.
    StartPriceTooLow,
    /// The instant-win price is below the start price.
    BinPriceBelowStart,
    /// The store has run out of identifiers.
    IdsExhausted,
}

/// Why a bid was not appended.
#[derive(Clone, Copy, Debug, PartialEq, Eq, Structural)]
pub enum Conflict {
    /// The store holds no auction of that identifier.
    UnknownAuction,
    /// The price is not above the last one stored.
    NotAboveLast,
}

/// The identifier of a user as the store keeps it.
pub open spec fn stored_id(id: u64) -> i64 {
    id as i64
}

/// The identifier of a user as the rules see it.
pub open spec fn user_id(stored: i64) -> u64 {
    stored as u64
}

/// Storing an identifier and reading it back gives the identifier.
pub proof fn lemma_user_id_round_trip(id: u64)
    ensures
        user_id(stored_id(id)) == id,
{
    assert((id as i64) as u64 == id) by (bit_vector);
}

/// Reading a stored identifier and storing it again gives the stored one.
pub proof fn lemma_stored_id_round_trip(stored: i64)
    ensures
        stored_id(user_id(stored)) == stored,
{
    assert((stored as u64) as i64 == stored) by (bit_vector);
}

/// The bid history that two stored columns stand for: bidder and price pair
/// up position by position, as far as both columns reach.
pub open spec fn history_of(tenders: Seq<i64>, prices: Seq<i32>) -> Seq<TendInfo> {
    Seq::new(
        if tenders.len() <= prices.len() { tenders.len() } else { prices.len() },
        |i: int| TendInfo { tender_id: user_id(tenders[i]), price: prices[i] },
    )
}

impl AuctionInfo {
    /// The bid history of the stored auction.
    pub open spec fn history(&self) -> Seq<TendInfo> {
        history_of(self.tenders_id@, self.tends_price@)
    }

    /// The last bid of the stored auction, if it has one.
    pub fn last_bid(&self) -> (last: Option<TendInfo>)
        ensures
            last == last_bid(self.history()),
    {
        let n = if self.tenders_id.len() <= self.tends_price.len() {
            self.tenders_id.len()
        } else {
            self.tends_price.len()
        };
        if n == 0 {
            None
        } else {
            Some(
                TendInfo {
                    tender_id: #[verifier::truncate] (self.tenders_id[n - 1] as u64),
                    price: self.tends_price[n - 1],
                },
            )
        }
    }

    /// Whether the two bid columns pair up and the prices rise strictly.
    pub fn is_consistent(&self) -> (yes: bool)
        ensures
            yes == self.consistent(),
    {
        let n = self.tends_price.len();
        if self.tenders_id.len() != n {
            return false;
        }
        let ghost bids = self.history();
        let mut i: usize = 1;
        while i < n
            invariant
                1 <= i,
                n == self.tends_price@.len(),
                n == self.tenders_id@.len(),
                bids == self.history(),
                forall|a: int, b: int| 0 <= a < b < i && b < n ==> bids[a].price < bids[b].price,
            decreases n - i,
        {
            if self.tends_price[i - 1] >= self.tends_price[i] {
                proof {
                    assert(!(bids[i - 1].price < bids[i as int].price));
                }
                return false;
            }
            proof {
                assert forall|a: int, b: int| 0 <= a < b < i + 1 && b < n implies bids[a].price
                    < bids[b].price by {
                    if b == i && a < i - 1 {
                        assert(bids[a].price < bids[i - 1].price);
                    }
                }
            }
            i += 1;
        }
        true
    }

    /// The two bid columns pair up and the prices rise strictly.
    pub open spec fn consistent(&self) -> bool {
        &&& self.tenders_id@.len() == self.tends_price@.len()
        &&& strictly_increasing(self.history())
    }

    /// Everything but the bid columns and the message is the same in both.
    pub open spec fn same_listing(&self, other: &AuctionInfo) -> bool {
        &&& self.id == other.id
        &&& self.channel_id == other.channel_id
        &&& self.owner_id == other.owner_id
        &&& self.item == other.item
        &&& self.end_time == other.end_time
        &&& self.start_price == other.start_price
        &&& self.bin_price == other.bin_price
        &&& self.unit == other.unit
        &&& self.notice == other.notice
    }
}

/// The stored auction that a new listing becomes under identifier `id`.
pub open spec fn listed(new: NewAuctionInfo, id: i32, row: AuctionInfo) -> bool {
    &&& row.id == id
    &&& row.channel_id == new.channel_id
    &&& row.owner_id == new.owner_id
    &&& row.item == new.item
    &&& row.end_time == new.end_time
    &&& row.start_price == new.start_price
    &&& row.bin_price == new.bin_price
    &&& row.unit == new.unit
    &&& row.notice == new.notice
    &&& row.embed_id is None
    &&& row.tenders_id@.len() == 0
    &&& row.tends_price@.len() == 0
}

/// The verdict on a new listing: its start price is at least 1 and its
/// instant-win price, where it has one, at least the start price.
pub open spec fn listing_verdict(start_price: i32, bin_price: Option<i32>) -> Result<
    (),
    CreateError,
> {
    if start_price < 1 {
        Err(CreateError::StartPriceTooLow)
    } else if bin_price matches Some(bin) && bin < start_price {
        Err(CreateError::BinPriceBelowStart)
    } else {
        Ok(())
    }
}

/// The verdict on appending a bid of `price` to auction `id`: the store
/// holds the auction, and the price is above the last one stored for it.
pub open spec fn append_verdict(rows: Seq<AuctionInfo>, id: i32, price: i32) -> Result<
    (),
    Conflict,
> {
    if !has_auction(rows, id) {
        Err(Conflict::UnknownAuction)
    } else {
        let prices = rows[auction_index(rows, id)].tends_price@;
        if prices.len() > 0 && price <= prices.last() {
            Err(Conflict::NotAboveLast)
        } else {
            Ok(())
        }
    }
}

/// `after` is `before` with one more bid at the end of its two columns.
pub open spec fn appended(
    before: AuctionInfo,
    after: AuctionInfo,
    tender_id: u64,
    price: i32,
) -> bool {
    &&& after.same_listing(&before)
    &&& after.embed_id == before.embed_id
    &&& after.tenders_id@ == before.tenders_id@.push(stored_id(tender_id))
    &&& after.tends_price@ == before.tends_price@.push(price)
}

/// No two rows have the same identifier.
pub open spec fn distinct_ids(rows: Seq<AuctionInfo>) -> bool {
    forall|i: int, j: int| 0 <= i < j < rows.len() ==> (#[trigger] rows[i]).id != (
    #[trigger] rows[j]).id
}

/// Some row has identifier `id`.
pub open spec fn has_auction(rows: Seq<AuctionInfo>, id: i32) -> bool {
    exists|i: int| 0 <= i < rows.len() && (#[trigger] rows[i]).id == id
}

/// The index of a row of identifier `id`; meaningful where `has_auction` holds.
pub open spec fn auction_index(rows: Seq<AuctionInfo>, id: i32) -> int {
    choose|i: int| 0 <= i < rows.len() && (#[trigger] rows[i]).id == id
}

/// In rows with distinct identifiers the row of an identifier is the only one.
pub proof fn lemma_auction_index_unique(rows: Seq<AuctionInfo>, i: int)
    requires
        distinct_ids(rows),
        0 <= i < rows.len(),
    ensures
        has_auction(rows, rows[i].id),
        auction_index(rows, rows[i].id) == i,
{
    let id = rows[i].id;
    assert(has_auction(rows, id));
    let p = auction_index(rows, id);
    assert(0 <= p < rows.len() && rows[p].id == id);
    if p < i {
        assert(rows[p].id != rows[i].id);
    } else if i < p {
        assert(rows[i].id != rows[p].id);
    }
}

/// Both sequences hold the same identifiers at the same places.
pub open spec fn same_ids(before: Seq<AuctionInfo>, after: Seq<AuctionInfo>) -> bool {
    &&& after.len() == before.len()
    &&& forall|i: int| 0 <= i < before.len() ==> (#[trigger] after[i]).id == before[i].id
}

/// Rows that keep their identifiers in place keep them distinct, and an
/// identifier is found in the one sequence where it is found in the other.
pub proof fn lemma_same_ids(before: Seq<AuctionInfo>, after: Seq<AuctionInfo>, id: i32)
    requires
        distinct_ids(before),
        same_ids(before, after),
    ensures
        distinct_ids(after),
        has_auction(after, id) == has_auction(before, id),
        has_auction(before, id) ==> auction_index(after, id) == auction_index(before, id),
{
    assert forall|i: int, j: int| 0 <= i < j < after.len() implies (#[trigger] after[i]).id != (
    #[trigger] after[j]).id by {
        assert(before[i].id != before[j].id);
    }
    if has_auction(before, id) {
        let p = auction_index(before, id);
        assert(after[p].id == id);
        lemma_auction_index_unique(after, p);
    } else if has_auction(after, id) {
        let p = auction_index(after, id);
        assert(before[p].id == id);
    }
}

/// Rows added at the end under new identifiers leave every identifier that
/// was there where it was.
pub proof fn lemma_extended(before: Seq<AuctionInfo>, after: Seq<AuctionInfo>, id: i32)
    requires
        distinct_ids(after),
        before.len() <= after.len(),
        forall|i: int| 0 <= i < before.len() ==> (#[trigger] after[i]).id == before[i].id,
        has_auction(before, id),
    ensures
        has_auction(after, id),
        auction_index(after, id) == auction_index(before, id),
{
    let p = auction_index(before, id);
    assert(after[p].id == id);
    lemma_auction_index_unique(after, p);
}

/// The rows can make up a store: their identifiers are positive, differ from
/// each other and leave room for a next one, and every row is consistent.
pub open spec fn loadable(rows: Seq<AuctionInfo>) -> bool {
    &&& distinct_ids(rows)
    &&& forall|i: int|
        0 <= i < rows.len() ==> 1 <= (#[trigger] rows[i]).id < i32::MAX && rows[i].consistent()
}

/// The identifier after the largest among the first `count` rows, and 1
/// where that is larger.
pub open spec fn following_id(rows: Seq<AuctionInfo>, count: int) -> int
    decreases count,
{
    if count <= 0 {
        1
    } else {
        let before = following_id(rows, count - 1);
        if rows[count - 1].id >= before {
            rows[count - 1].id + 1
        } else {
            before
        }
    }
}

/// The store of auctions: every listing ever made, with its bids.
#[derive(Debug)]
pub struct AuctionStore {
    rows: Vec<AuctionInfo>,
    next_id: i32,
}

impl View for AuctionStore {
    type V = Seq<AuctionInfo>;

    closed spec fn view(&self) -> Seq<AuctionInfo> {
        self.rows@
    }
}

impl AuctionStore {
    /// The identifier that the next listing gets.
    pub closed spec fn next_id(&self) -> int {
        self.next_id as int
    }

    /// Identifiers are positive, unique and below the next one to give out,
    /// and every stored auction is consistent.
    pub closed spec fn wf(&self) -> bool {
        &&& 1 <= self.next_id()
        &&& distinct_ids(self@)
        &&& forall|i: int| 0 <= i < self@.len() ==> 1 <= (#[trigger] self@[i]).id < self.next_id()
        &&& forall|i: int| 0 <= i < self@.len() ==> (#[trigger] self@[i]).consistent()
    }

    /// What a well-formed store promises of its rows.
    pub proof fn lemma_wf(&self)
        requires
            self.wf(),
        ensures
            1 <= self.next_id(),
            distinct_ids(self@),
            forall|i: int|
                0 <= i < self@.len() ==> 1 <= (#[trigger] self@[i]).id < self.next_id()
                    && self@[i].consistent(),
    {
    }

    /// The store holds auction `id`.
    pub open spec fn contains(&self, id: i32) -> bool {
        has_auction(self@, id)
    }

    /// The stored auction `id`; meaningful where the store holds it.
    pub open spec fn auction(&self, id: i32) -> AuctionInfo {
        self@[auction_index(self@, id)]
    }

    /// An empty store, whose first listing gets identifier 1.
    pub fn new() -> (store: AuctionStore)
        ensures
            store@ == Seq::<AuctionInfo>::empty(),
            store.next_id() == 1,
            store.wf(),
    {
        AuctionStore { rows: Vec::new(), next_id: 1 }
    }

    /// A store of the given rows, provided that their identifiers are
    /// positive, differ from each other and leave room for a next one, and
    /// that every row is consistent. The next identifier follows the largest.
    pub fn from_rows(rows: Vec<AuctionInfo>) -> (store: Option<AuctionStore>)
        ensures
            store is Some <==> loadable(rows@),
            store matches Some(s) ==> {
                &&& s@ == rows@
                &&& s.wf()
                &&& s.next_id() == following_id(rows@, rows@.len() as int)
            },
    {
        let mut next_id: i32 = 1;
        let mut j: usize = 0;
        while j < rows.len()
            invariant
                j <= rows.len(),
                loadable(rows@.take(j as int)),
                next_id == following_id(rows@, j as int),
                1 <= next_id,
                forall|k: int| 0 <= k < j ==> (#[trigger] rows@[k]).id < next_id,
            decreases rows.len() - j,
        {
            let id = rows[j].id;
            if id < 1 || id == i32::MAX || !rows[j].is_consistent() {
                return None;
            }
            let mut i: usize = 0;
            while i < j
                invariant
                    i <= j < rows.len(),
                    id == rows@[j as int].id,
                    forall|k: int| 0 <= k < i ==> (#[trigger] rows@[k]).id != id,
                decreases j - i,
            {
                if rows[i].id == id {
                    return None;
                }
                i += 1;
            }
            if id >= next_id {
                next_id = id + 1;
            }
            j += 1;
            proof {
                let part = rows@.take(j as int);
                let before = rows@.take(j - 1);
                assert forall|a: int, b: int| 0 <= a < b < part.len() implies (
                #[trigger] part[a]).id != (#[trigger] part[b]).id by {
                    if b < j - 1 {
                        assert(before[a].id != before[b].id);
                    }
                }
                assert forall|k: int| 0 <= k < part.len() implies 1 <= (#[trigger] part[k]).id
                    < i32::MAX && part[k].consistent() by {
                    if k < j - 1 {
                        assert(1 <= before[k].id < i32::MAX && before[k].consistent());
                    }
                }
            }
        }
        proof {
            assert(rows@.take(j as int) == rows@);
        }
        Some(AuctionStore { rows, next_id })
    }

    /// The stored auctions, in their order.
    pub fn rows(&self) -> (rows: &Vec<AuctionInfo>)
        ensures
            rows@ == self@,
    {
        &self.rows
    }

    /// The index of the row of `id`.
    fn find(&self, id: i32) -> (found: Option<usize>)
        requires
            self.wf(),
        ensures
            found is Some <==> self.contains(id),
            found matches Some(i) ==> i == auction_index(self@, id) && i < self@.len(),
    {
        let mut i: usize = 0;
        while i < self.rows.len()
            invariant
                i <= self.rows.len(),
                self.wf(),
                forall|k: int| 0 <= k < i ==> (#[trigger] self.rows@[k]).id != id,
            decreases self.rows.len() - i,
        {
            if self.rows[i].id == id {
                proof {
                    lemma_auction_index_unique(self@, i as int);
                }
                return Some(i);
            }
            i += 1;
        }
        None
    }

    /// Stores a new listing with no bids and no message, under a fresh
    /// identifier, which it returns.
    pub fn create_auction(&mut self, new: NewAuctionInfo) -> (result: Result<i32, CreateError>)
        requires
            old(self).wf(),
        ensures
            final(self).wf(),
            match result {
                Ok(id) => {
                    &&& listing_verdict(new.start_price, new.bin_price) is Ok
                    &&& id == old(self).next_id()
                    &&& id < i32::MAX
                    &&& final(self).next_id() == id + 1
                    &&& final(self)@.len() == old(self)@.len() + 1
                    &&& final(self)@.drop_last() == old(self)@
                    &&& listed(new, id, final(self)@.last())
                },
                Err(e) => {
                    &&& final(self)@ == old(self)@
                    &&& final(self).next_id() == old(self).next_id()
                    &&& match listing_verdict(new.start_price, new.bin_price) {
                        Err(rule) => e == rule,
                        Ok(_) => e == CreateError::IdsExhausted && old(self).next_id()
                            == i32::MAX,
                    }
                },
            },
    {
        if new.start_price < 1 {
            return Err(CreateError::StartPriceTooLow);
        }
        if let Some(bin) = new.bin_price {
            if bin < new.start_price {
                return Err(CreateError::BinPriceBelowStart);
            }
        }
        if self.next_id == i32::MAX {
            return Err(CreateError::IdsExhausted);
        }
        let id = self.next_id;
        let row = AuctionInfo {
            id,
            channel_id: new.channel_id,
            owner_id: new.owner_id,
            item: new.item,
            end_time: new.end_time,
            start_price: new.start_price,
            bin_price: new.bin_price,
            unit: new.unit,
            embed_id: None,
            notice: new.notice,
            tenders_id: Vec::new(),
            tends_price: Vec::new(),
        };
        self.rows.push(row);
        self.next_id = id + 1;
        proof {
            assert(final(self)@.drop_last() == old(self)@);
        }
        Ok(id)
    }

    /// Appends a bid to auction `id`, provided that the store holds the
    /// auction and the price is above the last one stored for it.
    pub fn append_bid(&mut self, id: i32, tender_id: u64, price: i32) -> (result: Result<
        (),
        Conflict,
    >)
        requires
            old(self).wf(),
        ensures
            final(self).wf(),
            final(self).next_id() == old(self).next_id(),
            same_ids(old(self)@, final(self)@),
            result == append_verdict(old(self)@, id, price),
            forall|i: int|
                0 <= i < old(self)@.len() && (result is Err || i != auction_index(old(self)@, id))
                    ==> final(self)@[i] == old(self)@[i],
            result is Ok ==> appended(
                old(self).auction(id),
                final(self)@[auction_index(old(self)@, id)],
                tender_id,
                price,
            ),
    {
        let i = match self.find(id) {
            Some(i) => i,
            None => {
                return Err(Conflict::UnknownAuction);
            },
        };
        let n = self.rows[i].tends_price.len();
        if n > 0 && price <= self.rows[i].tends_price[n - 1] {
            return Err(Conflict::NotAboveLast);
        }
        let ghost before = self.rows@[i as int];
        self.rows[i].tenders_id.push(#[verifier::truncate] (tender_id as i64));
        self.rows[i].tends_price.push(price);
        proof {
            let after = self.rows@[i as int];
            lemma_user_id_round_trip(tender_id);
            assert(before == old(self)@[i as int]);
            assert(before.consistent());
            assert(after.history() == before.history().push(TendInfo { tender_id, price }));
            assert(n > 0 ==> before.history().last().price == before.tends_price@.last());
            assert(strictly_increasing(after.history()));
            assert(after.id == before.id);
            assert forall|k: int| 0 <= k < self@.len() implies (#[trigger] self@[k]).id == old(self)@[k].id && self@[k].consistent() by {
                if k != i {
                    assert(self@[k] == old(self)@[k]);
                }
            }
        }
        Ok(())
    }

    /// Records the message that announces auction `id`, and says whether the
    /// store holds the auction.
    pub fn set_embed(&mut self, id: i32, embed_id: u64) -> (found: bool)
        requires
            old(self).wf(),
        ensures
            final(self).wf(),
            final(self).next_id() == old(self).next_id(),
            same_ids(old(self)@, final(self)@),
            found == old(self).contains(id),
            forall|i: int|
                0 <= i < old(self)@.len() && (!found || i != auction_index(old(self)@, id))
                    ==> final(self)@[i] == old(self)@[i],
            found ==> {
                let before = old(self).auction(id);
                let after = final(self)@[auction_index(old(self)@, id)];
                &&& after.same_listing(&before)
                &&& after.embed_id == Some(stored_id(embed_id))
                &&& after.tenders_id == before.tenders_id
                &&& after.tends_price == before.tends_price
            },
    {
        match self.find(id) {
            Some(i) => {
                self.rows[i].embed_id = Some(#[verifier::truncate] (embed_id as i64));
                proof {
                    assert(forall|k: int|
                        0 <= k < self@.len() && k != i ==> self@[k] == old(self)@[k]);
                    assert(old(self)@[i as int].consistent());
                }
                true
            },
            None => false,
        }
    }

    /// The stored auction `id`, if the store holds it.
    pub fn get_auction(&self, id: i32) -> (found: Option<&AuctionInfo>)
        requires
            self.wf(),
        ensures
            found is Some <==> self.contains(id),
            found matches Some(row) ==> *row == self.auction(id) && row.id == id,
    {
        match self.find(id) {
            Some(i) => Some(&self.rows[i]),
            None => None,
        }
    }
}

} // verus!
