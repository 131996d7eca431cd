use vstd::prelude::*;

verus! {

/// A point on the bot's local time line: whole seconds counted from
/// 1970-01-01 00:00:00 and the nanoseconds within that second.
#[derive(Clone, Copy, Debug, PartialEq, Eq, Structural)]
pub struct Timestamp {
    pub secs: i64,
    pub nanos: u32,
}

impl Timestamp {
    /// The position of the timestamp on the time line, in nanoseconds.
    pub open spec fn as_nanos(self) -> int {
        self.secs as int * 1_000_000_000 + self.nanos as int
    }

    /// `self` is not later than `other`: seconds first, then nanoseconds.
    pub open spec fn not_after(self, other: Timestamp) -> bool {
        self.secs < other.secs || (self.secs == other.secs && self.nanos <= other.nanos)
    }

    /// The timestamp of the given seconds and nanoseconds.
    pub fn new(secs: i64, nanos: u32) -> (t: Timestamp)
        ensures
            t.secs == secs,
            t.nanos == nanos,
    {
        Timestamp { secs, nanos }
    }

    /// Whether `self <= other` on the time line.
    pub fn le(&self, other: &Timestamp) -> (r: bool)
        ensures
            r == self.not_after(*other),
    {
        self.secs < other.secs || (self.secs == other.secs && self.nanos <= other.nanos)
    }
}

/// Where both timestamps keep their nanoseconds below one second, the
/// field-wise order is the order of the positions on the time line.
pub proof fn lemma_not_after_is_time_order(a: Timestamp, b: Timestamp)
    requires
        a.nanos < 1_000_000_000,
        b.nanos < 1_000_000_000,
    ensures
        a.not_after(b) <==> a.as_nanos() <= b.as_nanos(),
{
    if a.secs < b.secs {
        assert(a.secs as int * 1_000_000_000 + 1_000_000_000 <= b.secs as int * 1_000_000_000);
    } else if a.secs > b.secs {
        assert(b.secs as int * 1_000_000_000 + 1_000_000_000 <= a.secs as int * 1_000_000_000);
    }
}

/// One stored auction, as the store keeps it.
#[derive(Debug)]
pub struct AuctionInfo {
    pub id: i32,
    pub channel_id: i64,
    pub owner_id: i64,
    pub item: String,
    pub end_time: Timestamp,
    pub start_price: i32,
    pub bin_price: Option<i32>,
    pub unit: String,
    /// Empty only until the announcement message has been sent.
    pub embed_id: Option<i64>,
    pub notice: String,
    pub tenders_id: Vec<i64>,
    pub tends_price: Vec<i32>,
}

/// The parameters of a listing that has not been stored yet.
#[derive(Debug)]
pub struct NewAuctionInfo {
    pub channel_id: i64,
    pub owner_id: i64,
    pub item: String,
    pub end_time: Timestamp,
    pub start_price: i32,
    pub bin_price: Option<i32>,
    pub unit: String,
    pub notice: String,
}

/// Which auction, if any, is live in a channel.
#[derive(Clone, Copy, Debug, PartialEq, Eq, Structural)]
pub struct ChannelAuction {
    pub channel: i64,
    pub auction: Option<i32>,
}

} // verus!
