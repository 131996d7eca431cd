use vstd::prelude::*;
use crate::models::ChannelAuction;

verus! {

/// A channel that was asked to take an auction has one already.
#[derive(Clone, Copy, Debug, PartialEq, Eq, Structural)]
pub struct AlreadyBound {
    /// The auction that is live in the channel.
    pub auction: i32,
}

/// No two rows speak of the same channel.
pub open spec fn distinct_channels(rows: Seq<ChannelAuction>) -> bool {
    forall|i: int, j: int|
        0 <= i < j < rows.len() ==> (#[trigger] rows[i]).channel != (#[trigger] rows[j]).channel
}

/// Some row speaks of `channel`.
pub open spec fn has_channel(rows: Seq<ChannelAuction>, channel: i64) -> bool {
    exists|i: int| 0 <= i < rows.len() && (#[trigger] rows[i]).channel == channel
}

/// The index of a row of `channel`; meaningful where `has_channel` holds.
pub open spec fn position(rows: Seq<ChannelAuction>, channel: i64) -> int {
    choose|i: int| 0 <= i < rows.len() && (#[trigger] rows[i]).channel == channel
}

/// The auction that is live in `channel`, if any.
pub open spec fn bound_auction(rows: Seq<ChannelAuction>, channel: i64) -> Option<i32> {
    if has_channel(rows, channel) {
        rows[position(rows, channel)].auction
    } else {
        None
    }
}

/// The rows after the binding of `channel` is set to `auction`: its row is
/// rewritten in place, or a row is added at the end where it had none.
pub open spec fn with_binding(
    rows: Seq<ChannelAuction>,
    channel: i64,
    auction: Option<i32>,
) -> Seq<ChannelAuction> {
    if has_channel(rows, channel) {
        rows.update(position(rows, channel), ChannelAuction { channel, auction })
    } else {
        rows.push(ChannelAuction { channel, auction })
    }
}

/// The rows after an attempt to release `channel` from `expected`, and
/// whether the attempt cleared the binding: it does so only where the channel
/// is bound to just that auction.
pub open spec fn release_rows(
    rows: Seq<ChannelAuction>,
    channel: i64,
    expected: i32,
) -> (Seq<ChannelAuction>, bool) {
    if bound_auction(rows, channel) == Some(expected) {
        (with_binding(rows, channel, None), true)
    } else {
        (rows, false)
    }
}

/// The live bindings among the rows, in the order of the rows.
pub open spec fn active_bindings(rows: Seq<ChannelAuction>) -> Seq<(i64, i32)>
    decreases rows.len(),
{
    if rows.len() == 0 {
        Seq::empty()
    } else {
        let rest = active_bindings(rows.drop_last());
        match rows.last().auction {
            Some(auction) => rest.push((rows.last().channel, auction)),
            None => rest,
        }
    }
}

/// In rows with distinct channels the row of a channel is the only one.
pub proof fn lemma_position_unique(rows: Seq<ChannelAuction>, i: int)
    requires
        distinct_channels(rows),
        0 <= i < rows.len(),
    ensures
        has_channel(rows, rows[i].channel),
        position(rows, rows[i].channel) == i,
        bound_auction(rows, rows[i].channel) == rows[i].auction,
{
    let channel = rows[i].channel;
    assert(has_channel(rows, channel));
    let p = position(rows, channel);
    assert(0 <= p < rows.len() && rows[p].channel == channel);
    if p < i {
        assert(rows[p].channel != rows[i].channel);
    } else if i < p {
        assert(rows[i].channel != rows[p].channel);
    }
}

/// Setting the binding of one channel keeps the channels distinct, answers
/// for that channel with the new binding and for every other as before.
pub proof fn lemma_with_binding(
    rows: Seq<ChannelAuction>,
    channel: i64,
    auction: Option<i32>,
    other: i64,
)
    requires
        distinct_channels(rows),
    ensures
        distinct_channels(with_binding(rows, channel, auction)),
        has_channel(with_binding(rows, channel, auction), channel),
        bound_auction(with_binding(rows, channel, auction), channel) == auction,
        other != channel ==> bound_auction(with_binding(rows, channel, auction), other)
            == bound_auction(rows, other),
        other != channel ==> has_channel(with_binding(rows, channel, auction), other)
            == has_channel(rows, other),
{
    let after = with_binding(rows, channel, auction);
    let row = ChannelAuction { channel, auction };
    let at: int = if has_channel(rows, channel) { position(rows, channel) } else { rows.len() as int };
    assert(after.len() > at && after[at] == row);
    assert forall|i: int| 0 <= i < after.len() && i != at implies i < rows.len() && after[i]
        == rows[i] && rows[i].channel != channel by {
        if has_channel(rows, channel) {
            lemma_position_unique(rows, at);
            if i < at {
                assert(rows[i].channel != rows[at].channel);
            } else {
                assert(rows[at].channel != rows[i].channel);
            }
        }
    }
    assert forall|i: int, j: int| 0 <= i < j < after.len() implies (#[trigger] after[i]).channel
        != (#[trigger] after[j]).channel by {
        if i != at && j != at {
            assert(rows[i].channel != rows[j].channel);
        }
    }
    lemma_position_unique(after, at);
    if other != channel {
        if has_channel(rows, other) {
            let p = position(rows, other);
            assert(p != at);
            assert(after[p] == rows[p]);
            lemma_position_unique(after, p);
        } else if has_channel(after, other) {
            let p = position(after, other);
            assert(p != at);
            assert(rows[p].channel == other);
        }
    }
}

/// The finalization-once law of the compare-and-clear release: once a
/// release of `channel` from `expected` has been tried, whatever it answered,
/// a second release of the same pair clears nothing and answers `false`.
pub proof fn lemma_release_once(rows: Seq<ChannelAuction>, channel: i64, expected: i32)
    requires
        distinct_channels(rows),
    ensures
        distinct_channels(release_rows(rows, channel, expected).0),
        release_rows(release_rows(rows, channel, expected).0, channel, expected) == (
            release_rows(rows, channel, expected).0,
            false,
        ),
{
    lemma_with_binding(rows, channel, None, channel);
}

/// A release leaves the bindings of all other channels as they were, and so
/// does a failed one that of its own.
pub proof fn lemma_release_other(
    rows: Seq<ChannelAuction>,
    channel: i64,
    expected: i32,
    other: i64,
)
    requires
        distinct_channels(rows),
    ensures
        bound_auction(release_rows(rows, channel, expected).0, channel) == if bound_auction(
            rows,
            channel,
        ) == Some(expected) {
            None
        } else {
            bound_auction(rows, channel)
        },
        other != channel ==> bound_auction(release_rows(rows, channel, expected).0, other)
            == bound_auction(rows, other),
{
    lemma_with_binding(rows, channel, None, other);
}

/// The registry of channel bindings: for each channel it knows, the auction
/// that is live there, if any.
#[derive(Debug)]
pub struct ChannelRegistry {
    rows: Vec<ChannelAuction>,
}

impl View for ChannelRegistry {
    type V = Seq<ChannelAuction>;

    closed spec fn view(&self) -> Seq<ChannelAuction> {
        self.rows@
    }
}

impl ChannelRegistry {
    /// The registry holds at most one row for a channel.
    pub open spec fn wf(&self) -> bool {
        distinct_channels(self@)
    }

    /// A registry that knows no channel.
    pub fn new() -> (registry: ChannelRegistry)
        ensures
            registry@ == Seq::<ChannelAuction>::empty(),
            registry.wf(),
    {
        ChannelRegistry { rows: Vec::new() }
    }

    /// A registry of the given rows, provided that no two of them speak of
    /// the same channel.
    pub fn from_rows(rows: Vec<ChannelAuction>) -> (registry: Option<ChannelRegistry>)
        ensures
            registry is Some <==> distinct_channels(rows@),
            registry matches Some(r) ==> r@ == rows@ && r.wf(),
    {
        let mut j: usize = 0;
        while j < rows.len()
            invariant
                j <= rows.len(),
                distinct_channels(rows@.take(j as int)),
            decreases rows.len() - j,
        {
            let mut i: usize = 0;
            while i < j
                invariant
                    i <= j < rows.len(),
                    forall|k: int| 0 <= k < i ==> (#[trigger] rows@[k]).channel != rows@[j as int].channel,
                decreases j - i,
            {
                if rows[i].channel == rows[j].channel {
                    return None;
                }
                i += 1;
            }
            j += 1;
            proof {
                let part = rows@.take(j as int);
                assert forall|a: int, b: int| 0 <= a < b < part.len() implies (
                #[trigger] part[a]).channel != (#[trigger] part[b]).channel by {
                    if b < j - 1 {
                        let before = rows@.take(j - 1);
                        assert(before[a].channel != before[b].channel);
                    }
                }
            }
        }
        proof {
            assert(rows@.take(j as int) == rows@);
        }
        Some(ChannelRegistry { rows })
    }

    /// The rows of the registry, in their order.
    pub fn rows(&self) -> (rows: &Vec<ChannelAuction>)
        ensures
            rows@ == self@,
    {
        &self.rows
    }

    /// The index of the row of `channel`.
    fn find(&self, channel: i64) -> (found: Option<usize>)
        requires
            self.wf(),
        ensures
            found is Some <==> has_channel(self@, channel),
            found matches Some(i) ==> i == position(self@, channel) && i < self@.len(),
    {
        let mut i: usize = 0;
        while i < self.rows.len()
            invariant
                i <= self.rows.len(),
                self.wf(),
                forall|k: int| 0 <= k < i ==> (#[trigger] self.rows@[k]).channel != channel,
            decreases self.rows.len() - i,
        {
            if self.rows[i].channel == channel {
                proof {
                    lemma_position_unique(self@, i as int);
                }
                return Some(i);
            }
            i += 1;
        }
        None
    }

    /// Makes `channel` known, with no live auction, unless it is known already.
    /// Returns whether a row was added.
    pub fn register(&mut self, channel: i64) -> (added: bool)
        requires
            old(self).wf(),
        ensures
            final(self).wf(),
            added == !has_channel(old(self)@, channel),
            added ==> final(self)@ == old(self)@.push(ChannelAuction { channel, auction: None }),
            !added ==> final(self)@ == old(self)@,
    {
        match self.find(channel) {
            Some(_) => false,
            None => {
                proof {
                    lemma_with_binding(self@, channel, None, channel);
                }
                self.rows.push(ChannelAuction { channel, auction: None });
                true
            },
        }
    }

    /// Whether the registry knows `channel`.
    pub fn is_registered(&self, channel: i64) -> (known: bool)
        requires
            self.wf(),
        ensures
            known == has_channel(self@, channel),
    {
        self.find(channel).is_some()
    }

    /// The auction that is live in `channel`, if any.
    pub fn lookup(&self, channel: i64) -> (auction: Option<i32>)
        requires
            self.wf(),
        ensures
            auction == bound_auction(self@, channel),
    {
        match self.find(channel) {
            Some(i) => self.rows[i].auction,
            None => None,
        }
    }

    /// Binds `channel` to `auction`, unless an auction is live there.
    pub fn bind(&mut self, channel: i64, auction: i32) -> (result: Result<(), AlreadyBound>)
        requires
            old(self).wf(),
        ensures
            final(self).wf(),
            match bound_auction(old(self)@, channel) {
                Some(live) => result == Err::<(), AlreadyBound>(AlreadyBound { auction: live })
                    && final(self)@ == old(self)@,
                None => result is Ok && final(self)@ == with_binding(
                    old(self)@,
                    channel,
                    Some(auction),
                ),
            },
    {
        proof {
            lemma_with_binding(self@, channel, Some(auction), channel);
        }
        match self.find(channel) {
            Some(i) => {
                match self.rows[i].auction {
                    Some(live) => Err(AlreadyBound { auction: live }),
                    None => {
                        self.rows.set(i, ChannelAuction { channel, auction: Some(auction) });
                        Ok(())
                    },
                }
            },
            None => {
                self.rows.push(ChannelAuction { channel, auction: Some(auction) });
                Ok(())
            },
        }
    }

    /// Clears the binding of `channel` if it is bound to `expected`, and says
    /// whether it did. Anything else is left as it is.
    pub fn release(&mut self, channel: i64, expected: i32) -> (released: bool)
        requires
            old(self).wf(),
        ensures
            final(self).wf(),
            (final(self)@, released) == release_rows(old(self)@, channel, expected),
    {
        proof {
            lemma_with_binding(self@, channel, None, channel);
        }
        match self.find(channel) {
            Some(i) => {
                match self.rows[i].auction {
                    Some(live) => {
                        if live == expected {
                            self.rows.set(i, ChannelAuction { channel, auction: None });
                            true
                        } else {
                            false
                        }
                    },
                    None => false,
                }
            },
            None => false,
        }
    }

    /// The live bindings, each as channel and auction, in the order of the rows.
    pub fn list_active(&self) -> (active: Vec<(i64, i32)>)
        ensures
            active@ == active_bindings(self@),
    {
        let mut active: Vec<(i64, i32)> = Vec::new();
        let mut i: usize = 0;
        while i < self.rows.len()
            invariant
                i <= self.rows.len(),
                active@ == active_bindings(self.rows@.take(i as int)),
            decreases self.rows.len() - i,
        {
            proof {
                let next = self.rows@.take(i + 1);
                assert(next.drop_last() == self.rows@.take(i as int));
                assert(next.last() == self.rows@[i as int]);
            }
            let row = self.rows[i];
            if let Some(auction) = row.auction {
                active.push((row.channel, auction));
            }
            i += 1;
        }
        proof {
            assert(self.rows@.take(i as int) == self.rows@);
        }
        active
    }
}

} // verus!
