//! The mathematical model of a lane: what it stores, which messages it accepts, and what a
//! delivery and a confirmation change.

use vstd::prelude::*;

use crate::messages::{DeliveredMessages, LaneState, MessageNonce, UnrewardedRelayer};

verus! {

/// What a lane stores.
#[verifier::ext_equal]
pub struct LaneView<RelayerId> {
    /// Lane state.
    pub state: LaneState,
    /// Unrewarded relayers, in the order in which they have delivered.
    pub relayers: Seq<UnrewardedRelayer<RelayerId>>,
    /// Last nonce that is known to be confirmed.
    pub last_confirmed_nonce: MessageNonce,
}

/// How much a lane may hold.
pub struct LaneLimits {
    /// Maximal number of unrewarded relayer entries.
    pub unrewarded_relayer_entries: MessageNonce,
    /// Maximal number of unconfirmed messages.
    pub unconfirmed_messages: MessageNonce,
}

/// What a lane answers to a message before it is dispatched.
pub enum Admission {
    /// The message is dispatched.
    Accepted,
    /// The message is not the one that follows the last delivered message.
    InvalidNonce,
    /// There is no room for one more relayer entry.
    TooManyUnrewardedRelayers,
    /// There would be too many unconfirmed messages.
    TooManyUnconfirmedMessages,
}

/// The size in bytes of encoded lane data, without the few bytes for the lane state and the number
/// of entries: the entries and the last confirmed nonce.
pub open spec fn encoded_size(entries: usize, entry_max_encoded_len: usize) -> int {
    entries * entry_max_encoded_len + 8
}

/// The number of messages in a range: none if it is empty, and never more than a nonce can say.
pub open spec fn message_count(messages: DeliveredMessages) -> int {
    if messages.begin > messages.end {
        0
    } else if messages.end - messages.begin < MessageNonce::MAX {
        messages.end - messages.begin + 1
    } else {
        MessageNonce::MAX as int
    }
}

/// The number of messages in all entries of `relayers`.
pub open spec fn messages_in<RelayerId>(relayers: Seq<UnrewardedRelayer<RelayerId>>) -> int
    decreases relayers.len(),
{
    if relayers.len() > 0 {
        messages_in(relayers.drop_last()) + relayers.last().messages.end
            - relayers.last().messages.begin + 1
    } else {
        0
    }
}

/// The number of entries at the front of `relayers` all of whose messages are confirmed once
/// `nonce` is: the length of the longest prefix of entries that end at or before `nonce`.
pub open spec fn settled_entries<RelayerId>(
    relayers: Seq<UnrewardedRelayer<RelayerId>>,
    nonce: MessageNonce,
) -> nat
    decreases relayers.len(),
{
    if relayers.len() > 0 && relayers[0].messages.end <= nonce {
        1 + settled_entries(relayers.drop_first(), nonce)
    } else {
        0
    }
}

/// The entry without its messages up to `nonce`.
pub open spec fn clipped<RelayerId>(
    entry: UnrewardedRelayer<RelayerId>,
    nonce: MessageNonce,
) -> UnrewardedRelayer<RelayerId> {
    if entry.messages.begin <= nonce {
        UnrewardedRelayer {
            relayer: entry.relayer,
            messages: DeliveredMessages {
                begin: (nonce + 1) as MessageNonce,
                end: entry.messages.end,
            },
        }
    } else {
        entry
    }
}

/// The entries that are left once `nonce` is confirmed: the settled entries go, and the first one
/// that stays loses its confirmed messages.
pub open spec fn unsettled<RelayerId>(
    relayers: Seq<UnrewardedRelayer<RelayerId>>,
    nonce: MessageNonce,
) -> Seq<UnrewardedRelayer<RelayerId>> {
    let rest = relayers.skip(settled_entries(relayers, nonce) as int);
    if rest.len() > 0 {
        rest.update(0, clipped(rest[0], nonce))
    } else {
        rest
    }
}

impl<RelayerId> LaneView<RelayerId> {
    /// A lane over which nothing has been delivered.
    pub open spec fn fresh(state: LaneState) -> Self {
        LaneView { state, relayers: Seq::empty(), last_confirmed_nonce: 0 }
    }

    /// The last nonce that has been delivered: the end of the youngest entry, or the last
    /// confirmed nonce if no entry is left.
    pub open spec fn last_delivered_nonce(self) -> MessageNonce {
        if self.relayers.len() > 0 {
            self.relayers.last().messages.end
        } else {
            self.last_confirmed_nonce
        }
    }

    /// The number of messages from the first one of the oldest entry to the last one of the
    /// youngest.
    pub open spec fn total_unrewarded_messages(self) -> int {
        if self.relayers.len() > 0 {
            message_count(
                DeliveredMessages {
                    begin: self.relayers.first().messages.begin,
                    end: self.relayers.last().messages.end,
                },
            )
        } else {
            0
        }
    }

    /// Whether the message with `nonce` may be dispatched, and if not, the first reason why.
    pub open spec fn admission(self, nonce: MessageNonce, limits: LaneLimits) -> Admission {
        if nonce != self.last_delivered_nonce() + 1 {
            Admission::InvalidNonce
        } else if self.relayers.len() >= limits.unrewarded_relayer_entries {
            Admission::TooManyUnrewardedRelayers
        } else if nonce - self.last_confirmed_nonce > limits.unconfirmed_messages {
            Admission::TooManyUnconfirmedMessages
        } else {
            Admission::Accepted
        }
    }

    /// The lane with the youngest entry extended up to `nonce`.
    pub open spec fn with_last_extended(self, nonce: MessageNonce) -> Self {
        let last = self.relayers.last();
        LaneView {
            relayers: self.relayers.drop_last().push(
                UnrewardedRelayer {
                    relayer: last.relayer,
                    messages: DeliveredMessages { begin: last.messages.begin, end: nonce },
                },
            ),
            ..self
        }
    }

    /// The lane with a new youngest entry, for the message `nonce` alone.
    pub open spec fn with_entry(self, relayer: RelayerId, nonce: MessageNonce) -> Self {
        LaneView {
            relayers: self.relayers.push(
                UnrewardedRelayer {
                    relayer,
                    messages: DeliveredMessages { begin: nonce, end: nonce },
                },
            ),
            ..self
        }
    }

    /// Whether a confirmation of `nonce` tells the lane something new that can be true: it is past
    /// the last confirmed nonce and not past the last delivered one.
    pub open spec fn confirmable(self, nonce: MessageNonce) -> bool {
        self.last_confirmed_nonce < nonce <= self.last_delivered_nonce()
    }

    /// The lane once `nonce` is confirmed.
    pub open spec fn with_confirmed(self, nonce: MessageNonce) -> Self {
        LaneView {
            relayers: unsettled(self.relayers, nonce),
            last_confirmed_nonce: nonce,
            ..self
        }
    }

    /// The lane in another state.
    pub open spec fn with_state(self, state: LaneState) -> Self {
        LaneView { state, ..self }
    }

    /// The entry at `i` starts right behind the one before it, or behind the last confirmed nonce,
    /// and is not empty.
    pub open spec fn entry_in_place(self, i: int) -> bool {
        let entry = self.relayers[i].messages;
        &&& entry.begin <= entry.end
        &&& entry.begin == 1 + if i == 0 {
            self.last_confirmed_nonce
        } else {
            self.relayers[i - 1].messages.end
        }
    }

    /// The entries hold each nonce past the last confirmed one up to the last delivered one, in
    /// order, without gaps and without overlaps.
    pub open spec fn well_formed(self) -> bool {
        forall|i: int| 0 <= i < self.relayers.len() ==> #[trigger] self.entry_in_place(i)
    }

    /// The lane holds no more than `limits` allow.
    pub open spec fn within(self, limits: LaneLimits) -> bool {
        &&& self.relayers.len() <= limits.unrewarded_relayer_entries
        &&& self.last_delivered_nonce() - self.last_confirmed_nonce <= limits.unconfirmed_messages
    }

    /// The entries at `i` and right behind it are of different relayers.
    pub open spec fn relayer_changes_after(self, i: int) -> bool {
        self.relayers[i].relayer != self.relayers[i + 1].relayer
    }

    /// Neighbouring entries are of different relayers.
    pub open spec fn neighbours_differ(self) -> bool {
        forall|i: int|
            0 <= i < self.relayers.len() - 1 ==> #[trigger] self.relayer_changes_after(i)
    }

    /// The lane is as deliveries and confirmations leave it: its entries hold the unconfirmed
    /// messages in order, without gaps and without overlaps, no two neighbouring ones are of one
    /// relayer, and the limits are kept.
    pub open spec fn sound(self, limits: LaneLimits) -> bool {
        &&& self.well_formed()
        &&& self.neighbours_differ()
        &&& self.within(limits)
    }

    /// The entry at `i` holds the message `nonce`.
    pub open spec fn holds(self, i: int, nonce: MessageNonce) -> bool {
        &&& 0 <= i < self.relayers.len()
        &&& self.relayers[i].messages.begin <= nonce <= self.relayers[i].messages.end
    }

    /// The message `nonce` is unrewarded and `relayer` has delivered it.
    pub open spec fn credits(self, relayer: RelayerId, nonce: MessageNonce) -> bool {
        exists|i: int| #[trigger] self.holds(i, nonce) && self.relayers[i].relayer == relayer
    }
}

/// `after` is `before` with the message `nonce` noted as delivered by `relayer`. If the relayer's
/// `==` finds it equal to that of the youngest entry, this entry is extended. Otherwise, or if
/// there is no entry, a new one is added for a clone of the relayer.
pub open spec fn noted<RelayerId: Clone + PartialEq>(
    before: LaneView<RelayerId>,
    relayer: RelayerId,
    nonce: MessageNonce,
    after: LaneView<RelayerId>,
) -> bool {
    let last = before.relayers.last().relayer;
    ||| {
        &&& before.relayers.len() > 0
        &&& call_ensures(RelayerId::eq, (&last, &relayer), true)
        &&& after == before.with_last_extended(nonce)
    }
    ||| {
        &&& before.relayers.len() > 0 ==> call_ensures(RelayerId::eq, (&last, &relayer), false)
        &&& exists|copy: RelayerId| #[trigger]
            cloned(relayer, copy) && after == before.with_entry(copy, nonce)
    }
}

/// The relayer type's `==` finds a clone equal to what it was made of, and each relayer equal to
/// itself.
pub open spec fn clones_compare_equal<RelayerId: Clone + PartialEq>() -> bool {
    forall|a: RelayerId, b: RelayerId, equal: bool|
        #![trigger cloned(a, b), call_ensures(RelayerId::eq, (&b, &a), equal)]
        cloned(a, b) && call_ensures(RelayerId::eq, (&b, &a), equal) ==> equal
}

/// The relayer type's `==` finds no two different relayers equal, and a clone is the same relayer.
pub open spec fn relayers_told_apart<RelayerId: Clone + PartialEq>() -> bool {
    &&& forall|a: RelayerId, b: RelayerId| #[trigger]
        call_ensures(RelayerId::eq, (&a, &b), true) ==> a == b
    &&& forall|a: RelayerId, b: RelayerId| #[trigger] cloned(a, b) ==> a == b
}

/// The relayer type compares and clones plainly: `==` is equality and a clone is equal to what it
/// was made of.
pub open spec fn plain_relayers<RelayerId: Clone + PartialEq>() -> bool {
    &&& clones_compare_equal::<RelayerId>()
    &&& relayers_told_apart::<RelayerId>()
}

/// Something that changes a lane.
pub enum LaneEvent<RelayerId> {
    /// `relayer` has delivered the message `nonce`, which has been dispatched.
    Delivered { relayer: RelayerId, nonce: MessageNonce },
    /// All messages up to `nonce` have been confirmed.
    Confirmed { nonce: MessageNonce },
    /// The lane has been set to `state`.
    StateSet { state: LaneState },
}

/// `event` may happen to a lane that holds `before` and leads to `after`.
pub open spec fn leads_to<RelayerId: Clone + PartialEq>(
    before: LaneView<RelayerId>,
    event: LaneEvent<RelayerId>,
    limits: LaneLimits,
    after: LaneView<RelayerId>,
) -> bool {
    match event {
        LaneEvent::Delivered { relayer, nonce } => {
            &&& before.admission(nonce, limits) is Accepted
            &&& noted(before, relayer, nonce, after)
        },
        LaneEvent::Confirmed { nonce } => {
            &&& before.confirmable(nonce)
            &&& after == before.with_confirmed(nonce)
        },
        LaneEvent::StateSet { state } => after == before.with_state(state),
    }
}

/// A course of a lane: all that it has held and what has led from one to the next.
pub struct History<RelayerId> {
    /// What the lane has held, one more than there are events.
    pub lanes: Seq<LaneView<RelayerId>>,
    /// What has happened.
    pub events: Seq<LaneEvent<RelayerId>>,
}

impl<RelayerId: Clone + PartialEq> History<RelayerId> {
    /// The event at `i` leads from the lane at `i` to the next one.
    pub open spec fn step(self, limits: LaneLimits, i: int) -> bool {
        leads_to(self.lanes[i], self.events[i], limits, self.lanes[i + 1])
    }

    /// Each event leads from one lane to the next.
    pub open spec fn possible(self, limits: LaneLimits) -> bool {
        &&& self.lanes.len() == self.events.len() + 1
        &&& forall|i: int| 0 <= i < self.events.len() ==> #[trigger] self.step(limits, i)
    }

    /// The event at `i` is the delivery of the message `nonce`.
    pub open spec fn delivers(self, i: int, nonce: MessageNonce) -> bool {
        &&& 0 <= i < self.events.len()
        &&& self.events[i] matches LaneEvent::Delivered { nonce: delivered, .. }
        &&& delivered == nonce
    }
}

} // verus!
