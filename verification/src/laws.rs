//! What holds of a lane whatever happens to it.

use vstd::prelude::*;
use vstd::std_specs::convert::FromSpec;

use crate::inbound_lane::{InboundLane, InboundLaneStorage, StoredInboundLaneData};
use crate::messages::{
    DeliveredMessages, InboundLaneData, LaneState, MessageNonce, UnrewardedRelayer,
};
use crate::model::{
    clones_compare_equal, encoded_size, leads_to, message_count, messages_in, noted, plain_relayers,
    relayers_told_apart, settled_entries, unsettled, History, LaneEvent, LaneLimits, LaneView,
};

verus! {

/// The settled entries are exactly the longest prefix of entries that end at or before `nonce`.
proof fn lemma_settled_entries<RelayerId>(
    relayers: Seq<UnrewardedRelayer<RelayerId>>,
    nonce: MessageNonce,
)
    ensures
        settled_entries(relayers, nonce) <= relayers.len(),
        forall|i: int|
            0 <= i < settled_entries(relayers, nonce) ==> (#[trigger] relayers[i]).messages.end
                <= nonce,
        settled_entries(relayers, nonce) < relayers.len() ==> relayers[settled_entries(
            relayers,
            nonce,
        ) as int].messages.end > nonce,
    decreases relayers.len(),
{
    if relayers.len() > 0 && relayers[0].messages.end <= nonce {
        let tail = relayers.drop_first();
        lemma_settled_entries(tail, nonce);
        assert forall|i: int| 0 <= i < settled_entries(relayers, nonce) implies (
        #[trigger] relayers[i]).messages.end <= nonce by {
            if i > 0 {
                assert(tail[i - 1] == relayers[i]);
            }
        }
    }
}

/// A prefix that cannot be longer is the one that `settled_entries` counts.
proof fn lemma_settled_entries_unique<RelayerId>(
    relayers: Seq<UnrewardedRelayer<RelayerId>>,
    nonce: MessageNonce,
    count: nat,
)
    requires
        count <= relayers.len(),
        forall|i: int| 0 <= i < count ==> (#[trigger] relayers[i]).messages.end <= nonce,
        count < relayers.len() ==> relayers[count as int].messages.end > nonce,
    ensures
        settled_entries(relayers, nonce) == count,
{
    lemma_settled_entries(relayers, nonce);
    let settled = settled_entries(relayers, nonce);
    if settled < count {
        assert(relayers[settled as int].messages.end <= nonce);
    }
}

/// A confirmation does not change which message has been delivered last.
pub proof fn law_confirmation_keeps_last_delivered<RelayerId>(
    lane: LaneView<RelayerId>,
    nonce: MessageNonce,
)
    requires
        lane.confirmable(nonce),
    ensures
        lane.with_confirmed(nonce).last_delivered_nonce() == lane.last_delivered_nonce(),
{
    lemma_settled_entries(lane.relayers, nonce);
    if settled_entries(lane.relayers, nonce) == lane.relayers.len() {
        assert(lane.relayers.len() > 0 ==> lane.relayers.last().messages.end <= nonce);
    }
}

/// The entries of a well-formed lane hold nonces in ascending order: an entry ends before each
/// later one begins.
pub proof fn law_entries_ascend<RelayerId>(lane: LaneView<RelayerId>, i: int, j: int)
    requires
        lane.well_formed(),
        0 <= i < j < lane.relayers.len(),
    ensures
        lane.relayers[i].messages.end < lane.relayers[j].messages.begin,
    decreases j,
{
    assert(lane.entry_in_place(j));
    if i < j - 1 {
        law_entries_ascend(lane, i, j - 1);
        assert(lane.entry_in_place(j - 1));
    }
}

/// All nonces of a well-formed lane's entries lie past the last confirmed nonce and not past the
/// last delivered one.
pub proof fn law_entries_lie_between<RelayerId>(lane: LaneView<RelayerId>, i: int)
    requires
        lane.well_formed(),
        0 <= i < lane.relayers.len(),
    ensures
        lane.last_confirmed_nonce < lane.relayers[i].messages.begin,
        lane.relayers[i].messages.end <= lane.last_delivered_nonce(),
{
    let last = lane.relayers.len() - 1;
    assert(lane.entry_in_place(0));
    assert(lane.entry_in_place(last));
    if 0 < i {
        law_entries_ascend(lane, 0, i);
    }
    if i < last {
        law_entries_ascend(lane, i, last);
    }
}

/// In a well-formed lane the last confirmed nonce never passes the last delivered one.
pub proof fn law_confirmed_is_delivered<RelayerId>(lane: LaneView<RelayerId>)
    requires
        lane.well_formed(),
    ensures
        lane.last_confirmed_nonce <= lane.last_delivered_nonce(),
        lane.relayers.len() == 0 <==> lane.last_confirmed_nonce == lane.last_delivered_nonce(),
{
    if lane.relayers.len() > 0 {
        let last = lane.relayers.len() - 1;
        law_entries_lie_between(lane, last);
        assert(lane.entry_in_place(last));
    }
}

/// A lane over which nothing has been delivered is in the state that it was made with, holds no
/// entry, and is well formed, within all limits and sound.
pub proof fn law_fresh_lane<RelayerId>(state: LaneState, limits: LaneLimits)
    ensures
        LaneView::<RelayerId>::fresh(state).well_formed(),
        LaneView::<RelayerId>::fresh(state).within(limits),
        LaneView::<RelayerId>::fresh(state).sound(limits),
        LaneView::<RelayerId>::fresh(state).last_delivered_nonce() == 0,
        LaneView::<RelayerId>::fresh(state).last_confirmed_nonce == 0,
        LaneView::<RelayerId>::fresh(state).relayers.len() == 0,
        LaneView::<RelayerId>::fresh(state).state == state,
{
}

/// A confirmation keeps a lane well formed.
pub proof fn law_confirmation_keeps_well_formed<RelayerId>(
    lane: LaneView<RelayerId>,
    nonce: MessageNonce,
)
    requires
        lane.well_formed(),
        lane.confirmable(nonce),
    ensures
        lane.with_confirmed(nonce).well_formed(),
{
    lemma_settled_entries(lane.relayers, nonce);
    let settled = settled_entries(lane.relayers, nonce) as int;
    let after = lane.with_confirmed(nonce);
    assert forall|i: int| 0 <= i < after.relayers.len() implies #[trigger] after.entry_in_place(
        i,
    ) by {
        assert(lane.entry_in_place(settled + i));
        if i == 0 {
            if settled > 0 {
                assert(lane.relayers[settled - 1].messages.end <= nonce);
            }
        }
    }
}

/// A confirmation leaves neighbouring entries with different relayers.
pub proof fn law_confirmation_keeps_neighbours_apart<RelayerId>(
    lane: LaneView<RelayerId>,
    nonce: MessageNonce,
)
    requires
        lane.neighbours_differ(),
    ensures
        lane.with_confirmed(nonce).neighbours_differ(),
{
    lemma_settled_entries(lane.relayers, nonce);
    let settled = settled_entries(lane.relayers, nonce) as int;
    let after = lane.with_confirmed(nonce);
    assert forall|i: int| 0 <= i < after.relayers.len() - 1 implies #[trigger]
        after.relayer_changes_after(i) by {
        assert(lane.relayer_changes_after(settled + i));
    }
}

/// A confirmation keeps a lane within its limits.
pub proof fn law_confirmation_keeps_limits<RelayerId>(
    lane: LaneView<RelayerId>,
    nonce: MessageNonce,
    limits: LaneLimits,
)
    requires
        lane.within(limits),
        lane.confirmable(nonce),
    ensures
        lane.with_confirmed(nonce).within(limits),
{
    lemma_settled_entries(lane.relayers, nonce);
    law_confirmation_keeps_last_delivered(lane, nonce);
}

/// An accepted message is the one after the last delivered message, and once it is noted it is
/// the last delivered one. Lane state and last confirmed nonce stay.
pub proof fn law_delivery_advances_by_one<RelayerId: Clone + PartialEq>(
    before: LaneView<RelayerId>,
    relayer: RelayerId,
    nonce: MessageNonce,
    limits: LaneLimits,
    after: LaneView<RelayerId>,
)
    requires
        before.admission(nonce, limits) is Accepted,
        noted(before, relayer, nonce, after),
    ensures
        nonce == before.last_delivered_nonce() + 1,
        after.last_delivered_nonce() == nonce,
        after.state == before.state,
        after.last_confirmed_nonce == before.last_confirmed_nonce,
{
}

/// A delivery keeps a lane well formed.
pub proof fn law_delivery_keeps_well_formed<RelayerId: Clone + PartialEq>(
    before: LaneView<RelayerId>,
    relayer: RelayerId,
    nonce: MessageNonce,
    limits: LaneLimits,
    after: LaneView<RelayerId>,
)
    requires
        before.well_formed(),
        before.admission(nonce, limits) is Accepted,
        noted(before, relayer, nonce, after),
    ensures
        after.well_formed(),
{
    assert forall|i: int| 0 <= i < after.relayers.len() implies #[trigger] after.entry_in_place(
        i,
    ) by {
        if i < before.relayers.len() {
            assert(before.entry_in_place(i));
        }
    }
}

/// A delivery leaves neighbouring entries with different relayers, if a clone of a relayer compares
/// equal to it.
pub proof fn law_delivery_keeps_neighbours_apart<RelayerId: Clone + PartialEq>(
    before: LaneView<RelayerId>,
    relayer: RelayerId,
    nonce: MessageNonce,
    after: LaneView<RelayerId>,
)
    requires
        clones_compare_equal::<RelayerId>(),
        before.neighbours_differ(),
        noted(before, relayer, nonce, after),
    ensures
        after.neighbours_differ(),
{
    assert forall|i: int| 0 <= i < after.relayers.len() - 1 implies #[trigger]
        after.relayer_changes_after(i) by {
        if i < before.relayers.len() - 1 {
            assert(before.relayer_changes_after(i));
        } else {
            let copy = after.relayers.last().relayer;
            assert(cloned(relayer, copy));
        }
    }
}

/// After a delivery the lane is within its limits.
pub proof fn law_delivery_keeps_limits<RelayerId: Clone + PartialEq>(
    before: LaneView<RelayerId>,
    relayer: RelayerId,
    nonce: MessageNonce,
    limits: LaneLimits,
    after: LaneView<RelayerId>,
)
    requires
        before.admission(nonce, limits) is Accepted,
        noted(before, relayer, nonce, after),
    ensures
        after.within(limits),
{
}

/// A message that has been delivered is never accepted again, from no relayer and under no
/// limits.
pub proof fn law_delivered_message_is_rejected<RelayerId>(
    lane: LaneView<RelayerId>,
    nonce: MessageNonce,
    limits: LaneLimits,
)
    requires
        nonce <= lane.last_delivered_nonce(),
    ensures
        lane.admission(nonce, limits) is InvalidNonce,
{
}

/// A lane that is full, be it of relayer entries or of unconfirmed messages, accepts no message,
/// not even from the relayer of its youngest entry.
pub proof fn law_full_lane_accepts_nothing<RelayerId>(
    lane: LaneView<RelayerId>,
    nonce: MessageNonce,
    limits: LaneLimits,
)
    requires
        lane.relayers.len() >= limits.unrewarded_relayer_entries || lane.last_delivered_nonce()
            - lane.last_confirmed_nonce >= limits.unconfirmed_messages,
    ensures
        lane.admission(nonce, limits) !is Accepted,
{
}

/// A lane that is not full accepts the next message.
pub proof fn law_lane_with_room_accepts_next<RelayerId>(
    lane: LaneView<RelayerId>,
    nonce: MessageNonce,
    limits: LaneLimits,
)
    requires
        nonce == lane.last_delivered_nonce() + 1,
        lane.relayers.len() < limits.unrewarded_relayer_entries,
        lane.last_delivered_nonce() - lane.last_confirmed_nonce < limits.unconfirmed_messages,
    ensures
        lane.admission(nonce, limits) is Accepted,
{
}

/// Once all delivered messages are confirmed no entry is left in a well-formed lane, and the next
/// message is accepted if the limits allow any at all.
pub proof fn law_full_confirmation_empties_lane<RelayerId>(
    lane: LaneView<RelayerId>,
    nonce: MessageNonce,
    limits: LaneLimits,
)
    requires
        lane.well_formed(),
        lane.confirmable(lane.last_delivered_nonce()),
        nonce == lane.last_delivered_nonce() + 1,
        limits.unrewarded_relayer_entries > 0,
        limits.unconfirmed_messages > 0,
    ensures
        lane.with_confirmed(lane.last_delivered_nonce()).relayers.len() == 0,
        lane.with_confirmed(lane.last_delivered_nonce()).admission(nonce, limits) is Accepted,
{
    let confirmed = lane.last_delivered_nonce();
    lemma_settled_entries(lane.relayers, confirmed);
    let settled = settled_entries(lane.relayers, confirmed) as int;
    if settled < lane.relayers.len() {
        law_entries_lie_between(lane, settled);
    }
}

/// A confirmation is told once: afterwards the same nonce, and each earlier one, is obsolete.
pub proof fn law_confirmation_is_told_once<RelayerId>(
    lane: LaneView<RelayerId>,
    nonce: MessageNonce,
    again: MessageNonce,
)
    requires
        lane.confirmable(nonce),
        again <= nonce,
    ensures
        !lane.with_confirmed(nonce).confirmable(again),
{
}

/// Two confirmations in a row leave what the later one alone leaves.
pub proof fn law_confirmations_compose<RelayerId>(
    lane: LaneView<RelayerId>,
    first: MessageNonce,
    second: MessageNonce,
)
    requires
        lane.confirmable(first),
        lane.with_confirmed(first).confirmable(second),
    ensures
        lane.confirmable(second),
        lane.with_confirmed(first).with_confirmed(second) == lane.with_confirmed(second),
{
    law_confirmation_keeps_last_delivered(lane, first);
    let middle = lane.with_confirmed(first);
    lemma_settled_entries(lane.relayers, first);
    lemma_settled_entries(lane.relayers, second);
    let gone_first = settled_entries(lane.relayers, first);
    let gone_second = settled_entries(lane.relayers, second);
    if gone_second < gone_first {
        assert(lane.relayers[gone_second as int].messages.end <= first);
    }
    let more = (gone_second - gone_first) as nat;
    assert forall|i: int| 0 <= i < more implies (#[trigger] middle.relayers[i]).messages.end
        <= second by {
        assert(lane.relayers[gone_first + i].messages.end <= second);
    }
    lemma_settled_entries_unique(middle.relayers, second, more);
    assert(unsettled(middle.relayers, second) == unsettled(lane.relayers, second));
}

/// A message has at most one relayer to credit in a well-formed lane.
pub proof fn law_one_entry_per_message<RelayerId>(
    lane: LaneView<RelayerId>,
    nonce: MessageNonce,
    i: int,
    j: int,
)
    requires
        lane.well_formed(),
        lane.holds(i, nonce),
        lane.holds(j, nonce),
    ensures
        i == j,
{
    if i < j {
        law_entries_ascend(lane, i, j);
    } else if j < i {
        law_entries_ascend(lane, j, i);
    }
}

/// In a well-formed lane the messages that some entry holds are exactly the ones past the last
/// confirmed nonce up to the last delivered one.
pub proof fn law_unconfirmed_messages_are_held<RelayerId>(
    lane: LaneView<RelayerId>,
    nonce: MessageNonce,
)
    requires
        lane.well_formed(),
    ensures
        (exists|i: int| #[trigger] lane.holds(i, nonce)) <==> lane.last_confirmed_nonce < nonce
            <= lane.last_delivered_nonce(),
{
    if exists|i: int| #[trigger] lane.holds(i, nonce) {
        let i = choose|i: int| #[trigger] lane.holds(i, nonce);
        law_entries_lie_between(lane, i);
    }
    if lane.last_confirmed_nonce < nonce <= lane.last_delivered_nonce() {
        lemma_settled_entries(lane.relayers, (nonce - 1) as MessageNonce);
        let i = settled_entries(lane.relayers, (nonce - 1) as MessageNonce) as int;
        if i == lane.relayers.len() {
            assert(lane.relayers[i - 1].messages.end <= nonce - 1);
        } else {
            assert(lane.entry_in_place(i));
            if i > 0 {
                assert(lane.relayers[i - 1].messages.end <= nonce - 1);
            }
            assert(lane.holds(i, nonce));
        }
    }
}

/// A confirmation takes exactly the confirmed messages from the relayers of a well-formed lane:
/// each later message stays with the relayer that has delivered it.
pub proof fn law_confirmation_keeps_later_credits<RelayerId>(
    lane: LaneView<RelayerId>,
    confirmed: MessageNonce,
    relayer: RelayerId,
    nonce: MessageNonce,
)
    requires
        lane.well_formed(),
        lane.confirmable(confirmed),
    ensures
        lane.with_confirmed(confirmed).credits(relayer, nonce) <==> lane.credits(relayer, nonce)
            && nonce > confirmed,
{
    let after = lane.with_confirmed(confirmed);
    lemma_settled_entries(lane.relayers, confirmed);
    law_confirmation_keeps_well_formed(lane, confirmed);
    let settled = settled_entries(lane.relayers, confirmed) as int;
    if after.credits(relayer, nonce) {
        let i = choose|i: int| #[trigger]
            after.holds(i, nonce) && after.relayers[i].relayer == relayer;
        law_entries_lie_between(after, i);
        assert(lane.holds(settled + i, nonce));
    }
    if lane.credits(relayer, nonce) && nonce > confirmed {
        let i = choose|i: int| #[trigger]
            lane.holds(i, nonce) && lane.relayers[i].relayer == relayer;
        assert(after.holds(i - settled, nonce));
    }
}

/// A delivery leaves the credits of all other messages alone.
pub proof fn law_delivery_keeps_other_credits<RelayerId: Clone + PartialEq>(
    before: LaneView<RelayerId>,
    relayer: RelayerId,
    nonce: MessageNonce,
    limits: LaneLimits,
    after: LaneView<RelayerId>,
    other_relayer: RelayerId,
    other_nonce: MessageNonce,
)
    requires
        before.admission(nonce, limits) is Accepted,
        noted(before, relayer, nonce, after),
        other_nonce != nonce,
    ensures
        after.credits(other_relayer, other_nonce) <==> before.credits(other_relayer, other_nonce),
{
    if after.credits(other_relayer, other_nonce) {
        let i = choose|i: int| #[trigger]
            after.holds(i, other_nonce) && after.relayers[i].relayer == other_relayer;
        assert(before.holds(i, other_nonce));
    }
    if before.credits(other_relayer, other_nonce) {
        let i = choose|i: int| #[trigger]
            before.holds(i, other_nonce) && before.relayers[i].relayer == other_relayer;
        assert(after.holds(i, other_nonce));
    }
}

/// A delivered message of a well-formed lane is credited to the relayer that has delivered it, and
/// to no one else, if relayers are told apart.
pub proof fn law_delivery_is_credited<RelayerId: Clone + PartialEq>(
    before: LaneView<RelayerId>,
    relayer: RelayerId,
    nonce: MessageNonce,
    limits: LaneLimits,
    after: LaneView<RelayerId>,
    credited: RelayerId,
)
    requires
        relayers_told_apart::<RelayerId>(),
        before.well_formed(),
        before.admission(nonce, limits) is Accepted,
        noted(before, relayer, nonce, after),
    ensures
        after.credits(credited, nonce) <==> credited == relayer,
{
    law_delivery_keeps_well_formed(before, relayer, nonce, limits, after);
    let last = after.relayers.len() - 1;
    assert(after.entry_in_place(last));
    assert(after.holds(last, nonce));
    if after.credits(credited, nonce) {
        let i = choose|i: int| #[trigger]
            after.holds(i, nonce) && after.relayers[i].relayer == credited;
        law_one_entry_per_message(after, nonce, i, last);
    }
}

/// If relayers compare and clone plainly, a message extends the youngest entry exactly when its
/// relayer is that of the entry, and what a delivery leads to is determined.
pub proof fn law_delivery_is_determined<RelayerId: Clone + PartialEq>(
    before: LaneView<RelayerId>,
    relayer: RelayerId,
    nonce: MessageNonce,
    after: LaneView<RelayerId>,
)
    requires
        plain_relayers::<RelayerId>(),
        noted(before, relayer, nonce, after),
    ensures
        after == if before.relayers.len() > 0 && before.relayers.last().relayer == relayer {
            before.with_last_extended(nonce)
        } else {
            before.with_entry(relayer, nonce)
        },
{
}

/// A confirmation that leaves something unconfirmed and a delivery lead to the same lane in either
/// order.
pub proof fn law_confirmation_and_delivery_commute<RelayerId: Clone + PartialEq>(
    before: LaneView<RelayerId>,
    relayer: RelayerId,
    nonce: MessageNonce,
    limits: LaneLimits,
    after: LaneView<RelayerId>,
    confirmed: MessageNonce,
)
    requires
        before.admission(nonce, limits) is Accepted,
        noted(before, relayer, nonce, after),
        before.confirmable(confirmed),
        confirmed < before.last_delivered_nonce(),
    ensures
        before.with_confirmed(confirmed).admission(nonce, limits) is Accepted,
        noted(
            before.with_confirmed(confirmed),
            relayer,
            nonce,
            after.with_confirmed(confirmed),
        ),
{
    law_confirmation_keeps_last_delivered(before, confirmed);
    lemma_settled_entries(before.relayers, confirmed);
    let settled = settled_entries(before.relayers, confirmed);
    assert(settled < before.relayers.len()) by {
        if settled == before.relayers.len() {
            assert(before.relayers.last().messages.end <= confirmed);
        }
    }
    assert forall|i: int| 0 <= i < settled implies (#[trigger] after.relayers[i]).messages.end
        <= confirmed by {
        assert(before.relayers[i].messages.end <= confirmed);
    }
    lemma_settled_entries_unique(after.relayers, confirmed, settled);
    let left = before.with_confirmed(confirmed);
    let right = after.with_confirmed(confirmed);
    if after.relayers.len() == before.relayers.len() {
        assert(right == left.with_last_extended(nonce));
    } else {
        let copy = after.relayers.last().relayer;
        assert(right == left.with_entry(copy, nonce));
    }
}

/// The entries of a well-formed lane hold as many messages as lie between the last confirmed and
/// the last delivered nonce.
pub proof fn law_entries_add_up<RelayerId>(lane: LaneView<RelayerId>)
    requires
        lane.well_formed(),
    ensures
        messages_in(lane.relayers) == lane.last_delivered_nonce() - lane.last_confirmed_nonce,
    decreases lane.relayers.len(),
{
    if lane.relayers.len() > 0 {
        let shorter = LaneView { relayers: lane.relayers.drop_last(), ..lane };
        assert forall|i: int| 0 <= i < shorter.relayers.len() implies #[trigger] shorter.entry_in_place(
        i) by {
            assert(lane.entry_in_place(i));
        }
        law_entries_add_up(shorter);
        assert(lane.entry_in_place(lane.relayers.len() - 1));
    }
}

/// The state that has been set is the state of the lane. It changes nothing else, and it does not
/// bear on which messages are accepted or which confirmations are told.
pub proof fn law_state_is_what_was_set<RelayerId>(
    lane: LaneView<RelayerId>,
    state: LaneState,
    nonce: MessageNonce,
    limits: LaneLimits,
)
    ensures
        lane.with_state(state).state == state,
        lane.with_state(state).relayers == lane.relayers,
        lane.with_state(state).last_confirmed_nonce == lane.last_confirmed_nonce,
        lane.with_state(state).last_delivered_nonce() == lane.last_delivered_nonce(),
        lane.with_state(state).admission(nonce, limits) == lane.admission(nonce, limits),
        lane.with_state(state).confirmable(nonce) == lane.confirmable(nonce),
{
}

/// Each event leaves the lane well formed, within its limits and sound if it found it so, where a
/// delivery keeps it sound if a clone of a relayer compares equal to it. It never takes back what is
/// delivered or confirmed. The last delivered nonce grows by one with a delivery and stays with
/// anything else, the last confirmed nonce changes with a confirmation alone, and the lane state
/// when it is set alone.
pub proof fn law_event<RelayerId: Clone + PartialEq>(
    before: LaneView<RelayerId>,
    event: LaneEvent<RelayerId>,
    limits: LaneLimits,
    after: LaneView<RelayerId>,
)
    requires
        leads_to(before, event, limits, after),
    ensures
        before.well_formed() ==> after.well_formed(),
        before.within(limits) ==> after.within(limits),
        before.sound(limits) && (event is Delivered ==> clones_compare_equal::<RelayerId>())
            ==> after.sound(limits),
        before.last_confirmed_nonce <= after.last_confirmed_nonce,
        after.last_delivered_nonce() == match event {
            LaneEvent::Delivered { .. } => before.last_delivered_nonce() + 1,
            _ => before.last_delivered_nonce() as int,
        },
        event !is Confirmed ==> after.last_confirmed_nonce == before.last_confirmed_nonce,
        event !is StateSet ==> after.state == before.state,
{
    match event {
        LaneEvent::Delivered { relayer, nonce } => {
            law_delivery_advances_by_one(before, relayer, nonce, limits, after);
            law_delivery_keeps_limits(before, relayer, nonce, limits, after);
            if before.well_formed() {
                law_delivery_keeps_well_formed(before, relayer, nonce, limits, after);
            }
            if clones_compare_equal::<RelayerId>() && before.neighbours_differ() {
                law_delivery_keeps_neighbours_apart(before, relayer, nonce, after);
            }
        },
        LaneEvent::Confirmed { nonce } => {
            law_confirmation_keeps_last_delivered(before, nonce);
            if before.within(limits) {
                law_confirmation_keeps_limits(before, nonce, limits);
            }
            if before.well_formed() {
                law_confirmation_keeps_well_formed(before, nonce);
            }
            if before.neighbours_differ() {
                law_confirmation_keeps_neighbours_apart(before, nonce);
            }
        },
        LaneEvent::StateSet { .. } => {
            if before.well_formed() {
                assert forall|i: int| 0 <= i < after.relayers.len() implies #[trigger] after.entry_in_place(
                i) by {
                    assert(before.entry_in_place(i));
                }
            }
            if before.neighbours_differ() {
                assert forall|i: int| 0 <= i < after.relayers.len() - 1 implies #[trigger]
                    after.relayer_changes_after(i) by {
                    assert(before.relayer_changes_after(i));
                }
            }
        },
    }
}

/// A lane that starts well formed and within its limits is so at each point of its history.
pub proof fn law_history_keeps_invariants<RelayerId: Clone + PartialEq>(
    history: History<RelayerId>,
    limits: LaneLimits,
    at: int,
)
    requires
        history.possible(limits),
        history.lanes[0].well_formed(),
        history.lanes[0].within(limits),
        0 <= at < history.lanes.len(),
    ensures
        history.lanes[at].well_formed(),
        history.lanes[at].within(limits),
        history.lanes[at].last_confirmed_nonce <= history.lanes[at].last_delivered_nonce(),
    decreases at,
{
    if at > 0 {
        law_history_keeps_invariants(history, limits, at - 1);
        assert(history.step(limits, at - 1));
        law_event(history.lanes[at - 1], history.events[at - 1], limits, history.lanes[at]);
    }
    law_confirmed_is_delivered(history.lanes[at]);
}

/// A lane that starts sound is sound at each point of its history, if a clone of a relayer compares
/// equal to it.
pub proof fn law_history_keeps_lane_sound<RelayerId: Clone + PartialEq>(
    history: History<RelayerId>,
    limits: LaneLimits,
    at: int,
)
    requires
        clones_compare_equal::<RelayerId>(),
        history.possible(limits),
        history.lanes[0].sound(limits),
        0 <= at < history.lanes.len(),
    ensures
        history.lanes[at].sound(limits),
    decreases at,
{
    if at > 0 {
        law_history_keeps_lane_sound(history, limits, at - 1);
        assert(history.step(limits, at - 1));
        law_event(history.lanes[at - 1], history.events[at - 1], limits, history.lanes[at]);
    }
}

/// Over the history of a lane, neither the last delivered nor the last confirmed nonce ever falls.
pub proof fn law_history_never_goes_back<RelayerId: Clone + PartialEq>(
    history: History<RelayerId>,
    limits: LaneLimits,
    from: int,
    to: int,
)
    requires
        history.possible(limits),
        0 <= from <= to < history.lanes.len(),
    ensures
        history.lanes[from].last_delivered_nonce() <= history.lanes[to].last_delivered_nonce(),
        history.lanes[from].last_confirmed_nonce <= history.lanes[to].last_confirmed_nonce,
    decreases to - from,
{
    if from < to {
        law_history_never_goes_back(history, limits, from, to - 1);
        assert(history.step(limits, to - 1));
        law_event(history.lanes[to - 1], history.events[to - 1], limits, history.lanes[to]);
    }
}

/// Messages are delivered in the order of their nonces, and none of them twice.
pub proof fn law_history_delivers_in_order<RelayerId: Clone + PartialEq>(
    history: History<RelayerId>,
    limits: LaneLimits,
    i: int,
    j: int,
    earlier: MessageNonce,
    later: MessageNonce,
)
    requires
        history.possible(limits),
        history.delivers(i, earlier),
        history.delivers(j, later),
        i < j,
    ensures
        earlier < later,
{
    assert(history.step(limits, i));
    assert(history.step(limits, j));
    law_event(history.lanes[i], history.events[i], limits, history.lanes[i + 1]);
    law_history_never_goes_back(history, limits, i + 1, j);
}

/// No message is left out: each nonce between the last delivered ones at two points of a history
/// has been delivered on the way.
pub proof fn law_history_leaves_no_gaps<RelayerId: Clone + PartialEq>(
    history: History<RelayerId>,
    limits: LaneLimits,
    from: int,
    to: int,
    nonce: MessageNonce,
)
    requires
        history.possible(limits),
        0 <= from <= to < history.lanes.len(),
        history.lanes[from].last_delivered_nonce() < nonce
            <= history.lanes[to].last_delivered_nonce(),
    ensures
        exists|i: int| from <= i < to && #[trigger] history.delivers(i, nonce),
    decreases to - from,
{
    if from < to {
        assert(history.step(limits, to - 1));
        law_event(history.lanes[to - 1], history.events[to - 1], limits, history.lanes[to]);
        if nonce <= history.lanes[to - 1].last_delivered_nonce() {
            law_history_leaves_no_gaps(history, limits, from, to - 1, nonce);
        } else {
            assert(history.delivers(to - 1, nonce));
        }
    }
}

/// The view of lane data shows each part of it.
pub proof fn law_view_shows_data<RelayerId>(data: InboundLaneData<RelayerId>)
    ensures
        data@.state == data.state,
        data@.relayers.len() == data.relayers@.len(),
        forall|i: int|
            0 <= i < data.relayers@.len() ==> #[trigger] data@.relayers[i] == data.relayers@[i],
        data@.last_confirmed_nonce == data.last_confirmed_nonce,
{
}

/// A lane holds what its storage holds, and two lanes are the same one exactly when their storages
/// agree on the lane id and on both limits.
pub proof fn law_lane_is_its_storage<S: InboundLaneStorage>(a: InboundLane<S>, b: InboundLane<S>)
    ensures
        a.lane() == a.backing().stored(),
        a.same_lane(&b) <==> {
            &&& a.backing().lane_id() == b.backing().lane_id()
            &&& a.backing().limits().unrewarded_relayer_entries
                == b.backing().limits().unrewarded_relayer_entries
            &&& a.backing().limits().unconfirmed_messages
                == b.backing().limits().unconfirmed_messages
        },
{
}

/// Lane data that is wrapped for the storage comes out again as it went in.
pub proof fn law_stored_data_comes_back<RelayerId>(data: InboundLaneData<RelayerId>)
    ensures
        <InboundLaneData<RelayerId> as FromSpec<
            StoredInboundLaneData<RelayerId>,
        >>::obeys_from_spec(),
        <InboundLaneData<RelayerId> as FromSpec<StoredInboundLaneData<RelayerId>>>::from_spec(
            StoredInboundLaneData(data),
        ) == data,
{
}

/// What has been delivered last is where the youngest entry ends, whatever the other entries are.
/// If there is no entry it is what has been confirmed last.
pub proof fn law_last_delivered_nonce<RelayerId>(lane: LaneView<RelayerId>)
    ensures
        lane.relayers.len() == 0 ==> lane.last_delivered_nonce() == lane.last_confirmed_nonce,
        lane.relayers.len() > 0 ==> lane.last_delivered_nonce() == lane.relayers[lane.relayers.len()
            - 1].messages.end,
{
}

/// A confirmation is taken exactly when its nonce is past the last confirmed one and not past the
/// last delivered one, whatever else the lane holds.
pub proof fn law_true_confirmation_is_taken<RelayerId>(
    lane: LaneView<RelayerId>,
    nonce: MessageNonce,
)
    ensures
        lane.last_confirmed_nonce < nonce && nonce <= lane.last_delivered_nonce()
            ==> lane.confirmable(nonce),
        nonce <= lane.last_confirmed_nonce ==> !lane.confirmable(nonce),
        nonce > lane.last_delivered_nonce() ==> !lane.confirmable(nonce),
{
}

/// A message is refused for its nonce exactly when it is not the next one, be it delivered already
/// or ahead of its turn.
pub proof fn law_only_next_message_has_valid_nonce<RelayerId>(
    lane: LaneView<RelayerId>,
    nonce: MessageNonce,
    limits: LaneLimits,
)
    ensures
        nonce <= lane.last_delivered_nonce() ==> lane.admission(nonce, limits) is InvalidNonce,
        nonce > lane.last_delivered_nonce() + 1 ==> lane.admission(nonce, limits) is InvalidNonce,
        nonce == lane.last_delivered_nonce() + 1 ==> lane.admission(nonce, limits) !is InvalidNonce,
{
}

/// The next message is refused for the relayer entries exactly when there are as many as the limit
/// allows, or more.
pub proof fn law_entries_limit_is_told<RelayerId>(
    lane: LaneView<RelayerId>,
    nonce: MessageNonce,
    limits: LaneLimits,
)
    ensures
        lane.admission(nonce, limits) is TooManyUnrewardedRelayers <==> {
            &&& nonce == lane.last_delivered_nonce() + 1
            &&& lane.relayers.len() >= limits.unrewarded_relayer_entries
        },
{
}

/// The next message is refused for the unconfirmed messages exactly when there is room for its
/// relayer but, counting it, more messages than the limit allows would be unconfirmed.
pub proof fn law_messages_limit_is_told<RelayerId>(
    lane: LaneView<RelayerId>,
    nonce: MessageNonce,
    limits: LaneLimits,
)
    ensures
        lane.admission(nonce, limits) is TooManyUnconfirmedMessages <==> {
            &&& nonce == lane.last_delivered_nonce() + 1
            &&& lane.relayers.len() < limits.unrewarded_relayer_entries
            &&& nonce - lane.last_confirmed_nonce > limits.unconfirmed_messages
        },
{
}

/// A message is accepted exactly when it is the next one and neither limit stands against it.
pub proof fn law_accepted_messages<RelayerId>(
    lane: LaneView<RelayerId>,
    nonce: MessageNonce,
    limits: LaneLimits,
)
    ensures
        lane.admission(nonce, limits) is Accepted <==> {
            &&& nonce == lane.last_delivered_nonce() + 1
            &&& lane.relayers.len() < limits.unrewarded_relayer_entries
            &&& nonce - lane.last_confirmed_nonce <= limits.unconfirmed_messages
        },
{
}

/// A confirmation drops entries at the front alone, and exactly those that end at or before the
/// confirmed nonce up to the first that does not. The others stay in order, with their relayers and
/// their ends. Only the first of them may begin later than it did: right behind the confirmed nonce
/// if it began at or before it.
pub proof fn law_confirmation_drops_settled_entries<RelayerId>(
    lane: LaneView<RelayerId>,
    nonce: MessageNonce,
)
    ensures
        ({
            let after = lane.with_confirmed(nonce);
            let dropped = lane.relayers.len() - after.relayers.len();
            &&& after.state == lane.state
            &&& after.last_confirmed_nonce == nonce
            &&& dropped >= 0
            &&& forall|i: int|
                0 <= i < dropped ==> (#[trigger] lane.relayers[i]).messages.end <= nonce
            &&& after.relayers.len() > 0 ==> {
                let old_first = lane.relayers[dropped].messages;
                let new_first = after.relayers[0].messages;
                &&& new_first.end > nonce
                &&& new_first.begin == if old_first.begin <= nonce {
                    nonce + 1
                } else {
                    old_first.begin as int
                }
            }
            &&& forall|i: int|
                0 <= i < after.relayers.len() ==> {
                    &&& (#[trigger] after.relayers[i]).relayer == lane.relayers[dropped + i].relayer
                    &&& after.relayers[i].messages.end == lane.relayers[dropped + i].messages.end
                }
            &&& forall|i: int|
                0 < i < after.relayers.len() ==> (#[trigger] after.relayers[i]).messages.begin
                    == lane.relayers[dropped + i].messages.begin
        }),
{
    lemma_settled_entries(lane.relayers, nonce);
}

/// A delivery leaves the lane state, the last confirmed nonce and all entries but the youngest
/// alone. Either the youngest entry, whose relayer has compared equal to the deliverer, now ends
/// with the message. Or a new entry follows it, of a clone of the deliverer and with the message
/// alone, and the relayers have compared different if there was an entry before.
pub proof fn law_delivery_touches_youngest_entry<RelayerId: Clone + PartialEq>(
    before: LaneView<RelayerId>,
    relayer: RelayerId,
    nonce: MessageNonce,
    after: LaneView<RelayerId>,
)
    requires
        noted(before, relayer, nonce, after),
    ensures
        after.state == before.state,
        after.last_confirmed_nonce == before.last_confirmed_nonce,
        after.relayers.len() == before.relayers.len() || after.relayers.len()
            == before.relayers.len() + 1,
        forall|i: int|
            0 <= i < after.relayers.len() - 1 ==> #[trigger] after.relayers[i]
                == before.relayers[i],
        after.relayers.len() > 0,
        after.relayers[after.relayers.len() - 1].messages.end == nonce,
        after.relayers.len() == before.relayers.len() ==> {
            let last = before.relayers[before.relayers.len() - 1];
            &&& call_ensures(RelayerId::eq, (&last.relayer, &relayer), true)
            &&& after.relayers[after.relayers.len() - 1].relayer == last.relayer
            &&& after.relayers[after.relayers.len() - 1].messages.begin == last.messages.begin
        },
        after.relayers.len() == before.relayers.len() + 1 ==> {
            &&& before.relayers.len() > 0 ==> call_ensures(
                RelayerId::eq,
                (&before.relayers[before.relayers.len() - 1].relayer, &relayer),
                false,
            )
            &&& cloned(relayer, after.relayers[after.relayers.len() - 1].relayer)
            &&& after.relayers[after.relayers.len() - 1].messages.begin == nonce
        },
{
}

/// A lane is well formed exactly when no entry is empty, the oldest one begins right behind the
/// last confirmed nonce, and each other one right behind the end of the one before it.
pub proof fn law_well_formed_lanes<RelayerId>(lane: LaneView<RelayerId>)
    ensures
        lane.well_formed() <==> {
            &&& forall|i: int|
                0 <= i < lane.relayers.len() ==> (#[trigger] lane.relayers[i]).messages.begin
                    <= lane.relayers[i].messages.end
            &&& lane.relayers.len() > 0 ==> lane.relayers[0].messages.begin
                == lane.last_confirmed_nonce + 1
            &&& forall|i: int|
                0 < i < lane.relayers.len() ==> (#[trigger] lane.relayers[i]).messages.begin
                    == lane.relayers[i - 1].messages.end + 1
        },
{
    if lane.well_formed() {
        assert forall|i: int| 0 <= i < lane.relayers.len() implies {
            &&& (#[trigger] lane.relayers[i]).messages.begin <= lane.relayers[i].messages.end
            &&& lane.relayers[i].messages.begin == 1 + if i == 0 {
                lane.last_confirmed_nonce
            } else {
                lane.relayers[i - 1].messages.end
            }
        } by {
            assert(lane.entry_in_place(i));
        }
    }
}

/// A lane is within its limits exactly when neither its entries nor the messages between the last
/// confirmed and the last delivered nonce are more than they allow, and sound when besides it is
/// well formed and no two neighbouring entries have one relayer.
pub proof fn law_sound_lanes<RelayerId>(lane: LaneView<RelayerId>, limits: LaneLimits)
    ensures
        lane.within(limits) <==> {
            &&& lane.relayers.len() <= limits.unrewarded_relayer_entries
            &&& lane.last_delivered_nonce() - lane.last_confirmed_nonce
                <= limits.unconfirmed_messages
        },
        lane.neighbours_differ() <==> forall|i: int|
            0 < i < lane.relayers.len() ==> (#[trigger] lane.relayers[i]).relayer
                != lane.relayers[i - 1].relayer,
        lane.sound(limits) <==> lane.well_formed() && lane.neighbours_differ() && lane.within(
            limits,
        ),
{
    if lane.neighbours_differ() {
        assert forall|i: int| 0 < i < lane.relayers.len() implies (
        #[trigger] lane.relayers[i]).relayer != lane.relayers[i - 1].relayer by {
            assert(lane.relayer_changes_after(i - 1));
        }
    }
    if forall|i: int|
        0 < i < lane.relayers.len() ==> (#[trigger] lane.relayers[i]).relayer != lane.relayers[i
            - 1].relayer {
        assert forall|i: int| 0 <= i < lane.relayers.len() - 1 implies #[trigger]
            lane.relayer_changes_after(i) by {
            assert(lane.relayers[i + 1].relayer != lane.relayers[i].relayer);
        }
    }
}

/// A relayer is credited with a message exactly when some entry of the relayer begins at or before
/// the message and ends at or behind it.
pub proof fn law_credits<RelayerId>(
    lane: LaneView<RelayerId>,
    relayer: RelayerId,
    nonce: MessageNonce,
)
    ensures
        lane.credits(relayer, nonce) <==> exists|i: int|
            {
                &&& 0 <= i < lane.relayers.len()
                &&& (#[trigger] lane.relayers[i]).relayer == relayer
                &&& lane.relayers[i].messages.begin <= nonce
                &&& nonce <= lane.relayers[i].messages.end
            },
{
    assert forall|i: int|
        0 <= i < lane.relayers.len() && (#[trigger] lane.relayers[i]).messages.begin <= nonce
            && nonce <= lane.relayers[i].messages.end implies lane.holds(i, nonce) by {}
}

/// A range that ends before it begins has no message, a range of a single nonce has one, and each
/// further nonce at its end adds one, as long as the number fits a nonce.
pub proof fn law_message_count(messages: DeliveredMessages)
    ensures
        messages.begin > messages.end ==> message_count(messages) == 0,
        messages.begin == messages.end ==> message_count(messages) == 1,
        messages.begin < messages.end && message_count(
            DeliveredMessages {
                begin: messages.begin,
                end: (messages.end - 1) as MessageNonce,
            },
        ) < MessageNonce::MAX ==> message_count(messages) == message_count(
            DeliveredMessages {
                begin: messages.begin,
                end: (messages.end - 1) as MessageNonce,
            },
        ) + 1,
        messages.begin <= messages.end ==> message_count(messages) == messages.end - messages.begin
            + if messages.end - messages.begin < MessageNonce::MAX {
            1int
        } else {
            0int
        },
{
}

/// The unrewarded messages of a lane are counted from where the oldest entry begins to where the
/// youngest one ends. Without entries there are none.
pub proof fn law_total_unrewarded_messages<RelayerId>(lane: LaneView<RelayerId>)
    ensures
        lane.relayers.len() == 0 ==> lane.total_unrewarded_messages() == 0,
        lane.relayers.len() > 0 ==> {
            let begin = lane.relayers[0].messages.begin;
            let end = lane.relayers[lane.relayers.len() - 1].messages.end;
            &&& begin > end ==> lane.total_unrewarded_messages() == 0
            &&& begin <= end && end - begin < MessageNonce::MAX ==> lane.total_unrewarded_messages()
                == end - begin + 1
            &&& begin == 0 && end == MessageNonce::MAX ==> lane.total_unrewarded_messages()
                == MessageNonce::MAX
        },
{
}

/// Without entries there are no messages in entries, and one more entry adds its own.
pub proof fn law_messages_in_entries<RelayerId>(
    relayers: Seq<UnrewardedRelayer<RelayerId>>,
    entry: UnrewardedRelayer<RelayerId>,
)
    ensures
        messages_in(Seq::<UnrewardedRelayer<RelayerId>>::empty()) == 0,
        messages_in(relayers.push(entry)) == messages_in(relayers) + entry.messages.end
            - entry.messages.begin + 1,
{
    assert(relayers.push(entry).drop_last() == relayers);
}

/// Encoded lane data without entries takes a nonce, and each entry adds its own length, however
/// many there are. Each byte that an entry takes more counts once for each entry.
pub proof fn law_encoded_size_counts_each_entry(entries: usize, entry_max_encoded_len: usize)
    ensures
        encoded_size(0, entry_max_encoded_len) == 8,
        entries < usize::MAX ==> encoded_size((entries + 1) as usize, entry_max_encoded_len)
            == encoded_size(entries, entry_max_encoded_len) + entry_max_encoded_len,
        entry_max_encoded_len < usize::MAX ==> encoded_size(
            entries,
            (entry_max_encoded_len + 1) as usize,
        ) == encoded_size(entries, entry_max_encoded_len) + entries,
        encoded_size(entries, entry_max_encoded_len) == 8 + entries * entry_max_encoded_len,
{
    assert((entries + 1) * entry_max_encoded_len == entries * entry_max_encoded_len
        + entry_max_encoded_len) by (nonlinear_arith);
    assert(entries * (entry_max_encoded_len + 1) == entries * entry_max_encoded_len + entries)
        by (nonlinear_arith);
}

/// Relayers compare and clone plainly exactly when `==` can only answer whether two of them are
/// the same, and a clone is the same relayer. Plain relayers are told apart, and their clones
/// compare equal.
pub proof fn law_plain_relayers<RelayerId: Clone + PartialEq>()
    ensures
        plain_relayers::<RelayerId>() <==> {
            &&& forall|a: RelayerId, b: RelayerId, equal: bool| #[trigger]
                call_ensures(RelayerId::eq, (&a, &b), equal) ==> equal == (a == b)
            &&& forall|a: RelayerId, b: RelayerId| #[trigger] cloned(a, b) ==> a == b
        },
        plain_relayers::<RelayerId>() ==> relayers_told_apart::<RelayerId>()
            && clones_compare_equal::<RelayerId>(),
{
    if plain_relayers::<RelayerId>() {
        assert forall|a: RelayerId, b: RelayerId, equal: bool| #[trigger]
            call_ensures(RelayerId::eq, (&a, &b), equal) implies equal == (a == b) by {
            assert(cloned(a, a));
        }
    }
}

/// Relayers that are identified by an integer compare and clone plainly.
pub proof fn law_integer_relayers_are_plain()
    ensures
        plain_relayers::<u64>(),
{
}

/// A lane to which nothing has happened has a history, and whatever may happen to a lane with a
/// history continues it.
pub proof fn law_history_grows<RelayerId: Clone + PartialEq>(
    lane: LaneView<RelayerId>,
    history: History<RelayerId>,
    event: LaneEvent<RelayerId>,
    limits: LaneLimits,
    after: LaneView<RelayerId>,
)
    requires
        history.possible(limits),
        leads_to(history.lanes[history.lanes.len() - 1], event, limits, after),
    ensures
        (History { lanes: seq![lane], events: Seq::<LaneEvent<RelayerId>>::empty() }).possible(
            limits,
        ),
        (History { lanes: history.lanes.push(after), events: history.events.push(event) }).possible(
            limits,
        ),
{
    let longer = History { lanes: history.lanes.push(after), events: history.events.push(event) };
    assert forall|i: int| 0 <= i < longer.events.len() implies #[trigger] longer.step(limits, i) by {
        if i < history.events.len() {
            assert(history.step(limits, i));
        }
    }
}

} // verus!
