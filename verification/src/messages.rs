//! The data that a lane keeps and the values that pass through it.

use std::collections::VecDeque;
use vstd::prelude::*;

use crate::codec::nonce_max_encoded_len;
use crate::laws::law_confirmed_is_delivered;
use crate::model::{encoded_size, message_count, LaneView};

verus! {

/// Message nonce. Valid messages never have a zero nonce.
pub type MessageNonce = u64;

/// Lane identifier. The lane hands it on to the dispatcher and does not interpret it.
#[derive(Clone, Copy, Debug, PartialEq, Eq)]
pub struct LaneId(pub [u8; 32]);

/// Lane state.
#[derive(Clone, Copy, Debug, PartialEq, Eq, Structural)]
pub enum LaneState {
    /// Lane is opened.
    Opened,
    /// Lane is closed.
    Closed,
}

/// Unrewarded messages of one relayer: all nonces from `begin` to `end`, both included.
#[derive(Clone, Copy, Debug, PartialEq, Eq, Structural)]
pub struct DeliveredMessages {
    /// Nonce of the first message.
    pub begin: MessageNonce,
    /// Nonce of the last message.
    pub end: MessageNonce,
}

/// A relayer and the messages that it has delivered and that are not rewarded yet.
#[derive(Clone, Copy, Debug, PartialEq, Eq)]
pub struct UnrewardedRelayer<RelayerId> {
    /// Identifier of the relayer.
    pub relayer: RelayerId,
    /// Messages that the relayer has delivered.
    pub messages: DeliveredMessages,
}

/// Inbound lane data.
#[derive(Clone, Debug, PartialEq, Eq)]
pub struct InboundLaneData<RelayerId> {
    /// Inbound lane state.
    pub state: LaneState,
    /// Relayers and the messages that they have delivered, ordered by message nonce.
    pub relayers: VecDeque<UnrewardedRelayer<RelayerId>>,
    /// Nonce of the last message whose delivery is known to be confirmed at the sending chain.
    pub last_confirmed_nonce: MessageNonce,
}

/// Sum of the unrewarded relayers of a lane.
#[derive(Clone, Copy, Debug, PartialEq, Eq, Structural)]
pub struct UnrewardedRelayersState {
    /// Number of relayer entries.
    pub unrewarded_relayer_entries: MessageNonce,
    /// Number of messages in the oldest entry.
    pub messages_in_oldest_entry: MessageNonce,
    /// Number of messages in all entries.
    pub total_messages: MessageNonce,
    /// Nonce of the last message that has been delivered over the lane.
    pub last_delivered_nonce: MessageNonce,
}

/// Outbound lane data, as the sending chain proves it.
#[derive(Clone, Copy, Debug, PartialEq, Eq, Structural)]
pub struct OutboundLaneData {
    /// Lane state.
    pub state: LaneState,
    /// Nonce of the oldest message that is not yet pruned.
    pub oldest_unpruned_nonce: MessageNonce,
    /// Nonce of the latest message that the sending chain knows to be delivered.
    pub latest_received_nonce: MessageNonce,
    /// Nonce of the latest message that has been sent.
    pub latest_generated_nonce: MessageNonce,
}

/// Identifies a message: the lane that it came over and its nonce.
#[derive(Clone, Copy, Debug, PartialEq, Eq)]
pub struct MessageKey {
    /// Lane of the message.
    pub lane_id: LaneId,
    /// Nonce of the message.
    pub nonce: MessageNonce,
}

/// Message data with decoded dispatch payload.
#[derive(Debug)]
pub struct DispatchMessageData<DispatchPayload> {
    /// Result of dispatch payload decoding.
    pub payload: Result<DispatchPayload, parity_scale_codec::Error>,
}

/// A message on its way to the dispatcher.
#[derive(Debug)]
pub struct DispatchMessage<DispatchPayload> {
    /// Message key.
    pub key: MessageKey,
    /// Message data with decoded dispatch payload.
    pub data: DispatchMessageData<DispatchPayload>,
}

/// Weight: computation time and proof size.
#[derive(Clone, Copy, Debug, PartialEq, Eq, Structural)]
pub struct Weight {
    /// Computation time.
    pub ref_time: u64,
    /// Size of the storage proof.
    pub proof_size: u64,
}

/// Message dispatch result.
#[derive(Clone, Debug, PartialEq, Eq)]
pub struct MessageDispatchResult<DispatchLevelResult> {
    /// Part of the declared weight that the dispatch has not used.
    pub unspent_weight: Weight,
    /// Details of the result, as the dispatcher defines them.
    pub dispatch_level_result: DispatchLevelResult,
}

/// Result of single message receival.
#[derive(Clone, Debug, PartialEq, Eq)]
pub enum ReceivalResult<DispatchLevelResult> {
    /// Message has been received and dispatched. Note that we don't care whether dispatch has
    /// been successful or not - in both case message falls into this category.
    Dispatched(MessageDispatchResult<DispatchLevelResult>),
    /// Message has invalid nonce and lane has rejected to accept this message.
    InvalidNonce,
    /// There are too many unrewarded relayer entries at the lane.
    TooManyUnrewardedRelayers,
    /// There are too many unconfirmed messages at the lane.
    TooManyUnconfirmedMessages,
}

/// Called when an inbound message is received. What a dispatch does is up to the implementation.
pub trait MessageDispatch {
    /// Decoded payload of a message.
    type DispatchPayload;

    /// Fine-grained result of a single dispatch.
    type DispatchLevelResult;

    /// The messages that may be handed to the dispatcher: all of them, unless the implementation
    /// says otherwise.
    open spec fn may_dispatch(message: DispatchMessage<Self::DispatchPayload>) -> bool {
        true
    }

    /// Dispatches the message.
    fn dispatch(message: DispatchMessage<Self::DispatchPayload>) -> MessageDispatchResult<
        Self::DispatchLevelResult,
    >
        requires
            Self::may_dispatch(message),
    ;
}

impl DeliveredMessages {
    /// The range that holds `nonce` alone.
    pub fn new(nonce: MessageNonce) -> (messages: Self)
        ensures
            messages == (DeliveredMessages { begin: nonce, end: nonce }),
    {
        DeliveredMessages { begin: nonce, end: nonce }
    }

    /// Number of messages in the range, or the largest nonce if that number is larger still.
    pub fn total_messages(&self) -> (total: MessageNonce)
        ensures
            total == message_count(*self),
            self.begin > self.end ==> total == 0,
            self.begin <= self.end && self.end - self.begin < MessageNonce::MAX ==> total
                == self.end - self.begin + 1,
    {
        if self.begin <= self.end {
            (self.end - self.begin).saturating_add(1)
        } else {
            0
        }
    }

    /// Notes the message that follows the last one of the range.
    pub fn note_dispatched_message(&mut self)
        requires
            old(self).end < MessageNonce::MAX,
        ensures
            final(self).begin == old(self).begin,
            final(self).end == old(self).end + 1,
    {
        self.end = self.end + 1;
    }
}

impl Default for OutboundLaneData {
    /// A closed lane over which nothing has been sent.
    fn default() -> (data: Self)
        ensures
            data == (OutboundLaneData {
                state: LaneState::Closed,
                oldest_unpruned_nonce: 1,
                latest_received_nonce: 0,
                latest_generated_nonce: 0,
            }),
    {
        OutboundLaneData {
            state: LaneState::Closed,
            // everything in `oldest_unpruned_nonce..=latest_received_nonce` is to be pruned
            oldest_unpruned_nonce: 1,
            latest_received_nonce: 0,
            latest_generated_nonce: 0,
        }
    }
}

impl<RelayerId> View for InboundLaneData<RelayerId> {
    type V = LaneView<RelayerId>;

    open spec fn view(&self) -> LaneView<RelayerId> {
        LaneView {
            state: self.state,
            relayers: self.relayers@,
            last_confirmed_nonce: self.last_confirmed_nonce,
        }
    }
}

impl<RelayerId> Default for InboundLaneData<RelayerId> {
    /// A closed lane over which nothing has been delivered.
    fn default() -> (data: Self)
        ensures
            data@ == LaneView::<RelayerId>::fresh(LaneState::Closed),
            data.state == LaneState::Closed,
            data.relayers@.len() == 0,
            data.last_confirmed_nonce == 0,
    {
        InboundLaneData {
            state: LaneState::Closed,
            relayers: VecDeque::new(),
            last_confirmed_nonce: 0,
        }
    }
}

impl<RelayerId> InboundLaneData<RelayerId> {
    /// An opened lane over which nothing has been delivered.
    pub fn opened() -> (data: Self)
        ensures
            data@ == LaneView::<RelayerId>::fresh(LaneState::Opened),
            data.state == LaneState::Opened,
            data.relayers@.len() == 0,
            data.last_confirmed_nonce == 0,
    {
        InboundLaneData {
            state: LaneState::Opened,
            relayers: VecDeque::new(),
            last_confirmed_nonce: 0,
        }
    }

    /// Nonce of the last message that has been delivered over this lane.
    pub fn last_delivered_nonce(&self) -> (nonce: MessageNonce)
        ensures
            nonce == self@.last_delivered_nonce(),
            self.relayers@.len() == 0 ==> nonce == self.last_confirmed_nonce,
            self.relayers@.len() > 0 ==> nonce == self.relayers@[self.relayers@.len()
                - 1].messages.end,
    {
        let len: usize = self.relayers.len();
        if len > 0 {
            self.relayers[len - 1].messages.end
        } else {
            self.last_confirmed_nonce
        }
    }

    /// Number of messages from the first one of the oldest entry to the last one of the youngest.
    pub fn total_unrewarded_messages(&self) -> (total: MessageNonce)
        ensures
            total == self@.total_unrewarded_messages(),
            self@.well_formed() ==> total == self@.last_delivered_nonce()
                - self@.last_confirmed_nonce,
    {
        proof {
            if self@.well_formed() {
                law_confirmed_is_delivered(self@);
                if self@.relayers.len() > 0 {
                    assert(self@.entry_in_place(0));
                }
            }
        }
        let len: usize = self.relayers.len();
        if len > 0 {
            DeliveredMessages {
                begin: self.relayers[0].messages.begin,
                end: self.relayers[len - 1].messages.end,
            }.total_messages()
        } else {
            0
        }
    }

    /// Sums up the unrewarded relayers of the lane.
    pub fn unrewarded_relayers_state(&self) -> (state: UnrewardedRelayersState)
        ensures
            state.unrewarded_relayer_entries == self@.relayers.len(),
            state.messages_in_oldest_entry == if self@.relayers.len() > 0 {
                message_count(self@.relayers[0].messages)
            } else {
                0
            },
            state.total_messages == self@.total_unrewarded_messages(),
            state.last_delivered_nonce == self@.last_delivered_nonce(),
            self@.well_formed() ==> {
                &&& self@.relayers.len() > 0 ==> state.messages_in_oldest_entry
                    == self@.relayers[0].messages.end - self@.last_confirmed_nonce
                &&& state.total_messages == self@.last_delivered_nonce()
                    - self@.last_confirmed_nonce
            },
    {
        proof {
            if self@.well_formed() && self@.relayers.len() > 0 {
                assert(self@.entry_in_place(0));
            }
        }
        let messages_in_oldest_entry: MessageNonce = if self.relayers.len() > 0 {
            self.relayers[0].messages.total_messages()
        } else {
            0
        };
        UnrewardedRelayersState {
            unrewarded_relayer_entries: self.relayers.len() as MessageNonce,
            messages_in_oldest_entry,
            total_messages: self.total_unrewarded_messages(),
            last_delivered_nonce: self.last_delivered_nonce(),
        }
    }

    /// Approximate size of the encoded data with `relayers_entries` entries of at most
    /// `entry_max_encoded_len` bytes each, or `None` if that size is more than a `usize` can hold.
    pub fn encoded_size_hint(
        relayers_entries: usize,
        entry_max_encoded_len: usize,
    ) -> (size: Option<usize>)
        ensures
            size == if encoded_size(relayers_entries, entry_max_encoded_len) <= usize::MAX {
                Some(encoded_size(relayers_entries, entry_max_encoded_len) as usize)
            } else {
                None
            },
            relayers_entries * entry_max_encoded_len + 8 <= usize::MAX ==> size == Some(
                (relayers_entries * entry_max_encoded_len + 8) as usize,
            ),
            relayers_entries * entry_max_encoded_len + 8 > usize::MAX ==> size is None,
    {
        match relayers_entries.checked_mul(entry_max_encoded_len) {
            Some(entries_size) => entries_size.checked_add(nonce_max_encoded_len()),
            None => None,
        }
    }
}

} // verus!
