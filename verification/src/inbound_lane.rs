//! Everything about incoming messages receival.

use vstd::prelude::*;
use vstd::std_specs::convert::FromSpecImpl;

use crate::messages::{
    DeliveredMessages, DispatchMessage, DispatchMessageData, InboundLaneData, LaneId, LaneState,
    MessageDispatch, MessageKey, MessageNonce, OutboundLaneData, ReceivalResult, UnrewardedRelayer,
};
use crate::laws::law_event;
use crate::model::{
    clones_compare_equal, encoded_size, noted, settled_entries, unsettled, Admission, LaneEvent,
    LaneLimits, LaneView,
};

verus! {

/// Inbound lane storage.
pub trait InboundLaneStorage {
    /// Id of relayer on source chain.
    type Relayer: Clone + PartialEq;

    /// The lane that the storage is for.
    spec fn lane_id(&self) -> LaneId;

    /// How much the lane may hold.
    spec fn limits(&self) -> LaneLimits;

    /// What is stored.
    spec fn stored(&self) -> LaneView<Self::Relayer>;

    /// Lane id.
    fn id(&self) -> (id: LaneId)
        ensures
            id == self.lane_id(),
    ;

    /// Return maximal number of unrewarded relayer entries in inbound lane.
    fn max_unrewarded_relayer_entries(&self) -> (max: MessageNonce)
        ensures
            max == self.limits().unrewarded_relayer_entries,
    ;

    /// Return maximal number of unconfirmed messages in inbound lane.
    fn max_unconfirmed_messages(&self) -> (max: MessageNonce)
        ensures
            max == self.limits().unconfirmed_messages,
    ;

    /// Get lane data from the storage.
    fn data(&self) -> (data: InboundLaneData<Self::Relayer>)
        ensures
            data@ == self.stored(),
    ;

    /// Update lane data in the storage.
    fn set_data(&mut self, data: InboundLaneData<Self::Relayer>)
        ensures
            final(self).stored() == data@,
            final(self).lane_id() == old(self).lane_id(),
            final(self).limits() == old(self).limits(),
    ;

    /// Purge lane data from the storage.
    fn purge(self);
}

/// Inbound lane data wrapper that knows its maximal encoded length.
///
/// This wrapper allows us to avoid passing the bounds of the lane (maximal count of unrewarded
/// relayer entries, maximal count of unconfirmed messages) all over the code.
#[derive(Clone, Debug, PartialEq, Eq)]
pub struct StoredInboundLaneData<RelayerId>(pub InboundLaneData<RelayerId>);

impl<RelayerId> std::ops::Deref for StoredInboundLaneData<RelayerId> {
    type Target = InboundLaneData<RelayerId>;

    fn deref(&self) -> (data: &InboundLaneData<RelayerId>)
        ensures
            *data == self.0,
    {
        &self.0
    }
}

impl<RelayerId> std::ops::DerefMut for StoredInboundLaneData<RelayerId> {
    fn deref_mut(&mut self) -> (data: &mut InboundLaneData<RelayerId>)
        ensures
            *data == old(self).0,
            final(self).0 == *final(data),
    {
        &mut self.0
    }
}

impl<RelayerId> Default for StoredInboundLaneData<RelayerId> {
    fn default() -> (stored: Self)
        ensures
            stored.0@ == LaneView::<RelayerId>::fresh(LaneState::Closed),
            stored.0.state == LaneState::Closed,
            stored.0.relayers@.len() == 0,
            stored.0.last_confirmed_nonce == 0,
    {
        StoredInboundLaneData(InboundLaneData::default())
    }
}

impl<RelayerId> From<StoredInboundLaneData<RelayerId>> for InboundLaneData<RelayerId> {
    fn from(data: StoredInboundLaneData<RelayerId>) -> (inner: Self)
        ensures
            inner == data.0,
    {
        data.0
    }
}

impl<RelayerId> FromSpecImpl<StoredInboundLaneData<RelayerId>> for InboundLaneData<RelayerId> {
    open spec fn obeys_from_spec() -> bool {
        true
    }

    open spec fn from_spec(data: StoredInboundLaneData<RelayerId>) -> Self {
        data.0
    }
}

impl<RelayerId> StoredInboundLaneData<RelayerId> {
    /// Maximal encoded length of the data, as `InboundLaneData::encoded_size_hint` gives it, if a
    /// confirmation transaction of the bridged chain has room for `max_unrewarded_relayers`
    /// relayers and the entry of a relayer takes at most `entry_max_encoded_len` bytes. A length
    /// that a `usize` cannot hold is `usize::MAX`.
    pub fn max_encoded_len(
        max_unrewarded_relayers: MessageNonce,
        entry_max_encoded_len: usize,
    ) -> (len: usize)
        ensures
            len == if encoded_size(max_unrewarded_relayers as usize, entry_max_encoded_len)
                <= usize::MAX {
                encoded_size(max_unrewarded_relayers as usize, entry_max_encoded_len)
            } else {
                usize::MAX as int
            },
            (max_unrewarded_relayers as usize) * entry_max_encoded_len + 8 <= usize::MAX ==> len
                == (max_unrewarded_relayers as usize) * entry_max_encoded_len + 8,
            (max_unrewarded_relayers as usize) * entry_max_encoded_len + 8 > usize::MAX ==> len
                == usize::MAX,
    {
        match InboundLaneData::<RelayerId>::encoded_size_hint(
            max_unrewarded_relayers as usize,
            entry_max_encoded_len,
        ) {
            Some(size) => size,
            None => usize::MAX,
        }
    }
}

/// Inbound messages lane.
pub struct InboundLane<S> {
    storage: S,
}

impl<S: InboundLaneStorage> InboundLane<S> {
    /// The storage that backs the lane.
    pub closed spec fn backing(&self) -> S {
        self.storage
    }

    /// What the lane holds.
    pub open spec fn lane(&self) -> LaneView<S::Relayer> {
        self.backing().stored()
    }

    /// The lane is the same one as `other`, with the same limits.
    pub open spec fn same_lane(&self, other: &Self) -> bool {
        &&& self.backing().lane_id() == other.backing().lane_id()
        &&& self.backing().limits() == other.backing().limits()
    }

    /// Create new inbound lane backed by given storage.
    pub fn new(storage: S) -> (lane: Self)
        ensures
            lane.backing() == storage,
    {
        InboundLane { storage }
    }

    /// Get lane state.
    pub fn state(&self) -> (state: LaneState)
        ensures
            state == self.lane().state,
    {
        self.storage.data().state
    }

    /// Returns storage reference.
    pub fn storage(&self) -> (storage: &S)
        ensures
            *storage == self.backing(),
    {
        &self.storage
    }

    /// Set lane state.
    pub fn set_state(&mut self, state: LaneState)
        ensures
            final(self).lane() == old(self).lane().with_state(state),
            final(self).lane().state == state,
            final(self).lane().relayers == old(self).lane().relayers,
            final(self).lane().last_confirmed_nonce == old(self).lane().last_confirmed_nonce,
            final(self).same_lane(old(self)),
            old(self).lane().sound(old(self).backing().limits()) ==> final(self).lane().sound(
                old(self).backing().limits(),
            ),
    {
        let mut data = self.storage.data();
        data.state = state;
        self.storage.set_data(data);
        proof {
            law_event(
                old(self).lane(),
                LaneEvent::StateSet { state },
                old(self).backing().limits(),
                self.lane(),
            );
        }
    }

    /// Receive state of the corresponding outbound lane.
    ///
    /// A state that confirms nothing new, or messages that have not been delivered, is ignored.
    /// Otherwise all messages up to the confirmed nonce are settled and this nonce is returned.
    pub fn receive_state_update(
        &mut self,
        outbound_lane_data: OutboundLaneData,
    ) -> (confirmed: Option<MessageNonce>)
        ensures
            old(self).lane().confirmable(outbound_lane_data.latest_received_nonce) ==> {
                &&& confirmed == Some(outbound_lane_data.latest_received_nonce)
                &&& final(self).lane() == old(self).lane().with_confirmed(
                    outbound_lane_data.latest_received_nonce,
                )
                &&& final(self).same_lane(old(self))
            },
            !old(self).lane().confirmable(outbound_lane_data.latest_received_nonce) ==> {
                &&& confirmed is None
                &&& final(self).backing() == old(self).backing()
            },
            confirmed is Some <==> {
                &&& old(self).lane().last_confirmed_nonce
                    < outbound_lane_data.latest_received_nonce
                &&& outbound_lane_data.latest_received_nonce
                    <= old(self).lane().last_delivered_nonce()
            },
            confirmed is Some ==> final(self).lane().last_confirmed_nonce
                == outbound_lane_data.latest_received_nonce,
            old(self).lane().sound(old(self).backing().limits()) ==> final(self).lane().sound(
                old(self).backing().limits(),
            ),
    {
        let mut data = self.storage.data();
        let last_delivered_nonce: MessageNonce = data.last_delivered_nonce();

        if outbound_lane_data.latest_received_nonce > last_delivered_nonce {
            // this is something that should never happen if proofs are correct
            return None;
        }
        if outbound_lane_data.latest_received_nonce <= data.last_confirmed_nonce {
            return None;
        }
        let new_confirmed_nonce: MessageNonce = outbound_lane_data.latest_received_nonce;
        data.last_confirmed_nonce = new_confirmed_nonce;
        // Firstly, remove all of the records where higher nonce <= new confirmed nonce
        let ghost relayers = data.relayers@;
        let ghost mut removed: int = 0;
        assert(relayers.skip(0) == relayers);
        while data.relayers.len() > 0 && data.relayers[0].messages.end <= new_confirmed_nonce
            invariant
                0 <= removed <= relayers.len(),
                data.relayers@ == relayers.skip(removed),
                settled_entries(relayers, new_confirmed_nonce) == removed + settled_entries(
                    data.relayers@,
                    new_confirmed_nonce,
                ),
                data.state == old(self).lane().state,
                data.last_confirmed_nonce == new_confirmed_nonce,
            decreases data.relayers@.len(),
        {
            assert(data.relayers@.drop_first() == relayers.skip(removed + 1));
            data.relayers.pop_front();
            assert(data.relayers@ == relayers.skip(removed + 1));
            proof {
                removed = removed + 1;
            }
        }
        assert(data.relayers@ == relayers.skip(
            settled_entries(relayers, new_confirmed_nonce) as int,
        ));
        // Secondly, update the next record with lower nonce equal to new confirmed nonce if needed.
        // Note: There will be max. 1 record to update as we don't allow messages from relayers to
        // overlap.
        if data.relayers.len() > 0 && data.relayers[0].messages.begin <= new_confirmed_nonce {
            if let Some(mut entry) = data.relayers.pop_front() {
                entry.messages.begin = new_confirmed_nonce + 1;
                data.relayers.push_front(entry);
            }
        }
        assert(data.relayers@ == unsettled(relayers, new_confirmed_nonce));

        self.storage.set_data(data);
        proof {
            law_event(
                old(self).lane(),
                LaneEvent::Confirmed { nonce: new_confirmed_nonce },
                old(self).backing().limits(),
                self.lane(),
            );
        }
        Some(outbound_lane_data.latest_received_nonce)
    }

    /// Receive new message.
    ///
    /// The message is dispatched if it is the next one and the lane has room for it. It is then
    /// noted as delivered by the relayer. A message that is not dispatched changes nothing.
    ///
    /// The dispatcher need only be ready to take the message if the lane accepts it: no other
    /// message is ever handed to it, and this one once.
    pub fn receive_message<Dispatch: MessageDispatch>(
        &mut self,
        relayer_at_bridged_chain: &S::Relayer,
        nonce: MessageNonce,
        message_data: DispatchMessageData<Dispatch::DispatchPayload>,
    ) -> (result: ReceivalResult<Dispatch::DispatchLevelResult>)
        requires
            old(self).lane().admission(nonce, old(self).backing().limits()) is Accepted
                ==> Dispatch::may_dispatch(
                (DispatchMessage {
                    key: MessageKey { lane_id: old(self).backing().lane_id(), nonce },
                    data: message_data,
                }),
            ),
        ensures
            match old(self).lane().admission(nonce, old(self).backing().limits()) {
                Admission::Accepted => {
                    &&& result matches ReceivalResult::Dispatched(dispatch_result)
                    &&& call_ensures(
                        Dispatch::dispatch,
                        (DispatchMessage {
                            key: MessageKey { lane_id: old(self).backing().lane_id(), nonce },
                            data: message_data,
                        },),
                        dispatch_result,
                    )
                    &&& noted(old(self).lane(), *relayer_at_bridged_chain, nonce, final(self).lane())
                    &&& final(self).same_lane(old(self))
                },
                Admission::InvalidNonce => {
                    &&& result is InvalidNonce
                    &&& final(self).backing() == old(self).backing()
                },
                Admission::TooManyUnrewardedRelayers => {
                    &&& result is TooManyUnrewardedRelayers
                    &&& final(self).backing() == old(self).backing()
                },
                Admission::TooManyUnconfirmedMessages => {
                    &&& result is TooManyUnconfirmedMessages
                    &&& final(self).backing() == old(self).backing()
                },
            },
            result is InvalidNonce <==> nonce != old(self).lane().last_delivered_nonce() + 1,
            result is TooManyUnrewardedRelayers <==> {
                &&& nonce == old(self).lane().last_delivered_nonce() + 1
                &&& old(self).lane().relayers.len()
                    >= old(self).backing().limits().unrewarded_relayer_entries
            },
            result is TooManyUnconfirmedMessages <==> {
                &&& nonce == old(self).lane().last_delivered_nonce() + 1
                &&& old(self).lane().relayers.len()
                    < old(self).backing().limits().unrewarded_relayer_entries
                &&& nonce - old(self).lane().last_confirmed_nonce
                    > old(self).backing().limits().unconfirmed_messages
            },
            result is Dispatched ==> final(self).lane().last_delivered_nonce() == nonce,
            clones_compare_equal::<S::Relayer>() && old(self).lane().sound(
                old(self).backing().limits(),
            ) ==> final(self).lane().sound(old(self).backing().limits()),
    {
        let mut data = self.storage.data();
        match data.last_delivered_nonce().checked_add(1) {
            Some(next) => {
                if nonce != next {
                    return ReceivalResult::InvalidNonce;
                }
            },
            None => {
                return ReceivalResult::InvalidNonce;
            },
        }

        // if there are more unrewarded relayer entries than we may accept, reject this message
        if data.relayers.len() as MessageNonce >= self.storage.max_unrewarded_relayer_entries() {
            return ReceivalResult::TooManyUnrewardedRelayers;
        }
        // if there are more unconfirmed messages than we may accept, reject this message
        let unconfirmed_messages_count: MessageNonce = nonce.saturating_sub(
            data.last_confirmed_nonce,
        );
        if unconfirmed_messages_count > self.storage.max_unconfirmed_messages() {
            return ReceivalResult::TooManyUnconfirmedMessages;
        }
        // then, dispatch message
        let dispatch_result = Dispatch::dispatch(
            DispatchMessage {
                key: MessageKey { lane_id: self.storage.id(), nonce },
                data: message_data,
            },
        );

        // now let's update inbound lane storage
        let ghost before = data@;
        let len: usize = data.relayers.len();
        if len > 0 && data.relayers[len - 1].relayer == *relayer_at_bridged_chain {
            if let Some(mut entry) = data.relayers.pop_back() {
                entry.messages.note_dispatched_message();
                data.relayers.push_back(entry);
            }
            assert(data@ == before.with_last_extended(nonce));
        } else {
            let relayer = relayer_at_bridged_chain.clone();
            assert(cloned(*relayer_at_bridged_chain, relayer));
            data.relayers.push_back(
                UnrewardedRelayer { relayer, messages: DeliveredMessages::new(nonce) },
            );
            assert(data@ == before.with_entry(relayer, nonce));
        }
        self.storage.set_data(data);
        proof {
            law_event(
                old(self).lane(),
                LaneEvent::Delivered { relayer: *relayer_at_bridged_chain, nonce },
                old(self).backing().limits(),
                self.lane(),
            );
        }

        ReceivalResult::Dispatched(dispatch_result)
    }

    /// Purge lane state from the storage.
    pub fn purge(self) -> (purged: ())
        ensures
            call_ensures(S::purge, (self.backing(),), purged),
    {
        self.storage.purge()
    }
}

} // verus!
