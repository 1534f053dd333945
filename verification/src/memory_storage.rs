//! Lane storage in memory.

use std::collections::VecDeque;
use vstd::prelude::*;

use crate::inbound_lane::InboundLaneStorage;
use crate::messages::{InboundLaneData, LaneId, MessageNonce, UnrewardedRelayer};
use crate::model::{LaneLimits, LaneView};

verus! {

/// Storage of a single lane that lives as long as the value itself.
#[derive(Debug)]
pub struct MemoryInboundLaneStorage<Relayer> {
    lane_id: LaneId,
    max_unrewarded_relayer_entries: MessageNonce,
    max_unconfirmed_messages: MessageNonce,
    data: InboundLaneData<Relayer>,
}

impl<Relayer: Copy + PartialEq> MemoryInboundLaneStorage<Relayer> {
    /// Storage of the given lane, with the given limits, that holds `data`.
    pub fn new(
        lane_id: LaneId,
        max_unrewarded_relayer_entries: MessageNonce,
        max_unconfirmed_messages: MessageNonce,
        data: InboundLaneData<Relayer>,
    ) -> (storage: Self)
        ensures
            storage.lane_id() == lane_id,
            storage.limits() == (LaneLimits {
                unrewarded_relayer_entries: max_unrewarded_relayer_entries,
                unconfirmed_messages: max_unconfirmed_messages,
            }),
            storage.stored() == data@,
    {
        MemoryInboundLaneStorage {
            lane_id,
            max_unrewarded_relayer_entries,
            max_unconfirmed_messages,
            data,
        }
    }
}

impl<Relayer: Copy + PartialEq> InboundLaneStorage for MemoryInboundLaneStorage<Relayer> {
    type Relayer = Relayer;

    closed spec fn lane_id(&self) -> LaneId {
        self.lane_id
    }

    closed spec fn limits(&self) -> LaneLimits {
        LaneLimits {
            unrewarded_relayer_entries: self.max_unrewarded_relayer_entries,
            unconfirmed_messages: self.max_unconfirmed_messages,
        }
    }

    closed spec fn stored(&self) -> LaneView<Relayer> {
        self.data@
    }

    fn id(&self) -> (id: LaneId) {
        self.lane_id
    }

    fn max_unrewarded_relayer_entries(&self) -> (max: MessageNonce) {
        self.max_unrewarded_relayer_entries
    }

    fn max_unconfirmed_messages(&self) -> (max: MessageNonce) {
        self.max_unconfirmed_messages
    }

    fn data(&self) -> (data: InboundLaneData<Relayer>) {
        let len: usize = self.data.relayers.len();
        let mut relayers: VecDeque<UnrewardedRelayer<Relayer>> = VecDeque::with_capacity(len);
        for i in 0..len
            invariant
                len == self.data.relayers@.len(),
                relayers@ == self.data.relayers@.take(i as int),
        {
            let entry = &self.data.relayers[i];
            relayers.push_back(
                UnrewardedRelayer { relayer: entry.relayer, messages: entry.messages },
            );
            assert(relayers@ == self.data.relayers@.take(i + 1));
        }
        assert(relayers@ == self.data.relayers@);
        InboundLaneData {
            state: self.data.state,
            relayers,
            last_confirmed_nonce: self.data.last_confirmed_nonce,
        }
    }

    fn set_data(&mut self, data: InboundLaneData<Relayer>) {
        self.data = data;
    }

    fn purge(self) {
    }
}

} // verus!
