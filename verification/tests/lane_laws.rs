use std::cell::{Cell, RefCell};
use std::rc::Rc;

use bridge_inbound_lane::inbound_lane::{InboundLane, InboundLaneStorage, StoredInboundLaneData};
use bridge_inbound_lane::memory_storage::MemoryInboundLaneStorage;
use bridge_inbound_lane::messages::{
    DeliveredMessages, DispatchMessage, DispatchMessageData, InboundLaneData, LaneId, LaneState,
    MessageDispatch, MessageDispatchResult, MessageKey, MessageNonce, OutboundLaneData,
    ReceivalResult, UnrewardedRelayer, UnrewardedRelayersState, Weight,
};
use bridge_inbound_lane::model::{LaneLimits, LaneView};

const LANE: LaneId = LaneId([7; 32]);

/// Hands back what it was given to dispatch.
struct Echo;

type Echoed = (MessageKey, Result<u32, parity_scale_codec::Error>);

impl MessageDispatch for Echo {
    type DispatchPayload = u32;
    type DispatchLevelResult = Echoed;

    fn dispatch(message: DispatchMessage<u32>) -> MessageDispatchResult<Echoed> {
        MessageDispatchResult {
            unspent_weight: Weight { ref_time: 5, proof_size: 6 },
            dispatch_level_result: (message.key, message.data.payload),
        }
    }
}

/// Storage whose contents outlive the lane, and which counts the writes.
struct SharedStorage {
    data: Rc<RefCell<InboundLaneData<String>>>,
    writes: Rc<Cell<usize>>,
    purged: Rc<Cell<bool>>,
    max_entries: MessageNonce,
    max_messages: MessageNonce,
}

impl InboundLaneStorage for SharedStorage {
    type Relayer = String;

    fn lane_id(&self) -> LaneId {
        unreachable!()
    }

    fn limits(&self) -> LaneLimits {
        unreachable!()
    }

    fn stored(&self) -> LaneView<String> {
        unreachable!()
    }

    fn id(&self) -> LaneId {
        LANE
    }

    fn max_unrewarded_relayer_entries(&self) -> MessageNonce {
        self.max_entries
    }

    fn max_unconfirmed_messages(&self) -> MessageNonce {
        self.max_messages
    }

    fn data(&self) -> InboundLaneData<String> {
        self.data.borrow().clone()
    }

    fn set_data(&mut self, data: InboundLaneData<String>) {
        self.writes.set(self.writes.get() + 1);
        *self.data.borrow_mut() = data;
    }

    fn purge(self) {
        self.purged.set(true);
    }
}

fn message(payload: u32) -> DispatchMessageData<u32> {
    DispatchMessageData { payload: Ok(payload) }
}

fn confirmation(latest_received_nonce: MessageNonce) -> OutboundLaneData {
    OutboundLaneData { latest_received_nonce, ..Default::default() }
}

fn entry<R>(begin: MessageNonce, end: MessageNonce, relayer: R) -> UnrewardedRelayer<R> {
    UnrewardedRelayer { relayer, messages: DeliveredMessages { begin, end } }
}

fn lane(
    max_entries: MessageNonce,
    max_messages: MessageNonce,
    last_confirmed_nonce: MessageNonce,
    relayers: Vec<UnrewardedRelayer<u64>>,
) -> InboundLane<MemoryInboundLaneStorage<u64>> {
    let data =
        InboundLaneData { state: LaneState::Opened, relayers: relayers.into(), last_confirmed_nonce };
    InboundLane::new(MemoryInboundLaneStorage::new(LANE, max_entries, max_messages, data))
}

fn is_dispatched<L>(result: ReceivalResult<L>) -> bool {
    matches!(result, ReceivalResult::Dispatched(_))
}

#[test]
fn dispatcher_gets_key_and_payload_of_the_message() {
    let mut lane = lane(4, 4, 0, vec![]);
    assert_eq!(
        lane.receive_message::<Echo>(&1, 1, message(77)),
        ReceivalResult::Dispatched(MessageDispatchResult {
            unspent_weight: Weight { ref_time: 5, proof_size: 6 },
            dispatch_level_result: (MessageKey { lane_id: LANE, nonce: 1 }, Ok(77)),
        })
    );
}

#[test]
fn undecodable_payload_reaches_the_dispatcher_and_counts_as_delivered() {
    let mut lane = lane(4, 4, 0, vec![]);
    let error = parity_scale_codec::Error::from("no payload");
    let data = DispatchMessageData { payload: Err(error.clone()) };
    assert_eq!(
        lane.receive_message::<Echo>(&1, 1, data),
        ReceivalResult::Dispatched(MessageDispatchResult {
            unspent_weight: Weight { ref_time: 5, proof_size: 6 },
            dispatch_level_result: (MessageKey { lane_id: LANE, nonce: 1 }, Err(error)),
        })
    );
    assert_eq!(lane.storage().data().last_delivered_nonce(), 1);
}

#[test]
fn rejected_message_and_ignored_update_write_nothing() {
    let data = Rc::new(RefCell::new(InboundLaneData::opened()));
    let writes = Rc::new(Cell::new(0));
    let mut lane = InboundLane::new(SharedStorage {
        data: data.clone(),
        writes: writes.clone(),
        purged: Rc::new(Cell::new(false)),
        max_entries: 1,
        max_messages: 5,
    });
    let alice = String::from("alice");
    assert_eq!(lane.receive_message::<Echo>(&alice, 2, message(0)), ReceivalResult::InvalidNonce);
    assert_eq!(lane.receive_message::<Echo>(&alice, 0, message(0)), ReceivalResult::InvalidNonce);
    assert_eq!(lane.receive_state_update(confirmation(0)), None);
    assert_eq!(lane.receive_state_update(confirmation(1)), None);
    assert_eq!(writes.get(), 0);

    assert!(is_dispatched(lane.receive_message::<Echo>(&alice, 1, message(0))));
    assert_eq!(writes.get(), 1);
    assert_eq!(
        lane.receive_message::<Echo>(&alice, 2, message(0)),
        ReceivalResult::TooManyUnrewardedRelayers
    );
    assert_eq!(writes.get(), 1);
    assert_eq!(data.borrow().relayers, vec![entry(1, 1, alice)]);

    assert_eq!(lane.receive_state_update(confirmation(1)), Some(1));
    assert_eq!(writes.get(), 2);
}

#[test]
fn purge_reaches_the_storage() {
    let purged = Rc::new(Cell::new(false));
    let lane = InboundLane::new(SharedStorage {
        data: Rc::new(RefCell::new(InboundLaneData::default())),
        writes: Rc::new(Cell::new(0)),
        purged: purged.clone(),
        max_entries: 1,
        max_messages: 1,
    });
    assert!(!purged.get());
    lane.purge();
    assert!(purged.get());
}

#[test]
fn state_is_what_was_set_and_nothing_else_changes() {
    let mut lane = lane(4, 4, 2, vec![entry(3, 4, 9)]);
    assert_eq!(lane.state(), LaneState::Opened);
    lane.set_state(LaneState::Closed);
    assert_eq!(lane.state(), LaneState::Closed);
    assert_eq!(lane.storage().data().relayers, vec![entry(3, 4, 9)]);
    assert_eq!(lane.storage().data().last_confirmed_nonce, 2);
    lane.set_state(LaneState::Opened);
    assert_eq!(lane.state(), LaneState::Opened);
}

#[test]
fn messages_of_one_relayer_share_an_entry() {
    let mut lane = lane(2, 10, 0, vec![]);
    for nonce in 1..=4 {
        assert!(is_dispatched(lane.receive_message::<Echo>(&50, nonce, message(0))));
    }
    assert_eq!(lane.storage().data().relayers, vec![entry(1, 4, 50)]);
    assert!(is_dispatched(lane.receive_message::<Echo>(&51, 5, message(0))));
    assert_eq!(lane.storage().data().relayers, vec![entry(1, 4, 50), entry(5, 5, 51)]);
}

#[test]
fn nothing_is_delivered_past_the_last_nonce() {
    let max = MessageNonce::MAX;
    let mut lane = lane(4, max, 0, vec![entry(1, max - 1, 8)]);
    assert!(is_dispatched(lane.receive_message::<Echo>(&8, max, message(0))));
    assert_eq!(lane.storage().data().relayers, vec![entry(1, max, 8)]);
    assert_eq!(lane.receive_message::<Echo>(&8, 0, message(0)), ReceivalResult::InvalidNonce);
    assert_eq!(lane.receive_message::<Echo>(&8, max, message(0)), ReceivalResult::InvalidNonce);
    assert_eq!(lane.receive_state_update(confirmation(max - 1)), Some(max - 1));
    assert_eq!(lane.storage().data().relayers, vec![entry(max, max, 8)]);
    assert_eq!(lane.receive_state_update(confirmation(max)), Some(max));
    assert_eq!(lane.storage().data().relayers, vec![]);
    assert_eq!(lane.receive_message::<Echo>(&8, 0, message(0)), ReceivalResult::InvalidNonce);
}

#[test]
fn confirmation_keeps_last_delivered_nonce() {
    let mut lane = lane(4, 9, 0, vec![entry(1, 2, 1), entry(3, 6, 2)]);
    for nonce in 1..=6 {
        assert_eq!(lane.receive_state_update(confirmation(nonce)), Some(nonce));
        assert_eq!(lane.storage().data().last_delivered_nonce(), 6);
        assert_eq!(lane.storage().data().last_confirmed_nonce, nonce);
    }
    assert_eq!(lane.storage().data().relayers, vec![]);
}

#[test]
fn confirmation_at_the_end_of_an_entry_leaves_the_next_one_whole() {
    let mut lane = lane(4, 9, 0, vec![entry(1, 2, 1), entry(3, 6, 2)]);
    assert_eq!(lane.receive_state_update(confirmation(2)), Some(2));
    assert_eq!(lane.storage().data().relayers, vec![entry(3, 6, 2)]);
}

#[test]
fn two_confirmations_leave_what_the_later_one_leaves() {
    let entries = || vec![entry(1, 2, 1), entry(3, 6, 2), entry(7, 7, 1)];
    let mut step_by_step = lane(4, 9, 0, entries());
    let mut at_once = lane(4, 9, 0, entries());
    assert_eq!(step_by_step.receive_state_update(confirmation(3)), Some(3));
    assert_eq!(step_by_step.receive_state_update(confirmation(5)), Some(5));
    assert_eq!(at_once.receive_state_update(confirmation(5)), Some(5));
    assert_eq!(step_by_step.storage().data(), at_once.storage().data());
    assert_eq!(at_once.storage().data().relayers, vec![entry(6, 6, 2), entry(7, 7, 1)]);
}

#[test]
fn confirmation_and_delivery_commute() {
    let mut confirmed_first = lane(4, 9, 0, vec![entry(1, 3, 1)]);
    let mut delivered_first = lane(4, 9, 0, vec![entry(1, 3, 1)]);
    assert_eq!(confirmed_first.receive_state_update(confirmation(2)), Some(2));
    assert!(is_dispatched(confirmed_first.receive_message::<Echo>(&1, 4, message(0))));
    assert!(is_dispatched(delivered_first.receive_message::<Echo>(&1, 4, message(0))));
    assert_eq!(delivered_first.receive_state_update(confirmation(2)), Some(2));
    assert_eq!(confirmed_first.storage().data(), delivered_first.storage().data());
    assert_eq!(delivered_first.storage().data().relayers, vec![entry(3, 4, 1)]);
}

#[test]
fn confirmation_of_everything_makes_room() {
    let mut lane = lane(1, 2, 0, vec![]);
    assert!(is_dispatched(lane.receive_message::<Echo>(&1, 1, message(0))));
    assert_eq!(
        lane.receive_message::<Echo>(&1, 2, message(0)),
        ReceivalResult::TooManyUnrewardedRelayers
    );
    assert_eq!(lane.receive_state_update(confirmation(1)), Some(1));
    assert!(is_dispatched(lane.receive_message::<Echo>(&1, 2, message(0))));
}

#[test]
fn entries_limit_is_checked_before_messages_limit() {
    let mut lane = lane(0, 0, 0, vec![]);
    assert_eq!(
        lane.receive_message::<Echo>(&1, 1, message(0)),
        ReceivalResult::TooManyUnrewardedRelayers
    );
}

#[test]
fn delivered_message_is_rejected_after_confirmation_too() {
    let mut lane = lane(4, 4, 0, vec![]);
    assert!(is_dispatched(lane.receive_message::<Echo>(&1, 1, message(0))));
    assert_eq!(lane.receive_state_update(confirmation(1)), Some(1));
    assert_eq!(lane.receive_message::<Echo>(&2, 1, message(0)), ReceivalResult::InvalidNonce);
    assert_eq!(lane.storage().data().last_delivered_nonce(), 1);
}

#[test]
fn unrewarded_relayers_are_summed_up() {
    let data = lane(4, 9, 4, vec![entry(5, 7, 1), entry(8, 8, 2)]).storage().data();
    assert_eq!(
        data.unrewarded_relayers_state(),
        UnrewardedRelayersState {
            unrewarded_relayer_entries: 2,
            messages_in_oldest_entry: 3,
            total_messages: 4,
            last_delivered_nonce: 8,
        }
    );
    assert_eq!(
        InboundLaneData::<u64>::opened().unrewarded_relayers_state(),
        UnrewardedRelayersState {
            unrewarded_relayer_entries: 0,
            messages_in_oldest_entry: 0,
            total_messages: 0,
            last_delivered_nonce: 0,
        }
    );
}

#[test]
fn unrewarded_messages_of_ill_formed_data_are_counted_too() {
    let max = MessageNonce::MAX;
    let data = lane(4, 9, 0, vec![entry(7, 5, 1), entry(0, 3, 2)]).storage().data();
    assert_eq!(
        data.unrewarded_relayers_state(),
        UnrewardedRelayersState {
            unrewarded_relayer_entries: 2,
            messages_in_oldest_entry: 0,
            total_messages: 0,
            last_delivered_nonce: 3,
        }
    );
    assert_eq!(DeliveredMessages { begin: 0, end: max }.total_messages(), max);
    assert_eq!(DeliveredMessages { begin: 1, end: max }.total_messages(), max);
    assert_eq!(DeliveredMessages { begin: 2, end: max }.total_messages(), max - 1);
    assert_eq!(DeliveredMessages { begin: 4, end: 4 }.total_messages(), 1);
    let data = lane(4, 9, 0, vec![entry(2, 1, 1), entry(0, 3, 2)]).storage().data();
    assert_eq!(data.total_unrewarded_messages(), 2);
}

#[test]
fn stored_data_gives_access_to_lane_data() {
    let mut stored = StoredInboundLaneData::<u64>::default();
    assert_eq!(stored.state, LaneState::Closed);
    assert_eq!(stored.last_delivered_nonce(), 0);
    stored.last_confirmed_nonce = 3;
    stored.relayers.push_back(entry(4, 5, 1));
    assert_eq!(stored.last_delivered_nonce(), 5);
    let data: InboundLaneData<u64> = stored.clone().into();
    assert_eq!(data, stored.0);
    assert_eq!(data.last_confirmed_nonce, 3);
}

#[test]
fn maximal_encoded_length_counts_entries_and_a_nonce() {
    assert_eq!(StoredInboundLaneData::<u64>::max_encoded_len(16, 24), 392);
    assert_eq!(StoredInboundLaneData::<u64>::max_encoded_len(0, 24), 8);
    assert_eq!(StoredInboundLaneData::<u64>::max_encoded_len(2, usize::MAX), usize::MAX);
    assert_eq!(StoredInboundLaneData::<u64>::max_encoded_len(1, usize::MAX - 7), usize::MAX);
    assert_eq!(StoredInboundLaneData::<u64>::max_encoded_len(1, usize::MAX - 8), usize::MAX);
    assert_eq!(StoredInboundLaneData::<u64>::max_encoded_len(1, usize::MAX - 9), usize::MAX - 1);
    assert_eq!(InboundLaneData::<u64>::encoded_size_hint(16, 24), Some(392));
    assert_eq!(InboundLaneData::<u64>::encoded_size_hint(1, usize::MAX - 7), None);
    assert_eq!(InboundLaneData::<u64>::encoded_size_hint(2, usize::MAX), None);
}

/// Counts dispatches in the payload.
struct Counting;

impl MessageDispatch for Counting {
    type DispatchPayload = Rc<Cell<u32>>;
    type DispatchLevelResult = ();

    fn dispatch(message: DispatchMessage<Rc<Cell<u32>>>) -> MessageDispatchResult<()> {
        if let Ok(count) = message.data.payload {
            count.set(count.get() + 1);
        }
        MessageDispatchResult {
            unspent_weight: Weight { ref_time: 0, proof_size: 0 },
            dispatch_level_result: (),
        }
    }
}

#[test]
fn accepted_message_is_dispatched_once_and_rejected_one_never() {
    let count = Rc::new(Cell::new(0));
    let data = || DispatchMessageData { payload: Ok(count.clone()) };
    let mut lane = lane(2, 2, 0, vec![]);
    assert!(is_dispatched(lane.receive_message::<Counting>(&1, 1, data())));
    assert_eq!(count.get(), 1);
    assert_eq!(lane.receive_message::<Counting>(&1, 1, data()), ReceivalResult::InvalidNonce);
    assert_eq!(count.get(), 1);
    assert!(is_dispatched(lane.receive_message::<Counting>(&1, 2, data())));
    assert_eq!(count.get(), 2);
    assert_eq!(
        lane.receive_message::<Counting>(&1, 3, data()),
        ReceivalResult::TooManyUnconfirmedMessages
    );
    assert_eq!(count.get(), 2);
}

#[test]
fn course_of_a_lane_leaves_no_gaps_and_repeats_nothing() {
    let mut lane = lane(3, 5, 0, vec![]);
    let mut dispatched = vec![];
    for round in 0..200u64 {
        for nonce in 0..40 {
            if is_dispatched(lane.receive_message::<Echo>(&(round % 3), nonce, message(0))) {
                dispatched.push(nonce);
            }
        }
        let data = lane.storage().data();
        let mut next = data.last_confirmed_nonce + 1;
        for held in &data.relayers {
            assert_eq!(held.messages.begin, next);
            assert!(held.messages.begin <= held.messages.end);
            next = held.messages.end + 1;
        }
        assert_eq!(data.last_delivered_nonce() + 1, next);
        for i in 1..data.relayers.len() {
            assert_ne!(data.relayers[i - 1].relayer, data.relayers[i].relayer);
        }
        assert!(data.relayers.len() <= 3);
        assert!(data.last_delivered_nonce() - data.last_confirmed_nonce <= 5);
        lane.receive_state_update(confirmation(data.last_confirmed_nonce + 1 + round % 2));
    }
    assert_eq!(dispatched, (1..40).collect::<Vec<u64>>());
}

/// Two of these are equal if they belong to one group.
#[derive(Clone, Copy, Debug)]
struct Member {
    group: u8,
    name: char,
}

impl PartialEq for Member {
    fn eq(&self, other: &Member) -> bool {
        self.group == other.group
    }
}

#[test]
fn relayers_that_compare_equal_share_the_entry_of_the_first() {
    let member = |group, name| Member { group, name };
    let mut lane =
        InboundLane::new(MemoryInboundLaneStorage::new(LANE, 9, 9, InboundLaneData::opened()));
    for (nonce, relayer) in [(1, member(1, 'a')), (2, member(1, 'b')), (3, member(2, 'a'))] {
        assert!(is_dispatched(lane.receive_message::<Echo>(&relayer, nonce, message(0))));
    }
    let data = lane.storage().data();
    assert_eq!(data.relayers, vec![entry(1, 2, member(1, 'a')), entry(3, 3, member(2, 'a'))]);
    assert_eq!(data.relayers[0].relayer.name, 'a');
}
