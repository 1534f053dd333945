use bridge_inbound_lane::inbound_lane::{InboundLane, InboundLaneStorage};
use bridge_inbound_lane::memory_storage::MemoryInboundLaneStorage;
use bridge_inbound_lane::messages::{
    DeliveredMessages, DispatchMessage, DispatchMessageData, InboundLaneData, LaneId,
    MessageDispatch, MessageDispatchResult, MessageNonce, OutboundLaneData, ReceivalResult,
    UnrewardedRelayer, UnrewardedRelayersState, Weight,
};

type TestRelayer = u64;

const TEST_RELAYER_A: TestRelayer = 100;
const TEST_RELAYER_B: TestRelayer = 101;
const TEST_RELAYER_C: TestRelayer = 102;

const MAX_UNREWARDED_RELAYERS_IN_CONFIRMATION_TX: MessageNonce = 16;
const MAX_UNCONFIRMED_MESSAGES_IN_CONFIRMATION_TX: MessageNonce = 128;

struct TestPayload {
    dispatch_result: MessageDispatchResult<()>,
}

const REGULAR_PAYLOAD: TestPayload = TestPayload {
    dispatch_result: MessageDispatchResult {
        unspent_weight: Weight { ref_time: 0, proof_size: 0 },
        dispatch_level_result: (),
    },
};

struct TestMessageDispatch;

impl MessageDispatch for TestMessageDispatch {
    type DispatchPayload = TestPayload;
    type DispatchLevelResult = ();

    fn dispatch(message: DispatchMessage<TestPayload>) -> MessageDispatchResult<()> {
        match message.data.payload {
            Ok(payload) => payload.dispatch_result,
            Err(_) => dispatch_result(0),
        }
    }
}

fn dispatch_result(unspent_weight: u64) -> MessageDispatchResult<()> {
    MessageDispatchResult {
        unspent_weight: Weight { ref_time: unspent_weight, proof_size: 0 },
        dispatch_level_result: (),
    }
}

fn inbound_message_data(payload: TestPayload) -> DispatchMessageData<TestPayload> {
    DispatchMessageData { payload: Ok(payload) }
}

fn test_lane_id() -> LaneId {
    LaneId([1; 32])
}

fn unrewarded_relayer(
    begin: MessageNonce,
    end: MessageNonce,
    relayer: TestRelayer,
) -> UnrewardedRelayer<TestRelayer> {
    UnrewardedRelayer { relayer, messages: DeliveredMessages { begin, end } }
}

type TestStorage = MemoryInboundLaneStorage<TestRelayer>;

fn lane_with(data: InboundLaneData<TestRelayer>) -> InboundLane<TestStorage> {
    InboundLane::new(MemoryInboundLaneStorage::new(
        test_lane_id(),
        MAX_UNREWARDED_RELAYERS_IN_CONFIRMATION_TX,
        MAX_UNCONFIRMED_MESSAGES_IN_CONFIRMATION_TX,
        data,
    ))
}

fn active_inbound_lane() -> InboundLane<TestStorage> {
    lane_with(InboundLaneData::opened())
}

fn receive_regular_message(lane: &mut InboundLane<TestStorage>, nonce: MessageNonce) {
    assert_eq!(
        lane.receive_message::<TestMessageDispatch>(
            &TEST_RELAYER_A,
            nonce,
            inbound_message_data(REGULAR_PAYLOAD)
        ),
        ReceivalResult::Dispatched(dispatch_result(0))
    );
}

#[test]
fn receive_status_update_ignores_status_from_the_future() {
    let mut lane = active_inbound_lane();
    receive_regular_message(&mut lane, 1);
    assert_eq!(
        lane.receive_state_update(OutboundLaneData {
            latest_received_nonce: 10,
            ..Default::default()
        }),
        None,
    );

    assert_eq!(lane.storage().data().last_confirmed_nonce, 0);
}

#[test]
fn receive_status_update_ignores_obsolete_status() {
    let mut lane = active_inbound_lane();
    receive_regular_message(&mut lane, 1);
    receive_regular_message(&mut lane, 2);
    receive_regular_message(&mut lane, 3);
    assert_eq!(
        lane.receive_state_update(OutboundLaneData {
            latest_received_nonce: 3,
            ..Default::default()
        }),
        Some(3),
    );
    assert_eq!(lane.storage().data().last_confirmed_nonce, 3);

    assert_eq!(
        lane.receive_state_update(OutboundLaneData {
            latest_received_nonce: 3,
            ..Default::default()
        }),
        None,
    );
    assert_eq!(lane.storage().data().last_confirmed_nonce, 3);
}

#[test]
fn receive_status_update_works() {
    let mut lane = active_inbound_lane();
    receive_regular_message(&mut lane, 1);
    receive_regular_message(&mut lane, 2);
    receive_regular_message(&mut lane, 3);
    assert_eq!(lane.storage().data().last_confirmed_nonce, 0);
    assert_eq!(
        lane.storage().data().relayers,
        vec![unrewarded_relayer(1, 3, TEST_RELAYER_A)]
    );

    assert_eq!(
        lane.receive_state_update(OutboundLaneData {
            latest_received_nonce: 2,
            ..Default::default()
        }),
        Some(2),
    );
    assert_eq!(lane.storage().data().last_confirmed_nonce, 2);
    assert_eq!(
        lane.storage().data().relayers,
        vec![unrewarded_relayer(3, 3, TEST_RELAYER_A)]
    );

    assert_eq!(
        lane.receive_state_update(OutboundLaneData {
            latest_received_nonce: 3,
            ..Default::default()
        }),
        Some(3),
    );
    assert_eq!(lane.storage().data().last_confirmed_nonce, 3);
    assert_eq!(lane.storage().data().relayers, vec![]);
}

#[test]
fn receive_status_update_works_with_batches_from_relayers() {
    // Prepare data
    let mut seed_storage_data = InboundLaneData::opened();
    seed_storage_data.last_confirmed_nonce = 0;
    seed_storage_data.relayers.push_back(unrewarded_relayer(1, 1, TEST_RELAYER_A));
    // Simulate messages batch (2, 3, 4) from relayer #2
    seed_storage_data.relayers.push_back(unrewarded_relayer(2, 4, TEST_RELAYER_B));
    seed_storage_data.relayers.push_back(unrewarded_relayer(5, 5, TEST_RELAYER_C));
    let mut lane = lane_with(seed_storage_data);
    // Check
    assert_eq!(
        lane.receive_state_update(OutboundLaneData {
            latest_received_nonce: 3,
            ..Default::default()
        }),
        Some(3),
    );
    assert_eq!(lane.storage().data().last_confirmed_nonce, 3);
    assert_eq!(
        lane.storage().data().relayers,
        vec![
            unrewarded_relayer(4, 4, TEST_RELAYER_B),
            unrewarded_relayer(5, 5, TEST_RELAYER_C)
        ]
    );
}

#[test]
fn fails_to_receive_message_with_incorrect_nonce() {
    let mut lane = active_inbound_lane();
    assert_eq!(
        lane.receive_message::<TestMessageDispatch>(
            &TEST_RELAYER_A,
            10,
            inbound_message_data(REGULAR_PAYLOAD)
        ),
        ReceivalResult::InvalidNonce
    );
    assert_eq!(lane.storage().data().last_delivered_nonce(), 0);
}

#[test]
fn fails_to_receive_messages_above_unrewarded_relayer_entries_limit_per_lane() {
    let mut lane = active_inbound_lane();
    let max_nonce = MAX_UNREWARDED_RELAYERS_IN_CONFIRMATION_TX;
    for current_nonce in 1..max_nonce + 1 {
        assert_eq!(
            lane.receive_message::<TestMessageDispatch>(
                &(TEST_RELAYER_A + current_nonce),
                current_nonce,
                inbound_message_data(REGULAR_PAYLOAD)
            ),
            ReceivalResult::Dispatched(dispatch_result(0))
        );
    }
    // Fails to dispatch new message from different than latest relayer.
    assert_eq!(
        lane.receive_message::<TestMessageDispatch>(
            &(TEST_RELAYER_A + max_nonce + 1),
            max_nonce + 1,
            inbound_message_data(REGULAR_PAYLOAD)
        ),
        ReceivalResult::TooManyUnrewardedRelayers,
    );
    // Fails to dispatch new messages from latest relayer. Prevents griefing attacks.
    assert_eq!(
        lane.receive_message::<TestMessageDispatch>(
            &(TEST_RELAYER_A + max_nonce),
            max_nonce + 1,
            inbound_message_data(REGULAR_PAYLOAD)
        ),
        ReceivalResult::TooManyUnrewardedRelayers,
    );
}

#[test]
fn fails_to_receive_messages_above_unconfirmed_messages_limit_per_lane() {
    let mut lane = active_inbound_lane();
    let max_nonce = MAX_UNCONFIRMED_MESSAGES_IN_CONFIRMATION_TX;
    for current_nonce in 1..=max_nonce {
        assert_eq!(
            lane.receive_message::<TestMessageDispatch>(
                &TEST_RELAYER_A,
                current_nonce,
                inbound_message_data(REGULAR_PAYLOAD)
            ),
            ReceivalResult::Dispatched(dispatch_result(0))
        );
    }
    // Fails to dispatch new message from different than latest relayer.
    assert_eq!(
        lane.receive_message::<TestMessageDispatch>(
            &TEST_RELAYER_B,
            max_nonce + 1,
            inbound_message_data(REGULAR_PAYLOAD)
        ),
        ReceivalResult::TooManyUnconfirmedMessages,
    );
    // Fails to dispatch new messages from latest relayer.
    assert_eq!(
        lane.receive_message::<TestMessageDispatch>(
            &TEST_RELAYER_A,
            max_nonce + 1,
            inbound_message_data(REGULAR_PAYLOAD)
        ),
        ReceivalResult::TooManyUnconfirmedMessages,
    );
}

#[test]
fn correctly_receives_following_messages_from_two_relayers_alternately() {
    let mut lane = active_inbound_lane();
    assert_eq!(
        lane.receive_message::<TestMessageDispatch>(
            &TEST_RELAYER_A,
            1,
            inbound_message_data(REGULAR_PAYLOAD)
        ),
        ReceivalResult::Dispatched(dispatch_result(0))
    );
    assert_eq!(
        lane.receive_message::<TestMessageDispatch>(
            &TEST_RELAYER_B,
            2,
            inbound_message_data(REGULAR_PAYLOAD)
        ),
        ReceivalResult::Dispatched(dispatch_result(0))
    );
    assert_eq!(
        lane.receive_message::<TestMessageDispatch>(
            &TEST_RELAYER_A,
            3,
            inbound_message_data(REGULAR_PAYLOAD)
        ),
        ReceivalResult::Dispatched(dispatch_result(0))
    );
    assert_eq!(
        lane.storage().data().relayers,
        vec![
            unrewarded_relayer(1, 1, TEST_RELAYER_A),
            unrewarded_relayer(2, 2, TEST_RELAYER_B),
            unrewarded_relayer(3, 3, TEST_RELAYER_A)
        ]
    );
}

#[test]
fn rejects_same_message_from_two_different_relayers() {
    let mut lane = active_inbound_lane();
    assert_eq!(
        lane.receive_message::<TestMessageDispatch>(
            &TEST_RELAYER_A,
            1,
            inbound_message_data(REGULAR_PAYLOAD)
        ),
        ReceivalResult::Dispatched(dispatch_result(0))
    );
    assert_eq!(
        lane.receive_message::<TestMessageDispatch>(
            &TEST_RELAYER_B,
            1,
            inbound_message_data(REGULAR_PAYLOAD)
        ),
        ReceivalResult::InvalidNonce,
    );
}

#[test]
fn correct_message_is_processed_instantly() {
    let mut lane = active_inbound_lane();
    receive_regular_message(&mut lane, 1);
    assert_eq!(lane.storage().data().last_delivered_nonce(), 1);
}

#[test]
fn unspent_weight_is_returned_by_receive_message() {
    let mut lane = active_inbound_lane();
    let mut payload = REGULAR_PAYLOAD;
    payload.dispatch_result.unspent_weight.ref_time = 1;
    assert_eq!(
        lane.receive_message::<TestMessageDispatch>(
            &TEST_RELAYER_A,
            1,
            inbound_message_data(payload)
        ),
        ReceivalResult::Dispatched(dispatch_result(1))
    );
}

#[test]
fn first_message_is_confirmed_correctly() {
    let mut lane = active_inbound_lane();
    receive_regular_message(&mut lane, 1);
    receive_regular_message(&mut lane, 2);
    assert_eq!(
        lane.receive_state_update(OutboundLaneData {
            latest_received_nonce: 1,
            ..Default::default()
        }),
        Some(1),
    );
    assert_eq!(
        lane.storage().data().unrewarded_relayers_state(),
        UnrewardedRelayersState {
            unrewarded_relayer_entries: 1,
            messages_in_oldest_entry: 1,
            total_messages: 1,
            last_delivered_nonce: 2,
        },
    );
}
