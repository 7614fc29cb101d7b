use group_call::client::{
    Action, Client, EndReason, GroupCallKind, JoinState, Joined, SfuInfo,
};
use group_call::peek::{PeekDeviceInfo, PeekInfo};
use group_call::protocol::{RingIntentionKind, SignalingMessageUrgency};
use group_call::ring_id::RingId;

fn sfu_info() -> SfuInfo {
    SfuInfo {
        udp_addresses: vec!["10.0.0.1:10000".to_string()],
        tcp_addresses: vec![],
        ice_ufrag: "sfu-ufrag".to_string(),
        ice_pwd: "sfu-password".to_string(),
    }
}

fn joined(creator: Option<Vec<u8>>, era_id: &str, local_demux_id: u32) -> Joined {
    Joined {
        sfu_info: sfu_info(),
        local_demux_id,
        server_dhe_pub_key: [3u8; 32],
        hkdf_extra_info: vec![],
        creator,
        era_id: era_id.to_string(),
    }
}

fn peek_info(devices: &[(u32, Option<Vec<u8>>)], pending: &[(u32, Option<Vec<u8>>)]) -> PeekInfo {
    PeekInfo {
        devices: devices
            .iter()
            .map(|(demux_id, user_id)| PeekDeviceInfo {
                demux_id: *demux_id,
                user_id: user_id.clone(),
            })
            .collect(),
        pending_devices: pending
            .iter()
            .map(|(demux_id, user_id)| PeekDeviceInfo {
                demux_id: *demux_id,
                user_id: user_id.clone(),
            })
            .collect(),
        creator: None,
        era_id: Some("1122334455667788".to_string()),
        max_devices: None,
    }
}

fn start_client() -> Client {
    let (client, _) = Client::start(b"group".to_vec(), 1, GroupCallKind::CallLink, None, None, 0);
    client
}

const ERA: &str = "1122334455667788";

fn connect_and_join(client: &mut Client, creator: Option<Vec<u8>>) -> Vec<Action> {
    let self_user = vec![1u8];
    client.connect(0);
    client.join(0, false, Some(self_user.clone()));
    client.on_sfu_client_joined(0, Some(self_user), Ok(joined(creator, ERA, 1)))
}

fn ring_intentions(actions: &[Action]) -> Vec<(i64, RingIntentionKind)> {
    actions
        .iter()
        .filter_map(|a| match a {
            Action::SendSignalingMessageToGroup {
                message, urgency, ..
            } => {
                assert_eq!(*urgency, SignalingMessageUrgency::HandleImmediately);
                message
                    .ring_intention
                    .as_ref()
                    .map(|ri| (i64::from(ri.ring_id), ri.kind))
            }
            _ => None,
        })
        .collect()
}

fn peek_changes(actions: &[Action]) -> Vec<Vec<Vec<u8>>> {
    actions
        .iter()
        .filter_map(|a| match a {
            Action::HandlePeekChanged { joined_members, .. } => Some(joined_members.clone()),
            _ => None,
        })
        .collect()
}

#[test]
fn group_ring() {
    let mut client = start_client();
    let actions = connect_and_join(&mut client, Some(vec![1u8]));
    assert_eq!(ring_intentions(&actions), vec![]);
    let actions = client.ring(None);
    let expected = i64::from(RingId::from_era_id(ERA));
    assert_eq!(
        ring_intentions(&actions),
        vec![(expected, RingIntentionKind::Ring)]
    );
}

#[test]
fn group_ring_cancel() {
    let mut client = start_client();
    connect_and_join(&mut client, Some(vec![1u8]));
    client.ring(None);
    let actions = client.disconnect();
    let expected = i64::from(RingId::from_era_id(ERA));
    assert_eq!(
        ring_intentions(&actions),
        vec![(expected, RingIntentionKind::Cancelled)]
    );
    assert!(actions
        .iter()
        .any(|a| matches!(a, Action::HandleEnded { reason: EndReason::DeviceExplicitlyDisconnected })));
}

#[test]
fn group_ring_no_cancel_if_someone_joins() {
    let mut client = start_client();
    connect_and_join(&mut client, Some(vec![1u8]));
    client.ring(None);
    // A remote device appears between the ring and the leave.
    client.set_peek_result(1, Ok(peek_info(&[(2, Some(vec![2u8]))], &[])));
    let actions = client.disconnect();
    assert_eq!(ring_intentions(&actions), vec![]);
}

#[test]
fn group_ring_no_cancel_if_call_was_not_empty() {
    let mut client = start_client();
    connect_and_join(&mut client, Some(vec![1u8]));
    // Someone else is already in the call when the ring goes out.
    client.set_peek_result(1, Ok(peek_info(&[(2, Some(vec![2u8]))], &[])));
    let ring_actions = client.ring(None);
    let expected = i64::from(RingId::from_era_id(ERA));
    assert_eq!(
        ring_intentions(&ring_actions),
        vec![(expected, RingIntentionKind::Ring)]
    );
    let actions = client.disconnect();
    assert_eq!(ring_intentions(&actions), vec![]);
}

#[test]
fn group_ring_cancel_if_call_is_currently_empty() {
    let mut client = start_client();
    connect_and_join(&mut client, Some(vec![1u8]));
    // Someone was in the call, but left before the ring.
    client.set_peek_result(1, Ok(peek_info(&[(2, Some(vec![2u8]))], &[])));
    client.set_peek_result(2, Ok(peek_info(&[], &[])));
    client.ring(None);
    let actions = client.disconnect();
    let expected = i64::from(RingId::from_era_id(ERA));
    assert_eq!(
        ring_intentions(&actions),
        vec![(expected, RingIntentionKind::Cancelled)]
    );
}

#[test]
fn group_ring_cancel_if_call_is_just_you() {
    let mut client = start_client();
    connect_and_join(&mut client, Some(vec![1u8]));
    // The peek lists only the local device.
    client.set_peek_result(1, Ok(peek_info(&[(1, Some(vec![1u8]))], &[])));
    client.ring(None);
    let actions = client.disconnect();
    let expected = i64::from(RingId::from_era_id(ERA));
    assert_eq!(
        ring_intentions(&actions),
        vec![(expected, RingIntentionKind::Cancelled)]
    );
}

#[test]
fn group_ring_delayed_until_join() {
    let mut client = start_client();
    let actions = client.ring(None);
    assert_eq!(ring_intentions(&actions), vec![]);
    // The wish is honored once joining shows we created the call.
    let actions = connect_and_join(&mut client, Some(vec![1u8]));
    let expected = i64::from(RingId::from_era_id(ERA));
    assert_eq!(
        ring_intentions(&actions),
        vec![(expected, RingIntentionKind::Ring)]
    );
}

#[test]
fn group_ring_not_sent_on_different_creator() {
    let mut client = start_client();
    connect_and_join(&mut client, Some(vec![9u8]));
    let actions = client.ring(None);
    assert_eq!(ring_intentions(&actions), vec![]);
}

#[test]
fn group_ring_delayed_with_different_creator() {
    let mut client = start_client();
    client.ring(None);
    let actions = connect_and_join(&mut client, Some(vec![9u8]));
    assert_eq!(ring_intentions(&actions), vec![]);
    let actions = client.disconnect();
    assert_eq!(ring_intentions(&actions), vec![]);
}

#[test]
fn full_call() {
    let mut client = start_client();
    client.connect(0);
    let mut info = peek_info(&[(7, Some(vec![7u8]))], &[]);
    info.max_devices = Some(1);
    client.set_peek_result(0, Ok(info));
    let actions = client.join(1, false, Some(vec![1u8]));
    assert!(actions
        .iter()
        .any(|a| matches!(a, Action::HandleEnded { reason: EndReason::HasMaxDevices })));
    // The busy flag was never taken.
    assert!(!actions.iter().any(|a| matches!(a, Action::SetBusy { .. })));
}

#[test]
fn joined_members() {
    let mut peeker = start_client();
    peeker.connect(0);

    let joiner1 = vec![1u8];
    let joiner2 = vec![2u8];

    let actions = peeker.set_peek_result(1, Ok(peek_info(&[(11, Some(joiner1.clone()))], &[])));
    assert_eq!(peek_changes(&actions), vec![vec![joiner1.clone()]]);

    let actions = peeker.set_peek_result(2, Ok(peek_info(&[(21, Some(joiner2.clone()))], &[])));
    assert_eq!(peek_changes(&actions), vec![vec![joiner2.clone()]]);

    let actions = peeker.set_peek_result(
        3,
        Ok(peek_info(
            &[(11, Some(joiner1.clone())), (21, Some(joiner2.clone()))],
            &[],
        )),
    );
    assert_eq!(
        peek_changes(&actions),
        vec![vec![joiner1.clone(), joiner2.clone()]]
    );

    // Nothing changed: no callback.
    let actions = peeker.set_peek_result(
        4,
        Ok(peek_info(
            &[(11, Some(joiner1.clone())), (21, Some(joiner2.clone()))],
            &[],
        )),
    );
    assert_eq!(peek_changes(&actions), Vec::<Vec<Vec<u8>>>::new());

    let actions = peeker.set_peek_result(5, Ok(peek_info(&[], &[])));
    assert_eq!(peek_changes(&actions), vec![Vec::<Vec<u8>>::new()]);
}

#[test]
fn fire_events_on_first_peek_info() {
    let mut client = start_client();
    client.connect(0);
    // The very first peek reports a change even with nobody in the call.
    let actions = client.set_peek_result(1, Ok(peek_info(&[], &[])));
    assert_eq!(peek_changes(&actions).len(), 1);
    let actions = client.set_peek_result(2, Ok(peek_info(&[], &[])));
    assert_eq!(peek_changes(&actions).len(), 0);
}

#[test]
fn pending_clients() {
    let mut peeker = start_client();
    peeker.connect(0);
    let joiner1 = vec![1u8];
    let joiner2 = vec![2u8];

    let actions = peeker.set_peek_result(1, Ok(peek_info(&[], &[(11, Some(joiner1.clone()))])));
    assert_eq!(peek_changes(&actions).len(), 1);

    let actions = peeker.set_peek_result(
        2,
        Ok(peek_info(
            &[],
            &[(11, Some(joiner1.clone())), (21, Some(joiner2.clone()))],
        )),
    );
    assert_eq!(peek_changes(&actions).len(), 1);

    // The same pending users in another order: the signature is
    // order-independent, so nothing fires.
    let actions = peeker.set_peek_result(
        3,
        Ok(peek_info(
            &[],
            &[(21, Some(joiner2.clone())), (11, Some(joiner1.clone()))],
        )),
    );
    assert_eq!(peek_changes(&actions).len(), 0);

    let actions = peeker.set_peek_result(4, Ok(peek_info(&[], &[(11, Some(joiner1.clone()))])));
    assert_eq!(peek_changes(&actions).len(), 1);
}

#[test]
fn approve_not_found() {
    let mut client = start_client();
    connect_and_join(&mut client, None);
    client.set_peek_result(1, Ok(peek_info(&[], &[])));
    let actions = client.approve_user(vec![42u8]);
    assert_eq!(actions, vec![]);
}

#[test]
fn device_to_sfu_approve_and_deny() {
    let mut client = start_client();
    connect_and_join(&mut client, None);
    let pending_user = vec![5u8];
    client.set_peek_result(1, Ok(peek_info(&[], &[(32, Some(pending_user.clone()))])));
    let actions = client.approve_user(pending_user.clone());
    assert!(actions.iter().any(|a| matches!(
        a,
        Action::SendDataToSfu { message, .. }
            if message.admin_action == Some(group_call::protocol::AdminAction::Approve(32))
    )));
    let actions = client.deny_user(pending_user);
    assert!(actions.iter().any(|a| matches!(
        a,
        Action::SendDataToSfu { message, .. }
            if message.admin_action == Some(group_call::protocol::AdminAction::Deny(32))
    )));
}

#[test]
fn era_id_populated_after_join() {
    let mut client = start_client();
    connect_and_join(&mut client, None);
    client.set_peek_result(1, Ok(peek_info(&[], &[])));
    assert_eq!(
        client.last_peek_info.as_ref().unwrap().era_id,
        Some(ERA.to_string())
    );
}

#[test]
fn carry_over_devices_from_peeking_to_joined() {
    let mut client = start_client();
    client.connect(0);
    // Peeked before joining: the roster is empty but members are reported.
    let user = vec![2u8];
    client.set_peek_result(0, Ok(peek_info(&[(2, Some(user.clone()))], &[])));
    assert_eq!(client.remote_devices.len(), 0);
    // Joining replays the stored peek and seeds the roster.
    let self_user = vec![1u8];
    client.join(0, false, Some(self_user.clone()));
    client.on_sfu_client_joined(0, Some(self_user), Ok(joined(None, ERA, 1)));
    assert_eq!(client.remote_devices.len(), 1);
    assert_eq!(client.remote_devices.0[0].demux_id, 2);
    assert_eq!(client.remote_devices.0[0].user_id, user);
    assert!(matches!(client.join_state, JoinState::Joined(1)));
}

#[test]
fn remote_heartbeat_state() {
    let mut client = start_client();
    connect_and_join(&mut client, None);
    client.set_peek_result(1, Ok(peek_info(&[(2, Some(vec![2u8]))], &[])));
    let hb = group_call::device::HeartbeatState {
        audio_muted: Some(true),
        video_muted: Some(false),
        presenting: None,
        sharing_screen: None,
    };
    let actions = client.handle_heartbeat_received(2, 10, hb);
    assert_eq!(actions.len(), 1);
    let device = client.remote_devices.find_by_demux_id(2).unwrap();
    assert_eq!(device.heartbeat_state.audio_muted, Some(true));
    assert_eq!(device.heartbeat_state.video_muted, Some(false));
    // An older sample does not override a newer one.
    let stale = group_call::device::HeartbeatState {
        audio_muted: Some(false),
        video_muted: Some(false),
        presenting: None,
        sharing_screen: None,
    };
    let actions = client.handle_heartbeat_received(2, 9, stale);
    assert_eq!(actions.len(), 0);
    let device = client.remote_devices.find_by_demux_id(2).unwrap();
    assert_eq!(device.heartbeat_state.audio_muted, Some(true));
}

#[test]
fn speakers() {
    let mut client = start_client();
    connect_and_join(&mut client, None);
    client.set_peek_result(
        1,
        Ok(peek_info(
            &[(2, Some(vec![2u8])), (3, Some(vec![3u8]))],
            &[],
        )),
    );
    assert_eq!(client.remote_devices.latest_speaker_demux_id(), None);
    client.handle_speaker_received(10, 1, 2);
    assert_eq!(client.remote_devices.latest_speaker_demux_id(), Some(2));
    client.handle_speaker_received(20, 2, 3);
    assert_eq!(client.remote_devices.latest_speaker_demux_id(), Some(3));
    // Out-of-order samples are dropped.
    client.handle_speaker_received(30, 2, 2);
    assert_eq!(client.remote_devices.latest_speaker_demux_id(), Some(3));
}

#[test]
fn forwarding_video() {
    let mut client = start_client();
    connect_and_join(&mut client, None);
    client.set_peek_result(
        1,
        Ok(peek_info(
            &[(2, Some(vec![2u8])), (3, Some(vec![3u8]))],
            &[],
        )),
    );
    let actions = client.handle_forwarding_video_received(vec![2], vec![480]);
    assert_eq!(actions.len(), 1);
    let d2 = client.remote_devices.find_by_demux_id(2).unwrap();
    assert_eq!(d2.forwarding_video, Some(true));
    assert_eq!(d2.server_allocated_height, 480);
    let d3 = client.remote_devices.find_by_demux_id(3).unwrap();
    assert_eq!(d3.forwarding_video, Some(false));
    assert_eq!(d3.server_allocated_height, 0);
    // The same notice again changes nothing.
    let actions = client.handle_forwarding_video_received(vec![2], vec![480]);
    assert_eq!(actions.len(), 0);
}

#[test]
fn client_decoded_height() {
    let mut client = start_client();
    connect_and_join(&mut client, None);
    client.set_peek_result(1, Ok(peek_info(&[(2, Some(vec![2u8]))], &[])));
    client.handle_forwarding_video_received(vec![2], vec![480]);
    let actions = client.handle_incoming_video_frame_height(2, 240);
    // 480 allocated with only 240 decoded: higher resolution still pending.
    assert_eq!(actions.len(), 0);
    let d = client.remote_devices.find_by_demux_id(2).unwrap();
    assert_eq!(d.client_decoded_height, Some(240));
    assert!(d.is_higher_resolution_pending);
}

#[test]
fn is_higher_resolution_pending() {
    let mut client = start_client();
    connect_and_join(&mut client, None);
    client.set_peek_result(1, Ok(peek_info(&[(2, Some(vec![2u8]))], &[])));
    client.handle_forwarding_video_received(vec![2], vec![480]);
    let actions = client.handle_incoming_video_frame_height(2, 480);
    // The pending flag flipped off: the observer hears about it.
    assert_eq!(actions.len(), 1);
    let d = client.remote_devices.find_by_demux_id(2).unwrap();
    assert!(!d.is_higher_resolution_pending);
}

#[test]
fn smart_polling() {
    // A managed-group call peeks only once a membership proof is there.
    let (mut client, actions) =
        Client::start(b"group".to_vec(), 1, GroupCallKind::SignalGroup, None, None, 0);
    assert!(!actions.iter().any(|a| matches!(a, Action::SfuPeek)));
    let actions = client.connect(0);
    assert!(!actions.iter().any(|a| matches!(a, Action::SfuPeek)));
    // The proof arrives: one immediate peek.
    let actions = client.set_membership_proof(10, b"proof-token".to_vec());
    assert_eq!(
        actions.iter().filter(|a| matches!(a, Action::SfuPeek)).count(),
        1
    );
    // Ticks inside the five-second window do not peek again.
    let actions = client.tick(210);
    assert!(!actions.iter().any(|a| matches!(a, Action::SfuPeek)));
    // A heartbeat from an unknown demux id forces a peek on completion: the
    // in-flight request is marked to be repeated, and the answer re-peeks.
    client.handle_peer_rtp_received(400, 77, 1, None);
    let actions = client.set_peek_result(500, Ok(peek_info(&[], &[])));
    assert!(actions.iter().any(|a| matches!(a, Action::SfuPeek)));
}

#[test]
fn polling_error_handling() {
    let mut client = start_client();
    client.connect(0);
    client.set_peek_result(0, Ok(peek_info(&[], &[])));
    // A failed peek backs off for five seconds.
    let actions = client.set_peek_result(20_000, Err(500));
    assert_eq!(actions.len(), 0);
    let actions = client.tick(24_000);
    assert!(!actions.iter().any(|a| matches!(a, Action::SfuPeek)));
    let actions = client.tick(25_200);
    assert!(actions.iter().any(|a| matches!(a, Action::SfuPeek)));
}

#[test]
fn send_rates() {
    let mut client = start_client();
    connect_and_join(&mut client, None);
    // Alone: 1 kbps.
    assert_eq!(
        client.send_rates.max,
        Some(group_call::rates::DataRate::from_kbps(1))
    );
    // A small call: 1000 kbps.
    let actions = client.set_peek_result(1, Ok(peek_info(&[(2, Some(vec![2u8]))], &[])));
    assert!(actions.iter().any(|a| matches!(
        a,
        Action::HandleSendRatesChanged { send_rates }
            if send_rates.max == Some(group_call::rates::DataRate::from_kbps(1000))
    )));
    // Sharing the screen: the screenshare tier.
    let actions = client.set_sharing_screen(true);
    assert!(actions.iter().any(|a| matches!(
        a,
        Action::HandleSendRatesChanged { send_rates }
            if send_rates.max == Some(group_call::rates::DataRate::from_kbps(5000))
    )));
}

#[test]
fn handle_ended_fires_once() {
    let mut client = start_client();
    connect_and_join(&mut client, None);
    let actions = client.disconnect();
    assert_eq!(
        actions
            .iter()
            .filter(|a| matches!(a, Action::HandleEnded { .. }))
            .count(),
        1
    );
    let actions = client.disconnect();
    assert_eq!(
        actions
            .iter()
            .filter(|a| matches!(a, Action::HandleEnded { .. }))
            .count(),
        0
    );
}

#[test]
fn media_key_for_unknown_demux_id_is_buffered_and_resolved() {
    let mut client = start_client();
    connect_and_join(&mut client, None);
    let sender = vec![2u8];
    let message = group_call::protocol::DeviceToDevice {
        group_id: None,
        media_key: Some(group_call::protocol::MediaKeyMessage {
            demux_id: Some(2),
            ratchet_counter: Some(0),
            secret: Some(vec![9u8; 32]),
        }),
        heartbeat: None,
        leaving: None,
    };
    let actions = client.on_signaling_message_received(5, sender.clone(), message);
    // Unknown demux id: buffered, and a peek follows.
    assert!(!actions
        .iter()
        .any(|a| matches!(a, Action::AddReceiveSecret { .. })));
    assert_eq!(client.pending_media_receive_keys.len(), 1);
    // The roster catches up: the key is installed.
    let actions = client.set_peek_result(6, Ok(peek_info(&[(2, Some(sender))], &[])));
    assert!(actions
        .iter()
        .any(|a| matches!(a, Action::AddReceiveSecret { demux_id: 2, ratchet_counter: 0, .. })));
    assert_eq!(client.pending_media_receive_keys.len(), 0);
    assert!(client.remote_devices.find_by_demux_id(2).unwrap().media_keys_received);
}

#[test]
fn media_key_with_forged_demux_id_is_dropped() {
    let mut client = start_client();
    connect_and_join(&mut client, None);
    client.set_peek_result(1, Ok(peek_info(&[(2, Some(vec![2u8]))], &[])));
    let message = group_call::protocol::DeviceToDevice {
        group_id: None,
        media_key: Some(group_call::protocol::MediaKeyMessage {
            demux_id: Some(2),
            ratchet_counter: Some(0),
            secret: Some(vec![9u8; 32]),
        }),
        heartbeat: None,
        leaving: None,
    };
    // User 3 claims device 2, which belongs to user 2: dropped.
    let actions = client.on_signaling_message_received(5, vec![3u8], message);
    assert!(!actions
        .iter()
        .any(|a| matches!(a, Action::AddReceiveSecret { .. })));
    assert!(!client.remote_devices.find_by_demux_id(2).unwrap().media_keys_received);
}

#[test]
fn removal_after_participating() {
    let mut client = start_client();
    connect_and_join(&mut client, None);
    // The peek lists the local device: we are participating.
    client.set_peek_result(1, Ok(peek_info(&[(1, Some(vec![1u8]))], &[])));
    let actions = client.handle_removed_received();
    assert!(actions
        .iter()
        .any(|a| matches!(a, Action::HandleEnded { reason: EndReason::RemovedFromCall })));
}

#[test]
fn removal_before_participating() {
    let mut client = start_client();
    connect_and_join(&mut client, None);
    let actions = client.handle_removed_received();
    assert!(actions
        .iter()
        .any(|a| matches!(a, Action::HandleEnded { reason: EndReason::DeniedRequestToJoinCall })));
}

#[test]
fn device_to_sfu_leave() {
    let mut client = start_client();
    connect_and_join(&mut client, None);
    let actions = client.leave();
    // The leave notice goes to the SFU twice, for a little redundancy.
    let leaves = actions
        .iter()
        .filter(|a| matches!(a, Action::SendDataToSfu { message, .. } if message.leave))
        .count();
    assert_eq!(leaves, 2);
}

#[test]
fn device_to_sfu_remove() {
    let mut client = start_client();
    connect_and_join(&mut client, None);
    let actions = client.remove_client(32);
    assert!(actions.iter().any(|a| matches!(
        a,
        Action::SendDataToSfu { message, .. }
            if message.admin_action == Some(group_call::protocol::AdminAction::Remove(32))
    )));
}

#[test]
fn device_to_sfu_block() {
    let mut client = start_client();
    connect_and_join(&mut client, None);
    let actions = client.block_client(32);
    assert!(actions.iter().any(|a| matches!(
        a,
        Action::SendDataToSfu { message, .. }
            if message.admin_action == Some(group_call::protocol::AdminAction::Block(32))
    )));
}

#[test]
fn changing_group_members_triggers_poll() {
    let mut client = start_client();
    client.connect(0);
    client.set_peek_result(0, Ok(peek_info(&[], &[])));
    let members = vec![group_call::client::GroupMember {
        user_id: vec![1u8],
        member_id: vec![11u8],
    }];
    let actions = client.set_group_members(20_000, members.clone());
    assert!(actions.iter().any(|a| matches!(a, Action::SfuPeek)));
    // The same members again: no new peek, nothing handed to the SFU client.
    let actions = client.set_group_members(40_000, members);
    assert_eq!(actions, vec![]);
}

#[test]
fn frame_encryption_rotation_is_delayed() {
    let mut client = start_client();
    connect_and_join(&mut client, None);
    let user2 = vec![2u8];
    let user3 = vec![3u8];
    client.set_peek_result(
        1,
        Ok(peek_info(
            &[(2, Some(user2.clone())), (3, Some(user3.clone()))],
            &[],
        )),
    );
    // User 3 leaves: a fresh key goes to user 2 at once (ratchet counter 0),
    // but the sender only applies it after the delay.
    let actions = client.set_peek_result(2, Ok(peek_info(&[(2, Some(user2))], &[])));
    assert!(!actions
        .iter()
        .any(|a| matches!(a, Action::ResetSendRatchet { .. })));
    assert!(actions.iter().any(|a| matches!(
        a,
        Action::ScheduleApplyPendingSendKey { delay_millis: 3000 }
    )));
    let key_sends = actions
        .iter()
        .filter(|a| matches!(
            a,
            Action::SendSignalingMessage { message, .. }
                if matches!(&message.group_call_message, Some(d2d)
                    if matches!(&d2d.media_key, Some(mk) if mk.ratchet_counter == Some(0)))
        ))
        .count();
    assert_eq!(key_sends, 1);
    // The delayed job applies the pending key.
    let actions = client.apply_pending_send_key();
    assert!(actions
        .iter()
        .any(|a| matches!(a, Action::ResetSendRatchet { .. })));
}

#[test]
fn frame_encryption_resend_keys() {
    let mut client = start_client();
    connect_and_join(&mut client, None);
    client.set_peek_result(
        1,
        Ok(peek_info(
            &[(2, Some(vec![2u8])), (3, Some(vec![3u8]))],
            &[],
        )),
    );
    let actions = client.resend_media_keys(4, [9u8; 32]);
    let key_sends = actions
        .iter()
        .filter(|a| matches!(
            a,
            Action::SendSignalingMessage { message, .. }
                if matches!(&message.group_call_message, Some(d2d)
                    if matches!(&d2d.media_key, Some(mk)
                        if mk.ratchet_counter == Some(4) && mk.secret == Some(vec![9u8; 32])))
        ))
        .count();
    assert_eq!(key_sends, 2);
}

#[test]
fn frame_encryption_send_advanced_key_to_same_user() {
    let mut client = start_client();
    connect_and_join(&mut client, None);
    let user2 = vec![2u8];
    client.set_peek_result(1, Ok(peek_info(&[(21, Some(user2.clone()))], &[])));
    // The same user adds a second device: the advanced key goes out for it.
    let actions = client.set_peek_result(
        2,
        Ok(peek_info(
            &[(21, Some(user2.clone())), (22, Some(user2.clone()))],
            &[],
        )),
    );
    let advanced: Vec<_> = actions
        .iter()
        .filter_map(|a| match a {
            Action::AdvanceSendRatchet { distribute_to } => Some(distribute_to.clone()),
            _ => None,
        })
        .collect();
    assert_eq!(advanced, vec![vec![user2.clone()]]);
    // The host fetches the new send state and hands it out.
    let actions = client.distribute_media_send_key(vec![user2], 1, [8u8; 32]);
    assert_eq!(actions.len(), 1);
}

#[test]
fn ask_for_group_membership_when_receiving_unknown_media_keys() {
    let (mut client, _) =
        Client::start(b"group".to_vec(), 1, GroupCallKind::SignalGroup, None, None, 0);
    client.connect(0);
    let message = group_call::protocol::DeviceToDevice {
        group_id: None,
        media_key: Some(group_call::protocol::MediaKeyMessage {
            demux_id: Some(2),
            ratchet_counter: Some(0),
            secret: Some(vec![9u8; 32]),
        }),
        heartbeat: None,
        leaving: None,
    };
    let actions = client.on_signaling_message_received(5, vec![2u8], message);
    assert!(actions
        .iter()
        .any(|a| matches!(a, Action::RequestGroupMembers)));
}

#[test]
fn do_not_ask_for_group_membership_when_receiving_known_media_keys() {
    let (mut client, _) =
        Client::start(b"group".to_vec(), 1, GroupCallKind::SignalGroup, None, None, 0);
    client.connect(0);
    client.set_membership_proof(0, b"proof-token".to_vec());
    let self_user = vec![1u8];
    client.join(0, false, Some(self_user.clone()));
    client.on_sfu_client_joined(0, Some(self_user), Ok(joined(None, ERA, 1)));
    let sender = vec![2u8];
    client.set_peek_result(1, Ok(peek_info(&[(2, Some(sender.clone()))], &[])));
    let message = group_call::protocol::DeviceToDevice {
        group_id: None,
        media_key: Some(group_call::protocol::MediaKeyMessage {
            demux_id: Some(2),
            ratchet_counter: Some(0),
            secret: Some(vec![9u8; 32]),
        }),
        heartbeat: None,
        leaving: None,
    };
    let actions = client.on_signaling_message_received(5, sender, message);
    assert!(!actions
        .iter()
        .any(|a| matches!(a, Action::RequestGroupMembers)));
    assert!(actions
        .iter()
        .any(|a| matches!(a, Action::AddReceiveSecret { demux_id: 2, .. })));
}

#[test]
fn ignore_devices_that_arent_members() {
    let mut client = start_client();
    connect_and_join(&mut client, None);
    // A device the membership service could not resolve has no user id and
    // never enters the roster.
    let actions = client.set_peek_result(
        1,
        Ok(peek_info(&[(2, Some(vec![2u8])), (3, None)], &[])),
    );
    assert_eq!(client.remote_devices.len(), 1);
    assert_eq!(peek_changes(&actions), vec![vec![vec![2u8]]]);
}

#[test]
fn joined_members_reported_without_the_local_device() {
    let mut client = start_client();
    connect_and_join(&mut client, None);
    // The peek lists the local device (demux 1) and one other; the observer
    // hears only the other user, though the stored summary keeps both.
    let actions = client.set_peek_result(
        1,
        Ok(peek_info(
            &[(1, Some(vec![1u8])), (2, Some(vec![2u8]))],
            &[],
        )),
    );
    assert_eq!(peek_changes(&actions), vec![vec![vec![2u8]]]);
    // Joined and peeked alone: the reported set is empty.
    let actions = client.set_peek_result(2, Ok(peek_info(&[(1, Some(vec![1u8]))], &[])));
    assert_eq!(peek_changes(&actions), vec![Vec::<Vec<u8>>::new()]);
}
