use vstd::prelude::*;
use crate::device::{DemuxId, HeartbeatState, RemoteDeviceState, RemoteDevices, UserId};
use crate::peek::{self, PeekInfo};
use crate::polling::RemoteDevicesRequestState;
use crate::protocol::{
    AdminAction, CallMessage, DeviceToDevice, DeviceToSfu, MediaKeyMessage, RingIntention,
    RingIntentionKind, RingResponse, RingResponseKind, RtpHeader, SignalingMessageUrgency,
    VideoRequestMessage, VideoRequestProto,
};
use crate::rates::{DataMode, DataRate, SendRates};
use crate::ring_id::RingId;
use crate::srtp::{DheState, SrtpKeys};

verus! {

broadcast use vstd::std_specs::hash::group_hash_axioms;

/// A value used for logging and passing events around; 0 is reserved
/// invalid.
pub type ClientId = u32;

/// Opaque byte string naming the group a call belongs to.
pub type GroupId = Vec<u8>;

/// The token that authenticates this user to the SFU.
pub type MembershipProof = Vec<u8>;

/// One member of the group, as the membership service lists it.
#[derive(Clone, Debug, PartialEq, Eq)]
pub struct GroupMember {
    pub user_id: UserId,
    pub member_id: Vec<u8>,
}

/// The connection states of a device connecting to a group call, driven
/// solely by ICE under the transition rules of the engine.
#[derive(Clone, Copy, Debug, PartialEq, Eq, Structural)]
pub enum ConnectionState {
    NotConnected,
    Connecting,
    Connected,
    Reconnecting,
}

/// The join states of a device joining a group call, orthogonal to the
/// connection state. A saved ring id in `NotJoined` makes joining send an
/// "accepted" message to one's own other devices.
#[derive(Clone, Copy, Debug, PartialEq, Eq)]
pub enum JoinState {
    NotJoined(Option<RingId>),
    Joining,
    Joined(DemuxId),
}

/// The states of the ICE layer as the media engine reports them.
#[derive(Clone, Copy, Debug, PartialEq, Eq, Structural)]
pub enum IceConnectionState {
    New,
    Checking,
    Connected,
    Completed,
    Failed,
    Disconnected,
    Closed,
}

/// Why a call ended.
#[derive(Clone, Copy, Debug, PartialEq, Eq, Structural)]
pub enum EndReason {
    DeviceExplicitlyDisconnected,
    ServerExplicitlyDisconnected,
    DeniedRequestToJoinCall,
    RemovedFromCall,
    CallManagerIsBusy,
    SfuClientFailedToJoin,
    FailedToCreatePeerConnectionFactory,
    FailedToNegotiatedSrtpKeys,
    FailedToCreatePeerConnection,
    FailedToStartPeerConnection,
    FailedToUpdatePeerConnection,
    FailedToSetMaxSendBitrate,
    IceFailedWhileConnecting,
    IceFailedAfterConnected,
    ServerChangedDemuxId,
    HasMaxDevices,
}

/// Why the roster handed to the observer changed.
#[derive(Clone, Copy, Debug, PartialEq, Eq, Structural)]
pub enum RemoteDevicesChangedReason {
    DemuxIdsChanged,
    MediaKeyReceived(DemuxId),
    SpeakerTimeChanged(DemuxId),
    HeartbeatStateChanged(DemuxId),
    ForwardedVideosChanged,
    HigherResolutionPendingChanged,
}

/// Whether the call belongs to a managed group (peeks need a membership
/// proof) or to a call link.
#[derive(Clone, Copy, Debug, PartialEq, Eq, Structural)]
pub enum GroupCallKind {
    SignalGroup,
    CallLink,
}

/// What the SFU tells a client when it joins. Addresses are kept as plain
/// strings for the transport to parse.
#[derive(Clone, Debug, PartialEq, Eq)]
pub struct SfuInfo {
    pub udp_addresses: Vec<String>,
    pub tcp_addresses: Vec<String>,
    pub ice_ufrag: String,
    pub ice_pwd: String,
}

/// The SFU's successful answer to a join request.
pub struct Joined {
    pub sfu_info: SfuInfo,
    pub local_demux_id: DemuxId,
    pub server_dhe_pub_key: [u8; 32],
    pub hkdf_extra_info: Vec<u8>,
    pub creator: Option<UserId>,
    pub era_id: String,
}

/// A request for a remote device's video at some resolution.
#[derive(Clone, Copy, Debug, PartialEq, Eq, Structural)]
pub struct VideoRequest {
    pub demux_id: DemuxId,
    pub width: u16,
    pub height: u16,
    pub framerate: Option<u16>,
}

/// The media send key rotation: applied, or generated but not yet applied.
#[derive(Clone, Copy, Debug, PartialEq, Eq)]
pub enum KeyRotationState {
    Applied,
    Pending { secret: [u8; 32], needs_another_rotation: bool },
}

/// The lifecycle of an outgoing ring intention.
#[derive(Clone, Debug, PartialEq, Eq)]
pub enum OutgoingRingState {
    Unknown,
    PermittedToRing { ring_id: RingId },
    WantsToRing { recipient: Option<UserId> },
    HasSentRing { ring_id: RingId },
    NotPermittedToRing,
}

/// A media receive key that arrived before its device was known, kept until
/// the roster catches up.
#[derive(Clone, Debug, PartialEq, Eq)]
pub struct PendingReceiveKey {
    pub user_id: UserId,
    pub demux_id: DemuxId,
    pub ratchet_counter: u8,
    pub secret: [u8; 32],
}

/// The abstract value of a buffered receive key.
pub ghost struct PendingKeyView {
    pub user_id: Seq<u8>,
    pub demux_id: DemuxId,
    pub ratchet_counter: u8,
    pub secret: [u8; 32],
}

impl View for PendingReceiveKey {
    type V = PendingKeyView;

    open spec fn view(&self) -> PendingKeyView {
        PendingKeyView {
            user_id: self.user_id@,
            demux_id: self.demux_id,
            ratchet_counter: self.ratchet_counter,
            secret: self.secret,
        }
    }
}

/// The views of the buffered receive keys.
pub open spec fn pending_key_views(keys: Seq<PendingReceiveKey>) -> Seq<PendingKeyView> {
    keys.map_values(|k: PendingReceiveKey| k@)
}

/// What the engine asks its surroundings to do in response to an event.
/// The engine decides; the host performs.
#[derive(Clone, Debug, PartialEq, Eq)]
pub enum Action {
    /// Ask the observer for a fresh membership proof.
    RequestMembershipProof,
    /// Ask the observer for the group's member list.
    RequestGroupMembers,
    SendSignalingMessage { recipient: UserId, message: CallMessage, urgency: SignalingMessageUrgency },
    SendSignalingMessageToGroup { group_id: GroupId, message: CallMessage, urgency: SignalingMessageUrgency },
    HandleConnectionStateChanged { connection_state: ConnectionState },
    HandleJoinStateChanged { join_state: JoinState },
    HandleSendRatesChanged { send_rates: SendRates },
    HandleRemoteDevicesChanged { reason: RemoteDevicesChangedReason },
    HandlePeekChanged { peek_info: PeekInfo, joined_members: Vec<UserId> },
    /// The last callback of the call.
    HandleEnded { reason: EndReason },
    HandleAudioLevels,
    /// Set the process-wide busy flag.
    SetBusy { busy: bool },
    /// Ask the SFU client to join, with the local ICE ufrag and the client's
    /// public Diffie-Hellman key.
    SfuJoin { ice_ufrag: String, dhe_pub_key: [u8; 32] },
    /// Ask the SFU client for the current participant list.
    SfuPeek,
    SetSfuMembershipProof { membership_proof: MembershipProof },
    SetSfuGroupMembers { members: Vec<GroupMember> },
    SetOutgoingMediaEnabled { enabled: bool },
    SetIncomingMediaEnabled { enabled: bool },
    SetAudioRecordingEnabled { enabled: bool },
    SetAudioPlayoutEnabled { enabled: bool },
    SetSendRates { send_rates: SendRates },
    ConfigureAudioEncoders { data_mode: DataMode },
    /// Build local and remote descriptions and add the SFU's candidates,
    /// then enable RTP receive for the control payload type.
    StartPeerConnection { local_demux_id: DemuxId, srtp_keys: SrtpKeys },
    /// Rebuild both descriptions with a changed set of remote demux ids.
    UpdatePeerConnectionDescriptions { local_demux_id: DemuxId, remote_demux_ids: Vec<DemuxId>, srtp_keys: SrtpKeys },
    ClosePeerConnection,
    GetStats,
    /// Send a control message to the SFU over RTP, in the clear.
    SendDataToSfu { header: RtpHeader, message: DeviceToSfu },
    /// Encrypt a device-to-device message with the frame crypto and send it
    /// through the SFU over RTP.
    BroadcastDataThroughSfu { header: RtpHeader, message: DeviceToDevice },
    /// Install a remote sender's media key in the frame crypto.
    AddReceiveSecret { demux_id: DemuxId, ratchet_counter: u8, secret: [u8; 32] },
    /// Advance the send ratchet one step and hand the new state back through
    /// `distribute_media_send_key` for these users.
    AdvanceSendRatchet { distribute_to: Vec<UserId> },
    /// Replace the send ratchet with a freshly rotated secret.
    ResetSendRatchet { secret: [u8; 32] },
    /// Run `apply_pending_send_key` after this delay.
    ScheduleApplyPendingSendKey { delay_millis: u64 },
    /// Run a peek this long after a device said it was leaving.
    SchedulePeekAfterLeaving { delay_millis: u64 },
}

/// How often the periodic tick runs.
pub const TICK_INTERVAL_MILLIS: u64 = 200;

/// How often heartbeats and video requests go out.
pub const HEARTBEAT_INTERVAL_MILLIS: u64 = 1000;

/// How often statistics are gathered, and the delay before the first batch.
pub const STATS_INTERVAL_MILLIS: u64 = 10000;

pub const STATS_INITIAL_OFFSET_MILLIS: u64 = 2000;

/// How often to request an updated membership proof (24 hours).
pub const MEMBERSHIP_PROOF_REQUEST_INTERVAL_MILLIS: u64 = 86_400_000;

/// The delay between generating a rotated media send key and applying it,
/// long enough that receivers likely have it before it is used.
pub const MEDIA_SEND_KEY_ROTATION_DELAY_MILLIS: u64 = 3000;

/// How long after a leave notice to peek again, in case the SFU was behind.
pub const POST_LEAVE_PEEK_DELAY_MILLIS: u64 = 2000;

/// How stale peek data may get before the periodic tick refreshes it.
pub const PEEK_MAX_AGE_MILLIS: u64 = 10000;

pub open spec fn is_alphanumeric_code(u: u32) -> bool {
    (48 <= u && u <= 57) || (65 <= u && u <= 90) || (97 <= u && u <= 122)
}

/// Relies on rand's Alphanumeric distribution sampled from the
/// operating-system RNG: one random byte among 0-9, A-Z, a-z.
#[verifier::external_body]
fn sample_alphanumeric() -> (r: u8)
    ensures
        is_alphanumeric_code(r as u32),
{
    rand::Rng::sample(&mut rand::rngs::OsRng, rand::distributions::Alphanumeric)
}

/// Relies on String::from_utf8: ASCII bytes decode to exactly those
/// characters, code point for code point.
#[verifier::external_body]
fn ascii_to_string(bytes: Vec<u8>) -> (r: String)
    requires
        forall|i: int| 0 <= i < bytes@.len() ==> bytes@[i] < 128,
    ensures
        r@.len() == bytes@.len(),
        forall|i: int| 0 <= i < r@.len() ==> r@[i] as u32 == bytes@[i] as int,
{
    String::from_utf8(bytes).expect("ASCII is valid UTF-8")
}

/// A random string of `len` alphanumeric characters, for ICE credentials
/// (the SFU does not accept dashes).
fn random_alphanumeric(len: usize) -> (r: String)
    ensures
        r@.len() == len,
        forall|i: int| 0 <= i < r@.len() ==> is_alphanumeric_code(#[trigger] r@[i] as u32),
{
    let mut bytes: Vec<u8> = Vec::new();
    let mut i: usize = 0;
    while i < len
        invariant
            i <= len,
            bytes@.len() == i,
            forall|j: int| 0 <= j < i ==> is_alphanumeric_code(#[trigger] bytes@[j] as u32),
        decreases len - i,
    {
        bytes.push(sample_alphanumeric());
        i = i + 1;
    }
    assert(forall|j: int| 0 <= j < bytes@.len() ==> bytes@[j] < 128);
    let s = ascii_to_string(bytes);
    proof {
        assert forall|i: int| 0 <= i < s@.len() implies is_alphanumeric_code(
            #[trigger] s@[i] as u32,
        ) by {
            assert(s@[i] as u32 == bytes@[i] as int);
            assert(is_alphanumeric_code(bytes@[i] as u32));
        }
    }
    s
}

/// The SSRC a device broadcasts device-to-device data on.
pub open spec fn spec_broadcast_ssrc(local_demux_id: DemuxId) -> u32 {
    if local_demux_id + 0xD > u32::MAX {
        u32::MAX
    } else {
        (local_demux_id + 0xD) as u32
    }
}

/// The RTP header for one broadcast through the SFU: the sequence number and
/// timestamp both carry the same monotonic counter, for SRTP replay
/// protection.
pub open spec fn spec_broadcast_header(local_demux_id: DemuxId, seqnum: u32) -> RtpHeader {
    RtpHeader {
        pt: 101,
        ssrc: spec_broadcast_ssrc(local_demux_id),
        seqnum: seqnum as u16,
        timestamp: seqnum,
    }
}

/// The RTP header for one control message to the SFU.
pub open spec fn spec_to_sfu_header(seqnum: u32) -> RtpHeader {
    RtpHeader { pt: 101, ssrc: 1, seqnum: seqnum as u16, timestamp: seqnum }
}

pub open spec fn spec_wrap_inc32(x: u32) -> u32 {
    if x == u32::MAX {
        0
    } else {
        (x + 1) as u32
    }
}

/// The heartbeat payload carrying the local device's current state.
pub open spec fn spec_heartbeat_message(hb: HeartbeatState) -> DeviceToDevice {
    DeviceToDevice { group_id: None, media_key: None, heartbeat: Some(hb), leaving: None }
}

/// The broadcast a heartbeat-state change emits: one heartbeat through the
/// SFU while joined, nothing otherwise.
pub open spec fn spec_heartbeat_actions(pre: Client, hb: HeartbeatState) -> Seq<Action> {
    match pre.join_state {
        JoinState::Joined(local_demux_id) => seq![
            Action::BroadcastDataThroughSfu {
                header: spec_broadcast_header(local_demux_id, pre.rtp_data_through_sfu_next_seqnum),
                message: spec_heartbeat_message(hb),
            },
        ],
        _ => Seq::empty(),
    }
}

/// The broadcast counter after at most one broadcast.
pub open spec fn spec_seq_through_after(pre: Client) -> u32 {
    if pre.join_state is Joined {
        spec_wrap_inc32(pre.rtp_data_through_sfu_next_seqnum)
    } else {
        pre.rtp_data_through_sfu_next_seqnum
    }
}

/// The rates that actually apply: a set override always wins.
pub open spec fn spec_effective_rates(s: Client, send_rates: SendRates) -> SendRates {
    match s.send_rates_override {
        Some(o) => o,
        None => send_rates,
    }
}

/// Applying send rates emits nothing when they did not change; otherwise it
/// switches recording, playout and outgoing media off at the 1 kbps
/// all-alone rate and on at any other, pushes the rates into the media
/// engine, and reports them to the observer.
pub open spec fn spec_rate_actions(s: Client, send_rates: SendRates) -> Seq<Action> {
    let eff = spec_effective_rates(s, send_rates);
    if eff == s.send_rates {
        Seq::empty()
    } else {
        let enabled = !(eff.max == Some(DataRate { kbps: 1 }));
        seq![
            Action::SetAudioRecordingEnabled { enabled },
            Action::SetAudioPlayoutEnabled { enabled },
            Action::SetOutgoingMediaEnabled { enabled },
            Action::SetSendRates { send_rates: eff },
            Action::HandleSendRatesChanged { send_rates: eff },
        ]
    }
}

/// Whether some device in the roster carries this demux id.
pub open spec fn seq_contains_demux(devs: Seq<RemoteDeviceState>, demux_id: DemuxId) -> bool {
    exists|i: int| 0 <= i < devs.len() && devs[i].demux_id == demux_id
}

/// The resolution requests that actually go to the SFU: only those naming a
/// known remote device, with the height clamped to the smaller dimension
/// because the SFU is unaware of rotation.
pub open spec fn spec_video_request_protos(
    reqs: Seq<VideoRequest>,
    devs: Seq<RemoteDeviceState>,
) -> Seq<VideoRequestProto>
    decreases reqs.len(),
{
    if reqs.len() == 0 {
        Seq::empty()
    } else {
        let rest = spec_video_request_protos(reqs.drop_last(), devs);
        let r = reqs.last();
        if seq_contains_demux(devs, r.demux_id) {
            rest.push(
                VideoRequestProto {
                    demux_id: r.demux_id,
                    height: (if r.height < r.width {
                        r.height
                    } else {
                        r.width
                    }) as u32,
                },
            )
        } else {
            rest
        }
    }
}

pub open spec fn spec_opt_kbps(r: Option<DataRate>) -> Option<u32> {
    match r {
        Some(d) => Some(d.kbps as u32),
        None => None,
    }
}

pub open spec fn spec_opt_height(h: Option<u16>) -> Option<u32> {
    match h {
        Some(h) => Some(h as u32),
        None => None,
    }
}

/// One device-to-SFU message carrying exactly the video requests the state
/// calls for.
pub open spec fn is_video_request_action(
    a: Action,
    seqnum: u32,
    reqs: Seq<VideoRequest>,
    devs: Seq<RemoteDeviceState>,
    max_rate: Option<DataRate>,
    active_speaker_height: Option<u16>,
) -> bool {
    &&& a matches Action::SendDataToSfu { header, message }
    &&& (a matches Action::SendDataToSfu { header, message } ==> {
        &&& header == spec_to_sfu_header(seqnum)
        &&& !message.leave
        &&& message.admin_action is None
        &&& message.video_request matches Some(vr)
        &&& (message.video_request matches Some(vr) ==> {
            &&& vr.requests@ == spec_video_request_protos(reqs, devs)
            &&& vr.max_kbps == spec_opt_kbps(max_rate)
            &&& vr.active_speaker_height == spec_opt_height(active_speaker_height)
        })
    })
}

/// A group-wide ring intention (start or cancel) sent over signaling with
/// immediate urgency.
pub open spec fn is_ring_intention_action(
    a: Action,
    group_id: Seq<u8>,
    ring_id: RingId,
    kind: RingIntentionKind,
) -> bool {
    &&& a matches Action::SendSignalingMessageToGroup { group_id: g, message, urgency }
    &&& (a matches Action::SendSignalingMessageToGroup { group_id: g, message, urgency } ==> {
        &&& g@ == group_id
        &&& urgency == SignalingMessageUrgency::HandleImmediately
        &&& message.ring_response is None
        &&& message.group_call_message is None
        &&& message.ring_intention matches Some(ri)
        &&& (message.ring_intention matches Some(ri) ==> ri.group_id@ == group_id && ri.ring_id
            == ring_id && ri.kind == kind)
    })
}

/// An "accepted" ring response to one's own other devices.
pub open spec fn is_ring_accepted_action(
    a: Action,
    recipient: Seq<u8>,
    group_id: Seq<u8>,
    ring_id: RingId,
) -> bool {
    &&& a matches Action::SendSignalingMessage { recipient: rec, message, urgency }
    &&& (a matches Action::SendSignalingMessage { recipient: rec, message, urgency } ==> {
        &&& rec@ == recipient
        &&& urgency == SignalingMessageUrgency::HandleImmediately
        &&& message.ring_intention is None
        &&& message.group_call_message is None
        &&& message.ring_response matches Some(rr)
        &&& (message.ring_response matches Some(rr) ==> rr.group_id@ == group_id && rr.ring_id
            == ring_id && rr.kind == RingResponseKind::Accepted)
    })
}

/// A unicast "leaving" notice over signaling.
pub open spec fn is_leaving_signal_action(
    a: Action,
    recipient: Seq<u8>,
    group_id: Seq<u8>,
    local_demux_id: DemuxId,
) -> bool {
    &&& a matches Action::SendSignalingMessage { recipient: rec, message, urgency }
    &&& (a matches Action::SendSignalingMessage { recipient: rec, message, urgency } ==> {
        &&& rec@ == recipient
        &&& urgency == SignalingMessageUrgency::Droppable
        &&& message.ring_intention is None
        &&& message.ring_response is None
        &&& message.group_call_message matches Some(d2d)
        &&& (message.group_call_message matches Some(d2d) ==> {
            &&& d2d.group_id matches Some(g) && (d2d.group_id matches Some(g) ==> g@ == group_id)
            &&& d2d.media_key is None
            &&& d2d.heartbeat is None
            &&& d2d.leaving == Some(crate::protocol::LeavingMessage { demux_id: Some(local_demux_id) })
        })
    })
}

/// The anonymous "leaving" broadcast through the SFU (the sender's demux id
/// is already in the RTP header).
pub open spec fn spec_leaving_broadcast_message() -> DeviceToDevice {
    DeviceToDevice {
        group_id: None,
        media_key: None,
        heartbeat: None,
        leaving: Some(crate::protocol::LeavingMessage { demux_id: None }),
    }
}

/// The plain device-to-SFU leave notice.
pub open spec fn spec_leave_message() -> DeviceToSfu {
    DeviceToSfu { video_request: None, leave: true, admin_action: None }
}

/// How many actions leaving emits.
pub open spec fn spec_leave_actions_len(pre: Client) -> int {
    let cancel: int = if pre.outgoing_ring_state is HasSentRing {
        1
    } else {
        0
    };
    match pre.join_state {
        JoinState::NotJoined(_) => cancel,
        JoinState::Joining => cancel + 4,
        JoinState::Joined(_) => cancel + 4 + 1 + pre.joined_members@.len() + 2,
    }
}

/// What leaving does: cancel an auto-cancelable ring, mute both media
/// directions, release the busy flag, announce the departure through the SFU
/// and to every joined member over signaling, tell the SFU twice, and report
/// the join state change. Leaving while not joined only cancels the ring.
pub open spec fn leave_actions_ok(pre: Client, actions: Seq<Action>) -> bool {
    let cancel: int = if pre.outgoing_ring_state is HasSentRing {
        1
    } else {
        0
    };
    &&& actions.len() == spec_leave_actions_len(pre)
    &&& (forall|i: int|
        0 <= i < actions.len() ==> ((#[trigger] actions[i]) is SendSignalingMessageToGroup
            ==> pre.outgoing_ring_state is HasSentRing && i == 0) && !(actions[i] is HandleEnded)
            && !(actions[i] is HandlePeekChanged))
    &&& (pre.outgoing_ring_state matches OutgoingRingState::HasSentRing { ring_id }
        ==> is_ring_intention_action(
        actions[0],
        pre.group_id@,
        ring_id,
        RingIntentionKind::Cancelled,
    ))
    &&& match pre.join_state {
        JoinState::NotJoined(_) => true,
        JoinState::Joining => {
            &&& actions[cancel] == (Action::SetOutgoingMediaEnabled { enabled: false })
            &&& actions[cancel + 1] == (Action::SetIncomingMediaEnabled { enabled: false })
            &&& actions[cancel + 2] == (Action::SetBusy { busy: false })
            &&& actions[cancel + 3] == (Action::HandleJoinStateChanged {
                join_state: JoinState::NotJoined(None),
            })
        },
        JoinState::Joined(local_demux_id) => {
            let m = pre.joined_members@.len() as int;
            &&& actions[cancel] == (Action::SetOutgoingMediaEnabled { enabled: false })
            &&& actions[cancel + 1] == (Action::SetIncomingMediaEnabled { enabled: false })
            &&& actions[cancel + 2] == (Action::SetBusy { busy: false })
            &&& actions[cancel + 3] == (Action::BroadcastDataThroughSfu {
                header: spec_broadcast_header(
                    local_demux_id,
                    pre.rtp_data_through_sfu_next_seqnum,
                ),
                message: spec_leaving_broadcast_message(),
            })
            &&& (forall|k: int|
                0 <= k < m ==> is_leaving_signal_action(
                    #[trigger] actions[cancel + 4 + k],
                    pre.joined_members@[k]@,
                    pre.group_id@,
                    local_demux_id,
                ))
            &&& actions[cancel + 4 + m] == (Action::SendDataToSfu {
                header: spec_to_sfu_header(pre.rtp_data_to_sfu_next_seqnum),
                message: spec_leave_message(),
            })
            &&& actions[cancel + 4 + m + 1] == (Action::SendDataToSfu {
                header: spec_to_sfu_header(spec_wrap_inc32(pre.rtp_data_to_sfu_next_seqnum)),
                message: spec_leave_message(),
            })
            &&& actions[cancel + 4 + m + 2] == (Action::HandleJoinStateChanged {
                join_state: JoinState::NotJoined(None),
            })
        },
    }
}

/// The state after leaving: not joined, timers stopped, counters advanced by
/// what was sent. Leaving while not joined changes nothing.
pub open spec fn spec_state_after_leave(pre: Client) -> Client {
    match pre.join_state {
        JoinState::NotJoined(_) => pre,
        JoinState::Joining => Client {
            join_state: JoinState::NotJoined(None),
            next_heartbeat_time: None,
            next_stats_time: None,
            next_audio_levels_time: None,
            next_membership_proof_request_time: None,
            has_ever_been_participating_client: false,
            ..pre
        },
        JoinState::Joined(_) => Client {
            join_state: JoinState::NotJoined(None),
            next_heartbeat_time: None,
            next_stats_time: None,
            next_audio_levels_time: None,
            next_membership_proof_request_time: None,
            has_ever_been_participating_client: false,
            rtp_data_through_sfu_next_seqnum: spec_wrap_inc32(
                pre.rtp_data_through_sfu_next_seqnum,
            ),
            rtp_data_to_sfu_next_seqnum: spec_wrap_inc32(
                spec_wrap_inc32(pre.rtp_data_to_sfu_next_seqnum),
            ),
            ..pre
        },
    }
}

/// How many actions ending the call emits.
pub open spec fn spec_end_actions_len(pre: Client) -> int {
    let leave_len: int = if pre.join_state is NotJoined {
        0int
    } else {
        spec_leave_actions_len(pre)
    };
    leave_len + (if pre.connection_state is NotConnected {
        0int
    } else {
        3
    })
}

/// What ending the call does: leave if joining or joined, then — only if the
/// call was ever connected or connecting — close the transport, report
/// NotConnected, and report the end reason as the very last callback.
/// Ending an already-ended call emits nothing.
pub open spec fn end_transition(pre: Client, post: Client, actions: Seq<Action>, reason: EndReason) -> bool {
    let after_leave = if pre.join_state is NotJoined {
        pre
    } else {
        spec_state_after_leave(pre)
    };
    let leave_len: int = if pre.join_state is NotJoined {
        0int
    } else {
        spec_leave_actions_len(pre)
    };
    &&& post == (Client { connection_state: ConnectionState::NotConnected, ..after_leave })
    &&& actions.len() == spec_end_actions_len(pre)
    &&& (pre.join_state is NotJoined || leave_actions_ok(pre, actions.take(leave_len)))
    &&& (pre.connection_state is NotConnected ==> actions.len() == leave_len)
    &&& (!(pre.connection_state is NotConnected) ==> {
        &&& actions[leave_len] == Action::ClosePeerConnection
        &&& actions[leave_len + 1] == (Action::HandleConnectionStateChanged {
            connection_state: ConnectionState::NotConnected,
        })
        &&& actions[leave_len + 2] == (Action::HandleEnded { reason })
    })
}

pub open spec fn contains_handle_ended(actions: Seq<Action>) -> bool {
    exists|i: int| 0 <= i < actions.len() && actions[i] is HandleEnded
}

/// Leaving without an auto-cancelable ring sends nothing to the group: no
/// cancel, no other group-wide message.
pub proof fn lemma_leave_sends_nothing_to_group(pre: Client, actions: Seq<Action>)
    requires
        !(pre.outgoing_ring_state is HasSentRing),
        leave_actions_ok(pre, actions),
    ensures
        forall|i: int|
            0 <= i < actions.len() ==> !((#[trigger] actions[i]) is SendSignalingMessageToGroup),
{
}

/// Once a peek shows another device in the call, a previously sent ring is
/// no longer auto-cancelable: the leave that follows sends no group-wide
/// message at all, so no cancel goes out.
pub proof fn lemma_sent_ring_not_cancelled_after_join(
    pre: Client,
    post: Client,
    info: crate::peek::PeekInfo,
    local_demux_id: DemuxId,
    now: u64,
    peek_actions: Seq<Action>,
    leave_actions: Seq<Action>,
)
    requires
        pre.outgoing_ring_state is HasSentRing,
        spec_reconcile(
            crate::device::device_views(pre.remote_devices@),
            peek_device_views(info.devices@),
            local_demux_id,
            now,
        ).len() != 0,
        peek_roster_transition(pre, post, info, local_demux_id, now, Seq::empty(), peek_actions),
        leave_actions_ok(post, leave_actions),
    ensures
        post.outgoing_ring_state == OutgoingRingState::NotPermittedToRing,
        forall|i: int|
            0 <= i < leave_actions.len() ==> !((#[trigger] leave_actions[i])
                is SendSignalingMessageToGroup),
{
    lemma_leave_sends_nothing_to_group(post, leave_actions);
}

/// The end report is final: when ending reports `HandleEnded`, it is the
/// very last action, and the call is left disconnected and not joined, so
/// no further callback of this call can follow it.
pub proof fn lemma_ended_is_last_action(
    pre: Client,
    post: Client,
    actions: Seq<Action>,
    reason: EndReason,
)
    requires
        end_transition(pre, post, actions, reason),
        contains_handle_ended(actions),
    ensures
        actions.len() >= 1,
        actions.last() == (Action::HandleEnded { reason }),
        post.connection_state is NotConnected,
        post.join_state is NotJoined,
{
    let leave_len: int = if pre.join_state is NotJoined {
        0int
    } else {
        spec_leave_actions_len(pre)
    };
    if pre.connection_state is NotConnected {
        let i = choose|i: int| 0 <= i < actions.len() && (#[trigger] actions[i]) is HandleEnded;
        if !(pre.join_state is NotJoined) {
            assert(leave_actions_ok(pre, actions.take(leave_len)));
            assert(actions.take(leave_len)[i] == actions[i]);
        }
        assert(false);
    }
}



/// `handle_ended` is reported at most once per call: ending reports it only
/// when the call was still connected in some form, and always leaves the
/// connection state `NotConnected` — so of two consecutive ends, the second
/// reports nothing.
pub proof fn lemma_handle_ended_at_most_once(
    pre: Client,
    mid: Client,
    post: Client,
    first_actions: Seq<Action>,
    second_actions: Seq<Action>,
    first_reason: EndReason,
    second_reason: EndReason,
)
    requires
        end_transition(pre, mid, first_actions, first_reason),
        end_transition(mid, post, second_actions, second_reason),
        contains_handle_ended(first_actions),
    ensures
        !contains_handle_ended(second_actions),
{
    assert(mid.connection_state is NotConnected);
    assert forall|i: int| 0 <= i < second_actions.len() implies !(#[trigger] second_actions[i]
        is HandleEnded) by {
        let leave_len: int = if mid.join_state is NotJoined {
            0int
        } else {
            spec_leave_actions_len(mid)
        };
        assert(second_actions.len() == leave_len);
        if i < leave_len {
            let cancel: int = if mid.outgoing_ring_state is HasSentRing {
                1
            } else {
                0
            };
            assert(leave_actions_ok(mid, second_actions.take(leave_len)));
            assert(second_actions.take(leave_len)[i] == second_actions[i]);
        }
    }
}

pub open spec fn spec_sat_add64(a: u64, b: u64) -> u64 {
    if a + b > u64::MAX {
        u64::MAX
    } else {
        (a + b) as u64
    }
}

pub open spec fn spec_tick_hb_due(pre: Client, now: u64) -> bool {
    pre.next_heartbeat_time matches Some(t) && now >= t
}

pub open spec fn spec_tick_stats_due(pre: Client, now: u64) -> bool {
    pre.next_stats_time matches Some(t) && now >= t
}

pub open spec fn spec_tick_audio_due(pre: Client, now: u64) -> bool {
    pre.audio_levels_interval is Some && (pre.next_audio_levels_time matches Some(t) && now >= t)
}

pub open spec fn spec_tick_proof_due(pre: Client, now: u64) -> bool {
    pre.kind == GroupCallKind::SignalGroup && (pre.next_membership_proof_request_time matches Some(
        t,
    ) && now >= t)
}

/// One periodic tick: refresh a stale roster, send the heartbeat and video
/// requests each second, gather statistics, report audio levels, and refresh
/// the membership proof daily.
pub open spec fn tick_transition(pre: Client, post: Client, actions: Seq<Action>, now: u64) -> bool {
    let peek = crate::polling::spec_should_request_now(
        pre.remote_devices_request_state,
        now,
        10000,
    );
    let hb = spec_tick_hb_due(pre, now);
    let joined = pre.join_state is Joined;
    let hb_bcast = hb && joined;
    let vr = hb && joined && pre.video_requests is Some;
    let stats = spec_tick_stats_due(pre, now);
    let audio = spec_tick_audio_due(pre, now);
    let prf = spec_tick_proof_due(pre, now);
    let n0: int = if peek {
        1int
    } else {
        0
    };
    let n1 = n0 + if hb_bcast {
        1int
    } else {
        0
    };
    let n2 = n1 + if vr {
        1int
    } else {
        0
    };
    let n3 = n2 + if stats {
        1int
    } else {
        0
    };
    let n4 = n3 + if audio {
        1int
    } else {
        0
    };
    let n5 = n4 + if prf {
        1int
    } else {
        0
    };
    &&& post == (Client {
        remote_devices_request_state: crate::polling::spec_request_state_after(
            pre.remote_devices_request_state,
            now,
            10000,
            false,
        ),
        next_heartbeat_time: if hb {
            Some(spec_sat_add64(now, 1000))
        } else {
            pre.next_heartbeat_time
        },
        on_demand_video_request_sent_since_last_heartbeat: if hb {
            false
        } else {
            pre.on_demand_video_request_sent_since_last_heartbeat
        },
        rtp_data_through_sfu_next_seqnum: if hb_bcast {
            spec_wrap_inc32(pre.rtp_data_through_sfu_next_seqnum)
        } else {
            pre.rtp_data_through_sfu_next_seqnum
        },
        rtp_data_to_sfu_next_seqnum: if vr {
            spec_wrap_inc32(pre.rtp_data_to_sfu_next_seqnum)
        } else {
            pre.rtp_data_to_sfu_next_seqnum
        },
        next_stats_time: if stats {
            Some(spec_sat_add64(now, 10000))
        } else {
            pre.next_stats_time
        },
        next_audio_levels_time: if audio {
            match pre.audio_levels_interval {
                Some(iv) => Some(spec_sat_add64(now, iv)),
                None => pre.next_audio_levels_time,
            }
        } else {
            pre.next_audio_levels_time
        },
        next_membership_proof_request_time: if prf {
            Some(spec_sat_add64(now, 86_400_000))
        } else {
            pre.next_membership_proof_request_time
        },
        ..pre
    })
    &&& actions.len() == n5
    &&& (peek ==> actions[0] == Action::SfuPeek)
    &&& (hb_bcast ==> (match pre.join_state {
        JoinState::Joined(local_demux_id) => actions[n0] == (Action::BroadcastDataThroughSfu {
            header: spec_broadcast_header(local_demux_id, pre.rtp_data_through_sfu_next_seqnum),
            message: spec_heartbeat_message(pre.outgoing_heartbeat_state),
        }),
        _ => false,
    }))
    &&& (vr ==> (match pre.video_requests {
        Some(reqs) => is_video_request_action(
            actions[n1],
            pre.rtp_data_to_sfu_next_seqnum,
            reqs@,
            pre.remote_devices@,
            pre.max_receive_rate,
            pre.active_speaker_height,
        ),
        None => false,
    }))
    &&& (stats ==> actions[n2] == Action::GetStats)
    &&& (audio ==> actions[n3] == Action::HandleAudioLevels)
    &&& (prf ==> actions[n4] == Action::RequestMembershipProof)
}

/// A media key announcement to one user over signaling.
pub open spec fn is_media_key_action(
    a: Action,
    recipient: Seq<u8>,
    group_id: Seq<u8>,
    local_demux_id: DemuxId,
    ratchet_counter: u32,
    secret: Seq<u8>,
) -> bool {
    &&& a matches Action::SendSignalingMessage { recipient: rec, message, urgency }
    &&& (a matches Action::SendSignalingMessage { recipient: rec, message, urgency } ==> {
        &&& rec@ == recipient
        &&& urgency == SignalingMessageUrgency::Droppable
        &&& message.ring_intention is None
        &&& message.ring_response is None
        &&& message.group_call_message matches Some(d2d)
        &&& (message.group_call_message matches Some(d2d) ==> {
            &&& d2d.group_id matches Some(g) && (d2d.group_id matches Some(g) ==> g@ == group_id)
            &&& d2d.heartbeat is None
            &&& d2d.leaving is None
            &&& d2d.media_key matches Some(mk)
            &&& (d2d.media_key matches Some(mk) ==> {
                &&& mk.demux_id == Some(local_demux_id)
                &&& mk.ratchet_counter == Some(ratchet_counter)
                &&& mk.secret matches Some(s) && (mk.secret matches Some(s) ==> s@ == secret)
            })
        })
    })
}

/// The ask of the SFU client to join, carrying the local ICE ufrag and a
/// fresh public Diffie-Hellman key.
pub open spec fn is_sfu_join_action(a: Action, ice_ufrag: Seq<char>) -> bool {
    &&& a matches Action::SfuJoin { ice_ufrag: u, dhe_pub_key }
    &&& (a matches Action::SfuJoin { ice_ufrag: u, dhe_pub_key } ==> u@ == ice_ufrag)
}

/// The user ids of the roster, deduplicated in first-appearance order.
pub open spec fn spec_unique_device_users(devs: Seq<RemoteDeviceState>) -> Seq<Seq<u8>>
    decreases devs.len(),
{
    if devs.len() == 0 {
        Seq::empty()
    } else {
        let rest = spec_unique_device_users(devs.drop_last());
        if rest.contains(devs.last().user_id@) {
            rest
        } else {
            rest.push(devs.last().user_id@)
        }
    }
}

/// The user ids of a member list, deduplicated in first-appearance order.
pub open spec fn spec_unique_member_users(members: Seq<GroupMember>) -> Seq<Seq<u8>>
    decreases members.len(),
{
    if members.len() == 0 {
        Seq::empty()
    } else {
        let rest = spec_unique_member_users(members.drop_last());
        if rest.contains(members.last().user_id@) {
            rest
        } else {
            rest.push(members.last().user_id@)
        }
    }
}

/// The demux id of the first device in the list with this user id.
pub open spec fn spec_demux_for_user(devs: Seq<crate::peek::PeekDeviceInfo>, user: Seq<u8>) -> Option<DemuxId>
    decreases devs.len(),
{
    if devs.len() == 0 {
        Option::None
    } else {
        match devs.first().user_id {
            Option::Some(u) => if u@ == user {
                Option::Some(devs.first().demux_id)
            } else {
                spec_demux_for_user(devs.drop_first(), user)
            },
            Option::None => spec_demux_for_user(devs.drop_first(), user),
        }
    }
}

/// Whether joining is blocked because the call is full.
pub open spec fn spec_join_blocked_by_max(pre: Client) -> bool {
    match pre.last_peek_info {
        Some(info) => info.devices@.len() >= (match info.max_devices {
            Some(m) => m as int,
            None => u32::MAX as int,
        }),
        None => false,
    }
}

/// Copy a 32-byte secret into a vector for the wire.
fn secret_to_vec(secret: &[u8; 32]) -> (r: Vec<u8>)
    ensures
        r@ == secret@,
{
    let mut r: Vec<u8> = Vec::new();
    let mut i: usize = 0;
    while i < 32
        invariant
            i <= 32,
            r@ == secret@.take(i as int),
        decreases 32 - i,
    {
        r.push(secret[i]);
        proof {
            assert(secret@.take(i + 1int) =~= secret@.take(i as int).push(secret@[i as int]));
        }
        i = i + 1;
    }
    proof {
        assert(secret@.take(32) =~= secret@);
    }
    r
}

/// Collect the unique user ids of the roster, in first-appearance order.
fn unique_device_users(devs: &RemoteDevices) -> (r: Vec<UserId>)
    ensures
        peek::user_seq(r@) == spec_unique_device_users(devs@),
{
    let n = devs.0.len();
    let mut r: Vec<UserId> = Vec::new();
    let mut i: usize = 0;
    while i < n
        invariant
            n == devs@.len(),
            i <= n,
            peek::user_seq(r@) == spec_unique_device_users(devs@.take(i as int)),
        decreases n - i,
    {
        let ghost prefix = devs@.take(i as int);
        let ghost next = devs@.take(i + 1int);
        proof {
            assert(next.drop_last() =~= prefix);
            assert(next.last() == devs@[i as int]);
        }
        let u = &devs.0[i].user_id;
        if !peek::contains_user(&r, u) {
            let cloned = peek::clone_bytes(u);
            r.push(cloned);
            proof {
                assert(peek::user_seq(r@) =~= spec_unique_device_users(prefix).push(u@));
            }
        }
        i = i + 1;
    }
    proof {
        assert(devs@.take(n as int) =~= devs@);
    }
    r
}

/// Collect the unique user ids of a member list, in first-appearance order.
fn unique_member_users(members: &Vec<GroupMember>) -> (r: Vec<UserId>)
    ensures
        peek::user_seq(r@) == spec_unique_member_users(members@),
{
    let n = members.len();
    let mut r: Vec<UserId> = Vec::new();
    let mut i: usize = 0;
    while i < n
        invariant
            n == members@.len(),
            i <= n,
            peek::user_seq(r@) == spec_unique_member_users(members@.take(i as int)),
        decreases n - i,
    {
        let ghost prefix = members@.take(i as int);
        let ghost next = members@.take(i + 1int);
        proof {
            assert(next.drop_last() =~= prefix);
            assert(next.last() == members@[i as int]);
        }
        let u = &members[i].user_id;
        if !peek::contains_user(&r, u) {
            let cloned = peek::clone_bytes(u);
            r.push(cloned);
            proof {
                assert(peek::user_seq(r@) =~= spec_unique_member_users(prefix).push(u@));
            }
        }
        i = i + 1;
    }
    proof {
        assert(members@.take(n as int) =~= members@);
    }
    r
}

/// The demux id of the first pending device with this user id, if any.
fn find_demux_for_user(devs: &Vec<crate::peek::PeekDeviceInfo>, user: &UserId) -> (r: Option<
    DemuxId,
>)
    ensures
        r == spec_demux_for_user(devs@, user@),
{
    let n = devs.len();
    proof {
        assert(devs@.skip(0) =~= devs@);
    }
    let mut i: usize = 0;
    while i < n
        invariant
            n == devs@.len(),
            i <= n,
            spec_demux_for_user(devs@, user@) == spec_demux_for_user(devs@.skip(i as int), user@),
        decreases n - i,
    {
        let ghost pending = devs@.skip(i as int);
        proof {
            assert(pending.first() == devs@[i as int]);
            assert(pending.drop_first() =~= devs@.skip(i + 1int));
        }
        match &devs[i].user_id {
            Some(u) => {
                if u == user {
                    proof {
                        assert(u@ =~= user@);
                    }
                    return Some(devs[i].demux_id);
                }
                proof {
                    assert(u@ != user@) by {
                        if u@ == user@ {
                            assert(*u =~= *user);
                        }
                    }
                }
            },
            None => {},
        }
        i = i + 1;
    }
    proof {
        assert(devs@.skip(n as int) =~= Seq::<crate::peek::PeekDeviceInfo>::empty());
    }
    None
}

/// The index of the first roster entry with this demux id, or -1.
pub open spec fn spec_first_demux_index(
    devs: Seq<crate::device::RemoteDeviceStateView>,
    demux_id: DemuxId,
) -> int
    decreases devs.len(),
{
    if devs.len() == 0 {
        -1
    } else if devs.first().demux_id == demux_id {
        0
    } else {
        let r = spec_first_demux_index(devs.drop_first(), demux_id);
        if r < 0 {
            -1
        } else {
            r + 1
        }
    }
}

pub proof fn lemma_first_demux_index_char(
    devs: Seq<crate::device::RemoteDeviceStateView>,
    demux_id: DemuxId,
)
    ensures
        ({
            let i = spec_first_demux_index(devs, demux_id);
            &&& (i == -1 ==> forall|j: int|
                0 <= j < devs.len() ==> (#[trigger] devs[j]).demux_id != demux_id)
            &&& (i >= 0 ==> i < devs.len() && devs[i].demux_id == demux_id && (forall|j: int|
                0 <= j < i ==> (#[trigger] devs[j]).demux_id != demux_id))
        }),
    decreases devs.len(),
{
    if devs.len() > 0 && devs.first().demux_id != demux_id {
        lemma_first_demux_index_char(devs.drop_first(), demux_id);
        let i = spec_first_demux_index(devs, demux_id);
        let r = spec_first_demux_index(devs.drop_first(), demux_id);
        assert forall|j: int| 0 <= j < i implies (#[trigger] devs[j]).demux_id != demux_id by {
            if j > 0 {
                assert(devs.drop_first()[j - 1] == devs[j]);
            }
        }
        if r == -1 {
            assert forall|j: int| 0 <= j < devs.len() implies (#[trigger] devs[j]).demux_id
                != demux_id by {
                if j > 0 {
                    assert(devs.drop_first()[j - 1] == devs[j]);
                }
            }
        }
    }
}

/// A freshly created roster entry: nothing received yet, added now.
pub open spec fn spec_new_device_view(demux_id: DemuxId, user_id: Seq<u8>, now: u64) -> crate::device::RemoteDeviceStateView {
    crate::device::RemoteDeviceStateView {
        demux_id,
        user_id,
        media_keys_received: false,
        heartbeat_state: HeartbeatState {
            audio_muted: None,
            video_muted: None,
            presenting: None,
            sharing_screen: None,
        },
        heartbeat_rtp_timestamp: None,
        added_time: now,
        speaker_time: None,
        leaving_received: false,
        forwarding_video: None,
        server_allocated_height: 0,
        client_decoded_height: None,
        is_higher_resolution_pending: false,
    }
}

/// Reconciling a peek into the roster: drop the local device and devices
/// with no user id; keep an existing entry, with its state, when its demux
/// id and user id still match (consuming it so a duplicate demux id cannot
/// reuse it twice); otherwise create a fresh entry added now. Order follows
/// the server's response so `added_time` stays stable.
pub open spec fn spec_reconcile(
    old_devs: Seq<crate::device::RemoteDeviceStateView>,
    devices: Seq<crate::peek::PeekDeviceInfoView>,
    local_demux_id: DemuxId,
    now: u64,
) -> Seq<crate::device::RemoteDeviceStateView>
    decreases devices.len(),
{
    if devices.len() == 0 {
        Seq::empty()
    } else {
        let d = devices.first();
        let rest = devices.drop_first();
        if d.demux_id == local_demux_id {
            spec_reconcile(old_devs, rest, local_demux_id, now)
        } else {
            match d.user_id {
                Option::None => spec_reconcile(old_devs, rest, local_demux_id, now),
                Option::Some(u) => {
                    let i = spec_first_demux_index(old_devs, d.demux_id);
                    if i >= 0 {
                        let e = old_devs[i];
                        let remaining = old_devs.remove(i);
                        let entry = if e.user_id == u {
                            e
                        } else {
                            spec_new_device_view(d.demux_id, u, now)
                        };
                        seq![entry] + spec_reconcile(remaining, rest, local_demux_id, now)
                    } else {
                        seq![spec_new_device_view(d.demux_id, u, now)] + spec_reconcile(
                            old_devs,
                            rest,
                            local_demux_id,
                            now,
                        )
                    }
                },
            }
        }
    }
}

/// Whether the peek lists the local device itself.
pub open spec fn spec_saw_local(
    devices: Seq<crate::peek::PeekDeviceInfoView>,
    local_demux_id: DemuxId,
) -> bool {
    exists|i: int| 0 <= i < devices.len() && devices[i].demux_id == local_demux_id
}

pub open spec fn peek_device_views(devs: Seq<crate::peek::PeekDeviceInfo>) -> Seq<crate::peek::PeekDeviceInfoView> {
    devs.map_values(|d: crate::peek::PeekDeviceInfo| d@)
}

/// What receiving a media key does: install it and mark the device when the
/// demux id belongs to a device of the same user; buffer it (asking for the
/// member list once per batch, for managed groups) when the device is
/// unknown; drop it when the demux id is claimed by a different user.
pub open spec fn add_receive_key_transition(
    pre: Client,
    post: Client,
    user: Seq<u8>,
    demux_id: DemuxId,
    ratchet_counter: u8,
    secret: [u8; 32],
    old_actions: Seq<Action>,
    new_actions: Seq<Action>,
) -> bool {
    let views = crate::device::device_views(pre.remote_devices@);
    let i = spec_first_demux_index(views, demux_id);
    if i >= 0 {
        let e = views[i];
        if e.user_id == user {
            &&& crate::device::device_views(post.remote_devices@) == views.update(
                i,
                crate::device::RemoteDeviceStateView { media_keys_received: true, ..e },
            )
            &&& post == (Client { remote_devices: post.remote_devices, ..pre })
            &&& new_actions == old_actions.push(
                Action::AddReceiveSecret { demux_id, ratchet_counter, secret },
            ) + (if !e.media_keys_received {
                seq![
                    Action::HandleRemoteDevicesChanged {
                        reason: RemoteDevicesChangedReason::MediaKeyReceived(demux_id),
                    },
                ]
            } else {
                Seq::empty()
            })
        } else {
            post == pre && new_actions == old_actions
        }
    } else {
        &&& post == (Client {
            pending_media_receive_keys: post.pending_media_receive_keys,
            ..pre
        })
        &&& post.pending_media_receive_keys@.len() == pre.pending_media_receive_keys@.len() + 1
        &&& post.pending_media_receive_keys@.take(pre.pending_media_receive_keys@.len() as int)
            == pre.pending_media_receive_keys@
        &&& ({
            let k = post.pending_media_receive_keys@.last();
            k.user_id@ == user && k.demux_id == demux_id && k.ratchet_counter == ratchet_counter
                && k.secret == secret
        })
        &&& new_actions == old_actions + (if pre.pending_media_receive_keys@.len() == 0 && pre.kind
            == GroupCallKind::SignalGroup {
            seq![Action::RequestGroupMembers]
        } else {
            Seq::empty()
        })
    }
}

/// The roster after retrying the buffered media keys: a key whose demux id
/// is known and whose user matches marks that device as having keys.
pub open spec fn spec_drain_roster(
    roster: Seq<crate::device::RemoteDeviceStateView>,
    pending: Seq<PendingReceiveKey>,
) -> Seq<crate::device::RemoteDeviceStateView>
    decreases pending.len(),
{
    if pending.len() == 0 {
        roster
    } else {
        let k = pending.first();
        let i = spec_first_demux_index(roster, k.demux_id);
        let roster2 = if i >= 0 && roster[i].user_id == k.user_id@ {
            roster.update(
                i,
                crate::device::RemoteDeviceStateView { media_keys_received: true, ..roster[i] },
            )
        } else {
            roster
        };
        spec_drain_roster(roster2, pending.drop_first())
    }
}

/// The keys still buffered after the retry: exactly those whose demux id the
/// roster still does not know. A key for a known demux id under a different
/// user is dropped as a forgery attempt.
pub open spec fn spec_drain_pending(
    roster: Seq<crate::device::RemoteDeviceStateView>,
    pending: Seq<PendingReceiveKey>,
) -> Seq<PendingKeyView>
    decreases pending.len(),
{
    if pending.len() == 0 {
        Seq::empty()
    } else {
        let k = pending.first();
        let i = spec_first_demux_index(roster, k.demux_id);
        if i >= 0 {
            let roster2 = if roster[i].user_id == k.user_id@ {
                roster.update(
                    i,
                    crate::device::RemoteDeviceStateView { media_keys_received: true, ..roster[i] },
                )
            } else {
                roster
            };
            spec_drain_pending(roster2, pending.drop_first())
        } else {
            seq![k@] + spec_drain_pending(roster, pending.drop_first())
        }
    }
}

/// The users of roster entries whose demux id was not in the old roster, in
/// roster order (one entry per added device, so a user with two new devices
/// is listed twice, as the wire protocol does).
pub open spec fn spec_added_device_users(
    reconciled: Seq<crate::device::RemoteDeviceStateView>,
    old_demux_ids: Set<DemuxId>,
) -> Seq<Seq<u8>>
    decreases reconciled.len(),
{
    if reconciled.len() == 0 {
        Seq::empty()
    } else {
        let rest = spec_added_device_users(reconciled.drop_last(), old_demux_ids);
        if !old_demux_ids.contains(reconciled.last().demux_id) {
            rest.push(reconciled.last().user_id)
        } else {
            rest
        }
    }
}

/// The demux ids of a roster, as a set.
pub open spec fn spec_demux_id_set(roster: Seq<crate::device::RemoteDeviceStateView>) -> Set<DemuxId> {
    roster.map_values(|d: crate::device::RemoteDeviceStateView| d.demux_id).to_set()
}

/// One `HandlePeekChanged` callback with this peek and these joined users.
pub open spec fn is_peek_changed_action(
    a: Action,
    info: crate::peek::PeekInfoView,
    users: Seq<Seq<u8>>,
) -> bool {
    &&& a matches Action::HandlePeekChanged { peek_info, joined_members }
    &&& (a matches Action::HandlePeekChanged { peek_info, joined_members } ==> peek_info@ == info
        && peek::user_seq(joined_members@) == users)
}

/// Whether the observer must hear about this peek: the first ever, or a
/// change in the joined users, the era id, or the pending-users signature.
pub open spec fn spec_peek_fires(pre: Client, info: crate::peek::PeekInfo, sig: u64) -> bool {
    ||| pre.last_peek_info is None
    ||| !(peek::user_seq(pre.joined_members@).to_set() == crate::peek::spec_unique_users(
        info.devices@,
    ).to_set())
    ||| !(match pre.last_peek_info {
        Some(old_info) => old_info@.era_id == info@.era_id,
        None => false,
    })
    ||| pre.pending_users_signature != sig
}

/// Relies on rand's operating-system RNG `fill_bytes`: a fresh random
/// 32-byte secret, of which nothing can be said.
#[verifier::external_body]
fn generate_random_secret() -> [u8; 32] {
    let mut secret = [0u8; 32];
    rand::RngCore::fill_bytes(&mut rand::rngs::OsRng, &mut secret);
    secret
}

/// What rotating from `Applied` does: generate a fresh key, send it (with
/// ratchet counter zero) to every user still in the roster, mark the
/// rotation pending, and schedule its application after the rotation delay.
pub open spec fn rotate_applied_transition(
    pre: Client,
    post: Client,
    old_actions: Seq<Action>,
    new_actions: Seq<Action>,
) -> bool {
    &&& post.media_send_key_rotation_state matches KeyRotationState::Pending {
        needs_another_rotation: false,
        ..
    }
    &&& post == (Client {
        media_send_key_rotation_state: post.media_send_key_rotation_state,
        ..pre
    })
    &&& match (pre.join_state, post.media_send_key_rotation_state) {
        (JoinState::Joined(local_demux_id), KeyRotationState::Pending { secret, .. }) => {
            let users = spec_unique_device_users(pre.remote_devices@);
            &&& new_actions.len() == old_actions.len() + users.len() + 1
            &&& (forall|j: int|
                0 <= j < old_actions.len() ==> #[trigger] new_actions[j] == old_actions[j])
            &&& (forall|k: int|
                0 <= k < users.len() ==> is_media_key_action(
                    #[trigger] new_actions[old_actions.len() + k],
                    users[k],
                    pre.group_id@,
                    local_demux_id,
                    0,
                    secret@,
                ))
            &&& new_actions.last() == (Action::ScheduleApplyPendingSendKey { delay_millis: 3000 })
        },
        (_, _) => new_actions == old_actions.push(
            Action::ScheduleApplyPendingSendKey { delay_millis: 3000 },
        ),
    }
}

/// Whether some user among the old joined members is gone from the peek.
pub open spec fn spec_any_user_removed(pre: Client, info: crate::peek::PeekInfo) -> bool {
    !(peek::user_seq(pre.joined_members@).to_set() <= crate::peek::spec_unique_users(
        info.devices@,
    ).to_set())
}

/// What a successful peek does. The observer hears `HandlePeekChanged`
/// first, and only when something it can see changed. While joined with
/// negotiated keys, the roster is reconciled; a changed demux set rebuilds
/// the transport descriptions and is reported; newly added devices get the
/// advanced send key, a vanished user forces a key rotation, buffered
/// receive keys are retried, the send rates follow the roster size, and a
/// still-cancelable ring stops being cancelable once somebody joined.
pub open spec fn peek_ok_transition(
    pre: Client,
    post: Client,
    info: crate::peek::PeekInfo,
    now: u64,
    actions: Seq<Action>,
) -> bool {
    let sig = crate::peek::spec_pending_users_signature(info);
    let fires = spec_peek_fires(pre, info, sig);
    let should_again = pre.remote_devices_request_state matches
        RemoteDevicesRequestState::Requested { should_request_again: true, .. };
    let active = pre.join_state is Joined && pre.dhe_state is Negotiated;
    &&& peek::user_seq(post.joined_members@) == crate::peek::spec_unique_users(info.devices@)
    &&& post.pending_users_signature == sig
    &&& (post.last_peek_info matches Some(p) && (post.last_peek_info matches Some(p) ==> p@
        == info@))
    &&& post.remote_devices_request_state == (if should_again {
        RemoteDevicesRequestState::Requested { should_request_again: false, at: now }
    } else {
        RemoteDevicesRequestState::Updated { at: now }
    })
    &&& (fires ==> actions.len() >= 1 && is_peek_changed_action(
        actions[0],
        info@,
        crate::peek::spec_unique_users_excluding(
            info.devices@,
            match pre.join_state {
                JoinState::Joined(local_demux_id) => Some(local_demux_id),
                _ => None,
            },
        ),
    ))
    &&& (should_again ==> actions.len() >= 1 && actions.last() == Action::SfuPeek)
    &&& (forall|i: int|
        0 <= i < actions.len() && (#[trigger] actions[i]) is HandlePeekChanged ==> fires && i
            == 0)
    &&& (!active ==> post == (Client {
        joined_members: post.joined_members,
        pending_users_signature: sig,
        last_peek_info: post.last_peek_info,
        remote_devices_request_state: post.remote_devices_request_state,
        ..pre
    }))
    &&& (active ==> (match pre.join_state {
        JoinState::Joined(local_demux_id) => {
            &&& peek_roster_transition(
                Client {
                    remote_devices_request_state: RemoteDevicesRequestState::Updated { at: now },
                    ..pre
                },
                Client {
                    joined_members: pre.joined_members,
                    pending_users_signature: pre.pending_users_signature,
                    last_peek_info: pre.last_peek_info,
                    remote_devices_request_state: RemoteDevicesRequestState::Updated { at: now },
                    ..post
                },
                info,
                local_demux_id,
                now,
                actions.take(
                    if fires {
                        1int
                    } else {
                        0
                    },
                ),
                actions,
            )
        },
        _ => false,
    }))
}

pub proof fn lemma_drain_roster_len(
    roster: Seq<crate::device::RemoteDeviceStateView>,
    pending: Seq<PendingReceiveKey>,
)
    ensures
        spec_drain_roster(roster, pending).len() == roster.len(),
    decreases pending.len(),
{
    if pending.len() > 0 {
        let k = pending.first();
        lemma_first_demux_index_char(roster, k.demux_id);
        let i = spec_first_demux_index(roster, k.demux_id);
        let roster2 = if i >= 0 && roster[i].user_id == k.user_id@ {
            roster.update(
                i,
                crate::device::RemoteDeviceStateView { media_keys_received: true, ..roster[i] },
            )
        } else {
            roster
        };
        lemma_drain_roster_len(roster2, pending.drop_first());
    }
}


/// The roster-facing part of taking in a peek, for a joined call with
/// negotiated keys. `new_users` is the unique-user list of the peek.
/// The actions a roster update may append: none of them is a peek-changed
/// report, and none but the one advance (when devices were added) touches
/// the send ratchet.
pub open spec fn roster_appended_ok(actions: Seq<Action>, from: int) -> bool {
    forall|i: int|
        from <= i < actions.len() ==> !((#[trigger] actions[i]) is HandlePeekChanged)
}

/// One `UpdatePeerConnectionDescriptions` action rebuilding the transport
/// with exactly the new demux ids and the negotiated keys.
pub open spec fn is_update_descriptions_action(
    a: Action,
    local_demux_id: DemuxId,
    new_ids: Set<DemuxId>,
    dhe_state: DheState,
) -> bool {
    &&& a matches Action::UpdatePeerConnectionDescriptions { local_demux_id: l, remote_demux_ids, srtp_keys }
    &&& (a matches Action::UpdatePeerConnectionDescriptions { local_demux_id: l, remote_demux_ids, srtp_keys } ==> {
        &&& l == local_demux_id
        &&& remote_demux_ids@.to_set() == new_ids
        &&& (dhe_state matches DheState::Negotiated { srtp_keys: keys } ==> srtp_keys_view_eq(
            srtp_keys,
            keys,
        ))
    })
}

/// Whether two key pairs carry the same bytes.
pub open spec fn srtp_keys_view_eq(a: SrtpKeys, b: SrtpKeys) -> bool {
    &&& a.client.suite == b.client.suite
    &&& a.client.key@ == b.client.key@
    &&& a.client.salt@ == b.client.salt@
    &&& a.server.suite == b.server.suite
    &&& a.server.key@ == b.server.key@
    &&& a.server.salt@ == b.server.salt@
}

pub open spec fn peek_roster_transition(
    pre: Client,
    post: Client,
    info: crate::peek::PeekInfo,
    local_demux_id: DemuxId,
    now: u64,
    old_actions: Seq<Action>,
    new_actions: Seq<Action>,
) -> bool {
    let reconciled = spec_reconcile(
        crate::device::device_views(pre.remote_devices@),
        peek_device_views(info.devices@),
        local_demux_id,
        now,
    );
    let old_ids = spec_demux_id_set(crate::device::device_views(pre.remote_devices@));
    let new_ids = spec_demux_id_set(reconciled);
    let added_users = spec_added_device_users(reconciled, old_ids);
    let removed = spec_any_user_removed(pre, info);
    &&& (forall|j: int| 0 <= j < old_actions.len() ==> #[trigger] new_actions[j] == old_actions[j])
    &&& new_actions.len() >= old_actions.len()
    &&& crate::device::device_views(post.remote_devices@) == spec_drain_roster(
        reconciled,
        pre.pending_media_receive_keys@,
    )
    &&& pending_key_views(post.pending_media_receive_keys@) == spec_drain_pending(
        reconciled,
        pre.pending_media_receive_keys@,
    )
    &&& post.has_ever_been_participating_client == (pre.has_ever_been_participating_client
        || spec_saw_local(peek_device_views(info.devices@), local_demux_id))
    &&& (if removed {
        match pre.media_send_key_rotation_state {
            KeyRotationState::Pending { secret, .. } => post.media_send_key_rotation_state
                == (KeyRotationState::Pending { secret, needs_another_rotation: true }),
            KeyRotationState::Applied => post.media_send_key_rotation_state matches
                KeyRotationState::Pending { needs_another_rotation: false, .. } && (exists|i: int|
                0 <= i < new_actions.len() && #[trigger] new_actions[i]
                    == (Action::ScheduleApplyPendingSendKey { delay_millis: 3000 })),
        }
    } else {
        post.media_send_key_rotation_state == pre.media_send_key_rotation_state
    })
    &&& post.outgoing_ring_state == (if reconciled.len() != 0
        && pre.outgoing_ring_state is HasSentRing {
        OutgoingRingState::NotPermittedToRing
    } else {
        pre.outgoing_ring_state
    })
    &&& post.send_rates == (if new_ids.len() != old_ids.len() {
        spec_effective_rates(
            pre,
            crate::rates::spec_compute_send_rates(
                new_ids.len() as int,
                pre.outgoing_heartbeat_state.sharing_screen == Some(true),
            ),
        )
    } else {
        pre.send_rates
    })
    &&& (!(new_ids =~= old_ids) ==> exists|i: int|
        0 <= i < new_actions.len() && (#[trigger] new_actions[i])
            == (Action::HandleRemoteDevicesChanged {
            reason: RemoteDevicesChangedReason::DemuxIdsChanged,
        }))
    &&& (!(new_ids =~= old_ids) && pre.sfu_info is Some ==> exists|i: int|
        0 <= i < new_actions.len() && is_update_descriptions_action(
            #[trigger] new_actions[i],
            local_demux_id,
            new_ids,
            pre.dhe_state,
        ))
    &&& roster_appended_ok(new_actions, old_actions.len() as int)
    &&& (added_users.len() > 0 ==> exists|i: int|
        #![auto]
        {
            &&& 0 <= i < new_actions.len()
            &&& is_advance_ratchet_action(new_actions[i], added_users)
            &&& (forall|j: int|
                old_actions.len() <= j < new_actions.len() && j != i ==> !((
                #[trigger] new_actions[j]) is AdvanceSendRatchet))
            &&& (match pre.media_send_key_rotation_state {
                KeyRotationState::Pending { secret, .. } => {
                    &&& i + 1 + added_users.len() <= new_actions.len()
                    &&& (forall|k: int|
                        0 <= k < added_users.len() ==> is_media_key_action(
                            #[trigger] new_actions[i + 1 + k],
                            added_users[k],
                            pre.group_id@,
                            local_demux_id,
                            0,
                            secret@,
                        ))
                },
                KeyRotationState::Applied => true,
            })
        })
    &&& (added_users.len() == 0 ==> forall|j: int|
        old_actions.len() <= j < new_actions.len() ==> !((#[trigger] new_actions[j])
            is AdvanceSendRatchet))
    &&& post == (Client {
        remote_devices: post.remote_devices,
        has_ever_been_participating_client: post.has_ever_been_participating_client,
        pending_media_receive_keys: post.pending_media_receive_keys,
        media_send_key_rotation_state: post.media_send_key_rotation_state,
        outgoing_ring_state: post.outgoing_ring_state,
        send_rates: post.send_rates,
        ..pre
    })
}

/// The latest-speaker position is unique: it is the last index carrying the
/// maximal speaker time.
pub proof fn lemma_latest_speaker_index_unique(devs: RemoteDevices)
    ensures
        forall|i: int, j: int|
            #[trigger] devs.is_latest_speaker_index(i) && #[trigger] devs.is_latest_speaker_index(
                j,
            ) ==> i == j,
{
    assert forall|i: int, j: int|
        #[trigger] devs.is_latest_speaker_index(i) && #[trigger] devs.is_latest_speaker_index(
            j,
        ) implies i == j by {
        if i < j {
            assert(crate::device::spoke_more_recently(
                devs@[i].speaker_time,
                devs@[j].speaker_time,
            ));
            assert(!crate::device::spoke_more_recently(
                devs@[i].speaker_time,
                devs@[j].speaker_time,
            ));
        }
        if j < i {
            assert(crate::device::spoke_more_recently(
                devs@[j].speaker_time,
                devs@[i].speaker_time,
            ));
            assert(!crate::device::spoke_more_recently(
                devs@[j].speaker_time,
                devs@[i].speaker_time,
            ));
        }
    }
}


/// What a successful join answer does, while connecting and joining; in any
/// other connection or join state the answer is a duplicated transition and
/// is dropped with a warning (nothing is claimed here of those).
pub open spec fn sfu_joined_transition(
    pre: Client,
    post: Client,
    j: Joined,
    self_user_id: Option<UserId>,
    now: u64,
    actions: Seq<Action>,
) -> bool {
    &&& (!(pre.connection_state == ConnectionState::Connecting && pre.join_state is Joining)
        ==> post == pre && actions == Seq::<Action>::empty())
    &&& ((pre.connection_state == ConnectionState::Connecting && pre.join_state is Joining
        && pre.dhe_state is WaitingForServerPublicKey) ==> {
        let rate_actions = spec_rate_actions(pre, spec_all_alone_rates());
        &&& post.join_state == JoinState::Joined(j.local_demux_id)
        &&& post.dhe_state is Negotiated
        &&& post.sfu_info == Some(j.sfu_info)
        &&& post.next_stats_time == Some(spec_sat_add64(now, 2000))
        &&& crate::device::device_views(post.remote_devices@) == spec_replay_roster(pre, j, now)
        &&& (match pre.last_peek_info {
            Some(prior) => {
                &&& peek::user_seq(post.joined_members@) == crate::peek::spec_unique_users(
                    prior.devices@,
                )
                &&& (post.last_peek_info matches Some(p) && (post.last_peek_info matches Some(p)
                    ==> p@ == prior@))
            },
            None => post.joined_members == pre.joined_members && post.last_peek_info is None,
        })
        &&& post.remote_devices_request_state == crate::polling::spec_request_state_after(
            spec_request_after_replay(pre, now),
            now,
            0,
            true,
        )
        &&& (crate::polling::spec_should_request_now(spec_request_after_replay(pre, now), now, 0)
            ==> exists|i: int| 0 <= i < actions.len() && (#[trigger] actions[i]) == Action::SfuPeek)
        &&& (pre.outgoing_ring_state is Unknown && j.creator is Some ==> ring_decision_ok(
            post,
            j,
            self_user_id,
        ))
        &&& actions.len() >= 1 + rate_actions.len()
        &&& is_start_peer_connection_action(actions[0], j.local_demux_id, post.dhe_state)
        &&& actions.subrange(1, 1 + rate_actions.len() as int) == rate_actions
        &&& (exists|i: int|
            0 <= i < actions.len() && (#[trigger] actions[i]) == (Action::HandleJoinStateChanged {
                join_state: JoinState::Joined(j.local_demux_id),
            }))
        &&& (exists|i: int|
            0 <= i < actions.len() && (#[trigger] actions[i]) == (Action::ConfigureAudioEncoders {
                data_mode: pre.data_mode,
            }))
        &&& post == (Client {
            join_state: post.join_state,
            dhe_state: post.dhe_state,
            sfu_info: post.sfu_info,
            remote_devices: post.remote_devices,
            has_ever_been_participating_client: post.has_ever_been_participating_client,
            joined_members: post.joined_members,
            pending_users_signature: post.pending_users_signature,
            last_peek_info: post.last_peek_info,
            remote_devices_request_state: post.remote_devices_request_state,
            pending_media_receive_keys: post.pending_media_receive_keys,
            media_send_key_rotation_state: post.media_send_key_rotation_state,
            outgoing_ring_state: post.outgoing_ring_state,
            send_rates: post.send_rates,
            next_stats_time: post.next_stats_time,
            ..pre
        })
    })
}

pub open spec fn is_start_peer_connection_action(
    a: Action,
    local_demux_id: DemuxId,
    dhe_state: DheState,
) -> bool {
    &&& a matches Action::StartPeerConnection { local_demux_id: l, srtp_keys }
    &&& (a matches Action::StartPeerConnection { local_demux_id: l, srtp_keys } ==> l
        == local_demux_id && (dhe_state matches DheState::Negotiated { srtp_keys: keys }
        ==> srtp_keys_view_eq(srtp_keys, keys)))
}

/// The all-alone rate: as little as possible until somebody else is known
/// to be in the call.
pub open spec fn spec_all_alone_rates() -> SendRates {
    SendRates { min: None, start: None, max: Some(DataRate { kbps: 1 }) }
}

/// The roster peeked before joining seeds the roster on joining; without a
/// prior peek the roster stays empty.
pub open spec fn spec_replay_roster(pre: Client, j: Joined, now: u64) -> Seq<
    crate::device::RemoteDeviceStateView,
> {
    match pre.last_peek_info {
        Some(prior) => spec_drain_roster(
            spec_reconcile(
                crate::device::device_views(pre.remote_devices@),
                peek_device_views(prior.devices@),
                j.local_demux_id,
                now,
            ),
            pre.pending_media_receive_keys@,
        ),
        None => crate::device::device_views(pre.remote_devices@),
    }
}

/// The request state after the replay, before the follow-up peek.
pub open spec fn spec_request_after_replay(pre: Client, now: u64) -> RemoteDevicesRequestState {
    match pre.last_peek_info {
        Some(_) => if pre.remote_devices_request_state matches
            RemoteDevicesRequestState::Requested { should_request_again: true, .. } {
            RemoteDevicesRequestState::Requested { should_request_again: false, at: now }
        } else {
            RemoteDevicesRequestState::Updated { at: now }
        },
        None => pre.remote_devices_request_state,
    }
}

/// The ring permission decided on joining: the creator may ring, anyone else
/// may not, and the ring id is derived from the era id.
pub open spec fn ring_decision_ok(post: Client, j: Joined, self_user_id: Option<UserId>) -> bool {
    match (j.creator, self_user_id) {
        (Some(c), Some(u)) => if c@ == u@ {
            post.outgoing_ring_state matches OutgoingRingState::PermittedToRing { ring_id }
                && (post.outgoing_ring_state matches OutgoingRingState::PermittedToRing { ring_id }
                ==> ring_id.0 == crate::ring_id::spec_ring_id_from_era(j.era_id@))
        } else {
            post.outgoing_ring_state == OutgoingRingState::NotPermittedToRing
        },
        _ => post.outgoing_ring_state == OutgoingRingState::NotPermittedToRing,
    }
}

/// An in-band speaker notice: samples older than the last are dropped; a
/// newer one marks the named device as speaking now, unless it is unknown
/// or already the latest speaker.
pub open spec fn speaker_transition(
    pre: Client,
    post: Client,
    now: u64,
    timestamp: u32,
    demux_id: DemuxId,
    actions: Seq<Action>,
) -> bool {
    let stale = match pre.speaker_rtp_timestamp {
        Some(t) => timestamp <= t,
        None => false,
    };
    let views = crate::device::device_views(pre.remote_devices@);
    let i = spec_first_demux_index(views, demux_id);
    let already_latest = exists|k: int|
        #[trigger] pre.remote_devices.is_latest_speaker_index(k)
            && pre.remote_devices@[k].demux_id == demux_id
            && pre.remote_devices@[k].speaker_time is Some;
    if stale {
        post == pre && actions == Seq::<Action>::empty()
    } else if i < 0 || already_latest {
        &&& post == (Client { speaker_rtp_timestamp: Some(timestamp), ..pre })
        &&& actions == Seq::<Action>::empty()
    } else {
        &&& crate::device::device_views(post.remote_devices@) == views.update(
            i,
            crate::device::RemoteDeviceStateView { speaker_time: Some(now), ..views[i] },
        )
        &&& post == (Client {
            speaker_rtp_timestamp: Some(timestamp),
            remote_devices: post.remote_devices,
            ..pre
        })
        &&& actions == seq![
            Action::HandleRemoteDevicesChanged {
                reason: RemoteDevicesChangedReason::SpeakerTimeChanged(demux_id),
            },
        ]
    }
}

/// A heartbeat from a remote device: out-of-order samples are dropped by
/// RTP timestamp; a change of the reported state is recorded and reported,
/// and video muting clears what we had decoded.
pub open spec fn heartbeat_transition(
    pre: Client,
    post: Client,
    demux_id: DemuxId,
    timestamp: u32,
    heartbeat: HeartbeatState,
    actions: Seq<Action>,
) -> bool {
    let views = crate::device::device_views(pre.remote_devices@);
    let i = spec_first_demux_index(views, demux_id);
    if i < 0 {
        post == pre && actions == Seq::<Action>::empty()
    } else {
        let e = views[i];
        let fresh = timestamp > e.heartbeat_rtp_timestamp.unwrap_or(0);
        if !fresh {
            post == pre && actions == Seq::<Action>::empty()
        } else if e.heartbeat_state == heartbeat {
            &&& crate::device::device_views(post.remote_devices@) == views.update(
                i,
                crate::device::RemoteDeviceStateView {
                    heartbeat_rtp_timestamp: Some(timestamp),
                    ..e
                },
            )
            &&& post == (Client { remote_devices: post.remote_devices, ..pre })
            &&& actions == Seq::<Action>::empty()
        } else {
            let mutes_video = heartbeat.video_muted == Some(true);
            let cleared_height = if mutes_video {
                Option::<u32>::None
            } else {
                e.client_decoded_height
            };
            let pending = if mutes_video {
                e.server_allocated_height > 0
            } else {
                e.is_higher_resolution_pending
            };
            &&& crate::device::device_views(post.remote_devices@) == views.update(
                i,
                crate::device::RemoteDeviceStateView {
                    heartbeat_rtp_timestamp: Some(timestamp),
                    heartbeat_state: heartbeat,
                    client_decoded_height: cleared_height,
                    is_higher_resolution_pending: pending,
                    ..e
                },
            )
            &&& post == (Client { remote_devices: post.remote_devices, ..pre })
            &&& actions == seq![
                Action::HandleRemoteDevicesChanged {
                    reason: RemoteDevicesChangedReason::HeartbeatStateChanged(demux_id),
                },
            ]
        }
    }
}

/// A device said it is leaving: mark it once, peek now, and peek again a
/// little later in case the SFU is behind.
pub open spec fn leaving_transition(
    pre: Client,
    post: Client,
    now: u64,
    demux_id: DemuxId,
    actions: Seq<Action>,
) -> bool {
    let views = crate::device::device_views(pre.remote_devices@);
    let i = spec_first_demux_index(views, demux_id);
    if i < 0 || views[i].leaving_received {
        post == pre && actions == Seq::<Action>::empty()
    } else {
        &&& crate::device::device_views(post.remote_devices@) == views.update(
            i,
            crate::device::RemoteDeviceStateView { leaving_received: true, ..views[i] },
        )
        &&& post == (Client {
            remote_devices: post.remote_devices,
            remote_devices_request_state: crate::polling::spec_request_state_after(
                pre.remote_devices_request_state,
                now,
                0,
                true,
            ),
            ..pre
        })
        &&& actions == (if crate::polling::spec_should_request_now(
            pre.remote_devices_request_state,
            now,
            0,
        ) {
            seq![Action::SfuPeek]
        } else {
            Seq::empty()
        }) + seq![Action::SchedulePeekAfterLeaving { delay_millis: 2000 }]
    }
}

/// The SFU's notice of which devices it forwards video from: when the set
/// of (device, allocated height) pairs changed, update every roster entry's
/// forwarding flag and allocated height (clearing the decoded height when
/// not forwarding) and report the change once.
pub open spec fn forwarding_transition(
    pre: Client,
    post: Client,
    demux_ids_with_video: Seq<DemuxId>,
    allocated_heights: Seq<u32>,
    actions: Seq<Action>,
) -> bool {
    let pairs = spec_zip_forwarding(demux_ids_with_video, allocated_heights);
    let changed = !(pairs.to_set() == pre.forwarding_videos@.to_set());
    if changed {
        &&& post.forwarding_videos@ == pairs
        &&& post == (Client {
            forwarding_videos: post.forwarding_videos,
            remote_devices: post.remote_devices,
            ..pre
        })
        &&& post.remote_devices@.len() == pre.remote_devices@.len()
        &&& (forall|k: int|
            0 <= k < post.remote_devices@.len() ==> (#[trigger] post.remote_devices@[k])@
                == spec_forwarding_update(
                crate::device::device_views(pre.remote_devices@)[k],
                pairs,
            ))
        &&& actions == seq![
            Action::HandleRemoteDevicesChanged {
                reason: RemoteDevicesChangedReason::ForwardedVideosChanged,
            },
        ]
    } else {
        post == pre && actions == Seq::<Action>::empty()
    }
}


/// A carrier for the quantified witnesses of the dispatch transitions.
pub open spec fn dispatch_witness(a: Client, b: Client, c: Client, i: int, j: int, k: int) -> bool {
    true
}

/// An SFU control message dispatches its parts in order: the speaker
/// notice, the joined-or-left nudge (an as-soon-as-possible peek), the
/// forwarding update, and the removal, each acting on the state the
/// previous part left. Parts that are absent change nothing.
pub open spec fn sfu_to_device_transition(
    pre: Client,
    post: Client,
    now: u64,
    header_timestamp: u32,
    message: crate::protocol::SfuToDevice,
    actions: Seq<Action>,
) -> bool {
    exists|mid1: Client, mid2: Client, mid3: Client, k1: int, k2: int, k3: int|
        {
            &&& #[trigger] dispatch_witness(mid1, mid2, mid3, k1, k2, k3)
            &&& 0 <= k1 <= k2 <= k3 <= actions.len()
            &&& (match message.speaker {
                Some(sp) => match sp.demux_id {
                    Some(speaker_demux_id) => speaker_transition(
                        pre,
                        mid1,
                        now,
                        header_timestamp,
                        speaker_demux_id,
                        actions.take(k1),
                    ),
                    None => mid1 == pre && k1 == 0,
                },
                None => mid1 == pre && k1 == 0,
            })
            &&& (if message.device_joined_or_left {
                &&& mid2 == (Client {
                    remote_devices_request_state: crate::polling::spec_request_state_after(
                        mid1.remote_devices_request_state,
                        now,
                        0,
                        true,
                    ),
                    ..mid1
                })
                &&& actions.subrange(k1, k2) == (if crate::polling::spec_should_request_now(
                    mid1.remote_devices_request_state,
                    now,
                    0,
                ) {
                    seq![Action::SfuPeek]
                } else {
                    Seq::<Action>::empty()
                })
            } else {
                mid2 == mid1 && k2 == k1
            })
            &&& (match message.current_devices {
                Some(cd) => forwarding_transition(
                    mid2,
                    mid3,
                    cd.demux_ids_with_video@,
                    cd.allocated_heights@,
                    actions.subrange(k2, k3),
                ),
                None => mid3 == mid2 && k3 == k2,
            })
            &&& (if message.removed {
                end_transition(
                    mid3,
                    post,
                    actions.skip(k3),
                    if mid3.has_ever_been_participating_client {
                        EndReason::RemovedFromCall
                    } else {
                        EndReason::DeniedRequestToJoinCall
                    },
                )
            } else {
                post == mid3 && actions.skip(k3) == Seq::<Action>::empty()
            })
        }
}

/// Decrypted device-to-device data from a peer dispatches in order: the
/// heartbeat, the leaving notice, then the unknown-sender check — a message
/// from a demux id not in the roster asks for the roster as soon as
/// possible. `None` stands for a payload that failed to decrypt or decode;
/// the unknown-sender check still runs for it.
pub open spec fn peer_rtp_transition(
    pre: Client,
    post: Client,
    now: u64,
    sender_demux_id: DemuxId,
    header_timestamp: u32,
    message: Option<DeviceToDevice>,
    actions: Seq<Action>,
) -> bool {
    exists|mid1: Client, mid2: Client, k1: int, k2: int|
        {
            &&& #[trigger] dispatch_witness(mid1, mid2, mid2, k1, k2, k2)
            &&& 0 <= k1 <= k2 <= actions.len()
            &&& (match message {
                Some(m) => match m.heartbeat {
                    Some(heartbeat) => heartbeat_transition(
                        pre,
                        mid1,
                        sender_demux_id,
                        header_timestamp,
                        heartbeat,
                        actions.take(k1),
                    ),
                    None => mid1 == pre && k1 == 0,
                },
                None => mid1 == pre && k1 == 0,
            })
            &&& (match message {
                Some(m) => if m.leaving is Some {
                    leaving_transition(mid1, mid2, now, sender_demux_id, actions.subrange(k1, k2))
                } else {
                    mid2 == mid1 && k2 == k1
                },
                None => mid2 == mid1 && k2 == k1,
            })
            &&& (if seq_contains_demux(mid2.remote_devices@, sender_demux_id) {
                post == mid2 && actions.skip(k2) == Seq::<Action>::empty()
            } else {
                &&& post == (Client {
                    remote_devices_request_state: crate::polling::spec_request_state_after(
                        mid2.remote_devices_request_state,
                        now,
                        0,
                        true,
                    ),
                    ..mid2
                })
                &&& actions.skip(k2) == (if crate::polling::spec_should_request_now(
                    mid2.remote_devices_request_state,
                    now,
                    0,
                ) {
                    seq![Action::SfuPeek]
                } else {
                    Seq::<Action>::empty()
                })
            })
        }
}

pub open spec fn is_advance_ratchet_action(a: Action, users: Seq<Seq<u8>>) -> bool {
    &&& a matches Action::AdvanceSendRatchet { distribute_to }
    &&& (a matches Action::AdvanceSendRatchet { distribute_to } ==> peek::user_seq(distribute_to@)
        == users)
}

/// Copy the negotiated SRTP keys, keeping their bytes.
fn clone_srtp_keys(k: &SrtpKeys) -> (r: SrtpKeys)
    ensures
        srtp_keys_view_eq(r, *k),
{
    SrtpKeys {
        client: crate::srtp::SrtpKey {
            suite: k.client.suite,
            key: peek::clone_bytes(&k.client.key),
            salt: peek::clone_bytes(&k.client.salt),
        },
        server: crate::srtp::SrtpKey {
            suite: k.server.suite,
            key: peek::clone_bytes(&k.server.key),
            salt: peek::clone_bytes(&k.server.salt),
        },
    }
}

/// Copy one buffered receive key, keeping its value.
fn clone_pending_key(k: &PendingReceiveKey) -> (r: PendingReceiveKey)
    ensures
        r@ == k@,
{
    PendingReceiveKey {
        user_id: peek::clone_bytes(&k.user_id),
        demux_id: k.demux_id,
        ratchet_counter: k.ratchet_counter,
        secret: k.secret,
    }
}

/// Whether every demux id of the roster is in the given set.
fn all_demux_in_set(devs: &RemoteDevices, ids: &std::collections::HashSet<DemuxId>) -> (r: bool)
    ensures
        r == crate::device::device_views(devs@).map_values(
            |d: crate::device::RemoteDeviceStateView| d.demux_id,
        ).to_set().subset_of(ids@),
    {
    broadcast use vstd::std_specs::hash::group_hash_axioms;

    let ghost demuxes = crate::device::device_views(devs@).map_values(
        |d: crate::device::RemoteDeviceStateView| d.demux_id,
    );
    let n = devs.0.len();
    let mut i: usize = 0;
    while i < n
        invariant
            n == devs@.len(),
            i <= n,
            demuxes == crate::device::device_views(devs@).map_values(
                |d: crate::device::RemoteDeviceStateView| d.demux_id,
            ),
            vstd::std_specs::hash::obeys_key_model::<DemuxId>(),
            forall|j: int| 0 <= j < i ==> ids@.contains(#[trigger] demuxes[j]),
        decreases n - i,
    {
        if !ids.contains(&devs.0[i].demux_id) {
            proof {
                assert(demuxes[i as int] == devs@[i as int].demux_id);
                assert(demuxes.to_set().contains(demuxes[i as int]));
            }
            return false;
        }
        proof {
            assert(demuxes[i as int] == devs@[i as int].demux_id);
        }
        i = i + 1;
    }
    proof {
        assert forall|d: DemuxId| demuxes.to_set().contains(d) implies ids@.contains(d) by {
            let j = choose|j: int| 0 <= j < demuxes.len() && demuxes[j] == d;
            assert(ids@.contains(demuxes[j]));
        }
    }
    true
}

/// The demux ids of the roster, in roster order.
fn roster_demux_ids(devs: &RemoteDevices) -> (r: Vec<DemuxId>)
    ensures
        r@ == devs@.map_values(|d: RemoteDeviceState| d.demux_id),
{
    let n = devs.0.len();
    let mut r: Vec<DemuxId> = Vec::new();
    let mut i: usize = 0;
    while i < n
        invariant
            n == devs@.len(),
            i <= n,
            r@ == devs@.take(i as int).map_values(|d: RemoteDeviceState| d.demux_id),
        decreases n - i,
    {
        r.push(devs.0[i].demux_id);
        proof {
            assert(r@ =~= devs@.take(i + 1int).map_values(|d: RemoteDeviceState| d.demux_id));
        }
        i = i + 1;
    }
    proof {
        assert(devs@.take(n as int) =~= devs@);
    }
    r
}

/// The users of roster entries whose demux id is not in `old_ids`, in roster
/// order, one entry per added device.
fn added_device_users(devs: &RemoteDevices, old_ids: &std::collections::HashSet<DemuxId>) -> (r:
    Vec<UserId>)
    ensures
        peek::user_seq(r@) == spec_added_device_users(
            crate::device::device_views(devs@),
            old_ids@,
        ),
{
    broadcast use vstd::std_specs::hash::group_hash_axioms;

    let ghost views = crate::device::device_views(devs@);
    let n = devs.0.len();
    let mut r: Vec<UserId> = Vec::new();
    let mut i: usize = 0;
    while i < n
        invariant
            n == devs@.len(),
            i <= n,
            views == crate::device::device_views(devs@),
            vstd::std_specs::hash::obeys_key_model::<DemuxId>(),
            peek::user_seq(r@) == spec_added_device_users(views.take(i as int), old_ids@),
        decreases n - i,
    {
        let ghost prefix = views.take(i as int);
        let ghost next = views.take(i + 1int);
        proof {
            assert(next.drop_last() =~= prefix);
            assert(next.last() == views[i as int]);
            assert(views[i as int].demux_id == devs@[i as int].demux_id);
            assert(views[i as int].user_id == devs@[i as int].user_id@);
        }
        if !old_ids.contains(&devs.0[i].demux_id) {
            r.push(peek::clone_bytes(&devs.0[i].user_id));
            proof {
                assert(peek::user_seq(r@) =~= spec_added_device_users(prefix, old_ids@).push(
                    views[i as int].user_id,
                ));
            }
        }
        i = i + 1;
    }
    proof {
        assert(views.take(n as int) =~= views);
    }
    r
}

/// The (demux id, allocated height) pairs of a forwarding notice, index for
/// index, stopping at the shorter list; heights are clamped to 16 bits.
pub open spec fn spec_zip_forwarding(ids: Seq<u32>, hs: Seq<u32>) -> Seq<(u32, u16)> {
    Seq::new(
        if ids.len() <= hs.len() {
            ids.len()
        } else {
            hs.len()
        },
        |i: int| (ids[i], hs[i] as u16),
    )
}

/// The allocated height for a device, the last listed pair winning.
pub open spec fn spec_lookup_pair(pairs: Seq<(u32, u16)>, demux_id: u32) -> Option<u16>
    decreases pairs.len(),
{
    if pairs.len() == 0 {
        Option::None
    } else if pairs.last().0 == demux_id {
        Option::Some(pairs.last().1)
    } else {
        spec_lookup_pair(pairs.drop_last(), demux_id)
    }
}

/// One roster entry after a forwarding update: forwarding flag and allocated
/// height from the notice, the decoded height cleared when not forwarding,
/// and the pending flag recomputed.
pub open spec fn spec_forwarding_update(
    e: crate::device::RemoteDeviceStateView,
    pairs: Seq<(u32, u16)>,
) -> crate::device::RemoteDeviceStateView {
    let found = spec_lookup_pair(pairs, e.demux_id);
    let h: u16 = match found {
        Option::Some(h) => h,
        Option::None => 0,
    };
    let decoded = if found is Some {
        e.client_decoded_height
    } else {
        Option::None
    };
    crate::device::RemoteDeviceStateView {
        forwarding_video: Some(found is Some),
        server_allocated_height: h,
        client_decoded_height: decoded,
        is_higher_resolution_pending: h > decoded.unwrap_or(0),
        ..e
    }
}

/// Zip a forwarding notice into pairs.
fn zip_forwarding(ids: &Vec<u32>, hs: &Vec<u32>) -> (r: Vec<(u32, u16)>)
    ensures
        r@ == spec_zip_forwarding(ids@, hs@),
{
    let n = if ids.len() <= hs.len() {
        ids.len()
    } else {
        hs.len()
    };
    let mut r: Vec<(u32, u16)> = Vec::new();
    let mut i: usize = 0;
    while i < n
        invariant
            n <= ids@.len(),
            n <= hs@.len(),
            n == spec_zip_forwarding(ids@, hs@).len(),
            i <= n,
            r@ == spec_zip_forwarding(ids@, hs@).take(i as int),
        decreases n - i,
    {
        let h: u16 = #[verifier::truncate] (hs[i] as u16);
        r.push((ids[i], h));
        proof {
            assert(r@ =~= spec_zip_forwarding(ids@, hs@).take(i + 1int));
        }
        i = i + 1;
    }
    proof {
        assert(spec_zip_forwarding(ids@, hs@).take(n as int) =~= spec_zip_forwarding(ids@, hs@));
    }
    r
}

/// Look a device's allocated height up, the last listed pair winning.
fn lookup_pair(pairs: &Vec<(u32, u16)>, demux_id: u32) -> (r: Option<u16>)
    ensures
        r == spec_lookup_pair(pairs@, demux_id),
{
    let mut i: usize = pairs.len();
    proof {
        assert(pairs@.take(pairs@.len() as int) =~= pairs@);
    }
    while i > 0
        invariant
            i <= pairs@.len(),
            spec_lookup_pair(pairs@, demux_id) == spec_lookup_pair(
                pairs@.take(i as int),
                demux_id,
            ),
        decreases i,
    {
        i = i - 1;
        let ghost prefix = pairs@.take(i + 1int);
        proof {
            assert(prefix.last() == pairs@[i as int]);
            assert(prefix.drop_last() =~= pairs@.take(i as int));
        }
        if pairs[i].0 == demux_id {
            return Some(pairs[i].1);
        }
    }
    proof {
        assert(pairs@.take(0) =~= Seq::<(u32, u16)>::empty());
    }
    None
}

/// Whether two pair lists name the same set of (device, height) pairs.
fn pair_sets_equal(a: &Vec<(u32, u16)>, b: &Vec<(u32, u16)>) -> (r: bool)
    ensures
        r == (a@.to_set() == b@.to_set()),
{
    let forward = pair_subset(a, b);
    let backward = pair_subset(b, a);
    proof {
        if forward && backward {
            assert(a@.to_set() =~= b@.to_set());
        } else if !forward {
            let j = choose|j: int| 0 <= j < a@.len() && !b@.contains(#[trigger] a@[j]);
            assert(a@.to_set().contains(a@[j]));
            assert(!b@.to_set().contains(a@[j]));
        } else {
            let j = choose|j: int| 0 <= j < b@.len() && !a@.contains(#[trigger] b@[j]);
            assert(b@.to_set().contains(b@[j]));
            assert(!a@.to_set().contains(b@[j]));
        }
    }
    forward && backward
}

fn pair_subset(a: &Vec<(u32, u16)>, b: &Vec<(u32, u16)>) -> (r: bool)
    ensures
        r == (forall|j: int| 0 <= j < a@.len() ==> b@.contains(#[trigger] a@[j])),
{
    let n = a.len();
    let mut i: usize = 0;
    while i < n
        invariant
            n == a@.len(),
            i <= n,
            forall|j: int| 0 <= j < i ==> b@.contains(#[trigger] a@[j]),
        decreases n - i,
    {
        if !pair_list_contains(b, a[i]) {
            return false;
        }
        i = i + 1;
    }
    true
}

fn pair_list_contains(list: &Vec<(u32, u16)>, p: (u32, u16)) -> (r: bool)
    ensures
        r == list@.contains(p),
{
    let n = list.len();
    let mut i: usize = 0;
    while i < n
        invariant
            n == list@.len(),
            i <= n,
            forall|j: int| 0 <= j < i ==> #[trigger] list@[j] != p,
        decreases n - i,
    {
        if list[i].0 == p.0 && list[i].1 == p.1 {
            proof {
                assert(list@[i as int] == p);
            }
            return true;
        }
        i = i + 1;
    }
    false
}

/// The state right after `connect` accepts, before its inline tick.
pub open spec fn spec_connect_mid(pre: Client, now: u64) -> Client {
    Client {
        connection_state: ConnectionState::Connecting,
        next_heartbeat_time: Some(now),
        next_audio_levels_time: Some(now),
        next_membership_proof_request_time: if pre.kind == GroupCallKind::SignalGroup {
            Some(spec_sat_add64(now, 86_400_000))
        } else {
            pre.next_membership_proof_request_time
        },
        ..pre
    }
}

/// The engine: one device's group-call state machine. Every public
/// operation takes the current time and the event's data, mutates the state,
/// and returns the actions the host must perform. The host performs them in
/// order.
pub struct Client {
    pub client_id: ClientId,
    pub group_id: GroupId,
    pub kind: GroupCallKind,
    pub connection_state: ConnectionState,
    pub join_state: JoinState,
    pub dhe_state: DheState,
    pub remote_devices: RemoteDevices,
    pub has_ever_been_participating_client: bool,
    pub remote_devices_request_state: RemoteDevicesRequestState,
    pub last_peek_info: Option<PeekInfo>,
    pub known_members: Vec<UserId>,
    pub joined_members: Vec<UserId>,
    pub pending_users_signature: u64,
    pub outgoing_heartbeat_state: HeartbeatState,
    pub local_ice_ufrag: String,
    pub local_ice_pwd: String,
    pub sfu_info: Option<SfuInfo>,
    pub rtp_data_to_sfu_next_seqnum: u32,
    pub rtp_data_through_sfu_next_seqnum: u32,
    pub next_heartbeat_time: Option<u64>,
    pub next_stats_time: Option<u64>,
    pub audio_levels_interval: Option<u64>,
    pub next_audio_levels_time: Option<u64>,
    pub next_membership_proof_request_time: Option<u64>,
    pub pending_media_receive_keys: Vec<PendingReceiveKey>,
    pub media_send_key_rotation_state: KeyRotationState,
    pub video_requests: Option<Vec<VideoRequest>>,
    pub active_speaker_height: Option<u16>,
    pub on_demand_video_request_sent_since_last_heartbeat: bool,
    pub speaker_rtp_timestamp: Option<u32>,
    pub send_rates: SendRates,
    pub send_rates_override: Option<SendRates>,
    pub max_receive_rate: Option<DataRate>,
    pub data_mode: DataMode,
    pub forwarding_videos: Vec<(DemuxId, u16)>,
    pub outgoing_ring_state: OutgoingRingState,
}

impl Client {
    /// Create the engine for one call and decide its first actions: a
    /// call-link call peeks at once, a managed-group call waits for a
    /// membership proof.
    pub fn start(
        group_id: GroupId,
        client_id: ClientId,
        kind: GroupCallKind,
        ring_id: Option<RingId>,
        audio_levels_interval: Option<u64>,
        now: u64,
    ) -> (r: (Client, Vec<Action>))
        ensures
            ({
                let (client, actions) = r;
                &&& client.client_id == client_id
                &&& client.group_id == group_id
                &&& client.kind == kind
                &&& client.connection_state == ConnectionState::NotConnected
                &&& client.join_state == JoinState::NotJoined(ring_id)
                &&& client.dhe_state is NotYetStarted
                &&& client.remote_devices@ == Seq::<RemoteDeviceState>::empty()
                &&& !client.has_ever_been_participating_client
                &&& client.last_peek_info is None
                &&& client.known_members@ == Seq::<UserId>::empty()
                &&& client.joined_members@ == Seq::<UserId>::empty()
                &&& client.pending_users_signature == 0
                &&& client.outgoing_heartbeat_state.all_unset()
                &&& client.local_ice_ufrag@.len() == 4
                &&& client.local_ice_pwd@.len() == 22
                &&& client.sfu_info is None
                &&& client.rtp_data_to_sfu_next_seqnum == 1
                &&& client.rtp_data_through_sfu_next_seqnum == 1
                &&& client.next_heartbeat_time is None
                &&& client.next_stats_time is None
                &&& client.audio_levels_interval == audio_levels_interval
                &&& client.next_audio_levels_time is None
                &&& client.next_membership_proof_request_time is None
                &&& client.pending_media_receive_keys@ == Seq::<PendingReceiveKey>::empty()
                &&& client.media_send_key_rotation_state == KeyRotationState::Applied
                &&& client.video_requests is None
                &&& client.active_speaker_height is None
                &&& !client.on_demand_video_request_sent_since_last_heartbeat
                &&& client.speaker_rtp_timestamp is None
                &&& client.send_rates == (SendRates { min: None, start: None, max: None })
                &&& client.send_rates_override is None
                &&& client.max_receive_rate == Some(DataRate { kbps: 20000 })
                &&& client.data_mode == DataMode::Normal
                &&& client.forwarding_videos@ == Seq::<(DemuxId, u16)>::empty()
                &&& client.outgoing_ring_state == OutgoingRingState::Unknown
                &&& (kind == GroupCallKind::SignalGroup ==> {
                    &&& client.remote_devices_request_state
                        == RemoteDevicesRequestState::WaitingForMembershipProof
                    &&& actions@ == Seq::<Action>::empty()
                })
                &&& (kind == GroupCallKind::CallLink ==> {
                    &&& client.remote_devices_request_state
                        == (RemoteDevicesRequestState::Requested { should_request_again: false, at: now })
                    &&& actions@ == seq![Action::SfuPeek]
                })
            }),
    {
        let local_ice_ufrag = random_alphanumeric(4);
        let local_ice_pwd = random_alphanumeric(22);
        let mut client = Client {
            client_id,
            group_id,
            kind,
            connection_state: ConnectionState::NotConnected,
            join_state: JoinState::NotJoined(ring_id),
            dhe_state: DheState::NotYetStarted,
            remote_devices: Default::default(),
            has_ever_been_participating_client: false,
            remote_devices_request_state: match kind {
                GroupCallKind::SignalGroup => RemoteDevicesRequestState::WaitingForMembershipProof,
                GroupCallKind::CallLink => RemoteDevicesRequestState::NeverRequested,
            },
            last_peek_info: None,
            known_members: Vec::new(),
            joined_members: Vec::new(),
            pending_users_signature: 0,
            outgoing_heartbeat_state: Default::default(),
            local_ice_ufrag,
            local_ice_pwd,
            sfu_info: None,
            rtp_data_to_sfu_next_seqnum: 1,
            rtp_data_through_sfu_next_seqnum: 1,
            next_heartbeat_time: None,
            next_stats_time: None,
            audio_levels_interval,
            next_audio_levels_time: None,
            next_membership_proof_request_time: None,
            pending_media_receive_keys: Vec::new(),
            media_send_key_rotation_state: KeyRotationState::Applied,
            video_requests: None,
            active_speaker_height: None,
            on_demand_video_request_sent_since_last_heartbeat: false,
            speaker_rtp_timestamp: None,
            send_rates: Default::default(),
            send_rates_override: None,
            max_receive_rate: Some(DataRate::from_kbps(20000)),
            data_mode: DataMode::Normal,
            forwarding_videos: Vec::new(),
            outgoing_ring_state: OutgoingRingState::Unknown,
        };
        let mut actions: Vec<Action> = Vec::new();
        client.request_remote_devices_as_soon_as_possible(now, &mut actions);
        (client, actions)
    }

    /// One peek request at a time: issue a new one only when the request
    /// state says so; an as-soon-as-possible request while one is in flight
    /// only marks that another should follow.
    fn maybe_request_remote_devices(
        &mut self,
        now: u64,
        max_age: u64,
        rerequest_if_pending: bool,
        actions: &mut Vec<Action>,
    )
        ensures
            *final(self) == (Client {
                remote_devices_request_state: crate::polling::spec_request_state_after(
                    old(self).remote_devices_request_state,
                    now,
                    max_age,
                    rerequest_if_pending,
                ),
                ..*old(self)
            }),
            final(actions)@ == (if crate::polling::spec_should_request_now(
                old(self).remote_devices_request_state,
                now,
                max_age,
            ) {
                old(actions)@.push(Action::SfuPeek)
            } else {
                old(actions)@
            }),
    {
        let should_request = crate::polling::should_request_now(
            &self.remote_devices_request_state,
            now,
            max_age,
        );
        if should_request {
            actions.push(Action::SfuPeek);
            self.remote_devices_request_state = RemoteDevicesRequestState::Requested {
                should_request_again: false,
                at: now,
            };
        } else if rerequest_if_pending {
            if let RemoteDevicesRequestState::Requested { at, .. } =
                self.remote_devices_request_state {
                self.remote_devices_request_state = RemoteDevicesRequestState::Requested {
                    at,
                    should_request_again: true,
                };
            }
        }
    }

    /// Send a control message to the SFU, bumping the monotonic counter that
    /// feeds the RTP sequence number and timestamp. Outside a joined call
    /// nothing is sent.
    fn send_data_to_sfu(&mut self, message: DeviceToSfu, actions: &mut Vec<Action>)
        ensures
            old(self).join_state is Joined ==> {
                &&& *final(self) == (Client {
                    rtp_data_to_sfu_next_seqnum: spec_wrap_inc32(
                        old(self).rtp_data_to_sfu_next_seqnum,
                    ),
                    ..*old(self)
                })
                &&& final(actions)@ == old(actions)@.push(
                    Action::SendDataToSfu {
                        header: spec_to_sfu_header(old(self).rtp_data_to_sfu_next_seqnum),
                        message,
                    },
                )
            },
            !(old(self).join_state is Joined) ==> *final(self) == *old(self) && final(actions)@
                == old(actions)@,
    {
        if let JoinState::Joined(_) = self.join_state {
            let seqnum = self.rtp_data_to_sfu_next_seqnum;
            self.rtp_data_to_sfu_next_seqnum = seqnum.wrapping_add(1);
            let header = RtpHeader {
                pt: crate::protocol::RTP_DATA_PAYLOAD_TYPE,
                ssrc: crate::protocol::RTP_DATA_TO_SFU_SSRC,
                seqnum: seqnum as u16,
                timestamp: seqnum,
            };
            actions.push(Action::SendDataToSfu { header, message });
        }
    }

    /// Broadcast a device-to-device message through the SFU; the host
    /// encrypts it with the frame crypto before framing it as RTP. Outside a
    /// joined call nothing is sent.
    fn broadcast_data_through_sfu(&mut self, message: DeviceToDevice, actions: &mut Vec<Action>)
        ensures
            old(self).join_state matches JoinState::Joined(local_demux_id) ==> {
                &&& *final(self) == (Client {
                    rtp_data_through_sfu_next_seqnum: spec_wrap_inc32(
                        old(self).rtp_data_through_sfu_next_seqnum,
                    ),
                    ..*old(self)
                })
                &&& final(actions)@ == old(actions)@.push(
                    Action::BroadcastDataThroughSfu {
                        header: spec_broadcast_header(
                            local_demux_id,
                            old(self).rtp_data_through_sfu_next_seqnum,
                        ),
                        message,
                    },
                )
            },
            !(old(self).join_state is Joined) ==> *final(self) == *old(self) && final(actions)@
                == old(actions)@,
    {
        if let JoinState::Joined(local_demux_id) = self.join_state {
            let seqnum = self.rtp_data_through_sfu_next_seqnum;
            self.rtp_data_through_sfu_next_seqnum = seqnum.wrapping_add(1);
            let header = RtpHeader {
                pt: crate::protocol::RTP_DATA_PAYLOAD_TYPE,
                ssrc: local_demux_id.saturating_add(
                    crate::protocol::RTP_DATA_THROUGH_SFU_SSRC_OFFSET,
                ),
                seqnum: seqnum as u16,
                timestamp: seqnum,
            };
            actions.push(Action::BroadcastDataThroughSfu { header, message });
        }
    }

    /// Broadcast the current heartbeat state through the SFU.
    fn send_heartbeat(&mut self, actions: &mut Vec<Action>)
        ensures
            old(self).join_state matches JoinState::Joined(local_demux_id) ==> {
                &&& *final(self) == (Client {
                    rtp_data_through_sfu_next_seqnum: spec_wrap_inc32(
                        old(self).rtp_data_through_sfu_next_seqnum,
                    ),
                    ..*old(self)
                })
                &&& final(actions)@ == old(actions)@.push(
                    Action::BroadcastDataThroughSfu {
                        header: spec_broadcast_header(
                            local_demux_id,
                            old(self).rtp_data_through_sfu_next_seqnum,
                        ),
                        message: spec_heartbeat_message(old(self).outgoing_heartbeat_state),
                    },
                )
            },
            !(old(self).join_state is Joined) ==> *final(self) == *old(self) && final(actions)@
                == old(actions)@,
    {
        let message = DeviceToDevice {
            group_id: None,
            media_key: None,
            heartbeat: Some(self.outgoing_heartbeat_state),
            leaving: None,
        };
        self.broadcast_data_through_sfu(message, actions);
    }

    /// Record a new outgoing heartbeat field and broadcast the update.
    /// The media track itself is the app's to mute.
    pub fn set_outgoing_audio_muted(&mut self, muted: bool) -> (actions: Vec<Action>)
        ensures
            final(self).outgoing_heartbeat_state == (HeartbeatState {
                audio_muted: Some(muted),
                ..old(self).outgoing_heartbeat_state
            }),
            *final(self) == (Client {
                outgoing_heartbeat_state: final(self).outgoing_heartbeat_state,
                rtp_data_through_sfu_next_seqnum: spec_seq_through_after(*old(self)),
                ..*old(self)
            }),
            actions@ == spec_heartbeat_actions(*old(self), final(self).outgoing_heartbeat_state),
    {
        let mut actions: Vec<Action> = Vec::new();
        self.outgoing_heartbeat_state.audio_muted = Some(muted);
        self.send_heartbeat(&mut actions);
        actions
    }

    pub fn set_outgoing_video_muted(&mut self, muted: bool) -> (actions: Vec<Action>)
        ensures
            final(self).outgoing_heartbeat_state == (HeartbeatState {
                video_muted: Some(muted),
                ..old(self).outgoing_heartbeat_state
            }),
            *final(self) == (Client {
                outgoing_heartbeat_state: final(self).outgoing_heartbeat_state,
                rtp_data_through_sfu_next_seqnum: spec_seq_through_after(*old(self)),
                ..*old(self)
            }),
            actions@ == spec_heartbeat_actions(*old(self), final(self).outgoing_heartbeat_state),
    {
        let mut actions: Vec<Action> = Vec::new();
        self.outgoing_heartbeat_state.video_muted = Some(muted);
        self.send_heartbeat(&mut actions);
        actions
    }

    pub fn set_presenting(&mut self, presenting: bool) -> (actions: Vec<Action>)
        ensures
            final(self).outgoing_heartbeat_state == (HeartbeatState {
                presenting: Some(presenting),
                ..old(self).outgoing_heartbeat_state
            }),
            *final(self) == (Client {
                outgoing_heartbeat_state: final(self).outgoing_heartbeat_state,
                rtp_data_through_sfu_next_seqnum: spec_seq_through_after(*old(self)),
                ..*old(self)
            }),
            actions@ == spec_heartbeat_actions(*old(self), final(self).outgoing_heartbeat_state),
    {
        let mut actions: Vec<Action> = Vec::new();
        self.outgoing_heartbeat_state.presenting = Some(presenting);
        self.send_heartbeat(&mut actions);
        actions
    }

    /// Besides the heartbeat update, sharing the screen switches the send
    /// rates to the screenshare tier.
    pub fn set_sharing_screen(&mut self, sharing_screen: bool) -> (actions: Vec<Action>)
        ensures
            final(self).outgoing_heartbeat_state == (HeartbeatState {
                sharing_screen: Some(sharing_screen),
                ..old(self).outgoing_heartbeat_state
            }),
            *final(self) == (Client {
                outgoing_heartbeat_state: final(self).outgoing_heartbeat_state,
                rtp_data_through_sfu_next_seqnum: spec_seq_through_after(*old(self)),
                send_rates: spec_effective_rates(
                    *old(self),
                    crate::rates::spec_compute_send_rates(
                        old(self).joined_members@.len() as int,
                        sharing_screen,
                    ),
                ),
                ..*old(self)
            }),
            actions@ == spec_heartbeat_actions(*old(self), final(self).outgoing_heartbeat_state)
                + spec_rate_actions(
                *old(self),
                crate::rates::spec_compute_send_rates(
                    old(self).joined_members@.len() as int,
                    sharing_screen,
                ),
            ),
    {
        let mut actions: Vec<Action> = Vec::new();
        self.outgoing_heartbeat_state.sharing_screen = Some(sharing_screen);
        self.send_heartbeat(&mut actions);
        let send_rates = crate::rates::compute_send_rates(
            self.joined_members.len(),
            sharing_screen,
        );
        self.set_send_rates_inner(send_rates, &mut actions);
        actions
    }

    /// If a rings-of-testing override is set it wins; apply and report the
    /// rates only when they change. Rates of 1 kbps silence recording,
    /// playout and outgoing media; anything more enables all three.
    fn set_send_rates_inner(&mut self, send_rates: SendRates, actions: &mut Vec<Action>)
        ensures
            *final(self) == (Client {
                send_rates: spec_effective_rates(*old(self), send_rates),
                ..*old(self)
            }),
            final(actions)@ == old(actions)@ + spec_rate_actions(*old(self), send_rates),
    {
        let effective = match &self.send_rates_override {
            Some(o) => *o,
            None => send_rates,
        };
        if !(self.send_rates == effective) {
            let enabled = !(match effective.max {
                Some(m) => m.as_kbps() == 1,
                None => false,
            });
            actions.push(Action::SetAudioRecordingEnabled { enabled });
            actions.push(Action::SetAudioPlayoutEnabled { enabled });
            actions.push(Action::SetOutgoingMediaEnabled { enabled });
            actions.push(Action::SetSendRates { send_rates: effective });
            actions.push(Action::HandleSendRatesChanged { send_rates: effective });
            self.send_rates = effective;
            proof {
                assert(final(actions)@ =~= old(actions)@ + spec_rate_actions(
                    *old(self),
                    send_rates,
                ));
            }
        }
    }

    /// Send the stored video requests to the SFU, when there are any and the
    /// call is joined.
    fn send_video_requests_to_sfu(&mut self, actions: &mut Vec<Action>)
        ensures
            old(self).video_requests is Some && old(self).join_state is Joined ==> {
                &&& *final(self) == (Client {
                    rtp_data_to_sfu_next_seqnum: spec_wrap_inc32(
                        old(self).rtp_data_to_sfu_next_seqnum,
                    ),
                    ..*old(self)
                })
                &&& final(actions)@.len() == old(actions)@.len() + 1
                &&& final(actions)@.take(old(actions)@.len() as int) == old(actions)@
                &&& (match old(self).video_requests {
                    Some(reqs) => is_video_request_action(
                        final(actions)@.last(),
                        old(self).rtp_data_to_sfu_next_seqnum,
                        reqs@,
                        old(self).remote_devices@,
                        old(self).max_receive_rate,
                        old(self).active_speaker_height,
                    ),
                    None => false,
                })
            },
            !(old(self).video_requests is Some && old(self).join_state is Joined) ==> *final(self)
                == *old(self) && final(actions)@ == old(actions)@,
    {
        if self.video_requests.is_none() {
            return ;
        }
        let reqs_len = match &self.video_requests {
            Some(reqs) => reqs.len(),
            None => 0,
        };
        let mut protos: Vec<VideoRequestProto> = Vec::new();
        let mut i: usize = 0;
        while i < reqs_len
            invariant
                i <= reqs_len,
                self.video_requests is Some,
                self == old(self),
                match self.video_requests {
                    Some(reqs) => {
                        &&& reqs_len == reqs@.len()
                        &&& protos@ == spec_video_request_protos(
                            reqs@.take(i as int),
                            self.remote_devices@,
                        )
                    },
                    None => false,
                },
            decreases reqs_len - i,
        {
            let (demux_id, width, height) = match &self.video_requests {
                Some(reqs) => (reqs[i].demux_id, reqs[i].width, reqs[i].height),
                None => (0, 0, 0),
            };
            let ghost reqs_view = self.video_requests->Some_0@;
            proof {
                assert(reqs_view.take(i + 1int).drop_last() =~= reqs_view.take(i as int));
                assert(reqs_view.take(i + 1int).last() == reqs_view[i as int]);
            }
            if self.remote_devices.find_by_demux_id(demux_id).is_some() {
                let clamped = if height < width {
                    height
                } else {
                    width
                };
                protos.push(VideoRequestProto { demux_id, height: clamped as u32 });
            } else {
                proof {
                    assert(!seq_contains_demux(self.remote_devices@, demux_id));
                }
            }
            i = i + 1;
        }
        proof {
            let reqs_view = self.video_requests->Some_0@;
            assert(reqs_view.take(reqs_len as int) =~= reqs_view);
        }
        let max_kbps = match &self.max_receive_rate {
            Some(rate) => Some(rate.as_kbps() as u32),
            None => None,
        };
        let active_speaker_height = match self.active_speaker_height {
            Some(h) => Some(h as u32),
            None => None,
        };
        let message = DeviceToSfu {
            video_request: Some(
                VideoRequestMessage { requests: protos, max_kbps, active_speaker_height },
            ),
            leave: false,
            admin_action: None,
        };
        self.send_data_to_sfu(message, actions);
    }

    /// Store the app's video requests and send them now unless an on-demand
    /// request already went out since the last heartbeat (at most one
    /// on-demand send per heartbeat interval).
    pub fn request_video(&mut self, requests: Vec<VideoRequest>, active_speaker_height: u16) -> (actions: Vec<Action>)
        ensures
            *final(self) == (Client {
                video_requests: Some(requests),
                active_speaker_height: Some(active_speaker_height),
                on_demand_video_request_sent_since_last_heartbeat: true,
                rtp_data_to_sfu_next_seqnum: final(self).rtp_data_to_sfu_next_seqnum,
                ..*old(self)
            }),
            old(self).on_demand_video_request_sent_since_last_heartbeat ==> {
                &&& actions@ == Seq::<Action>::empty()
                &&& final(self).rtp_data_to_sfu_next_seqnum == old(self).rtp_data_to_sfu_next_seqnum
            },
            (!old(self).on_demand_video_request_sent_since_last_heartbeat && !(old(
                self,
            ).join_state is Joined)) ==> {
                &&& actions@ == Seq::<Action>::empty()
                &&& final(self).rtp_data_to_sfu_next_seqnum == old(self).rtp_data_to_sfu_next_seqnum
            },
            (!old(self).on_demand_video_request_sent_since_last_heartbeat && old(
                self,
            ).join_state is Joined) ==> {
                &&& actions@.len() == 1
                &&& is_video_request_action(
                    actions@.last(),
                    old(self).rtp_data_to_sfu_next_seqnum,
                    requests@,
                    old(self).remote_devices@,
                    old(self).max_receive_rate,
                    Some(active_speaker_height),
                )
                &&& final(self).rtp_data_to_sfu_next_seqnum == spec_wrap_inc32(
                    old(self).rtp_data_to_sfu_next_seqnum,
                )
            },
    {
        let mut actions: Vec<Action> = Vec::new();
        self.video_requests = Some(requests);
        self.active_speaker_height = Some(active_speaker_height);
        if !self.on_demand_video_request_sent_since_last_heartbeat {
            self.send_video_requests_to_sfu(&mut actions);
        }
        self.on_demand_video_request_sent_since_last_heartbeat = true;
        actions
    }

    /// Switch between reduced and normal data use: adjust the receive cap,
    /// reconfigure the audio encoders of a joined call, and refresh the
    /// SFU's video requests (subject to the on-demand rate limit).
    pub fn set_data_mode(&mut self, data_mode: DataMode) -> (actions: Vec<Action>)
        ensures
            *final(self) == (Client {
                max_receive_rate: Some(crate::rates::spec_max_receive_rate(data_mode)),
                data_mode,
                on_demand_video_request_sent_since_last_heartbeat: true,
                rtp_data_to_sfu_next_seqnum: final(self).rtp_data_to_sfu_next_seqnum,
                ..*old(self)
            }),
            ({
                let pre = *old(self);
                let post = *final(self);
                let configure: Seq<Action> = if pre.join_state is Joined {
                    seq![Action::ConfigureAudioEncoders { data_mode }]
                } else {
                    Seq::empty()
                };
                let send_video = !pre.on_demand_video_request_sent_since_last_heartbeat
                    && pre.video_requests is Some && pre.join_state is Joined;
                &&& (send_video ==> {
                    &&& actions@.len() == configure.len() + 1
                    &&& actions@.take(configure.len() as int) == configure
                    &&& (match pre.video_requests {
                        Some(reqs) => is_video_request_action(
                            actions@.last(),
                            pre.rtp_data_to_sfu_next_seqnum,
                            reqs@,
                            pre.remote_devices@,
                            Some(crate::rates::spec_max_receive_rate(data_mode)),
                            pre.active_speaker_height,
                        ),
                        None => false,
                    })
                    &&& post.rtp_data_to_sfu_next_seqnum == spec_wrap_inc32(
                        pre.rtp_data_to_sfu_next_seqnum,
                    )
                })
                &&& (!send_video ==> actions@ == configure && post.rtp_data_to_sfu_next_seqnum
                    == pre.rtp_data_to_sfu_next_seqnum)
            }),
    {
        let mut actions: Vec<Action> = Vec::new();
        self.max_receive_rate = Some(crate::rates::max_receive_rate(data_mode));
        self.data_mode = data_mode;
        if let JoinState::Joined(_) = self.join_state {
            actions.push(Action::ConfigureAudioEncoders { data_mode });
        }
        if !self.on_demand_video_request_sent_since_last_heartbeat {
            self.send_video_requests_to_sfu(&mut actions);
        }
        self.on_demand_video_request_sent_since_last_heartbeat = true;
        proof {
            if !(old(self).join_state is Joined) {
                assert(actions@.take(0) =~= Seq::<Action>::empty());
            }
        }
        actions
    }

    /// Pin the send rates, for testing the surrounding machinery.
    pub fn override_send_rates(&mut self, send_rates_override: SendRates) -> (actions: Vec<Action>)
        ensures
            *final(self) == (Client {
                send_rates_override: Some(send_rates_override),
                send_rates: send_rates_override,
                ..*old(self)
            }),
            actions@ == spec_rate_actions(
                Client { send_rates_override: Some(send_rates_override), ..*old(self) },
                send_rates_override,
            ),
    {
        let mut actions: Vec<Action> = Vec::new();
        self.send_rates_override = Some(send_rates_override);
        self.set_send_rates_inner(send_rates_override, &mut actions);
        actions
    }

    /// If this device sent a ring and nobody else ever joined, cancel the
    /// ring group-wide.
    fn cancel_full_group_ring_if_needed(&mut self, actions: &mut Vec<Action>)
        requires
            old(actions)@.len() == 0,
        ensures
            *final(self) == *old(self),
            old(self).outgoing_ring_state matches OutgoingRingState::HasSentRing { ring_id } ==> {
                &&& final(actions)@.len() == 1
                &&& is_ring_intention_action(
                    final(actions)@[0],
                    old(self).group_id@,
                    ring_id,
                    RingIntentionKind::Cancelled,
                )
            },
            !(old(self).outgoing_ring_state is HasSentRing) ==> final(actions)@ == old(actions)@,
    {
        if let OutgoingRingState::HasSentRing { ring_id } = &self.outgoing_ring_state {
            let message = CallMessage {
                ring_intention: Some(
                    RingIntention {
                        group_id: peek::clone_bytes(&self.group_id),
                        ring_id: *ring_id,
                        kind: RingIntentionKind::Cancelled,
                    },
                ),
                ring_response: None,
                group_call_message: None,
            };
            actions.push(
                Action::SendSignalingMessageToGroup {
                    group_id: peek::clone_bytes(&self.group_id),
                    message,
                    urgency: SignalingMessageUrgency::HandleImmediately,
                },
            );
        }
    }

    /// Tell the SFU we are leaving — twice, for a little redundancy.
    fn send_leave_to_sfu(&mut self, actions: &mut Vec<Action>)
        requires
            old(self).join_state is Joined,
        ensures
            *final(self) == (Client {
                rtp_data_to_sfu_next_seqnum: spec_wrap_inc32(
                    spec_wrap_inc32(old(self).rtp_data_to_sfu_next_seqnum),
                ),
                ..*old(self)
            }),
            final(actions)@ == old(actions)@.push(
                Action::SendDataToSfu {
                    header: spec_to_sfu_header(old(self).rtp_data_to_sfu_next_seqnum),
                    message: spec_leave_message(),
                },
            ).push(
                Action::SendDataToSfu {
                    header: spec_to_sfu_header(spec_wrap_inc32(old(self).rtp_data_to_sfu_next_seqnum)),
                    message: spec_leave_message(),
                },
            ),
    {
        let message = DeviceToSfu { video_request: None, leave: true, admin_action: None };
        let message2 = DeviceToSfu { video_request: None, leave: true, admin_action: None };
        self.send_data_to_sfu(message, actions);
        self.send_data_to_sfu(message2, actions);
    }

    /// Announce the departure: anonymously through the SFU, and by name to
    /// every joined member over signaling.
    fn send_leaving_through_sfu_and_over_signaling(
        &mut self,
        local_demux_id: DemuxId,
        actions: &mut Vec<Action>,
    )
        requires
            old(self).join_state == JoinState::Joined(local_demux_id),
        ensures
            *final(self) == (Client {
                rtp_data_through_sfu_next_seqnum: spec_wrap_inc32(
                    old(self).rtp_data_through_sfu_next_seqnum,
                ),
                ..*old(self)
            }),
            final(actions)@.len() == old(actions)@.len() + 1 + old(self).joined_members@.len(),
            final(actions)@.take(old(actions)@.len() as int) == old(actions)@,
            forall|j: int|
                0 <= j < old(actions)@.len() ==> #[trigger] final(actions)@[j] == old(actions)@[j],
            final(actions)@[old(actions)@.len() as int] == (Action::BroadcastDataThroughSfu {
                header: spec_broadcast_header(
                    local_demux_id,
                    old(self).rtp_data_through_sfu_next_seqnum,
                ),
                message: spec_leaving_broadcast_message(),
            }),
            forall|k: int|
                0 <= k < old(self).joined_members@.len() ==> is_leaving_signal_action(
                    #[trigger] final(actions)@[old(actions)@.len() + 1 + k],
                    old(self).joined_members@[k]@,
                    old(self).group_id@,
                    local_demux_id,
                ),
            ({
                let appended = final(actions)@;
                forall|j: int|
                    old(actions)@.len() <= j < appended.len() ==> (#[trigger] appended[j])
                        is SendSignalingMessage || appended[j] is BroadcastDataThroughSfu
            }),
    {
        let broadcast = DeviceToDevice {
            group_id: None,
            media_key: None,
            heartbeat: None,
            leaving: Some(crate::protocol::LeavingMessage { demux_id: None }),
        };
        self.broadcast_data_through_sfu(broadcast, actions);
        let n = self.joined_members.len();
        let ghost base = actions@.len() as int;
        let ghost snap = *self;
        let ghost start_actions = actions@;
        let mut k: usize = 0;
        while k < n
            invariant
                n == self.joined_members@.len(),
                k <= n,
                *self == snap,
                base == start_actions.len(),
                actions@.len() == base + k,
                actions@.take(base) == start_actions,
                forall|j: int|
                    0 <= j < k ==> is_leaving_signal_action(
                        #[trigger] actions@[base + j],
                        self.joined_members@[j]@,
                        self.group_id@,
                        local_demux_id,
                    ),
                forall|j: int|
                    old(actions)@.len() <= j < actions@.len() ==> (#[trigger] actions@[j])
                        is SendSignalingMessage || actions@[j] is BroadcastDataThroughSfu,
            decreases n - k,
        {
            let message = CallMessage {
                ring_intention: None,
                ring_response: None,
                group_call_message: Some(
                    DeviceToDevice {
                        group_id: Some(peek::clone_bytes(&self.group_id)),
                        media_key: None,
                        heartbeat: None,
                        leaving: Some(
                            crate::protocol::LeavingMessage { demux_id: Some(local_demux_id) },
                        ),
                    },
                ),
            };
            let recipient = peek::clone_bytes(&self.joined_members[k]);
            actions.push(
                Action::SendSignalingMessage {
                    recipient,
                    message,
                    urgency: SignalingMessageUrgency::Droppable,
                },
            );
            proof {
                assert(actions@.take(base) =~= start_actions);
            }
            k = k + 1;
        }
        proof {
            let old_len = old(actions)@.len() as int;
            assert(actions@.take(old_len) =~= old(actions)@);
            assert(actions@[old_len] == start_actions[old_len]) by {
                assert(actions@.take(base)[old_len] == start_actions[old_len]);
            }
        }
    }

    /// Leave the call (from joining or joined), as `leave_actions_ok` and
    /// `spec_state_after_leave` describe.
    fn leave_inner(&mut self, actions: &mut Vec<Action>)
        requires
            old(actions)@.len() == 0,
        ensures
            *final(self) == spec_state_after_leave(*old(self)),
            leave_actions_ok(*old(self), final(actions)@),
    {
        self.cancel_full_group_ring_if_needed(actions);
        match self.join_state {
            JoinState::NotJoined(_) => {},
            JoinState::Joining | JoinState::Joined(_) => {
                actions.push(Action::SetOutgoingMediaEnabled { enabled: false });
                actions.push(Action::SetIncomingMediaEnabled { enabled: false });
                actions.push(Action::SetBusy { busy: false });
                if let JoinState::Joined(local_demux_id) = self.join_state {
                    self.send_leaving_through_sfu_and_over_signaling(local_demux_id, actions);
                    self.send_leave_to_sfu(actions);
                }
                self.join_state = JoinState::NotJoined(None);
                actions.push(
                    Action::HandleJoinStateChanged { join_state: JoinState::NotJoined(None) },
                );
                self.next_heartbeat_time = None;
                self.next_stats_time = None;
                self.next_audio_levels_time = None;
                self.next_membership_proof_request_time = None;
                self.has_ever_been_participating_client = false;
            },
        }
    }

    /// Leave the call. Leaving a call that was never joined only cancels an
    /// auto-cancelable ring.
    pub fn leave(&mut self) -> (actions: Vec<Action>)
        ensures
            *final(self) == spec_state_after_leave(*old(self)),
            leave_actions_ok(*old(self), actions@),
    {
        let mut actions: Vec<Action> = Vec::new();
        self.leave_inner(&mut actions);
        actions
    }

    /// End the call for the given reason: leave if joining or joined, close
    /// the transport, and report `HandleEnded` exactly once as the last
    /// callback. Ending twice reports nothing the second time.
    fn end(&mut self, reason: EndReason, actions: &mut Vec<Action>)
        requires
            old(actions)@.len() == 0,
        ensures
            end_transition(*old(self), *final(self), final(actions)@, reason),
    {
        let joining_or_joined = match self.join_state {
            JoinState::Joined(_) | JoinState::Joining => true,
            JoinState::NotJoined(_) => false,
        };
        let ghost pre = *old(self);
        if joining_or_joined {
            self.leave_inner(actions);
        }
        let ghost leave_len = actions@.len() as int;
        let ghost leave_snapshot = actions@;
        match self.connection_state {
            ConnectionState::NotConnected => {},
            ConnectionState::Connecting | ConnectionState::Connected
                | ConnectionState::Reconnecting => {
                actions.push(Action::ClosePeerConnection);
                self.connection_state = ConnectionState::NotConnected;
                actions.push(
                    Action::HandleConnectionStateChanged {
                        connection_state: ConnectionState::NotConnected,
                    },
                );
                actions.push(Action::HandleEnded { reason });
            },
        }
        proof {
            if joining_or_joined {
                assert(actions@.take(leave_len) =~= leave_snapshot);
            }
        }
    }

    /// Disconnect the device from the call. Idempotent: the first call ends
    /// the call with `DeviceExplicitlyDisconnected`; later calls do nothing.
    pub fn disconnect(&mut self) -> (actions: Vec<Action>)
        ensures
            end_transition(
                *old(self),
                *final(self),
                actions@,
                EndReason::DeviceExplicitlyDisconnected,
            ),
    {
        let mut actions: Vec<Action> = Vec::new();
        self.end(EndReason::DeviceExplicitlyDisconnected, &mut actions);
        actions
    }

    /// Ask to ring the group. Before joining the wish is saved; once
    /// permitted, the ring intention goes out group-wide, and stays
    /// auto-cancelable only while nobody else is in the call. Ringing a
    /// single recipient is not supported and is rejected.
    pub fn ring(&mut self, recipient: Option<UserId>) -> (actions: Vec<Action>)
        ensures
            *final(self) == (Client {
                outgoing_ring_state: final(self).outgoing_ring_state,
                ..*old(self)
            }),
            ({
                let pre = *old(self);
                let post = *final(self);
                match pre.outgoing_ring_state {
                    OutgoingRingState::PermittedToRing { ring_id } => {
                        if recipient is Some {
                            &&& post.outgoing_ring_state == pre.outgoing_ring_state
                            &&& actions@ == Seq::<Action>::empty()
                        } else {
                            &&& actions@.len() == 1
                            &&& is_ring_intention_action(
                                actions@[0],
                                pre.group_id@,
                                ring_id,
                                RingIntentionKind::Ring,
                            )
                            &&& (pre.remote_devices@.len() == 0 ==> post.outgoing_ring_state
                                == (OutgoingRingState::HasSentRing { ring_id }))
                            &&& (pre.remote_devices@.len() != 0 ==> post.outgoing_ring_state
                                == OutgoingRingState::NotPermittedToRing)
                        }
                    },
                    OutgoingRingState::Unknown => {
                        &&& post.outgoing_ring_state == (OutgoingRingState::WantsToRing {
                            recipient,
                        })
                        &&& actions@ == Seq::<Action>::empty()
                    },
                    _ => {
                        &&& post.outgoing_ring_state == pre.outgoing_ring_state
                        &&& actions@ == Seq::<Action>::empty()
                    },
                }
            }),
    {
        let mut actions: Vec<Action> = Vec::new();
        self.ring_inner(recipient, &mut actions);
        actions
    }

    fn ring_inner(&mut self, recipient: Option<UserId>, actions: &mut Vec<Action>)
        requires
            old(actions)@.len() == 0,
        ensures
            *final(self) == (Client {
                outgoing_ring_state: final(self).outgoing_ring_state,
                ..*old(self)
            }),
            ({
                let pre = *old(self);
                let post = *final(self);
                match pre.outgoing_ring_state {
                    OutgoingRingState::PermittedToRing { ring_id } => {
                        if recipient is Some {
                            &&& post.outgoing_ring_state == pre.outgoing_ring_state
                            &&& final(actions)@ == Seq::<Action>::empty()
                        } else {
                            &&& final(actions)@.len() == 1
                            &&& is_ring_intention_action(
                                final(actions)@[0],
                                pre.group_id@,
                                ring_id,
                                RingIntentionKind::Ring,
                            )
                            &&& (pre.remote_devices@.len() == 0 ==> post.outgoing_ring_state
                                == (OutgoingRingState::HasSentRing { ring_id }))
                            &&& (pre.remote_devices@.len() != 0 ==> post.outgoing_ring_state
                                == OutgoingRingState::NotPermittedToRing)
                        }
                    },
                    OutgoingRingState::Unknown => {
                        &&& post.outgoing_ring_state == (OutgoingRingState::WantsToRing {
                            recipient,
                        })
                        &&& final(actions)@ == Seq::<Action>::empty()
                    },
                    _ => {
                        &&& post.outgoing_ring_state == pre.outgoing_ring_state
                        &&& final(actions)@ == Seq::<Action>::empty()
                    },
                }
            }),
    {
        match self.outgoing_ring_state {
            OutgoingRingState::PermittedToRing { ring_id } => {
                if recipient.is_some() {
                    // Ringing one person is not supported yet: reject.
                } else {
                    let message = CallMessage {
                        ring_intention: Some(
                            RingIntention {
                                group_id: peek::clone_bytes(&self.group_id),
                                ring_id,
                                kind: RingIntentionKind::Ring,
                            },
                        ),
                        ring_response: None,
                        group_call_message: None,
                    };
                    actions.push(
                        Action::SendSignalingMessageToGroup {
                            group_id: peek::clone_bytes(&self.group_id),
                            message,
                            urgency: SignalingMessageUrgency::HandleImmediately,
                        },
                    );
                    if self.remote_devices.is_empty() {
                        // If we are alone at ring time and leave before anyone
                        // joins, the ring is auto-cancelled.
                        self.outgoing_ring_state = OutgoingRingState::HasSentRing { ring_id };
                    } else {
                        self.outgoing_ring_state = OutgoingRingState::NotPermittedToRing;
                    }
                }
            },
            OutgoingRingState::WantsToRing { .. } => {},
            OutgoingRingState::HasSentRing { .. } => {},
            OutgoingRingState::Unknown => {
                // Need to wait until joining.
                self.outgoing_ring_state = OutgoingRingState::WantsToRing { recipient };
            },
            OutgoingRingState::NotPermittedToRing => {},
        }
    }

    /// Save a ring id for a call not yet joined, preferring an already-saved
    /// one; joining will then answer that ring. Ignored while joining or
    /// joined.
    pub fn provide_ring_id_if_absent(&mut self, ring_id: RingId)
        ensures
            *final(self) == (Client { join_state: final(self).join_state, ..*old(self) }),
            final(self).join_state == (match old(self).join_state {
                JoinState::NotJoined(None) => JoinState::NotJoined(Some(ring_id)),
                other => other,
            }),
    {
        match self.join_state {
            JoinState::NotJoined(None) => {
                self.join_state = JoinState::NotJoined(Some(ring_id));
            },
            _ => {},
        }
    }

    /// One periodic tick, driven by the host every 200 ms.
    pub fn tick(&mut self, now: u64) -> (actions: Vec<Action>)
        ensures
            tick_transition(*old(self), *final(self), actions@, now),
    {
        let mut actions: Vec<Action> = Vec::new();
        self.tick_inner(now, &mut actions);
        actions
    }

    #[verifier::rlimit(60)]
    fn tick_inner(&mut self, now: u64, actions: &mut Vec<Action>)
        requires
            old(actions)@.len() == 0,
        ensures
            tick_transition(*old(self), *final(self), final(actions)@, now),
    {
        self.maybe_request_remote_devices(now, PEEK_MAX_AGE_MILLIS, false, actions);
        let ghost after_peek = actions@;
        let hb_due = match self.next_heartbeat_time {
            Some(t) => now >= t,
            None => false,
        };
        if hb_due {
            self.send_heartbeat(actions);
            let ghost after_hb = actions@;
            proof {
                assert(match old(self).join_state {
                    JoinState::Joined(d) => after_hb == after_peek.push(
                        Action::BroadcastDataThroughSfu {
                            header: spec_broadcast_header(
                                d,
                                old(self).rtp_data_through_sfu_next_seqnum,
                            ),
                            message: spec_heartbeat_message(old(self).outgoing_heartbeat_state),
                        },
                    ),
                    _ => after_hb == after_peek,
                });
            }
            self.send_video_requests_to_sfu(actions);
            proof {
                assert(actions@.take(after_hb.len() as int) =~= after_hb);
                assert forall|j: int| 0 <= j < after_hb.len() implies actions@[j] == #[trigger] after_hb[j] by {
                    assert(actions@.take(after_hb.len() as int)[j] == actions@[j]);
                }
                assert forall|j: int| 0 <= j < after_peek.len() implies actions@[j] == #[trigger] after_peek[j] by {
                    assert(actions@.take(after_hb.len() as int)[j] == actions@[j]);
                    assert(after_hb[j] == after_peek[j]);
                }
                let k = after_peek.len() as int;
                match old(self).join_state {
                    JoinState::Joined(d) => {
                        assert(after_hb[k] == Action::BroadcastDataThroughSfu {
                            header: spec_broadcast_header(
                                d,
                                old(self).rtp_data_through_sfu_next_seqnum,
                            ),
                            message: spec_heartbeat_message(old(self).outgoing_heartbeat_state),
                        });
                        assert(actions@[k] == after_hb[k]);
                    },
                    _ => {},
                }
            }
            self.on_demand_video_request_sent_since_last_heartbeat = false;
            self.next_heartbeat_time = Some(now.saturating_add(HEARTBEAT_INTERVAL_MILLIS));
        }
        let ghost after_tail = actions@;
        let stats_due = match self.next_stats_time {
            Some(t) => now >= t,
            None => false,
        };
        if stats_due {
            actions.push(Action::GetStats);
            self.next_stats_time = Some(now.saturating_add(STATS_INTERVAL_MILLIS));
        }
        let audio_due = match (self.audio_levels_interval, self.next_audio_levels_time) {
            (Some(_), Some(t)) => now >= t,
            _ => false,
        };
        if audio_due {
            actions.push(Action::HandleAudioLevels);
            if let Some(iv) = self.audio_levels_interval {
                self.next_audio_levels_time = Some(now.saturating_add(iv));
            }
        }
        let proof_due = match (self.kind, self.next_membership_proof_request_time) {
            (GroupCallKind::SignalGroup, Some(t)) => now >= t,
            _ => false,
        };
        if proof_due {
            actions.push(Action::RequestMembershipProof);
            self.next_membership_proof_request_time = Some(
                now.saturating_add(MEMBERSHIP_PROOF_REQUEST_INTERVAL_MILLIS),
            );
        }
        proof {
            let pre = *old(self);
            let peek = crate::polling::spec_should_request_now(
                pre.remote_devices_request_state,
                now,
                10000,
            );
            assert(actions@.take(after_tail.len() as int) =~= after_tail);
            assert forall|j: int| 0 <= j < after_tail.len() implies actions@[j] == #[trigger] after_tail[j] by {
                assert(actions@.take(after_tail.len() as int)[j] == actions@[j]);
            }
            assert(peek ==> after_peek.len() == 1 && after_peek[0] == Action::SfuPeek);
            assert(peek ==> after_tail[0] == Action::SfuPeek);
            assert(peek ==> actions@[0] == Action::SfuPeek);
            let n0: int = if peek { 1int } else { 0 };
            let hb = spec_tick_hb_due(pre, now);
            let joined = pre.join_state is Joined;
            if hb && joined {
                assert(actions@[n0] == after_tail[n0]);
            }
            if hb && joined && pre.video_requests is Some {
                assert(actions@[n0 + 1] == after_tail[n0 + 1]);
            }
        }
    }

    /// Connect to the call: start the periodic machinery and, for a managed
    /// group, ask for a membership proof and the member list. Connecting
    /// twice is rejected.
    pub fn connect(&mut self, now: u64) -> (actions: Vec<Action>)
        ensures
            !(old(self).connection_state is NotConnected) ==> *final(self) == *old(self)
                && actions@ == Seq::<Action>::empty(),
            old(self).connection_state is NotConnected ==> ({
                let mid = spec_connect_mid(*old(self), now);
                let k: int = if old(self).kind == GroupCallKind::SignalGroup {
                    3int
                } else {
                    1
                };
                &&& actions@.len() >= k
                &&& actions@[0] == (Action::HandleConnectionStateChanged {
                    connection_state: ConnectionState::Connecting,
                })
                &&& (old(self).kind == GroupCallKind::SignalGroup ==> actions@[1]
                    == Action::RequestMembershipProof && actions@[2] == Action::RequestGroupMembers)
                &&& tick_transition(mid, *final(self), actions@.skip(k), now)
            }),
    {
        let mut actions: Vec<Action> = Vec::new();
        match self.connection_state {
            ConnectionState::Connected | ConnectionState::Reconnecting
                | ConnectionState::Connecting => {},
            ConnectionState::NotConnected => {
                self.connection_state = ConnectionState::Connecting;
                actions.push(
                    Action::HandleConnectionStateChanged {
                        connection_state: ConnectionState::Connecting,
                    },
                );
                self.next_heartbeat_time = Some(now);
                self.next_audio_levels_time = Some(now);
                if self.kind == GroupCallKind::SignalGroup {
                    actions.push(Action::RequestMembershipProof);
                    self.next_membership_proof_request_time = Some(
                        now.saturating_add(MEMBERSHIP_PROOF_REQUEST_INTERVAL_MILLIS),
                    );
                    actions.push(Action::RequestGroupMembers);
                }
                let ghost k: int = if self.kind == GroupCallKind::SignalGroup {
                    3int
                } else {
                    1
                };
                let ghost pre_tick_actions = actions@;
                let mut tick_actions: Vec<Action> = Vec::new();
                self.tick_inner(now, &mut tick_actions);
                let ghost tick_view = tick_actions@;
                actions.append(&mut tick_actions);
                proof {
                    assert(actions@.skip(k) =~= tick_view);
                    assert(actions@.take(k) =~= pre_tick_actions);
                }
            },
        }
        actions
    }

    /// Drive the connection state from ICE: failures before a connection end
    /// the call one way, failures after it another; checking and
    /// disconnection while connected mean reconnecting.
    pub fn handle_ice_connection_state_changed(&mut self, ice_connection_state: IceConnectionState) -> (actions: Vec<Action>)
        ensures
            ({
                let pre = *old(self);
                let post = *final(self);
                match (pre.connection_state, ice_connection_state) {
                    (ConnectionState::Connecting, IceConnectionState::Disconnected)
                        | (ConnectionState::Connecting, IceConnectionState::Closed)
                        | (ConnectionState::Connecting, IceConnectionState::Failed)
                        => end_transition(pre, post, actions@, EndReason::IceFailedWhileConnecting),
                    (ConnectionState::Connecting, IceConnectionState::Checking) => post == pre
                        && actions@ == Seq::<Action>::empty(),
                    (ConnectionState::Connecting, IceConnectionState::Connected)
                        | (ConnectionState::Connecting, IceConnectionState::Completed) => {
                        &&& post == (Client { connection_state: ConnectionState::Connected, ..pre })
                        &&& actions@ == seq![
                            Action::HandleConnectionStateChanged {
                                connection_state: ConnectionState::Connected,
                            },
                        ]
                    },
                    (ConnectionState::Connected, IceConnectionState::Checking)
                        | (ConnectionState::Connected, IceConnectionState::Disconnected) => {
                        &&& post == (Client {
                            connection_state: ConnectionState::Reconnecting,
                            ..pre
                        })
                        &&& actions@ == seq![
                            Action::HandleConnectionStateChanged {
                                connection_state: ConnectionState::Reconnecting,
                            },
                        ]
                    },
                    (ConnectionState::Reconnecting, IceConnectionState::Connected)
                        | (ConnectionState::Reconnecting, IceConnectionState::Completed) => {
                        &&& post == (Client { connection_state: ConnectionState::Connected, ..pre })
                        &&& actions@ == seq![
                            Action::HandleConnectionStateChanged {
                                connection_state: ConnectionState::Connected,
                            },
                        ]
                    },
                    (_, IceConnectionState::Failed) | (_, IceConnectionState::Closed)
                        => end_transition(pre, post, actions@, EndReason::IceFailedAfterConnected),
                    _ => post == pre && actions@ == Seq::<Action>::empty(),
                }
            }),
    {
        let mut actions: Vec<Action> = Vec::new();
        match (self.connection_state, ice_connection_state) {
            (ConnectionState::Connecting, IceConnectionState::Disconnected)
                | (ConnectionState::Connecting, IceConnectionState::Closed)
                | (ConnectionState::Connecting, IceConnectionState::Failed) => {
                self.end(EndReason::IceFailedWhileConnecting, &mut actions);
            },
            (ConnectionState::Connecting, IceConnectionState::Checking) => {},
            (ConnectionState::Connecting, IceConnectionState::Connected)
                | (ConnectionState::Connecting, IceConnectionState::Completed) => {
                self.connection_state = ConnectionState::Connected;
                actions.push(
                    Action::HandleConnectionStateChanged {
                        connection_state: ConnectionState::Connected,
                    },
                );
            },
            (ConnectionState::Connected, IceConnectionState::Checking)
                | (ConnectionState::Connected, IceConnectionState::Disconnected) => {
                self.connection_state = ConnectionState::Reconnecting;
                actions.push(
                    Action::HandleConnectionStateChanged {
                        connection_state: ConnectionState::Reconnecting,
                    },
                );
            },
            (ConnectionState::Reconnecting, IceConnectionState::Connected)
                | (ConnectionState::Reconnecting, IceConnectionState::Completed) => {
                self.connection_state = ConnectionState::Connected;
                actions.push(
                    Action::HandleConnectionStateChanged {
                        connection_state: ConnectionState::Connected,
                    },
                );
            },
            (_, IceConnectionState::Failed) | (_, IceConnectionState::Closed) => {
                self.end(EndReason::IceFailedAfterConnected, &mut actions);
            },
            (_, _) => {},
        }
        actions
    }

    /// Join the call: end at once when the call is full (without taking the
    /// busy flag) or when another call holds the busy flag; otherwise take
    /// the flag, answer a saved ring to one's own devices, start the
    /// Diffie-Hellman exchange, and ask the SFU client to join. `busy` is the
    /// process-wide flag's current value, read by the host under its lock.
    pub fn join(&mut self, now: u64, busy: bool, self_user_id: Option<UserId>) -> (actions: Vec<
        Action,
    >)
        ensures
            ({
                let pre = *old(self);
                let post = *final(self);
                match pre.join_state {
                    JoinState::Joining | JoinState::Joined(_) => post == pre && actions@
                        == Seq::<Action>::empty(),
                    JoinState::NotJoined(ring_id) => {
                        if spec_join_blocked_by_max(pre) {
                            end_transition(pre, post, actions@, EndReason::HasMaxDevices)
                        } else if busy {
                            end_transition(pre, post, actions@, EndReason::CallManagerIsBusy)
                        } else {
                            let accept: int = if ring_id is Some && self_user_id is Some {
                                1int
                            } else {
                                0
                            };
                            let sg: int = if pre.kind == GroupCallKind::SignalGroup {
                                1int
                            } else {
                                0
                            };
                            &&& post == (Client {
                                join_state: JoinState::Joining,
                                dhe_state: post.dhe_state,
                                next_membership_proof_request_time: if pre.kind
                                    == GroupCallKind::SignalGroup {
                                    Some(spec_sat_add64(now, 86_400_000))
                                } else {
                                    pre.next_membership_proof_request_time
                                },
                                ..pre
                            })
                            &&& post.dhe_state is WaitingForServerPublicKey
                            &&& actions@.len() == 2 + accept + sg + 1
                            &&& actions@[0] == (Action::SetBusy { busy: true })
                            &&& actions@[1] == (Action::HandleJoinStateChanged {
                                join_state: JoinState::Joining,
                            })
                            &&& (accept == 1 ==> (match (ring_id, self_user_id) {
                                (Some(rid), Some(u)) => is_ring_accepted_action(
                                    actions@[2],
                                    u@,
                                    pre.group_id@,
                                    rid,
                                ),
                                _ => false,
                            }))
                            &&& (sg == 1 ==> actions@[2 + accept]
                                == Action::RequestMembershipProof)
                            &&& is_sfu_join_action(actions@.last(), pre.local_ice_ufrag@)
                        }
                    },
                }
            }),
    {
        let mut actions: Vec<Action> = Vec::new();
        match self.join_state {
            JoinState::Joined(_) | JoinState::Joining => {},
            JoinState::NotJoined(ring_id) => {
                let blocked = match &self.last_peek_info {
                    Some(info) => {
                        let cap: u32 = match info.max_devices {
                            Some(m) => m,
                            None => u32::MAX,
                        };
                        info.devices.len() >= cap as usize
                    },
                    None => false,
                };
                if blocked {
                    self.end(EndReason::HasMaxDevices, &mut actions);
                    return actions;
                }
                if busy {
                    self.end(EndReason::CallManagerIsBusy, &mut actions);
                    return actions;
                }
                actions.push(Action::SetBusy { busy: true });
                self.join_state = JoinState::Joining;
                actions.push(
                    Action::HandleJoinStateChanged { join_state: JoinState::Joining },
                );
                if let (Some(rid), Some(u)) = (ring_id, self_user_id) {
                    let message = CallMessage {
                        ring_intention: None,
                        ring_response: Some(
                            RingResponse {
                                group_id: peek::clone_bytes(&self.group_id),
                                ring_id: rid,
                                kind: RingResponseKind::Accepted,
                            },
                        ),
                        group_call_message: None,
                    };
                    actions.push(
                        Action::SendSignalingMessage {
                            recipient: u,
                            message,
                            urgency: SignalingMessageUrgency::HandleImmediately,
                        },
                    );
                }
                if self.kind == GroupCallKind::SignalGroup {
                    actions.push(Action::RequestMembershipProof);
                    self.next_membership_proof_request_time = Some(
                        now.saturating_add(MEMBERSHIP_PROOF_REQUEST_INTERVAL_MILLIS),
                    );
                }
                let client_secret = crate::srtp::generate_client_secret();
                let dhe_pub_key = crate::srtp::public_key_bytes(&client_secret);
                self.dhe_state = DheState::start(client_secret);
                let ice_ufrag = self.local_ice_ufrag.clone();
                actions.push(Action::SfuJoin { ice_ufrag, dhe_pub_key });
            },
        }
        actions
    }

    /// Hand the SFU client a fresh membership proof; if peeks were waiting
    /// for one, peek now.
    pub fn set_membership_proof(&mut self, now: u64, membership_proof: MembershipProof) -> (actions:
        Vec<Action>)
        ensures
            ({
                let pre = *old(self);
                let post = *final(self);
                let waiting = pre.remote_devices_request_state
                    is WaitingForMembershipProof;
                &&& post == (Client {
                    remote_devices_request_state: if waiting {
                        RemoteDevicesRequestState::Requested { should_request_again: false, at: now }
                    } else {
                        pre.remote_devices_request_state
                    },
                    ..pre
                })
                &&& actions@.len() == (if waiting {
                    2int
                } else {
                    1
                })
                &&& (actions@[0] matches Action::SetSfuMembershipProof { membership_proof: p }
                    && (actions@[0] matches Action::SetSfuMembershipProof { membership_proof: p }
                    ==> p@ == membership_proof@))
                &&& (waiting ==> actions@[1] == Action::SfuPeek)
            }),
    {
        let mut actions: Vec<Action> = Vec::new();
        actions.push(Action::SetSfuMembershipProof { membership_proof });
        if let RemoteDevicesRequestState::WaitingForMembershipProof =
            self.remote_devices_request_state {
            self.remote_devices_request_state = RemoteDevicesRequestState::NeverRequested;
            self.request_remote_devices_as_soon_as_possible(now, &mut actions);
        }
        actions
    }

    /// Hand the SFU client the group's member list; when the set of users
    /// actually changed, remember it and peek as soon as possible.
    pub fn set_group_members(&mut self, now: u64, group_members: Vec<GroupMember>) -> (actions: Vec<
        Action,
    >)
        ensures
            ({
                let pre = *old(self);
                let post = *final(self);
                let new_users = spec_unique_member_users(group_members@);
                let changed = !(new_users.to_set() == peek::user_seq(pre.known_members@).to_set());
                if changed {
                    &&& peek::user_seq(post.known_members@) == new_users
                    &&& post == (Client {
                        known_members: post.known_members,
                        remote_devices_request_state: crate::polling::spec_request_state_after(
                            pre.remote_devices_request_state,
                            now,
                            0,
                            true,
                        ),
                        ..pre
                    })
                    &&& actions@.len() >= 1
                    &&& (actions@[0] matches Action::SetSfuGroupMembers { members }
                        && (actions@[0] matches Action::SetSfuGroupMembers { members } ==> members
                        == group_members))
                    &&& actions@.len() == (if crate::polling::spec_should_request_now(
                        pre.remote_devices_request_state,
                        now,
                        0,
                    ) {
                        2int
                    } else {
                        1
                    })
                    &&& (crate::polling::spec_should_request_now(
                        pre.remote_devices_request_state,
                        now,
                        0,
                    ) ==> actions@[1] == Action::SfuPeek)
                } else {
                    post == pre && actions@ == Seq::<Action>::empty()
                }
            }),
    {
        let mut actions: Vec<Action> = Vec::new();
        let new_members = unique_member_users(&group_members);
        if !peek::user_sets_equal(&new_members, &self.known_members) {
            self.known_members = new_members;
            actions.push(Action::SetSfuGroupMembers { members: group_members });
            self.request_remote_devices_as_soon_as_possible(now, &mut actions);
        }
        actions
    }

    /// Send the SFU an admin approval or denial for a user awaiting entry,
    /// found by demux id in the pending list. Without peek info, or when the
    /// user is not pending, nothing is sent.
    fn approve_or_deny_user(&mut self, user_id: UserId, approved: bool, actions: &mut Vec<Action>)
        requires
            old(actions)@.len() == 0,
        ensures
            ({
                let pre = *old(self);
                let post = *final(self);
                let target = match pre.last_peek_info {
                    Some(info) => spec_demux_for_user(info.pending_devices@, user_id@),
                    None => Option::None,
                };
                match target {
                    Some(demux_id) => {
                        if pre.join_state is Joined {
                            &&& post == (Client {
                                rtp_data_to_sfu_next_seqnum: spec_wrap_inc32(
                                    pre.rtp_data_to_sfu_next_seqnum,
                                ),
                                ..pre
                            })
                            &&& final(actions)@ == seq![
                                Action::SendDataToSfu {
                                    header: spec_to_sfu_header(pre.rtp_data_to_sfu_next_seqnum),
                                    message: DeviceToSfu {
                                        video_request: None,
                                        leave: false,
                                        admin_action: Some(
                                            if approved {
                                                AdminAction::Approve(demux_id)
                                            } else {
                                                AdminAction::Deny(demux_id)
                                            },
                                        ),
                                    },
                                },
                            ]
                        } else {
                            post == pre && final(actions)@ == Seq::<Action>::empty()
                        }
                    },
                    None => post == pre && final(actions)@ == Seq::<Action>::empty(),
                }
            }),
    {
        let target = match &self.last_peek_info {
            Some(info) => find_demux_for_user(&info.pending_devices, &user_id),
            None => None,
        };
        if let Some(demux_id) = target {
            let action = if approved {
                AdminAction::Approve(demux_id)
            } else {
                AdminAction::Deny(demux_id)
            };
            let message = DeviceToSfu {
                video_request: None,
                leave: false,
                admin_action: Some(action),
            };
            self.send_data_to_sfu(message, actions);
        }
    }

    /// Approve a user awaiting entry to the call.
    pub fn approve_user(&mut self, user_id: UserId) -> (actions: Vec<Action>)
        ensures
            ({
                let pre = *old(self);
                let post = *final(self);
                let target = match pre.last_peek_info {
                    Some(info) => spec_demux_for_user(info.pending_devices@, user_id@),
                    None => Option::None,
                };
                match target {
                    Some(demux_id) => {
                        if pre.join_state is Joined {
                            &&& post == (Client {
                                rtp_data_to_sfu_next_seqnum: spec_wrap_inc32(
                                    pre.rtp_data_to_sfu_next_seqnum,
                                ),
                                ..pre
                            })
                            &&& actions@ == seq![
                                Action::SendDataToSfu {
                                    header: spec_to_sfu_header(pre.rtp_data_to_sfu_next_seqnum),
                                    message: DeviceToSfu {
                                        video_request: None,
                                        leave: false,
                                        admin_action: Some(AdminAction::Approve(demux_id)),
                                    },
                                },
                            ]
                        } else {
                            post == pre && actions@ == Seq::<Action>::empty()
                        }
                    },
                    None => post == pre && actions@ == Seq::<Action>::empty(),
                }
            }),
    {
        let mut actions: Vec<Action> = Vec::new();
        self.approve_or_deny_user(user_id, true, &mut actions);
        actions
    }

    /// Deny a user awaiting entry to the call.
    pub fn deny_user(&mut self, user_id: UserId) -> (actions: Vec<Action>)
        ensures
            ({
                let pre = *old(self);
                let post = *final(self);
                let target = match pre.last_peek_info {
                    Some(info) => spec_demux_for_user(info.pending_devices@, user_id@),
                    None => Option::None,
                };
                match target {
                    Some(demux_id) => {
                        if pre.join_state is Joined {
                            &&& post == (Client {
                                rtp_data_to_sfu_next_seqnum: spec_wrap_inc32(
                                    pre.rtp_data_to_sfu_next_seqnum,
                                ),
                                ..pre
                            })
                            &&& actions@ == seq![
                                Action::SendDataToSfu {
                                    header: spec_to_sfu_header(pre.rtp_data_to_sfu_next_seqnum),
                                    message: DeviceToSfu {
                                        video_request: None,
                                        leave: false,
                                        admin_action: Some(AdminAction::Deny(demux_id)),
                                    },
                                },
                            ]
                        } else {
                            post == pre && actions@ == Seq::<Action>::empty()
                        }
                    },
                    None => post == pre && actions@ == Seq::<Action>::empty(),
                }
            }),
    {
        let mut actions: Vec<Action> = Vec::new();
        self.approve_or_deny_user(user_id, false, &mut actions);
        actions
    }

    /// Ask the SFU to remove another device from the call. The server
    /// validates the demux id; no local check would be race-free.
    pub fn remove_client(&mut self, other_client_demux_id: DemuxId) -> (actions: Vec<Action>)
        ensures
            old(self).join_state is Joined ==> {
                &&& *final(self) == (Client {
                    rtp_data_to_sfu_next_seqnum: spec_wrap_inc32(
                        old(self).rtp_data_to_sfu_next_seqnum,
                    ),
                    ..*old(self)
                })
                &&& actions@ == seq![
                    Action::SendDataToSfu {
                        header: spec_to_sfu_header(old(self).rtp_data_to_sfu_next_seqnum),
                        message: DeviceToSfu {
                            video_request: None,
                            leave: false,
                            admin_action: Some(AdminAction::Remove(other_client_demux_id)),
                        },
                    },
                ]
            },
            !(old(self).join_state is Joined) ==> *final(self) == *old(self) && actions@
                == Seq::<Action>::empty(),
    {
        let mut actions: Vec<Action> = Vec::new();
        let message = DeviceToSfu {
            video_request: None,
            leave: false,
            admin_action: Some(AdminAction::Remove(other_client_demux_id)),
        };
        self.send_data_to_sfu(message, &mut actions);
        actions
    }

    /// Ask the SFU to block another device's user from the call.
    pub fn block_client(&mut self, other_client_demux_id: DemuxId) -> (actions: Vec<Action>)
        ensures
            old(self).join_state is Joined ==> {
                &&& *final(self) == (Client {
                    rtp_data_to_sfu_next_seqnum: spec_wrap_inc32(
                        old(self).rtp_data_to_sfu_next_seqnum,
                    ),
                    ..*old(self)
                })
                &&& actions@ == seq![
                    Action::SendDataToSfu {
                        header: spec_to_sfu_header(old(self).rtp_data_to_sfu_next_seqnum),
                        message: DeviceToSfu {
                            video_request: None,
                            leave: false,
                            admin_action: Some(AdminAction::Block(other_client_demux_id)),
                        },
                    },
                ]
            },
            !(old(self).join_state is Joined) ==> *final(self) == *old(self) && actions@
                == Seq::<Action>::empty(),
    {
        let mut actions: Vec<Action> = Vec::new();
        let message = DeviceToSfu {
            video_request: None,
            leave: false,
            admin_action: Some(AdminAction::Block(other_client_demux_id)),
        };
        self.send_data_to_sfu(message, &mut actions);
        actions
    }

    /// Resend the current media send key to every user in the roster, e.g.
    /// after the app suspects key loss. The send state is read from the
    /// frame crypto by the host and handed in.
    pub fn resend_media_keys(&mut self, ratchet_counter: u8, secret: [u8; 32]) -> (actions: Vec<
        Action,
    >)
        ensures
            *final(self) == *old(self),
            ({
                let pre = *old(self);
                match pre.join_state {
                    JoinState::Joined(local_demux_id) => {
                        let users = spec_unique_device_users(pre.remote_devices@);
                        &&& actions@.len() == users.len()
                        &&& (forall|k: int|
                            0 <= k < users.len() ==> is_media_key_action(
                                #[trigger] actions@[k],
                                users[k],
                                pre.group_id@,
                                local_demux_id,
                                ratchet_counter as u32,
                                secret@,
                            ))
                    },
                    _ => actions@ == Seq::<Action>::empty(),
                }
            }),
    {
        let mut actions: Vec<Action> = Vec::new();
        if let JoinState::Joined(local_demux_id) = self.join_state {
            let users = unique_device_users(&self.remote_devices);
            self.send_media_key_to_users(&users, local_demux_id, ratchet_counter, secret, &mut actions);
            proof {
                let spec_users = spec_unique_device_users(self.remote_devices@);
                assert forall|k: int| 0 <= k < spec_users.len() implies is_media_key_action(
                    #[trigger] actions@[k],
                    spec_users[k],
                    self.group_id@,
                    local_demux_id,
                    ratchet_counter as u32,
                    secret@,
                ) by {
                    assert(peek::user_seq(users@)[k] == users@[k]@);
                    assert(is_media_key_action(
                        actions@[0 + k],
                        users@[k]@,
                        self.group_id@,
                        local_demux_id,
                        ratchet_counter as u32,
                        secret@,
                    ));
                }
            }
        }
        actions
    }

    /// Send the given media send key to each of `users` over signaling.
    fn send_media_key_to_users(
        &self,
        users: &Vec<UserId>,
        local_demux_id: DemuxId,
        ratchet_counter: u8,
        secret: [u8; 32],
        actions: &mut Vec<Action>,
    )
        ensures
            final(actions)@.len() == old(actions)@.len() + users@.len(),
            forall|j: int|
                0 <= j < old(actions)@.len() ==> #[trigger] final(actions)@[j] == old(actions)@[j],
            forall|k: int|
                0 <= k < users@.len() ==> is_media_key_action(
                    #[trigger] final(actions)@[old(actions)@.len() + k],
                    users@[k]@,
                    self.group_id@,
                    local_demux_id,
                    ratchet_counter as u32,
                    secret@,
                ),
    {
        let ghost base = actions@.len() as int;
        let ghost start_actions = actions@;
        let n = users.len();
        let mut k: usize = 0;
        while k < n
            invariant
                n == users@.len(),
                k <= n,
                base == start_actions.len(),
                actions@.len() == base + k,
                actions@.take(base) == start_actions,
                forall|j: int|
                    0 <= j < k ==> is_media_key_action(
                        #[trigger] actions@[base + j],
                        users@[j]@,
                        self.group_id@,
                        local_demux_id,
                        ratchet_counter as u32,
                        secret@,
                    ),
            decreases n - k,
        {
            let secret_bytes = secret_to_vec(&secret);
            let message = CallMessage {
                ring_intention: None,
                ring_response: None,
                group_call_message: Some(
                    DeviceToDevice {
                        group_id: Some(peek::clone_bytes(&self.group_id)),
                        media_key: Some(
                            MediaKeyMessage {
                                demux_id: Some(local_demux_id),
                                ratchet_counter: Some(ratchet_counter as u32),
                                secret: Some(secret_bytes),
                            },
                        ),
                        heartbeat: None,
                        leaving: None,
                    },
                ),
            };
            actions.push(
                Action::SendSignalingMessage {
                    recipient: peek::clone_bytes(&users[k]),
                    message,
                    urgency: SignalingMessageUrgency::Droppable,
                },
            );
            proof {
                assert(actions@.take(base) =~= start_actions);
            }
            k = k + 1;
        }
        proof {
            assert forall|j: int| 0 <= j < base implies #[trigger] actions@[j]
                == start_actions[j] by {
                assert(actions@.take(base)[j] == actions@[j]);
            }
        }
    }

    /// Rebuild the roster from a peek's device list, per `spec_reconcile`,
    /// and remember if the local device was ever listed as participating.
    fn reconcile_remote_devices(
        &mut self,
        devices: &Vec<crate::peek::PeekDeviceInfo>,
        local_demux_id: DemuxId,
        now: u64,
    )
        ensures
            *final(self) == (Client {
                remote_devices: final(self).remote_devices,
                has_ever_been_participating_client:
                    final(self).has_ever_been_participating_client,
                ..*old(self)
            }),
            crate::device::device_views(final(self).remote_devices@) == spec_reconcile(
                crate::device::device_views(old(self).remote_devices@),
                peek_device_views(devices@),
                local_demux_id,
                now,
            ),
            ({
                let was = old(self).has_ever_been_participating_client;
                final(self).has_ever_been_participating_client == (was || spec_saw_local(
                    peek_device_views(devices@),
                    local_demux_id,
                ))
            }),
    {
        let ghost dviews = peek_device_views(devices@);
        let ghost orig_old_views = crate::device::device_views(old(self).remote_devices@);
        let ghost orig_flag = self.has_ever_been_participating_client;
        let mut old_roster: RemoteDevices = Default::default();
        core::mem::swap(&mut self.remote_devices, &mut old_roster);
        let mut acc: Vec<RemoteDeviceState> = Vec::new();
        let n = devices.len();
        let mut i: usize = 0;
        proof {
            assert(dviews.skip(0) =~= dviews);
            assert(dviews.take(0) =~= Seq::<crate::peek::PeekDeviceInfoView>::empty());
        }
        while i < n
            invariant
                n == devices@.len(),
                i <= n,
                dviews == peek_device_views(devices@),
                crate::device::device_views(acc@) + spec_reconcile(
                    crate::device::device_views(old_roster@),
                    dviews.skip(i as int),
                    local_demux_id,
                    now,
                ) == spec_reconcile(orig_old_views, dviews, local_demux_id, now),
                self.has_ever_been_participating_client == (orig_flag || spec_saw_local(
                    dviews.take(i as int),
                    local_demux_id,
                )),
                *self == (Client {
                    remote_devices: self.remote_devices,
                    has_ever_been_participating_client:
                    self.has_ever_been_participating_client,
                    ..*old(self)
                }),
                self.remote_devices@ == Seq::<RemoteDeviceState>::empty(),
            decreases n - i,
        {
            let ghost pending = dviews.skip(i as int);
            proof {
                assert(pending.first() == dviews[i as int]);
                assert(pending.drop_first() =~= dviews.skip(i + 1int));
                assert(dviews.take(i + 1int).drop_last() =~= dviews.take(i as int));
                assert(dviews.take(i + 1int).last() == dviews[i as int]);
                assert(spec_saw_local(dviews.take(i + 1int), local_demux_id) == (spec_saw_local(
                    dviews.take(i as int),
                    local_demux_id,
                ) || dviews[i as int].demux_id == local_demux_id)) by {
                    if spec_saw_local(dviews.take(i as int), local_demux_id) {
                        let j = choose|j: int|
                            0 <= j < i && #[trigger] dviews.take(i as int)[j].demux_id
                                == local_demux_id;
                        assert(dviews.take(i + 1int)[j].demux_id == local_demux_id);
                    }
                    if spec_saw_local(dviews.take(i + 1int), local_demux_id) {
                        let j = choose|j: int|
                            0 <= j < i + 1 && #[trigger] dviews.take(i + 1int)[j].demux_id
                                == local_demux_id;
                        if j < i {
                            assert(dviews.take(i as int)[j].demux_id == local_demux_id);
                        }
                    }
                }
            }
            let device_demux_id = devices[i].demux_id;
            if device_demux_id == local_demux_id {
                self.has_ever_been_participating_client = true;
            } else {
                match &devices[i].user_id {
                    None => {},
                    Some(u) => {
                        proof {
                            lemma_first_demux_index_char(
                                crate::device::device_views(old_roster@),
                                device_demux_id,
                            );
                        }
                        let found = old_roster.index_of_demux_id(device_demux_id);
                        let entry: RemoteDeviceState = match found {
                            Some(j) => {
                                let ghost old_views = crate::device::device_views(old_roster@);
                                proof {
                                    assert(old_views[j as int].demux_id == old_roster@[
                                        j as int].demux_id);
                                    let si = spec_first_demux_index(old_views, device_demux_id);
                                    if si >= 0 && si < j as int {
                                        assert(old_views[si].demux_id == old_roster@[si].demux_id);
                                    }
                                    assert(si == j as int);
                                }
                                let e = old_roster.0.remove(j);
                                proof {
                                    assert(crate::device::device_views(old_roster@)
                                        =~= old_views.remove(j as int));
                                }
                                if e.user_id == *u {
                                    proof {
                                        assert(e.user_id@ =~= u@);
                                    }
                                    e
                                } else {
                                    proof {
                                        assert(e.user_id@ != u@) by {
                                            if e.user_id@ == u@ {
                                                assert(e.user_id =~= *u);
                                            }
                                        }
                                    }
                                    RemoteDeviceState::new(
                                        device_demux_id,
                                        peek::clone_bytes(u),
                                        now,
                                    )
                                }
                            },
                            None => {
                                proof {
                                    assert(spec_first_demux_index(
                                        crate::device::device_views(old_roster@),
                                        device_demux_id,
                                    ) == -1) by {
                                        let idx = spec_first_demux_index(
                                            crate::device::device_views(old_roster@),
                                            device_demux_id,
                                        );
                                        if idx >= 0 {
                                            assert(crate::device::device_views(
                                                old_roster@,
                                            )[idx].demux_id == device_demux_id);
                                            assert(old_roster@[idx].demux_id == device_demux_id);
                                        }
                                    }
                                }
                                RemoteDeviceState::new(device_demux_id, peek::clone_bytes(u), now)
                            },
                        };
                        let ghost acc_views = crate::device::device_views(acc@);
                        let ghost entry_view = entry@;
                        acc.push(entry);
                        proof {
                            assert(crate::device::device_views(acc@) =~= acc_views.push(
                                entry_view,
                            ));
                            assert(acc_views.push(entry_view) =~= acc_views + seq![entry_view]);
                        }
                    },
                }
            }
            i = i + 1;
        }
        proof {
            assert(dviews.skip(n as int) =~= Seq::<crate::peek::PeekDeviceInfoView>::empty());
            assert(dviews.take(n as int) =~= dviews);
            assert(crate::device::device_views(acc@) + Seq::<
                crate::device::RemoteDeviceStateView,
            >::empty() =~= crate::device::device_views(acc@));
        }
        self.remote_devices = RemoteDevices(acc);
    }

    /// Hand out a freshly advanced media send key, fetched from the frame
    /// crypto after an `AdvanceSendRatchet` action, to the users it was
    /// advanced for.
    pub fn distribute_media_send_key(
        &mut self,
        users: Vec<UserId>,
        ratchet_counter: u8,
        secret: [u8; 32],
    ) -> (actions: Vec<Action>)
        ensures
            *final(self) == *old(self),
            ({
                let pre = *old(self);
                match pre.join_state {
                    JoinState::Joined(local_demux_id) => {
                        &&& actions@.len() == users@.len()
                        &&& (forall|k: int|
                            0 <= k < users@.len() ==> is_media_key_action(
                                #[trigger] actions@[k],
                                users@[k]@,
                                pre.group_id@,
                                local_demux_id,
                                ratchet_counter as u32,
                                secret@,
                            ))
                    },
                    _ => actions@ == Seq::<Action>::empty(),
                }
            }),
    {
        let mut actions: Vec<Action> = Vec::new();
        if let JoinState::Joined(local_demux_id) = self.join_state {
            self.send_media_key_to_users(&users, local_demux_id, ratchet_counter, secret, &mut actions);
            proof {
                assert forall|k: int| 0 <= k < users@.len() implies is_media_key_action(
                    #[trigger] actions@[k],
                    users@[k]@,
                    self.group_id@,
                    local_demux_id,
                    ratchet_counter as u32,
                    secret@,
                ) by {
                    assert(is_media_key_action(
                        actions@[0 + k],
                        users@[k]@,
                        self.group_id@,
                        local_demux_id,
                        ratchet_counter as u32,
                        secret@,
                    ));
                }
            }
        }
        actions
    }

    /// Install a media receive key when its device is known and claims the
    /// same user; buffer it for the next reconciliation when the device is
    /// unknown; drop it when the demux id is claimed by a different user (a
    /// forgery attempt).
    fn add_media_receive_key_or_store_for_later(
        &mut self,
        user_id: UserId,
        demux_id: DemuxId,
        ratchet_counter: u8,
        secret: [u8; 32],
        actions: &mut Vec<Action>,
    )
        ensures
            add_receive_key_transition(
                *old(self),
                *final(self),
                user_id@,
                demux_id,
                ratchet_counter,
                secret,
                old(actions)@,
                final(actions)@,
            ),
    {
        let ghost pre_views = crate::device::device_views(self.remote_devices@);
        proof {
            lemma_first_demux_index_char(pre_views, demux_id);
            assert forall|k: int| 0 <= k < pre_views.len() implies (#[trigger] pre_views[k]).demux_id
                == self.remote_devices@[k].demux_id by {}
        }
        match self.remote_devices.index_of_demux_id(demux_id) {
            Some(j) => {
                proof {
                    let si = spec_first_demux_index(pre_views, demux_id);
                    if si >= 0 && si < j as int {
                        assert(pre_views[si].demux_id == self.remote_devices@[si].demux_id);
                    }
                    assert(si == j as int);
                }
                if self.remote_devices.0[j].user_id == user_id {
                    proof {
                        assert(self.remote_devices@[j as int].user_id@ =~= user_id@);
                    }
                    actions.push(Action::AddReceiveSecret { demux_id, ratchet_counter, secret });
                    let had_media_keys = self.remote_devices.0[j].media_keys_received;
                    self.remote_devices.0[j].media_keys_received = true;
                    if !had_media_keys {
                        actions.push(
                            Action::HandleRemoteDevicesChanged {
                                reason: RemoteDevicesChangedReason::MediaKeyReceived(demux_id),
                            },
                        );
                    }
                    proof {
                        assert(crate::device::device_views(self.remote_devices@) =~= pre_views
                            .update(
                            j as int,
                            crate::device::RemoteDeviceStateView {
                                media_keys_received: true,
                                ..pre_views[j as int]
                            },
                        ));
                        let add = Action::AddReceiveSecret { demux_id, ratchet_counter, secret };
                        if had_media_keys {
                            assert(actions@ =~= old(actions)@.push(add) + Seq::<Action>::empty());
                        } else {
                            assert(actions@ =~= old(actions)@.push(add) + seq![
                                Action::HandleRemoteDevicesChanged {
                                    reason: RemoteDevicesChangedReason::MediaKeyReceived(demux_id),
                                },
                            ]);
                        }
                    }
                } else {
                    proof {
                        assert(self.remote_devices@[j as int].user_id@ != user_id@) by {
                            if self.remote_devices@[j as int].user_id@ == user_id@ {
                                assert(self.remote_devices@[j as int].user_id =~= user_id);
                            }
                        }
                    }
                }
            },
            None => {
                if self.pending_media_receive_keys.len() == 0 && self.kind
                    == GroupCallKind::SignalGroup {
                    actions.push(Action::RequestGroupMembers);
                }
                self.pending_media_receive_keys.push(
                    PendingReceiveKey { user_id, demux_id, ratchet_counter, secret },
                );
                proof {
                    if old(self).pending_media_receive_keys@.len() == 0 && old(self).kind
                        == GroupCallKind::SignalGroup {
                        assert(actions@ =~= old(actions)@ + seq![Action::RequestGroupMembers]);
                    } else {
                        assert(actions@ =~= old(actions)@ + Seq::<Action>::empty());
                    }
                    assert(self.pending_media_receive_keys@.take(
                        old(self).pending_media_receive_keys@.len() as int,
                    ) =~= old(self).pending_media_receive_keys@);
                }
            },
        }
    }

    /// A user left: generate a fresh send key and hand it to everyone who
    /// remains, to be applied after the rotation delay. While one rotation is
    /// pending, only note that another is needed — at most one is in flight.
    fn rotate_media_send_key_and_send_to_users_not_removed(&mut self, actions: &mut Vec<Action>)
        ensures
            ({
                let pre = *old(self);
                match pre.media_send_key_rotation_state {
                    KeyRotationState::Pending { secret, .. } => {
                        &&& *final(self) == (Client {
                            media_send_key_rotation_state: KeyRotationState::Pending {
                                secret,
                                needs_another_rotation: true,
                            },
                            ..pre
                        })
                        &&& final(actions)@ == old(actions)@
                    },
                    KeyRotationState::Applied => rotate_applied_transition(
                        pre,
                        *final(self),
                        old(actions)@,
                        final(actions)@,
                    ),
                }
            }),
    {
        match self.media_send_key_rotation_state {
            KeyRotationState::Pending { secret, .. } => {
                self.media_send_key_rotation_state = KeyRotationState::Pending {
                    secret,
                    needs_another_rotation: true,
                };
            },
            KeyRotationState::Applied => {
                let secret = generate_random_secret();
                if let JoinState::Joined(local_demux_id) = self.join_state {
                    let users = unique_device_users(&self.remote_devices);
                    self.send_media_key_to_users(&users, local_demux_id, 0, secret, actions);
                    proof {
                        let spec_users = spec_unique_device_users(self.remote_devices@);
                        assert forall|k: int| 0 <= k < spec_users.len() implies is_media_key_action(
                            #[trigger] actions@[old(actions)@.len() + k],
                            spec_users[k],
                            self.group_id@,
                            local_demux_id,
                            0,
                            secret@,
                        ) by {
                            assert(peek::user_seq(users@)[k] == users@[k]@);
                        }
                    }
                }
                self.media_send_key_rotation_state = KeyRotationState::Pending {
                    secret,
                    needs_another_rotation: false,
                };
                actions.push(Action::ScheduleApplyPendingSendKey { delay_millis: 3000 });
            },
        }
    }

    /// The delayed application of a rotated send key: reset the send ratchet
    /// to the pending secret; if another user left meanwhile, rotate again.
    pub fn apply_pending_send_key(&mut self) -> (actions: Vec<Action>)
        ensures
            ({
                let pre = *old(self);
                match pre.media_send_key_rotation_state {
                    KeyRotationState::Applied => *final(self) == pre && actions@
                        == Seq::<Action>::empty(),
                    KeyRotationState::Pending { secret, needs_another_rotation } => {
                        &&& actions@.len() >= 1
                        &&& actions@[0] == (Action::ResetSendRatchet { secret })
                        &&& (if !needs_another_rotation {
                            &&& *final(self) == (Client {
                                media_send_key_rotation_state: KeyRotationState::Applied,
                                ..pre
                            })
                            &&& actions@.len() == 1
                        } else {
                            rotate_applied_transition(
                                Client {
                                    media_send_key_rotation_state: KeyRotationState::Applied,
                                    ..pre
                                },
                                *final(self),
                                seq![Action::ResetSendRatchet { secret }],
                                actions@,
                            )
                        })
                    },
                }
            }),
    {
        let mut actions: Vec<Action> = Vec::new();
        match self.media_send_key_rotation_state {
            KeyRotationState::Applied => {},
            KeyRotationState::Pending { secret, needs_another_rotation } => {
                actions.push(Action::ResetSendRatchet { secret });
                self.media_send_key_rotation_state = KeyRotationState::Applied;
                if needs_another_rotation {
                    self.rotate_media_send_key_and_send_to_users_not_removed(&mut actions);
                }
            },
        }
        actions
    }

    /// Take in a peek of the SFU (solicited or not), as `peek_ok_transition`
    /// describes. A failed peek only backs off the polling.
    #[verifier::rlimit(100)]
    #[verifier::spinoff_prover]
    pub fn set_peek_result(&mut self, now: u64, result: Result<PeekInfo, u32>) -> (actions: Vec<
        Action,
    >)
        ensures
            result matches Err(_) ==> *final(self) == (Client {
                remote_devices_request_state: RemoteDevicesRequestState::Failed { at: now },
                ..*old(self)
            }) && actions@ == Seq::<Action>::empty(),
            (result matches Ok(info)) ==> peek_ok_transition(
                *old(self),
                *final(self),
                (match result {
                    Ok(info) => info,
                    Err(_) => arbitrary(),
                }),
                now,
                actions@,
            ),
    {
        let mut actions: Vec<Action> = Vec::new();
        let info = match result {
            Err(_) => {
                self.remote_devices_request_state = RemoteDevicesRequestState::Failed { at: now };
                return actions;
            },
            Ok(info) => info,
        };
        let should_again = match self.remote_devices_request_state {
            RemoteDevicesRequestState::Requested { should_request_again: true, .. } => true,
            _ => false,
        };
        self.remote_devices_request_state = RemoteDevicesRequestState::Updated { at: now };
        let new_users = info.unique_users();
        // The reported joined members leave the local device's entry out; the
        // stored summary keeps every user, as the leave notices and the rate
        // table want the whole set.
        let local_demux = match self.join_state {
            JoinState::Joined(local_demux_id) => Some(local_demux_id),
            _ => None,
        };
        let reported_users = peek::unique_users_excluding(&info.devices, local_demux);
        let sig = info.pending_users_signature();
        let first = self.last_peek_info.is_none();
        let users_changed = !peek::user_sets_equal(&new_users, &self.joined_members);
        let era_unchanged = match &self.last_peek_info {
            Some(old_info) => peek::opt_era_eq(&old_info.era_id, &info.era_id),
            None => false,
        };
        let fires = first || users_changed || !era_unchanged || sig
            != self.pending_users_signature;
        if fires {
            actions.push(
                Action::HandlePeekChanged {
                    peek_info: peek::clone_peek_info(&info),
                    joined_members: reported_users,
                },
            );
        }
        let negotiated = match self.dhe_state {
            DheState::Negotiated { .. } => true,
            _ => false,
        };
        let ghost mut mid_post = *self;
        let ghost mut pre_roster_actions = actions@;
        let ghost mut roster_actions = actions@;
        let ghost mut roster_flags: (int, int, int, bool, bool, bool) = (0, 0, 0, false, false, false);
        let mut was_active = false;
        if let JoinState::Joined(local_demux_id) = self.join_state {
            if negotiated {
                was_active = true;
                proof {
                    pre_roster_actions = actions@;
                }
                let flags = self.apply_peek_to_roster(
                    &info,
                    &new_users,
                    local_demux_id,
                    now,
                    &mut actions,
                );
                proof {
                    roster_flags = flags@;
                    mid_post = *self;
                    roster_actions = actions@;
                }
            }
        }
        self.last_peek_info = Some(info);
        self.joined_members = new_users;
        self.pending_users_signature = sig;
        let ghost before_final_peek = actions@;
        if should_again {
            self.request_remote_devices_as_soon_as_possible(now, &mut actions);
        }
        proof {
            if was_active {
                assert forall|j: int| 0 <= j < roster_actions.len() implies #[trigger] actions@[j]
                    == roster_actions[j] by {}
                let k0: int = if fires {
                    1int
                } else {
                    0
                };
                assert(actions@.take(k0) =~= pre_roster_actions);
                assert forall|i: int|
                    k0 <= i < actions@.len() implies !((#[trigger] actions@[i])
                        is HandlePeekChanged) by {
                    if i < roster_actions.len() {
                        assert(actions@[i] == roster_actions[i]);
                    } else {
                        assert(actions@[i] == Action::SfuPeek);
                    }
                }
                let ghost (update_pcd_idx, advance_idx, sched_idx, update_pcd_any, added_any,
                    rotated_from_applied) = roster_flags;
                if added_any {
                    assert forall|j: int|
                        k0 <= j < actions@.len() && j != advance_idx implies !((
                        #[trigger] actions@[j]) is AdvanceSendRatchet) by {
                        if j < roster_actions.len() {
                            assert(actions@[j] == roster_actions[j]);
                        } else {
                            assert(actions@[j] == Action::SfuPeek);
                        }
                    }
                } else {
                    assert forall|j: int|
                        k0 <= j < actions@.len() implies !((#[trigger] actions@[j])
                            is AdvanceSendRatchet) by {
                        if j < roster_actions.len() {
                            assert(actions@[j] == roster_actions[j]);
                        } else {
                            assert(actions@[j] == Action::SfuPeek);
                        }
                    }
                }
                match old(self).join_state {
                    JoinState::Joined(local_demux_id) => {
                        let pre_views = crate::device::device_views(old(self).remote_devices@);
                        let reconciled = spec_reconcile(
                            pre_views,
                            peek_device_views(self.last_peek_info->Some_0.devices@),
                            local_demux_id,
                            now,
                        );
                        let old_ids = spec_demux_id_set(pre_views);
                        let added = spec_added_device_users(reconciled, old_ids);
                        if rotated_from_applied {
                            assert(actions@[sched_idx] == roster_actions[sched_idx]);
                        }
                        if update_pcd_any {
                            assert(actions@[update_pcd_idx] == roster_actions[update_pcd_idx]);
                        }
                        if added_any {
                            assert(actions@[advance_idx] == roster_actions[advance_idx]);
                            match old(self).media_send_key_rotation_state {
                                KeyRotationState::Pending { secret, .. } => {
                                    assert forall|k: int|
                                        0 <= k < added.len() implies is_media_key_action(
                                        #[trigger] actions@[advance_idx + 1 + k],
                                        added[k],
                                        old(self).group_id@,
                                        local_demux_id,
                                        0,
                                        secret@,
                                    ) by {
                                        assert(actions@[advance_idx + 1 + k]
                                            == roster_actions[advance_idx + 1 + k]);
                                    }
                                },
                                KeyRotationState::Applied => {},
                            }
                        }
                        if !(spec_demux_id_set(reconciled) =~= old_ids) {
                            let i = choose|i: int|
                                0 <= i < roster_actions.len() && #[trigger] roster_actions[i]
                                    == (Action::HandleRemoteDevicesChanged {
                                    reason: RemoteDevicesChangedReason::DemuxIdsChanged,
                                });
                            assert(actions@[i] == roster_actions[i]);
                        }
                    },
                    _ => {},
                }
            }
        }
        actions
    }
    /// The roster-facing part of taking in a peek, for a joined call with
    /// negotiated keys.
    #[verifier::rlimit(100)]
    #[verifier::spinoff_prover]
    fn apply_peek_to_roster(
        &mut self,
        info: &PeekInfo,
        new_users: &Vec<UserId>,
        local_demux_id: DemuxId,
        now: u64,
        actions: &mut Vec<Action>,
    ) -> (flags: Ghost<(int, int, int, bool, bool, bool)>)
        requires
            old(self).join_state == JoinState::Joined(local_demux_id),
            old(self).dhe_state is Negotiated,
            peek::user_seq(new_users@) == crate::peek::spec_unique_users(info.devices@),
        ensures
            peek_roster_transition(
                *old(self),
                *final(self),
                *info,
                local_demux_id,
                now,
                old(actions)@,
                final(actions)@,
            ),
            ({
                let (update_pcd_idx, advance_idx, sched_idx, update_pcd_any, added_any,
                    rotated_from_applied) = flags@;
                let appended = final(actions)@;
                let base_len = old(actions)@.len() as int;
                let reconciled = spec_reconcile(
                    crate::device::device_views(old(self).remote_devices@),
                    peek_device_views(info.devices@),
                    local_demux_id,
                    now,
                );
                let old_ids = spec_demux_id_set(
                    crate::device::device_views(old(self).remote_devices@),
                );
                let added = spec_added_device_users(reconciled, old_ids);
                &&& added_any == (added.len() > 0)
                &&& (added_any ==> {
                    &&& base_len <= advance_idx < appended.len()
                    &&& is_advance_ratchet_action(appended[advance_idx], added)
                    &&& (match old(self).media_send_key_rotation_state {
                        KeyRotationState::Pending { secret, .. } => {
                            &&& advance_idx + 1 + added.len() <= appended.len()
                            &&& (forall|k: int|
                                0 <= k < added.len() ==> is_media_key_action(
                                    #[trigger] appended[advance_idx + 1 + k],
                                    added[k],
                                    old(self).group_id@,
                                    local_demux_id,
                                    0,
                                    secret@,
                                ))
                        },
                        KeyRotationState::Applied => true,
                    })
                })
                &&& update_pcd_any == (!(spec_demux_id_set(reconciled) =~= old_ids) && old(
                    self,
                ).sfu_info is Some)
                &&& (update_pcd_any ==> base_len <= update_pcd_idx < appended.len()
                    && is_update_descriptions_action(
                    appended[update_pcd_idx],
                    local_demux_id,
                    spec_demux_id_set(reconciled),
                    old(self).dhe_state,
                ))
                &&& rotated_from_applied == (spec_any_user_removed(*old(self), *info) && old(
                    self,
                ).media_send_key_rotation_state is Applied)
                &&& (rotated_from_applied ==> base_len <= sched_idx < appended.len()
                    && appended[sched_idx] == (Action::ScheduleApplyPendingSendKey {
                    delay_millis: 3000,
                }))
            }),
    {
        let ghost base_len = old(actions)@.len() as int;
        let old_id_set = self.remote_devices.demux_id_set();
        proof {
            assert(spec_demux_id_set(crate::device::device_views(self.remote_devices@))
                =~= self.remote_devices.demux_ids()) by {
                assert(crate::device::device_views(self.remote_devices@).map_values(
                    |d: crate::device::RemoteDeviceStateView| d.demux_id,
                ) =~= self.remote_devices@.map_values(|d: RemoteDeviceState| d.demux_id));
            }
        }
        let removed_any = !peek::user_set_subset(&self.joined_members, new_users);
        proof {
            let a = peek::user_seq(self.joined_members@);
            let b = peek::user_seq(new_users@);
            if !removed_any {
                assert forall|u: Seq<u8>| a.to_set().contains(u) implies b.to_set().contains(
                    u,
                ) by {
                    let j = choose|j: int| 0 <= j < a.len() && a[j] == u;
                    assert(b.contains(a[j]));
                }
            } else {
                let j = choose|j: int| 0 <= j < a.len() && !b.contains(#[trigger] a[j]);
                assert(a.to_set().contains(a[j]));
                assert(!b.to_set().contains(a[j]));
            }
        }
        self.reconcile_remote_devices(&info.devices, local_demux_id, now);
        let ghost reconciled = crate::device::device_views(self.remote_devices@);
        proof {
            assert forall|k: int|
                0 <= k < reconciled.len() implies (#[trigger] reconciled[k]).demux_id
                == self.remote_devices@[k].demux_id by {}
            assert(spec_demux_id_set(reconciled) =~= self.remote_devices.demux_ids()) by {
                assert(reconciled.map_values(
                    |d: crate::device::RemoteDeviceStateView| d.demux_id,
                ) =~= self.remote_devices@.map_values(|d: RemoteDeviceState| d.demux_id));
            }
        }
        let new_id_set = self.remote_devices.demux_id_set();
        let new_subset_old = all_demux_in_set(&self.remote_devices, &old_id_set);
        let old_len = old_id_set.len();
        let new_len = new_id_set.len();
        let ids_changed = !(new_subset_old && old_len == new_len);
        proof {
            let old_ids = old_id_set@;
            let new_ids = new_id_set@;
            if new_subset_old && old_len == new_len {
                vstd::set_lib::lemma_len_subset(new_ids, old_ids);
                if new_ids =~= old_ids {
                } else {
                    let d = choose|d: DemuxId| old_ids.contains(d) && !new_ids.contains(d);
                    assert(new_ids.insert(d).subset_of(old_ids));
                    vstd::set_lib::lemma_len_subset(new_ids.insert(d), old_ids);
                }
            } else if new_ids =~= old_ids {
                assert(new_subset_old);
            }
            assert(ids_changed == !(new_ids =~= old_ids));
        }
        let flags = self.emit_roster_change_actions(
            local_demux_id,
            ids_changed,
            &old_id_set,
            removed_any,
            actions,
        );
        let ghost (update_pcd_idx, advance_idx, sched_idx, update_pcd_any, added_any,
            rotated_from_applied) = flags@;
        let ghost b3 = actions@;
        let ghost roster_before_drain = crate::device::device_views(self.remote_devices@);
        let ghost pending_before_drain = self.pending_media_receive_keys@;
        self.drain_pending_media_receive_keys(actions);
        let ghost b4 = actions@;
        proof {
            lemma_drain_roster_len(roster_before_drain, pending_before_drain);
            assert forall|j: int| 0 <= j < b3.len() implies #[trigger] b4[j] == b3[j] by {
                assert(actions@[j] == b3[j]);
            }
        }
        if new_len != old_len {
            let sharing = match self.outgoing_heartbeat_state.sharing_screen {
                Some(true) => true,
                _ => false,
            };
            let send_rates = crate::rates::compute_send_rates(new_len, sharing);
            self.set_send_rates_inner(send_rates, actions);
        }
        if !self.remote_devices.is_empty() {
            if let OutgoingRingState::HasSentRing { .. } = self.outgoing_ring_state {
                self.outgoing_ring_state = OutgoingRingState::NotPermittedToRing;
            }
        }
        proof {
            let b5 = actions@;
            assert forall|j: int| 0 <= j < b4.len() implies #[trigger] b5[j] == b4[j] by {}
            assert forall|j: int| 0 <= j < b3.len() implies #[trigger] b5[j] == b3[j] by {
                assert(b5[j] == b4[j]);
            }
            assert forall|i: int|
                base_len <= i < b5.len() implies !((#[trigger] b5[i]) is HandlePeekChanged) && (
                b5[i] is AdvanceSendRatchet ==> added_any && i == advance_idx) by {
                if i < b3.len() {
                    assert(b5[i] == b3[i]);
                } else if i < b4.len() {
                    assert(actions@[i] == b4[i]);
                }
            }
            if rotated_from_applied {
                assert(b5[sched_idx] == b3[sched_idx]);
            }
            if ids_changed {
                let i = choose|i: int|
                    base_len <= i < b3.len() && #[trigger] b3[i]
                        == (Action::HandleRemoteDevicesChanged {
                        reason: RemoteDevicesChangedReason::DemuxIdsChanged,
                    });
                assert(b5[i] == b3[i]);
            }
            if update_pcd_any {
                assert(b5[update_pcd_idx] == b3[update_pcd_idx]);
                assert(is_update_descriptions_action(
                    b5[update_pcd_idx],
                    local_demux_id,
                    spec_demux_id_set(reconciled),
                    old(self).dhe_state,
                ));
            }
            if added_any {
                let added = spec_added_device_users(reconciled, old_id_set@);
                assert(b5[advance_idx] == b3[advance_idx]);
                assert(is_advance_ratchet_action(b5[advance_idx], added));
                assert forall|j: int|
                    base_len <= j < b5.len() && j != advance_idx implies !((#[trigger] b5[j])
                        is AdvanceSendRatchet) by {}
                match old(self).media_send_key_rotation_state {
                    KeyRotationState::Pending { secret, .. } => {
                        assert forall|k: int| 0 <= k < added.len() implies is_media_key_action(
                            #[trigger] b5[advance_idx + 1 + k],
                            added[k],
                            old(self).group_id@,
                            local_demux_id,
                            0,
                            secret@,
                        ) by {
                            assert(b5[advance_idx + 1 + k] == b3[advance_idx + 1 + k]);
                        }
                    },
                    KeyRotationState::Applied => {},
                }
            }
        }
        flags
    }

    /// Emit the actions a changed roster calls for: rebuild the transport
    /// descriptions and report the demux change; advance the send ratchet
    /// for users with added devices (handing a pending rotation secret to
    /// them too); rotate the send key when a user vanished. Returns, as
    /// ghost data, where the update, the advance and the rotation schedule
    /// sit in the action list, with their flags.
    #[verifier::rlimit(100)]
    #[verifier::spinoff_prover]
    fn emit_roster_change_actions(
        &mut self,
        local_demux_id: DemuxId,
        ids_changed: bool,
        old_id_set: &std::collections::HashSet<DemuxId>,
        removed_any: bool,
        actions: &mut Vec<Action>,
    ) -> (flags: Ghost<(int, int, int, bool, bool, bool)>)
        requires
            old(self).join_state == JoinState::Joined(local_demux_id),
            old(self).dhe_state is Negotiated,
            ids_changed == !(spec_demux_id_set(
                crate::device::device_views(old(self).remote_devices@),
            ) =~= old_id_set@),
        ensures
            ({
                let (update_pcd_idx, advance_idx, sched_idx, update_pcd_any, added_any,
                    rotated_from_applied) = flags@;
                let pre = *old(self);
                let post = *final(self);
                let base_len = old(actions)@.len() as int;
                let appended = final(actions)@;
                let views = crate::device::device_views(pre.remote_devices@);
                let added = spec_added_device_users(views, old_id_set@);
                &&& (forall|j: int|
                    0 <= j < base_len ==> #[trigger] appended[j] == old(actions)@[j])
                &&& appended.len() >= base_len
                &&& (forall|i: int|
                    base_len <= i < appended.len() ==> !((#[trigger] appended[i])
                        is HandlePeekChanged) && (appended[i] is AdvanceSendRatchet ==> added_any
                        && i == advance_idx))
                &&& update_pcd_any == (ids_changed && pre.sfu_info is Some)
                &&& (update_pcd_any ==> base_len <= update_pcd_idx < appended.len()
                    && is_update_descriptions_action(
                    appended[update_pcd_idx],
                    local_demux_id,
                    spec_demux_id_set(views),
                    pre.dhe_state,
                ))
                &&& (ids_changed ==> exists|i: int|
                    base_len <= i < appended.len() && (#[trigger] appended[i])
                        == (Action::HandleRemoteDevicesChanged {
                        reason: RemoteDevicesChangedReason::DemuxIdsChanged,
                    }))
                &&& added_any == (added.len() > 0)
                &&& (added_any ==> {
                    &&& base_len <= advance_idx < appended.len()
                    &&& is_advance_ratchet_action(appended[advance_idx], added)
                    &&& (match pre.media_send_key_rotation_state {
                        KeyRotationState::Pending { secret, .. } => {
                            &&& advance_idx + 1 + added.len() <= appended.len()
                            &&& (forall|k: int|
                                0 <= k < added.len() ==> is_media_key_action(
                                    #[trigger] appended[advance_idx + 1 + k],
                                    added[k],
                                    pre.group_id@,
                                    local_demux_id,
                                    0,
                                    secret@,
                                ))
                        },
                        KeyRotationState::Applied => true,
                    })
                })
                &&& rotated_from_applied == (removed_any
                    && pre.media_send_key_rotation_state is Applied)
                &&& (rotated_from_applied ==> base_len <= sched_idx < appended.len()
                    && appended[sched_idx] == (Action::ScheduleApplyPendingSendKey {
                    delay_millis: 3000,
                }))
                &&& (if removed_any {
                    match pre.media_send_key_rotation_state {
                        KeyRotationState::Pending { secret, .. } => post
                            .media_send_key_rotation_state == (KeyRotationState::Pending {
                            secret,
                            needs_another_rotation: true,
                        }),
                        KeyRotationState::Applied => post.media_send_key_rotation_state matches
                            KeyRotationState::Pending { needs_another_rotation: false, .. },
                    }
                } else {
                    post.media_send_key_rotation_state == pre.media_send_key_rotation_state
                })
                &&& post == (Client {
                    media_send_key_rotation_state: post.media_send_key_rotation_state,
                    ..pre
                })
            }),
    {
        let ghost base_len = actions@.len() as int;
        let ghost views = crate::device::device_views(self.remote_devices@);
        let ghost mut sched_idx: int = 0;
        let ghost mut demux_changed_idx: int = 0;
        let ghost mut advance_idx: int = 0;
        let ghost mut update_pcd_idx: int = 0;
        let mut rotated_from_applied = false;
        let mut added_any = false;
        let mut update_pcd_any = false;
        if ids_changed {
            if self.sfu_info.is_some() {
                let remote_demux_ids = roster_demux_ids(&self.remote_devices);
                proof {
                    assert(remote_demux_ids@.to_set() =~= spec_demux_id_set(views)) by {
                        assert(remote_demux_ids@ =~= views.map_values(
                            |d: crate::device::RemoteDeviceStateView| d.demux_id,
                        ));
                    }
                }
                let keys = match &self.dhe_state {
                    DheState::Negotiated { srtp_keys } => clone_srtp_keys(srtp_keys),
                    _ => SrtpKeys::from_master_key_material(&[0u8; 56]),
                };
                actions.push(
                    Action::UpdatePeerConnectionDescriptions {
                        local_demux_id,
                        remote_demux_ids,
                        srtp_keys: keys,
                    },
                );
                update_pcd_any = true;
                proof {
                    update_pcd_idx = actions@.len() - 1;
                    assert(is_update_descriptions_action(
                        actions@[update_pcd_idx],
                        local_demux_id,
                        spec_demux_id_set(views),
                        old(self).dhe_state,
                    ));
                }
            }
            actions.push(
                Action::HandleRemoteDevicesChanged {
                    reason: RemoteDevicesChangedReason::DemuxIdsChanged,
                },
            );
            proof {
                demux_changed_idx = actions@.len() - 1;
            }
        }
        let ghost b1 = actions@;
        let added_users = added_device_users(&self.remote_devices, old_id_set);
        if added_users.len() > 0 {
            let pending_secret = match self.media_send_key_rotation_state {
                KeyRotationState::Pending { secret, .. } => Some(secret),
                KeyRotationState::Applied => None,
            };
            let users_for_pending = peek::clone_user_ids(&added_users);
            actions.push(Action::AdvanceSendRatchet { distribute_to: added_users });
            added_any = true;
            proof {
                advance_idx = actions@.len() - 1;
            }
            if let Some(secret) = pending_secret {
                self.send_media_key_to_users(
                    &users_for_pending,
                    local_demux_id,
                    0,
                    secret,
                    actions,
                );
                proof {
                    let added = spec_added_device_users(views, old_id_set@);
                    assert forall|k: int| 0 <= k < added.len() implies is_media_key_action(
                        #[trigger] actions@[advance_idx + 1 + k],
                        added[k],
                        self.group_id@,
                        local_demux_id,
                        0,
                        secret@,
                    ) by {
                        assert(peek::user_seq(users_for_pending@)[k] == users_for_pending@[k]@);
                        assert(is_media_key_action(
                            actions@[(advance_idx + 1) + k],
                            users_for_pending@[k]@,
                            self.group_id@,
                            local_demux_id,
                            0,
                            secret@,
                        ));
                    }
                }
            }
        }
        let ghost b2 = actions@;
        proof {
            assert forall|i: int|
                base_len <= i < b2.len() implies !((#[trigger] b2[i]) is HandlePeekChanged) && (
                b2[i] is AdvanceSendRatchet ==> added_any && i == advance_idx) by {
                if i < b1.len() {
                    assert(b2[i] == b1[i]);
                } else if added_any && i > advance_idx {
                    let added = spec_added_device_users(views, old_id_set@);
                    assert(b2[advance_idx + 1 + (i - advance_idx - 1)] == b2[i]);
                }
            }
        }
        rotated_from_applied = removed_any && match self.media_send_key_rotation_state {
            KeyRotationState::Applied => true,
            _ => false,
        };
        let ghost roster_at_rotate = self.remote_devices@;
        if removed_any {
            self.rotate_media_send_key_and_send_to_users_not_removed(actions);
        }
        proof {
            sched_idx = actions@.len() - 1;
            let b3 = actions@;
            if rotated_from_applied {
                assert(b3[sched_idx] == (Action::ScheduleApplyPendingSendKey {
                    delay_millis: 3000,
                }));
            }
            assert forall|j: int| 0 <= j < b2.len() implies #[trigger] b3[j] == b2[j] by {}
            assert forall|i: int|
                base_len <= i < b3.len() implies !((#[trigger] b3[i]) is HandlePeekChanged) && (
                b3[i] is AdvanceSendRatchet ==> added_any && i == advance_idx) by {
                if i < b2.len() {
                    assert(b3[i] == b2[i]);
                } else {
                    assert(rotated_from_applied);
                    if i == b3.len() - 1 {
                        assert(b3[i] == (Action::ScheduleApplyPendingSendKey {
                            delay_millis: 3000,
                        }));
                    } else {
                        let k = i - b2.len();
                        assert(0 <= k < spec_unique_device_users(roster_at_rotate).len());
                        assert(b3[b2.len() + k] == b3[i]);
                    }
                }
            }
            if update_pcd_any {
                assert(b3[update_pcd_idx] == b1[update_pcd_idx]);
            }
            if ids_changed {
                assert(b3[demux_changed_idx] == b1[demux_changed_idx]);
                assert(b1[demux_changed_idx] == (Action::HandleRemoteDevicesChanged {
                    reason: RemoteDevicesChangedReason::DemuxIdsChanged,
                }));
            }
            if added_any {
                assert(b3[advance_idx] == b2[advance_idx]);
                match old(self).media_send_key_rotation_state {
                    KeyRotationState::Pending { secret, .. } => {
                        let added = spec_added_device_users(views, old_id_set@);
                        assert forall|k: int| 0 <= k < added.len() implies is_media_key_action(
                            #[trigger] b3[advance_idx + 1 + k],
                            added[k],
                            old(self).group_id@,
                            local_demux_id,
                            0,
                            secret@,
                        ) by {
                            assert(b3[advance_idx + 1 + k] == b2[advance_idx + 1 + k]);
                        }
                    },
                    KeyRotationState::Applied => {},
                }
            }
        }
        Ghost(
            (
                update_pcd_idx,
                advance_idx,
                sched_idx,
                update_pcd_any,
                added_any,
                rotated_from_applied,
            ),
        )
    }

    /// An in-band speaker notice from the SFU: samples older than the last
    /// one are dropped; a newer one marks the named device as speaking now,
    /// unless it is unknown or already the latest speaker.
    pub fn handle_speaker_received(&mut self, now: u64, timestamp: u32, demux_id: DemuxId) -> (actions: Vec<Action>)
        ensures
            speaker_transition(*old(self), *final(self), now, timestamp, demux_id, actions@),
    {
        let mut actions: Vec<Action> = Vec::new();
        let stale = match self.speaker_rtp_timestamp {
            Some(t) => timestamp <= t,
            None => false,
        };
        if stale {
            return actions;
        }
        self.speaker_rtp_timestamp = Some(timestamp);
        let latest = self.remote_devices.latest_speaker_demux_id();
        let ghost views = crate::device::device_views(self.remote_devices@);
        proof {
            lemma_first_demux_index_char(views, demux_id);
            assert forall|k: int| 0 <= k < views.len() implies (#[trigger] views[k]).demux_id
                == self.remote_devices@[k].demux_id by {}
        }
        match self.remote_devices.index_of_demux_id(demux_id) {
            Some(j) => {
                proof {
                    let si = spec_first_demux_index(views, demux_id);
                    if si >= 0 && si < j as int {
                        assert(views[si].demux_id == self.remote_devices@[si].demux_id);
                    }
                    assert(si == j as int);
                }
                let already_latest = match latest {
                    Some(d) => d == demux_id,
                    None => false,
                };
                proof {
                    lemma_latest_speaker_index_unique(self.remote_devices);
                    if !already_latest {
                        if exists|k: int|
                            #[trigger] self.remote_devices.is_latest_speaker_index(k)
                                && self.remote_devices@[k].demux_id == demux_id
                                && self.remote_devices@[k].speaker_time is Some {
                            let k = choose|k: int|
                                #[trigger] self.remote_devices.is_latest_speaker_index(k)
                                    && self.remote_devices@[k].demux_id == demux_id
                                    && self.remote_devices@[k].speaker_time is Some;
                            match latest {
                                Some(d) => {
                                    let m = choose|m: int|
                                        #[trigger] self.remote_devices.is_latest_speaker_index(m)
                                            && self.remote_devices@[m].demux_id == d
                                            && self.remote_devices@[m].speaker_time is Some;
                                    assert(m == k);
                                },
                                None => {
                                    assert(self.remote_devices@[k].speaker_time is None);
                                },
                            }
                        }
                    }
                }
                if already_latest {
                    return actions;
                }
                self.remote_devices.0[j].speaker_time = Some(now);
                actions.push(
                    Action::HandleRemoteDevicesChanged {
                        reason: RemoteDevicesChangedReason::SpeakerTimeChanged(demux_id),
                    },
                );
                proof {
                    assert(crate::device::device_views(self.remote_devices@) =~= views.update(
                        j as int,
                        crate::device::RemoteDeviceStateView {
                            speaker_time: Some(now),
                            ..views[j as int]
                        },
                    ));
                }
            },
            None => {},
        }
        actions
    }

    /// A heartbeat from a remote device: out-of-order samples are dropped by
    /// RTP timestamp; a change of the reported state is recorded and
    /// reported, and video muting clears what we had decoded.
    pub fn handle_heartbeat_received(
        &mut self,
        demux_id: DemuxId,
        timestamp: u32,
        heartbeat: HeartbeatState,
    ) -> (actions: Vec<Action>)
        ensures
            heartbeat_transition(
                *old(self),
                *final(self),
                demux_id,
                timestamp,
                heartbeat,
                actions@,
            ),
    {
        let mut actions: Vec<Action> = Vec::new();
        let ghost views = crate::device::device_views(self.remote_devices@);
        proof {
            lemma_first_demux_index_char(views, demux_id);
            assert forall|k: int| 0 <= k < views.len() implies (#[trigger] views[k]).demux_id
                == self.remote_devices@[k].demux_id by {}
        }
        match self.remote_devices.index_of_demux_id(demux_id) {
            Some(j) => {
                proof {
                    let si = spec_first_demux_index(views, demux_id);
                    if si >= 0 && si < j as int {
                        assert(views[si].demux_id == self.remote_devices@[si].demux_id);
                    }
                    assert(si == j as int);
                }
                let last: u32 = match self.remote_devices.0[j].heartbeat_rtp_timestamp {
                    Some(t) => t,
                    None => 0,
                };
                if timestamp > last {
                    self.remote_devices.0[j].heartbeat_rtp_timestamp = Some(timestamp);
                    if !(self.remote_devices.0[j].heartbeat_state == heartbeat) {
                        if heartbeat.video_muted == Some(true) {
                            self.remote_devices.0[j].client_decoded_height = None;
                            self.remote_devices.0[j].recalculate_higher_resolution_pending();
                        }
                        self.remote_devices.0[j].heartbeat_state = heartbeat;
                        actions.push(
                            Action::HandleRemoteDevicesChanged {
                                reason: RemoteDevicesChangedReason::HeartbeatStateChanged(demux_id),
                            },
                        );
                        proof {
                            let e = views[j as int];
                            let mutes_video = heartbeat.video_muted == Some(true);
                            assert(crate::device::device_views(self.remote_devices@)
                                =~= views.update(
                                j as int,
                                crate::device::RemoteDeviceStateView {
                                    heartbeat_rtp_timestamp: Some(timestamp),
                                    heartbeat_state: heartbeat,
                                    client_decoded_height: if mutes_video {
                                        Option::<u32>::None
                                    } else {
                                        e.client_decoded_height
                                    },
                                    is_higher_resolution_pending: if mutes_video {
                                        e.server_allocated_height > 0
                                    } else {
                                        e.is_higher_resolution_pending
                                    },
                                    ..e
                                },
                            ));
                        }
                    } else {
                        proof {
                            assert(crate::device::device_views(self.remote_devices@)
                                =~= views.update(
                                j as int,
                                crate::device::RemoteDeviceStateView {
                                    heartbeat_rtp_timestamp: Some(timestamp),
                                    ..views[j as int]
                                },
                            ));
                        }
                    }
                }
            },
            None => {},
        }
        actions
    }

    /// A device said it is leaving: mark it once, peek now, and peek again a
    /// little later in case the SFU is behind.
    pub fn handle_leaving_received(&mut self, now: u64, demux_id: DemuxId) -> (actions: Vec<Action>)
        ensures
            leaving_transition(*old(self), *final(self), now, demux_id, actions@),
    {
        let mut actions: Vec<Action> = Vec::new();
        let ghost views = crate::device::device_views(self.remote_devices@);
        proof {
            lemma_first_demux_index_char(views, demux_id);
            assert forall|k: int| 0 <= k < views.len() implies (#[trigger] views[k]).demux_id
                == self.remote_devices@[k].demux_id by {}
        }
        match self.remote_devices.index_of_demux_id(demux_id) {
            Some(j) => {
                proof {
                    let si = spec_first_demux_index(views, demux_id);
                    if si >= 0 && si < j as int {
                        assert(views[si].demux_id == self.remote_devices@[si].demux_id);
                    }
                    assert(si == j as int);
                }
                if !self.remote_devices.0[j].leaving_received {
                    self.remote_devices.0[j].leaving_received = true;
                    self.request_remote_devices_as_soon_as_possible(now, &mut actions);
                    actions.push(Action::SchedulePeekAfterLeaving { delay_millis: 2000 });
                    proof {
                        assert(crate::device::device_views(self.remote_devices@) =~= views.update(
                            j as int,
                            crate::device::RemoteDeviceStateView {
                                leaving_received: true,
                                ..views[j as int]
                            },
                        ));
                        if crate::polling::spec_should_request_now(
                            old(self).remote_devices_request_state,
                            now,
                            0,
                        ) {
                            assert(actions@ =~= seq![Action::SfuPeek] + seq![
                                Action::SchedulePeekAfterLeaving { delay_millis: 2000 },
                            ]);
                        } else {
                            assert(actions@ =~= Seq::<Action>::empty() + seq![
                                Action::SchedulePeekAfterLeaving { delay_millis: 2000 },
                            ]);
                        }
                    }
                }
            },
            None => {},
        }
        actions
    }

    /// The SFU removed this device from the call: end with `RemovedFromCall`
    /// if we ever participated, else the join request was denied.
    pub fn handle_removed_received(&mut self) -> (actions: Vec<Action>)
        ensures
            old(self).has_ever_been_participating_client ==> end_transition(
                *old(self),
                *final(self),
                actions@,
                EndReason::RemovedFromCall,
            ),
            !old(self).has_ever_been_participating_client ==> end_transition(
                *old(self),
                *final(self),
                actions@,
                EndReason::DeniedRequestToJoinCall,
            ),
    {
        let mut actions: Vec<Action> = Vec::new();
        if self.has_ever_been_participating_client {
            self.end(EndReason::RemovedFromCall, &mut actions);
        } else {
            self.end(EndReason::DeniedRequestToJoinCall, &mut actions);
        }
        actions
    }

    /// The SFU said a device joined or left: refresh the roster soon.
    pub fn handle_remote_device_joined_or_left(&mut self, now: u64) -> (actions: Vec<Action>)
        ensures
            *final(self) == (Client {
                remote_devices_request_state: crate::polling::spec_request_state_after(
                    old(self).remote_devices_request_state,
                    now,
                    0,
                    true,
                ),
                ..*old(self)
            }),
            actions@ == (if crate::polling::spec_should_request_now(
                old(self).remote_devices_request_state,
                now,
                0,
            ) {
                seq![Action::SfuPeek]
            } else {
                Seq::<Action>::empty()
            }),
    {
        let mut actions: Vec<Action> = Vec::new();
        self.request_remote_devices_as_soon_as_possible(now, &mut actions);
        actions
    }

    /// The SFU's notice of which devices it forwards video from: when the
    /// set of (device, allocated height) pairs changed, update every roster
    /// entry's forwarding flag and allocated height (clearing the decoded
    /// height when not forwarding) and report the change once.
    pub fn handle_forwarding_video_received(
        &mut self,
        demux_ids_with_video: Vec<DemuxId>,
        allocated_heights: Vec<u32>,
    ) -> (actions: Vec<Action>)
        ensures
            forwarding_transition(
                *old(self),
                *final(self),
                demux_ids_with_video@,
                allocated_heights@,
                actions@,
            ),
    {
        let mut actions: Vec<Action> = Vec::new();
        let pairs = zip_forwarding(&demux_ids_with_video, &allocated_heights);
        if !pair_sets_equal(&pairs, &self.forwarding_videos) {
            let ghost views = crate::device::device_views(self.remote_devices@);
            let n = self.remote_devices.0.len();
            let mut k: usize = 0;
            while k < n
                invariant
                    n == self.remote_devices@.len(),
                    k <= n,
                    views == crate::device::device_views(old(self).remote_devices@),
                    n == views.len(),
                    *self == (Client { remote_devices: self.remote_devices, ..*old(self) }),
                    forall|j: int|
                        k <= j < n ==> #[trigger] self.remote_devices@[j] == old(
                            self,
                        ).remote_devices@[j],
                    forall|j: int|
                        0 <= j < k ==> (#[trigger] self.remote_devices@[j])@
                            == spec_forwarding_update(views[j], pairs@),
                decreases n - k,
            {
                let found = lookup_pair(&pairs, self.remote_devices.0[k].demux_id);
                let is_forwarding = found.is_some();
                self.remote_devices.0[k].forwarding_video = Some(is_forwarding);
                self.remote_devices.0[k].server_allocated_height = match found {
                    Some(h) => h,
                    None => 0,
                };
                if !is_forwarding {
                    self.remote_devices.0[k].client_decoded_height = None;
                }
                self.remote_devices.0[k].recalculate_higher_resolution_pending();
                k = k + 1;
            }
            self.forwarding_videos = pairs;
            actions.push(
                Action::HandleRemoteDevicesChanged {
                    reason: RemoteDevicesChangedReason::ForwardedVideosChanged,
                },
            );
        }
        actions
    }

    /// A signaling message from another device: a media key is installed or
    /// buffered (malformed ones — wrong secret length or an oversized
    /// ratchet counter — are dropped), and an unknown sender triggers a
    /// peek; a leaving notice for this group marks the device as leaving.
    pub fn on_signaling_message_received(
        &mut self,
        now: u64,
        sender_user_id: UserId,
        message: DeviceToDevice,
    ) -> (actions: Vec<Action>)
        ensures
            ({
                let pre = *old(self);
                let post = *final(self);
                match message.media_key {
                    Some(mk) => (match (mk.demux_id, mk.ratchet_counter, mk.secret) {
                        (Some(d), Some(rc), Some(s)) => {
                            let wellformed = s@.len() == 32 && rc <= 255;
                            let known = seq_contains_demux(pre.remote_devices@, d);
                            let peek: int = if !known
                                && crate::polling::spec_should_request_now(
                                pre.remote_devices_request_state,
                                now,
                                0,
                            ) {
                                1int
                            } else {
                                0
                            };
                            &&& post.remote_devices_request_state == (if known {
                                pre.remote_devices_request_state
                            } else {
                                crate::polling::spec_request_state_after(
                                    pre.remote_devices_request_state,
                                    now,
                                    0,
                                    true,
                                )
                            })
                            &&& (peek == 1 ==> actions@.len() >= 1 && actions@.last()
                                == Action::SfuPeek)
                            &&& (wellformed ==> exists|secret: [u8; 32]|
                                #![auto]
                                secret@ == s@ && add_receive_key_transition(
                                    pre,
                                    Client {
                                        remote_devices_request_state:
                                        pre.remote_devices_request_state,
                                        ..post
                                    },
                                    sender_user_id@,
                                    d,
                                    rc as u8,
                                    secret,
                                    Seq::empty(),
                                    actions@.take(actions@.len() - peek),
                                ))
                            &&& (!wellformed ==> Client {
                                remote_devices_request_state: pre.remote_devices_request_state,
                                ..post
                            } == pre && actions@.take(actions@.len() - peek)
                                == Seq::<Action>::empty())
                        },
                        _ => post == pre && actions@ == Seq::<Action>::empty(),
                    }),
                    None => (match (message.group_id, message.leaving) {
                        (Some(g), Some(l)) => (g@ != pre.group_id@ || l.demux_id is None) ==> post
                            == pre && actions@ == Seq::<Action>::empty(),
                        _ => post == pre && actions@ == Seq::<Action>::empty(),
                    }),
                }
            }),
    {
        let mut actions: Vec<Action> = Vec::new();
        let ghost sender_view = sender_user_id@;
        match &message.media_key {
            Some(mk) => {
                match (&mk.demux_id, &mk.ratchet_counter, &mk.secret) {
                    (Some(sender_demux_id), Some(ratchet_counter), Some(secret_bytes)) => {
                        let sender_demux_id = *sender_demux_id;
                        // The device's being known cannot change while the key
                        // is installed, so the check may come first.
                        let known = self.remote_devices.find_by_demux_id(
                            sender_demux_id,
                        ).is_some();
                        let wellformed = secret_bytes.len() == 32 && *ratchet_counter <= 255;
                        let ghost mut wit: [u8; 32] = arbitrary();
                        if wellformed {
                            let mut secret = [0u8; 32];
                            let mut i: usize = 0;
                            while i < 32
                                invariant
                                    i <= 32,
                                    secret_bytes@.len() == 32,
                                    forall|j: int| 0 <= j < i ==> secret@[j] == secret_bytes@[j],
                                decreases 32 - i,
                            {
                                secret[i] = secret_bytes[i];
                                i = i + 1;
                            }
                            proof {
                                wit = secret;
                                assert(wit@ =~= secret_bytes@);
                            }
                            self.add_media_receive_key_or_store_for_later(
                                sender_user_id,
                                sender_demux_id,
                                *ratchet_counter as u8,
                                secret,
                                &mut actions,
                            );
                        }
                        let ghost after_add = actions@;
                        let ghost rc_val = *ratchet_counter;
                        if !known {
                            self.request_remote_devices_as_soon_as_possible(now, &mut actions);
                        }
                        proof {
                            assert(actions@.take(after_add.len() as int) =~= after_add);
                            if wellformed {
                                assert(wit@ == secret_bytes@ && add_receive_key_transition(
                                    *old(self),
                                    Client {
                                        remote_devices_request_state:
                                        old(self).remote_devices_request_state,
                                        ..*self
                                    },
                                    sender_view,
                                    sender_demux_id,
                                    rc_val as u8,
                                    wit,
                                    Seq::empty(),
                                    after_add,
                                ));
                            }
                        }
                    },
                    _ => {},
                }
            },
            None => {
                match (&message.group_id, &message.leaving) {
                    (Some(group_id), Some(leaving)) => {
                        let same_group = group_id == &self.group_id;
                        proof {
                            if same_group {
                                assert(group_id@ =~= self.group_id@);
                            } else {
                                if group_id@ == self.group_id@ {
                                    assert(*group_id =~= self.group_id);
                                }
                            }
                        }
                        if same_group {
                            if let Some(leaving_demux_id) = leaving.demux_id {
                                let leave_actions = self.handle_leaving_received(
                                    now,
                                    leaving_demux_id,
                                );
                                let mut leave_actions = leave_actions;
                                actions.append(&mut leave_actions);
                            }
                        }
                    },
                    _ => {},
                }
            },
        }
        actions
    }

    /// An SFU control message from the reserved SSRC: dispatch the speaker
    /// notice, the joined-or-left nudge, the forwarding update, and the
    /// removal, in that order.
    pub fn handle_sfu_to_device(
        &mut self,
        now: u64,
        header_timestamp: u32,
        message: crate::protocol::SfuToDevice,
    ) -> (actions: Vec<Action>)
        ensures
            sfu_to_device_transition(
                *old(self),
                *final(self),
                now,
                header_timestamp,
                message,
                actions@,
            ),
    {
        let mut actions: Vec<Action> = Vec::new();
        if let Some(speaker) = &message.speaker {
            if let Some(speaker_demux_id) = speaker.demux_id {
                let mut a = self.handle_speaker_received(now, header_timestamp, speaker_demux_id);
                let ghost av = a@;
                actions.append(&mut a);
                proof {
                    assert(actions@ =~= av);
                }
            }
        }
        let ghost mid1 = *self;
        let ghost k1 = actions@.len() as int;
        let ghost s1 = actions@;
        if message.device_joined_or_left {
            let mut a = self.handle_remote_device_joined_or_left(now);
            let ghost av = a@;
            actions.append(&mut a);
            proof {
                assert(actions@.skip(k1) =~= av);
                assert(actions@.take(k1) =~= s1);
            }
        }
        let ghost mid2 = *self;
        let ghost k2 = actions@.len() as int;
        let ghost s2 = actions@;
        let current_devices = message.current_devices;
        if let Some(current) = current_devices {
            let mut a = self.handle_forwarding_video_received(
                current.demux_ids_with_video,
                current.allocated_heights,
            );
            let ghost av = a@;
            actions.append(&mut a);
            proof {
                assert(actions@.skip(k2) =~= av);
                assert(actions@.take(k2) =~= s2);
            }
        }
        let ghost mid3 = *self;
        let ghost k3 = actions@.len() as int;
        let ghost s3 = actions@;
        if message.removed {
            let mut a = self.handle_removed_received();
            let ghost av = a@;
            actions.append(&mut a);
            proof {
                assert(actions@.skip(k3) =~= av);
                assert(actions@.take(k3) =~= s3);
            }
        }
        proof {
            assert(dispatch_witness(mid1, mid2, mid3, k1, k2, k3));
            assert(actions@.take(k1) =~= s1);
            assert(actions@.subrange(k1, k2) =~= s2.skip(k1));
            assert(actions@.subrange(k2, k3) =~= s3.subrange(k2, k3));
            assert(s3.subrange(k2, k3) =~= s3.skip(k2));
            assert(actions@.skip(k3) =~= actions@.skip(k3));
            if !message.removed {
                assert(actions@.skip(k3) =~= Seq::<Action>::empty());
            }
        }
        actions
    }

    /// Decrypted device-to-device data from a peer over RTP: heartbeats and
    /// leaving notices are handled (`None` stands for a payload that failed
    /// to decrypt or decode), and an unknown sender always triggers a peek.
    pub fn handle_peer_rtp_received(
        &mut self,
        now: u64,
        sender_demux_id: DemuxId,
        header_timestamp: u32,
        message: Option<DeviceToDevice>,
    ) -> (actions: Vec<Action>)
        ensures
            peer_rtp_transition(
                *old(self),
                *final(self),
                now,
                sender_demux_id,
                header_timestamp,
                message,
                actions@,
            ),
            !seq_contains_demux(old(self).remote_devices@, sender_demux_id) && (message matches
                Some(m) ==> m.heartbeat is None && m.leaving is None) ==> *final(self) == (Client {
                remote_devices_request_state: crate::polling::spec_request_state_after(
                    old(self).remote_devices_request_state,
                    now,
                    0,
                    true,
                ),
                ..*old(self)
            }),
    {
        let mut actions: Vec<Action> = Vec::new();
        let ghost mut k1: int = 0;
        let ghost mut s1: Seq<Action> = actions@;
        let ghost mut mid1: Client = *self;
        if let Some(msg) = &message {
            if let Some(heartbeat) = msg.heartbeat {
                let mut a = self.handle_heartbeat_received(
                    sender_demux_id,
                    header_timestamp,
                    heartbeat,
                );
                let ghost av = a@;
                actions.append(&mut a);
                proof {
                    assert(actions@ =~= av);
                }
            }
            proof {
                k1 = actions@.len() as int;
                s1 = actions@;
                mid1 = *self;
            }
            if msg.leaving.is_some() {
                let mut a = self.handle_leaving_received(now, sender_demux_id);
                let ghost av = a@;
                actions.append(&mut a);
                proof {
                    assert(actions@.skip(k1) =~= av);
                    assert(actions@.take(k1) =~= s1);
                }
            }
        } else {
            proof {
                k1 = 0;
                s1 = actions@;
                mid1 = *self;
            }
        }
        let ghost mid2 = *self;
        let ghost k2 = actions@.len() as int;
        let ghost s2 = actions@;
        let known = self.remote_devices.find_by_demux_id(sender_demux_id).is_some();
        if !known {
            self.request_remote_devices_as_soon_as_possible(now, &mut actions);
        }
        proof {
            assert(dispatch_witness(mid1, mid2, mid2, k1, k2, k2));
            assert(actions@.take(k1) =~= s1);
            assert(actions@.subrange(k1, k2) =~= s2.skip(k1));
            assert(actions@.take(k2) =~= s2);
            if known {
                assert(actions@.skip(k2) =~= Seq::<Action>::empty());
            } else {
                if crate::polling::spec_should_request_now(
                    mid2.remote_devices_request_state,
                    now,
                    0,
                ) {
                    assert(actions@.skip(k2) =~= seq![Action::SfuPeek]);
                } else {
                    assert(actions@.skip(k2) =~= Seq::<Action>::empty());
                }
            }
        }
        actions
    }

    /// A decoded video frame arrived at some height: remember it and report
    /// when that flips whether a higher resolution is still pending. A frame
    /// racing a video mute is ignored.
    pub fn handle_incoming_video_frame_height(&mut self, track_demux_id: DemuxId, height: u32) -> (actions: Vec<Action>)
        ensures
            ({
                let pre = *old(self);
                let post = *final(self);
                let views = crate::device::device_views(pre.remote_devices@);
                let i = spec_first_demux_index(views, track_demux_id);
                if i < 0 || views[i].client_decoded_height == Some(height)
                    || views[i].heartbeat_state.video_muted == Some(true) {
                    post == pre && actions@ == Seq::<Action>::empty()
                } else {
                    let was_pending = views[i].is_higher_resolution_pending;
                    let now_pending = views[i].server_allocated_height > height;
                    &&& crate::device::device_views(post.remote_devices@) == views.update(
                        i,
                        crate::device::RemoteDeviceStateView {
                            client_decoded_height: Some(height),
                            is_higher_resolution_pending: now_pending,
                            ..views[i]
                        },
                    )
                    &&& post == (Client { remote_devices: post.remote_devices, ..pre })
                    &&& actions@ == (if was_pending != now_pending {
                        seq![
                            Action::HandleRemoteDevicesChanged {
                                reason: RemoteDevicesChangedReason::HigherResolutionPendingChanged,
                            },
                        ]
                    } else {
                        Seq::empty()
                    })
                }
            }),
    {
        let mut actions: Vec<Action> = Vec::new();
        let ghost views = crate::device::device_views(self.remote_devices@);
        proof {
            lemma_first_demux_index_char(views, track_demux_id);
            assert forall|k: int| 0 <= k < views.len() implies (#[trigger] views[k]).demux_id
                == self.remote_devices@[k].demux_id by {}
        }
        match self.remote_devices.index_of_demux_id(track_demux_id) {
            Some(j) => {
                proof {
                    let si = spec_first_demux_index(views, track_demux_id);
                    if si >= 0 && si < j as int {
                        assert(views[si].demux_id == self.remote_devices@[si].demux_id);
                    }
                    assert(si == j as int);
                }
                let same = self.remote_devices.0[j].client_decoded_height == Some(height);
                let muted = self.remote_devices.0[j].heartbeat_state.video_muted == Some(true);
                if !same && !muted {
                    self.remote_devices.0[j].client_decoded_height = Some(height);
                    let was_pending = self.remote_devices.0[j].is_higher_resolution_pending;
                    self.remote_devices.0[j].recalculate_higher_resolution_pending();
                    if self.remote_devices.0[j].is_higher_resolution_pending != was_pending {
                        actions.push(
                            Action::HandleRemoteDevicesChanged {
                                reason:
                                RemoteDevicesChangedReason::HigherResolutionPendingChanged,
                            },
                        );
                    }
                    proof {
                        assert(crate::device::device_views(self.remote_devices@) =~= views.update(
                            j as int,
                            crate::device::RemoteDeviceStateView {
                                client_decoded_height: Some(height),
                                is_higher_resolution_pending: views[j as int].server_allocated_height
                                    > height,
                                ..views[j as int]
                            },
                        ));
                    }
                }
            },
            None => {},
        }
        actions
    }

    /// The SFU answered the join request. A failure ends the call. Success
    /// (while connecting and joining) completes the Diffie-Hellman exchange,
    /// starts the transport with the derived keys, sets the all-alone send
    /// rate, becomes joined under the assigned demux id, replays the last
    /// peek to seed the roster, decides ring permission from the creator
    /// (deriving the ring id from the era), peeks again, and arms the
    /// statistics timer.
    pub fn on_sfu_client_joined(
        &mut self,
        now: u64,
        self_user_id: Option<UserId>,
        joined: Result<Joined, u32>,
    ) -> (actions: Vec<Action>)
        ensures
            (joined matches Err(_)) ==> end_transition(
                *old(self),
                *final(self),
                actions@,
                EndReason::SfuClientFailedToJoin,
            ),
            joined matches Ok(j) ==> sfu_joined_transition(
                *old(self),
                *final(self),
                j,
                self_user_id,
                now,
                actions@,
            ),
    {
        let mut actions: Vec<Action> = Vec::new();
        let j = match joined {
            Err(_) => {
                self.end(EndReason::SfuClientFailedToJoin, &mut actions);
                return actions;
            },
            Ok(j) => j,
        };
        let connecting = match self.connection_state {
            ConnectionState::Connecting => true,
            _ => false,
        };
        let joining = match self.join_state {
            JoinState::Joining => true,
            _ => false,
        };
        if !(connecting && joining) {
            // Joined before connect() or join(), or a second time: ignored
            // with a warning, as a duplicated transition.
            return actions;
        }
        let server_pub_key = crate::srtp::public_key_from_bytes(j.server_dhe_pub_key);
        self.dhe_state.negotiate_in_place(&server_pub_key, j.hkdf_extra_info.as_slice());
        let keys = match &self.dhe_state {
            DheState::Negotiated { srtp_keys } => clone_srtp_keys(srtp_keys),
            _ => {
                // The exchange had been started by join(), so negotiation
                // cannot have been skipped; end defensively all the same.
                self.end(EndReason::FailedToNegotiatedSrtpKeys, &mut actions);
                return actions;
            },
        };
        let ghost idx_start: int = actions@.len() as int;
        actions.push(
            Action::StartPeerConnection { local_demux_id: j.local_demux_id, srtp_keys: keys },
        );
        let all_alone = SendRates {
            min: None,
            start: None,
            max: Some(DataRate::from_kbps(crate::rates::ALL_ALONE_MAX_SEND_RATE_KBPS)),
        };
        self.set_send_rates_inner(all_alone, &mut actions);
        let ghost s_rates = actions@;
        self.sfu_info = Some(j.sfu_info);
        self.join_state = JoinState::Joined(j.local_demux_id);
        let replay = match &self.last_peek_info {
            Some(info) => Some(peek::clone_peek_info(info)),
            None => None,
        };
        let ghost before_replay = actions@;
        let ghost mid_replay = *self;
        if let Some(info) = replay {
            let ghost replay_view = info@;
            let ghost replay_devices = info.devices@;
            let mut a = self.set_peek_result(now, Ok(info));
            let was_empty = self.remote_devices.is_empty();
            let ghost av = a@;
            actions.append(&mut a);
            proof {
                assert(actions@.take(before_replay.len() as int) =~= before_replay);
                match old(self).last_peek_info {
                    Some(prior) => {
                        assert(peek::user_seq(self.joined_members@)
                            == crate::peek::spec_unique_users(replay_devices));
                        peek::lemma_unique_users_by_views(replay_devices, prior.devices@);
                        assert(peek::user_seq(self.joined_members@)
                            == crate::peek::spec_unique_users(prior.devices@));
                    },
                    None => {},
                }
            }
            if was_empty {
                actions.push(
                    Action::HandleRemoteDevicesChanged {
                        reason: RemoteDevicesChangedReason::DemuxIdsChanged,
                    },
                );
            }
        }
        proof {
            assert(self.join_state == JoinState::Joined(j.local_demux_id));
        }
        let ghost idx_join_changed: int = actions@.len() as int;
        actions.push(
            Action::HandleJoinStateChanged { join_state: JoinState::Joined(j.local_demux_id) },
        );
        if j.creator.is_some() {
            let creator_is_self = match (&j.creator, &self_user_id) {
                (Some(c), Some(u)) => {
                    let eq = c == u;
                    proof {
                        if eq {
                            assert(c@ =~= u@);
                        } else {
                            if c@ == u@ {
                                assert(*c =~= *u);
                            }
                        }
                    }
                    eq
                },
                _ => false,
            };
            let new_ring_state = if creator_is_self {
                OutgoingRingState::PermittedToRing {
                    ring_id: RingId::from_era_id(j.era_id.as_str()),
                }
            } else {
                OutgoingRingState::NotPermittedToRing
            };
            let mut previous = new_ring_state;
            core::mem::swap(&mut self.outgoing_ring_state, &mut previous);
            if let OutgoingRingState::WantsToRing { recipient } = previous {
                let mut a = self.ring(recipient);
                actions.append(&mut a);
            }
        }
        let ghost before_asap = actions@;
        self.request_remote_devices_as_soon_as_possible(now, &mut actions);
        let ghost asap_pushed = actions@.len() > before_asap.len();
        self.next_stats_time = Some(now.saturating_add(STATS_INITIAL_OFFSET_MILLIS));
        let ghost idx_conf: int = actions@.len() as int;
        actions.push(Action::ConfigureAudioEncoders { data_mode: self.data_mode });
        proof {
            assert(actions@[idx_conf] == (Action::ConfigureAudioEncoders {
                data_mode: old(self).data_mode,
            }));
            assert(actions@[idx_join_changed] == (Action::HandleJoinStateChanged {
                join_state: JoinState::Joined(j.local_demux_id),
            }));
            assert forall|x: int| 0 <= x < s_rates.len() implies #[trigger] actions@[x]
                == s_rates[x] by {
                if x < before_replay.len() {
                    assert(actions@.take(before_replay.len() as int)[x] == actions@[x]);
                }
            }
            assert(actions@[0] == s_rates[0]);
            assert(is_start_peer_connection_action(
                actions@[0],
                j.local_demux_id,
                self.dhe_state,
            ));
            assert(actions@.subrange(1, s_rates.len() as int) =~= spec_rate_actions(
                *old(self),
                spec_all_alone_rates(),
            ));
            if asap_pushed {
                let i = before_asap.len() as int;
                assert(actions@[i] == Action::SfuPeek);
            }
        }
        actions
    }

    /// Retry every buffered media receive key against the fresh roster.
    fn drain_pending_media_receive_keys(&mut self, actions: &mut Vec<Action>)
        ensures
            crate::device::device_views(final(self).remote_devices@) == spec_drain_roster(
                crate::device::device_views(old(self).remote_devices@),
                old(self).pending_media_receive_keys@,
            ),
            pending_key_views(final(self).pending_media_receive_keys@) == spec_drain_pending(
                crate::device::device_views(old(self).remote_devices@),
                old(self).pending_media_receive_keys@,
            ),
            *final(self) == (Client {
                remote_devices: final(self).remote_devices,
                pending_media_receive_keys: final(self).pending_media_receive_keys,
                ..*old(self)
            }),
            final(actions)@.len() >= old(actions)@.len(),
            forall|j: int|
                0 <= j < old(actions)@.len() ==> #[trigger] final(actions)@[j] == old(actions)@[j],
            ({
                let appended = final(actions)@;
                forall|j: int|
                    old(actions)@.len() <= j < appended.len() ==> !((#[trigger] appended[j])
                        is HandlePeekChanged) && !(appended[j] is AdvanceSendRatchet) && !(
                    appended[j] is HandleEnded)
            }),
    {
        let mut taken: Vec<PendingReceiveKey> = Vec::new();
        core::mem::swap(&mut self.pending_media_receive_keys, &mut taken);
        let ghost orig_roster = crate::device::device_views(self.remote_devices@);
        let ghost orig_pending = taken@;
        let mut i: usize = 0;
        let n = taken.len();
        proof {
            assert(orig_pending.skip(0) =~= orig_pending);
            assert(pending_key_views(self.pending_media_receive_keys@) + spec_drain_pending(
                crate::device::device_views(self.remote_devices@),
                orig_pending.skip(0),
            ) =~= spec_drain_pending(orig_roster, orig_pending));
        }
        while i < n
            invariant
                n == orig_pending.len(),
                i <= n,
                taken@ == orig_pending,
                spec_drain_roster(
                    crate::device::device_views(self.remote_devices@),
                    orig_pending.skip(i as int),
                ) == spec_drain_roster(orig_roster, orig_pending),
                pending_key_views(self.pending_media_receive_keys@) + spec_drain_pending(
                    crate::device::device_views(self.remote_devices@),
                    orig_pending.skip(i as int),
                ) == spec_drain_pending(orig_roster, orig_pending),
                *self == (Client {
                    remote_devices: self.remote_devices,
                    pending_media_receive_keys: self.pending_media_receive_keys,
                    ..*old(self)
                }),
                actions@.len() >= old(actions)@.len(),
                forall|j: int|
                    0 <= j < old(actions)@.len() ==> #[trigger] actions@[j] == old(actions)@[j],
                forall|j: int|
                    old(actions)@.len() <= j < actions@.len() ==> !((#[trigger] actions@[j])
                        is HandlePeekChanged) && !(actions@[j] is AdvanceSendRatchet) && !(
                    actions@[j] is HandleEnded),
            decreases n - i,
        {
            let ghost remaining = orig_pending.skip(i as int);
            proof {
                assert(remaining.first() == orig_pending[i as int]);
                assert(remaining.drop_first() =~= orig_pending.skip(i + 1int));
            }
            let key = clone_pending_key(&taken[i]);
            let ghost pre_len = actions@.len();
            let ghost pre_roster = crate::device::device_views(self.remote_devices@);
            let ghost pre_pending = pending_key_views(self.pending_media_receive_keys@);
            self.add_media_receive_key_or_store_for_later(
                key.user_id,
                key.demux_id,
                key.ratchet_counter,
                key.secret,
                actions,
            );
            proof {
                let k = orig_pending[i as int];
                let idx = spec_first_demux_index(pre_roster, k.demux_id);
                if idx >= 0 {
                    if pre_roster[idx].user_id == k.user_id@ {
                        assert(pending_key_views(self.pending_media_receive_keys@)
                            =~= pre_pending);
                    } else {
                        assert(pending_key_views(self.pending_media_receive_keys@)
                            =~= pre_pending);
                    }
                } else {
                    assert(pending_key_views(self.pending_media_receive_keys@) =~= pre_pending
                        .push(k@));
                    assert(pre_pending.push(k@) + spec_drain_pending(
                        crate::device::device_views(self.remote_devices@),
                        orig_pending.skip(i + 1int),
                    ) =~= pre_pending + (seq![k@] + spec_drain_pending(
                        crate::device::device_views(self.remote_devices@),
                        orig_pending.skip(i + 1int),
                    )));
                }
            }
            i = i + 1;
        }
        proof {
            assert(orig_pending.skip(n as int) =~= Seq::<PendingReceiveKey>::empty());
            assert(pending_key_views(self.pending_media_receive_keys@) + Seq::<
                PendingKeyView,
            >::empty() =~= pending_key_views(self.pending_media_receive_keys@));
        }
    }

    /// Ask for the roster as soon as the dedup rules allow.
    fn request_remote_devices_as_soon_as_possible(&mut self, now: u64, actions: &mut Vec<Action>)
        ensures
            *final(self) == (Client {
                remote_devices_request_state: crate::polling::spec_request_state_after(
                    old(self).remote_devices_request_state,
                    now,
                    0,
                    true,
                ),
                ..*old(self)
            }),
            final(actions)@ == (if crate::polling::spec_should_request_now(
                old(self).remote_devices_request_state,
                now,
                0,
            ) {
                old(actions)@.push(Action::SfuPeek)
            } else {
                old(actions)@
            }),
    {
        self.maybe_request_remote_devices(now, 0, true, actions);
    }
}

} // verus!
