use vstd::prelude::*;
use crate::device::{DemuxId, HeartbeatState, UserId};
use crate::ring_id::RingId;

verus! {

/// Whether a signaling message should be handled even if the receiving app
/// is not running.
#[derive(Clone, Copy, Debug, PartialEq, Eq, Structural)]
pub enum SignalingMessageUrgency {
    Droppable,
    HandleImmediately,
}

/// The RTP payload type that carries control-plane messages.
pub const RTP_DATA_PAYLOAD_TYPE: u8 = 101;

/// Offset added to a device's demux id to get the SSRC it broadcasts
/// device-to-device data on.
pub const RTP_DATA_THROUGH_SFU_SSRC_OFFSET: u32 = 0xD;

/// The SSRC on which device-to-SFU control messages travel.
pub const RTP_DATA_TO_SFU_SSRC: u32 = 1;

/// The parts of an RTP header this engine reads and writes.
#[derive(Clone, Copy, Debug, PartialEq, Eq, Structural)]
pub struct RtpHeader {
    pub pt: u8,
    pub ssrc: u32,
    pub seqnum: u16,
    pub timestamp: u32,
}

/// A media key announcement, sent over signaling when the send ratchet
/// advances or rotates. Fields are optional on the wire.
#[derive(Clone, Debug, PartialEq, Eq)]
pub struct MediaKeyMessage {
    pub demux_id: Option<DemuxId>,
    pub ratchet_counter: Option<u32>,
    pub secret: Option<Vec<u8>>,
}

/// A device's announcement that it is leaving the call.
#[derive(Clone, Copy, Debug, PartialEq, Eq, Structural)]
pub struct LeavingMessage {
    pub demux_id: Option<DemuxId>,
}

/// A device-to-device message: over signaling (media keys, leaving) or
/// through the SFU on RTP (heartbeats, leaving).
#[derive(Clone, Debug, PartialEq, Eq)]
pub struct DeviceToDevice {
    pub group_id: Option<Vec<u8>>,
    pub media_key: Option<MediaKeyMessage>,
    pub heartbeat: Option<HeartbeatState>,
    pub leaving: Option<LeavingMessage>,
}

impl DeviceToDevice {
    pub fn empty() -> (r: Self)
        ensures
            r.group_id is None,
            r.media_key is None,
            r.heartbeat is None,
            r.leaving is None,
    {
        DeviceToDevice { group_id: None, media_key: None, heartbeat: None, leaving: None }
    }
}

/// One resolution request inside a `VideoRequestMessage`.
#[derive(Clone, Copy, Debug, PartialEq, Eq, Structural)]
pub struct VideoRequestProto {
    pub demux_id: DemuxId,
    pub height: u32,
}

/// The device-to-SFU request for video resolutions.
#[derive(Clone, Debug, PartialEq, Eq)]
pub struct VideoRequestMessage {
    pub requests: Vec<VideoRequestProto>,
    pub max_kbps: Option<u32>,
    pub active_speaker_height: Option<u32>,
}

/// An admin's action on another device, by demux id.
#[derive(Clone, Copy, Debug, PartialEq, Eq, Structural)]
pub enum AdminAction {
    Approve(DemuxId),
    Deny(DemuxId),
    Remove(DemuxId),
    Block(DemuxId),
}

/// A device-to-SFU control message.
#[derive(Clone, Debug, PartialEq, Eq)]
pub struct DeviceToSfu {
    pub video_request: Option<VideoRequestMessage>,
    pub leave: bool,
    pub admin_action: Option<AdminAction>,
}

impl DeviceToSfu {
    pub fn empty() -> (r: Self)
        ensures
            r.video_request is None,
            !r.leave,
            r.admin_action is None,
    {
        DeviceToSfu { video_request: None, leave: false, admin_action: None }
    }
}

/// The SFU's in-band announcement of the current speaker.
#[derive(Clone, Copy, Debug, PartialEq, Eq, Structural)]
pub struct SpeakerMessage {
    pub demux_id: Option<DemuxId>,
}

/// The SFU's in-band announcement of which devices it forwards video from,
/// with the heights it allocated, index for index.
#[derive(Clone, Debug, PartialEq, Eq)]
pub struct CurrentDevicesMessage {
    pub demux_ids_with_video: Vec<DemuxId>,
    pub allocated_heights: Vec<u32>,
}

/// An SFU-to-device control message.
#[derive(Clone, Debug, PartialEq, Eq)]
pub struct SfuToDevice {
    pub speaker: Option<SpeakerMessage>,
    pub device_joined_or_left: bool,
    pub current_devices: Option<CurrentDevicesMessage>,
    pub removed: bool,
}

/// Whether a ring intention starts or cancels a ring.
#[derive(Clone, Copy, Debug, PartialEq, Eq, Structural)]
pub enum RingIntentionKind {
    Ring,
    Cancelled,
}

/// A group-wide announcement of a ring, or of its cancellation.
#[derive(Clone, Debug, PartialEq, Eq)]
pub struct RingIntention {
    pub group_id: Vec<u8>,
    pub ring_id: RingId,
    pub kind: RingIntentionKind,
}

/// A response to a ring, sent to one's own other devices.
#[derive(Clone, Copy, Debug, PartialEq, Eq, Structural)]
pub enum RingResponseKind {
    Accepted,
}

#[derive(Clone, Debug, PartialEq, Eq)]
pub struct RingResponse {
    pub group_id: Vec<u8>,
    pub ring_id: RingId,
    pub kind: RingResponseKind,
}

/// A signaling-plane message to a user or a group.
#[derive(Clone, Debug, PartialEq, Eq)]
pub struct CallMessage {
    pub ring_intention: Option<RingIntention>,
    pub ring_response: Option<RingResponse>,
    pub group_call_message: Option<DeviceToDevice>,
}

impl CallMessage {
    /// A message carrying only a device-to-device payload.
    pub fn of_group_call_message(m: DeviceToDevice) -> (r: Self)
        ensures
            r.ring_intention is None,
            r.ring_response is None,
            r.group_call_message == Some(m),
    {
        CallMessage { ring_intention: None, ring_response: None, group_call_message: Some(m) }
    }
}

/// Where an inbound RTP packet is routed: SFU control on the reserved SSRC,
/// an encrypted device-to-device payload otherwise (the sender's demux id is
/// the SSRC less the broadcast offset), or dropped for an unknown payload
/// type.
#[derive(Clone, Copy, Debug, PartialEq, Eq, Structural)]
pub enum RtpRoute {
    SfuToDevice,
    DeviceToDevice { sender_demux_id: DemuxId },
    UnknownPayloadType,
}

pub open spec fn spec_route_rtp(header: RtpHeader) -> RtpRoute {
    if header.pt != 101 {
        RtpRoute::UnknownPayloadType
    } else if header.ssrc == 1 {
        RtpRoute::SfuToDevice
    } else {
        RtpRoute::DeviceToDevice {
            sender_demux_id: if header.ssrc >= 0xD {
                (header.ssrc - 0xD) as u32
            } else {
                0
            },
        }
    }
}

/// Classify an inbound RTP packet by payload type and SSRC.
pub fn route_rtp(header: &RtpHeader) -> (r: RtpRoute)
    ensures
        r == spec_route_rtp(*header),
{
    if header.pt != RTP_DATA_PAYLOAD_TYPE {
        RtpRoute::UnknownPayloadType
    } else if header.ssrc == RTP_DATA_TO_SFU_SSRC {
        RtpRoute::SfuToDevice
    } else {
        let sender_demux_id = if header.ssrc >= RTP_DATA_THROUGH_SFU_SSRC_OFFSET {
            header.ssrc - RTP_DATA_THROUGH_SFU_SSRC_OFFSET
        } else {
            0
        };
        RtpRoute::DeviceToDevice { sender_demux_id }
    }
}

} // verus!
