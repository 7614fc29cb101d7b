use vstd::prelude::*;
use vstd::multiset::Multiset;
use std::collections::HashSet;

verus! {

broadcast use vstd::std_specs::hash::group_hash_axioms;

/// SFU-assigned identifier for one device in a call; it routes media and
/// keys per-sender decryption state.
pub type DemuxId = u32;

/// Opaque byte string identifying a user (who may have several devices).
pub type UserId = Vec<u8>;

/// The mute/presentation flags a device reports in its heartbeats.
/// Unset fields have never been reported by that device.
#[derive(Clone, Copy, Debug, Eq)]
pub struct HeartbeatState {
    pub audio_muted: Option<bool>,
    pub video_muted: Option<bool>,
    pub presenting: Option<bool>,
    pub sharing_screen: Option<bool>,
}

impl HeartbeatState {
    pub open spec fn all_unset(self) -> bool {
        self.audio_muted is None && self.video_muted is None && self.presenting is None
            && self.sharing_screen is None
    }
}

impl Default for HeartbeatState {
    fn default() -> (r: Self)
        ensures
            r.all_unset(),
    {
        HeartbeatState {
            audio_muted: None,
            video_muted: None,
            presenting: None,
            sharing_screen: None,
        }
    }
}

impl PartialEq for HeartbeatState {
    fn eq(&self, other: &Self) -> (r: bool) {
        self.audio_muted == other.audio_muted && self.video_muted == other.video_muted
            && self.presenting == other.presenting && self.sharing_screen == other.sharing_screen
    }
}

impl vstd::std_specs::cmp::PartialEqSpecImpl for HeartbeatState {
    open spec fn obeys_eq_spec() -> bool {
        true
    }

    open spec fn eq_spec(&self, other: &Self) -> bool {
        *self == *other
    }
}

/// What this client knows about one remote device, merged from SFU peeks,
/// in-band SFU notifications, and the device's own heartbeats.
///
/// Times are unix milliseconds.
#[derive(Clone, Debug, PartialEq, Eq)]
pub struct RemoteDeviceState {
    pub demux_id: DemuxId,
    pub user_id: UserId,
    pub media_keys_received: bool,
    pub heartbeat_state: HeartbeatState,
    /// The latest RTP timestamp that updated `heartbeat_state`;
    /// older samples are dropped.
    pub heartbeat_rtp_timestamp: Option<u32>,
    /// When this device was added to the roster; with `demux_id` it gives a
    /// stable sort for a grid layout.
    pub added_time: u64,
    /// The most recent time this device became the primary speaker.
    pub speaker_time: Option<u64>,
    pub leaving_received: bool,
    pub forwarding_video: Option<bool>,
    pub server_allocated_height: u16,
    pub client_decoded_height: Option<u32>,
    pub is_higher_resolution_pending: bool,
}

/// The abstract value of a `RemoteDeviceState`: the same fields, with the
/// user id as a byte sequence.
pub ghost struct RemoteDeviceStateView {
    pub demux_id: DemuxId,
    pub user_id: Seq<u8>,
    pub media_keys_received: bool,
    pub heartbeat_state: HeartbeatState,
    pub heartbeat_rtp_timestamp: Option<u32>,
    pub added_time: u64,
    pub speaker_time: Option<u64>,
    pub leaving_received: bool,
    pub forwarding_video: Option<bool>,
    pub server_allocated_height: u16,
    pub client_decoded_height: Option<u32>,
    pub is_higher_resolution_pending: bool,
}

impl View for RemoteDeviceState {
    type V = RemoteDeviceStateView;

    open spec fn view(&self) -> RemoteDeviceStateView {
        RemoteDeviceStateView {
            demux_id: self.demux_id,
            user_id: self.user_id@,
            media_keys_received: self.media_keys_received,
            heartbeat_state: self.heartbeat_state,
            heartbeat_rtp_timestamp: self.heartbeat_rtp_timestamp,
            added_time: self.added_time,
            speaker_time: self.speaker_time,
            leaving_received: self.leaving_received,
            forwarding_video: self.forwarding_video,
            server_allocated_height: self.server_allocated_height,
            client_decoded_height: self.client_decoded_height,
            is_higher_resolution_pending: self.is_higher_resolution_pending,
        }
    }
}

/// The views of a roster.
pub open spec fn device_views(devs: Seq<RemoteDeviceState>) -> Seq<RemoteDeviceStateView> {
    devs.map_values(|d: RemoteDeviceState| d@)
}

/// Unix milliseconds of an optional time, zero when absent.
pub fn as_unix_millis(t: Option<u64>) -> (r: u64)
    ensures
        r == t.unwrap_or(0),
{
    match t {
        Some(t) => t,
        None => 0,
    }
}

impl RemoteDeviceState {
    /// Whether the pending flag agrees with the heights: higher resolution is
    /// pending exactly when the server allocated more than we have decoded.
    pub open spec fn higher_resolution_pending_ok(self) -> bool {
        self.is_higher_resolution_pending == (self.server_allocated_height
            > self.client_decoded_height.unwrap_or(0))
    }

    pub fn new(demux_id: DemuxId, user_id: UserId, added_time: u64) -> (r: Self)
        ensures
            r.demux_id == demux_id,
            r.user_id == user_id,
            r.added_time == added_time,
            !r.media_keys_received,
            r.heartbeat_state.all_unset(),
            r.heartbeat_rtp_timestamp is None,
            r.speaker_time is None,
            !r.leaving_received,
            r.forwarding_video is None,
            r.server_allocated_height == 0,
            r.client_decoded_height is None,
            !r.is_higher_resolution_pending,
    {
        RemoteDeviceState {
            demux_id,
            user_id,
            media_keys_received: false,
            heartbeat_state: Default::default(),
            heartbeat_rtp_timestamp: None,
            added_time,
            speaker_time: None,
            leaving_received: false,
            forwarding_video: None,
            server_allocated_height: 0,
            client_decoded_height: None,
            is_higher_resolution_pending: false,
        }
    }

    pub fn speaker_time_as_unix_millis(&self) -> (r: u64)
        ensures
            r == self.speaker_time.unwrap_or(0),
    {
        as_unix_millis(self.speaker_time)
    }

    pub fn added_time_as_unix_millis(&self) -> (r: u64)
        ensures
            r == self.added_time,
    {
        as_unix_millis(Some(self.added_time))
    }

    pub fn recalculate_higher_resolution_pending(&mut self)
        ensures
            *final(self) == (RemoteDeviceState {
                is_higher_resolution_pending: final(self).is_higher_resolution_pending,
                ..*old(self)
            }),
            final(self).higher_resolution_pending_ok(),
    {
        let decoded: u32 = match self.client_decoded_height {
            Some(h) => h,
            None => 0,
        };
        self.is_higher_resolution_pending = (self.server_allocated_height as u32) > decoded;
    }
}

/// Whether `a` spoke more recently than `b` (a device that never spoke
/// counts as least recent).
pub open spec fn spoke_more_recently(a: Option<u64>, b: Option<u64>) -> bool {
    match (a, b) {
        (Some(x), Some(y)) => x > y,
        (Some(_), None) => true,
        (None, _) => false,
    }
}

/// The speaker order for consumers: by speaker time descending (devices that
/// never spoke last), then by added time ascending, then by demux id
/// ascending.
pub open spec fn speaker_precedes(a: RemoteDeviceStateView, b: RemoteDeviceStateView) -> bool {
    if a.speaker_time != b.speaker_time {
        spoke_more_recently(a.speaker_time, b.speaker_time)
    } else if a.added_time != b.added_time {
        a.added_time < b.added_time
    } else {
        a.demux_id <= b.demux_id
    }
}

/// The speaker order is total: any two devices are comparable.
pub proof fn lemma_speaker_order_total(a: RemoteDeviceStateView, b: RemoteDeviceStateView)
    ensures
        speaker_precedes(a, b) || speaker_precedes(b, a),
{
}

/// The roster of remote devices, kept in the order the server reported them
/// so that `added_time` stays stable.
#[derive(Clone, Debug)]
pub struct RemoteDevices(pub Vec<RemoteDeviceState>);

impl View for RemoteDevices {
    type V = Seq<RemoteDeviceState>;

    open spec fn view(&self) -> Seq<RemoteDeviceState> {
        self.0@
    }
}

impl Default for RemoteDevices {
    fn default() -> (r: Self)
        ensures
            r@ == Seq::<RemoteDeviceState>::empty(),
    {
        RemoteDevices(Vec::new())
    }
}

impl RemoteDevices {
    /// The set of all user ids in the roster.
    pub open spec fn user_id_set(self) -> Set<Seq<u8>> {
        self@.map_values(|d: RemoteDeviceState| d.user_id@).to_set()
    }

    /// The set of all demux ids in the roster.
    pub open spec fn demux_ids(self) -> Set<DemuxId> {
        self@.map_values(|d: RemoteDeviceState| d.demux_id).to_set()
    }

    pub open spec fn contains_demux_id(self, demux_id: DemuxId) -> bool {
        exists|i: int| 0 <= i < self@.len() && self@[i].demux_id == demux_id
    }

    pub fn from_iter(devices: Vec<RemoteDeviceState>) -> (r: Self)
        ensures
            r@ == devices@,
    {
        RemoteDevices(devices)
    }

    pub fn len(&self) -> (r: usize)
        ensures
            r == self@.len(),
    {
        self.0.len()
    }

    pub fn is_empty(&self) -> (r: bool)
        ensures
            r == (self@.len() == 0),
    {
        self.0.len() == 0
    }

    /// The index in the roster at which `i` points at the latest speaker:
    /// every device spoke no more recently, and every later device spoke
    /// strictly less recently.
    pub open spec fn is_latest_speaker_index(self, i: int) -> bool {
        &&& 0 <= i < self@.len()
        &&& forall|j: int|
            0 <= j < self@.len() ==> !spoke_more_recently(
                #[trigger] self@[j].speaker_time,
                self@[i].speaker_time,
            )
        &&& forall|j: int|
            i < j < self@.len() ==> spoke_more_recently(
                self@[i].speaker_time,
                #[trigger] self@[j].speaker_time,
            )
    }

    /// Find the latest speaker. Ties between equal speaker times go to the
    /// device listed last, matching a maximum scan over the roster order.
    pub fn latest_speaker_demux_id(&self) -> (r: Option<DemuxId>)
        ensures
            match r {
                None => forall|i: int|
                    0 <= i < self@.len() ==> #[trigger] self@[i].speaker_time is None,
                Some(demux_id) => exists|i: int|
                    #[trigger] self.is_latest_speaker_index(i) && self@[i].demux_id == demux_id
                        && self@[i].speaker_time is Some,
            },
    {
        let n = self.0.len();
        let mut best: Option<usize> = None;
        let mut k: usize = 0;
        while k < n
            invariant
                n == self@.len(),
                k <= n,
                match best {
                    None => forall|i: int| 0 <= i < k ==> #[trigger] self@[i].speaker_time is None,
                    Some(b) => {
                        &&& b < k
                        &&& self@[b as int].speaker_time is Some
                        &&& forall|j: int|
                            0 <= j < k ==> !spoke_more_recently(
                                #[trigger] self@[j].speaker_time,
                                self@[b as int].speaker_time,
                            )
                        &&& forall|j: int|
                            b < j < k ==> spoke_more_recently(
                                self@[b as int].speaker_time,
                                #[trigger] self@[j].speaker_time,
                            )
                    },
                },
            decreases n - k,
        {
            match self.0[k].speaker_time {
                None => {},
                Some(t) => {
                    let replace = match best {
                        None => true,
                        Some(b) => match self.0[b].speaker_time {
                            Some(bt) => t >= bt,
                            None => true,
                        },
                    };
                    if replace {
                        best = Some(k);
                    }
                },
            }
            k = k + 1;
        }
        match best {
            None => None,
            Some(b) => {
                assert(self.is_latest_speaker_index(b as int));
                Some(self.0[b].demux_id)
            },
        }
    }

    /// Find remote device state by demux id (the first match in roster order).
    pub fn find_by_demux_id(&self, demux_id: DemuxId) -> (r: Option<&RemoteDeviceState>)
        ensures
            match r {
                None => forall|i: int| 0 <= i < self@.len() ==> #[trigger] self@[i].demux_id != demux_id,
                Some(dev) => exists|i: int|
                    {
                        &&& 0 <= i < self@.len()
                        &&& #[trigger] self@[i].demux_id == demux_id
                        &&& *dev == self@[i]
                        &&& forall|j: int| 0 <= j < i ==> #[trigger] self@[j].demux_id != demux_id
                    },
            },
    {
        let n = self.0.len();
        let mut k: usize = 0;
        while k < n
            invariant
                n == self@.len(),
                k <= n,
                forall|j: int| 0 <= j < k ==> #[trigger] self@[j].demux_id != demux_id,
            decreases n - k,
        {
            if self.0[k].demux_id == demux_id {
                return Some(&self.0[k]);
            }
            k = k + 1;
        }
        None
    }

    /// Find remote device state by demux id, for updating it in place.
    pub fn find_by_demux_id_mut(&mut self, demux_id: DemuxId) -> (r: Option<&mut RemoteDeviceState>)
        ensures
            match r {
                None => {
                    &&& *final(self) == *old(self)
                    &&& forall|i: int|
                        0 <= i < old(self)@.len() ==> #[trigger] old(self)@[i].demux_id != demux_id
                },
                Some(dev) => exists|i: int|
                    {
                        &&& 0 <= i < old(self)@.len()
                        &&& #[trigger] old(self)@[i].demux_id == demux_id
                        &&& *dev == old(self)@[i]
                        &&& final(self)@ == old(self)@.update(i, *final(dev))
                        &&& forall|j: int|
                            0 <= j < i ==> #[trigger] old(self)@[j].demux_id != demux_id
                    },
            },
    {
        let n = self.0.len();
        let mut k: usize = 0;
        while k < n
            invariant
                n == self@.len(),
                k <= n,
                self == old(self),
                forall|j: int| 0 <= j < k ==> #[trigger] self@[j].demux_id != demux_id,
            decreases n - k,
        {
            if self.0[k].demux_id == demux_id {
                return Some(&mut self.0[k]);
            }
            k = k + 1;
        }
        None
    }

    /// The first roster index holding this demux id, if any.
    pub fn index_of_demux_id(&self, demux_id: DemuxId) -> (r: Option<usize>)
        ensures
            match r {
                None => forall|i: int| 0 <= i < self@.len() ==> #[trigger] self@[i].demux_id != demux_id,
                Some(i) => {
                    &&& i < self@.len()
                    &&& self@[i as int].demux_id == demux_id
                    &&& forall|j: int| 0 <= j < i ==> #[trigger] self@[j].demux_id != demux_id
                },
            },
    {
        let n = self.0.len();
        let mut k: usize = 0;
        while k < n
            invariant
                n == self@.len(),
                k <= n,
                forall|j: int| 0 <= j < k ==> #[trigger] self@[j].demux_id != demux_id,
            decreases n - k,
        {
            if self.0[k].demux_id == demux_id {
                return Some(k);
            }
            k = k + 1;
        }
        None
    }

    /// Returns a set containing all the demux ids in the collection.
    pub fn demux_id_set(&self) -> (r: HashSet<DemuxId>)
        ensures
            r@ == self.demux_ids(),
    {
        let n = self.0.len();
        let mut r: HashSet<DemuxId> = HashSet::new();
        let mut k: usize = 0;
        while k < n
            invariant
                n == self@.len(),
                k <= n,
                vstd::std_specs::hash::obeys_key_model::<DemuxId>(),
                vstd::std_specs::hash::builds_valid_hashers::<std::hash::RandomState>(),
                r@ == self@.subrange(0, k as int).map_values(
                    |d: RemoteDeviceState| d.demux_id,
                ).to_set(),
            decreases n - k,
        {
            let ghost prefix = self@.subrange(0, k as int).map_values(
                |d: RemoteDeviceState| d.demux_id,
            );
            r.insert(self.0[k].demux_id);
            proof {
                let next = self@.subrange(0, k + 1int).map_values(
                    |d: RemoteDeviceState| d.demux_id,
                );
                assert(self@.subrange(0, k + 1int).drop_last() =~= self@.subrange(0, k as int));
                assert(next.drop_last() =~= prefix);
                assert(next =~= prefix.push(self@[k as int].demux_id));
                prefix.lemma_push_to_set_commute(self@[k as int].demux_id);
            }
            k = k + 1;
        }
        proof {
            assert(self@.subrange(0, n as int) =~= self@);
        }
        r
    }
}

} // verus!
