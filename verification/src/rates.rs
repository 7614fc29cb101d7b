use vstd::prelude::*;

verus! {

/// A bitrate, held in kilobits per second.
#[derive(Clone, Copy, Debug, Eq)]
pub struct DataRate {
    pub kbps: u64,
}

impl DataRate {
    pub fn from_kbps(kbps: u64) -> (r: Self)
        ensures
            r.kbps == kbps,
    {
        DataRate { kbps }
    }

    pub fn from_mbps(mbps: u64) -> (r: Self)
        requires
            mbps <= 0xFFFF_FFFF,
        ensures
            r.kbps == mbps * 1000,
    {
        DataRate { kbps: mbps * 1000 }
    }

    pub fn as_kbps(&self) -> (r: u64)
        ensures
            r == self.kbps,
    {
        self.kbps
    }
}

impl PartialEq for DataRate {
    fn eq(&self, other: &Self) -> (r: bool) {
        self.kbps == other.kbps
    }
}

impl vstd::std_specs::cmp::PartialEqSpecImpl for DataRate {
    open spec fn obeys_eq_spec() -> bool {
        true
    }

    open spec fn eq_spec(&self, other: &Self) -> bool {
        self.kbps == other.kbps
    }
}

/// The minimum, starting and maximum send rates pushed into the media
/// engine; an unset bound leaves the engine's own default.
#[derive(Clone, Copy, Debug, Eq)]
pub struct SendRates {
    pub min: Option<DataRate>,
    pub start: Option<DataRate>,
    pub max: Option<DataRate>,
}

impl Default for SendRates {
    fn default() -> (r: Self)
        ensures
            r.min is None && r.start is None && r.max is None,
    {
        SendRates { min: None, start: None, max: None }
    }
}

impl PartialEq for SendRates {
    fn eq(&self, other: &Self) -> (r: bool) {
        self.min == other.min && self.start == other.start && self.max == other.max
    }
}

impl vstd::std_specs::cmp::PartialEqSpecImpl for SendRates {
    open spec fn obeys_eq_spec() -> bool {
        true
    }

    open spec fn eq_spec(&self, other: &Self) -> bool {
        *self == *other
    }
}

/// Whether the app asked for reduced or normal data use.
#[derive(Clone, Copy, Debug, PartialEq, Eq, Structural)]
pub enum DataMode {
    Low,
    Normal,
}

/// If the local device is the only device, send as little as possible while
/// keeping the bandwidth estimator going.
pub const ALL_ALONE_MAX_SEND_RATE_KBPS: u64 = 1;

/// The rate for calls of up to 7 other devices.
pub const SMALL_CALL_MAX_SEND_RATE_KBPS: u64 = 1000;

/// The smallest rate at which the media engine still sends VGA.
pub const LARGE_CALL_MAX_SEND_RATE_KBPS: u64 = 671;

/// Screen sharing uses a higher bitrate.
pub const SCREENSHARE_MIN_SEND_RATE_KBPS: u64 = 2000;

pub const SCREENSHARE_START_SEND_RATE_KBPS: u64 = 2000;

pub const SCREENSHARE_MAX_SEND_RATE_KBPS: u64 = 5000;

pub const LOW_MAX_RECEIVE_RATE_KBPS: u64 = 500;

pub const NORMAL_MAX_RECEIVE_RATE_KBPS: u64 = 20000;

/// The send-rate bounds for a call of `joined_member_count` other devices:
/// 1 kbps alone; 2 to 5 Mbps when sharing the screen; 1000 kbps up to seven
/// others; 671 kbps beyond that.
pub open spec fn spec_compute_send_rates(joined_member_count: int, sharing_screen: bool) -> SendRates {
    if joined_member_count == 0 {
        SendRates { min: None, start: None, max: Some(DataRate { kbps: 1 }) }
    } else if sharing_screen {
        SendRates {
            min: Some(DataRate { kbps: 2000 }),
            start: Some(DataRate { kbps: 2000 }),
            max: Some(DataRate { kbps: 5000 }),
        }
    } else if 1 <= joined_member_count <= 7 {
        SendRates { min: None, start: None, max: Some(DataRate { kbps: 1000 }) }
    } else {
        SendRates { min: None, start: None, max: Some(DataRate { kbps: 671 }) }
    }
}

/// The send-rate table, a pure function of the roster size and the
/// screen-sharing flag.
pub fn compute_send_rates(joined_member_count: usize, sharing_screen: bool) -> (r: SendRates)
    ensures
        r == spec_compute_send_rates(joined_member_count as int, sharing_screen),
{
    if joined_member_count == 0 {
        SendRates { min: None, start: None, max: Some(DataRate::from_kbps(1)) }
    } else if sharing_screen {
        SendRates {
            min: Some(DataRate::from_kbps(SCREENSHARE_MIN_SEND_RATE_KBPS)),
            start: Some(DataRate::from_kbps(SCREENSHARE_START_SEND_RATE_KBPS)),
            max: Some(DataRate::from_kbps(SCREENSHARE_MAX_SEND_RATE_KBPS)),
        }
    } else if joined_member_count <= 7 {
        SendRates { min: None, start: None, max: Some(DataRate::from_kbps(SMALL_CALL_MAX_SEND_RATE_KBPS)) }
    } else {
        SendRates { min: None, start: None, max: Some(DataRate::from_kbps(LARGE_CALL_MAX_SEND_RATE_KBPS)) }
    }
}

pub open spec fn spec_max_receive_rate(data_mode: DataMode) -> DataRate {
    match data_mode {
        DataMode::Low => DataRate { kbps: 500 },
        DataMode::Normal => DataRate { kbps: 20000 },
    }
}

/// The maximum receive rate the data mode allows.
pub fn max_receive_rate(data_mode: DataMode) -> (r: DataRate)
    ensures
        r == spec_max_receive_rate(data_mode),
{
    match data_mode {
        DataMode::Low => DataRate::from_kbps(LOW_MAX_RECEIVE_RATE_KBPS),
        DataMode::Normal => DataRate::from_kbps(NORMAL_MAX_RECEIVE_RATE_KBPS),
    }
}

} // verus!
