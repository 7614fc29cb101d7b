use vstd::prelude::*;
use crate::device::{DemuxId, UserId};
use std::collections::hash_map::DefaultHasher;
use std::hash::Hasher;

verus! {

/// One device as the SFU reports it in a peek: its demux id, and its user
/// id when the membership service could resolve it.
#[derive(Clone, Debug, PartialEq, Eq)]
pub struct PeekDeviceInfo {
    pub demux_id: DemuxId,
    pub user_id: Option<UserId>,
}

/// What a peek of the SFU returns: the joined devices, the devices awaiting
/// admin approval, the call's creator and era, and the device cap.
#[derive(Clone, Debug, PartialEq, Eq)]
pub struct PeekInfo {
    pub devices: Vec<PeekDeviceInfo>,
    pub pending_devices: Vec<PeekDeviceInfo>,
    pub creator: Option<UserId>,
    pub era_id: Option<String>,
    pub max_devices: Option<u32>,
}

/// The abstract value of a `PeekDeviceInfo`.
pub ghost struct PeekDeviceInfoView {
    pub demux_id: DemuxId,
    pub user_id: Option<Seq<u8>>,
}

impl View for PeekDeviceInfo {
    type V = PeekDeviceInfoView;

    open spec fn view(&self) -> PeekDeviceInfoView {
        PeekDeviceInfoView {
            demux_id: self.demux_id,
            user_id: match self.user_id {
                Option::Some(u) => Option::Some(u@),
                Option::None => Option::None,
            },
        }
    }
}

/// The abstract value of a `PeekInfo`.
pub ghost struct PeekInfoView {
    pub devices: Seq<PeekDeviceInfoView>,
    pub pending_devices: Seq<PeekDeviceInfoView>,
    pub creator: Option<Seq<u8>>,
    pub era_id: Option<Seq<char>>,
    pub max_devices: Option<u32>,
}

impl View for PeekInfo {
    type V = PeekInfoView;

    open spec fn view(&self) -> PeekInfoView {
        PeekInfoView {
            devices: self.devices@.map_values(|d: PeekDeviceInfo| d@),
            pending_devices: self.pending_devices@.map_values(|d: PeekDeviceInfo| d@),
            creator: match self.creator {
                Option::Some(u) => Option::Some(u@),
                Option::None => Option::None,
            },
            era_id: match self.era_id {
                Option::Some(e) => Option::Some(e@),
                Option::None => Option::None,
            },
            max_devices: self.max_devices,
        }
    }
}

/// Copy a byte string, keeping its value.
pub fn clone_bytes(v: &Vec<u8>) -> (r: Vec<u8>)
    ensures
        r@ == v@,
{
    let r = v.clone();
    proof {
        assert(r@ =~= v@);
    }
    r
}

/// Copy a list of user ids, keeping their values.
pub fn clone_user_ids(users: &Vec<UserId>) -> (r: Vec<UserId>)
    ensures
        r@.len() == users@.len(),
        forall|i: int| 0 <= i < r@.len() ==> #[trigger] r@[i]@ == users@[i]@,
        user_seq(r@) == user_seq(users@),
{
    let n = users.len();
    let mut r: Vec<UserId> = Vec::new();
    let mut i: usize = 0;
    while i < n
        invariant
            n == users@.len(),
            i <= n,
            r@.len() == i,
            forall|j: int| 0 <= j < i ==> #[trigger] r@[j]@ == users@[j]@,
        decreases n - i,
    {
        r.push(clone_bytes(&users[i]));
        i = i + 1;
    }
    proof {
        assert(user_seq(r@) =~= user_seq(users@));
    }
    r
}

/// Copy one peek device entry, keeping its value.
fn clone_device_info(d: &PeekDeviceInfo) -> (r: PeekDeviceInfo)
    ensures
        r@ == d@,
{
    let user_id = match &d.user_id {
        Option::Some(u) => Option::Some(clone_bytes(u)),
        Option::None => Option::None,
    };
    PeekDeviceInfo { demux_id: d.demux_id, user_id }
}

/// Copy a list of peek device entries, keeping their values.
fn clone_device_infos(devs: &Vec<PeekDeviceInfo>) -> (r: Vec<PeekDeviceInfo>)
    ensures
        r@.len() == devs@.len(),
        forall|i: int| 0 <= i < r@.len() ==> #[trigger] r@[i]@ == devs@[i]@,
        r@.map_values(|d: PeekDeviceInfo| d@) == devs@.map_values(|d: PeekDeviceInfo| d@),
{
    let n = devs.len();
    let mut r: Vec<PeekDeviceInfo> = Vec::new();
    let mut i: usize = 0;
    while i < n
        invariant
            n == devs@.len(),
            i <= n,
            r@.len() == i,
            forall|j: int| 0 <= j < i ==> #[trigger] r@[j]@ == devs@[j]@,
        decreases n - i,
    {
        r.push(clone_device_info(&devs[i]));
        i = i + 1;
    }
    proof {
        assert(r@.map_values(|d: PeekDeviceInfo| d@) =~= devs@.map_values(
            |d: PeekDeviceInfo| d@,
        ));
    }
    r
}

/// Copy a whole peek result, keeping its value.
pub fn clone_peek_info(info: &PeekInfo) -> (r: PeekInfo)
    ensures
        r@ == info@,
{
    let creator = match &info.creator {
        Option::Some(u) => Option::Some(clone_bytes(u)),
        Option::None => Option::None,
    };
    let era_id = match &info.era_id {
        Option::Some(e) => Option::Some(e.clone()),
        Option::None => Option::None,
    };
    PeekInfo {
        devices: clone_device_infos(&info.devices),
        pending_devices: clone_device_infos(&info.pending_devices),
        creator,
        era_id,
        max_devices: info.max_devices,
    }
}

/// Whether two optional era ids are the same string.
pub fn opt_era_eq(a: &Option<String>, b: &Option<String>) -> (r: bool)
    ensures
        r == (match (a, b) {
            (Option::Some(x), Option::Some(y)) => x@ == y@,
            (Option::None, Option::None) => true,
            _ => false,
        }),
{
    match (a, b) {
        (Option::Some(x), Option::Some(y)) => x.eq(y),
        (Option::None, Option::None) => true,
        _ => false,
    }
}

/// The user ids of `devs`, dropping devices with no user id, deduplicated in
/// first-appearance order.
pub open spec fn spec_unique_users(devs: Seq<PeekDeviceInfo>) -> Seq<Seq<u8>>
    decreases devs.len(),
{
    if devs.len() == 0 {
        Seq::empty()
    } else {
        let rest = spec_unique_users(devs.drop_last());
        match devs.last().user_id {
            Option::None => rest,
            Option::Some(u) => if rest.contains(u@) {
                rest
            } else {
                rest.push(u@)
            },
        }
    }
}


/// The unique-user list depends only on the devices' values, not on which
/// allocations carry them.
pub proof fn lemma_unique_users_by_views(a: Seq<PeekDeviceInfo>, b: Seq<PeekDeviceInfo>)
    requires
        a.map_values(|d: PeekDeviceInfo| d@) == b.map_values(|d: PeekDeviceInfo| d@),
    ensures
        spec_unique_users(a) == spec_unique_users(b),
    decreases a.len(),
{
    assert(a.len() == b.len()) by {
        assert(a.map_values(|d: PeekDeviceInfo| d@).len() == a.len());
        assert(b.map_values(|d: PeekDeviceInfo| d@).len() == b.len());
    }
    let fa = a.map_values(|d: PeekDeviceInfo| d@);
    let fb = b.map_values(|d: PeekDeviceInfo| d@);
    if a.len() > 0 {
        assert forall|i: int|
            0 <= i < a.len() - 1 implies (#[trigger] a.drop_last()[i])@
            == b.drop_last()[i]@ by {
            assert(a.drop_last()[i] == a[i]);
            assert(b.drop_last()[i] == b[i]);
            assert(fa[i] == a[i]@);
            assert(fb[i] == b[i]@);
            assert(fa[i] == fb[i]);
        }
        assert(a.drop_last().map_values(|d: PeekDeviceInfo| d@) =~= b.drop_last().map_values(
            |d: PeekDeviceInfo| d@,
        ));
        lemma_unique_users_by_views(a.drop_last(), b.drop_last());
        assert(fa[a.len() - 1] == a[a.len() - 1]@);
        assert(fb[a.len() - 1] == b[a.len() - 1]@);
        assert(fa[a.len() - 1] == fb[a.len() - 1]);
        assert(a.last()@ == b.last()@);
        match (a.last().user_id, b.last().user_id) {
            (Option::Some(ua), Option::Some(ub)) => {
                assert(ua@ == ub@);
            },
            _ => {},
        }
    }
}

/// The views of a list of user ids.
pub open spec fn user_seq(users: Seq<UserId>) -> Seq<Seq<u8>> {
    users.map_values(|u: UserId| u@)
}

/// Whether `users` holds `u`.
pub fn contains_user(users: &Vec<UserId>, u: &UserId) -> (r: bool)
    ensures
        r == user_seq(users@).contains(u@),
{
    let n = users.len();
    let mut i: usize = 0;
    while i < n
        invariant
            n == users@.len(),
            i <= n,
            forall|j: int| 0 <= j < i ==> user_seq(users@)[j] != u@,
        decreases n - i,
    {
        if users[i] == *u {
            proof {
                assert(users@[i as int]@ =~= u@);
                assert(user_seq(users@)[i as int] == u@);
            }
            return true;
        }
        proof {
            assert(users@[i as int]@ != u@) by {
                if users@[i as int]@ == u@ {
                    assert(users@[i as int] =~= *u);
                }
            }
        }
        i = i + 1;
    }
    false
}

/// The user ids of `devs`, leaving out any device with the excluded demux
/// id, deduplicated in first-appearance order. The reported joined members
/// of a joined call are these, with the local device excluded.
pub open spec fn spec_unique_users_excluding(
    devs: Seq<PeekDeviceInfo>,
    excluded_demux_id: Option<DemuxId>,
) -> Seq<Seq<u8>>
    decreases devs.len(),
{
    if devs.len() == 0 {
        Seq::empty()
    } else {
        let rest = spec_unique_users_excluding(devs.drop_last(), excluded_demux_id);
        if excluded_demux_id == Option::Some(devs.last().demux_id) {
            rest
        } else {
            match devs.last().user_id {
                Option::None => rest,
                Option::Some(u) => if rest.contains(u@) {
                    rest
                } else {
                    rest.push(u@)
                },
            }
        }
    }
}

/// Collect the unique user ids among `devs` whose demux id is not the
/// excluded one, in first-appearance order.
pub fn unique_users_excluding(
    devs: &Vec<PeekDeviceInfo>,
    excluded_demux_id: Option<DemuxId>,
) -> (r: Vec<UserId>)
    ensures
        user_seq(r@) == spec_unique_users_excluding(devs@, excluded_demux_id),
{
    let n = devs.len();
    let mut r: Vec<UserId> = Vec::new();
    let mut i: usize = 0;
    while i < n
        invariant
            n == devs@.len(),
            i <= n,
            user_seq(r@) == spec_unique_users_excluding(devs@.take(i as int), excluded_demux_id),
        decreases n - i,
    {
        let ghost prefix = devs@.take(i as int);
        let ghost next = devs@.take(i + 1int);
        proof {
            assert(next.drop_last() =~= prefix);
            assert(next.last() == devs@[i as int]);
        }
        let excluded = match excluded_demux_id {
            Option::Some(d) => d == devs[i].demux_id,
            Option::None => false,
        };
        if !excluded {
            match &devs[i].user_id {
                Option::None => {},
                Option::Some(u) => {
                    if !contains_user(&r, u) {
                        let cloned = clone_bytes(u);
                        r.push(cloned);
                        proof {
                            assert(user_seq(r@) =~= spec_unique_users_excluding(
                                prefix,
                                excluded_demux_id,
                            ).push(u@));
                        }
                    }
                },
            }
        }
        i = i + 1;
    }
    proof {
        assert(devs@.take(n as int) =~= devs@);
    }
    r
}

/// Collect the unique user ids among `devs`, in first-appearance order.
pub fn unique_users(devs: &Vec<PeekDeviceInfo>) -> (r: Vec<UserId>)
    ensures
        user_seq(r@) == spec_unique_users(devs@),
{
    let n = devs.len();
    let mut r: Vec<UserId> = Vec::new();
    let mut i: usize = 0;
    while i < n
        invariant
            n == devs@.len(),
            i <= n,
            user_seq(r@) == spec_unique_users(devs@.take(i as int)),
        decreases n - i,
    {
        let ghost prefix = devs@.take(i as int);
        let ghost next = devs@.take(i + 1int);
        proof {
            assert(next.drop_last() =~= prefix);
            assert(next.last() == devs@[i as int]);
        }
        match &devs[i].user_id {
            Option::None => {},
            Option::Some(u) => {
                if !contains_user(&r, u) {
                    let cloned = u.clone();
                    proof {
                        assert(cloned@ =~= u@);
                    }
                    r.push(cloned);
                    proof {
                        assert(user_seq(r@) =~= spec_unique_users(prefix).push(u@));
                    }
                }
            },
        }
        i = i + 1;
    }
    proof {
        assert(devs@.take(n as int) =~= devs@);
    }
    r
}

/// Whether two lists of user ids hold the same set of users.
pub fn user_sets_equal(a: &Vec<UserId>, b: &Vec<UserId>) -> (r: bool)
    ensures
        r == (user_seq(a@).to_set() == user_seq(b@).to_set()),
{
    let forward = user_set_subset(a, b);
    let backward = user_set_subset(b, a);
    proof {
        if forward && backward {
            assert(user_seq(a@).to_set() =~= user_seq(b@).to_set());
        } else if !forward {
            let j = choose|j: int|
                0 <= j < user_seq(a@).len() && !user_seq(b@).contains(user_seq(a@)[j]);
            assert(user_seq(a@).to_set().contains(user_seq(a@)[j]));
            assert(!user_seq(b@).to_set().contains(user_seq(a@)[j]));
        } else {
            let j = choose|j: int|
                0 <= j < user_seq(b@).len() && !user_seq(a@).contains(user_seq(b@)[j]);
            assert(user_seq(b@).to_set().contains(user_seq(b@)[j]));
            assert(!user_seq(a@).to_set().contains(user_seq(b@)[j]));
        }
    }
    forward && backward
}

/// Whether every user in `a` is in `b`.
pub fn user_set_subset(a: &Vec<UserId>, b: &Vec<UserId>) -> (r: bool)
    ensures
        r == forall|j: int|
            0 <= j < user_seq(a@).len() ==> user_seq(b@).contains(#[trigger] user_seq(a@)[j]),
{
    let n = a.len();
    let mut i: usize = 0;
    while i < n
        invariant
            n == a@.len(),
            i <= n,
            forall|j: int| 0 <= j < i ==> user_seq(b@).contains(#[trigger] user_seq(a@)[j]),
        decreases n - i,
    {
        if !contains_user(b, &a[i]) {
            assert(!user_seq(b@).contains(user_seq(a@)[i as int]));
            return false;
        }
        i = i + 1;
    }
    true
}

/// The 64-bit hash this engine gives a user id, for the order-independent
/// pending-users signature.
pub open spec fn spec_hash_user_id(b: Seq<u8>) -> u64 {
    <DefaultHasher as vstd::std_specs::hash::DefaultHasherAdditionalSpecFns>::spec_finish(seq![b])
}

/// Hash one user id with the standard hasher, fed the raw bytes.
pub fn hash_user_id(user_id: &UserId) -> (r: u64)
    ensures
        r == spec_hash_user_id(user_id@),
{
    let mut hasher = DefaultHasher::new();
    hasher.write(user_id.as_slice());
    hasher.finish()
}

/// Addition modulo 2^64.
pub open spec fn spec_wrap_add64(a: u64, b: u64) -> u64 {
    if a + b > u64::MAX {
        (a + b - 0x1_0000_0000_0000_0000) as u64
    } else {
        (a + b) as u64
    }
}

/// Fold hashes into a signature by wrapping addition, which makes the
/// signature independent of the order the users are listed in.
pub open spec fn spec_signature_fold(users: Seq<Seq<u8>>, acc: u64) -> u64
    decreases users.len(),
{
    if users.len() == 0 {
        acc
    } else {
        spec_signature_fold(users.drop_first(), spec_wrap_add64(acc, spec_hash_user_id(users.first())))
    }
}

/// The signature summarizing who is pending approval: the unique pending
/// user ids hashed and folded by wrapping addition, seeded with the number
/// of pending devices.
pub open spec fn spec_pending_users_signature(info: PeekInfo) -> u64 {
    spec_signature_fold(
        spec_unique_users(info.pending_devices@),
        (info.pending_devices@.len() % 0x1_0000_0000_0000_0000) as u64,
    )
}

impl PeekInfo {
    /// How many devices have joined the call.
    pub fn device_count(&self) -> (r: usize)
        ensures
            r == self.devices@.len(),
    {
        self.devices.len()
    }

    /// The unique user ids among the joined devices.
    pub fn unique_users(&self) -> (r: Vec<UserId>)
        ensures
            user_seq(r@) == spec_unique_users(self.devices@),
    {
        unique_users(&self.devices)
    }

    /// The unique user ids among the devices pending approval.
    pub fn unique_pending_users(&self) -> (r: Vec<UserId>)
        ensures
            user_seq(r@) == spec_unique_users(self.pending_devices@),
    {
        unique_users(&self.pending_devices)
    }

    /// The order-independent signature of the pending users.
    pub fn pending_users_signature(&self) -> (r: u64)
        ensures
            r == spec_pending_users_signature(*self),
    {
        let users = self.unique_pending_users();
        let mut acc: u64 = self.pending_devices.len() as u64;
        let ghost all = user_seq(users@);
        let ghost seed = acc;
        proof {
            assert(all.skip(0) =~= all);
        }
        let n = users.len();
        let mut i: usize = 0;
        while i < n
            invariant
                n == users@.len(),
                i <= n,
                all == user_seq(users@),
                spec_signature_fold(all.skip(i as int), acc) == spec_signature_fold(all, seed),
            decreases n - i,
        {
            let ghost pending = all.skip(i as int);
            proof {
                assert(pending.first() == all[i as int]);
                assert(pending.drop_first() =~= all.skip(i + 1int));
            }
            acc = wrapping_add_u64(acc, hash_user_id(&users[i]));
            i = i + 1;
        }
        proof {
            assert(all.skip(n as int) =~= Seq::<Seq<u8>>::empty());
        }
        acc
    }
}

/// `a + b` modulo 2^64.
pub fn wrapping_add_u64(a: u64, b: u64) -> (r: u64)
    ensures
        r == spec_wrap_add64(a, b),
{
    a.wrapping_add(b)
}

} // verus!
