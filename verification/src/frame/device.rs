//! Which graphics device processes the frames.

use crate::text::decimal::{append_number, digits_of, parse, read_number};
use vstd::prelude::*;

verus! {

/// The flag of a queue family that transfers.
pub const QUEUE_TRANSFER: u32 = 0x4;

/// What the format of internal images has to allow: to be read and written by blits, with
/// linear filtering.
pub const INTERNAL_FORMAT_FEATURES: u32 = 0x1c00;

/// A device node of the kernel's graphics subsystem.
#[derive(Clone, Copy, Debug, PartialEq, Eq, Structural)]
pub struct DrmDevice {
    pub major: u32,
    pub minor: u32,
}

/// `libc::major`: the major number of a device, whose lower twelve bits stand from bit 8 on and
/// whose upper ones from bit 44 on.
#[verifier::external_body]
fn major(device: u64) -> (r: u32)
    ensures
        r == (((device & 0x00000000000fff00) >> 8) | ((device & 0xfffff00000000000) >> 32)) as u32,
{
    libc::major(device)
}

/// `libc::minor`: the minor number of a device, whose lower eight bits stand first and whose
/// upper ones from bit 20 on.
#[verifier::external_body]
fn minor(device: u64) -> (r: u32)
    ensures
        r == ((device & 0x00000000000000ff) | ((device & 0x00000ffffff00000) >> 12)) as u32,
{
    libc::minor(device)
}

/// `ash::vk::make_api_version`: a version as the graphics API packs it. The minor number has ten
/// bits and the patch number twelve; the major number has seven, below the variant.
#[verifier::external_body]
fn pack_version(variant: u32, major: u32, minor: u32, patch: u32) -> (r: u32)
    ensures
        r == (variant << 29) | (major << 22) | (minor << 12) | patch,
{
    ash::vk::make_api_version(variant, major, minor, patch)
}

/// The node that a number of a device stands for.
pub fn drm_device_of(device: u64) -> (r: DrmDevice)
    ensures
        r.major == (((device & 0x00000000000fff00) >> 8) | ((device & 0xfffff00000000000) >> 32))
            as u32,
        r.minor == ((device & 0x00000000000000ff) | ((device & 0x00000ffffff00000) >> 12)) as u32,
{
    DrmDevice { major: major(device), minor: minor(device) }
}

/// A version of the program, as the graphics API packs it.
pub open spec fn packed(major: nat, minor: nat, patch: nat) -> u32 {
    (0u32 << 29) | ((major as u32) << 22) | ((minor as u32) << 12) | (patch as u32)
}

/// The version of the program, from the texts of its three numbers.
pub fn application_version(major: &str, minor: &str, patch: &str) -> (r: Option<u32>)
    ensures
        ({
            let a = read_number(major@, u32::MAX as nat);
            let b = read_number(minor@, u32::MAX as nat);
            let c = read_number(patch@, u32::MAX as nat);
            &&& r is Some <==> a is Some && b is Some && c is Some
            &&& r matches Some(version) ==> version == packed(a->0, b->0, c->0)
        }),
{
    match (
        parse(major, u32::MAX as u64),
        parse(minor, u32::MAX as u64),
        parse(patch, u32::MAX as u64),
    ) {
        (Some(major), Some(minor), Some(patch)) => Some(
            pack_version(0, major as u32, minor as u32, patch as u32),
        ),
        _ => None,
    }
}

/// A node that a driver tells of, where it tells of one.
pub fn told_device(told: bool, major: i64, minor: i64) -> (r: Option<DrmDevice>)
    ensures
        r == if told {
            Some(DrmDevice { major: major as u32, minor: minor as u32 })
        } else {
            None
        },
{
    if told {
        Some(
            DrmDevice {
                major: #[verifier::truncate] (major as u32),
                minor: #[verifier::truncate] (minor as u32),
            },
        )
    } else {
        None
    }
}

/// The numbers of a node.
pub open spec fn numbers_of(d: DrmDevice) -> Seq<char> {
    digits_of(d.major as nat) + ":"@ + digits_of(d.minor as nat)
}

impl DrmDevice {
    /// The numbers of the node.
    pub fn numbers(&self) -> (r: String)
        ensures
            r@ == numbers_of(*self),
            r@ == digits_of(self.major as nat) + ":"@ + digits_of(self.minor as nat),
    {
        let mut r = crate::text::decimal::digits(self.major as u64);
        r.append(":");
        append_number(&mut r, self.minor as u64);
        r
    }

    /// What the node is called, where its name is known.
    pub fn label(&self, name: Option<&str>) -> (r: String)
        ensures
            r@ == match name {
                Some(name) => "/dev/dri/"@ + name@ + " ("@ + numbers_of(*self) + ")"@,
                None => numbers_of(*self),
            },
    {
        match name {
            Some(name) => {
                let mut r = "/dev/dri/".to_string();
                r.append(name);
                r.append(" (");
                r.append(self.numbers().as_str());
                r.append(")");
                r
            },
            None => self.numbers(),
        }
    }
}

/// The kind of a device.
#[derive(Clone, Copy, Debug, PartialEq, Eq, Structural)]
pub enum DeviceType {
    Integrated,
    Discrete,
    Virtual,
    Other,
    Unknown,
}

/// What a driver tells of a device.
#[derive(Debug)]
pub struct DeviceInfo {
    pub external_memory_fd: bool,
    pub dma_buf: bool,
    pub drm_modifier: bool,
    /// The flags of the families of queues.
    pub queue_flags: Vec<u32>,
    /// The features of the format of internal images.
    pub format_features: u32,
    pub device_type: DeviceType,
    pub primary: Option<DrmDevice>,
    pub render: Option<DrmDevice>,
}

/// Why a device is of no use.
#[derive(Clone, Copy, Debug, PartialEq, Eq, Structural)]
pub enum Rejection {
    /// It cannot share memory.
    NoSharing,
    /// It has no queue that transfers.
    NoTransfer,
    /// It cannot scale internal images.
    NoBlit,
}

/// Every flag of `wanted` is set in `flags`.
pub open spec fn has_flags(flags: u32, wanted: u32) -> bool {
    flags & wanted == wanted
}

/// The first family of queues, from the place `from` on, that transfers.
pub open spec fn transfer_family(flags: Seq<u32>, from: int) -> Option<int>
    decreases flags.len() - from,
{
    if from < 0 || from >= flags.len() {
        None
    } else if has_flags(flags[from], QUEUE_TRANSFER) {
        Some(from)
    } else {
        transfer_family(flags, from + 1)
    }
}

/// The family of queues that a device is used with, or why it is of no use.
pub open spec fn admitted(d: DeviceInfo) -> Result<int, Rejection> {
    if !d.external_memory_fd || !d.dma_buf {
        Err(Rejection::NoSharing)
    } else {
        match transfer_family(d.queue_flags@, 0) {
            None => Err(Rejection::NoTransfer),
            Some(family) => if has_flags(d.format_features, INTERNAL_FORMAT_FEATURES) {
                Ok(family)
            } else {
                Err(Rejection::NoBlit)
            },
        }
    }
}

/// The family of queues that a device is used with, or why it is of no use.
pub fn examine(d: &DeviceInfo) -> (r: Result<usize, Rejection>)
    ensures
        r is Ok <==> admitted(*d) is Ok,
        r matches Ok(family) ==> admitted(*d) == Ok::<int, Rejection>(family as int)
            && family < d.queue_flags@.len(),
        r matches Err(error) ==> admitted(*d) == Err::<int, Rejection>(error),
{
    if !d.external_memory_fd || !d.dma_buf {
        return Err(Rejection::NoSharing);
    }
    let mut i: usize = 0;
    while i < d.queue_flags.len()
        invariant
            i <= d.queue_flags@.len(),
            transfer_family(d.queue_flags@, 0) == transfer_family(d.queue_flags@, i as int),
            d.external_memory_fd,
            d.dma_buf,
        decreases d.queue_flags.len() - i,
    {
        if d.queue_flags[i] & QUEUE_TRANSFER == QUEUE_TRANSFER {
            return if d.format_features & INTERNAL_FORMAT_FEATURES == INTERNAL_FORMAT_FEATURES {
                Ok(i)
            } else {
                Err(Rejection::NoBlit)
            };
        }
        i = i + 1;
    }
    Err(Rejection::NoTransfer)
}

/// The device has the wanted node.
pub open spec fn has_node(d: DeviceInfo, wanted: DrmDevice) -> bool {
    d.primary == Some(wanted) || d.render == Some(wanted)
}

/// Whether a node is the wanted one.
fn is_node(node: Option<DrmDevice>, wanted: DrmDevice) -> (r: bool)
    ensures
        r == (node == Some(wanted)),
{
    match node {
        Some(node) => node == wanted,
        None => false,
    }
}

impl DeviceInfo {
    /// Whether the device has the wanted node.
    pub fn matches_drm_device(&self, wanted: DrmDevice) -> (r: bool)
        ensures
            r == has_node(*self, wanted),
    {
        is_node(self.primary, wanted) || is_node(self.render, wanted)
    }
}

/// How much a kind of device is to be preferred to others.
pub open spec fn type_rank(t: DeviceType) -> nat {
    match t {
        DeviceType::Integrated => 4,
        DeviceType::Discrete => 3,
        DeviceType::Virtual => 2,
        DeviceType::Other => 1,
        DeviceType::Unknown => 0,
    }
}

/// How much a device is to be preferred to others: whether it has modifiers weighs more than its
/// kind.
pub open spec fn device_rank(d: DeviceInfo) -> nat {
    (if d.drm_modifier {
        5nat
    } else {
        0nat
    }) + type_rank(d.device_type)
}

fn rank(d: &DeviceInfo) -> (r: u8)
    ensures
        r == device_rank(*d),
{
    let kind: u8 = match d.device_type {
        DeviceType::Integrated => 4,
        DeviceType::Discrete => 3,
        DeviceType::Virtual => 2,
        DeviceType::Other => 1,
        DeviceType::Unknown => 0,
    };
    if d.drm_modifier {
        5 + kind
    } else {
        kind
    }
}

/// Some useful device has the wanted node.
pub open spec fn node_is_found(devices: Seq<DeviceInfo>, wanted: DrmDevice) -> bool {
    exists|i: int|
        0 <= i < devices.len() && admitted(devices[i]) is Ok && has_node(
            #[trigger] devices[i],
            wanted,
        )
}

/// The device may be used: it is of use, and it has the wanted node where one is wanted. Where no
/// device has it, any device will do, unless the user has asked for the node.
pub open spec fn is_eligible(
    devices: Seq<DeviceInfo>,
    i: int,
    wanted: Option<DrmDevice>,
    by_user: bool,
) -> bool {
    &&& admitted(devices[i]) is Ok
    &&& match wanted {
        None => true,
        Some(wanted) => if node_is_found(devices, wanted) {
            has_node(devices[i], wanted)
        } else {
            !by_user
        },
    }
}

/// Of the first `n` devices, the one to use: of those that may be used, the last one that is to be
/// preferred most.
pub open spec fn chosen_device(
    devices: Seq<DeviceInfo>,
    wanted: Option<DrmDevice>,
    by_user: bool,
    n: nat,
) -> Option<int>
    decreases n,
{
    if n == 0 {
        None
    } else {
        let before = chosen_device(devices, wanted, by_user, (n - 1) as nat);
        if is_eligible(devices, n - 1, wanted, by_user) && (before is None || device_rank(
            devices[before->0],
        ) <= device_rank(devices[n - 1])) {
            Some(n - 1)
        } else {
            before
        }
    }
}

/// Why no device can be used.
#[derive(Clone, Copy, Debug, PartialEq, Eq, Structural)]
pub enum DeviceError {
    /// No device matches what the user has asked for.
    NoMatch,
    /// No device is there to match the node of the compositor.
    NoDrmMatch,
    NoDevice,
}

/// What is said where no device can be used: the path that the user has asked for, or the node of
/// the compositor, is named.
pub open spec fn device_message(path: Option<Seq<char>>, wanted: Option<DrmDevice>) -> Seq<char> {
    match path {
        Some(path) => "No compatible Vulkan device matches "@ + path,
        None => match wanted {
            Some(device) => "No compatible Vulkan device matches DRM device "@ + numbers_of(device),
            None => "Unable to find a compatible Vulkan physical device"@,
        },
    }
}

/// What is said where no device can be used.
pub fn no_device_message(path: Option<&str>, wanted: Option<DrmDevice>) -> (r: String)
    ensures
        r@ == device_message(
            match path {
                Some(path) => Some(path@),
                None => None,
            },
            wanted,
        ),
        path matches Some(path) ==> r@ == "No compatible Vulkan device matches "@ + path@,
        path is None ==> (wanted matches Some(device) ==> r@
            == "No compatible Vulkan device matches DRM device "@ + digits_of(device.major as nat)
            + ":"@ + digits_of(device.minor as nat)),
        path is None && wanted is None ==> r@
            == "Unable to find a compatible Vulkan physical device"@,
{
    match path {
        Some(path) => {
            let mut r = "No compatible Vulkan device matches ".to_string();
            r.append(path);
            r
        },
        None => match wanted {
            Some(device) => {
                let mut r = "No compatible Vulkan device matches DRM device ".to_string();
                r.append(device.numbers().as_str());
                assert(r@ =~= "No compatible Vulkan device matches DRM device "@ + digits_of(
                    device.major as nat,
                ) + ":"@ + digits_of(device.minor as nat));
                r
            },
            None => "Unable to find a compatible Vulkan physical device".to_string(),
        },
    }
}

/// A device, and the family of queues that it is used with.
#[derive(Clone, Copy, Debug, PartialEq, Eq, Structural)]
pub struct Selection {
    pub device: usize,
    pub queue_family: usize,
}

/// The device to use. `by_user` says that the user has asked for the wanted node.
pub fn select_device(devices: &Vec<DeviceInfo>, wanted: Option<DrmDevice>, by_user: bool) -> (r:
    Result<Selection, DeviceError>)
    ensures
        ({
            let chosen = chosen_device(devices@, wanted, by_user, devices@.len());
            &&& r is Ok <==> chosen is Some
            &&& r matches Ok(s) ==> chosen == Some(s.device as int) && s.device < devices@.len()
                && admitted(devices@[s.device as int]) == Ok::<int, Rejection>(
                s.queue_family as int,
            )
            &&& r matches Err(error) ==> error == if by_user {
                DeviceError::NoMatch
            } else if wanted is Some {
                DeviceError::NoDrmMatch
            } else {
                DeviceError::NoDevice
            }
        }),
{
    let mut found = false;
    if let Some(wanted) = wanted {
        for i in 0..devices.len()
            invariant
                found == exists|j: int|
                    0 <= j < i && admitted(devices@[j]) is Ok && has_node(
                        #[trigger] devices@[j],
                        wanted,
                    ),
        {
            if examine(&devices[i]).is_ok() && devices[i].matches_drm_device(wanted) {
                assert(has_node(devices@[i as int], wanted));
                found = true;
            }
        }
        assert(found == node_is_found(devices@, wanted));
    }
    let mut best: Option<Selection> = None;
    for i in 0..devices.len()
        invariant
            wanted matches Some(w) ==> found == node_is_found(devices@, w),
            best is Some <==> chosen_device(devices@, wanted, by_user, i as nat) is Some,
            best matches Some(s) ==> s.device < i && chosen_device(
                devices@,
                wanted,
                by_user,
                i as nat,
            ) == Some(s.device as int) && admitted(devices@[s.device as int]) == Ok::<
                int,
                Rejection,
            >(s.queue_family as int),
    {
        if let Ok(family) = examine(&devices[i]) {
            let eligible = match wanted {
                None => true,
                Some(wanted) => {
                    if found {
                        devices[i].matches_drm_device(wanted)
                    } else {
                        !by_user
                    }
                },
            };
            assert(eligible == is_eligible(devices@, i as int, wanted, by_user));
            let better = match best {
                None => true,
                Some(s) => rank(&devices[s.device]) <= rank(&devices[i]),
            };
            if eligible && better {
                best = Some(Selection { device: i, queue_family: family });
            }
        }
    }
    match best {
        Some(s) => Ok(s),
        None => Err(
            if by_user {
                DeviceError::NoMatch
            } else if wanted.is_some() {
                DeviceError::NoDrmMatch
            } else {
                DeviceError::NoDevice
            },
        ),
    }
}

/// The device to use may be used, and no other device that may be used is to be preferred to it.
pub proof fn selected_device_is_best(
    devices: Seq<DeviceInfo>,
    wanted: Option<DrmDevice>,
    by_user: bool,
    n: nat,
)
    requires
        n <= devices.len(),
    ensures
        chosen_device(devices, wanted, by_user, n) is None ==> forall|j: int|
            0 <= j < n ==> !#[trigger] is_eligible(devices, j, wanted, by_user),
        chosen_device(devices, wanted, by_user, n) matches Some(i) ==> {
            &&& 0 <= i < n && is_eligible(devices, i, wanted, by_user)
            &&& forall|j: int|
                0 <= j < n && #[trigger] is_eligible(devices, j, wanted, by_user) ==> device_rank(
                    devices[j],
                ) < device_rank(devices[i]) || (device_rank(devices[j]) == device_rank(devices[i])
                    && j <= i)
        },
    decreases n,
{
    if n > 0 {
        selected_device_is_best(devices, wanted, by_user, (n - 1) as nat);
    }
}

/// A node that the user has asked for is never replaced by another one.
pub proof fn asked_for_device_is_kept(devices: Seq<DeviceInfo>, wanted: DrmDevice, i: int)
    requires
        0 <= i < devices.len(),
        is_eligible(devices, i, Some(wanted), true),
    ensures
        has_node(devices[i], wanted),
{
}

/// A node of the compositor is preferred to all others where a device has it, but its lack keeps no
/// device from being used.
pub proof fn compositor_device_is_preferred(devices: Seq<DeviceInfo>, wanted: DrmDevice, i: int)
    requires
        0 <= i < devices.len(),
        admitted(devices[i]) is Ok,
    ensures
        node_is_found(devices, wanted) ==> (is_eligible(devices, i, Some(wanted), false)
            <==> has_node(devices[i], wanted)),
        !node_is_found(devices, wanted) ==> is_eligible(devices, i, Some(wanted), false),
{
}

/// A family of queues that is found transfers and is the first one that does; none is found only where
/// none does.
pub proof fn first_transferring_family_is_found(flags: Seq<u32>, from: int)
    requires
        0 <= from <= flags.len(),
    ensures
        transfer_family(flags, from) matches Some(i) ==> from <= i < flags.len() && flags[i] & 0x4
            == 0x4 && forall|j: int| from <= j < i ==> (#[trigger] flags[j]) & 0x4 != 0x4,
        transfer_family(flags, from) is None ==> forall|j: int|
            from <= j < flags.len() ==> (#[trigger] flags[j]) & 0x4 != 0x4,
    decreases flags.len() - from,
{
    if from < flags.len() {
        first_transferring_family_is_found(flags, from + 1);
    }
}

/// A device is of use exactly when it shares memory, transfers, and scales internal images. What it
/// lacks is told in this order.
pub proof fn useful_device_can_do_all(d: DeviceInfo)
    ensures
        ({
            let shares = d.external_memory_fd && d.dma_buf;
            let transfers = exists|i: int|
                0 <= i < d.queue_flags@.len() && (#[trigger] d.queue_flags@[i]) & 0x4 == 0x4;
            let scales = d.format_features & 0x1c00 == 0x1c00;
            &&& admitted(d) is Ok <==> shares && transfers && scales
            &&& admitted(d) == Err::<int, Rejection>(Rejection::NoSharing) <==> !shares
            &&& admitted(d) == Err::<int, Rejection>(Rejection::NoTransfer) <==> shares && !transfers
            &&& admitted(d) == Err::<int, Rejection>(Rejection::NoBlit) <==> shares && transfers
                && !scales
            &&& admitted(d) matches Ok(i) ==> 0 <= i < d.queue_flags@.len() && d.queue_flags@[i]
                & 0x4 == 0x4 && forall|j: int|
                0 <= j < i ==> (#[trigger] d.queue_flags@[j]) & 0x4 != 0x4
        }),
{
    first_transferring_family_is_found(d.queue_flags@, 0);
}

/// A device has a node exactly when it is its primary one or the one for rendering.
pub proof fn either_node_counts(d: DeviceInfo, wanted: DrmDevice)
    ensures
        d.primary == Some(wanted) ==> has_node(d, wanted),
        d.render == Some(wanted) ==> has_node(d, wanted),
        has_node(d, wanted) ==> d.primary == Some(wanted) || d.render == Some(wanted),
{
}

/// A device with modifiers is preferred to any without. Of devices that are alike in this, an
/// integrated one comes first, then a discrete one, a virtual one, and any other.
pub proof fn modifiers_count_more_than_kind(a: DeviceInfo, b: DeviceInfo)
    ensures
        a.drm_modifier && !b.drm_modifier ==> device_rank(a) > device_rank(b),
        a.drm_modifier == b.drm_modifier ==> {
            &&& a.device_type == b.device_type ==> device_rank(a) == device_rank(b)
            &&& a.device_type is Integrated && b.device_type !is Integrated ==> device_rank(a)
                > device_rank(b)
            &&& a.device_type is Discrete && b.device_type !is Integrated && b.device_type
                !is Discrete ==> device_rank(a) > device_rank(b)
            &&& a.device_type is Virtual && (b.device_type is Other || b.device_type is Unknown)
                ==> device_rank(a) > device_rank(b)
            &&& a.device_type is Other && b.device_type is Unknown ==> device_rank(a) > device_rank(
                b,
            )
        },
{
}

/// The three numbers of a version can be read back from how it is packed, as long as each has room.
pub proof fn packed_version_holds_its_numbers(major: u32, minor: u32, patch: u32)
    requires
        major < 128,
        minor < 1024,
        patch < 4096,
    ensures
        packed(major as nat, minor as nat, patch as nat) == major * 0x400000 + minor * 0x1000 + patch,
{
    assert((0u32 << 29) | (major << 22) | (minor << 12) | patch == major * 0x400000 + minor * 0x1000
        + patch) by (bit_vector)
        requires
            major < 128,
            minor < 1024,
            patch < 4096,
    ;
}

} // verus!
