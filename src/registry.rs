use vstd::prelude::*;
use vstd::string::*;
use crate::device::{closed_view, identity_of, Device, DeviceDescriptor, DeviceView};
use crate::error::UsbError;
use crate::text::{decimal, push_decimal};

verus! {

/// How the open sequence went for one enumerated device.
#[derive(Clone, Copy, Debug, PartialEq, Eq, Structural)]
pub enum Probe {
    /// Not probed: the registry already holds a device for it.
    Skipped,
    /// Its descriptor could not be read (native code).
    NoDescriptor(i32),
    /// Its descriptor was read, but no handle could be opened (native code).
    NotOpened(DeviceDescriptor, i32),
    /// Its descriptor was read and a handle opened.
    Opened(DeviceDescriptor, u64),
}

/// One native release that tearing a registry down calls for.
#[derive(Clone, Copy, Debug, PartialEq, Eq, Structural)]
pub enum Release {
    /// Close this communication handle.
    CloseHandle(u64),
    /// Free the enumeration list.
    FreeDeviceList,
}

/// An enumeration session: the enumerated device count and the devices
/// opened from it, at most one per enumerated device, each with a handle of
/// its own. Devices are reached by their position in the registry and are
/// released together with it.
///
/// Only one registry may be live in a process at a time: the native driver
/// it stands for is initialized process-wide.
#[derive(Debug)]
pub struct USBInterface {
    devices: Vec<Device>,
    device_count: usize,
}

/// The abstract state of a [`USBInterface`].
pub struct RegistryView {
    pub devices: Seq<DeviceView>,
    pub device_count: nat,
}

/// The abstract states of a sequence of devices.
pub open spec fn views(devices: Seq<Device>) -> Seq<DeviceView> {
    devices.map_values(|d: Device| d@)
}

impl View for USBInterface {
    type V = RegistryView;

    closed spec fn view(&self) -> RegistryView {
        RegistryView { devices: views(self.devices@), device_count: self.device_count as nat }
    }
}

/// Every device refers to a position inside a list of `count` devices, and
/// no two devices share a position or a handle.
pub open spec fn distinct(held: Seq<DeviceView>, count: nat) -> bool {
    &&& forall|k: int| 0 <= k < held.len() ==> (#[trigger] held[k]).raw_index < count
    &&& forall|j: int, k: int|
        0 <= j < k < held.len() ==> (#[trigger] held[j]).raw_index != (#[trigger] held[k]).raw_index
            && held[j].handle != held[k].handle
}

impl RegistryView {
    pub open spec fn wf(self) -> bool {
        distinct(self.devices, self.device_count)
    }
}

/// The first position from `k` on whose device refers to `raw_index`.
pub open spec fn position_from(held: Seq<DeviceView>, raw_index: usize, k: int) -> Option<int>
    decreases held.len() - k,
{
    if k < 0 || k >= held.len() {
        None
    } else if held[k].raw_index == raw_index {
        Some(k)
    } else {
        position_from(held, raw_index, k + 1)
    }
}

/// Whether some device holds `handle`.
pub open spec fn handle_held(held: Seq<DeviceView>, handle: u64) -> bool {
    exists|k: int| 0 <= k < held.len() && (#[trigger] held[k]).handle == handle
}

/// Whether `d` can join `held`: its position and its handle are both free.
pub open spec fn fresh(held: Seq<DeviceView>, d: DeviceView) -> bool {
    position_from(held, d.raw_index, 0) is None && !handle_held(held, d.handle)
}

/// `held` after offering it each of `candidates` in order: a candidate is
/// kept only where it is fresh.
pub open spec fn adopt(held: Seq<DeviceView>, candidates: Seq<DeviceView>) -> Seq<DeviceView>
    decreases candidates.len(),
{
    if candidates.len() == 0 {
        held
    } else {
        let h = adopt(held, candidates.drop_last());
        if fresh(h, candidates.last()) {
            h.push(candidates.last())
        } else {
            h
        }
    }
}

/// The devices that a best-effort pass over `probes` opens, in order:
/// one for each `Opened` probe, at that probe's position.
pub open spec fn opened(probes: Seq<Probe>) -> Seq<DeviceView>
    decreases probes.len(),
{
    if probes.len() == 0 {
        Seq::empty()
    } else {
        let earlier = opened(probes.drop_last());
        match probes.last() {
            Probe::Opened(d, h) => earlier.push(
                DeviceView { raw_index: (probes.len() - 1) as usize, descriptor: d, handle: h, closed: false },
            ),
            _ => earlier,
        }
    }
}

/// Whether a descriptor carries the given identity.
pub open spec fn has_identity(d: DeviceDescriptor, product_id: u16, vendor_id: u16) -> bool {
    d.product_id == product_id && d.vendor_id == vendor_id
}

/// Whether the scan stops at a descriptor: it is unreadable or it matches.
pub open spec fn stops_at(d: Result<DeviceDescriptor, i32>, product_id: u16, vendor_id: u16) -> bool {
    match d {
        Err(_) => true,
        Ok(x) => has_identity(x, product_id, vendor_id),
    }
}

/// The scan of `open_device` from position `i` on: the first device with the
/// identity, unless a descriptor read fails before it.
pub open spec fn find_from(
    descriptors: Seq<Result<DeviceDescriptor, i32>>,
    product_id: u16,
    vendor_id: u16,
    i: int,
) -> Result<usize, UsbError>
    decreases descriptors.len() - i,
{
    if i < 0 || i >= descriptors.len() {
        Err(UsbError::DeviceNotFound)
    } else {
        match descriptors[i] {
            Err(c) => Err(UsbError::DescriptorReadFailed(c)),
            Ok(d) => if has_identity(d, product_id, vendor_id) {
                Ok(i as usize)
            } else {
                find_from(descriptors, product_id, vendor_id, i + 1)
            },
        }
    }
}

/// Whether `read` holds the descriptors the scan reads from the list
/// `all`: a prefix of it that is the whole list or ends where the scan stops.
pub open spec fn scanned_prefix(
    read: Seq<Result<DeviceDescriptor, i32>>,
    all: Seq<Result<DeviceDescriptor, i32>>,
    product_id: u16,
    vendor_id: u16,
) -> bool {
    &&& read.len() <= all.len()
    &&& read == all.subrange(0, read.len() as int)
    &&& read.len() == all.len() || (read.len() > 0 && stops_at(read.last(), product_id, vendor_id))
    &&& forall|k: int| 0 <= k < read.len() - 1 ==> !stops_at(#[trigger] read[k], product_id, vendor_id)
}

/// What `open_device` does to the registry's devices `held`: the position it
/// yields (or the error), and the devices afterwards.
pub open spec fn open_outcome(
    held: Seq<DeviceView>,
    descriptors: Seq<Result<DeviceDescriptor, i32>>,
    product_id: u16,
    vendor_id: u16,
    opened: Result<u64, i32>,
) -> (Result<usize, UsbError>, Seq<DeviceView>) {
    match find_from(descriptors, product_id, vendor_id, 0) {
        Err(e) => (Err(e), held),
        Ok(i) => match position_from(held, i, 0) {
            Some(p) => if held[p].closed {
                (Err(UsbError::DeviceClosed), held)
            } else if !has_identity(held[p].descriptor, product_id, vendor_id) {
                (Err(UsbError::DeviceNotFound), held)
            } else {
                (Ok(p as usize), held)
            },
            None => match opened {
                Err(c) => (Err(UsbError::OpenFailed(c)), held),
                Ok(h) => if handle_held(held, h) {
                    (Err(UsbError::HandleInUse(h)), held)
                } else {
                    (
                        Ok(held.len() as usize),
                        held.push(
                            DeviceView { raw_index: i, descriptor: descriptors[i as int]->Ok_0, handle: h, closed: false },
                        ),
                    )
                },
            },
        },
    }
}

/// The releases that tear down a registry holding `devices`: each device's
/// handle in order, then the enumeration list.
pub open spec fn release_plan(devices: Seq<DeviceView>) -> Seq<Release> {
    devices.map_values(|d: DeviceView| Release::CloseHandle(d.handle)).push(Release::FreeDeviceList)
}

/// The version text for a native driver version.
pub open spec fn version_text(major: u16, minor: u16, micro: u16, nano: u16) -> Seq<char> {
    "libusb v"@ + decimal(major as nat) + "."@ + decimal(minor as nat) + "."@ + decimal(micro as nat) + "."@
        + decimal(nano as nat)
}

/// Every device a pass opens is open and lies within the probed list.
proof fn lemma_opened_in_range(probes: Seq<Probe>)
    requires
        probes.len() <= usize::MAX,
    ensures
        forall|i: int|
            0 <= i < opened(probes).len() ==> (#[trigger] opened(probes)[i]).raw_index < probes.len()
                && !opened(probes)[i].closed,
    decreases probes.len(),
{
    if probes.len() > 0 {
        let earlier = probes.drop_last();
        lemma_opened_in_range(earlier);
        assert forall|i: int| 0 <= i < opened(probes).len() implies (#[trigger] opened(probes)[i]).raw_index
            < probes.len() && !opened(probes)[i].closed by {
            if i < opened(earlier).len() {
                assert(opened(probes)[i] == opened(earlier)[i]);
            }
        }
    }
}

/// A position found from `k` on refers to `raw_index`; none found means no
/// device from `k` on does.
proof fn lemma_position_from(held: Seq<DeviceView>, raw_index: usize, k: int)
    requires
        0 <= k,
    ensures
        position_from(held, raw_index, k) matches Some(p) ==> k <= p < held.len() && held[p].raw_index
            == raw_index,
        position_from(held, raw_index, k) is None ==> forall|j: int|
            k <= j < held.len() ==> (#[trigger] held[j]).raw_index != raw_index,
    decreases held.len() - k,
{
    if k < held.len() && held[k].raw_index != raw_index {
        lemma_position_from(held, raw_index, k + 1);
    }
}

/// Adding a fresh device within the list keeps the devices distinct.
proof fn lemma_push_fresh(held: Seq<DeviceView>, count: nat, d: DeviceView)
    requires
        distinct(held, count),
        fresh(held, d),
        d.raw_index < count,
    ensures
        distinct(held.push(d), count),
{
    lemma_position_from(held, d.raw_index, 0);
    let n = held.push(d);
    assert forall|j: int, k: int| 0 <= j < k < n.len() implies (#[trigger] n[j]).raw_index != (#[trigger] n[k]).raw_index
        && n[j].handle != n[k].handle by {
        if k == held.len() {
            assert(n[j] == held[j]);
            if n[j].handle == d.handle {
                assert(handle_held(held, d.handle));
            }
        } else {
            assert(n[j] == held[j] && n[k] == held[k]);
        }
    }
    assert forall|k: int| 0 <= k < n.len() implies (#[trigger] n[k]).raw_index < count by {
        if k < held.len() {
            assert(n[k] == held[k]);
        }
    }
}

/// Offering devices within the list keeps the devices distinct.
proof fn lemma_adopt_distinct(held: Seq<DeviceView>, count: nat, candidates: Seq<DeviceView>)
    requires
        distinct(held, count),
        forall|i: int| 0 <= i < candidates.len() ==> (#[trigger] candidates[i]).raw_index < count,
    ensures
        distinct(adopt(held, candidates), count),
    decreases candidates.len(),
{
    if candidates.len() > 0 {
        let earlier = candidates.drop_last();
        assert forall|i: int| 0 <= i < earlier.len() implies (#[trigger] earlier[i]).raw_index < count by {
            assert(earlier[i] == candidates[i]);
        }
        lemma_adopt_distinct(held, count, earlier);
        let h = adopt(held, earlier);
        if fresh(h, candidates.last()) {
            lemma_push_fresh(h, count, candidates.last());
        }
    }
}

/// A scan that succeeds lands on a readable descriptor with the identity.
proof fn lemma_find_from_hit(
    descriptors: Seq<Result<DeviceDescriptor, i32>>,
    product_id: u16,
    vendor_id: u16,
    i: int,
)
    requires
        find_from(descriptors, product_id, vendor_id, i) is Ok,
        descriptors.len() <= usize::MAX,
    ensures
        ({
            let k = find_from(descriptors, product_id, vendor_id, i)->Ok_0 as int;
            &&& i <= k < descriptors.len()
            &&& descriptors[k] is Ok
            &&& has_identity(descriptors[k]->Ok_0, product_id, vendor_id)
        }),
    decreases descriptors.len() - i,
{
    if 0 <= i < descriptors.len() {
        if let Ok(d) = descriptors[i] {
            if !has_identity(d, product_id, vendor_id) {
                lemma_find_from_hit(descriptors, product_id, vendor_id, i + 1);
            }
        }
    }
}

/// The scan reads no further than where it stops: on the descriptors up to
/// and including the first unreadable or matching one, it decides exactly
/// as on the whole list.
pub proof fn lemma_scan_stops_early(
    read: Seq<Result<DeviceDescriptor, i32>>,
    all: Seq<Result<DeviceDescriptor, i32>>,
    product_id: u16,
    vendor_id: u16,
)
    requires
        scanned_prefix(read, all, product_id, vendor_id),
        all.len() <= usize::MAX,
    ensures
        find_from(read, product_id, vendor_id, 0) == find_from(all, product_id, vendor_id, 0),
{
    lemma_scan_prefix_from(read, all, product_id, vendor_id, 0);
}

proof fn lemma_scan_prefix_from(
    read: Seq<Result<DeviceDescriptor, i32>>,
    all: Seq<Result<DeviceDescriptor, i32>>,
    product_id: u16,
    vendor_id: u16,
    i: int,
)
    requires
        scanned_prefix(read, all, product_id, vendor_id),
        0 <= i <= read.len(),
        i < read.len() || read.len() == all.len(),
    ensures
        find_from(read, product_id, vendor_id, i) == find_from(all, product_id, vendor_id, i),
    decreases read.len() - i,
{
    if i < read.len() {
        assert(read[i] == all[i]);
        if !stops_at(read[i], product_id, vendor_id) {
            lemma_scan_prefix_from(read, all, product_id, vendor_id, i + 1);
        }
    }
}

/// Every device that `open_device` yields reports, through `identity`, the
/// very (vendor id, product id) pair it was looked up by.
pub proof fn lemma_open_device_identity(
    held: Seq<DeviceView>,
    descriptors: Seq<Result<DeviceDescriptor, i32>>,
    product_id: u16,
    vendor_id: u16,
    opened: Result<u64, i32>,
)
    requires
        open_outcome(held, descriptors, product_id, vendor_id, opened).0 is Ok,
        descriptors.len() <= usize::MAX,
        held.len() < usize::MAX,
    ensures
        ({
            let (r, after) = open_outcome(held, descriptors, product_id, vendor_id, opened);
            identity_of(after[r->Ok_0 as int]) == Ok::<(u16, u16), UsbError>((vendor_id, product_id))
        }),
{
    lemma_find_from_hit(descriptors, product_id, vendor_id, 0);
    let i = find_from(descriptors, product_id, vendor_id, 0)->Ok_0;
    lemma_position_from(held, i, 0);
}

/// Tearing a registry down releases every device's handle exactly once, in
/// the order the devices were opened and whether or not any of them was
/// closed before, and then the enumeration list exactly once.
pub proof fn lemma_teardown_releases_once(devices: Seq<DeviceView>, count: nat)
    requires
        distinct(devices, count),
    ensures
        release_plan(devices).len() == devices.len() + 1,
        forall|i: int|
            0 <= i < devices.len() ==> #[trigger] release_plan(devices)[i] == Release::CloseHandle(devices[i].handle),
        forall|j: int|
            0 <= j < release_plan(devices).len() ==> (#[trigger] release_plan(devices)[j] is FreeDeviceList
                <==> j == devices.len()),
        forall|i: int, j: int|
            0 <= i < j < release_plan(devices).len() ==> #[trigger] release_plan(devices)[i]
                != #[trigger] release_plan(devices)[j],
{
    let plan = release_plan(devices);
    assert forall|i: int, j: int| 0 <= i < j < plan.len() implies #[trigger] plan[i] != #[trigger] plan[j] by {
        if j < devices.len() {
            assert(devices[i].handle != devices[j].handle);
        }
    }
}

/// The devices that a best-effort pass over the enumeration list opens:
/// one for each probe that was described and opened, at its position, in
/// enumeration order. The others are skipped. They are handed to a registry
/// at once, which owns them from then on.
pub(crate) fn get_devices(probes: &Vec<Probe>) -> (r: Vec<Device>)
    ensures
        views(r@) == opened(probes@),
{
    let mut out: Vec<Device> = Vec::new();
    let mut i: usize = 0;
    while i < probes.len()
        invariant
            i <= probes@.len(),
            views(out@) == opened(probes@.subrange(0, i as int)),
        decreases probes@.len() - i,
    {
        let ghost before = out@;
        assert(probes@.subrange(0, i + 1).drop_last() =~= probes@.subrange(0, i as int));
        if let Probe::Opened(d, h) = probes[i] {
            let dev = Device::new(d, h, i);
            let ghost dv = dev@;
            out.push(dev);
            assert(views(out@) =~= views(before).push(dv));
        }
        i = i + 1;
    }
    assert(probes@.subrange(0, i as int) =~= probes@);
    out
}

/// The scan over `descriptors`: the first position with the identity and its
/// descriptor, unless a read before it failed.
fn scan(product_id: u16, vendor_id: u16, descriptors: &Vec<Result<DeviceDescriptor, i32>>) -> (r: Result<
    (usize, DeviceDescriptor),
    UsbError,
>)
    ensures
        match r {
            Ok((i, d)) => find_from(descriptors@, product_id, vendor_id, 0) == Ok::<usize, UsbError>(i) && i
                < descriptors@.len() && descriptors@[i as int] == Ok::<DeviceDescriptor, i32>(d),
            Err(e) => find_from(descriptors@, product_id, vendor_id, 0) == Err::<usize, UsbError>(e),
        },
{
    let mut i: usize = 0;
    while i < descriptors.len()
        invariant
            i <= descriptors@.len(),
            find_from(descriptors@, product_id, vendor_id, 0) == find_from(descriptors@, product_id, vendor_id, i as int),
        decreases descriptors@.len() - i,
    {
        match descriptors[i] {
            Err(c) => {
                return Err(UsbError::DescriptorReadFailed(c));
            },
            Ok(d) => {
                if d.product_id == product_id && d.vendor_id == vendor_id {
                    return Ok((i, d));
                }
            },
        }
        i = i + 1;
    }
    Err(UsbError::DeviceNotFound)
}

impl USBInterface {
    /// A registry, from the native initialization code and the number of
    /// devices the first enumeration found (negative: its error code).
    pub fn new(init_code: i32, enumerated: isize) -> (r: Result<USBInterface, UsbError>)
        ensures
            init_code < 0 ==> r == Err::<USBInterface, UsbError>(UsbError::InitializationFailed(init_code)),
            init_code >= 0 && enumerated < 0 ==> r == Err::<USBInterface, UsbError>(
                UsbError::EnumerationFailed(enumerated),
            ),
            init_code >= 0 && enumerated >= 0 ==> (r matches Ok(reg) && reg@.devices.len() == 0
                && reg@.device_count == enumerated as nat && reg@.wf()),
    {
        if init_code < 0 {
            return Err(UsbError::InitializationFailed(init_code));
        }
        if enumerated < 0 {
            return Err(UsbError::EnumerationFailed(enumerated));
        }
        let reg = USBInterface { devices: Vec::new(), device_count: enumerated as usize };
        assert(reg@.devices =~= Seq::<DeviceView>::empty());
        Ok(reg)
    }

    /// How many devices the enumeration found.
    pub fn device_count(&self) -> (r: usize)
        ensures
            r as nat == self@.device_count,
    {
        self.device_count
    }

    /// How many devices the registry holds.
    pub fn len(&self) -> (r: usize)
        ensures
            r as nat == self@.devices.len(),
    {
        self.devices.len()
    }

    /// The device at `position`, borrowed from the registry.
    pub fn device(&self, position: usize) -> (r: Option<&Device>)
        ensures
            position < self@.devices.len() ==> (r matches Some(d) && d@ == self@.devices[position as int]),
            position >= self@.devices.len() ==> r is None,
    {
        if position < self.devices.len() {
            Some(&self.devices[position])
        } else {
            None
        }
    }

    /// Closes the device at `position`; closing it again changes nothing.
    /// Its handle is still released at teardown.
    pub fn close(&mut self, position: usize) -> (r: Result<(), UsbError>)
        requires
            old(self)@.wf(),
        ensures
            final(self)@.wf(),
            final(self)@.device_count == old(self)@.device_count,
            position < old(self)@.devices.len() ==> r is Ok && final(self)@.devices == old(self)@.devices.update(
                position as int,
                closed_view(old(self)@.devices[position as int]),
            ),
            position >= old(self)@.devices.len() ==> r == Err::<(), UsbError>(UsbError::DeviceNotFound)
                && final(self)@.devices == old(self)@.devices,
    {
        if position >= self.devices.len() {
            return Err(UsbError::DeviceNotFound);
        }
        let mut d = self.devices.remove(position);
        d.close();
        self.devices.insert(position, d);
        let ghost want = old(self)@.devices.update(position as int, closed_view(old(self)@.devices[position as int]));
        assert(self@.devices =~= want);
        assert forall|j: int, k: int| 0 <= j < k < want.len() implies (#[trigger] want[j]).raw_index
            != (#[trigger] want[k]).raw_index && want[j].handle != want[k].handle by {
            assert(old(self)@.devices[j].raw_index != old(self)@.devices[k].raw_index);
        }
        assert forall|k: int| 0 <= k < want.len() implies (#[trigger] want[k]).raw_index
            < self@.device_count by {
            assert(old(self)@.devices[k].raw_index < self@.device_count);
        }
        Ok(())
    }

    /// The position of the device held for enumerated device `raw_index`.
    pub fn held_position(&self, raw_index: usize) -> (r: Option<usize>)
        ensures
            match r {
                Some(p) => position_from(self@.devices, raw_index, 0) == Some(p as int),
                None => position_from(self@.devices, raw_index, 0) is None,
            },
    {
        let mut k: usize = 0;
        while k < self.devices.len()
            invariant
                k <= self.devices@.len(),
                position_from(self@.devices, raw_index, 0) == position_from(self@.devices, raw_index, k as int),
            decreases self.devices@.len() - k,
        {
            if self.devices[k].raw() == raw_index {
                return Some(k);
            }
            k = k + 1;
        }
        None
    }

    /// Whether a held device already has `handle`.
    fn handle_in_use(&self, handle: u64) -> (r: bool)
        ensures
            r == handle_held(self@.devices, handle),
    {
        let mut k: usize = 0;
        while k < self.devices.len()
            invariant
                k <= self.devices@.len(),
                forall|j: int| 0 <= j < k ==> (#[trigger] self@.devices[j]).handle != handle,
            decreases self.devices@.len() - k,
        {
            if self.devices[k].handle() == handle {
                assert(self@.devices[k as int].handle == handle);
                return true;
            }
            k = k + 1;
        }
        false
    }

    /// The version text for the native driver version `major.minor.micro.nano`.
    pub fn libusb_version_string(major: u16, minor: u16, micro: u16, nano: u16) -> (r: String)
        ensures
            r@ == version_text(major, minor, micro, nano),
    {
        let mut s = String::from_str("libusb v");
        push_decimal(&mut s, major as u32);
        s.append(".");
        push_decimal(&mut s, minor as u32);
        s.append(".");
        push_decimal(&mut s, micro as u32);
        s.append(".");
        push_decimal(&mut s, nano as u32);
        s
    }

    /// Best-effort enumeration over `probes`, one per enumerated device in
    /// enumeration order: keeps a device for every one that could be
    /// described and opened and is not held yet under its position or its
    /// handle, skips the others, and returns the positions of the whole
    /// opened set, in order.
    pub fn open_all_devices(&mut self, probes: &Vec<Probe>) -> (r: Vec<usize>)
        requires
            old(self)@.wf(),
            probes@.len() == old(self)@.device_count,
        ensures
            final(self)@.wf(),
            final(self)@.devices == adopt(old(self)@.devices, opened(probes@)),
            final(self)@.device_count == old(self)@.device_count,
            r@.len() == final(self)@.devices.len(),
            forall|i: int| 0 <= i < r@.len() ==> #[trigger] r@[i] == i,
    {
        let mut candidates = get_devices(probes);
        let ghost all = opened(probes@);
        proof {
            assert(probes@.len() == probes.len());
            lemma_opened_in_range(probes@);
        }
        let ghost n = candidates@.len();
        assert(candidates@.len() == candidates.len());
        let mut k: usize = 0;
        while candidates.len() > 0
            invariant
                k + candidates@.len() == n,
                n == all.len(),
                n <= usize::MAX,
                views(candidates@) == all.subrange(k as int, n as int),
                self@.devices == adopt(old(self)@.devices, all.subrange(0, k as int)),
                self@.device_count == old(self)@.device_count,
                self@.wf(),
                forall|i: int| 0 <= i < all.len() ==> (#[trigger] all[i]).raw_index < self@.device_count,
            decreases candidates@.len(),
        {
            let ghost before = candidates@;
            let c = candidates.remove(0);
            let ghost cv = c@;
            assert(c == before[0]);
            assert(views(before)[0] == before[0]@);
            assert(all.subrange(k as int, n as int)[0] == all[k as int]);
            assert(cv == all[k as int]);
            assert(candidates@ == before.remove(0));
            assert(views(candidates@) =~= views(before).subrange(1, views(before).len() as int));
            assert(views(candidates@) =~= all.subrange(k + 1, n as int));
            assert(all.subrange(0, k + 1).drop_last() =~= all.subrange(0, k as int));
            let free_pos = self.held_position(c.raw()).is_none();
            let free_handle = !self.handle_in_use(c.handle());
            if free_pos && free_handle {
                proof {
                    lemma_push_fresh(self@.devices, self@.device_count, cv);
                }
                self.devices.push(c);
                assert(self@.devices =~= adopt(old(self)@.devices, all.subrange(0, k as int)).push(cv));
            }
            k = k + 1;
        }
        assert(all.subrange(0, k as int) =~= all);
        let mut out: Vec<usize> = Vec::new();
        let mut p: usize = 0;
        while p < self.devices.len()
            invariant
                p <= self.devices@.len(),
                out@.len() == p,
                forall|i: int| 0 <= i < p ==> #[trigger] out@[i] == i,
            decreases self.devices@.len() - p,
        {
            out.push(p);
            p = p + 1;
        }
        out
    }

    /// Whether the scan of [`Self::open_device`] stops at this descriptor:
    /// it is unreadable or carries the identity. No descriptor after it
    /// needs to be read.
    pub fn scan_stops(product_id: u16, vendor_id: u16, descriptor: &Result<DeviceDescriptor, i32>) -> (r: bool)
        ensures
            r == stops_at(*descriptor, product_id, vendor_id),
    {
        match descriptor {
            Err(_) => true,
            Ok(d) => d.product_id == product_id && d.vendor_id == vendor_id,
        }
    }

    /// The scan of [`Self::open_device`] over the descriptors read so far, in
    /// enumeration order: the position of the first device with the
    /// identity, unless a read before it failed.
    pub fn find_device(
        &self,
        product_id: u16,
        vendor_id: u16,
        descriptors: &Vec<Result<DeviceDescriptor, i32>>,
    ) -> (r: Result<usize, UsbError>)
        ensures
            r == find_from(descriptors@, product_id, vendor_id, 0),
    {
        match scan(product_id, vendor_id, descriptors) {
            Ok((i, _)) => Ok(i),
            Err(e) => Err(e),
        }
    }

    /// Opens the first device with the identity and returns its position in
    /// the registry. `descriptors` are those the scan read, in enumeration
    /// order; `opened` is the native open of the device it chose, made only
    /// where [`Self::held_position`] finds none held for it. A device
    /// already held is returned as it is; a handle already held is refused.
    pub fn open_device(
        &mut self,
        product_id: u16,
        vendor_id: u16,
        descriptors: &Vec<Result<DeviceDescriptor, i32>>,
        opened: Result<u64, i32>,
    ) -> (r: Result<usize, UsbError>)
        requires
            old(self)@.wf(),
            descriptors@.len() <= old(self)@.device_count,
        ensures
            final(self)@.wf(),
            (r, final(self)@.devices) == open_outcome(old(self)@.devices, descriptors@, product_id, vendor_id, opened),
            final(self)@.device_count == old(self)@.device_count,
    {
        let (i, d) = match scan(product_id, vendor_id, descriptors) {
            Ok(found) => found,
            Err(e) => {
                return Err(e);
            },
        };
        proof {
            assert(descriptors@.len() == descriptors.len());
            lemma_find_from_hit(descriptors@, product_id, vendor_id, 0);
            lemma_position_from(self@.devices, i, 0);
        }
        if let Some(p) = self.held_position(i) {
            let held = &self.devices[p];
            assert(held@ == self@.devices[p as int]);
            if !held.can_use() {
                return Err(UsbError::DeviceClosed);
            }
            return match held.identity() {
                Ok((v, q)) => if q == product_id && v == vendor_id {
                    Ok(p)
                } else {
                    Err(UsbError::DeviceNotFound)
                },
                Err(e) => Err(e),
            };
        }
        match opened {
            Ok(h) => {
                if self.handle_in_use(h) {
                    return Err(UsbError::HandleInUse(h));
                }
                let dev = Device::new(d, h, i);
                let ghost dv = dev@;
                proof {
                    lemma_push_fresh(self@.devices, self@.device_count, dv);
                }
                let p = self.devices.len();
                self.devices.push(dev);
                assert(self@.devices =~= old(self)@.devices.push(dv));
                Ok(p)
            },
            Err(c) => Err(UsbError::OpenFailed(c)),
        }
    }

    /// Ends the session: the native releases to perform, in order. Every
    /// device's handle is closed once, then the enumeration list is freed.
    /// The registry, and every device in it, is gone afterwards.
    pub fn teardown(self) -> (r: Vec<Release>)
        ensures
            r@ == release_plan(self@.devices),
    {
        let mut out: Vec<Release> = Vec::new();
        let mut i: usize = 0;
        while i < self.devices.len()
            invariant
                i <= self.devices@.len(),
                out@ == self@.devices.subrange(0, i as int).map_values(
                    |d: DeviceView| Release::CloseHandle(d.handle),
                ),
            decreases self.devices@.len() - i,
        {
            out.push(Release::CloseHandle(self.devices[i].handle()));
            i = i + 1;
            assert(out@ =~= self@.devices.subrange(0, i as int).map_values(
                |d: DeviceView| Release::CloseHandle(d.handle),
            ));
        }
        out.push(Release::FreeDeviceList);
        assert(self@.devices.subrange(0, i as int) =~= self@.devices);
        assert(out@ =~= release_plan(self@.devices));
        out
    }
}

} // verus!
