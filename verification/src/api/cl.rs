//! The native call surface: typed handles and the fallible calls that
//! create, query, enqueue on, and release driver resources.
//!
//! Every call takes the [`Host`] it operates on explicitly and returns
//! either its result or a typed error; code paths that fail leave the
//! host unchanged.

use vstd::prelude::*;

use super::error::{Error, OCLErrorKind};
use super::host::{Host, HostBuffer, HostContext, HostEvent, HostKernel, HostProgram, HostQueue, KernelArg};
use super::source::{count_entries, entry_count};

verus! {

/// Opaque handle of a vendor platform.
#[derive(Clone, Copy, PartialEq, Eq, Structural, Debug)]
pub struct Platform(pub usize);

impl Platform {
    /// The raw identifier behind the handle.
    pub fn as_ptr(self) -> (r: usize)
        ensures
            r == self.0,
    {
        self.0
    }
}

/// Opaque handle of a physical or logical compute device under a platform.
#[derive(Clone, Copy, PartialEq, Eq, Structural, Debug, Hash)]
pub struct CLIntDevice(pub usize);

/// Owning handle of a driver context.
#[derive(Clone, Copy, PartialEq, Eq, Structural, Debug, Hash)]
pub struct Context(pub usize);

/// Owning handle of a command queue bound to one context and device.
#[derive(Clone, Copy, PartialEq, Eq, Structural, Debug)]
pub struct CommandQueue(pub usize);

/// Handle of the completion signal of one asynchronous operation.
#[derive(Clone, Copy, PartialEq, Eq, Structural, Debug)]
pub struct Event(pub usize);

/// Owning handle of a device-visible memory object.
#[derive(Clone, Copy, PartialEq, Eq, Structural, Debug)]
pub struct Mem(pub usize);

/// Owning handle of a compiled program.
#[derive(Clone, Copy, PartialEq, Eq, Structural, Debug)]
pub struct Program(pub usize);

/// Handle of a kernel entry point extracted from a built program.
#[derive(Clone, Copy, PartialEq, Eq, Structural, Debug)]
pub struct Kernel(pub usize);

/// Platform property selectors.
#[derive(Clone, Copy, PartialEq, Eq, Structural)]
pub enum PlatformInfo {
    PlatformName,
}

impl PlatformInfo {
    /// The native parameter id of this selector.
    pub open spec fn code_spec(self) -> u64 {
        match self {
            PlatformInfo::PlatformName => 0x0903,
        }
    }

    /// The native parameter id of this selector.
    pub fn code(self) -> (r: u64)
        ensures
            r == self.code_spec(),
    {
        match self {
            PlatformInfo::PlatformName => 0x0903,
        }
    }
}

/// The device kinds a discovery query can ask for, combined as a bitmask.
#[derive(Clone, Copy, PartialEq, Eq, Structural, Debug)]
pub enum DeviceType {
    DEFAULT,
    CPU,
    GPU,
    ACCELERATOR,
}

impl DeviceType {
    /// The bit this kind contributes to a device-type bitmask.
    pub open spec fn bits_spec(self) -> u64 {
        match self {
            DeviceType::DEFAULT => 1,
            DeviceType::CPU => 2,
            DeviceType::GPU => 4,
            DeviceType::ACCELERATOR => 8,
        }
    }

    /// The bit this kind contributes to a device-type bitmask.
    pub fn bits(self) -> (r: u64)
        ensures
            r == self.bits_spec(),
    {
        match self {
            DeviceType::DEFAULT => 1,
            DeviceType::CPU => 2,
            DeviceType::GPU => 4,
            DeviceType::ACCELERATOR => 8,
        }
    }
}

/// True when a device of the given kind is selected by a type bitmask.
pub open spec fn kind_matches(kind: DeviceType, mask: u64) -> bool {
    kind.bits_spec() & mask != 0
}

/// Device property selectors.
#[derive(Clone, Copy, PartialEq, Eq, Structural)]
pub enum DeviceInfo {
    MaxMemAllocSize,
    GlobalMemSize,
    NAME,
    VERSION,
    HostUnifiedMemory,
}

impl DeviceInfo {
    /// The native parameter id of this selector.
    pub open spec fn code_spec(self) -> u64 {
        match self {
            DeviceInfo::MaxMemAllocSize => 0x1010,
            DeviceInfo::GlobalMemSize => 0x101F,
            DeviceInfo::NAME => 0x102B,
            DeviceInfo::VERSION => 0x102F,
            DeviceInfo::HostUnifiedMemory => 0x1035,
        }
    }

    /// The native parameter id of this selector.
    pub fn code(self) -> (r: u64)
        ensures
            r == self.code_spec(),
    {
        match self {
            DeviceInfo::MaxMemAllocSize => 0x1010,
            DeviceInfo::GlobalMemSize => 0x101F,
            DeviceInfo::NAME => 0x102B,
            DeviceInfo::VERSION => 0x102F,
            DeviceInfo::HostUnifiedMemory => 0x1035,
        }
    }
}

/// Access-mode and host-pointer flags of a memory object, combined with
/// bitwise or of their bits.
#[derive(Clone, Copy, PartialEq, Eq, Structural)]
pub enum MemFlags {
    MemReadWrite,
    MemWriteOnly,
    MemReadOnly,
    MemUseHostPtr,
    MemAllocHostPtr,
    MemCopyHostPtr,
    MemHostWriteOnly,
    MemHostReadOnly,
    MemHostNoAccess,
}

impl MemFlags {
    /// The bit this flag contributes to a flag word.
    pub open spec fn bits_spec(self) -> u64 {
        match self {
            MemFlags::MemReadWrite => 1,
            MemFlags::MemWriteOnly => 1u64 << 1,
            MemFlags::MemReadOnly => 1u64 << 2,
            MemFlags::MemUseHostPtr => 1u64 << 3,
            MemFlags::MemAllocHostPtr => 1u64 << 4,
            MemFlags::MemCopyHostPtr => 1u64 << 5,
            MemFlags::MemHostWriteOnly => 1u64 << 7,
            MemFlags::MemHostReadOnly => 1u64 << 8,
            MemFlags::MemHostNoAccess => 1u64 << 9,
        }
    }

    /// The bit this flag contributes to a flag word.
    pub fn bits(self) -> (r: u64)
        ensures
            r == self.bits_spec(),
    {
        match self {
            MemFlags::MemReadWrite => 1,
            MemFlags::MemWriteOnly => 1u64 << 1,
            MemFlags::MemReadOnly => 1u64 << 2,
            MemFlags::MemUseHostPtr => 1u64 << 3,
            MemFlags::MemAllocHostPtr => 1u64 << 4,
            MemFlags::MemCopyHostPtr => 1u64 << 5,
            MemFlags::MemHostWriteOnly => 1u64 << 7,
            MemFlags::MemHostReadOnly => 1u64 << 8,
            MemFlags::MemHostNoAccess => 1u64 << 9,
        }
    }
}

/// Program build-info selectors.
#[derive(Clone, Copy, PartialEq, Eq, Structural)]
pub enum ProgramBuildInfo {
    Status,
    BuildLog,
}

impl ProgramBuildInfo {
    /// The native parameter id of this selector.
    pub open spec fn code_spec(self) -> u64 {
        match self {
            ProgramBuildInfo::Status => 0x1181,
            ProgramBuildInfo::BuildLog => 0x1183,
        }
    }

    /// The native parameter id of this selector.
    pub fn code(self) -> (r: u64)
        ensures
            r == self.code_spec(),
    {
        match self {
            ProgramBuildInfo::Status => 0x1181,
            ProgramBuildInfo::BuildLog => 0x1183,
        }
    }
}

/// What a device property query returns: the property as a string, as a
/// number, and as raw little-endian bytes.
pub struct DeviceReturnInfo {
    pub string: String,
    pub size: u64,
    pub data: Vec<u8>,
}

// ------------------------------------------------------------------
// Frame predicates and shared condition predicates
// ------------------------------------------------------------------

/// The tables an enqueue operation never touches.
pub open spec fn enqueue_frame(pre: Host, post: Host) -> bool {
    &&& post.platforms == pre.platforms
    &&& post.devices == pre.devices
    &&& post.contexts == pre.contexts
    &&& post.queues == pre.queues
    &&& post.programs == pre.programs
    &&& post.kernels == pre.kernels
}

/// All buffers but `m` unchanged; `m` keeps its context and reference
/// count and holds `data` afterwards.
pub open spec fn buffer_updated(pre: Host, post: Host, m: Mem, data: Seq<i32>) -> bool {
    &&& post.buffers@.len() == pre.buffers@.len()
    &&& forall|j: int| 0 <= j < pre.buffers@.len() && j != m.0 ==> post.buffers@[j]
        == pre.buffers@[j]
    &&& post.buffer_of(m).ctx == pre.buffer_of(m).ctx
    &&& post.buffer_of(m).refs == pre.buffer_of(m).refs
    &&& post.buffer_of(m).data@ == data
}

/// One event appended for an operation enqueued now on `q`.
pub open spec fn event_pushed(
    pre: Host,
    post: Host,
    q: CommandQueue,
    wait: Seq<Event>,
    released: bool,
) -> bool {
    post.events@ == pre.events@.push(
        HostEvent { queue: q, complete_at: pre.sched_completion(q, wait) as u64, released },
    )
}

// ------------------------------------------------------------------
// Platform and device queries
// ------------------------------------------------------------------

/// Enumerates all platforms, in discovery order.
pub fn get_platforms(host: &Host) -> (r: Result<Vec<Platform>, Error>)
    ensures
        r matches Ok(v) && v@.len() == host.platforms@.len(),
        r matches Ok(v) ==> forall|i: int| 0 <= i < v@.len() ==> (#[trigger] v@[i]).0 == i,
{
    let n = host.platforms.len();
    let mut v: Vec<Platform> = Vec::new();
    let mut i: usize = 0;
    while i < n
        invariant
            i <= n,
            v@.len() == i,
            forall|j: int| 0 <= j < i ==> (#[trigger] v@[j]).0 == j,
        decreases n - i,
    {
        v.push(Platform(i));
        i = i + 1;
    }
    Ok(v)
}

/// Queries a string property of a platform.
pub fn get_platform_info(host: &Host, platform: Platform, param_name: PlatformInfo) -> (r: Result<
    String,
    Error,
>)
    ensures
        r matches Ok(s) <==> host.valid_platform(platform),
        r matches Ok(s) ==> s@ == host.platform_of(platform).name@,
        r matches Err(e) ==> e.kind == OCLErrorKind::InvalidPlatform,
{
    if platform.0 >= host.platforms.len() {
        return Err(Error::from_kind(OCLErrorKind::InvalidPlatform));
    }
    match param_name {
        PlatformInfo::PlatformName => Ok(host.platforms[platform.0].name.clone()),
    }
}

/// The string form of a device property.
pub open spec fn device_info_string(d: super::host::HostDevice, p: DeviceInfo) -> Seq<char> {
    match p {
        DeviceInfo::NAME => d.name@,
        DeviceInfo::VERSION => d.version@,
        _ => Seq::empty(),
    }
}

/// The numeric form of a device property.
pub open spec fn device_info_size(d: super::host::HostDevice, p: DeviceInfo) -> u64 {
    match p {
        DeviceInfo::MaxMemAllocSize => d.max_mem_alloc,
        DeviceInfo::GlobalMemSize => d.global_mem,
        DeviceInfo::HostUnifiedMemory => if d.unified_mem {
            1
        } else {
            0
        },
        _ => 0,
    }
}

/// The little-endian bytes of a 64-bit value.
pub open spec fn le_bytes_of(v: u64) -> Seq<u8> {
    seq![
        (v & 0xff) as u8,
        ((v >> 8) & 0xff) as u8,
        ((v >> 16) & 0xff) as u8,
        ((v >> 24) & 0xff) as u8,
        ((v >> 32) & 0xff) as u8,
        ((v >> 40) & 0xff) as u8,
        ((v >> 48) & 0xff) as u8,
        ((v >> 56) & 0xff) as u8,
    ]
}

/// Queries one device property: the result carries the property as a
/// string, as a number, and as raw little-endian bytes of the number.
pub fn get_device_info(host: &Host, device: CLIntDevice, param_name: DeviceInfo) -> (r: Result<
    DeviceReturnInfo,
    Error,
>)
    ensures
        r matches Ok(info) <==> host.valid_device(device),
        r matches Ok(info) ==> {
            &&& info.string@ == device_info_string(host.device_of(device), param_name)
            &&& info.size == device_info_size(host.device_of(device), param_name)
            &&& info.data@ == le_bytes_of(info.size)
        },
        r matches Err(e) ==> e.kind == OCLErrorKind::InvalidDevice,
{
    if device.0 >= host.devices.len() {
        return Err(Error::from_kind(OCLErrorKind::InvalidDevice));
    }
    let d = &host.devices[device.0];
    let string = match param_name {
        DeviceInfo::NAME => d.name.clone(),
        DeviceInfo::VERSION => d.version.clone(),
        _ => String::new(),
    };
    let size = match param_name {
        DeviceInfo::MaxMemAllocSize => d.max_mem_alloc,
        DeviceInfo::GlobalMemSize => d.global_mem,
        DeviceInfo::HostUnifiedMemory => if d.unified_mem {
            1
        } else {
            0
        },
        _ => 0,
    };
    let data = vec![
        (size & 0xff) as u8,
        ((size >> 8) & 0xff) as u8,
        ((size >> 16) & 0xff) as u8,
        ((size >> 24) & 0xff) as u8,
        ((size >> 32) & 0xff) as u8,
        ((size >> 40) & 0xff) as u8,
        ((size >> 48) & 0xff) as u8,
        ((size >> 56) & 0xff) as u8,
    ];
    proof {
        assert(data@ =~= le_bytes_of(size));
    }
    Ok(DeviceReturnInfo { string, size, data })
}

impl CLIntDevice {
    /// The device's name.
    pub fn get_name(self, host: &Host) -> (r: Result<String, Error>)
        ensures
            r matches Ok(s) <==> host.valid_device(self),
            r matches Ok(s) ==> s@ == host.device_of(self).name@,
            r matches Err(e) ==> e.kind == OCLErrorKind::InvalidDevice,
    {
        match get_device_info(host, self, DeviceInfo::NAME) {
            Ok(info) => Ok(info.string),
            Err(e) => Err(e),
        }
    }

    /// The device's driver version string.
    pub fn get_version(self, host: &Host) -> (r: Result<String, Error>)
        ensures
            r matches Ok(s) <==> host.valid_device(self),
            r matches Ok(s) ==> s@ == host.device_of(self).version@,
            r matches Err(e) ==> e.kind == OCLErrorKind::InvalidDevice,
    {
        match get_device_info(host, self, DeviceInfo::VERSION) {
            Ok(info) => Ok(info.string),
            Err(e) => Err(e),
        }
    }

    /// The device's global memory size, in bytes.
    pub fn get_global_mem(self, host: &Host) -> (r: Result<u64, Error>)
        ensures
            r matches Ok(s) <==> host.valid_device(self),
            r matches Ok(s) ==> s == host.device_of(self).global_mem,
            r matches Err(e) ==> e.kind == OCLErrorKind::InvalidDevice,
    {
        match get_device_info(host, self, DeviceInfo::GlobalMemSize) {
            Ok(info) => Ok(info.size),
            Err(e) => Err(e),
        }
    }

    /// The largest single allocation the device supports, in bytes.
    pub fn get_max_mem_alloc(self, host: &Host) -> (r: Result<u64, Error>)
        ensures
            r matches Ok(s) <==> host.valid_device(self),
            r matches Ok(s) ==> s == host.device_of(self).max_mem_alloc,
            r matches Err(e) ==> e.kind == OCLErrorKind::InvalidDevice,
    {
        match get_device_info(host, self, DeviceInfo::MaxMemAllocSize) {
            Ok(info) => Ok(info.size),
            Err(e) => Err(e),
        }
    }

    /// Whether host and device share a unified memory address space.
    pub fn unified_mem(self, host: &Host) -> (r: Result<bool, Error>)
        ensures
            r matches Ok(s) <==> host.valid_device(self),
            r matches Ok(s) ==> s == host.device_of(self).unified_mem,
            r matches Err(e) ==> e.kind == OCLErrorKind::InvalidDevice,
    {
        match get_device_info(host, self, DeviceInfo::HostUnifiedMemory) {
            Ok(info) => Ok(info.size != 0),
            Err(e) => Err(e),
        }
    }
}

/// The devices of a platform whose kind is selected by a type bitmask,
/// in enumeration order.
pub open spec fn selected_devices(h: Host, ds: Seq<CLIntDevice>, mask: u64) -> Seq<CLIntDevice>
    decreases ds.len(),
{
    if ds.len() == 0 {
        Seq::empty()
    } else {
        let rest = selected_devices(h, ds.drop_last(), mask);
        if kind_matches(h.device_of(ds.last()).kind, mask) {
            rest.push(ds.last())
        } else {
            rest
        }
    }
}

/// Enumerates the devices of a platform whose kind is selected by the
/// given type bitmask.
pub fn get_device_ids(host: &Host, platform: Platform, device_type: &u64) -> (r: Result<
    Vec<CLIntDevice>,
    Error,
>)
    requires
        host.wf(),
    ensures
        r matches Ok(v) <==> host.valid_platform(platform),
        r matches Ok(v) ==> v@ == selected_devices(
            *host,
            host.platform_of(platform).devices@,
            *device_type,
        ),
        r matches Err(e) ==> e.kind == OCLErrorKind::InvalidPlatform,
{
    if platform.0 >= host.platforms.len() {
        return Err(Error::from_kind(OCLErrorKind::InvalidPlatform));
    }
    let ds = &host.platforms[platform.0].devices;
    let n = ds.len();
    let mut v: Vec<CLIntDevice> = Vec::new();
    let mut i: usize = 0;
    while i < n
        invariant
            host.wf(),
            host.valid_platform(platform),
            ds@ == host.platform_of(platform).devices@,
            n == ds@.len(),
            i <= n,
            v@ == selected_devices(*host, ds@.subrange(0, i as int), *device_type),
        decreases n - i,
    {
        let d = ds[i];
        if host.devices[d.0].kind.bits() & *device_type != 0 {
            v.push(d);
        }
        proof {
            assert(ds@.subrange(0, i + 1 as int).drop_last() =~= ds@.subrange(0, i as int));
            assert(ds@.subrange(0, i + 1 as int).last() == ds@[i as int]);
        }
        i = i + 1;
    }
    proof {
        assert(ds@.subrange(0, n as int) =~= ds@);
    }
    Ok(v)
}

// ------------------------------------------------------------------
// Contexts and command queues
// ------------------------------------------------------------------

/// Whether a context can be created for this device list.
pub open spec fn can_create_context(h: Host, ds: Seq<CLIntDevice>) -> bool {
    &&& ds.len() > 0
    &&& forall|i: int| 0 <= i < ds.len() ==> h.valid_device(#[trigger] ds[i])
    &&& forall|i: int| 0 <= i < ds.len() ==> h.device_of(#[trigger] ds[i]).available
}

/// The error a failed context creation reports.
pub open spec fn create_context_err(h: Host, ds: Seq<CLIntDevice>) -> OCLErrorKind {
    if ds.len() == 0 {
        OCLErrorKind::InvalidValue
    } else if exists|i: int| 0 <= i < ds.len() && !h.valid_device(#[trigger] ds[i]) {
        OCLErrorKind::InvalidDevice
    } else {
        OCLErrorKind::DeviceNotAvailable
    }
}

/// Creates a context owning driver state for the given devices. Every
/// device must be known and available; one bad device fails the whole
/// call and leaves the host unchanged.
pub fn create_context(host: &mut Host, devices: &[CLIntDevice]) -> (r: Result<Context, Error>)
    requires
        old(host).wf(),
    ensures
        final(host).wf(),
        r matches Ok(c) <==> can_create_context(*old(host), devices@),
        r matches Ok(c) ==> {
            &&& c.0 == old(host).contexts@.len()
            &&& final(host).contexts@.len() == old(host).contexts@.len() + 1
            &&& forall|i: int| 0 <= i < old(host).contexts@.len() ==> final(host).contexts@[i]
                == old(host).contexts@[i]
            &&& final(host).ctx_of(c).devices@ == devices@
            &&& final(host).ctx_of(c).live
            &&& final(host).platforms == old(host).platforms
            &&& final(host).devices == old(host).devices
            &&& final(host).queues == old(host).queues
            &&& final(host).buffers == old(host).buffers
            &&& final(host).programs == old(host).programs
            &&& final(host).kernels == old(host).kernels
            &&& final(host).events == old(host).events
            &&& final(host).clock == old(host).clock
        },
        r matches Err(e) ==> *final(host) == *old(host) && e.kind == create_context_err(
            *old(host),
            devices@,
        ),
{
    let n = devices.len();
    if n == 0 {
        return Err(Error::from_kind(OCLErrorKind::InvalidValue));
    }
    let mut i: usize = 0;
    while i < n
        invariant
            host.wf(),
            n == devices@.len(),
            i <= n,
            forall|j: int| 0 <= j < i ==> old(host).valid_device(#[trigger] devices@[j]),
            *host == *old(host),
        decreases n - i,
    {
        if devices[i].0 >= host.devices.len() {
            return Err(Error::from_kind(OCLErrorKind::InvalidDevice));
        }
        i = i + 1;
    }
    let mut i: usize = 0;
    while i < n
        invariant
            host.wf(),
            n == devices@.len(),
            i <= n,
            forall|j: int| 0 <= j < n ==> old(host).valid_device(#[trigger] devices@[j]),
            forall|j: int| 0 <= j < i ==> old(host).device_of(#[trigger] devices@[j]).available,
            *host == *old(host),
        decreases n - i,
    {
        if !host.devices[devices[i].0].available {
            proof {
                assert(!old(host).device_of(devices@[i as int]).available);
            }
            return Err(Error::from_kind(OCLErrorKind::DeviceNotAvailable));
        }
        i = i + 1;
    }
    let mut owned: Vec<CLIntDevice> = Vec::new();
    let mut i: usize = 0;
    while i < n
        invariant
            n == devices@.len(),
            i <= n,
            owned@ == devices@.subrange(0, i as int),
            *host == *old(host),
        decreases n - i,
    {
        owned.push(devices[i]);
        i = i + 1;
    }
    proof {
        assert(owned@ =~= devices@);
    }
    let c = Context(host.contexts.len());
    host.contexts.push(HostContext { devices: owned, live: true });
    Ok(c)
}

/// Releases a context: the release is final, and releasing a handle that
/// is already gone reports `InvalidContext`.
pub fn release_context(host: &mut Host, ctx: Context) -> (r: Result<(), Error>)
    requires
        old(host).wf(),
    ensures
        final(host).wf(),
        r matches Ok(u) <==> old(host).ctx_live(ctx),
        r matches Ok(u) ==> {
            &&& final(host).contexts@.len() == old(host).contexts@.len()
            &&& forall|i: int| 0 <= i < old(host).contexts@.len() && i != ctx.0
                ==> final(host).contexts@[i] == old(host).contexts@[i]
            &&& !final(host).ctx_of(ctx).live
            &&& final(host).ctx_of(ctx).devices == old(host).ctx_of(ctx).devices
            &&& final(host).platforms == old(host).platforms
            &&& final(host).devices == old(host).devices
            &&& final(host).queues == old(host).queues
            &&& final(host).buffers == old(host).buffers
            &&& final(host).programs == old(host).programs
            &&& final(host).kernels == old(host).kernels
            &&& final(host).events == old(host).events
            &&& final(host).clock == old(host).clock
        },
        r matches Err(e) ==> *final(host) == *old(host) && e.kind == OCLErrorKind::InvalidContext,
{
    if ctx.0 >= host.contexts.len() || !host.contexts[ctx.0].live {
        return Err(Error::from_kind(OCLErrorKind::InvalidContext));
    }
    host.contexts[ctx.0].live = false;
    Ok(())
}

/// Whether a command queue can be created on this context and device.
pub open spec fn can_create_queue(h: Host, c: Context, d: CLIntDevice) -> bool {
    &&& h.ctx_live(c)
    &&& h.valid_device(d)
    &&& h.ctx_of(c).devices@.contains(d)
    &&& h.device_of(d).available
}

/// The error a failed queue creation reports.
pub open spec fn create_queue_err(h: Host, c: Context, d: CLIntDevice) -> OCLErrorKind {
    if !h.ctx_live(c) {
        OCLErrorKind::InvalidContext
    } else if !h.valid_device(d) || !h.ctx_of(c).devices@.contains(d) {
        OCLErrorKind::InvalidDevice
    } else {
        OCLErrorKind::DeviceNotAvailable
    }
}

/// Creates a command queue bound to one context and one of its devices.
pub fn create_command_queue(host: &mut Host, context: &Context, device: CLIntDevice) -> (r: Result<
    CommandQueue,
    Error,
>)
    requires
        old(host).wf(),
    ensures
        final(host).wf(),
        r matches Ok(q) <==> can_create_queue(*old(host), *context, device),
        r matches Ok(q) ==> {
            &&& q.0 == old(host).queues@.len()
            &&& final(host).queues@ == old(host).queues@.push(
                HostQueue { ctx: *context, device, live: true },
            )
            &&& final(host).platforms == old(host).platforms
            &&& final(host).devices == old(host).devices
            &&& final(host).contexts == old(host).contexts
            &&& final(host).buffers == old(host).buffers
            &&& final(host).programs == old(host).programs
            &&& final(host).kernels == old(host).kernels
            &&& final(host).events == old(host).events
            &&& final(host).clock == old(host).clock
        },
        r matches Err(e) ==> *final(host) == *old(host) && e.kind == create_queue_err(
            *old(host),
            *context,
            device,
        ),
{
    if context.0 >= host.contexts.len() || !host.contexts[context.0].live {
        return Err(Error::from_kind(OCLErrorKind::InvalidContext));
    }
    if device.0 >= host.devices.len() {
        return Err(Error::from_kind(OCLErrorKind::InvalidDevice));
    }
    let ds = &host.contexts[context.0].devices;
    let n = ds.len();
    let mut found = false;
    let mut i: usize = 0;
    while i < n
        invariant
            n == ds@.len(),
            i <= n,
            found <==> exists|j: int| 0 <= j < i && ds@[j] == device,
        decreases n - i,
    {
        if ds[i].0 == device.0 {
            proof {
                assert(ds@[i as int] == device);
            }
            found = true;
        }
        i = i + 1;
    }
    if !found {
        proof {
            assert(!host.ctx_of(*context).devices@.contains(device));
        }
        return Err(Error::from_kind(OCLErrorKind::InvalidDevice));
    }
    if !host.devices[device.0].available {
        proof {
            assert(host.ctx_of(*context).devices@.contains(device));
        }
        return Err(Error::from_kind(OCLErrorKind::DeviceNotAvailable));
    }
    proof {
        assert(host.ctx_of(*context).devices@.contains(device));
    }
    let q = CommandQueue(host.queues.len());
    host.queues.push(HostQueue { ctx: *context, device, live: true });
    Ok(q)
}

/// Releases a command queue exactly once; a second release reports
/// `InvalidCommandQueue`.
pub fn release_command_queue(host: &mut Host, cq: CommandQueue) -> (r: Result<(), Error>)
    requires
        old(host).wf(),
    ensures
        final(host).wf(),
        r matches Ok(u) <==> old(host).queue_live(cq),
        r matches Ok(u) ==> {
            &&& final(host).queues@.len() == old(host).queues@.len()
            &&& forall|i: int| 0 <= i < old(host).queues@.len() && i != cq.0
                ==> final(host).queues@[i] == old(host).queues@[i]
            &&& !final(host).queue_of(cq).live
            &&& final(host).queue_of(cq).ctx == old(host).queue_of(cq).ctx
            &&& final(host).queue_of(cq).device == old(host).queue_of(cq).device
            &&& final(host).platforms == old(host).platforms
            &&& final(host).devices == old(host).devices
            &&& final(host).contexts == old(host).contexts
            &&& final(host).buffers == old(host).buffers
            &&& final(host).programs == old(host).programs
            &&& final(host).kernels == old(host).kernels
            &&& final(host).events == old(host).events
            &&& final(host).clock == old(host).clock
        },
        r matches Err(e) ==> *final(host) == *old(host) && e.kind
            == OCLErrorKind::InvalidCommandQueue,
{
    if cq.0 >= host.queues.len() || !host.queues[cq.0].live {
        return Err(Error::from_kind(OCLErrorKind::InvalidCommandQueue));
    }
    host.queues[cq.0].live = false;
    Ok(())
}

// ------------------------------------------------------------------
// Events and blocking waits
// ------------------------------------------------------------------

/// The latest completion among all operations ever enqueued on a queue.
pub open spec fn queue_horizon(h: Host, q: CommandQueue, upto: int) -> int
    decreases upto,
{
    if upto <= 0 {
        0
    } else {
        let rest = queue_horizon(h, q, upto - 1);
        if h.events@[upto - 1].queue == q && h.events@[upto - 1].complete_at > rest {
            h.events@[upto - 1].complete_at as int
        } else {
            rest
        }
    }
}

/// Blocks until every operation ever enqueued on the queue has completed.
pub fn finish(host: &mut Host, cq: &CommandQueue) -> (r: Result<(), Error>)
    requires
        old(host).wf(),
    ensures
        final(host).wf(),
        r matches Ok(u) <==> old(host).queue_live(*cq),
        r matches Ok(u) ==> {
            &&& final(host).clock == (if old(host).clock >= queue_horizon(
                *old(host),
                *cq,
                old(host).events@.len() as int,
            ) {
                old(host).clock as int
            } else {
                queue_horizon(*old(host), *cq, old(host).events@.len() as int)
            })
            &&& final(host).platforms == old(host).platforms
            &&& final(host).devices == old(host).devices
            &&& final(host).contexts == old(host).contexts
            &&& final(host).queues == old(host).queues
            &&& final(host).buffers == old(host).buffers
            &&& final(host).programs == old(host).programs
            &&& final(host).kernels == old(host).kernels
            &&& final(host).events == old(host).events
        },
        r matches Err(e) ==> *final(host) == *old(host) && e.kind
            == OCLErrorKind::InvalidCommandQueue,
{
    if cq.0 >= host.queues.len() || !host.queues[cq.0].live {
        return Err(Error::from_kind(OCLErrorKind::InvalidCommandQueue));
    }
    let n = host.events.len();
    let mut horizon: u64 = 0;
    let mut i: usize = 0;
    while i < n
        invariant
            n == host.events@.len(),
            i <= n,
            horizon == queue_horizon(*host, *cq, i as int),
            *host == *old(host),
        decreases n - i,
    {
        let e = &host.events[i];
        if e.queue.0 == cq.0 && e.complete_at > horizon {
            proof {
                assert(host.events@[i as int].queue == *cq);
            }
            horizon = e.complete_at;
        }
        i = i + 1;
    }
    host.advance_to(horizon);
    Ok(())
}

/// Blocks until one event completes; the handle stays live and can be
/// waited on again.
pub fn wait_for_event(host: &mut Host, event: &Event) -> (r: Result<(), Error>)
    requires
        old(host).wf(),
    ensures
        final(host).wf(),
        r matches Ok(u) <==> old(host).event_live(*event),
        r matches Ok(u) ==> {
            &&& final(host).clock == (if old(host).clock >= old(host).completion(*event) {
                old(host).clock
            } else {
                old(host).completion(*event)
            })
            &&& final(host).platforms == old(host).platforms
            &&& final(host).devices == old(host).devices
            &&& final(host).contexts == old(host).contexts
            &&& final(host).queues == old(host).queues
            &&& final(host).buffers == old(host).buffers
            &&& final(host).programs == old(host).programs
            &&& final(host).kernels == old(host).kernels
            &&& final(host).events == old(host).events
        },
        r matches Err(e) ==> *final(host) == *old(host) && e.kind == OCLErrorKind::InvalidEvent,
{
    if event.0 >= host.events.len() || host.events[event.0].released {
        return Err(Error::from_kind(OCLErrorKind::InvalidEvent));
    }
    let t = host.events[event.0].complete_at;
    host.advance_to(t);
    Ok(())
}

/// Blocks until every event of the list completes; an empty list returns
/// at once with the host unchanged.
pub fn wait_for_events(host: &mut Host, events: &[Event]) -> (r: Result<(), Error>)
    requires
        old(host).wf(),
    ensures
        final(host).wf(),
        r matches Ok(u) <==> old(host).wait_list_ok(events@),
        r matches Ok(u) ==> {
            &&& final(host).clock == (if old(host).clock >= old(host).latest_completion(events@) {
                old(host).clock as int
            } else {
                old(host).latest_completion(events@)
            })
            &&& forall|i: int| 0 <= i < events@.len() ==> final(host).clock
                >= old(host).completion(#[trigger] events@[i])
            &&& final(host).platforms == old(host).platforms
            &&& final(host).devices == old(host).devices
            &&& final(host).contexts == old(host).contexts
            &&& final(host).queues == old(host).queues
            &&& final(host).buffers == old(host).buffers
            &&& final(host).programs == old(host).programs
            &&& final(host).kernels == old(host).kernels
            &&& final(host).events == old(host).events
        },
        events@.len() == 0 ==> (r matches Ok(u) && *final(host) == *old(host)),
        r matches Err(e) ==> *final(host) == *old(host) && e.kind == OCLErrorKind::InvalidEvent,
{
    proof {
        lemma_latest_completion_bounds(*old(host), events@);
    }
    let m = match host.latest_completion_of(Some(events)) {
        Some(m) => m,
        None => {
            return Err(Error::from_kind(OCLErrorKind::InvalidEvent));
        },
    };
    if events.len() == 0 {
        return Ok(());
    }
    host.advance_to(m);
    Ok(())
}

/// Every event of a list completes no later than the list's latest
/// completion.
pub proof fn lemma_latest_completion_bounds(h: Host, events: Seq<Event>)
    ensures
        forall|i: int| 0 <= i < events.len() ==> h.latest_completion(events) >= h.completion(
            #[trigger] events[i],
        ),
        h.latest_completion(events) >= 0,
    decreases events.len(),
{
    if events.len() > 0 {
        lemma_latest_completion_bounds(h, events.drop_last());
        assert(forall|i: int| 0 <= i < events.len() - 1 ==> events.drop_last()[i] == events[i]);
    }
}

/// Releases an event exactly once; a second release reports
/// `InvalidEvent`.
pub fn release_event(host: &mut Host, event: Event) -> (r: Result<(), Error>)
    requires
        old(host).wf(),
    ensures
        final(host).wf(),
        r matches Ok(u) <==> old(host).event_live(event),
        r matches Ok(u) ==> {
            &&& final(host).events@.len() == old(host).events@.len()
            &&& forall|i: int| 0 <= i < old(host).events@.len() && i != event.0
                ==> final(host).events@[i] == old(host).events@[i]
            &&& final(host).event_of(event).released
            &&& final(host).event_of(event).queue == old(host).event_of(event).queue
            &&& final(host).event_of(event).complete_at == old(host).event_of(event).complete_at
            &&& final(host).platforms == old(host).platforms
            &&& final(host).devices == old(host).devices
            &&& final(host).contexts == old(host).contexts
            &&& final(host).queues == old(host).queues
            &&& final(host).buffers == old(host).buffers
            &&& final(host).programs == old(host).programs
            &&& final(host).kernels == old(host).kernels
            &&& final(host).clock == old(host).clock
        },
        r matches Err(e) ==> *final(host) == *old(host) && e.kind == OCLErrorKind::InvalidEvent,
{
    if event.0 >= host.events.len() || host.events[event.0].released {
        return Err(Error::from_kind(OCLErrorKind::InvalidEvent));
    }
    host.events[event.0].released = true;
    Ok(())
}

impl Event {
    /// Blocks until this event completes, then releases the handle.
    pub fn wait(self, host: &mut Host) -> (r: Result<(), Error>)
        requires
            old(host).wf(),
        ensures
            final(host).wf(),
            r matches Ok(u) <==> old(host).event_live(self),
            r matches Ok(u) ==> {
                &&& final(host).clock == (if old(host).clock >= old(host).completion(self) {
                    old(host).clock
                } else {
                    old(host).completion(self)
                })
                &&& final(host).events@.len() == old(host).events@.len()
                &&& forall|i: int| 0 <= i < old(host).events@.len() && i != self.0
                    ==> final(host).events@[i] == old(host).events@[i]
                &&& final(host).event_of(self).released
                &&& final(host).event_of(self).queue == old(host).event_of(self).queue
                &&& final(host).event_of(self).complete_at == old(host).event_of(self).complete_at
                &&& final(host).platforms == old(host).platforms
                &&& final(host).devices == old(host).devices
                &&& final(host).contexts == old(host).contexts
                &&& final(host).queues == old(host).queues
                &&& final(host).buffers == old(host).buffers
                &&& final(host).programs == old(host).programs
                &&& final(host).kernels == old(host).kernels
            },
            r matches Err(e) ==> *final(host) == *old(host) && e.kind == OCLErrorKind::InvalidEvent,
    {
        match wait_for_event(host, &self) {
            Ok(u) => {},
            Err(e) => {
                return Err(e);
            },
        }
        match release_event(host, self) {
            Ok(u) => Ok(()),
            Err(e) => Err(e),
        }
    }
}

// ------------------------------------------------------------------
// Memory objects
// ------------------------------------------------------------------

/// Whether a flag word asks for the buffer to be seeded from host data.
pub open spec fn seeds_host_data(flag: u64) -> bool {
    flag & (MemFlags::MemUseHostPtr.bits_spec() | MemFlags::MemCopyHostPtr.bits_spec()) != 0
}

/// Whether a buffer can be created with these arguments.
pub open spec fn can_create_buffer(
    h: Host,
    c: Context,
    flag: u64,
    size: int,
    data: Option<Seq<i32>>,
) -> bool {
    &&& h.ctx_live(c)
    &&& size > 0
    &&& match data {
        Some(d) => seeds_host_data(flag) && d.len() >= size,
        None => !seeds_host_data(flag),
    }
}

/// The error a failed buffer creation reports.
pub open spec fn create_buffer_err(
    h: Host,
    c: Context,
    flag: u64,
    size: int,
    data: Option<Seq<i32>>,
) -> OCLErrorKind {
    if !h.ctx_live(c) {
        OCLErrorKind::InvalidContext
    } else if size <= 0 {
        OCLErrorKind::InvalidBufferSize
    } else {
        OCLErrorKind::InvalidHostPtr
    }
}

/// The initial contents of a new buffer.
pub open spec fn initial_buffer_data(size: int, data: Option<Seq<i32>>) -> Seq<i32> {
    match data {
        Some(d) => d.subrange(0, size),
        None => Seq::new(size as nat, |i: int| 0i32),
    }
}

/// Creates a buffer of `size` 32-bit words in a context. Host data must be
/// given exactly when the flags ask for it (`MemUseHostPtr` or
/// `MemCopyHostPtr`), and must cover the buffer; without host data the
/// buffer starts zeroed. The new buffer holds one reference.
pub fn create_buffer(
    host: &mut Host,
    context: &Context,
    flag: u64,
    size: usize,
    data: Option<&[i32]>,
) -> (r: Result<Mem, Error>)
    requires
        old(host).wf(),
    ensures
        final(host).wf(),
        r matches Ok(m) <==> can_create_buffer(
            *old(host),
            *context,
            flag,
            size as int,
            match data {
                Some(d) => Some(d@),
                None => None,
            },
        ),
        r matches Ok(m) ==> {
            &&& m.0 == old(host).buffers@.len()
            &&& final(host).buffers@.len() == old(host).buffers@.len() + 1
            &&& forall|i: int| 0 <= i < old(host).buffers@.len() ==> final(host).buffers@[i]
                == old(host).buffers@[i]
            &&& final(host).buffer_of(m).ctx == *context
            &&& final(host).buffer_of(m).refs == 1
            &&& final(host).buffer_of(m).data@ == initial_buffer_data(
                size as int,
                match data {
                    Some(d) => Some(d@),
                    None => None,
                },
            )
            &&& enqueue_frame(*old(host), *final(host))
            &&& final(host).events == old(host).events
            &&& final(host).clock == old(host).clock
        },
        r matches Err(e) ==> *final(host) == *old(host) && e.kind == create_buffer_err(
            *old(host),
            *context,
            flag,
            size as int,
            match data {
                Some(d) => Some(d@),
                None => None,
            },
        ),
{
    if context.0 >= host.contexts.len() || !host.contexts[context.0].live {
        return Err(Error::from_kind(OCLErrorKind::InvalidContext));
    }
    if size == 0 {
        return Err(Error::from_kind(OCLErrorKind::InvalidBufferSize));
    }
    let seeded = flag & (MemFlags::MemUseHostPtr.bits() | MemFlags::MemCopyHostPtr.bits()) != 0;
    let mut contents: Vec<i32> = Vec::new();
    match data {
        Some(d) => {
            if !seeded || d.len() < size {
                return Err(Error::from_kind(OCLErrorKind::InvalidHostPtr));
            }
            let mut i: usize = 0;
            while i < size
                invariant
                    i <= size,
                    size <= d@.len(),
                    contents@ == d@.subrange(0, i as int),
                decreases size - i,
            {
                contents.push(d[i]);
                proof {
                    assert(contents@ =~= d@.subrange(0, i + 1 as int));
                }
                i = i + 1;
            }
        },
        None => {
            if seeded {
                return Err(Error::from_kind(OCLErrorKind::InvalidHostPtr));
            }
            let mut i: usize = 0;
            while i < size
                invariant
                    i <= size,
                    contents@ =~= Seq::new(i as nat, |k: int| 0i32),
                decreases size - i,
            {
                contents.push(0);
                proof {
                    assert(contents@ =~= Seq::new((i + 1) as nat, |k: int| 0i32));
                }
                i = i + 1;
            }
        },
    }
    let m = Mem(host.buffers.len());
    host.buffers.push(HostBuffer { ctx: *context, data: contents, refs: 1 });
    Ok(m)
}

/// Drops one reference of a memory object; the object is gone when the
/// last reference is dropped, and a further release reports
/// `InvalidMemObject`.
pub fn release_mem_object(host: &mut Host, mem: Mem) -> (r: Result<(), Error>)
    requires
        old(host).wf(),
    ensures
        final(host).wf(),
        r matches Ok(u) <==> old(host).buffer_live(mem),
        r matches Ok(u) ==> {
            &&& final(host).buffers@.len() == old(host).buffers@.len()
            &&& forall|i: int| 0 <= i < old(host).buffers@.len() && i != mem.0
                ==> final(host).buffers@[i] == old(host).buffers@[i]
            &&& final(host).buffer_of(mem).refs == old(host).buffer_of(mem).refs - 1
            &&& final(host).buffer_of(mem).ctx == old(host).buffer_of(mem).ctx
            &&& final(host).buffer_of(mem).data == old(host).buffer_of(mem).data
            &&& enqueue_frame(*old(host), *final(host))
            &&& final(host).events == old(host).events
            &&& final(host).clock == old(host).clock
        },
        r matches Err(e) ==> *final(host) == *old(host) && e.kind == OCLErrorKind::InvalidMemObject,
{
    if mem.0 >= host.buffers.len() || host.buffers[mem.0].refs == 0 {
        return Err(Error::from_kind(OCLErrorKind::InvalidMemObject));
    }
    let refs = host.buffers[mem.0].refs;
    host.buffers[mem.0].refs = refs - 1;
    Ok(())
}

/// Adds one reference to a memory object, keeping it alive across an
/// extra owner.
pub fn retain_mem_object(host: &mut Host, mem: Mem) -> (r: Result<(), Error>)
    requires
        old(host).wf(),
    ensures
        final(host).wf(),
        r matches Ok(u) <==> old(host).buffer_live(mem) && old(host).buffer_of(mem).refs
            < u64::MAX,
        r matches Ok(u) ==> {
            &&& final(host).buffers@.len() == old(host).buffers@.len()
            &&& forall|i: int| 0 <= i < old(host).buffers@.len() && i != mem.0
                ==> final(host).buffers@[i] == old(host).buffers@[i]
            &&& final(host).buffer_of(mem).refs == old(host).buffer_of(mem).refs + 1
            &&& final(host).buffer_of(mem).ctx == old(host).buffer_of(mem).ctx
            &&& final(host).buffer_of(mem).data == old(host).buffer_of(mem).data
            &&& enqueue_frame(*old(host), *final(host))
            &&& final(host).events == old(host).events
            &&& final(host).clock == old(host).clock
        },
        r matches Err(e) ==> *final(host) == *old(host) && e.kind == (if !old(host).buffer_live(
            mem,
        ) {
            OCLErrorKind::InvalidMemObject
        } else {
            OCLErrorKind::OutOfResources
        }),
{
    if mem.0 >= host.buffers.len() || host.buffers[mem.0].refs == 0 {
        return Err(Error::from_kind(OCLErrorKind::InvalidMemObject));
    }
    let refs = host.buffers[mem.0].refs;
    if refs == u64::MAX {
        return Err(Error::from_kind(OCLErrorKind::OutOfResources));
    }
    host.buffers[mem.0].refs = refs + 1;
    Ok(())
}

// ------------------------------------------------------------------
// Buffer transfers
// ------------------------------------------------------------------

/// Whether a transfer touching `len` words of buffer `m` through queue
/// `q` can be enqueued.
pub open spec fn can_enqueue_transfer(
    h: Host,
    q: CommandQueue,
    m: Mem,
    len: int,
    wait: Seq<Event>,
) -> bool {
    &&& h.queue_live(q)
    &&& h.buffer_live(m)
    &&& h.buffer_of(m).ctx == h.queue_of(q).ctx
    &&& len <= h.buffer_of(m).data@.len()
    &&& h.wait_list_ok(wait)
    &&& h.sched_fits(q, wait)
}

/// The error a failed transfer reports.
pub open spec fn enqueue_transfer_err(
    h: Host,
    q: CommandQueue,
    m: Mem,
    len: int,
    wait: Seq<Event>,
) -> OCLErrorKind {
    if !h.queue_live(q) {
        OCLErrorKind::InvalidCommandQueue
    } else if !h.buffer_live(m) || h.buffer_of(m).ctx != h.queue_of(q).ctx {
        OCLErrorKind::InvalidMemObject
    } else if !(len <= h.buffer_of(m).data@.len()) {
        OCLErrorKind::InvalidValue
    } else if !h.wait_list_ok(wait) {
        OCLErrorKind::InvalidEventWaitList
    } else {
        OCLErrorKind::OutOfResources
    }
}

/// Writes `data` over the first words of a buffer, after the wait list;
/// with `block` the call also waits for the write's own completion.
pub fn enqueue_write_buffer(
    host: &mut Host,
    cq: &CommandQueue,
    mem: Mem,
    data: &[i32],
    block: bool,
    event_wait_list: Option<&[Event]>,
) -> (r: Result<Event, Error>)
    requires
        old(host).wf(),
    ensures
        final(host).wf(),
        r matches Ok(e) <==> can_enqueue_transfer(
            *old(host),
            *cq,
            mem,
            data@.len() as int,
            Host::wait_seq(event_wait_list),
        ),
        r matches Ok(e) ==> {
            &&& e.0 == old(host).events@.len()
            &&& event_pushed(*old(host), *final(host), *cq, Host::wait_seq(event_wait_list), false)
            &&& buffer_updated(
                *old(host),
                *final(host),
                mem,
                data@ + old(host).buffer_of(mem).data@.skip(data@.len() as int),
            )
            &&& enqueue_frame(*old(host), *final(host))
            &&& final(host).clock == (if block {
                old(host).sched_completion(*cq, Host::wait_seq(event_wait_list))
            } else {
                old(host).clock as int
            })
        },
        r matches Err(e) ==> *final(host) == *old(host) && e.kind == enqueue_transfer_err(
            *old(host),
            *cq,
            mem,
            data@.len() as int,
            Host::wait_seq(event_wait_list),
        ),
{
    if cq.0 >= host.queues.len() || !host.queues[cq.0].live {
        return Err(Error::from_kind(OCLErrorKind::InvalidCommandQueue));
    }
    if mem.0 >= host.buffers.len() || host.buffers[mem.0].refs == 0 || host.buffers[mem.0].ctx.0
        != host.queues[cq.0].ctx.0 {
        return Err(Error::from_kind(OCLErrorKind::InvalidMemObject));
    }
    let n = data.len();
    if n > host.buffers[mem.0].data.len() {
        return Err(Error::from_kind(OCLErrorKind::InvalidValue));
    }
    let ev = match host.schedule(*cq, event_wait_list) {
        Ok(ev) => ev,
        Err(e) => {
            return Err(e);
        },
    };
    let blen = host.buffers[mem.0].data.len();
    let mut contents: Vec<i32> = Vec::new();
    let mut i: usize = 0;
    while i < n
        invariant
            i <= n,
            n == data@.len(),
            contents@ == data@.subrange(0, i as int),
        decreases n - i,
    {
        contents.push(data[i]);
        proof {
            assert(contents@ =~= data@.subrange(0, i + 1 as int));
        }
        i = i + 1;
    }
    let mut i: usize = n;
    while i < blen
        invariant
            host.wf(),
            mem.0 < host.buffers@.len(),
            n <= i <= blen,
            n == data@.len(),
            blen == host.buffer_of(mem).data@.len(),
            contents@ == data@ + host.buffer_of(mem).data@.subrange(n as int, i as int),
        decreases blen - i,
    {
        let w = host.buffers[mem.0].data[i];
        contents.push(w);
        proof {
            assert(contents@ =~= data@ + host.buffer_of(mem).data@.subrange(
                n as int,
                i + 1 as int,
            ));
        }
        i = i + 1;
    }
    proof {
        assert(host.buffer_of(mem).data@.subrange(n as int, blen as int) =~= host.buffer_of(
            mem,
        ).data@.skip(n as int));
    }
    let ctx = host.buffers[mem.0].ctx;
    let refs = host.buffers[mem.0].refs;
    host.buffers[mem.0] = HostBuffer { ctx, data: contents, refs };
    if block {
        let t = host.events[ev.0].complete_at;
        host.advance_to(t);
    }
    Ok(ev)
}

/// Reads the first `data.len()` words of a buffer into `data`, after the
/// wait list; with `block` the call also waits for the read's own
/// completion. The buffer itself is unchanged.
pub fn enqueue_read_buffer(
    host: &mut Host,
    cq: &CommandQueue,
    mem: Mem,
    data: &mut Vec<i32>,
    block: bool,
    event_wait_list: Option<&[Event]>,
) -> (r: Result<Event, Error>)
    requires
        old(host).wf(),
    ensures
        final(host).wf(),
        r matches Ok(e) <==> can_enqueue_transfer(
            *old(host),
            *cq,
            mem,
            old(data)@.len() as int,
            Host::wait_seq(event_wait_list),
        ),
        r matches Ok(e) ==> {
            &&& e.0 == old(host).events@.len()
            &&& event_pushed(*old(host), *final(host), *cq, Host::wait_seq(event_wait_list), false)
            &&& final(data)@ == old(host).buffer_of(mem).data@.subrange(
                0,
                old(data)@.len() as int,
            )
            &&& final(host).buffers == old(host).buffers
            &&& enqueue_frame(*old(host), *final(host))
            &&& final(host).clock == (if block {
                old(host).sched_completion(*cq, Host::wait_seq(event_wait_list))
            } else {
                old(host).clock as int
            })
        },
        r matches Err(e) ==> *final(host) == *old(host) && final(data)@ == old(data)@ && e.kind
            == enqueue_transfer_err(
            *old(host),
            *cq,
            mem,
            old(data)@.len() as int,
            Host::wait_seq(event_wait_list),
        ),
{
    if cq.0 >= host.queues.len() || !host.queues[cq.0].live {
        return Err(Error::from_kind(OCLErrorKind::InvalidCommandQueue));
    }
    if mem.0 >= host.buffers.len() || host.buffers[mem.0].refs == 0 || host.buffers[mem.0].ctx.0
        != host.queues[cq.0].ctx.0 {
        return Err(Error::from_kind(OCLErrorKind::InvalidMemObject));
    }
    let n = data.len();
    if n > host.buffers[mem.0].data.len() {
        return Err(Error::from_kind(OCLErrorKind::InvalidValue));
    }
    let ev = match host.schedule(*cq, event_wait_list) {
        Ok(ev) => ev,
        Err(e) => {
            return Err(e);
        },
    };
    let mut out: Vec<i32> = Vec::new();
    let mut i: usize = 0;
    while i < n
        invariant
            host.wf(),
            mem.0 < host.buffers@.len(),
            i <= n,
            n <= host.buffer_of(mem).data@.len(),
            out@ == host.buffer_of(mem).data@.subrange(0, i as int),
        decreases n - i,
    {
        let w = host.buffers[mem.0].data[i];
        out.push(w);
        proof {
            assert(out@ =~= host.buffer_of(mem).data@.subrange(0, i + 1 as int));
        }
        i = i + 1;
    }
    *data = out;
    if block {
        let t = host.events[ev.0].complete_at;
        host.advance_to(t);
    }
    Ok(ev)
}

/// The contents of `dst` after copying `size` words of `src` starting at
/// `src_offset` to position `dst_offset`.
pub open spec fn copy_window(src: Seq<i32>, dst: Seq<i32>, so: int, dof: int, sz: int) -> Seq<
    i32,
> {
    dst.subrange(0, dof) + src.subrange(so, so + sz) + dst.skip(dof + sz)
}

/// Whether one copy of `size` words between these buffers is in bounds
/// and free of same-buffer overlap.
pub open spec fn copy_op_ok(slen: int, dlen: int, same: bool, so: int, dof: int, sz: int) -> bool {
    &&& sz > 0
    &&& so + sz <= slen
    &&& dof + sz <= dlen
    &&& (same ==> !(so < dof + sz && dof < so + sz))
}

/// Whether a copy between two buffers can be enqueued.
pub open spec fn can_enqueue_copy(
    h: Host,
    q: CommandQueue,
    src: Mem,
    dst: Mem,
    so: int,
    dof: int,
    sz: int,
    wait: Seq<Event>,
) -> bool {
    &&& h.queue_live(q)
    &&& h.buffer_live(src) && h.buffer_of(src).ctx == h.queue_of(q).ctx
    &&& h.buffer_live(dst) && h.buffer_of(dst).ctx == h.queue_of(q).ctx
    &&& copy_op_ok(
        h.buffer_of(src).data@.len() as int,
        h.buffer_of(dst).data@.len() as int,
        src == dst,
        so,
        dof,
        sz,
    )
    &&& h.wait_list_ok(wait)
    &&& h.sched_fits(q, wait)
}

/// The error a failed copy reports.
pub open spec fn enqueue_copy_err(
    h: Host,
    q: CommandQueue,
    src: Mem,
    dst: Mem,
    so: int,
    dof: int,
    sz: int,
    wait: Seq<Event>,
) -> OCLErrorKind {
    if !h.queue_live(q) {
        OCLErrorKind::InvalidCommandQueue
    } else if !h.buffer_live(src) || h.buffer_of(src).ctx != h.queue_of(q).ctx || !h.buffer_live(
        dst,
    ) || h.buffer_of(dst).ctx != h.queue_of(q).ctx {
        OCLErrorKind::InvalidMemObject
    } else if !(sz > 0 && so + sz <= h.buffer_of(src).data@.len() && dof + sz <= h.buffer_of(
        dst,
    ).data@.len()) {
        OCLErrorKind::InvalidValue
    } else if src == dst && so < dof + sz && dof < so + sz {
        OCLErrorKind::MemCopyOverlap
    } else if !h.wait_list_ok(wait) {
        OCLErrorKind::InvalidEventWaitList
    } else {
        OCLErrorKind::OutOfResources
    }
}

/// Copies `size` words from one buffer to another (or within one buffer,
/// when the ranges do not overlap), after the wait list.
pub fn enqueue_copy_buffer(
    host: &mut Host,
    cq: &CommandQueue,
    src_mem: Mem,
    dst_mem: Mem,
    src_offset: usize,
    dst_offset: usize,
    size: usize,
    event_wait_list: Option<&[Event]>,
) -> (r: Result<Event, Error>)
    requires
        old(host).wf(),
    ensures
        final(host).wf(),
        r matches Ok(e) <==> can_enqueue_copy(
            *old(host),
            *cq,
            src_mem,
            dst_mem,
            src_offset as int,
            dst_offset as int,
            size as int,
            Host::wait_seq(event_wait_list),
        ),
        r matches Ok(e) ==> {
            &&& e.0 == old(host).events@.len()
            &&& event_pushed(*old(host), *final(host), *cq, Host::wait_seq(event_wait_list), false)
            &&& buffer_updated(
                *old(host),
                *final(host),
                dst_mem,
                copy_window(
                    old(host).buffer_of(src_mem).data@,
                    old(host).buffer_of(dst_mem).data@,
                    src_offset as int,
                    dst_offset as int,
                    size as int,
                ),
            )
            &&& enqueue_frame(*old(host), *final(host))
            &&& final(host).clock == old(host).clock
        },
        r matches Err(e) ==> *final(host) == *old(host) && e.kind == enqueue_copy_err(
            *old(host),
            *cq,
            src_mem,
            dst_mem,
            src_offset as int,
            dst_offset as int,
            size as int,
            Host::wait_seq(event_wait_list),
        ),
{
    if cq.0 >= host.queues.len() || !host.queues[cq.0].live {
        return Err(Error::from_kind(OCLErrorKind::InvalidCommandQueue));
    }
    if src_mem.0 >= host.buffers.len() || host.buffers[src_mem.0].refs == 0
        || host.buffers[src_mem.0].ctx.0 != host.queues[cq.0].ctx.0 {
        return Err(Error::from_kind(OCLErrorKind::InvalidMemObject));
    }
    if dst_mem.0 >= host.buffers.len() || host.buffers[dst_mem.0].refs == 0
        || host.buffers[dst_mem.0].ctx.0 != host.queues[cq.0].ctx.0 {
        return Err(Error::from_kind(OCLErrorKind::InvalidMemObject));
    }
    let slen = host.buffers[src_mem.0].data.len();
    let dlen = host.buffers[dst_mem.0].data.len();
    if size == 0 || size > slen || src_offset > slen - size || size > dlen || dst_offset > dlen
        - size {
        return Err(Error::from_kind(OCLErrorKind::InvalidValue));
    }
    if src_mem.0 == dst_mem.0 && src_offset < dst_offset + size && dst_offset < src_offset + size {
        return Err(Error::from_kind(OCLErrorKind::MemCopyOverlap));
    }
    let ev = match host.schedule(*cq, event_wait_list) {
        Ok(ev) => ev,
        Err(e) => {
            return Err(e);
        },
    };
    let mut contents: Vec<i32> = Vec::new();
    let mut i: usize = 0;
    while i < dst_offset
        invariant
            host.wf(),
            dst_mem.0 < host.buffers@.len(),
            i <= dst_offset,
            dst_offset + size <= dlen,
            dlen == host.buffer_of(dst_mem).data@.len(),
            contents@ == host.buffer_of(dst_mem).data@.subrange(0, i as int),
        decreases dst_offset - i,
    {
        let w = host.buffers[dst_mem.0].data[i];
        contents.push(w);
        proof {
            assert(contents@ =~= host.buffer_of(dst_mem).data@.subrange(0, i + 1 as int));
        }
        i = i + 1;
    }
    let mut i: usize = 0;
    while i < size
        invariant
            host.wf(),
            src_mem.0 < host.buffers@.len(),
            dst_mem.0 < host.buffers@.len(),
            i <= size,
            src_offset + size <= slen,
            slen == host.buffer_of(src_mem).data@.len(),
            contents@ == host.buffer_of(dst_mem).data@.subrange(0, dst_offset as int)
                + host.buffer_of(src_mem).data@.subrange(
                src_offset as int,
                src_offset + i as int,
            ),
        decreases size - i,
    {
        let w = host.buffers[src_mem.0].data[src_offset + i];
        contents.push(w);
        proof {
            assert(contents@ =~= host.buffer_of(dst_mem).data@.subrange(0, dst_offset as int)
                + host.buffer_of(src_mem).data@.subrange(
                src_offset as int,
                src_offset + i + 1 as int,
            ));
        }
        i = i + 1;
    }
    let mut i: usize = dst_offset + size;
    while i < dlen
        invariant
            host.wf(),
            src_mem.0 < host.buffers@.len(),
            dst_mem.0 < host.buffers@.len(),
            dst_offset + size <= i <= dlen,
            dlen == host.buffer_of(dst_mem).data@.len(),
            contents@ == host.buffer_of(dst_mem).data@.subrange(0, dst_offset as int)
                + host.buffer_of(src_mem).data@.subrange(
                src_offset as int,
                src_offset + size as int,
            ) + host.buffer_of(dst_mem).data@.subrange(dst_offset + size as int, i as int),
        decreases dlen - i,
    {
        let w = host.buffers[dst_mem.0].data[i];
        contents.push(w);
        proof {
            assert(contents@ =~= host.buffer_of(dst_mem).data@.subrange(0, dst_offset as int)
                + host.buffer_of(src_mem).data@.subrange(
                src_offset as int,
                src_offset + size as int,
            ) + host.buffer_of(dst_mem).data@.subrange(dst_offset + size as int, i + 1 as int));
        }
        i = i + 1;
    }
    proof {
        assert(host.buffer_of(dst_mem).data@.subrange(dst_offset + size as int, dlen as int)
            =~= host.buffer_of(dst_mem).data@.skip(dst_offset + size as int));
    }
    let ctx = host.buffers[dst_mem.0].ctx;
    let refs = host.buffers[dst_mem.0].refs;
    host.buffers[dst_mem.0] = HostBuffer { ctx, data: contents, refs };
    Ok(ev)
}

/// Copies the first `size` words of one buffer over another, after the
/// wait list.
pub fn enqueue_full_copy_buffer(
    host: &mut Host,
    cq: &CommandQueue,
    src_mem: Mem,
    dst_mem: Mem,
    size: usize,
    event_wait_list: Option<&[Event]>,
) -> (r: Result<Event, Error>)
    requires
        old(host).wf(),
    ensures
        final(host).wf(),
        r matches Ok(e) <==> can_enqueue_copy(
            *old(host),
            *cq,
            src_mem,
            dst_mem,
            0,
            0,
            size as int,
            Host::wait_seq(event_wait_list),
        ),
        r matches Ok(e) ==> {
            &&& e.0 == old(host).events@.len()
            &&& event_pushed(*old(host), *final(host), *cq, Host::wait_seq(event_wait_list), false)
            &&& buffer_updated(
                *old(host),
                *final(host),
                dst_mem,
                copy_window(
                    old(host).buffer_of(src_mem).data@,
                    old(host).buffer_of(dst_mem).data@,
                    0,
                    0,
                    size as int,
                ),
            )
            &&& enqueue_frame(*old(host), *final(host))
            &&& final(host).clock == old(host).clock
        },
        r matches Err(e) ==> *final(host) == *old(host) && e.kind == enqueue_copy_err(
            *old(host),
            *cq,
            src_mem,
            dst_mem,
            0,
            0,
            size as int,
            Host::wait_seq(event_wait_list),
        ),
{
    enqueue_copy_buffer(host, cq, src_mem, dst_mem, 0, 0, size, event_wait_list)
}

// ------------------------------------------------------------------
// Mapping a buffer into host-visible memory
// ------------------------------------------------------------------

/// Whether a buffer region can be mapped.
pub open spec fn can_enqueue_map(
    h: Host,
    q: CommandQueue,
    m: Mem,
    map_flags: u64,
    offset: int,
    len: int,
    wait: Seq<Event>,
) -> bool {
    &&& h.queue_live(q)
    &&& h.buffer_live(m)
    &&& h.buffer_of(m).ctx == h.queue_of(q).ctx
    &&& offset + len <= h.buffer_of(m).data@.len()
    &&& map_flags & 3 != 0
    &&& h.wait_list_ok(wait)
    &&& h.sched_fits(q, wait)
}

/// The error a failed map reports.
pub open spec fn enqueue_map_err(
    h: Host,
    q: CommandQueue,
    m: Mem,
    map_flags: u64,
    offset: int,
    len: int,
    wait: Seq<Event>,
) -> OCLErrorKind {
    if !h.queue_live(q) {
        OCLErrorKind::InvalidCommandQueue
    } else if !h.buffer_live(m) || h.buffer_of(m).ctx != h.queue_of(q).ctx {
        OCLErrorKind::InvalidMemObject
    } else if !(offset + len <= h.buffer_of(m).data@.len()) || map_flags & 3 == 0 {
        OCLErrorKind::InvalidValue
    } else if !h.wait_list_ok(wait) {
        OCLErrorKind::InvalidEventWaitList
    } else {
        OCLErrorKind::OutOfResources
    }
}

/// Maps a buffer region into host-visible memory: waits for the wait
/// list and for the map itself, then hands back the region's contents.
/// The low two bits of `map_flags` select read and write access; at
/// least one must be set.
pub fn enqueue_map_buffer(
    host: &mut Host,
    cq: &CommandQueue,
    buffer: Mem,
    block: bool,
    map_flags: u64,
    offset: usize,
    len: usize,
    event_wait_list: Option<&[Event]>,
) -> (r: Result<Vec<i32>, Error>)
    requires
        old(host).wf(),
    ensures
        final(host).wf(),
        r matches Ok(region) <==> can_enqueue_map(
            *old(host),
            *cq,
            buffer,
            map_flags,
            offset as int,
            len as int,
            Host::wait_seq(event_wait_list),
        ),
        r matches Ok(region) ==> {
            &&& region@ == old(host).buffer_of(buffer).data@.subrange(
                offset as int,
                offset + len as int,
            )
            &&& event_pushed(*old(host), *final(host), *cq, Host::wait_seq(event_wait_list), true)
            &&& final(host).buffers == old(host).buffers
            &&& enqueue_frame(*old(host), *final(host))
            &&& final(host).clock == old(host).sched_completion(
                *cq,
                Host::wait_seq(event_wait_list),
            )
        },
        r matches Err(e) ==> *final(host) == *old(host) && e.kind == enqueue_map_err(
            *old(host),
            *cq,
            buffer,
            map_flags,
            offset as int,
            len as int,
            Host::wait_seq(event_wait_list),
        ),
{
    if cq.0 >= host.queues.len() || !host.queues[cq.0].live {
        return Err(Error::from_kind(OCLErrorKind::InvalidCommandQueue));
    }
    if buffer.0 >= host.buffers.len() || host.buffers[buffer.0].refs == 0
        || host.buffers[buffer.0].ctx.0 != host.queues[cq.0].ctx.0 {
        return Err(Error::from_kind(OCLErrorKind::InvalidMemObject));
    }
    let blen = host.buffers[buffer.0].data.len();
    if len > blen || offset > blen - len || map_flags & 3 == 0 {
        return Err(Error::from_kind(OCLErrorKind::InvalidValue));
    }
    let ev = match host.schedule(*cq, event_wait_list) {
        Ok(ev) => ev,
        Err(e) => {
            return Err(e);
        },
    };
    let t = host.events[ev.0].complete_at;
    host.advance_to(t);
    host.events[ev.0].released = true;
    let mut region: Vec<i32> = Vec::new();
    let mut i: usize = 0;
    while i < len
        invariant
            host.wf(),
            buffer.0 < host.buffers@.len(),
            i <= len,
            offset + len <= blen,
            blen == host.buffer_of(buffer).data@.len(),
            region@ == host.buffer_of(buffer).data@.subrange(offset as int, offset + i as int),
        decreases len - i,
    {
        let w = host.buffers[buffer.0].data[offset + i];
        region.push(w);
        proof {
            assert(region@ =~= host.buffer_of(buffer).data@.subrange(
                offset as int,
                offset + i + 1 as int,
            ));
        }
        i = i + 1;
    }
    proof {
        assert(host.events@ =~= old(host).events@.push(
            HostEvent {
                queue: *cq,
                complete_at: old(host).sched_completion(
                    *cq,
                    Host::wait_seq(event_wait_list),
                ) as u64,
                released: true,
            },
        ));
    }
    let _ = block;
    Ok(region)
}

/// Maps a whole unified-memory buffer for reading and writing and hands
/// back its contents.
pub fn unified_ptr(host: &mut Host, cq: &CommandQueue, ptr: Mem, len: usize, event_wait_list: Option<&[Event]>) -> (r: Result<
    Vec<i32>,
    Error,
>)
    requires
        old(host).wf(),
    ensures
        final(host).wf(),
        r matches Ok(region) <==> can_enqueue_map(
            *old(host),
            *cq,
            ptr,
            3,
            0,
            len as int,
            Host::wait_seq(event_wait_list),
        ),
        r matches Ok(region) ==> {
            &&& region@ == old(host).buffer_of(ptr).data@.subrange(0, len as int)
            &&& event_pushed(*old(host), *final(host), *cq, Host::wait_seq(event_wait_list), true)
            &&& final(host).buffers == old(host).buffers
            &&& enqueue_frame(*old(host), *final(host))
            &&& final(host).clock == old(host).sched_completion(
                *cq,
                Host::wait_seq(event_wait_list),
            )
        },
        r matches Err(e) ==> *final(host) == *old(host) && e.kind == enqueue_map_err(
            *old(host),
            *cq,
            ptr,
            3,
            0,
            len as int,
            Host::wait_seq(event_wait_list),
        ),
{
    proof {
        assert(2u64 | 1u64 == 3u64) by (bit_vector);
    }
    enqueue_map_buffer(host, cq, ptr, true, 2 | 1, 0, len, event_wait_list)
}

// ------------------------------------------------------------------
// Programs and kernels
// ------------------------------------------------------------------

/// Creates a program from kernel source text in a context. The program's
/// entry points are counted at creation; it must be built before kernels
/// can be extracted.
pub fn create_program_with_source(host: &mut Host, context: &Context, src: &str) -> (r: Result<
    Program,
    Error,
>)
    requires
        old(host).wf(),
    ensures
        final(host).wf(),
        r matches Ok(p) <==> old(host).ctx_live(*context),
        r matches Ok(p) ==> {
            &&& p.0 == old(host).programs@.len()
            &&& final(host).programs@.len() == old(host).programs@.len() + 1
            &&& forall|i: int| 0 <= i < old(host).programs@.len() ==> final(host).programs@[i]
                == old(host).programs@[i]
            &&& final(host).program_of(p).ctx == *context
            &&& final(host).program_of(p).entries == entry_count(src@)
            &&& !final(host).program_of(p).built
            &&& final(host).program_of(p).live
            &&& final(host).platforms == old(host).platforms
            &&& final(host).devices == old(host).devices
            &&& final(host).contexts == old(host).contexts
            &&& final(host).queues == old(host).queues
            &&& final(host).buffers == old(host).buffers
            &&& final(host).kernels == old(host).kernels
            &&& final(host).events == old(host).events
            &&& final(host).clock == old(host).clock
        },
        r matches Err(e) ==> *final(host) == *old(host) && e.kind == OCLErrorKind::InvalidContext,
{
    if context.0 >= host.contexts.len() || !host.contexts[context.0].live {
        return Err(Error::from_kind(OCLErrorKind::InvalidContext));
    }
    let entries = count_entries(src);
    let p = Program(host.programs.len());
    host.programs.push(
        HostProgram { ctx: *context, entries, built: false, build_log: String::new(), live: true },
    );
    Ok(p)
}

/// The build log a failed build leaves behind.
pub open spec fn failed_build_log() -> Seq<char> {
    "error: no kernel compiler is available for this device"@
}

/// Whether a program can be built for this device list.
pub open spec fn can_build_program(h: Host, p: Program, ds: Seq<CLIntDevice>) -> bool {
    &&& h.program_live(p)
    &&& ds.len() > 0
    &&& forall|i: int| 0 <= i < ds.len() ==> h.valid_device(#[trigger] ds[i])
    &&& forall|i: int| 0 <= i < ds.len() ==> h.device_of(#[trigger] ds[i]).compiler_available
}

/// The error a failed build reports.
pub open spec fn build_program_err(h: Host, p: Program, ds: Seq<CLIntDevice>) -> OCLErrorKind {
    if !h.program_live(p) {
        OCLErrorKind::InvalidProgram
    } else if ds.len() == 0 {
        OCLErrorKind::InvalidValue
    } else if exists|i: int| 0 <= i < ds.len() && !h.valid_device(#[trigger] ds[i]) {
        OCLErrorKind::InvalidDevice
    } else {
        OCLErrorKind::CompilerNotAvailable
    }
}

/// Builds a program for a set of devices. The compiler-options string is
/// accepted and has no observable effect on the model driver; the result
/// does not depend on it. A build on a device without a compiler fails
/// and leaves a build log on the program, retrievable through
/// `get_program_build_info`.
pub fn build_program(
    host: &mut Host,
    program: &Program,
    devices: &[CLIntDevice],
    options: Option<&str>,
) -> (r: Result<(), Error>)
    requires
        old(host).wf(),
    ensures
        final(host).wf(),
        r matches Ok(u) <==> can_build_program(*old(host), *program, devices@),
        r matches Ok(u) ==> {
            &&& final(host).programs@.len() == old(host).programs@.len()
            &&& forall|i: int| 0 <= i < old(host).programs@.len() && i != program.0
                ==> final(host).programs@[i] == old(host).programs@[i]
            &&& final(host).program_of(*program).built
            &&& final(host).program_of(*program).build_log@ == Seq::<char>::empty()
            &&& final(host).program_of(*program).ctx == old(host).program_of(*program).ctx
            &&& final(host).program_of(*program).entries == old(host).program_of(*program).entries
            &&& final(host).program_of(*program).live
            &&& final(host).platforms == old(host).platforms
            &&& final(host).devices == old(host).devices
            &&& final(host).contexts == old(host).contexts
            &&& final(host).queues == old(host).queues
            &&& final(host).buffers == old(host).buffers
            &&& final(host).kernels == old(host).kernels
            &&& final(host).events == old(host).events
            &&& final(host).clock == old(host).clock
        },
        r matches Err(e) ==> e.kind == build_program_err(*old(host), *program, devices@),
        r matches Err(e) && e.kind != OCLErrorKind::CompilerNotAvailable ==> *final(host) == *old(host),
        r matches Err(e) && e.kind == OCLErrorKind::CompilerNotAvailable ==> {
            &&& final(host).programs@.len() == old(host).programs@.len()
            &&& forall|i: int| 0 <= i < old(host).programs@.len() && i != program.0
                ==> final(host).programs@[i] == old(host).programs@[i]
            &&& !final(host).program_of(*program).built
            &&& final(host).program_of(*program).build_log@ == failed_build_log()
            &&& final(host).program_of(*program).ctx == old(host).program_of(*program).ctx
            &&& final(host).program_of(*program).entries == old(host).program_of(*program).entries
            &&& final(host).program_of(*program).live
            &&& final(host).platforms == old(host).platforms
            &&& final(host).devices == old(host).devices
            &&& final(host).contexts == old(host).contexts
            &&& final(host).queues == old(host).queues
            &&& final(host).buffers == old(host).buffers
            &&& final(host).kernels == old(host).kernels
            &&& final(host).events == old(host).events
            &&& final(host).clock == old(host).clock
        },
{
    broadcast use vstd::string::group_string_axioms;

    let _ = options;
    if program.0 >= host.programs.len() || !host.programs[program.0].live {
        return Err(Error::from_kind(OCLErrorKind::InvalidProgram));
    }
    let n = devices.len();
    if n == 0 {
        return Err(Error::from_kind(OCLErrorKind::InvalidValue));
    }
    let mut i: usize = 0;
    while i < n
        invariant
            host.wf(),
            host.program_live(*program),
            n > 0,
            n == devices@.len(),
            i <= n,
            forall|j: int| 0 <= j < i ==> old(host).valid_device(#[trigger] devices@[j]),
            *host == *old(host),
        decreases n - i,
    {
        if devices[i].0 >= host.devices.len() {
            proof {
                assert(!old(host).valid_device(devices@[i as int]));
            }
            return Err(Error::from_kind(OCLErrorKind::InvalidDevice));
        }
        i = i + 1;
    }
    let mut i: usize = 0;
    while i < n
        invariant
            host.wf(),
            host.program_live(*program),
            program.0 < host.programs@.len(),
            n > 0,
            n == devices@.len(),
            i <= n,
            forall|j: int| 0 <= j < n ==> old(host).valid_device(#[trigger] devices@[j]),
            forall|j: int| 0 <= j < i
                ==> old(host).device_of(#[trigger] devices@[j]).compiler_available,
            *host == *old(host),
        decreases n - i,
    {
        if !host.devices[devices[i].0].compiler_available {
            proof {
                assert(!old(host).device_of(devices@[i as int]).compiler_available);
            }
            let log = "error: no kernel compiler is available for this device".to_string();
            host.programs[program.0].built = false;
            host.programs[program.0].build_log = log;
            return Err(Error::from_kind(OCLErrorKind::CompilerNotAvailable));
        }
        i = i + 1;
    }
    host.programs[program.0].built = true;
    host.programs[program.0].build_log = String::new();
    Ok(())
}

/// The string a build-info query returns for a program.
pub open spec fn build_info_string(p: HostProgram, which: ProgramBuildInfo) -> Seq<char> {
    match which {
        ProgramBuildInfo::BuildLog => p.build_log@,
        ProgramBuildInfo::Status => if p.built {
            "CL_BUILD_SUCCESS"@
        } else {
            "CL_BUILD_NONE"@
        },
    }
}

/// Queries build information of a program, one string per device.
pub fn get_program_build_info(
    host: &Host,
    program_build_info: ProgramBuildInfo,
    program: &Program,
    devices: &[CLIntDevice],
) -> (r: Result<Vec<String>, Error>)
    ensures
        r matches Ok(v) <==> host.valid_program(*program),
        r matches Ok(v) ==> v@.len() == devices@.len() && forall|i: int| 0 <= i < v@.len()
            ==> (#[trigger] v@[i])@ == build_info_string(
            host.program_of(*program),
            program_build_info,
        ),
        r matches Err(e) ==> e.kind == OCLErrorKind::InvalidProgram,
{
    if program.0 >= host.programs.len() {
        return Err(Error::from_kind(OCLErrorKind::InvalidProgram));
    }
    let n = devices.len();
    let mut v: Vec<String> = Vec::new();
    let mut i: usize = 0;
    while i < n
        invariant
            host.valid_program(*program),
            i <= n,
            v@.len() == i,
            forall|j: int| 0 <= j < i ==> (#[trigger] v@[j])@ == build_info_string(
                host.program_of(*program),
                program_build_info,
            ),
        decreases n - i,
    {
        let s = match program_build_info {
            ProgramBuildInfo::BuildLog => host.programs[program.0].build_log.clone(),
            ProgramBuildInfo::Status => if host.programs[program.0].built {
                "CL_BUILD_SUCCESS".to_string()
            } else {
                "CL_BUILD_NONE".to_string()
            },
        };
        v.push(s);
        i = i + 1;
    }
    Ok(v)
}

/// Extracts one kernel handle per entry point of a built program, in
/// textual order of the entry points.
pub fn create_kernels_in_program(host: &mut Host, program: &Program) -> (r: Result<
    Vec<Kernel>,
    Error,
>)
    requires
        old(host).wf(),
    ensures
        final(host).wf(),
        r matches Ok(v) <==> old(host).program_live(*program) && old(host).program_of(
            *program,
        ).built,
        r matches Ok(v) ==> {
            &&& v@.len() == old(host).program_of(*program).entries
            &&& final(host).kernels@.len() == old(host).kernels@.len() + v@.len()
            &&& forall|i: int| 0 <= i < old(host).kernels@.len() ==> final(host).kernels@[i]
                == old(host).kernels@[i]
            &&& forall|i: int| 0 <= i < v@.len() ==> (#[trigger] v@[i]).0 == old(host).kernels@.len() + i
            &&& forall|i: int| 0 <= i < v@.len() ==> {
                &&& final(host).kernel_of(#[trigger] v@[i]).ctx == old(host).program_of(
                    *program,
                ).ctx
                &&& final(host).kernel_of(v@[i]).args@.len() == 0
                &&& final(host).kernel_of(v@[i]).live
            }
            &&& final(host).platforms == old(host).platforms
            &&& final(host).devices == old(host).devices
            &&& final(host).contexts == old(host).contexts
            &&& final(host).queues == old(host).queues
            &&& final(host).buffers == old(host).buffers
            &&& final(host).programs == old(host).programs
            &&& final(host).events == old(host).events
            &&& final(host).clock == old(host).clock
        },
        r matches Err(e) ==> *final(host) == *old(host) && e.kind == (if !old(host).program_live(
            *program,
        ) {
            OCLErrorKind::InvalidProgram
        } else {
            OCLErrorKind::InvalidProgramExecutable
        }),
{
    if program.0 >= host.programs.len() || !host.programs[program.0].live {
        return Err(Error::from_kind(OCLErrorKind::InvalidProgram));
    }
    if !host.programs[program.0].built {
        return Err(Error::from_kind(OCLErrorKind::InvalidProgramExecutable));
    }
    let ctx = host.programs[program.0].ctx;
    let n = host.programs[program.0].entries;
    let base = host.kernels.len();
    let mut v: Vec<Kernel> = Vec::new();
    let mut i: usize = 0;
    while i < n
        invariant
            host.wf(),
            i <= n,
            v@.len() == i,
            host.kernels@.len() == base + i,
            base == old(host).kernels@.len(),
            ctx.0 < host.contexts@.len(),
            forall|j: int| 0 <= j < base ==> host.kernels@[j] == old(host).kernels@[j],
            forall|j: int| 0 <= j < i ==> (#[trigger] v@[j]).0 == base + j,
            forall|j: int| 0 <= j < i ==> {
                &&& host.kernel_of(#[trigger] v@[j]).ctx == ctx
                &&& host.kernel_of(v@[j]).args@.len() == 0
                &&& host.kernel_of(v@[j]).live
            },
            host.platforms == old(host).platforms,
            host.devices == old(host).devices,
            host.contexts == old(host).contexts,
            host.queues == old(host).queues,
            host.buffers == old(host).buffers,
            host.programs == old(host).programs,
            host.events == old(host).events,
            host.clock == old(host).clock,
        decreases n - i,
    {
        v.push(Kernel(host.kernels.len()));
        host.kernels.push(HostKernel { ctx, args: Vec::new(), live: true });
        i = i + 1;
    }
    Ok(v)
}

/// Releases a program exactly once; a second release reports
/// `InvalidProgram`. Kernels already extracted from it stay live.
pub fn release_program(host: &mut Host, program: Program) -> (r: Result<(), Error>)
    requires
        old(host).wf(),
    ensures
        final(host).wf(),
        r matches Ok(u) <==> old(host).program_live(program),
        r matches Ok(u) ==> {
            &&& final(host).programs@.len() == old(host).programs@.len()
            &&& forall|i: int| 0 <= i < old(host).programs@.len() && i != program.0
                ==> final(host).programs@[i] == old(host).programs@[i]
            &&& !final(host).program_of(program).live
            &&& final(host).platforms == old(host).platforms
            &&& final(host).devices == old(host).devices
            &&& final(host).contexts == old(host).contexts
            &&& final(host).queues == old(host).queues
            &&& final(host).buffers == old(host).buffers
            &&& final(host).kernels == old(host).kernels
            &&& final(host).events == old(host).events
            &&& final(host).clock == old(host).clock
        },
        r matches Err(e) ==> *final(host) == *old(host) && e.kind == OCLErrorKind::InvalidProgram,
{
    if program.0 >= host.programs.len() || !host.programs[program.0].live {
        return Err(Error::from_kind(OCLErrorKind::InvalidProgram));
    }
    host.programs[program.0].live = false;
    Ok(())
}

/// Releases a kernel exactly once; a second release reports
/// `InvalidKernel`.
pub fn release_kernel(host: &mut Host, kernel: Kernel) -> (r: Result<(), Error>)
    requires
        old(host).wf(),
    ensures
        final(host).wf(),
        r matches Ok(u) <==> old(host).kernel_live(kernel),
        r matches Ok(u) ==> {
            &&& final(host).kernels@.len() == old(host).kernels@.len()
            &&& forall|i: int| 0 <= i < old(host).kernels@.len() && i != kernel.0
                ==> final(host).kernels@[i] == old(host).kernels@[i]
            &&& !final(host).kernel_of(kernel).live
            &&& final(host).platforms == old(host).platforms
            &&& final(host).devices == old(host).devices
            &&& final(host).contexts == old(host).contexts
            &&& final(host).queues == old(host).queues
            &&& final(host).buffers == old(host).buffers
            &&& final(host).programs == old(host).programs
            &&& final(host).events == old(host).events
            &&& final(host).clock == old(host).clock
        },
        r matches Err(e) ==> *final(host) == *old(host) && e.kind == OCLErrorKind::InvalidKernel,
{
    if kernel.0 >= host.kernels.len() || !host.kernels[kernel.0].live {
        return Err(Error::from_kind(OCLErrorKind::InvalidKernel));
    }
    host.kernels[kernel.0].live = false;
    Ok(())
}

/// The most argument slots a kernel can have.
pub const MAX_KERNEL_ARGS: usize = 1024;

/// Whether an argument can be set on a kernel slot.
pub open spec fn can_set_kernel_arg(h: Host, k: Kernel, index: int, arg: KernelArg) -> bool {
    &&& h.kernel_live(k)
    &&& index < 1024
    &&& match arg {
        KernelArg::MemObject(m) => h.buffer_live(m) && h.buffer_of(m).ctx == h.kernel_of(k).ctx,
        KernelArg::Scalar(v) => true,
    }
}

/// The error a failed argument set reports.
pub open spec fn set_kernel_arg_err(h: Host, k: Kernel, index: int, arg: KernelArg) -> OCLErrorKind {
    if !h.kernel_live(k) {
        OCLErrorKind::InvalidKernel
    } else if index >= 1024 {
        OCLErrorKind::InvalidArgIndex
    } else {
        OCLErrorKind::InvalidArgValue
    }
}

/// Sets one argument slot of a kernel: a memory object of the kernel's
/// context, or a 32-bit scalar passed by value. Slots between the old
/// count and the index start out unset.
pub fn set_kernel_arg(host: &mut Host, kernel: &Kernel, index: usize, arg: KernelArg) -> (r: Result<
    (),
    Error,
>)
    requires
        old(host).wf(),
    ensures
        final(host).wf(),
        r matches Ok(u) <==> can_set_kernel_arg(*old(host), *kernel, index as int, arg),
        r matches Ok(u) ==> {
            &&& final(host).kernels@.len() == old(host).kernels@.len()
            &&& forall|i: int| 0 <= i < old(host).kernels@.len() && i != kernel.0
                ==> final(host).kernels@[i] == old(host).kernels@[i]
            &&& final(host).kernel_of(*kernel).ctx == old(host).kernel_of(*kernel).ctx
            &&& final(host).kernel_of(*kernel).live == old(host).kernel_of(*kernel).live
            &&& final(host).kernel_of(*kernel).args@.len() == (if index + 1 >= old(host).kernel_of(*kernel).args@.len() {
                index + 1
            } else {
                old(host).kernel_of(*kernel).args@.len() as int
            })
            &&& final(host).kernel_of(*kernel).args@[index as int] == Some(arg)
            &&& forall|j: int| 0 <= j < old(host).kernel_of(*kernel).args@.len() && j != index
                ==> final(host).kernel_of(*kernel).args@[j] == old(host).kernel_of(
                *kernel,
            ).args@[j]
            &&& forall|j: int| old(host).kernel_of(*kernel).args@.len() <= j < final(host).kernel_of(*kernel).args@.len() && j != index ==> final(host).kernel_of(
                *kernel,
            ).args@[j] is None
            &&& final(host).platforms == old(host).platforms
            &&& final(host).devices == old(host).devices
            &&& final(host).contexts == old(host).contexts
            &&& final(host).queues == old(host).queues
            &&& final(host).buffers == old(host).buffers
            &&& final(host).programs == old(host).programs
            &&& final(host).events == old(host).events
            &&& final(host).clock == old(host).clock
        },
        r matches Err(e) ==> *final(host) == *old(host) && e.kind == set_kernel_arg_err(
            *old(host),
            *kernel,
            index as int,
            arg,
        ),
{
    if kernel.0 >= host.kernels.len() || !host.kernels[kernel.0].live {
        return Err(Error::from_kind(OCLErrorKind::InvalidKernel));
    }
    if index >= MAX_KERNEL_ARGS {
        return Err(Error::from_kind(OCLErrorKind::InvalidArgIndex));
    }
    match arg {
        KernelArg::MemObject(m) => {
            if m.0 >= host.buffers.len() || host.buffers[m.0].refs == 0 || host.buffers[m.0].ctx.0
                != host.kernels[kernel.0].ctx.0 {
                return Err(Error::from_kind(OCLErrorKind::InvalidArgValue));
            }
        },
        KernelArg::Scalar(v) => {},
    }
    let ctx = host.kernels[kernel.0].ctx;
    let old_len = host.kernels[kernel.0].args.len();
    let mut args: Vec<Option<KernelArg>> = Vec::new();
    let mut i: usize = 0;
    while i < old_len
        invariant
            host.wf(),
            *host == *old(host),
            kernel.0 < host.kernels@.len(),
            old_len == host.kernel_of(*kernel).args@.len(),
            i <= old_len,
            args@ == host.kernel_of(*kernel).args@.subrange(0, i as int),
        decreases old_len - i,
    {
        let a = host.kernels[kernel.0].args[i];
        args.push(a);
        proof {
            assert(args@ =~= host.kernel_of(*kernel).args@.subrange(0, i + 1 as int));
        }
        i = i + 1;
    }
    proof {
        assert(args@ =~= host.kernel_of(*kernel).args@);
    }
    while args.len() < index + 1
        invariant
            index < 1024,
            host.wf(),
            *host == *old(host),
            kernel.0 < host.kernels@.len(),
            args@.len() >= host.kernel_of(*kernel).args@.len(),
            args@.len() <= index + 1 || args@.len() == host.kernel_of(*kernel).args@.len(),
            forall|j: int| 0 <= j < host.kernel_of(*kernel).args@.len() ==> args@[j]
                == host.kernel_of(*kernel).args@[j],
            forall|j: int| host.kernel_of(*kernel).args@.len() <= j < args@.len() ==> args@[j]
                is None,
        decreases index + 1 - args.len(),
    {
        args.push(None);
    }
    args[index] = Some(arg);
    host.kernels[kernel.0] = HostKernel { ctx, args, live: true };
    Ok(())
}

/// The three buffer arguments a launchable kernel holds in its first
/// three slots.
pub open spec fn launch_args(h: Host, k: Kernel) -> Option<(Mem, Mem, Mem)> {
    let args = h.kernel_of(k).args@;
    if args.len() >= 3 {
        match (args[0], args[1], args[2]) {
            (
                Some(KernelArg::MemObject(a)),
                Some(KernelArg::MemObject(b)),
                Some(KernelArg::MemObject(c)),
            ) => Some((a, b, c)),
            _ => None,
        }
    } else {
        None
    }
}

/// Whether a kernel's arguments are set and name live buffers of the
/// queue's context.
pub open spec fn launch_args_ok(h: Host, q: CommandQueue, k: Kernel) -> bool {
    launch_args(h, k) matches Some((a, b, c)) && {
        &&& h.buffer_live(a) && h.buffer_of(a).ctx == h.queue_of(q).ctx
        &&& h.buffer_live(b) && h.buffer_of(b).ctx == h.queue_of(q).ctx
        &&& h.buffer_live(c) && h.buffer_of(c).ctx == h.queue_of(q).ctx
    }
}

/// Whether a kernel launch can be enqueued: `n` is the first global work
/// size, which every buffer argument must cover.
pub open spec fn can_enqueue_kernel(
    h: Host,
    q: CommandQueue,
    k: Kernel,
    wd: int,
    n: int,
    wait: Seq<Event>,
) -> bool {
    &&& h.queue_live(q)
    &&& h.kernel_live(k)
    &&& h.kernel_of(k).ctx == h.queue_of(q).ctx
    &&& 1 <= wd <= 3
    &&& launch_args_ok(h, q, k)
    &&& n >= 1
    &&& (launch_args(h, k) matches Some((a, b, c)) ==> {
        &&& n <= h.buffer_of(a).data@.len()
        &&& n <= h.buffer_of(b).data@.len()
        &&& n <= h.buffer_of(c).data@.len()
    })
    &&& h.wait_list_ok(wait)
    &&& h.sched_fits(q, wait)
}

/// The error a failed launch reports.
pub open spec fn enqueue_kernel_err(
    h: Host,
    q: CommandQueue,
    k: Kernel,
    wd: int,
    n: int,
    wait: Seq<Event>,
) -> OCLErrorKind {
    if !h.queue_live(q) {
        OCLErrorKind::InvalidCommandQueue
    } else if !h.kernel_live(k) {
        OCLErrorKind::InvalidKernel
    } else if h.kernel_of(k).ctx != h.queue_of(q).ctx {
        OCLErrorKind::InvalidContext
    } else if !(1 <= wd <= 3) {
        OCLErrorKind::InvalidWorkDimension
    } else if !launch_args_ok(h, q, k) {
        OCLErrorKind::InvalidKernelArgs
    } else if !(n >= 1 && (launch_args(h, k) matches Some((a, b, c)) ==> n <= h.buffer_of(
        a,
    ).data@.len() && n <= h.buffer_of(b).data@.len() && n <= h.buffer_of(c).data@.len())) {
        OCLErrorKind::InvalidGlobalWorkSize
    } else if !h.wait_list_ok(wait) {
        OCLErrorKind::InvalidEventWaitList
    } else {
        OCLErrorKind::OutOfResources
    }
}

/// The output buffer after an element-wise addition over the first `n`
/// items; 32-bit addition wraps, as it does on the device.
pub open spec fn vec_added(a: Seq<i32>, b: Seq<i32>, out: Seq<i32>, n: int) -> Seq<i32> {
    Seq::new(
        out.len(),
        |i: int|
            if 0 <= i < n {
                vstd::wrapping::i32_specs::wrapping_add(a[i], b[i])
            } else {
                out[i]
            },
    )
}

/// Launches a kernel over an N-dimensional range, after the wait list.
/// Every kernel of the model driver has the same operational meaning —
/// the element-wise 32-bit addition of its first two buffer arguments
/// into the third, over the first global work size — which is the
/// operation the runtime's micro-benchmark submits. The local work size
/// and global offset are accepted and do not affect the result.
pub fn enqueue_nd_range_kernel(
    host: &mut Host,
    cq: &CommandQueue,
    kernel: &Kernel,
    wd: usize,
    gws: &[usize; 3],
    lws: Option<&[usize; 3]>,
    offset: Option<[usize; 3]>,
    event_wait_list: Option<&[Event]>,
) -> (r: Result<Event, Error>)
    requires
        old(host).wf(),
    ensures
        final(host).wf(),
        r matches Ok(e) <==> can_enqueue_kernel(
            *old(host),
            *cq,
            *kernel,
            wd as int,
            gws@[0] as int,
            Host::wait_seq(event_wait_list),
        ),
        r matches Ok(e) ==> {
            &&& e.0 == old(host).events@.len()
            &&& event_pushed(*old(host), *final(host), *cq, Host::wait_seq(event_wait_list), false)
            &&& (launch_args(*old(host), *kernel) matches Some((a, b, c)) ==> buffer_updated(
                *old(host),
                *final(host),
                c,
                vec_added(
                    old(host).buffer_of(a).data@,
                    old(host).buffer_of(b).data@,
                    old(host).buffer_of(c).data@,
                    gws@[0] as int,
                ),
            ))
            &&& enqueue_frame(*old(host), *final(host))
            &&& final(host).clock == old(host).clock
        },
        r matches Err(e) ==> *final(host) == *old(host) && e.kind == enqueue_kernel_err(
            *old(host),
            *cq,
            *kernel,
            wd as int,
            gws@[0] as int,
            Host::wait_seq(event_wait_list),
        ),
{
    let _ = lws;
    let _ = offset;
    if cq.0 >= host.queues.len() || !host.queues[cq.0].live {
        return Err(Error::from_kind(OCLErrorKind::InvalidCommandQueue));
    }
    if kernel.0 >= host.kernels.len() || !host.kernels[kernel.0].live {
        return Err(Error::from_kind(OCLErrorKind::InvalidKernel));
    }
    if host.kernels[kernel.0].ctx.0 != host.queues[cq.0].ctx.0 {
        return Err(Error::from_kind(OCLErrorKind::InvalidContext));
    }
    if wd < 1 || wd > 3 {
        return Err(Error::from_kind(OCLErrorKind::InvalidWorkDimension));
    }
    if host.kernels[kernel.0].args.len() < 3 {
        return Err(Error::from_kind(OCLErrorKind::InvalidKernelArgs));
    }
    let a0 = host.kernels[kernel.0].args[0];
    let a1 = host.kernels[kernel.0].args[1];
    let a2 = host.kernels[kernel.0].args[2];
    let (am, bm, cm) = match (a0, a1, a2) {
        (
            Some(KernelArg::MemObject(am)),
            Some(KernelArg::MemObject(bm)),
            Some(KernelArg::MemObject(cm)),
        ) => (am, bm, cm),
        _ => {
            return Err(Error::from_kind(OCLErrorKind::InvalidKernelArgs));
        },
    };
    let qctx = host.queues[cq.0].ctx.0;
    if am.0 >= host.buffers.len() || host.buffers[am.0].refs == 0 || host.buffers[am.0].ctx.0
        != qctx {
        return Err(Error::from_kind(OCLErrorKind::InvalidKernelArgs));
    }
    if bm.0 >= host.buffers.len() || host.buffers[bm.0].refs == 0 || host.buffers[bm.0].ctx.0
        != qctx {
        return Err(Error::from_kind(OCLErrorKind::InvalidKernelArgs));
    }
    if cm.0 >= host.buffers.len() || host.buffers[cm.0].refs == 0 || host.buffers[cm.0].ctx.0
        != qctx {
        return Err(Error::from_kind(OCLErrorKind::InvalidKernelArgs));
    }
    let n = gws[0];
    if n < 1 || n > host.buffers[am.0].data.len() || n > host.buffers[bm.0].data.len() || n
        > host.buffers[cm.0].data.len() {
        return Err(Error::from_kind(OCLErrorKind::InvalidGlobalWorkSize));
    }
    let ev = match host.schedule(*cq, event_wait_list) {
        Ok(ev) => ev,
        Err(e) => {
            return Err(e);
        },
    };
    let clen = host.buffers[cm.0].data.len();
    let mut out: Vec<i32> = Vec::new();
    let mut i: usize = 0;
    while i < n
        invariant
            host.wf(),
            am.0 < host.buffers@.len(),
            bm.0 < host.buffers@.len(),
            cm.0 < host.buffers@.len(),
            i <= n,
            n <= host.buffer_of(am).data@.len(),
            n <= host.buffer_of(bm).data@.len(),
            n <= clen,
            clen == host.buffer_of(cm).data@.len(),
            out@.len() == i,
            forall|j: int| 0 <= j < i ==> out@[j] == vstd::wrapping::i32_specs::wrapping_add(
                host.buffer_of(am).data@[j],
                host.buffer_of(bm).data@[j],
            ),
        decreases n - i,
    {
        let x = host.buffers[am.0].data[i];
        let y = host.buffers[bm.0].data[i];
        out.push(x.wrapping_add(y));
        i = i + 1;
    }
    let mut i: usize = n;
    while i < clen
        invariant
            host.wf(),
            am.0 < host.buffers@.len(),
            bm.0 < host.buffers@.len(),
            cm.0 < host.buffers@.len(),
            n <= i <= clen,
            n <= host.buffer_of(am).data@.len(),
            n <= host.buffer_of(bm).data@.len(),
            clen == host.buffer_of(cm).data@.len(),
            out@.len() == i,
            forall|j: int| 0 <= j < n ==> out@[j] == vstd::wrapping::i32_specs::wrapping_add(
                host.buffer_of(am).data@[j],
                host.buffer_of(bm).data@[j],
            ),
            forall|j: int| n <= j < i ==> out@[j] == host.buffer_of(cm).data@[j],
        decreases clen - i,
    {
        let w = host.buffers[cm.0].data[i];
        out.push(w);
        i = i + 1;
    }
    proof {
        assert(out@ =~= vec_added(
            host.buffer_of(am).data@,
            host.buffer_of(bm).data@,
            host.buffer_of(cm).data@,
            n as int,
        ));
    }
    let cctx = host.buffers[cm.0].ctx;
    let crefs = host.buffers[cm.0].refs;
    host.buffers[cm.0] = HostBuffer { ctx: cctx, data: out, refs: crefs };
    Ok(ev)
}

// ------------------------------------------------------------------
// Batched copies
// ------------------------------------------------------------------

/// Whether every copy of a batch is in bounds and free of same-buffer
/// overlap. Each entry is `(source offset, destination offset, size)`.
pub open spec fn copies_all_ok(
    slen: int,
    dlen: int,
    same: bool,
    ops: Seq<(usize, usize, usize)>,
) -> bool {
    forall|k: int| 0 <= k < ops.len() ==> copy_op_ok(
        slen,
        dlen,
        same,
        (#[trigger] ops[k]).0 as int,
        ops[k].1 as int,
        ops[k].2 as int,
    )
}

/// The error of the first offending copy of a batch.
pub open spec fn copies_err(
    slen: int,
    dlen: int,
    same: bool,
    ops: Seq<(usize, usize, usize)>,
) -> OCLErrorKind
    decreases ops.len(),
{
    if ops.len() == 0 {
        OCLErrorKind::InvalidValue
    } else {
        let op = ops[0];
        if !copy_op_ok(slen, dlen, same, op.0 as int, op.1 as int, op.2 as int) {
            if !(op.2 > 0 && op.0 + op.2 <= slen && op.1 + op.2 <= dlen) {
                OCLErrorKind::InvalidValue
            } else {
                OCLErrorKind::MemCopyOverlap
            }
        } else {
            copies_err(slen, dlen, same, ops.drop_first())
        }
    }
}

/// When the first `k` copies are fine and copy `k` is not, the batch
/// reports the error of copy `k`.
proof fn lemma_copies_err_at(
    slen: int,
    dlen: int,
    same: bool,
    ops: Seq<(usize, usize, usize)>,
    k: int,
)
    requires
        0 <= k < ops.len(),
        forall|j: int| 0 <= j < k ==> copy_op_ok(
            slen,
            dlen,
            same,
            (#[trigger] ops[j]).0 as int,
            ops[j].1 as int,
            ops[j].2 as int,
        ),
        !copy_op_ok(slen, dlen, same, ops[k].0 as int, ops[k].1 as int, ops[k].2 as int),
    ensures
        copies_err(slen, dlen, same, ops) == (if !(ops[k].2 > 0 && ops[k].0 + ops[k].2 <= slen
            && ops[k].1 + ops[k].2 <= dlen) {
            OCLErrorKind::InvalidValue
        } else {
            OCLErrorKind::MemCopyOverlap
        }),
    decreases k,
{
    if k > 0 {
        let rest = ops.drop_first();
        assert(forall|j: int| 0 <= j < k - 1 ==> #[trigger] rest[j] == ops[j + 1]);
        lemma_copies_err_at(slen, dlen, same, rest, k - 1);
    }
}

/// The destination's contents after a batch of copies applied in order.
/// When source and destination are the same buffer, each copy reads the
/// buffer as the previous copies left it.
pub open spec fn copies_applied(
    same: bool,
    src0: Seq<i32>,
    dst: Seq<i32>,
    ops: Seq<(usize, usize, usize)>,
) -> Seq<i32>
    decreases ops.len(),
{
    if ops.len() == 0 {
        dst
    } else {
        let op = ops[0];
        let next = copy_window(
            if same {
                dst
            } else {
                src0
            },
            dst,
            op.0 as int,
            op.1 as int,
            op.2 as int,
        );
        copies_applied(same, src0, next, ops.drop_first())
    }
}

/// Two hosts that agree on the events of a wait list agree on its latest
/// completion.
pub proof fn lemma_latest_completion_congruent(h1: Host, h2: Host, wait: Seq<Event>)
    requires
        forall|i: int| 0 <= i < wait.len() ==> h1.valid_event(#[trigger] wait[i]) && h2.valid_event(
            wait[i],
        ) && h1.event_of(wait[i]) == h2.event_of(wait[i]),
    ensures
        h1.latest_completion(wait) == h2.latest_completion(wait),
    decreases wait.len(),
{
    if wait.len() > 0 {
        assert(forall|i: int| 0 <= i < wait.len() - 1 ==> #[trigger] wait.drop_last()[i]
            == wait[i]);
        lemma_latest_completion_congruent(h1, h2, wait.drop_last());
    }
}

/// Whether a batch of copies can be enqueued; an empty batch always can,
/// and does nothing.
pub open spec fn can_enqueue_copies(
    h: Host,
    q: CommandQueue,
    src: Mem,
    dst: Mem,
    ops: Seq<(usize, usize, usize)>,
    wait: Seq<Event>,
) -> bool {
    ops.len() == 0 || {
        &&& h.queue_live(q)
        &&& h.buffer_live(src) && h.buffer_of(src).ctx == h.queue_of(q).ctx
        &&& h.buffer_live(dst) && h.buffer_of(dst).ctx == h.queue_of(q).ctx
        &&& copies_all_ok(
            h.buffer_of(src).data@.len() as int,
            h.buffer_of(dst).data@.len() as int,
            src == dst,
            ops,
        )
        &&& h.wait_list_ok(wait)
        &&& h.sched_fits(q, wait)
    }
}

/// The error a failed batch reports.
pub open spec fn enqueue_copies_err(
    h: Host,
    q: CommandQueue,
    src: Mem,
    dst: Mem,
    ops: Seq<(usize, usize, usize)>,
    wait: Seq<Event>,
) -> OCLErrorKind {
    if !h.queue_live(q) {
        OCLErrorKind::InvalidCommandQueue
    } else if !h.buffer_live(src) || h.buffer_of(src).ctx != h.queue_of(q).ctx || !h.buffer_live(
        dst,
    ) || h.buffer_of(dst).ctx != h.queue_of(q).ctx {
        OCLErrorKind::InvalidMemObject
    } else if !copies_all_ok(
        h.buffer_of(src).data@.len() as int,
        h.buffer_of(dst).data@.len() as int,
        src == dst,
        ops,
    ) {
        copies_err(
            h.buffer_of(src).data@.len() as int,
            h.buffer_of(dst).data@.len() as int,
            src == dst,
            ops,
        )
    } else if !h.wait_list_ok(wait) {
        OCLErrorKind::InvalidEventWaitList
    } else {
        OCLErrorKind::OutOfResources
    }
}

/// Enqueues a batch of copies between two buffers, all depending on the
/// same wait list, then blocks until every copy has completed. The whole
/// batch is validated before anything is enqueued, so a failed call
/// leaves the host unchanged.
pub fn enqueue_copy_buffers(
    host: &mut Host,
    cq: &CommandQueue,
    src_mem: Mem,
    dst_mem: Mem,
    to_copy: &[(usize, usize, usize)],
    event_wait_list: Option<&[Event]>,
) -> (r: Result<(), Error>)
    requires
        old(host).wf(),
    ensures
        final(host).wf(),
        r matches Ok(u) <==> can_enqueue_copies(
            *old(host),
            *cq,
            src_mem,
            dst_mem,
            to_copy@,
            Host::wait_seq(event_wait_list),
        ),
        r matches Ok(u) && to_copy@.len() == 0 ==> *final(host) == *old(host),
        r matches Ok(u) && to_copy@.len() > 0 ==> {
            &&& buffer_updated(
                *old(host),
                *final(host),
                dst_mem,
                copies_applied(
                    src_mem == dst_mem,
                    old(host).buffer_of(src_mem).data@,
                    old(host).buffer_of(dst_mem).data@,
                    to_copy@,
                ),
            )
            &&& final(host).events@.len() == old(host).events@.len() + to_copy@.len()
            &&& forall|i: int| 0 <= i < old(host).events@.len() ==> final(host).events@[i] == old(
                host,
            ).events@[i]
            &&& forall|i: int| old(host).events@.len() <= i < final(host).events@.len()
                ==> final(host).events@[i] == (HostEvent {
                queue: *cq,
                complete_at: old(host).sched_completion(
                    *cq,
                    Host::wait_seq(event_wait_list),
                ) as u64,
                released: true,
            })
            &&& enqueue_frame(*old(host), *final(host))
            &&& final(host).clock == old(host).sched_completion(
                *cq,
                Host::wait_seq(event_wait_list),
            )
        },
        r matches Err(e) ==> *final(host) == *old(host) && e.kind == enqueue_copies_err(
            *old(host),
            *cq,
            src_mem,
            dst_mem,
            to_copy@,
            Host::wait_seq(event_wait_list),
        ),
{
    let nops = to_copy.len();
    if nops == 0 {
        return Ok(());
    }
    if cq.0 >= host.queues.len() || !host.queues[cq.0].live {
        return Err(Error::from_kind(OCLErrorKind::InvalidCommandQueue));
    }
    if src_mem.0 >= host.buffers.len() || host.buffers[src_mem.0].refs == 0
        || host.buffers[src_mem.0].ctx.0 != host.queues[cq.0].ctx.0 {
        return Err(Error::from_kind(OCLErrorKind::InvalidMemObject));
    }
    if dst_mem.0 >= host.buffers.len() || host.buffers[dst_mem.0].refs == 0
        || host.buffers[dst_mem.0].ctx.0 != host.queues[cq.0].ctx.0 {
        return Err(Error::from_kind(OCLErrorKind::InvalidMemObject));
    }
    let slen = host.buffers[src_mem.0].data.len();
    let dlen = host.buffers[dst_mem.0].data.len();
    let same = src_mem.0 == dst_mem.0;
    let ghost sl = slen as int;
    let ghost dl = dlen as int;
    let mut k: usize = 0;
    while k < nops
        invariant
            host.wf(),
            *host == *old(host),
            nops == to_copy@.len(),
            nops > 0,
            k <= nops,
            old(host).queue_live(*cq),
            old(host).buffer_live(src_mem),
            old(host).buffer_live(dst_mem),
            old(host).buffer_of(src_mem).ctx == old(host).queue_of(*cq).ctx,
            old(host).buffer_of(dst_mem).ctx == old(host).queue_of(*cq).ctx,
            sl == old(host).buffer_of(src_mem).data@.len(),
            dl == old(host).buffer_of(dst_mem).data@.len(),
            sl == slen as int,
            dl == dlen as int,
            same == (src_mem == dst_mem),
            forall|j: int| 0 <= j < k ==> copy_op_ok(
                sl,
                dl,
                same,
                (#[trigger] to_copy@[j]).0 as int,
                to_copy@[j].1 as int,
                to_copy@[j].2 as int,
            ),
        decreases nops - k,
    {
        let (so, dof, sz) = to_copy[k];
        if sz == 0 || sz > slen || so > slen - sz || sz > dlen || dof > dlen - sz {
            proof {
                assert(!copy_op_ok(
                    sl,
                    dl,
                    same,
                    (to_copy@[k as int]).0 as int,
                    (to_copy@[k as int]).1 as int,
                    (to_copy@[k as int]).2 as int,
                ));
                lemma_copies_err_at(sl, dl, same, to_copy@, k as int);
            }
            return Err(Error::from_kind(OCLErrorKind::InvalidValue));
        }
        if same && so < dof + sz && dof < so + sz {
            proof {
                assert(!copy_op_ok(
                    sl,
                    dl,
                    same,
                    (to_copy@[k as int]).0 as int,
                    (to_copy@[k as int]).1 as int,
                    (to_copy@[k as int]).2 as int,
                ));
                lemma_copies_err_at(sl, dl, same, to_copy@, k as int);
            }
            return Err(Error::from_kind(OCLErrorKind::MemCopyOverlap));
        }
        k = k + 1;
    }
    let ghost wait = Host::wait_seq(event_wait_list);
    let ghost t0 = old(host).sched_completion(*cq, wait);
    let base = host.events.len();
    let mut evs: Vec<Event> = Vec::new();
    let mut k: usize = 0;
    while k < nops
        invariant
            host.wf(),
            nops == to_copy@.len(),
            k <= nops,
            sl == slen as int,
            dl == dlen as int,
            same == (src_mem == dst_mem),
            base == old(host).events@.len(),
            wait == Host::wait_seq(event_wait_list),
            t0 == old(host).sched_completion(*cq, wait),
            old(host).queue_live(*cq),
            host.queue_live(*cq),
            old(host).buffer_live(src_mem),
            old(host).buffer_live(dst_mem),
            old(host).buffer_of(src_mem).ctx == old(host).queue_of(*cq).ctx,
            old(host).buffer_of(dst_mem).ctx == old(host).queue_of(*cq).ctx,
            old(host).buffer_of(src_mem).data@.len() == sl,
            old(host).buffer_of(dst_mem).data@.len() == dl,
            host.buffer_live(src_mem),
            host.buffer_live(dst_mem),
            host.buffer_of(src_mem).ctx == host.queue_of(*cq).ctx,
            host.buffer_of(dst_mem).ctx == host.queue_of(*cq).ctx,
            host.buffer_of(src_mem).data@.len() == sl,
            host.buffer_of(dst_mem).data@.len() == dl,
            forall|j: int| 0 <= j < nops ==> copy_op_ok(
                sl,
                dl,
                same,
                (#[trigger] to_copy@[j]).0 as int,
                to_copy@[j].1 as int,
                to_copy@[j].2 as int,
            ),
            k == 0 ==> *host == *old(host),
            k > 0 ==> old(host).wait_list_ok(wait) && old(host).sched_fits(*cq, wait),
            host.clock == old(host).clock,
            host.wait_list_ok(wait) == old(host).wait_list_ok(wait),
            host.sched_completion(*cq, wait) == t0,
            evs@.len() == k,
            host.events@.len() == base + k,
            forall|i: int| 0 <= i < base ==> host.events@[i] == old(host).events@[i],
            forall|i: int| 0 <= i < k ==> (#[trigger] evs@[i]).0 == base + i,
            forall|i: int| base <= i < base + k ==> host.events@[i] == (HostEvent {
                queue: *cq,
                complete_at: t0 as u64,
                released: false,
            }),
            enqueue_frame(*old(host), *host),
            buffer_updated(
                *old(host),
                *host,
                dst_mem,
                copies_applied(
                    same,
                    old(host).buffer_of(src_mem).data@,
                    old(host).buffer_of(dst_mem).data@,
                    to_copy@.subrange(0, k as int),
                ),
            ),
        decreases nops - k,
    {
        let (so, dof, sz) = to_copy[k];
        let ghost pre = *host;
        let ev = match enqueue_copy_buffer(
            host,
            cq,
            src_mem,
            dst_mem,
            so,
            dof,
            sz,
            event_wait_list,
        ) {
            Ok(ev) => ev,
            Err(e) => {
                proof {
                    if k > 0 {
                        assert(false);
                    }
                }
                return Err(e);
            },
        };
        evs.push(ev);
        proof {
            lemma_latest_completion_congruent(*host, *old(host), wait);
            assert(to_copy@.subrange(0, k + 1 as int).drop_last() =~= to_copy@.subrange(
                0,
                k as int,
            ));
            lemma_copies_applied_step(
                same,
                old(host).buffer_of(src_mem).data@,
                old(host).buffer_of(dst_mem).data@,
                to_copy@,
                k as int,
            );
        }
        k = k + 1;
    }
    proof {
        assert(to_copy@.subrange(0, nops as int) =~= to_copy@);
    }
    let mut k: usize = 0;
    while k < nops
        invariant
            host.wf(),
            nops == to_copy@.len(),
            k <= nops,
            base == old(host).events@.len(),
            evs@.len() == nops,
            forall|i: int| 0 <= i < nops ==> (#[trigger] evs@[i]).0 == base + i,
            host.events@.len() == base + nops,
            forall|i: int| 0 <= i < base ==> host.events@[i] == old(host).events@[i],
            forall|i: int| base <= i < base + k ==> host.events@[i] == (HostEvent {
                queue: *cq,
                complete_at: t0 as u64,
                released: true,
            }),
            forall|i: int| base + k <= i < base + nops ==> host.events@[i] == (HostEvent {
                queue: *cq,
                complete_at: t0 as u64,
                released: false,
            }),
            k == 0 ==> host.clock == old(host).clock,
            k > 0 ==> host.clock == t0,
            t0 <= u64::MAX,
            host.clock <= t0,
            enqueue_frame(*old(host), *host),
            buffer_updated(
                *old(host),
                *host,
                dst_mem,
                copies_applied(
                    same,
                    old(host).buffer_of(src_mem).data@,
                    old(host).buffer_of(dst_mem).data@,
                    to_copy@,
                ),
            ),
        decreases nops - k,
    {
        let ev = evs[k];
        match ev.wait(host) {
            Ok(u) => {},
            Err(e) => {
                proof {
                    assert(false);
                }
                return Err(e);
            },
        }
        k = k + 1;
    }
    Ok(())
}

/// Applying one more copy extends a batch's fold by one step.
proof fn lemma_copies_applied_step(
    same: bool,
    src0: Seq<i32>,
    dst0: Seq<i32>,
    ops: Seq<(usize, usize, usize)>,
    k: int,
)
    requires
        0 <= k < ops.len(),
    ensures
        copies_applied(same, src0, dst0, ops.subrange(0, k + 1)) == copy_window(
            if same {
                copies_applied(same, src0, dst0, ops.subrange(0, k))
            } else {
                src0
            },
            copies_applied(same, src0, dst0, ops.subrange(0, k)),
            ops[k].0 as int,
            ops[k].1 as int,
            ops[k].2 as int,
        ),
    decreases k,
{
    reveal_with_fuel(copies_applied, 3);
    if k == 0 {
        assert(ops.subrange(0, 1).drop_first() =~= ops.subrange(0, 0));
        assert(ops.subrange(0, 0).len() == 0);
        assert(ops.subrange(0, 1)[0] == ops[0]);
        assert(copies_applied(same, src0, dst0, ops.subrange(0, k + 1)) == copy_window(
            if same {
                dst0
            } else {
                src0
            },
            dst0,
            ops[0].0 as int,
            ops[0].1 as int,
            ops[0].2 as int,
        ));
        assert(copies_applied(same, src0, dst0, ops.subrange(0, k)) == dst0);
    } else {
        let rest = ops.drop_first();
        let op0 = ops[0];
        let next0 = copy_window(
            if same {
                dst0
            } else {
                src0
            },
            dst0,
            op0.0 as int,
            op0.1 as int,
            op0.2 as int,
        );
        assert(forall|j: int| 0 <= j < ops.len() - 1 ==> #[trigger] rest[j] == ops[j + 1]);
        assert(ops.subrange(0, k + 1).drop_first() =~= rest.subrange(0, k));
        assert(ops.subrange(0, k).drop_first() =~= rest.subrange(0, k - 1));
        assert(ops.subrange(0, k + 1)[0] == op0);
        assert(ops.subrange(0, k)[0] == op0);
        assert(copies_applied(same, src0, dst0, ops.subrange(0, k + 1)) == copies_applied(
            same,
            src0,
            next0,
            rest.subrange(0, k),
        ));
        assert(copies_applied(same, src0, dst0, ops.subrange(0, k)) == copies_applied(
            same,
            src0,
            next0,
            rest.subrange(0, k - 1),
        ));
        lemma_copies_applied_step(same, src0, next0, rest, k - 1);
        assert(rest[k - 1] == ops[k]);
        assert(copies_applied(same, src0, next0, rest.subrange(0, k)) == copy_window(
            if same {
                copies_applied(same, src0, next0, rest.subrange(0, k - 1))
            } else {
                src0
            },
            copies_applied(same, src0, next0, rest.subrange(0, k - 1)),
            ops[k].0 as int,
            ops[k].1 as int,
            ops[k].2 as int,
        ));
    }
}

} // verus!
