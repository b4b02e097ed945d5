//! The driver-side state that the native call surface operates on.
//!
//! Every handle the runtime owns (platform, device, context, command queue,
//! memory object, program, kernel, event) is an index into one of the tables
//! of a [`Host`] value. The host also keeps a logical clock, in nanoseconds:
//! enqueuing an operation schedules a completion instant for its event, and
//! blocking waits advance the clock to the completion of what they wait on.
//! Tables only ever grow; releasing an entry marks it dead in place, so a
//! release is final and a second release of the same handle is a reported
//! error, never a silent success.

use vstd::prelude::*;

use super::cl::{CLIntDevice, CommandQueue, Context, DeviceType, Event, Mem};
use super::error::{Error, OCLErrorKind};

verus! {

/// A memory-object argument or a 32-bit scalar argument of a kernel.
#[derive(Clone, Copy, PartialEq, Eq, Structural, Debug)]
pub enum KernelArg {
    MemObject(Mem),
    Scalar(i32),
}

/// One discovered compute device and its fixed properties.
pub struct HostDevice {
    pub name: String,
    pub version: String,
    pub global_mem: u64,
    pub max_mem_alloc: u64,
    pub unified_mem: bool,
    pub kind: DeviceType,
    /// Whether creating a context or command queue on this device succeeds.
    pub available: bool,
    /// Whether the device's kernel compiler is present; a program build
    /// fails on a device without one.
    pub compiler_available: bool,
    /// Nanoseconds every enqueued operation takes on this device; kept
    /// at least 1 so that an operation's completion always postdates the
    /// completions of its dependencies.
    pub op_cost: u64,
}

/// A vendor platform: a name and the devices enumerated under it.
pub struct HostPlatform {
    pub name: String,
    pub devices: Vec<CLIntDevice>,
}

/// Driver-side context state: the devices it was created for.
pub struct HostContext {
    pub devices: Vec<CLIntDevice>,
    pub live: bool,
}

/// Driver-side command-queue state: its context and device.
pub struct HostQueue {
    pub ctx: Context,
    pub device: CLIntDevice,
    pub live: bool,
}

/// A device-visible buffer of 32-bit words, reference counted; the buffer
/// is gone once its count reaches zero.
pub struct HostBuffer {
    pub ctx: Context,
    pub data: Vec<i32>,
    pub refs: u64,
}

/// A compiled unit: how many kernel entry points its source declares,
/// whether it has been built, and the log of the last build.
pub struct HostProgram {
    pub ctx: Context,
    pub entries: usize,
    pub built: bool,
    pub build_log: String,
    pub live: bool,
}

/// An invocable kernel entry point and its argument slots.
pub struct HostKernel {
    pub ctx: Context,
    pub args: Vec<Option<KernelArg>>,
    pub live: bool,
}

/// The completion signal of one enqueued operation.
pub struct HostEvent {
    pub queue: CommandQueue,
    /// The clock instant at which the operation completes.
    pub complete_at: u64,
    pub released: bool,
}

/// The whole driver state: one table per handle kind, and the host clock.
pub struct Host {
    pub platforms: Vec<HostPlatform>,
    pub devices: Vec<HostDevice>,
    pub contexts: Vec<HostContext>,
    pub queues: Vec<HostQueue>,
    pub buffers: Vec<HostBuffer>,
    pub programs: Vec<HostProgram>,
    pub kernels: Vec<HostKernel>,
    pub events: Vec<HostEvent>,
    /// Host-observed time, in nanoseconds.
    pub clock: u64,
}

impl Host {
    pub open spec fn valid_platform(self, p: crate::api::cl::Platform) -> bool {
        p.0 < self.platforms@.len()
    }

    pub open spec fn platform_of(self, p: crate::api::cl::Platform) -> HostPlatform {
        self.platforms@[p.0 as int]
    }

    pub open spec fn valid_device(self, d: CLIntDevice) -> bool {
        d.0 < self.devices@.len()
    }

    pub open spec fn device_of(self, d: CLIntDevice) -> HostDevice {
        self.devices@[d.0 as int]
    }

    pub open spec fn valid_ctx(self, c: Context) -> bool {
        c.0 < self.contexts@.len()
    }

    pub open spec fn ctx_of(self, c: Context) -> HostContext {
        self.contexts@[c.0 as int]
    }

    pub open spec fn ctx_live(self, c: Context) -> bool {
        self.valid_ctx(c) && self.ctx_of(c).live
    }

    pub open spec fn valid_queue(self, q: CommandQueue) -> bool {
        q.0 < self.queues@.len()
    }

    pub open spec fn queue_of(self, q: CommandQueue) -> HostQueue {
        self.queues@[q.0 as int]
    }

    pub open spec fn queue_live(self, q: CommandQueue) -> bool {
        self.valid_queue(q) && self.queue_of(q).live
    }

    /// The per-operation cost of the device that a queue submits to.
    pub open spec fn queue_cost(self, q: CommandQueue) -> u64 {
        self.device_of(self.queue_of(q).device).op_cost
    }

    pub open spec fn valid_buffer(self, m: Mem) -> bool {
        m.0 < self.buffers@.len()
    }

    pub open spec fn buffer_of(self, m: Mem) -> HostBuffer {
        self.buffers@[m.0 as int]
    }

    pub open spec fn buffer_live(self, m: Mem) -> bool {
        self.valid_buffer(m) && self.buffer_of(m).refs > 0
    }

    pub open spec fn valid_program(self, p: crate::api::cl::Program) -> bool {
        p.0 < self.programs@.len()
    }

    pub open spec fn program_of(self, p: crate::api::cl::Program) -> HostProgram {
        self.programs@[p.0 as int]
    }

    pub open spec fn program_live(self, p: crate::api::cl::Program) -> bool {
        self.valid_program(p) && self.program_of(p).live
    }

    pub open spec fn valid_kernel(self, k: crate::api::cl::Kernel) -> bool {
        k.0 < self.kernels@.len()
    }

    pub open spec fn kernel_of(self, k: crate::api::cl::Kernel) -> HostKernel {
        self.kernels@[k.0 as int]
    }

    pub open spec fn kernel_live(self, k: crate::api::cl::Kernel) -> bool {
        self.valid_kernel(k) && self.kernel_of(k).live
    }

    pub open spec fn valid_event(self, e: Event) -> bool {
        e.0 < self.events@.len()
    }

    pub open spec fn event_of(self, e: Event) -> HostEvent {
        self.events@[e.0 as int]
    }

    /// An event handle that has not been released yet.
    pub open spec fn event_live(self, e: Event) -> bool {
        self.valid_event(e) && !self.event_of(e).released
    }

    /// The completion instant of an event.
    pub open spec fn completion(self, e: Event) -> u64 {
        self.event_of(e).complete_at
    }

    /// Internal consistency of the driver state: every recorded handle
    /// points into its table, and every device cost is positive.
    pub open spec fn wf(self) -> bool {
        &&& forall|i: int| 0 <= i < self.platforms@.len() ==> {
            let ds = (#[trigger] self.platforms@[i]).devices@;
            forall|j: int| 0 <= j < ds.len() ==> self.valid_device(#[trigger] ds[j])
        }
        &&& forall|i: int| 0 <= i < self.devices@.len() ==> (#[trigger] self.devices@[i]).op_cost >= 1
        &&& forall|i: int| 0 <= i < self.contexts@.len() ==> {
            let ds = (#[trigger] self.contexts@[i]).devices@;
            ds.len() > 0 && forall|j: int| 0 <= j < ds.len() ==> self.valid_device(#[trigger] ds[j])
        }
        &&& forall|i: int| 0 <= i < self.queues@.len() ==> {
            let q = #[trigger] self.queues@[i];
            q.ctx.0 < self.contexts@.len() && self.valid_device(q.device)
        }
        &&& forall|i: int| 0 <= i < self.buffers@.len()
            ==> (#[trigger] self.buffers@[i]).ctx.0 < self.contexts@.len()
        &&& forall|i: int| 0 <= i < self.programs@.len()
            ==> (#[trigger] self.programs@[i]).ctx.0 < self.contexts@.len()
        &&& forall|i: int| 0 <= i < self.kernels@.len() ==> {
            let k = #[trigger] self.kernels@[i];
            &&& k.ctx.0 < self.contexts@.len()
            &&& forall|j: int| 0 <= j < k.args@.len()
                ==> ((#[trigger] k.args@[j]) matches Some(KernelArg::MemObject(m))
                    ==> m.0 < self.buffers@.len())
        }
        &&& forall|i: int| 0 <= i < self.events@.len()
            ==> (#[trigger] self.events@[i]).queue.0 < self.queues@.len()
    }

    /// True when every event of a wait list is a live (unreleased) event.
    pub open spec fn wait_list_ok(self, wait: Seq<Event>) -> bool {
        forall|i: int| 0 <= i < wait.len() ==> self.event_live(#[trigger] wait[i])
    }

    /// The latest completion instant among a wait list, or 0 for an empty
    /// list.
    pub open spec fn latest_completion(self, wait: Seq<Event>) -> int
        decreases wait.len(),
    {
        if wait.len() == 0 {
            0
        } else {
            let rest = self.latest_completion(wait.drop_last());
            if self.completion(wait.last()) >= rest {
                self.completion(wait.last()) as int
            } else {
                rest
            }
        }
    }

    /// The instant at which an operation enqueued now on queue `q` with the
    /// given dependencies completes.
    pub open spec fn sched_completion(self, q: CommandQueue, wait: Seq<Event>) -> int {
        let base = if self.clock >= self.latest_completion(wait) {
            self.clock as int
        } else {
            self.latest_completion(wait)
        };
        base + self.queue_cost(q)
    }

    /// Whether that instant still fits the clock's range.
    pub open spec fn sched_fits(self, q: CommandQueue, wait: Seq<Event>) -> bool {
        self.sched_completion(q, wait) <= u64::MAX
    }

    /// The wait list of an enqueue call, as a sequence: an absent list
    /// counts as empty.
    pub open spec fn wait_seq(wait: Option<&[Event]>) -> Seq<Event> {
        match wait {
            Some(l) => l@,
            None => Seq::empty(),
        }
    }

    /// An empty driver state with no platforms and the clock at zero.
    pub fn new() -> (host: Host)
        ensures
            host.wf(),
            host.platforms@.len() == 0,
            host.devices@.len() == 0,
            host.contexts@.len() == 0,
            host.queues@.len() == 0,
            host.buffers@.len() == 0,
            host.programs@.len() == 0,
            host.kernels@.len() == 0,
            host.events@.len() == 0,
            host.clock == 0,
    {
        Host {
            platforms: Vec::new(),
            devices: Vec::new(),
            contexts: Vec::new(),
            queues: Vec::new(),
            buffers: Vec::new(),
            programs: Vec::new(),
            kernels: Vec::new(),
            events: Vec::new(),
            clock: 0,
        }
    }

    /// Registers a new platform with no devices yet and returns its handle.
    pub fn add_platform(&mut self, name: String) -> (p: crate::api::cl::Platform)
        requires
            old(self).wf(),
        ensures
            final(self).wf(),
            p.0 == old(self).platforms@.len(),
            final(self).platforms@.len() == old(self).platforms@.len() + 1,
            final(self).platform_of(p).name@ == name@,
            final(self).platform_of(p).devices@.len() == 0,
            forall|i: int| 0 <= i < old(self).platforms@.len()
                ==> final(self).platforms@[i] == old(self).platforms@[i],
            final(self).devices == old(self).devices,
            final(self).contexts == old(self).contexts,
            final(self).queues == old(self).queues,
            final(self).buffers == old(self).buffers,
            final(self).programs == old(self).programs,
            final(self).kernels == old(self).kernels,
            final(self).events == old(self).events,
            final(self).clock == old(self).clock,
    {
        let p = crate::api::cl::Platform(self.platforms.len());
        self.platforms.push(HostPlatform { name, devices: Vec::new() });
        p
    }

    /// Registers a device under a platform and returns its handle. The
    /// per-operation cost is clamped to at least one nanosecond.
    pub fn add_device(&mut self, p: crate::api::cl::Platform, device: HostDevice) -> (r: Result<
        CLIntDevice,
        Error,
    >)
        requires
            old(self).wf(),
        ensures
            final(self).wf(),
            old(self).valid_platform(p) ==> (r matches Ok(d) && {
                &&& d.0 == old(self).devices@.len()
                &&& final(self).devices@.len() == old(self).devices@.len() + 1
                &&& final(self).device_of(d).name@ == device.name@
                &&& final(self).device_of(d).version@ == device.version@
                &&& final(self).device_of(d).global_mem == device.global_mem
                &&& final(self).device_of(d).max_mem_alloc == device.max_mem_alloc
                &&& final(self).device_of(d).unified_mem == device.unified_mem
                &&& final(self).device_of(d).kind == device.kind
                &&& final(self).device_of(d).available == device.available
                &&& final(self).device_of(d).compiler_available == device.compiler_available
                &&& final(self).device_of(d).op_cost == (if device.op_cost == 0 {
                    1u64
                } else {
                    device.op_cost
                })
                &&& final(self).platforms@.len() == old(self).platforms@.len()
                &&& final(self).platform_of(p).devices@ == old(self).platform_of(p).devices@.push(d)
                &&& final(self).platform_of(p).name@ == old(self).platform_of(p).name@
                &&& forall|i: int| 0 <= i < final(self).platforms@.len() && i != p.0
                    ==> final(self).platforms@[i] == old(self).platforms@[i]
                &&& forall|i: int| 0 <= i < old(self).devices@.len()
                    ==> final(self).devices@[i] == old(self).devices@[i]
            }),
            !old(self).valid_platform(p) ==> (r matches Err(e)
                && e.kind == OCLErrorKind::InvalidPlatform && *final(self) == *old(self)),
            final(self).contexts == old(self).contexts,
            final(self).queues == old(self).queues,
            final(self).buffers == old(self).buffers,
            final(self).programs == old(self).programs,
            final(self).kernels == old(self).kernels,
            final(self).events == old(self).events,
            final(self).clock == old(self).clock,
    {
        if p.0 >= self.platforms.len() {
            return Err(Error::from_kind(OCLErrorKind::InvalidPlatform));
        }
        let d = CLIntDevice(self.devices.len());
        let op_cost = if device.op_cost == 0 {
            1
        } else {
            device.op_cost
        };
        self.devices.push(
            HostDevice {
                name: device.name,
                version: device.version,
                global_mem: device.global_mem,
                max_mem_alloc: device.max_mem_alloc,
                unified_mem: device.unified_mem,
                kind: device.kind,
                available: device.available,
                compiler_available: device.compiler_available,
                op_cost,
            },
        );
        let platform = &mut self.platforms[p.0];
        platform.devices.push(d);
        Ok(d)
    }

    /// The latest completion among a wait list, or `None` if some event of
    /// the list has already been released.
    pub(crate) fn latest_completion_of(&self, wait: Option<&[Event]>) -> (r: Option<u64>)
        ensures
            r matches Some(m) <==> self.wait_list_ok(Self::wait_seq(wait)),
            r matches Some(m) ==> m == self.latest_completion(Self::wait_seq(wait)),
    {
        let list: &[Event] = match wait {
            Some(l) => l,
            None => {
                proof {
                    assert(Self::wait_seq(wait) =~= Seq::<Event>::empty());
                }
                return Some(0);
            },
        };
        let ghost w = list@;
        let mut m: u64 = 0;
        let mut i: usize = 0;
        while i < list.len()
            invariant
                i <= list.len(),
                list@ == w,
                Self::wait_seq(wait) == w,
                forall|j: int| 0 <= j < i ==> self.event_live(#[trigger] w[j]),
                m == self.latest_completion(w.subrange(0, i as int)),
            decreases list.len() - i,
        {
            let e = list[i];
            if e.0 >= self.events.len() || self.events[e.0].released {
                proof {
                    assert(!self.event_live(w[i as int]));
                }
                return None;
            }
            let c = self.events[e.0].complete_at;
            if c > m {
                m = c;
            }
            proof {
                assert(w.subrange(0, i + 1 as int).drop_last() =~= w.subrange(0, i as int));
                assert(w.subrange(0, i + 1 as int).last() == w[i as int]);
            }
            i = i + 1;
        }
        proof {
            assert(w.subrange(0, list@.len() as int) =~= w);
        }
        Some(m)
    }

    /// Schedules one operation on a live queue: the new event completes one
    /// device cost after the later of the clock and the wait list, and is
    /// appended to the event table. Nothing is changed on failure.
    pub(crate) fn schedule(&mut self, q: CommandQueue, wait: Option<&[Event]>) -> (r: Result<
        Event,
        Error,
    >)
        requires
            old(self).wf(),
            old(self).queue_live(q),
        ensures
            final(self).wf(),
            r matches Ok(e) ==> {
                &&& old(self).wait_list_ok(Self::wait_seq(wait))
                &&& old(self).sched_fits(q, Self::wait_seq(wait))
                &&& e.0 == old(self).events@.len()
                &&& final(self).events@ == old(self).events@.push(
                    HostEvent {
                        queue: q,
                        complete_at: old(self).sched_completion(q, Self::wait_seq(wait)) as u64,
                        released: false,
                    },
                )
            },
            r matches Err(err) ==> {
                &&& *final(self) == *old(self)
                &&& !old(self).wait_list_ok(Self::wait_seq(wait)) ==> err.kind
                    == OCLErrorKind::InvalidEventWaitList
                &&& old(self).wait_list_ok(Self::wait_seq(wait)) ==> {
                    &&& !old(self).sched_fits(q, Self::wait_seq(wait))
                    &&& err.kind == OCLErrorKind::OutOfResources
                }
            },
            final(self).platforms == old(self).platforms,
            final(self).devices == old(self).devices,
            final(self).contexts == old(self).contexts,
            final(self).queues == old(self).queues,
            final(self).buffers == old(self).buffers,
            final(self).programs == old(self).programs,
            final(self).kernels == old(self).kernels,
            final(self).clock == old(self).clock,
    {
        let deps = match self.latest_completion_of(wait) {
            Some(m) => m,
            None => {
                return Err(Error::from_kind(OCLErrorKind::InvalidEventWaitList));
            },
        };
        let base = if self.clock >= deps {
            self.clock
        } else {
            deps
        };
        let cost = self.devices[self.queues[q.0].device.0].op_cost;
        if base > u64::MAX - cost {
            return Err(Error::from_kind(OCLErrorKind::OutOfResources));
        }
        let e = Event(self.events.len());
        self.events.push(HostEvent { queue: q, complete_at: base + cost, released: false });
        Ok(e)
    }

    /// Blocks until the given instant: the clock never moves backwards.
    pub(crate) fn advance_to(&mut self, t: u64)
        requires
            old(self).wf(),
        ensures
            final(self).wf(),
            final(self).clock == (if old(self).clock >= t {
                old(self).clock
            } else {
                t
            }),
            final(self).platforms == old(self).platforms,
            final(self).devices == old(self).devices,
            final(self).contexts == old(self).contexts,
            final(self).queues == old(self).queues,
            final(self).buffers == old(self).buffers,
            final(self).programs == old(self).programs,
            final(self).kernels == old(self).kernels,
            final(self).events == old(self).events,
    {
        if t > self.clock {
            self.clock = t;
        }
    }
}

} // verus!
