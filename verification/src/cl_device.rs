//! The logical device: a device handle together with its context, its
//! command queue, its dependency frontier, and its kernel cache.
//!
//! The dependency frontier serializes the asynchronous operations issued
//! through one `CLDevice`: every enqueue passes the current frontier as
//! the wait list of the native call and, on success, replaces the
//! frontier with the single event of the operation just submitted. Each
//! operation therefore waits for the one issued immediately before it,
//! with no dependency graph kept. An operation's dependency on an event
//! two steps back is dropped once a newer event supersedes it in the
//! frontier; whether that under-synchronizes on a genuinely out-of-order
//! queue is a known open question of this design, preserved deliberately.
//! On a failed enqueue the frontier is left unchanged.

use vstd::prelude::*;

use crate::api::cl::{
    can_enqueue_copy, can_enqueue_kernel, can_enqueue_map, can_enqueue_transfer, copy_window,
    create_command_queue, create_context, enqueue_copy_err, enqueue_full_copy_buffer,
    enqueue_kernel_err, enqueue_map_err, enqueue_nd_range_kernel, enqueue_read_buffer,
    enqueue_transfer_err, enqueue_write_buffer, get_device_ids, get_platforms,
    release_command_queue, release_context, release_event, release_kernel, selected_devices,
    unified_ptr, vec_added, wait_for_events, CLIntDevice, CommandQueue, Context, DeviceType, Event,
    Kernel, Mem, Platform,
};
use crate::api::error::{Error, OCLErrorKind};
use crate::api::host::Host;
use crate::kernel_cache::KernelCache;
use crate::measure_perf::{bench_cost, measure_perf};

verus! {

/// A compute device in use: its handle, context, command queue, unified
/// memory capability, dependency frontier, and kernel cache.
#[derive(Debug)]
pub struct CLDevice {
    pub device: CLIntDevice,
    pub ctx: Context,
    pub queue: CommandQueue,
    pub unified_mem: bool,
    /// The dependency frontier: the events the next operation must wait
    /// on. Updated to the single newest event after every successful
    /// asynchronous enqueue.
    pub event_wait_list: Vec<Event>,
    pub kernel_cache: KernelCache,
}

impl CLDevice {
    /// The device's consistency against the host: its handles are live,
    /// the queue binds its context and device, every frontier event is a
    /// distinct live event, and the kernel cache is consistent.
    pub open spec fn wf(self, h: Host) -> bool {
        &&& h.valid_device(self.device)
        &&& h.ctx_live(self.ctx)
        &&& h.queue_live(self.queue)
        &&& h.queue_of(self.queue).ctx == self.ctx
        &&& h.queue_of(self.queue).device == self.device
        &&& forall|i: int| 0 <= i < self.event_wait_list@.len() ==> h.event_live(
            #[trigger] self.event_wait_list@[i],
        )
        &&& forall|i: int, j: int| 0 <= i < j < self.event_wait_list@.len()
            ==> (#[trigger] self.event_wait_list@[i]).0 != (#[trigger] self.event_wait_list@[j]).0
        &&& self.kernel_cache.wf(h, self.ctx)
    }

    /// The frontier, as the sequence of events the next operation waits
    /// on.
    pub open spec fn frontier(self) -> Seq<Event> {
        self.event_wait_list@
    }

    /// Builds a logical device on one device handle: a fresh context and
    /// command queue, the unified-memory property read off the device, an
    /// empty frontier, and an empty kernel cache.
    pub fn from_int_device(host: &mut Host, device: CLIntDevice) -> (r: Result<CLDevice, Error>)
        requires
            old(host).wf(),
        ensures
            final(host).wf(),
            r matches Ok(dev) <==> old(host).valid_device(device) && old(host).device_of(
                device,
            ).available,
            r matches Ok(dev) ==> {
                &&& dev.wf(*final(host))
                &&& dev.device == device
                &&& dev.unified_mem == old(host).device_of(device).unified_mem
                &&& dev.frontier().len() == 0
                &&& dev.kernel_cache.entries().len() == 0
                &&& dev.ctx.0 == old(host).contexts@.len()
                &&& dev.queue.0 == old(host).queues@.len()
                &&& final(host).contexts@.len() == old(host).contexts@.len() + 1
                &&& final(host).queues@.len() == old(host).queues@.len() + 1
                &&& forall|i: int| 0 <= i < old(host).contexts@.len() ==> final(host).contexts@[i]
                    == old(host).contexts@[i]
                &&& forall|i: int| 0 <= i < old(host).queues@.len() ==> final(host).queues@[i]
                    == old(host).queues@[i]
                &&& final(host).platforms == old(host).platforms
                &&& final(host).devices == old(host).devices
                &&& final(host).buffers == old(host).buffers
                &&& final(host).programs == old(host).programs
                &&& final(host).kernels == old(host).kernels
                &&& final(host).events == old(host).events
                &&& final(host).clock == old(host).clock
            },
            r matches Err(e) ==> *final(host) == *old(host) && e.kind == (if !old(host).valid_device(device) {
                OCLErrorKind::InvalidDevice
            } else {
                OCLErrorKind::DeviceNotAvailable
            }),
    {
        let mut single: Vec<CLIntDevice> = Vec::new();
        single.push(device);
        proof {
            assert(single@[0] == device);
        }
        let ctx = match create_context(host, single.as_slice()) {
            Ok(c) => c,
            Err(e) => {
                return Err(e);
            },
        };
        let queue = match create_command_queue(host, &ctx, device) {
            Ok(q) => q,
            Err(e) => {
                proof {
                    assert(false);
                }
                return Err(e);
            },
        };
        let unified_mem = match device.unified_mem(host) {
            Ok(u) => u,
            Err(e) => {
                proof {
                    assert(false);
                }
                return Err(e);
            },
        };
        Ok(
            CLDevice {
                device,
                ctx,
                queue,
                unified_mem,
                event_wait_list: Vec::new(),
                kernel_cache: KernelCache::new(),
            },
        )
    }

    /// Returns the compiled kernel for a source text, compiling and
    /// caching it on the first request: the cache is keyed by the exact
    /// source string, so the same text always yields the identical
    /// kernel and a different text yields a distinct one.
    pub fn kernel_for(&mut self, host: &mut Host, src: &str) -> (r: Result<Kernel, Error>)
        requires
            old(self).wf(*old(host)),
            old(host).wf(),
        ensures
            final(host).wf(),
            final(self).wf(*final(host)),
            r matches Ok(k) <==> old(self).kernel_cache.has_src(src@) || (old(host).device_of(
                old(self).device,
            ).compiler_available && crate::api::source::entry_count(src@) >= 1),
            old(self).kernel_cache.has_src(src@) ==> (r matches Ok(k) && k == old(self).kernel_cache.lookup(src@) && *final(self) == *old(self) && *final(host) == *old(host)),
            r matches Ok(k) ==> (final(self).kernel_cache.has_src(src@) && final(self).kernel_cache.lookup(src@) == k),
            final(self).device == old(self).device,
            final(self).ctx == old(self).ctx,
            final(self).queue == old(self).queue,
            final(self).unified_mem == old(self).unified_mem,
            final(self).event_wait_list == old(self).event_wait_list,
            r matches Err(e) ==> *final(self) == *old(self),
            final(host).platforms == old(host).platforms,
            final(host).devices == old(host).devices,
            final(host).contexts == old(host).contexts,
            final(host).queues == old(host).queues,
            final(host).buffers == old(host).buffers,
            final(host).events == old(host).events,
            final(host).clock == old(host).clock,
    {
        self.kernel_cache.kernel(host, &self.ctx, self.device, src)
    }

    /// Replaces the frontier with the given fresh event, releasing the
    /// events it held.
    fn roll_frontier(&mut self, host: &mut Host, event: Event) -> (r: Result<(), Error>)
        requires
            old(self).wf(*old(host)),
            old(host).wf(),
            old(host).event_live(event),
            forall|i: int| 0 <= i < old(self).frontier().len()
                ==> (#[trigger] old(self).frontier()[i]).0 != event.0,
        ensures
            final(host).wf(),
            r matches Ok(u),
            final(self).wf(*final(host)),
            final(self).frontier() =~= seq![event],
            final(self).device == old(self).device,
            final(self).ctx == old(self).ctx,
            final(self).queue == old(self).queue,
            final(self).unified_mem == old(self).unified_mem,
            final(self).kernel_cache == old(self).kernel_cache,
            final(host).events@.len() == old(host).events@.len(),
            forall|i: int| 0 <= i < old(host).events@.len() && !old(self).frontier().contains(
                Event(i as usize),
            ) ==> final(host).events@[i] == old(host).events@[i],
            forall|i: int| 0 <= i < old(host).events@.len() ==> {
                &&& final(host).events@[i].complete_at == old(host).events@[i].complete_at
                &&& final(host).events@[i].queue == old(host).events@[i].queue
            },
            final(host).event_live(event),
            final(host).platforms == old(host).platforms,
            final(host).devices == old(host).devices,
            final(host).contexts == old(host).contexts,
            final(host).queues == old(host).queues,
            final(host).buffers == old(host).buffers,
            final(host).programs == old(host).programs,
            final(host).kernels == old(host).kernels,
            final(host).clock == old(host).clock,
    {
        let n = self.event_wait_list.len();
        let mut i: usize = 0;
        while i < n
            invariant
                host.wf(),
                n == self.frontier().len(),
                i <= n,
                *self == *old(self),
                old(host).event_live(event),
                forall|t: int| 0 <= t < n ==> (#[trigger] self.frontier()[t]).0 != event.0,
                forall|t: int, u: int| 0 <= t < u < n ==> (#[trigger] self.frontier()[t]).0 != (
                #[trigger] self.frontier()[u]).0,
                forall|t: int| 0 <= t < n ==> old(host).event_live(#[trigger] self.frontier()[t]),
                forall|t: int| i <= t < n ==> host.event_live(#[trigger] self.frontier()[t]),
                host.events@.len() == old(host).events@.len(),
                forall|t: int| 0 <= t < old(host).events@.len() && !old(self).frontier().contains(
                    Event(t as usize),
                ) ==> host.events@[t] == old(host).events@[t],
                forall|t: int| 0 <= t < old(host).events@.len() ==> {
                    &&& host.events@[t].complete_at == old(host).events@[t].complete_at
                    &&& host.events@[t].queue == old(host).events@[t].queue
                },
                host.event_live(event),
                host.platforms == old(host).platforms,
                host.devices == old(host).devices,
                host.contexts == old(host).contexts,
                host.queues == old(host).queues,
                host.buffers == old(host).buffers,
                host.programs == old(host).programs,
                host.kernels == old(host).kernels,
                host.clock == old(host).clock,
            decreases n - i,
        {
            let e = self.event_wait_list[i];
            match release_event(host, e) {
                Ok(u) => {},
                Err(err) => {
                    proof {
                        assert(false);
                    }
                    return Err(err);
                },
            }
            proof {
                assert(old(self).frontier().contains(Event(e.0)));
            }
            i = i + 1;
        }
        self.event_wait_list.clear();
        self.event_wait_list.push(event);
        Ok(())
    }

    /// Launches a kernel over an N-dimensional range: the launch waits on
    /// the frontier, and on success the frontier becomes the launch's own
    /// event, whose completion postdates the completion of every event the
    /// frontier held before the call. On failure the frontier is left
    /// unchanged.
    pub fn enqueue_nd_range_kernel(
        &mut self,
        host: &mut Host,
        kernel: &Kernel,
        wd: usize,
        gws: &[usize; 3],
        lws: Option<&[usize; 3]>,
        offset: Option<[usize; 3]>,
    ) -> (r: Result<(), Error>)
        requires
            old(self).wf(*old(host)),
            old(host).wf(),
        ensures
            final(host).wf(),
            final(self).wf(*final(host)),
            r matches Ok(u) <==> can_enqueue_kernel(
                *old(host),
                old(self).queue,
                *kernel,
                wd as int,
                gws@[0] as int,
                old(self).frontier(),
            ),
            r matches Ok(u) ==> {
                &&& final(self).frontier() =~= seq![Event(old(host).events@.len() as usize)]
                &&& final(host).completion(final(self).frontier()[0]) == old(host).sched_completion(old(self).queue, old(self).frontier())
                &&& forall|i: int| 0 <= i < old(self).frontier().len() ==> final(host).completion(
                    final(self).frontier()[0],
                ) > old(host).completion(#[trigger] old(self).frontier()[i])
                &&& (crate::api::cl::launch_args(*old(host), *kernel) matches Some((a, b, c))
                    ==> crate::api::cl::buffer_updated(
                    *old(host),
                    *final(host),
                    c,
                    vec_added(
                        old(host).buffer_of(a).data@,
                        old(host).buffer_of(b).data@,
                        old(host).buffer_of(c).data@,
                        gws@[0] as int,
                    ),
                ))
                &&& final(host).clock == old(host).clock
            },
            final(self).device == old(self).device,
            final(self).ctx == old(self).ctx,
            final(self).queue == old(self).queue,
            final(self).unified_mem == old(self).unified_mem,
            final(self).kernel_cache == old(self).kernel_cache,
            r matches Err(e) ==> *final(self) == *old(self) && *final(host) == *old(host)
                && e.kind == enqueue_kernel_err(
                *old(host),
                old(self).queue,
                *kernel,
                wd as int,
                gws@[0] as int,
                old(self).frontier(),
            ),
    {
        let ev = match enqueue_nd_range_kernel(
            host,
            &self.queue,
            kernel,
            wd,
            gws,
            lws,
            offset,
            Some(self.event_wait_list.as_slice()),
        ) {
            Ok(ev) => ev,
            Err(e) => {
                return Err(e);
            },
        };
        proof {
            crate::api::cl::lemma_latest_completion_bounds(*old(host), old(self).frontier());
        }
        match self.roll_frontier(host, ev) {
            Ok(u) => Ok(()),
            Err(e) => {
                proof {
                    assert(false);
                }
                Err(e)
            },
        }
    }

    /// Reads the first `dst_slice.len()` words of a buffer into
    /// `dst_slice`, waiting on the frontier; on success the frontier
    /// becomes the read's own event, which is also returned.
    pub fn enqueue_read_buffer(
        &mut self,
        host: &mut Host,
        src_ptr: Mem,
        dst_slice: &mut Vec<i32>,
        block: bool,
    ) -> (r: Result<Event, Error>)
        requires
            old(self).wf(*old(host)),
            old(host).wf(),
        ensures
            final(host).wf(),
            final(self).wf(*final(host)),
            r matches Ok(ev) <==> can_enqueue_transfer(
                *old(host),
                old(self).queue,
                src_ptr,
                old(dst_slice)@.len() as int,
                old(self).frontier(),
            ),
            r matches Ok(ev) ==> {
                &&& final(dst_slice)@ == old(host).buffer_of(src_ptr).data@.subrange(
                    0,
                    old(dst_slice)@.len() as int,
                )
                &&& ev.0 == old(host).events@.len()
                &&& final(self).frontier() =~= seq![ev]
                &&& forall|i: int| 0 <= i < old(self).frontier().len() ==> final(host).completion(
                    ev,
                ) > old(host).completion(#[trigger] old(self).frontier()[i])
                &&& final(host).buffers == old(host).buffers
            },
            final(self).device == old(self).device,
            final(self).ctx == old(self).ctx,
            final(self).queue == old(self).queue,
            final(self).unified_mem == old(self).unified_mem,
            final(self).kernel_cache == old(self).kernel_cache,
            r matches Err(e) ==> *final(self) == *old(self) && *final(host) == *old(host) && final(dst_slice)@ == old(dst_slice)@ && e.kind == enqueue_transfer_err(
                *old(host),
                old(self).queue,
                src_ptr,
                old(dst_slice)@.len() as int,
                old(self).frontier(),
            ),
    {
        let ev = match enqueue_read_buffer(
            host,
            &self.queue,
            src_ptr,
            dst_slice,
            block,
            Some(self.event_wait_list.as_slice()),
        ) {
            Ok(ev) => ev,
            Err(e) => {
                return Err(e);
            },
        };
        proof {
            crate::api::cl::lemma_latest_completion_bounds(*old(host), old(self).frontier());
        }
        match self.roll_frontier(host, ev) {
            Ok(u) => Ok(ev),
            Err(e) => {
                proof {
                    assert(false);
                }
                Err(e)
            },
        }
    }

    /// Writes `src_slice` over the first words of a buffer, waiting on
    /// the frontier; on success the frontier becomes the write's own
    /// event, which is also returned.
    pub fn enqueue_write_buffer(
        &mut self,
        host: &mut Host,
        dst_ptr: Mem,
        src_slice: &[i32],
        block: bool,
    ) -> (r: Result<Event, Error>)
        requires
            old(self).wf(*old(host)),
            old(host).wf(),
        ensures
            final(host).wf(),
            final(self).wf(*final(host)),
            r matches Ok(ev) <==> can_enqueue_transfer(
                *old(host),
                old(self).queue,
                dst_ptr,
                src_slice@.len() as int,
                old(self).frontier(),
            ),
            r matches Ok(ev) ==> {
                &&& crate::api::cl::buffer_updated(
                    *old(host),
                    *final(host),
                    dst_ptr,
                    src_slice@ + old(host).buffer_of(dst_ptr).data@.skip(src_slice@.len() as int),
                )
                &&& ev.0 == old(host).events@.len()
                &&& final(self).frontier() =~= seq![ev]
                &&& forall|i: int| 0 <= i < old(self).frontier().len() ==> final(host).completion(
                    ev,
                ) > old(host).completion(#[trigger] old(self).frontier()[i])
            },
            final(self).device == old(self).device,
            final(self).ctx == old(self).ctx,
            final(self).queue == old(self).queue,
            final(self).unified_mem == old(self).unified_mem,
            final(self).kernel_cache == old(self).kernel_cache,
            r matches Err(e) ==> *final(self) == *old(self) && *final(host) == *old(host)
                && e.kind == enqueue_transfer_err(
                *old(host),
                old(self).queue,
                dst_ptr,
                src_slice@.len() as int,
                old(self).frontier(),
            ),
    {
        let ev = match enqueue_write_buffer(
            host,
            &self.queue,
            dst_ptr,
            src_slice,
            block,
            Some(self.event_wait_list.as_slice()),
        ) {
            Ok(ev) => ev,
            Err(e) => {
                return Err(e);
            },
        };
        proof {
            crate::api::cl::lemma_latest_completion_bounds(*old(host), old(self).frontier());
        }
        match self.roll_frontier(host, ev) {
            Ok(u) => Ok(ev),
            Err(e) => {
                proof {
                    assert(false);
                }
                Err(e)
            },
        }
    }

    /// Copies the first `size` words of one buffer over another, waiting
    /// on the frontier; on success the frontier becomes the copy's own
    /// event, which is also returned.
    pub fn enqueue_full_copy_buffer(
        &mut self,
        host: &mut Host,
        src_mem: Mem,
        dst_mem: Mem,
        size: usize,
    ) -> (r: Result<Event, Error>)
        requires
            old(self).wf(*old(host)),
            old(host).wf(),
        ensures
            final(host).wf(),
            final(self).wf(*final(host)),
            r matches Ok(ev) <==> can_enqueue_copy(
                *old(host),
                old(self).queue,
                src_mem,
                dst_mem,
                0,
                0,
                size as int,
                old(self).frontier(),
            ),
            r matches Ok(ev) ==> {
                &&& crate::api::cl::buffer_updated(
                    *old(host),
                    *final(host),
                    dst_mem,
                    copy_window(
                        old(host).buffer_of(src_mem).data@,
                        old(host).buffer_of(dst_mem).data@,
                        0,
                        0,
                        size as int,
                    ),
                )
                &&& ev.0 == old(host).events@.len()
                &&& final(self).frontier() =~= seq![ev]
                &&& forall|i: int| 0 <= i < old(self).frontier().len() ==> final(host).completion(
                    ev,
                ) > old(host).completion(#[trigger] old(self).frontier()[i])
            },
            final(self).device == old(self).device,
            final(self).ctx == old(self).ctx,
            final(self).queue == old(self).queue,
            final(self).unified_mem == old(self).unified_mem,
            final(self).kernel_cache == old(self).kernel_cache,
            r matches Err(e) ==> *final(self) == *old(self) && *final(host) == *old(host)
                && e.kind == enqueue_copy_err(
                *old(host),
                old(self).queue,
                src_mem,
                dst_mem,
                0,
                0,
                size as int,
                old(self).frontier(),
            ),
    {
        let ev = match enqueue_full_copy_buffer(
            host,
            &self.queue,
            src_mem,
            dst_mem,
            size,
            Some(self.event_wait_list.as_slice()),
        ) {
            Ok(ev) => ev,
            Err(e) => {
                return Err(e);
            },
        };
        proof {
            crate::api::cl::lemma_latest_completion_bounds(*old(host), old(self).frontier());
        }
        match self.roll_frontier(host, ev) {
            Ok(u) => Ok(ev),
            Err(e) => {
                proof {
                    assert(false);
                }
                Err(e)
            },
        }
    }

    /// Maps a whole buffer into host-visible memory, waiting on the
    /// frontier and on the map itself, and hands back its contents. The
    /// frontier is left as it is: the map is synchronous, so nothing new
    /// remains pending.
    pub fn unified_ptr(&self, host: &mut Host, ptr: Mem, len: usize) -> (r: Result<
        Vec<i32>,
        Error,
    >)
        requires
            self.wf(*old(host)),
            old(host).wf(),
        ensures
            final(host).wf(),
            self.wf(*final(host)),
            r matches Ok(region) <==> can_enqueue_map(
                *old(host),
                self.queue,
                ptr,
                3,
                0,
                len as int,
                self.frontier(),
            ),
            r matches Ok(region) ==> {
                &&& region@ == old(host).buffer_of(ptr).data@.subrange(0, len as int)
                &&& final(host).buffers == old(host).buffers
                &&& forall|i: int| 0 <= i < self.frontier().len() ==> final(host).clock >= old(host).completion(#[trigger] self.frontier()[i])
            },
            r matches Err(e) ==> *final(host) == *old(host) && e.kind == enqueue_map_err(
                *old(host),
                self.queue,
                ptr,
                3,
                0,
                len as int,
                self.frontier(),
            ),
    {
        proof {
            crate::api::cl::lemma_latest_completion_bounds(*old(host), self.frontier());
        }
        unified_ptr(host, &self.queue, ptr, len, Some(self.event_wait_list.as_slice()))
    }

    /// Drains the frontier: blocks until every event it holds has
    /// completed, releases them, and leaves the frontier empty. On an
    /// already-empty frontier this returns success at once and changes
    /// nothing.
    pub fn wait_for_events(&mut self, host: &mut Host) -> (r: Result<(), Error>)
        requires
            old(self).wf(*old(host)),
            old(host).wf(),
        ensures
            final(host).wf(),
            final(self).wf(*final(host)),
            r matches Ok(u),
            final(self).frontier().len() == 0,
            forall|i: int| 0 <= i < old(self).frontier().len() ==> final(host).clock >= old(host).completion(#[trigger] old(self).frontier()[i]),
            old(self).frontier().len() == 0 ==> *final(self) == *old(self) && *final(host) == *old(host),
            final(self).device == old(self).device,
            final(self).ctx == old(self).ctx,
            final(self).queue == old(self).queue,
            final(self).unified_mem == old(self).unified_mem,
            final(self).kernel_cache == old(self).kernel_cache,
            final(host).events@.len() == old(host).events@.len(),
            forall|i: int| 0 <= i < old(host).events@.len() && !old(self).frontier().contains(
                Event(i as usize),
            ) ==> final(host).events@[i] == old(host).events@[i],
            forall|i: int| 0 <= i < old(host).events@.len() ==> {
                &&& final(host).events@[i].complete_at == old(host).events@[i].complete_at
                &&& final(host).events@[i].queue == old(host).events@[i].queue
            },
            final(host).platforms == old(host).platforms,
            final(host).devices == old(host).devices,
            final(host).contexts == old(host).contexts,
            final(host).queues == old(host).queues,
            final(host).buffers == old(host).buffers,
            final(host).programs == old(host).programs,
            final(host).kernels == old(host).kernels,
            final(host).clock >= old(host).clock,
            old(self).frontier().len() == 0 ==> final(host).clock == old(host).clock,
    {
        if self.event_wait_list.len() == 0 {
            return Ok(());
        }
        match wait_for_events(host, self.event_wait_list.as_slice()) {
            Ok(u) => {},
            Err(e) => {
                proof {
                    assert(false);
                }
                return Err(e);
            },
        }
        let n = self.event_wait_list.len();
        let mut i: usize = 0;
        while i < n
            invariant
                host.wf(),
                n == self.frontier().len(),
                i <= n,
                *self == *old(self),
                forall|t: int, u: int| 0 <= t < u < n ==> (#[trigger] self.frontier()[t]).0 != (
                #[trigger] self.frontier()[u]).0,
                forall|t: int| 0 <= t < n ==> old(host).event_live(#[trigger] self.frontier()[t]),
                forall|t: int| i <= t < n ==> host.event_live(#[trigger] self.frontier()[t]),
                host.events@.len() == old(host).events@.len(),
                forall|t: int| 0 <= t < old(host).events@.len() && !old(self).frontier().contains(
                    Event(t as usize),
                ) ==> host.events@[t] == old(host).events@[t],
                forall|t: int| 0 <= t < old(host).events@.len() ==> {
                    &&& host.events@[t].complete_at == old(host).events@[t].complete_at
                    &&& host.events@[t].queue == old(host).events@[t].queue
                },
                host.platforms == old(host).platforms,
                host.devices == old(host).devices,
                host.contexts == old(host).contexts,
                host.queues == old(host).queues,
                host.buffers == old(host).buffers,
                host.programs == old(host).programs,
                host.kernels == old(host).kernels,
                host.clock >= old(host).clock,
                forall|t: int| 0 <= t < n ==> host.clock >= old(host).completion(
                    #[trigger] self.frontier()[t],
                ),
            decreases n - i,
        {
            let e = self.event_wait_list[i];
            match release_event(host, e) {
                Ok(u) => {},
                Err(err) => {
                    proof {
                        assert(false);
                    }
                    return Err(err);
                },
            }
            proof {
                assert(old(self).frontier().contains(Event(e.0)));
            }
            i = i + 1;
        }
        self.event_wait_list.clear();
        Ok(())
    }

    /// Releases everything the device owns, exactly once each and in
    /// dependency order: the frontier's events, the cached kernels and the
    /// command queue before the context they were derived from.
    pub fn release(self, host: &mut Host) -> (r: Result<(), Error>)
        requires
            self.wf(*old(host)),
            old(host).wf(),
        ensures
            final(host).wf(),
            r matches Ok(u),
            !final(host).ctx_of(self.ctx).live,
            !final(host).queue_of(self.queue).live,
            forall|i: int| 0 <= i < self.kernel_cache.entries().len() ==> !final(host).kernel_of(
                (#[trigger] self.kernel_cache.entries()[i]).1,
            ).live,
            forall|i: int| 0 <= i < self.frontier().len() ==> final(host).event_of(
                #[trigger] self.frontier()[i],
            ).released,
            final(host).contexts@.len() == old(host).contexts@.len(),
            final(host).queues@.len() == old(host).queues@.len(),
            final(host).kernels@.len() == old(host).kernels@.len(),
            final(host).events@.len() == old(host).events@.len(),
            forall|i: int| 0 <= i < old(host).contexts@.len() && i != self.ctx.0 ==> final(host).contexts@[i] == old(host).contexts@[i],
            forall|i: int| 0 <= i < old(host).queues@.len() && i != self.queue.0 ==> final(host).queues@[i] == old(host).queues@[i],
            forall|i: int| (0 <= i < old(host).kernels@.len() && !exists|t: int| 0 <= t
                < self.kernel_cache.entries().len() && (#[trigger] self.kernel_cache.entries()[t]).1.0
                == i) ==> #[trigger] final(host).kernels@[i] == old(host).kernels@[i],
            forall|i: int| 0 <= i < old(host).events@.len() && !self.frontier().contains(
                Event(i as usize),
            ) ==> final(host).events@[i] == old(host).events@[i],
            final(host).platforms == old(host).platforms,
            final(host).devices == old(host).devices,
            final(host).buffers == old(host).buffers,
            final(host).programs == old(host).programs,
            final(host).clock == old(host).clock,
    {
        let CLDevice { device, ctx, queue, unified_mem, event_wait_list, kernel_cache } = self;
        let n = event_wait_list.len();
        let mut i: usize = 0;
        while i < n
            invariant
                host.wf(),
                n == self.frontier().len(),
                event_wait_list@ == self.frontier(),
                i <= n,
                ctx == self.ctx,
                queue == self.queue,
                kernel_cache == self.kernel_cache,
                forall|t: int, u: int| 0 <= t < u < n ==> (#[trigger] self.frontier()[t]).0 != (
                #[trigger] self.frontier()[u]).0,
                forall|t: int| i <= t < n ==> host.event_live(#[trigger] self.frontier()[t]),
                forall|t: int| 0 <= t < n ==> (#[trigger] self.frontier()[t]).0 < host.events@.len(),
                forall|t: int| 0 <= t < i ==> host.event_of(#[trigger] self.frontier()[t]).released,
                host.events@.len() == old(host).events@.len(),
                forall|t: int| 0 <= t < old(host).events@.len() && !self.frontier().contains(
                    Event(t as usize),
                ) ==> host.events@[t] == old(host).events@[t],
                host.queue_live(self.queue),
                host.ctx_live(self.ctx),
                kernel_cache.wf(*host, self.ctx),
                host.platforms == old(host).platforms,
                host.devices == old(host).devices,
                host.contexts == old(host).contexts,
                host.queues == old(host).queues,
                host.buffers == old(host).buffers,
                host.programs == old(host).programs,
                host.kernels == old(host).kernels,
                host.clock == old(host).clock,
            decreases n - i,
        {
            let e = event_wait_list[i];
            let ghost h1 = *host;
            match release_event(host, e) {
                Ok(u) => {},
                Err(err) => {
                    proof {
                        assert(false);
                    }
                    return Err(err);
                },
            }
            proof {
                assert(self.frontier().contains(Event(e.0)));
                assert(e == self.frontier()[i as int]);
                assert(host.event_of(self.frontier()[i as int]).released);
                assert forall|t: int| 0 <= t < i + 1 implies host.event_of(
                    self.frontier()[t],
                ).released by {
                    if t < i as int {
                        assert(self.frontier()[t].0 != e.0);
                        assert(h1.events@[self.frontier()[t].0 as int] == host.events@[self.frontier()[t].0 as int]);
                    }
                }
            }
            i = i + 1;
        }
        let kn = kernel_cache.kernel_cache.len();
        let mut i: usize = 0;
        while i < kn
            invariant
                host.wf(),
                kn == kernel_cache.entries().len(),
                i <= kn,
                ctx == self.ctx,
                queue == self.queue,
                kernel_cache == self.kernel_cache,
                forall|t: int, u: int| 0 <= t < u < kn ==> (#[trigger] kernel_cache.entries()[t]).1.0
                    != (#[trigger] kernel_cache.entries()[u]).1.0,
                forall|t: int| i <= t < kn ==> host.kernel_live(
                    (#[trigger] kernel_cache.entries()[t]).1,
                ),
                forall|t: int| 0 <= t < kn ==> (#[trigger] kernel_cache.entries()[t]).1.0
                    < host.kernels@.len(),
                forall|t: int| 0 <= t < i ==> !host.kernel_of(
                    (#[trigger] kernel_cache.entries()[t]).1,
                ).live,
                host.kernels@.len() == old(host).kernels@.len(),
                forall|t: int| (0 <= t < old(host).kernels@.len() && !exists|u: int| 0 <= u < kn
                    && (#[trigger] kernel_cache.entries()[u]).1.0 == t) ==> #[trigger] host.kernels@[t] == old(host).kernels@[t],
                host.events@.len() == old(host).events@.len(),
                forall|t: int| 0 <= t < old(host).events@.len() && !self.frontier().contains(
                    Event(t as usize),
                ) ==> host.events@[t] == old(host).events@[t],
                forall|t: int| 0 <= t < self.frontier().len() ==> host.event_of(
                    #[trigger] self.frontier()[t],
                ).released,
                host.queue_live(self.queue),
                host.ctx_live(self.ctx),
                host.platforms == old(host).platforms,
                host.devices == old(host).devices,
                host.contexts == old(host).contexts,
                host.queues == old(host).queues,
                host.buffers == old(host).buffers,
                host.programs == old(host).programs,
                host.clock == old(host).clock,
            decreases kn - i,
        {
            let k = kernel_cache.kernel_cache[i].1;
            let ghost h1 = *host;
            match release_kernel(host, k) {
                Ok(u) => {},
                Err(err) => {
                    proof {
                        assert(false);
                    }
                    return Err(err);
                },
            }
            proof {
                assert((kernel_cache.entries()[i as int]).1.0 == k.0);
                assert forall|t: int| 0 <= t < i + 1 implies !host.kernel_of(
                    (kernel_cache.entries()[t]).1,
                ).live by {
                    if t < i as int {
                        assert((kernel_cache.entries()[t]).1.0 != k.0);
                        assert(h1.kernels@[(kernel_cache.entries()[t]).1.0 as int] == host.kernels@[(kernel_cache.entries()[t]).1.0 as int]);
                    }
                }
            }
            i = i + 1;
        }
        match release_command_queue(host, queue) {
            Ok(u) => {},
            Err(err) => {
                proof {
                    assert(false);
                }
                return Err(err);
            },
        }
        match release_context(host, ctx) {
            Ok(u) => {},
            Err(err) => {
                proof {
                    assert(false);
                }
                return Err(err);
            },
        }
        Ok(())
    }

    /// The context of the device.
    pub fn ctx(&self) -> (r: &Context)
        ensures
            *r == self.ctx,
    {
        &self.ctx
    }

    /// The command queue of the device.
    pub fn queue(&self) -> (r: &CommandQueue)
        ensures
            *r == self.queue,
    {
        &self.queue
    }

    /// The underlying device handle.
    pub fn device(&self) -> (r: CLIntDevice)
        ensures
            r == self.device,
    {
        self.device
    }

    /// The name of the device.
    pub fn name(&self, host: &Host) -> (r: Result<String, Error>)
        requires
            self.wf(*host),
        ensures
            r matches Ok(s) && s@ == host.device_of(self.device).name@,
    {
        self.device().get_name(host)
    }

    /// The driver version string of the device.
    pub fn version(&self, host: &Host) -> (r: Result<String, Error>)
        requires
            self.wf(*host),
        ensures
            r matches Ok(s) && s@ == host.device_of(self.device).version@,
    {
        self.device().get_version(host)
    }

    /// Whether the device shares a unified memory address space with the
    /// host.
    pub fn unified_mem(&self) -> (r: bool)
        ensures
            r == self.unified_mem,
    {
        self.unified_mem
    }
}

// ------------------------------------------------------------------
// Discovery and benchmark-driven selection
// ------------------------------------------------------------------

/// The bitmask of the primary discovery group: GPUs and accelerators.
pub open spec fn gpu_accel_mask() -> u64 {
    DeviceType::GPU.bits_spec() | DeviceType::ACCELERATOR.bits_spec()
}

/// The devices a platform contributes to discovery: GPUs and
/// accelerators first, then CPUs as the fallback group.
pub open spec fn platform_device_listing(h: Host, p: int) -> Seq<CLIntDevice> {
    selected_devices(h, h.platforms@[p].devices@, gpu_accel_mask()) + selected_devices(
        h,
        h.platforms@[p].devices@,
        DeviceType::CPU.bits_spec(),
    )
}

/// Every device a type query selects comes from the queried list.
pub proof fn lemma_selected_devices_sound(h: Host, ds: Seq<CLIntDevice>, mask: u64)
    ensures
        forall|k: int| 0 <= k < selected_devices(h, ds, mask).len() ==> ds.contains(
            #[trigger] selected_devices(h, ds, mask)[k],
        ),
    decreases ds.len(),
{
    if ds.len() > 0 {
        lemma_selected_devices_sound(h, ds.drop_last(), mask);
        assert forall|k: int| 0 <= k < selected_devices(h, ds, mask).len() implies ds.contains(
            #[trigger] selected_devices(h, ds, mask)[k],
        ) by {
            let rest = selected_devices(h, ds.drop_last(), mask);
            if k < rest.len() {
                assert(ds.drop_last().contains(rest[k]));
                let j = choose|j: int| 0 <= j < ds.drop_last().len() && ds.drop_last()[j]
                    == rest[k];
                assert(ds[j] == rest[k]);
            } else {
                assert(selected_devices(h, ds, mask)[k] == ds.last());
            }
        }
    }
}

/// Every device of a platform's discovery listing is a known device of a
/// well-formed host.
pub proof fn lemma_listing_valid(h: Host, p: int)
    requires
        h.wf(),
        0 <= p < h.platforms@.len(),
    ensures
        forall|d: int| 0 <= d < platform_device_listing(h, p).len() ==> h.valid_device(
            #[trigger] platform_device_listing(h, p)[d],
        ),
{
    let ds = h.platforms@[p].devices@;
    lemma_selected_devices_sound(h, ds, gpu_accel_mask());
    lemma_selected_devices_sound(h, ds, DeviceType::CPU.bits_spec());
    assert forall|d: int| 0 <= d < platform_device_listing(h, p).len() implies h.valid_device(
        #[trigger] platform_device_listing(h, p)[d],
    ) by {
        let a = selected_devices(h, ds, gpu_accel_mask());
        let b = selected_devices(h, ds, DeviceType::CPU.bits_spec());
        let e = platform_device_listing(h, p)[d];
        if d < a.len() {
            assert(e == a[d]);
            assert(ds.contains(e));
        } else {
            assert(e == b[d - a.len()]);
            assert(ds.contains(e));
        }
        let j = choose|j: int| 0 <= j < ds.len() && ds[j] == e;
        assert(h.valid_device(ds[j]));
    }
}

/// Enumerates the devices of one platform that discovery considers:
/// GPUs and accelerators, then CPUs. A platform that cannot be queried
/// contributes nothing.
pub fn all_devices_of_platform(host: &Host, platform: Platform) -> (v: Vec<CLIntDevice>)
    requires
        host.wf(),
    ensures
        host.valid_platform(platform) ==> v@ == platform_device_listing(*host, platform.0 as int),
        !host.valid_platform(platform) ==> v@.len() == 0,
{
    let gpu_accel = DeviceType::GPU.bits() | DeviceType::ACCELERATOR.bits();
    let cpu = DeviceType::CPU.bits();
    let mut v: Vec<CLIntDevice> = Vec::new();
    let first = match get_device_ids(host, platform, &gpu_accel) {
        Ok(ds) => ds,
        Err(e) => {
            return v;
        },
    };
    let second = match get_device_ids(host, platform, &cpu) {
        Ok(ds) => ds,
        Err(e) => {
            proof {
                assert(false);
            }
            return v;
        },
    };
    let fn1 = first.len();
    let mut i: usize = 0;
    while i < fn1
        invariant
            fn1 == first@.len(),
            i <= fn1,
            v@ == first@.subrange(0, i as int),
        decreases fn1 - i,
    {
        v.push(first[i]);
        proof {
            assert(v@ =~= first@.subrange(0, i + 1 as int));
        }
        i = i + 1;
    }
    proof {
        assert(v@ =~= first@);
    }
    let fn2 = second.len();
    let mut i: usize = 0;
    while i < fn2
        invariant
            fn2 == second@.len(),
            i <= fn2,
            v@ == first@ + second@.subrange(0, i as int),
        decreases fn2 - i,
    {
        v.push(second[i]);
        proof {
            assert(v@ =~= first@ + second@.subrange(0, i + 1 as int));
        }
        i = i + 1;
    }
    proof {
        assert(v@ =~= first@ + second@);
    }
    v
}

/// Enumerates all platforms' discovery listings, one inner vector per
/// platform, in platform order.
pub fn all_devices(host: &Host) -> (r: Result<Vec<Vec<CLIntDevice>>, Error>)
    requires
        host.wf(),
    ensures
        r matches Ok(v) && v@.len() == host.platforms@.len(),
        r matches Ok(v) ==> forall|p: int| 0 <= p < v@.len() ==> (#[trigger] v@[p])@
            == platform_device_listing(*host, p),
{
    let platforms = match get_platforms(host) {
        Ok(ps) => ps,
        Err(e) => {
            proof {
                assert(false);
            }
            return Err(e);
        },
    };
    let n = platforms.len();
    let mut v: Vec<Vec<CLIntDevice>> = Vec::new();
    let mut p: usize = 0;
    while p < n
        invariant
            host.wf(),
            n == host.platforms@.len(),
            platforms@.len() == n,
            forall|t: int| 0 <= t < n ==> (#[trigger] platforms@[t]).0 == t,
            p <= n,
            v@.len() == p,
            forall|t: int| 0 <= t < p ==> (#[trigger] v@[t])@ == platform_device_listing(
                *host,
                t,
            ),
        decreases n - p,
    {
        let ds = all_devices_of_platform(host, platforms[p]);
        v.push(ds);
        p = p + 1;
    }
    Ok(v)
}

/// Whether discovery keeps a device: it can be constructed and it can be
/// benchmarked.
pub open spec fn candidate_ok(h: Host, d: CLIntDevice) -> bool {
    h.device_of(d).available && h.device_of(d).compiler_available
}

/// Whether `(p, d)` names a candidate that discovery keeps.
pub open spec fn candidate_at(h: Host, p: int, d: int) -> bool {
    &&& 0 <= p < h.platforms@.len()
    &&& 0 <= d < platform_device_listing(h, p).len()
    &&& candidate_ok(h, platform_device_listing(h, p)[d])
}

/// The benchmark time candidate `(p, d)` consumes: ten operations for a
/// kept candidate, nothing for a skipped one.
pub open spec fn cand_cost(h: Host, p: int, d: int) -> int {
    if candidate_ok(h, platform_device_listing(h, p)[d]) {
        bench_cost(h, platform_device_listing(h, p)[d])
    } else {
        0
    }
}

/// The benchmark time the first `upto` candidates of platform `p`
/// consume.
pub open spec fn platform_budget(h: Host, p: int, upto: int) -> int
    decreases upto,
{
    if upto <= 0 {
        0
    } else {
        platform_budget(h, p, upto - 1) + cand_cost(h, p, upto - 1)
    }
}

/// The benchmark time the first `upto` platforms consume.
pub open spec fn discovery_budget_upto(h: Host, upto: int) -> int
    decreases upto,
{
    if upto <= 0 {
        0
    } else {
        discovery_budget_upto(h, upto - 1) + platform_budget(
            h,
            upto - 1,
            platform_device_listing(h, upto - 1).len() as int,
        )
    }
}

/// The benchmark time a whole discovery pass consumes.
pub open spec fn discovery_budget(h: Host) -> int {
    discovery_budget_upto(h, h.platforms@.len() as int)
}

/// Platform budgets grow with the candidate count and never go negative.
pub proof fn lemma_platform_budget_mono(h: Host, p: int, d1: int, d2: int)
    requires
        0 <= d1 <= d2,
    ensures
        0 <= platform_budget(h, p, d1) <= platform_budget(h, p, d2),
    decreases d2,
{
    if d2 > 0 {
        if d1 <= d2 - 1 {
            lemma_platform_budget_mono(h, p, d1, d2 - 1);
        } else {
            lemma_platform_budget_mono(h, p, d1 - 1, d2 - 1);
        }
    }
}

/// Discovery budgets grow with the platform count and never go negative.
pub proof fn lemma_discovery_budget_mono(h: Host, p1: int, p2: int)
    requires
        0 <= p1 <= p2,
    ensures
        0 <= discovery_budget_upto(h, p1) <= discovery_budget_upto(h, p2),
    decreases p2,
{
    if p2 > 0 {
        if p1 <= p2 - 1 {
            lemma_discovery_budget_mono(h, p1, p2 - 1);
            lemma_platform_budget_mono(
                h,
                p2 - 1,
                0,
                platform_device_listing(h, p2 - 1).len() as int,
            );
        } else {
            lemma_discovery_budget_mono(h, p1 - 1, p2 - 1);
            lemma_platform_budget_mono(
                h,
                p2 - 1,
                0,
                platform_device_listing(h, p2 - 1).len() as int,
            );
        }
    }
}

/// One measured candidate: its benchmark duration in nanoseconds, its
/// platform index, its device index within the platform's listing, and
/// the constructed device.
pub open spec fn measured_entry_ok(h0: Host, h: Host, e: (u64, usize, usize, CLDevice)) -> bool {
    &&& candidate_at(h0, e.1 as int, e.2 as int)
    &&& e.3.device == platform_device_listing(h0, e.1 as int)[e.2 as int]
    &&& e.0 == bench_cost(h0, e.3.device)
    &&& e.3.wf(h)
    &&& e.3.frontier().len() == 0
    &&& e.3.kernel_cache.entries().len() == 0
}

/// Builds and benchmarks every discoverable device: for each platform,
/// in listing order, a device is constructed and measured; one that
/// cannot be constructed or benchmarked is skipped and released, never
/// fatal to discovery as a whole. Entries come back in ascending
/// `(platform, device)` order, each with its measured duration, and no
/// two entries share a context or a queue. When the whole benchmark
/// budget still fits the clock, the result holds every candidate whose
/// device is available and has a compiler.
pub fn measured_devices(host: &mut Host) -> (r: Result<Vec<(u64, usize, usize, CLDevice)>, Error>)
    requires
        old(host).wf(),
    ensures
        final(host).wf(),
        r is Ok,
        r matches Ok(v) ==> {
            &&& forall|k: int| 0 <= k < v@.len() ==> measured_entry_ok(
                *old(host),
                *final(host),
                #[trigger] v@[k],
            )
            &&& forall|k1: int, k2: int| 0 <= k1 < k2 < v@.len() ==> ((#[trigger] v@[k1]).1 < (
            #[trigger] v@[k2]).1 || (v@[k1].1 == v@[k2].1 && v@[k1].2 < v@[k2].2))
            &&& forall|k1: int, k2: int| 0 <= k1 < k2 < v@.len() ==> ((#[trigger] v@[k1]).3.ctx.0
                != (#[trigger] v@[k2]).3.ctx.0 && v@[k1].3.queue.0 != v@[k2].3.queue.0)
            &&& (old(host).clock + discovery_budget(*old(host)) <= u64::MAX ==> forall|
                p: int,
                d: int,
            |
                candidate_at(*old(host), p, d) ==> exists|k: int|
                    0 <= k < v@.len() && (#[trigger] v@[k]).1 == p && v@[k].2 == d)
        },
        final(host).platforms == old(host).platforms,
        final(host).devices == old(host).devices,
        final(host).clock >= old(host).clock,
{
    let ghost h0 = *old(host);
    let all = match all_devices(host) {
        Ok(a) => a,
        Err(e) => {
            proof {
                assert(false);
            }
            return Err(e);
        },
    };
    let np = all.len();
    let ghost budget_fits = h0.clock + discovery_budget(h0) <= u64::MAX;
    let mut v: Vec<(u64, usize, usize, CLDevice)> = Vec::new();
    let mut p: usize = 0;
    while p < np
        invariant
            host.wf(),
            np == h0.platforms@.len(),
            all@.len() == np,
            forall|t: int| 0 <= t < np ==> (#[trigger] all@[t])@ == platform_device_listing(
                h0,
                t,
            ),
            p <= np,
            h0 == *old(host),
            h0.wf(),
            budget_fits == (h0.clock + discovery_budget(h0) <= u64::MAX),
            host.platforms == old(host).platforms,
            host.devices == old(host).devices,
            host.clock >= h0.clock,
            forall|k: int| 0 <= k < v@.len() ==> measured_entry_ok(h0, *host, #[trigger] v@[k]),
            forall|k: int| 0 <= k < v@.len() ==> (#[trigger] v@[k]).1 < p,
            forall|k1: int, k2: int| 0 <= k1 < k2 < v@.len() ==> ((#[trigger] v@[k1]).1 < (
            #[trigger] v@[k2]).1 || (v@[k1].1 == v@[k2].1 && v@[k1].2 < v@[k2].2)),
            forall|k: int| 0 <= k < v@.len() ==> (#[trigger] v@[k]).3.ctx.0
                < host.contexts@.len() && v@[k].3.queue.0 < host.queues@.len(),
            forall|k1: int, k2: int| 0 <= k1 < k2 < v@.len() ==> ((#[trigger] v@[k1]).3.ctx.0 != (
            #[trigger] v@[k2]).3.ctx.0 && v@[k1].3.queue.0 != v@[k2].3.queue.0),
            budget_fits ==> host.clock == h0.clock + discovery_budget_upto(h0, p as int),
            budget_fits ==> forall|p2: int, d2: int|
                p2 < p && candidate_at(h0, p2, d2) ==> exists|k: int|
                    0 <= k < v@.len() && (#[trigger] v@[k]).1 == p2 && v@[k].2 == d2,
        decreases np - p,
    {
        let pds = &all[p];
        let nd = pds.len();
        let mut d: usize = 0;
        while d < nd
            invariant
                host.wf(),
                np == h0.platforms@.len(),
                all@.len() == np,
                forall|t: int| 0 <= t < np ==> (#[trigger] all@[t])@ == platform_device_listing(
                    h0,
                    t,
                ),
                p < np,
                pds@ == platform_device_listing(h0, p as int),
                nd == pds@.len(),
                d <= nd,
                h0 == *old(host),
                h0.wf(),
                budget_fits == (h0.clock + discovery_budget(h0) <= u64::MAX),
                host.platforms == old(host).platforms,
                host.devices == old(host).devices,
                host.clock >= h0.clock,
                forall|k: int| 0 <= k < v@.len() ==> measured_entry_ok(
                    h0,
                    *host,
                    #[trigger] v@[k],
                ),
                forall|k: int| 0 <= k < v@.len() ==> ((#[trigger] v@[k]).1 < p || (v@[k].1 == p
                    && v@[k].2 < d)),
                forall|k1: int, k2: int| 0 <= k1 < k2 < v@.len() ==> ((#[trigger] v@[k1]).1 < (
                #[trigger] v@[k2]).1 || (v@[k1].1 == v@[k2].1 && v@[k1].2 < v@[k2].2)),
                forall|k: int| 0 <= k < v@.len() ==> (#[trigger] v@[k]).3.ctx.0
                    < host.contexts@.len() && v@[k].3.queue.0 < host.queues@.len(),
                forall|k1: int, k2: int| 0 <= k1 < k2 < v@.len() ==> ((#[trigger] v@[k1]).3.ctx.0
                    != (#[trigger] v@[k2]).3.ctx.0 && v@[k1].3.queue.0 != v@[k2].3.queue.0),
                budget_fits ==> host.clock == h0.clock + discovery_budget_upto(h0, p as int)
                    + platform_budget(h0, p as int, d as int),
                budget_fits ==> forall|p2: int, d2: int|
                    (p2 < p || (p2 == p && d2 < d)) && candidate_at(h0, p2, d2) ==> exists|k: int|
                        0 <= k < v@.len() && (#[trigger] v@[k]).1 == p2 && v@[k].2 == d2,
            decreases nd - d,
        {
            let id = pds[d];
            proof {
                lemma_listing_valid(h0, p as int);
                if budget_fits {
                    lemma_discovery_budget_mono(h0, p as int, np as int);
                    lemma_discovery_budget_mono(h0, p + 1 as int, np as int);
                    lemma_platform_budget_mono(h0, p as int, d as int, nd as int);
                    lemma_platform_budget_mono(h0, p as int, d + 1 as int, nd as int);
                    assert(discovery_budget_upto(h0, p + 1 as int) == discovery_budget_upto(
                        h0,
                        p as int,
                    ) + platform_budget(h0, p as int, nd as int));
                }
            }
            let ghost v_before = v@;
            let ghost h_before = *host;
            let ghost mut took = false;
            match CLDevice::from_int_device(host, id) {
                Ok(dev) => {
                    match measure_perf(host, &dev) {
                        Ok(dur) => {
                            proof {
                                assert(dur == bench_cost(h0, id));
                                took = true;
                            }
                            v.push((dur, p, d, dev));
                        },
                        Err(e) => {
                            proof {
                                assert(budget_fits ==> !candidate_at(h0, p as int, d as int));
                            }
                            match dev.release(host) {
                                Ok(u) => {},
                                Err(e2) => {
                                    proof {
                                        assert(false);
                                    }
                                    return Err(e2);
                                },
                            }
                        },
                    }
                },
                Err(e) => {
                    proof {
                        assert(!candidate_at(h0, p as int, d as int));
                    }
                },
            }
            proof {
                if budget_fits {
                    assert(platform_budget(h0, p as int, d + 1 as int) == platform_budget(
                        h0,
                        p as int,
                        d as int,
                    ) + cand_cost(h0, p as int, d as int));
                    assert forall|p2: int, d2: int|
                        (p2 < p || (p2 == p && d2 < d + 1)) && candidate_at(
                            h0,
                            p2,
                            d2,
                        ) implies exists|k: int|
                        0 <= k < v@.len() && (#[trigger] v@[k]).1 == p2 && v@[k].2 == d2 by {
                        if p2 == p as int && d2 == d as int {
                            assert(took);
                            let k = v@.len() - 1;
                            assert(v@[k].1 == p2 && v@[k].2 == d2);
                        } else {
                            let k = choose|k: int|
                                0 <= k < v_before.len() && (#[trigger] v_before[k]).1 == p2
                                    && v_before[k].2 == d2;
                            assert(v@[k].1 == p2 && v@[k].2 == d2);
                        }
                    }
                }
            }
            d = d + 1;
        }
        proof {
            if budget_fits {
                assert(discovery_budget_upto(h0, p + 1 as int) == discovery_budget_upto(
                    h0,
                    p as int,
                ) + platform_budget(h0, p as int, nd as int));
            }
        }
        p = p + 1;
    }
    Ok(v)
}

/// Picks the fastest measured candidate: the entry with the minimum
/// recorded duration, and the earliest such entry on a tie. An empty
/// candidate set reports the device-selection error and never panics.
pub fn fastest_of(devices: &Vec<(u64, usize, usize, CLDevice)>) -> (r: Result<usize, Error>)
    ensures
        r matches Ok(i) <==> devices@.len() > 0,
        r matches Ok(i) ==> {
            &&& i < devices@.len()
            &&& forall|j: int| 0 <= j < devices@.len() ==> (#[trigger] devices@[j]).0
                >= devices@[i as int].0
            &&& forall|j: int| 0 <= j < i ==> (#[trigger] devices@[j]).0 > devices@[i as int].0
        },
        r matches Err(e) ==> e.kind == OCLErrorKind::InvalidDevice,
{
    let n = devices.len();
    if n == 0 {
        return Err(Error::from_kind(OCLErrorKind::InvalidDevice));
    }
    let mut best: usize = 0;
    let mut i: usize = 1;
    while i < n
        invariant
            n == devices@.len(),
            best < i <= n,
            forall|j: int| 0 <= j < i ==> (#[trigger] devices@[j]).0 >= devices@[best as int].0,
            forall|j: int| 0 <= j < best ==> (#[trigger] devices@[j]).0 > devices@[best as int].0,
        decreases n - i,
    {
        if devices[i].0 < devices[best].0 {
            best = i;
        }
        i = i + 1;
    }
    Ok(best)
}

/// Two hosts with the same device table select the same devices from a
/// list.
pub proof fn lemma_selected_devices_congruent(h1: Host, h2: Host, ds: Seq<CLIntDevice>, mask: u64)
    requires
        h1.devices@ == h2.devices@,
    ensures
        selected_devices(h1, ds, mask) == selected_devices(h2, ds, mask),
    decreases ds.len(),
{
    if ds.len() > 0 {
        lemma_selected_devices_congruent(h1, h2, ds.drop_last(), mask);
    }
}

/// Two hosts with the same platform and device tables agree on discovery
/// listings and on which pairs are candidates.
pub proof fn lemma_discovery_congruent(h1: Host, h2: Host)
    requires
        h1.platforms@ == h2.platforms@,
        h1.devices@ == h2.devices@,
    ensures
        forall|p: int| 0 <= p < h1.platforms@.len() ==> platform_device_listing(h1, p)
            == platform_device_listing(h2, p),
        forall|p: int, d: int| candidate_at(h1, p, d) == candidate_at(h2, p, d),
{
    assert forall|p: int| 0 <= p < h1.platforms@.len() implies platform_device_listing(h1, p)
        == platform_device_listing(h2, p) by {
        lemma_selected_devices_congruent(h1, h2, h1.platforms@[p].devices@, gpu_accel_mask());
        lemma_selected_devices_congruent(
            h1,
            h2,
            h1.platforms@[p].devices@,
            DeviceType::CPU.bits_spec(),
        );
    }
    assert forall|p: int, d: int| true implies candidate_at(h1, p, d) == candidate_at(
        h2,
        p,
        d,
    ) by {
        if 0 <= p < h1.platforms@.len() {
            lemma_selected_devices_congruent(h1, h2, h1.platforms@[p].devices@, gpu_accel_mask());
            lemma_selected_devices_congruent(
                h1,
                h2,
                h1.platforms@[p].devices@,
                DeviceType::CPU.bits_spec(),
            );
        }
    }
}

impl CLDevice {
    /// Builds a logical device from a platform index and a device index
    /// within that platform's discovery listing. An index out of either
    /// range reports `InvalidDeviceIdx`.
    pub fn from_indices(host: &mut Host, platform_idx: usize, device_idx: usize) -> (r: Result<
        CLDevice,
        Error,
    >)
        requires
            old(host).wf(),
        ensures
            final(host).wf(),
            r matches Ok(dev) <==> (platform_idx < old(host).platforms@.len() && device_idx
                < platform_device_listing(*old(host), platform_idx as int).len() && old(
                host,
            ).device_of(
                platform_device_listing(*old(host), platform_idx as int)[device_idx as int],
            ).available),
            r matches Ok(dev) ==> {
                &&& dev.wf(*final(host))
                &&& dev.device == platform_device_listing(
                    *old(host),
                    platform_idx as int,
                )[device_idx as int]
                &&& dev.frontier().len() == 0
                &&& dev.kernel_cache.entries().len() == 0
            },
            r matches Err(e) ==> *final(host) == *old(host) && e.kind == (if platform_idx < old(
                host,
            ).platforms@.len() && device_idx < platform_device_listing(
                *old(host),
                platform_idx as int,
            ).len() {
                OCLErrorKind::DeviceNotAvailable
            } else {
                OCLErrorKind::InvalidDeviceIdx
            }),
            final(host).platforms == old(host).platforms,
            final(host).devices == old(host).devices,
            final(host).clock == old(host).clock,
    {
        if platform_idx >= host.platforms.len() {
            return Err(Error::from_kind(OCLErrorKind::InvalidDeviceIdx));
        }
        let listing = all_devices_of_platform(host, Platform(platform_idx));
        if device_idx >= listing.len() {
            return Err(Error::from_kind(OCLErrorKind::InvalidDeviceIdx));
        }
        proof {
            lemma_listing_valid(*host, platform_idx as int);
        }
        match CLDevice::from_int_device(host, listing[device_idx]) {
            Ok(dev) => Ok(dev),
            Err(e) => Err(e),
        }
    }

    /// Builds the logical device with the given flat index into the
    /// discovered-device registry, initializing the registry first if this
    /// is the process's first use of it. An index at or beyond the number
    /// of discovered devices reports `InvalidDeviceIdx`.
    pub fn new(host: &mut Host, registry: &mut crate::DeviceRegistry, device_idx: usize) -> (r:
        Result<CLDevice, Error>)
        requires
            old(host).wf(),
            old(registry).is_init() ==> old(registry).consistent_with(*old(host)),
        ensures
            final(host).wf(),
            final(registry).is_init(),
            final(registry).consistent_with(*final(host)),
            r matches Ok(dev) <==> device_idx < final(registry).entries().len(),
            r matches Ok(dev) ==> {
                &&& dev.wf(*final(host))
                &&& dev.frontier().len() == 0
                &&& dev.kernel_cache.entries().len() == 0
                &&& dev.device == platform_device_listing(
                    *final(host),
                    final(registry).entries()[device_idx as int].1 as int,
                )[final(registry).entries()[device_idx as int].2 as int]
            },
            r matches Err(e) ==> e.kind == OCLErrorKind::InvalidDeviceIdx,
    {
        match crate::init_devices(host, registry) {
            Ok(u) => {},
            Err(e) => {
                proof {
                    assert(false);
                }
                return Err(e);
            },
        }
        let ghost h1 = *host;
        let (platform_idx, local_idx) = match crate::extract_indices_from_device_idx(
            registry,
            device_idx,
        ) {
            Ok(pd) => pd,
            Err(e) => {
                return Err(e);
            },
        };
        proof {
            assert(candidate_at(
                h1,
                registry.entries()[device_idx as int].1 as int,
                registry.entries()[device_idx as int].2 as int,
            ));
        }
        match CLDevice::from_indices(host, platform_idx, local_idx) {
            Ok(dev) => {
                proof {
                    lemma_discovery_congruent(h1, *host);
                }
                Ok(dev)
            },
            Err(e) => {
                proof {
                    assert(false);
                }
                Err(e)
            },
        }
    }

    /// Discovers and benchmarks every device, returns the one with the
    /// minimum measured duration — on a tie, the earliest in discovery
    /// order — and releases the others. When no candidate benchmarks
    /// successfully the call fails with the device-selection error; it
    /// never panics.
    pub fn fastest(host: &mut Host) -> (r: Result<CLDevice, Error>)
        requires
            old(host).wf(),
        ensures
            final(host).wf(),
            r matches Ok(dev) ==> {
                &&& dev.wf(*final(host))
                &&& dev.frontier().len() == 0
                &&& dev.kernel_cache.entries().len() == 0
                &&& candidate_ok(*old(host), dev.device)
            },
            old(host).clock + discovery_budget(*old(host)) <= u64::MAX ==> {
                &&& (r is Ok <==> exists|p: int, d: int| candidate_at(*old(host), p, d))
                &&& (r matches Ok(dev) ==> forall|p: int, d: int|
                    candidate_at(*old(host), p, d) ==> bench_cost(*old(host), dev.device)
                        <= bench_cost(
                        *old(host),
                        platform_device_listing(*old(host), p)[d],
                    ))
            },
            r matches Err(e) ==> e.kind == OCLErrorKind::InvalidDevice,
    {
        let ghost h0 = *old(host);
        let mut measured = match measured_devices(host) {
            Ok(v) => v,
            Err(e) => {
                proof {
                    assert(false);
                }
                return Err(e);
            },
        };
        let idx = match fastest_of(&measured) {
            Ok(i) => i,
            Err(e) => {
                proof {
                    if h0.clock + discovery_budget(h0) <= u64::MAX {
                        if exists|p: int, d: int| candidate_at(h0, p, d) {
                            let (p, d) = choose|p: int, d: int| candidate_at(h0, p, d);
                            assert(exists|k: int| 0 <= k < measured@.len() && (
                            #[trigger] measured@[k]).1 == p && measured@[k].2 == d);
                            assert(false);
                        }
                    }
                }
                return Err(e);
            },
        };
        let ghost orig = measured@;
        let mut chosen: Option<CLDevice> = None;
        let mut j: usize = measured.len();
        while j > 0
            invariant
                host.wf(),
                j == measured@.len(),
                j <= orig.len(),
                idx < orig.len(),
                measured@ == orig.subrange(0, j as int),
                forall|k: int| 0 <= k < j ==> measured_entry_ok(h0, *host, #[trigger] orig[k]),
                forall|k1: int, k2: int| 0 <= k1 < k2 < orig.len() ==> ((
                #[trigger] orig[k1]).3.ctx.0 != (#[trigger] orig[k2]).3.ctx.0 && orig[k1].3.queue.0
                    != orig[k2].3.queue.0),
                forall|k: int| 0 <= k < orig.len() ==> (#[trigger] orig[k]).3.ctx.0
                    < host.contexts@.len() && orig[k].3.queue.0 < host.queues@.len(),
                j > idx ==> chosen is None,
                j <= idx ==> (chosen matches Some(dev) && dev == orig[idx as int].3 && dev.wf(
                    *host,
                )),
                h0 == *old(host),
            decreases j,
        {
            let entry = match measured.pop() {
                Some(entry) => entry,
                None => {
                    proof {
                        assert(false);
                    }
                    return Err(Error::from_kind(OCLErrorKind::InvalidDevice));
                },
            };
            j = j - 1;
            proof {
                assert(orig.subrange(0, j + 1 as int).last() == orig[j as int]);
                assert(orig.subrange(0, j + 1 as int).drop_last() =~= orig.subrange(0, j as int));
            }
            let dev = entry.3;
            if j == idx {
                chosen = Some(dev);
            } else {
                match dev.release(host) {
                    Ok(u) => {},
                    Err(e) => {
                        proof {
                            assert(false);
                        }
                        return Err(e);
                    },
                }
            }
        }
        match chosen {
            Some(dev) => {
                proof {
                    if h0.clock + discovery_budget(h0) <= u64::MAX {
                        assert forall|p: int, d: int| candidate_at(h0, p, d) implies bench_cost(
                            h0,
                            dev.device,
                        ) <= bench_cost(h0, platform_device_listing(h0, p)[d]) by {
                            let k = choose|k: int|
                                0 <= k < orig.len() && (#[trigger] orig[k]).1 == p && orig[k].2
                                    == d;
                            assert(orig[k].0 >= orig[idx as int].0);
                        }
                    }
                }
                Ok(dev)
            },
            None => {
                proof {
                    assert(false);
                }
                Err(Error::from_kind(OCLErrorKind::InvalidDevice))
            },
        }
    }
}

} // verus!
