//! The micro-benchmark that discovery uses to rank devices.
//!
//! It compiles a fixed element-wise addition kernel, allocates three
//! fixed-size integer buffers, and times ten submit-and-wait rounds of
//! the kernel. Only the submission loop is timed: buffer creation and
//! teardown stay outside the timed region on purpose.

use vstd::prelude::*;

use crate::api::cl::{
    build_program, create_buffer, create_kernels_in_program, create_program_with_source,
    enqueue_nd_range_kernel, release_kernel, release_mem_object, release_program, set_kernel_arg,
    CLIntDevice, MemFlags,
};
use crate::api::error::{Error, OCLErrorKind};
use crate::api::host::{Host, KernelArg};
use crate::api::source::{entry_at, entry_count, lemma_entry_at_counts};
use crate::cl_device::CLDevice;

verus! {

/// Elements in each benchmark buffer.
pub const SIZE: usize = 100000;

/// Benchmark rounds.
pub const ROUNDS: usize = 10;

/// The benchmark duration of a device, in nanoseconds: ten rounds of one
/// operation each.
pub open spec fn bench_cost(h: Host, d: CLIntDevice) -> int {
    10 * h.device_of(d).op_cost
}

/// Whether a device can complete the benchmark from the current state:
/// its compiler is present and ten rounds still fit the clock.
pub open spec fn bench_ok(h: Host, d: CLIntDevice) -> bool {
    h.device_of(d).compiler_available && h.clock + bench_cost(h, d) <= u64::MAX
}

/// A vector holding `n` copies of `val`.
fn filled(val: i32, n: usize) -> (v: Vec<i32>)
    ensures
        v@.len() == n,
        forall|i: int| 0 <= i < n ==> v@[i] == val,
{
    let mut v: Vec<i32> = Vec::new();
    let mut i: usize = 0;
    while i < n
        invariant
            i <= n,
            v@.len() == i,
            forall|j: int| 0 <= j < i ==> v@[j] == val,
        decreases n - i,
    {
        v.push(val);
        i = i + 1;
    }
    v
}

/// Runs the fixed micro-benchmark on a device and returns the wall-clock
/// nanoseconds the ten timed submission rounds took, which on a device
/// that costs `c` nanoseconds per operation is exactly `10 * c`. The
/// benchmark fails only when the device has no kernel compiler, or when
/// ten rounds no longer fit the clock; on a compiler failure the clock is
/// untouched. The device's own frontier and cache are not involved: the
/// benchmark submits directly to the device's queue with explicit waits.
pub fn measure_perf(host: &mut Host, device: &CLDevice) -> (r: Result<u64, Error>)
    requires
        device.wf(*old(host)),
        old(host).wf(),
    ensures
        final(host).wf(),
        device.wf(*final(host)),
        r matches Ok(d) <==> bench_ok(*old(host), device.device),
        r matches Ok(d) ==> d == bench_cost(*old(host), device.device) && final(host).clock == old(host).clock + bench_cost(*old(host), device.device),
        r matches Err(e) ==> e.kind == (if !old(host).device_of(device.device).compiler_available {
            OCLErrorKind::CompilerNotAvailable
        } else {
            OCLErrorKind::OutOfResources
        }),
        r matches Err(e) && e.kind == OCLErrorKind::CompilerNotAvailable ==> final(host).clock
            == old(host).clock,
        final(host).platforms == old(host).platforms,
        final(host).devices == old(host).devices,
        final(host).contexts == old(host).contexts,
        final(host).queues == old(host).queues,
        forall|i: int| 0 <= i < old(host).buffers@.len() ==> final(host).buffers@[i] == old(host).buffers@[i],
        forall|i: int| 0 <= i < old(host).programs@.len() ==> final(host).programs@[i] == old(host).programs@[i],
        forall|i: int| 0 <= i < old(host).kernels@.len() ==> final(host).kernels@[i] == old(host).kernels@[i],
        forall|i: int| 0 <= i < old(host).events@.len() ==> final(host).events@[i] == old(host).events@[i],
        final(host).clock >= old(host).clock,
{
    let src = "__kernel void add(__global const int* lhs, __global const int* rhs, __global int* out) { int idx = get_global_id(0); out[idx] = lhs[idx] + rhs[idx]; }";
    proof {
        reveal_strlit(
            "__kernel void add(__global const int* lhs, __global const int* rhs, __global int* out) { int idx = get_global_id(0); out[idx] = lhs[idx] + rhs[idx]; }",
        );
        assert(src@.subrange(0, 8) =~= crate::api::source::entry_marker());
        assert(entry_at(src@, 0));
        lemma_entry_at_counts(src@, 0, 0);
        assert(entry_count(src@) >= 1);
    }
    let program = match create_program_with_source(host, &device.ctx, src) {
        Ok(p) => p,
        Err(e) => {
            proof {
                assert(false);
            }
            return Err(e);
        },
    };
    let mut single: Vec<CLIntDevice> = Vec::new();
    single.push(device.device);
    proof {
        assert(single@[0] == device.device);
    }
    match build_program(host, &program, single.as_slice(), Some("-cl-std=CL1.2")) {
        Ok(u) => {},
        Err(e) => {
            if e.kind == OCLErrorKind::CompilerNotAvailable {
                match release_program(host, program) {
                    Ok(u) => {},
                    Err(e2) => {
                        proof {
                            assert(false);
                        }
                        return Err(e2);
                    },
                }
                return Err(e);
            }
            proof {
                assert(false);
            }
            return Err(e);
        },
    }
    let kernels = match create_kernels_in_program(host, &program) {
        Ok(v) => v,
        Err(e) => {
            proof {
                assert(false);
            }
            return Err(e);
        },
    };
    let kernel = kernels[0];
    let kn = kernels.len();
    let mut j: usize = 1;
    while j < kn
        invariant
            host.wf(),
            kn == kernels@.len(),
            1 <= j <= kn,
            device.wf(*old(host)),
            forall|t: int| 0 <= t < kn ==> (#[trigger] kernels@[t]).0 == old(host).kernels@.len()
                + t,
            host.kernels@.len() == old(host).kernels@.len() + kn,
            forall|t: int| 0 <= t < old(host).kernels@.len() ==> host.kernels@[t] == old(host).kernels@[t],
            host.kernel_live(kernels@[0]),
            host.kernel_of(kernels@[0]).ctx == device.ctx,
            host.kernel_of(kernels@[0]).args@.len() == 0,
            forall|t: int| j <= t < kn ==> host.kernel_live(#[trigger] kernels@[t]),
            host.platforms == old(host).platforms,
            host.devices == old(host).devices,
            host.contexts == old(host).contexts,
            host.queues == old(host).queues,
            host.buffers == old(host).buffers,
            host.events == old(host).events,
            host.clock == old(host).clock,
            host.programs@.len() == old(host).programs@.len() + 1,
            forall|t: int| 0 <= t < old(host).programs@.len() ==> host.programs@[t] == old(host).programs@[t],
            host.program_live(program),
        decreases kn - j,
    {
        match release_kernel(host, kernels[j]) {
            Ok(u) => {},
            Err(e2) => {
                proof {
                    assert(false);
                }
                return Err(e2);
            },
        }
        j = j + 1;
    }
    match release_program(host, program) {
        Ok(u) => {},
        Err(e2) => {
            proof {
                assert(false);
            }
            return Err(e2);
        },
    }
    proof {
        assert((1u64 | (1u64 << 5)) & ((1u64 << 3) | (1u64 << 5)) != 0u64) by (bit_vector);
        assert(1u64 & ((1u64 << 3) | (1u64 << 5)) == 0u64) by (bit_vector);
    }
    let ones = filled(1, SIZE);
    let lhs = match create_buffer(
        host,
        &device.ctx,
        MemFlags::MemReadWrite.bits() | MemFlags::MemCopyHostPtr.bits(),
        SIZE,
        Some(ones.as_slice()),
    ) {
        Ok(m) => m,
        Err(e) => {
            proof {
                assert(false);
            }
            return Err(e);
        },
    };
    let twos = filled(2, SIZE);
    let rhs = match create_buffer(
        host,
        &device.ctx,
        MemFlags::MemReadWrite.bits() | MemFlags::MemCopyHostPtr.bits(),
        SIZE,
        Some(twos.as_slice()),
    ) {
        Ok(m) => m,
        Err(e) => {
            proof {
                assert(false);
            }
            return Err(e);
        },
    };
    let out = match create_buffer(host, &device.ctx, MemFlags::MemReadWrite.bits(), SIZE, None) {
        Ok(m) => m,
        Err(e) => {
            proof {
                assert(false);
            }
            return Err(e);
        },
    };
    match set_kernel_arg(host, &kernel, 0, KernelArg::MemObject(lhs)) {
        Ok(u) => {},
        Err(e) => {
            proof {
                assert(false);
            }
            return Err(e);
        },
    }
    match set_kernel_arg(host, &kernel, 1, KernelArg::MemObject(rhs)) {
        Ok(u) => {},
        Err(e) => {
            proof {
                assert(false);
            }
            return Err(e);
        },
    }
    match set_kernel_arg(host, &kernel, 2, KernelArg::MemObject(out)) {
        Ok(u) => {},
        Err(e) => {
            proof {
                assert(false);
            }
            return Err(e);
        },
    }
    let ghost cost = old(host).device_of(device.device).op_cost as int;
    let start = host.clock;
    let gws: [usize; 3] = [SIZE, 0, 0];
    let mut round: usize = 0;
    let mut failed = false;
    while round < ROUNDS && !failed
        invariant
            host.wf(),
            device.wf(*host),
            round <= ROUNDS,
            cost == host.device_of(device.device).op_cost as int,
            cost >= 1,
            gws@[0] == SIZE,
            host.kernel_live(kernel),
            host.kernel_of(kernel).ctx == device.ctx,
            crate::api::cl::launch_args(*host, kernel) == Some((lhs, rhs, out)),
            host.buffer_live(lhs) && host.buffer_of(lhs).ctx == device.ctx,
            host.buffer_live(rhs) && host.buffer_of(rhs).ctx == device.ctx,
            host.buffer_live(out) && host.buffer_of(out).ctx == device.ctx,
            host.buffer_of(lhs).data@.len() == SIZE,
            host.buffer_of(rhs).data@.len() == SIZE,
            host.buffer_of(out).data@.len() == SIZE,
            host.queue_of(device.queue).ctx == device.ctx,
            host.queue_of(device.queue).device == device.device,
            !failed ==> host.clock == start + round * cost,
            failed ==> start + (round * cost) + cost > u64::MAX,
            failed ==> round < ROUNDS,
            out.0 >= old(host).buffers@.len(),
            start >= 0,
            host.platforms == old(host).platforms,
            host.devices == old(host).devices,
            host.contexts == old(host).contexts,
            host.queues == old(host).queues,
            forall|t: int| 0 <= t < old(host).buffers@.len() ==> host.buffers@[t] == old(host).buffers@[t],
            forall|t: int| 0 <= t < old(host).programs@.len() ==> host.programs@[t] == old(host).programs@[t],
            forall|t: int| 0 <= t < old(host).kernels@.len() ==> host.kernels@[t] == old(host).kernels@[t],
            forall|t: int| 0 <= t < old(host).events@.len() ==> host.events@[t] == old(host).events@[t],
            host.events@.len() >= old(host).events@.len(),
            host.clock >= start,
        decreases ROUNDS - round, (if failed {
            0int
        } else {
            1int
        }),
    {
        match enqueue_nd_range_kernel(host, &device.queue, &kernel, 1, &gws, None, None, None) {
            Ok(ev) => {
                match ev.wait(host) {
                    Ok(u) => {},
                    Err(e) => {
                        proof {
                            assert(false);
                        }
                        return Err(e);
                    },
                }
                proof {
                    assert(round * cost + cost == (round + 1) * cost) by (nonlinear_arith);
                }
                round = round + 1;
            },
            Err(e) => {
                failed = true;
            },
        }
    }
    let dur = host.clock - start;
    match release_mem_object(host, lhs) {
        Ok(u) => {},
        Err(e) => {
            proof {
                assert(false);
            }
            return Err(e);
        },
    }
    match release_mem_object(host, rhs) {
        Ok(u) => {},
        Err(e) => {
            proof {
                assert(false);
            }
            return Err(e);
        },
    }
    match release_mem_object(host, out) {
        Ok(u) => {},
        Err(e) => {
            proof {
                assert(false);
            }
            return Err(e);
        },
    }
    match release_kernel(host, kernel) {
        Ok(u) => {},
        Err(e) => {
            proof {
                assert(false);
            }
            return Err(e);
        },
    }
    if failed {
        proof {
            assert(round * cost + cost <= 10 * cost) by (nonlinear_arith)
                requires
                    round + 1 <= 10,
                    cost >= 1,
            ;
        }
        return Err(Error::from_kind(OCLErrorKind::OutOfResources));
    }
    Ok(dur)
}

} // verus!
