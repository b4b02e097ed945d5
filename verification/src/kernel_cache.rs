//! The compiled-kernel cache: one compiled kernel per exact source text.
//!
//! The key is the source string itself, not a hash or a normalized form:
//! two semantically identical but textually different sources get two
//! distinct entries. A hit hands back the kernel compiled earlier; a miss
//! builds a program, extracts its first entry point, releases the program,
//! and caches the kernel under the source text.

use vstd::prelude::*;

use crate::api::cl::{
    build_program, create_kernels_in_program, create_program_with_source, get_program_build_info,
    release_kernel, release_program, CLIntDevice, Context, Kernel, ProgramBuildInfo,
};
use crate::api::error::{Error, OCLErrorKind};
use crate::api::host::Host;
use crate::api::source::entry_count;

verus! {

/// Stores the previously compiled kernels of one device, keyed by the
/// exact kernel source text.
#[derive(Debug)]
pub struct KernelCache {
    /// Pairs of source text and the kernel compiled from it.
    pub kernel_cache: Vec<(String, Kernel)>,
}

impl KernelCache {
    /// The stored pairs of source text and kernel.
    pub open spec fn entries(self) -> Seq<(String, Kernel)> {
        self.kernel_cache@
    }

    /// Whether some entry is keyed by this source text.
    pub open spec fn has_src(self, s: Seq<char>) -> bool {
        exists|i: int| 0 <= i < self.entries().len() && (#[trigger] self.entries()[i]).0@ == s
    }

    /// The position of the entry keyed by this source text.
    pub open spec fn idx_of(self, s: Seq<char>) -> int {
        choose|i: int| 0 <= i < self.entries().len() && (#[trigger] self.entries()[i]).0@ == s
    }

    /// The kernel cached under this source text.
    pub open spec fn lookup(self, s: Seq<char>) -> Kernel {
        self.entries()[self.idx_of(s)].1
    }

    /// Cache consistency against the host: source keys are distinct, the
    /// cached kernels are distinct, and each is a live kernel of the
    /// owning device's context.
    pub open spec fn wf(self, h: Host, ctx: Context) -> bool {
        &&& forall|i: int, j: int| 0 <= i < j < self.entries().len()
            ==> (#[trigger] self.entries()[i]).0@ != (#[trigger] self.entries()[j]).0@
        &&& forall|i: int, j: int| 0 <= i < j < self.entries().len()
            ==> (#[trigger] self.entries()[i]).1.0 != (#[trigger] self.entries()[j]).1.0
        &&& forall|i: int| 0 <= i < self.entries().len() ==> {
            &&& h.kernel_live((#[trigger] self.entries()[i]).1)
            &&& h.kernel_of(self.entries()[i].1).ctx == ctx
        }
    }

    /// An empty cache.
    pub fn new() -> (c: KernelCache)
        ensures
            c.entries().len() == 0,
    {
        KernelCache { kernel_cache: Vec::new() }
    }

    /// One source text, one kernel. Together with the contract of
    /// [`KernelCache::kernel`] — a hit returns `lookup` of the source and
    /// leaves everything untouched — this is the cache's identity law:
    /// requesting the same text twice yields the identical kernel handle,
    /// and two distinct source texts never share a kernel, because the
    /// cache key is the exact source string.
    pub proof fn lemma_distinct_sources_distinct_kernels(
        self,
        h: Host,
        ctx: Context,
        s1: Seq<char>,
        s2: Seq<char>,
    )
        requires
            self.wf(h, ctx),
            self.has_src(s1),
            self.has_src(s2),
            s1 != s2,
        ensures
            self.lookup(s1).0 != self.lookup(s2).0,
    {
        let i = self.idx_of(s1);
        let j = self.idx_of(s2);
        assert(0 <= i < self.entries().len() && self.entries()[i].0@ == s1);
        assert(0 <= j < self.entries().len() && self.entries()[j].0@ == s2);
    }

    /// An entry's key looks its own kernel up.
    pub proof fn lemma_lookup_at(self, h: Host, ctx: Context, i: int)
        requires
            self.wf(h, ctx),
            0 <= i < self.entries().len(),
        ensures
            self.has_src(self.entries()[i].0@),
            self.lookup(self.entries()[i].0@) == self.entries()[i].1,
    {
        let s = self.entries()[i].0@;
        assert(self.has_src(s));
        let j = self.idx_of(s);
        if i != j {
            assert(false);
        }
    }

    /// Returns the kernel for a source text: the cached one on a hit —
    /// the host and the cache are then left untouched — or a newly
    /// compiled one on a miss, which is cached under the exact source
    /// string. On a miss the program is built with the fixed baseline
    /// language option, its first entry point becomes the cached kernel,
    /// any further entry points and the program itself are released, and
    /// the new kernel is distinct from every kernel cached before. A
    /// build failure surfaces the compiler's build log; a source with no
    /// entry point reports `InvalidKernel`.
    pub fn kernel(&mut self, host: &mut Host, ctx: &Context, device: CLIntDevice, src: &str) -> (r:
        Result<Kernel, Error>)
        requires
            old(self).wf(*old(host), *ctx),
            old(host).wf(),
            old(host).ctx_live(*ctx),
            old(host).valid_device(device),
        ensures
            final(host).wf(),
            final(self).wf(*final(host), *ctx),
            r matches Ok(k) <==> old(self).has_src(src@) || (old(host).device_of(
                device,
            ).compiler_available && entry_count(src@) >= 1),
            old(self).has_src(src@) ==> (r matches Ok(k) && k == old(self).lookup(src@)
                && *final(self) == *old(self) && *final(host) == *old(host)),
            r matches Ok(k) ==> (final(self).has_src(src@) && final(self).lookup(src@) == k),
            !old(self).has_src(src@) ==> (r matches Ok(k) ==> {
                &&& final(self).entries().len() == old(self).entries().len() + 1
                &&& forall|i: int| 0 <= i < old(self).entries().len()
                    ==> final(self).entries()[i] == old(self).entries()[i]
                &&& final(self).entries().last().0@ == src@
                &&& final(self).entries().last().1 == k
                &&& k.0 >= old(host).kernels@.len()
            }),
            r matches Err(e) ==> *final(self) == *old(self) && {
                &&& !old(host).device_of(device).compiler_available ==> e.kind
                    == OCLErrorKind::CompilerNotAvailable && (e.build_log matches Some(l) && l@
                    == crate::api::cl::failed_build_log())
                &&& old(host).device_of(device).compiler_available ==> e.kind
                    == OCLErrorKind::InvalidKernel
            },
            final(host).platforms == old(host).platforms,
            final(host).devices == old(host).devices,
            final(host).contexts == old(host).contexts,
            final(host).queues == old(host).queues,
            final(host).buffers == old(host).buffers,
            final(host).events == old(host).events,
            final(host).clock == old(host).clock,
            forall|i: int| 0 <= i < old(host).kernels@.len() ==> final(host).kernels@[i] == old(host).kernels@[i],
            forall|i: int| 0 <= i < old(host).programs@.len() ==> final(host).programs@[i] == old(host).programs@[i],
    {
        broadcast use vstd::string::group_string_axioms;

        let key = src.to_string();
        let n = self.kernel_cache.len();
        let mut i: usize = 0;
        while i < n
            invariant
                host.wf(),
                n == self.entries().len(),
                i <= n,
                key@ == src@,
                forall|j: int| 0 <= j < i ==> (#[trigger] self.entries()[j]).0@ != src@,
                self.wf(*host, *ctx),
                *self == *old(self),
                *host == *old(host),
            decreases n - i,
        {
            if self.kernel_cache[i].0 == key {
                let k = self.kernel_cache[i].1;
                proof {
                    self.lemma_lookup_at(*host, *ctx, i as int);
                }
                return Ok(k);
            }
            i = i + 1;
        }
        proof {
            assert(!self.has_src(src@));
        }
        let program = match create_program_with_source(host, ctx, src) {
            Ok(p) => p,
            Err(e) => {
                proof {
                    assert(false);
                }
                return Err(e);
            },
        };
        let mut single: Vec<CLIntDevice> = Vec::new();
        single.push(device);
        proof {
            assert(single@[0] == device);
        }
        match build_program(host, &program, single.as_slice(), Some("-cl-std=CL1.2")) {
            Ok(u) => {},
            Err(e) => {
                if e.kind == OCLErrorKind::CompilerNotAvailable {
                    let logs = match get_program_build_info(
                        host,
                        ProgramBuildInfo::BuildLog,
                        &program,
                        single.as_slice(),
                    ) {
                        Ok(l) => l,
                        Err(e2) => {
                            proof {
                                assert(false);
                            }
                            return Err(e2);
                        },
                    };
                    let log = if logs.len() > 0 {
                        logs[0].clone()
                    } else {
                        String::new()
                    };
                    match release_program(host, program) {
                        Ok(u) => {},
                        Err(e2) => {
                            proof {
                                assert(false);
                            }
                            return Err(e2);
                        },
                    }
                    return Err(Error::with_log(OCLErrorKind::CompilerNotAvailable, log));
                }
                proof {
                    assert(false);
                }
                return Err(e);
            },
        }
        let kernels = match create_kernels_in_program(host, &program) {
            Ok(v) => v,
            Err(e) => {
                proof {
                    assert(false);
                }
                return Err(e);
            },
        };
        if kernels.len() == 0 {
            match release_program(host, program) {
                Ok(u) => {},
                Err(e2) => {
                    proof {
                        assert(false);
                    }
                    return Err(e2);
                },
            }
            return Err(Error::from_kind(OCLErrorKind::InvalidKernel));
        }
        let kernel = kernels[0];
        let kn = kernels.len();
        let mut j: usize = 1;
        while j < kn
            invariant
                host.wf(),
                kn == kernels@.len(),
                1 <= j <= kn,
                forall|t: int| 0 <= t < kn ==> (#[trigger] kernels@[t]).0 == old(host).kernels@.len() + t,
                host.kernels@.len() == old(host).kernels@.len() + kn,
                forall|t: int| 0 <= t < old(host).kernels@.len() ==> host.kernels@[t] == old(host).kernels@[t],
                host.kernel_live(kernels@[0]),
                host.kernel_of(kernels@[0]).ctx == *ctx,
                forall|t: int| j <= t < kn ==> host.kernel_live(#[trigger] kernels@[t]),
                forall|t: int| j <= t < kn ==> host.kernel_of(#[trigger] kernels@[t]).ctx == *ctx,
                host.platforms == old(host).platforms,
                host.devices == old(host).devices,
                host.contexts == old(host).contexts,
                host.queues == old(host).queues,
                host.buffers == old(host).buffers,
                host.events == old(host).events,
                host.clock == old(host).clock,
                host.programs@.len() == old(host).programs@.len() + 1,
                forall|t: int| 0 <= t < old(host).programs@.len() ==> host.programs@[t] == old(host).programs@[t],
                program.0 == old(host).programs@.len(),
                host.program_live(program),
            decreases kn - j,
        {
            match release_kernel(host, kernels[j]) {
                Ok(u) => {},
                Err(e2) => {
                    proof {
                        assert(false);
                    }
                    return Err(e2);
                },
            }
            j = j + 1;
        }
        match release_program(host, program) {
            Ok(u) => {},
            Err(e2) => {
                proof {
                    assert(false);
                }
                return Err(e2);
            },
        }
        self.kernel_cache.push((key, kernel));
        proof {
            assert(self.entries().last().0@ == src@);
            assert(forall|i: int| 0 <= i < old(self).entries().len()
                ==> (#[trigger] self.entries()[i]) == old(self).entries()[i]);
            assert(self.has_src(src@));
            self.lemma_lookup_at(*host, *ctx, self.entries().len() - 1);
        }
        Ok(kernel)
    }
}

} // verus!
