//! A host-side execution runtime for dispatching work onto compute
//! accelerator devices.
//!
//! The crate discovers devices, selects the fastest one by a fixed
//! micro-benchmark, owns the resources needed to run compiled kernels
//! (contexts, command queues, programs, kernels, events), serializes
//! asynchronous operations issued through one logical device by a rolling
//! dependency frontier, and caches compiled kernels by their source text.
//!
//! All driver-side state is held in an explicit [`api::host::Host`] value
//! that is passed to every call, so the whole runtime is deterministic and
//! its behaviour is stated in contracts and machine-checked.
//!
//! One host thread issues calls; a [`CLDevice`] and the registry are
//! single-owner values, and sharing them across threads is up to the
//! caller. Waits are unconditional: there is no timeout or cancellation
//! path, so draining a frontier blocks until the driver reports every
//! pending operation complete.

pub mod api;
pub mod cl_device;
pub mod kernel_cache;
pub mod measure_perf;

pub use api::error::Error;
pub use api::error::OCLErrorKind;
pub use cl_device::all_devices;
pub use cl_device::all_devices_of_platform;
pub use cl_device::fastest_of;
pub use cl_device::measured_devices;
pub use cl_device::CLDevice;
pub use kernel_cache::KernelCache;
pub use measure_perf::measure_perf;

use vstd::prelude::*;

use api::host::Host;
use cl_device::{candidate_at, discovery_budget, lemma_discovery_congruent, measured_entry_ok};

verus! {

/// The process-wide discovered-device registry: the measured devices of
/// one discovery pass, built lazily on first use and read-only
/// afterwards. It is explicit state, passed to whoever resolves device
/// indexes; there is no invalidation path.
#[derive(Debug)]
pub struct DeviceRegistry {
    /// `None` until the first initialization; then the measured entries,
    /// each `(duration in nanoseconds, platform index, device index,
    /// device)`.
    pub devices: Option<Vec<(u64, usize, usize, CLDevice)>>,
}

impl DeviceRegistry {
    /// Whether the registry has been built.
    pub open spec fn is_init(self) -> bool {
        self.devices is Some
    }

    /// The measured entries, in discovery order.
    pub open spec fn entries(self) -> Seq<(u64, usize, usize, CLDevice)> {
        match self.devices {
            Some(v) => v@,
            None => Seq::empty(),
        }
    }

    /// Every entry names a discovery candidate of this host.
    pub open spec fn consistent_with(self, h: Host) -> bool {
        forall|k: int| 0 <= k < self.entries().len() ==> candidate_at(
            h,
            (#[trigger] self.entries()[k]).1 as int,
            self.entries()[k].2 as int,
        )
    }

    /// An empty, not-yet-built registry.
    pub fn new() -> (r: DeviceRegistry)
        ensures
            !r.is_init(),
    {
        DeviceRegistry { devices: None }
    }
}

/// Builds the discovered-device registry if this is its first use;
/// a registry that is already built is left exactly as it is. Gathering
/// devices cannot fail: a device that cannot be constructed or
/// benchmarked is simply not discovered.
pub fn init_devices(host: &mut Host, registry: &mut DeviceRegistry) -> (r: Result<(), Error>)
    requires
        old(host).wf(),
        old(registry).is_init() ==> old(registry).consistent_with(*old(host)),
    ensures
        final(host).wf(),
        r is Ok,
        final(registry).is_init(),
        final(registry).consistent_with(*final(host)),
        old(registry).is_init() ==> *final(registry) == *old(registry) && *final(host) == *old(host),
        !old(registry).is_init() ==> {
            &&& forall|k: int| 0 <= k < final(registry).entries().len() ==> measured_entry_ok(
                *old(host),
                *final(host),
                #[trigger] final(registry).entries()[k],
            )
            &&& (old(host).clock + discovery_budget(*old(host)) <= u64::MAX ==> forall|
                p: int,
                d: int,
            |
                candidate_at(*old(host), p, d) ==> exists|k: int|
                    0 <= k < final(registry).entries().len() && (#[trigger] final(registry).entries()[k]).1 == p && final(registry).entries()[k].2 == d)
        },
        final(host).platforms == old(host).platforms,
        final(host).devices == old(host).devices,
{
    match registry.devices {
        Some(_) => Ok(()),
        None => {
            let measured = match measured_devices(host) {
                Ok(v) => v,
                Err(e) => {
                    proof {
                        assert(false);
                    }
                    return Err(e);
                },
            };
            proof {
                lemma_discovery_congruent(*old(host), *host);
            }
            registry.devices = Some(measured);
            proof {
                assert(forall|k: int| 0 <= k < registry.entries().len() ==> measured_entry_ok(
                    *old(host),
                    *host,
                    #[trigger] registry.entries()[k],
                ));
            }
            Ok(())
        },
    }
}

/// Resolves a flat device index against the registry: for a registry of
/// `N` discovered devices, an index below `N` yields that entry's
/// platform and device indexes, and any other index reports
/// `InvalidDeviceIdx`.
pub fn extract_indices_from_device_idx(registry: &DeviceRegistry, device_idx: usize) -> (r: Result<
    (usize, usize),
    Error,
>)
    requires
        registry.is_init(),
    ensures
        r matches Ok(pd) <==> device_idx < registry.entries().len(),
        r matches Ok(pd) ==> pd.0 == registry.entries()[device_idx as int].1 && pd.1
            == registry.entries()[device_idx as int].2,
        r matches Err(e) ==> e.kind == OCLErrorKind::InvalidDeviceIdx,
{
    let devices = match &registry.devices {
        Some(v) => v,
        None => {
            proof {
                assert(false);
            }
            return Err(Error::from_kind(OCLErrorKind::InvalidDeviceIdx));
        },
    };
    if device_idx >= devices.len() {
        return Err(Error::from_kind(OCLErrorKind::InvalidDeviceIdx));
    }
    let entry = &devices[device_idx];
    Ok((entry.1, entry.2))
}

} // verus!
