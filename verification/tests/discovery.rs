//! Discovery, benchmark-driven selection, the device registry, and the
//! error taxonomy.

use cl_runtime::api::cl::{
    create_buffer, create_context, enqueue_copy_buffer, get_device_info, release_mem_object,
    DeviceInfo, DeviceType, MemFlags,
};
use cl_runtime::api::host::{Host, HostDevice};
use cl_runtime::api::source::count_entries;
use cl_runtime::{
    extract_indices_from_device_idx, fastest_of, init_devices, measure_perf, measured_devices,
    CLDevice, DeviceRegistry, OCLErrorKind,
};

fn device(name: &str, kind: DeviceType, op_cost: u64) -> HostDevice {
    HostDevice {
        name: name.to_string(),
        version: "OpenCL 1.2".to_string(),
        global_mem: 8_000_000_000,
        max_mem_alloc: 2_000_000_000,
        unified_mem: kind == DeviceType::CPU,
        kind,
        available: true,
        compiler_available: true,
        op_cost,
    }
}

#[test]
fn fastest_picks_minimum_duration() {
    let mut host = Host::new();
    let platform = host.add_platform("vendor".to_string());
    host.add_device(platform, device("slow", DeviceType::GPU, 9)).unwrap();
    host.add_device(platform, device("quick", DeviceType::GPU, 3)).unwrap();
    host.add_device(platform, device("middling", DeviceType::GPU, 5)).unwrap();
    let chosen = CLDevice::fastest(&mut host).unwrap();
    assert_eq!(chosen.name(&host).unwrap(), "quick");
}

#[test]
fn fastest_breaks_ties_towards_discovery_order() {
    let entries_first_min = vec![
        (30u64, 0usize, 0usize),
        (10u64, 0usize, 1usize),
        (10u64, 0usize, 2usize),
    ];
    // Build real measured entries with those durations and check the
    // selected index is the first minimum.
    let mut host = Host::new();
    let platform = host.add_platform("vendor".to_string());
    host.add_device(platform, device("a", DeviceType::GPU, 3)).unwrap();
    host.add_device(platform, device("b", DeviceType::GPU, 1)).unwrap();
    host.add_device(platform, device("c", DeviceType::GPU, 1)).unwrap();
    let measured = measured_devices(&mut host).unwrap();
    assert_eq!(measured.len(), 3);
    for (k, entry) in measured.iter().enumerate() {
        assert_eq!(entry.0, entries_first_min[k].0);
    }
    let best = fastest_of(&measured).unwrap();
    assert_eq!(best, 1);
}

#[test]
fn fastest_on_empty_registry_fails_without_panic() {
    let mut host = Host::new();
    host.add_platform("bare vendor".to_string());
    let err = CLDevice::fastest(&mut host).unwrap_err();
    assert_eq!(err.kind, OCLErrorKind::InvalidDevice);
}

#[test]
fn benchmark_duration_is_ten_rounds() {
    let mut host = Host::new();
    let platform = host.add_platform("vendor".to_string());
    let id = host.add_device(platform, device("gpu", DeviceType::GPU, 7)).unwrap();
    let dev = CLDevice::from_int_device(&mut host, id).unwrap();
    let duration = measure_perf(&mut host, &dev).unwrap();
    assert_eq!(duration, 70);
}

#[test]
fn discovery_skips_broken_devices() {
    let mut host = Host::new();
    let platform = host.add_platform("vendor".to_string());
    let mut bad = device("unavailable", DeviceType::GPU, 2);
    bad.available = false;
    host.add_device(platform, bad).unwrap();
    let mut mute = device("no compiler", DeviceType::GPU, 2);
    mute.compiler_available = false;
    host.add_device(platform, mute).unwrap();
    host.add_device(platform, device("good", DeviceType::GPU, 4)).unwrap();
    let measured = measured_devices(&mut host).unwrap();
    assert_eq!(measured.len(), 1);
    assert_eq!(measured[0].2, 2);
    assert_eq!(measured[0].0, 40);
}

#[test]
fn discovery_lists_gpus_before_cpus() {
    let mut host = Host::new();
    let platform = host.add_platform("vendor".to_string());
    host.add_device(platform, device("cpu", DeviceType::CPU, 8)).unwrap();
    host.add_device(platform, device("gpu", DeviceType::GPU, 6)).unwrap();
    host.add_device(platform, device("accel", DeviceType::ACCELERATOR, 4)).unwrap();
    let all = cl_runtime::all_devices(&host).unwrap();
    assert_eq!(all.len(), 1);
    let listing = &all[0];
    assert_eq!(listing.len(), 3);
    let names: Vec<String> = listing
        .iter()
        .map(|d| d.get_name(&host).unwrap())
        .collect();
    assert_eq!(names, vec!["gpu", "accel", "cpu"]);
}

#[test]
fn device_index_resolution_bounds() {
    // For a registry of N devices, resolution succeeds below N and fails
    // with the out-of-range error at and beyond N.
    let mut host = Host::new();
    let platform = host.add_platform("vendor".to_string());
    host.add_device(platform, device("d0", DeviceType::GPU, 2)).unwrap();
    host.add_device(platform, device("d1", DeviceType::GPU, 3)).unwrap();
    let mut registry = DeviceRegistry::new();
    init_devices(&mut host, &mut registry).unwrap();
    let n = registry.devices.as_ref().unwrap().len();
    assert_eq!(n, 2);
    for i in 0..n {
        let (p, d) = extract_indices_from_device_idx(&registry, i).unwrap();
        assert_eq!(p, 0);
        assert_eq!(d, i);
    }
    let err = extract_indices_from_device_idx(&registry, n).unwrap_err();
    assert_eq!(err.kind, OCLErrorKind::InvalidDeviceIdx);
    let err = extract_indices_from_device_idx(&registry, n + 5).unwrap_err();
    assert_eq!(err.kind, OCLErrorKind::InvalidDeviceIdx);
}

#[test]
fn init_devices_is_init_once() {
    let mut host = Host::new();
    let platform = host.add_platform("vendor".to_string());
    host.add_device(platform, device("d0", DeviceType::GPU, 2)).unwrap();
    let mut registry = DeviceRegistry::new();
    init_devices(&mut host, &mut registry).unwrap();
    let first_len = registry.devices.as_ref().unwrap().len();
    // A second initialization leaves the registry untouched, even though
    // the host has gained a device since.
    host.add_device(platform, device("late", DeviceType::GPU, 1)).unwrap();
    init_devices(&mut host, &mut registry).unwrap();
    assert_eq!(registry.devices.as_ref().unwrap().len(), first_len);
}

#[test]
fn device_new_resolves_through_registry() {
    let mut host = Host::new();
    let platform = host.add_platform("vendor".to_string());
    host.add_device(platform, device("d0", DeviceType::GPU, 2)).unwrap();
    host.add_device(platform, device("d1", DeviceType::GPU, 3)).unwrap();
    let mut registry = DeviceRegistry::new();
    let dev = CLDevice::new(&mut host, &mut registry, 1).unwrap();
    assert_eq!(dev.name(&host).unwrap(), "d1");
    let err = CLDevice::new(&mut host, &mut registry, 2).unwrap_err();
    assert_eq!(err.kind, OCLErrorKind::InvalidDeviceIdx);
}

#[test]
fn build_failure_carries_build_log() {
    let mut host = Host::new();
    let platform = host.add_platform("vendor".to_string());
    let mut mute = device("no compiler", DeviceType::GPU, 2);
    mute.compiler_available = false;
    let id = host.add_device(platform, mute).unwrap();
    let mut dev = CLDevice::from_int_device(&mut host, id).unwrap();
    let err = dev
        .kernel_for(&mut host, "__kernel void foo(__global int* a) {}")
        .unwrap_err();
    assert_eq!(err.kind, OCLErrorKind::CompilerNotAvailable);
    let log = err.build_log.unwrap();
    assert!(log.contains("compiler"));
}

#[test]
fn source_without_entry_point_is_invalid_kernel() {
    let mut host = Host::new();
    let platform = host.add_platform("vendor".to_string());
    let id = host.add_device(platform, device("gpu", DeviceType::GPU, 2)).unwrap();
    let mut dev = CLDevice::from_int_device(&mut host, id).unwrap();
    let err = dev.kernel_for(&mut host, "int helper(int a) { return a; }").unwrap_err();
    assert_eq!(err.kind, OCLErrorKind::InvalidKernel);
}

#[test]
fn entry_point_counting() {
    assert_eq!(count_entries(""), 0);
    assert_eq!(count_entries("void foo() {}"), 0);
    assert_eq!(count_entries("__kernel void foo() {}"), 1);
    assert_eq!(count_entries("__kernel void a() {} __kernel void b() {}"), 2);
    assert_eq!(count_entries("__kerne"), 0);
    assert_eq!(count_entries("____kernel"), 1);
}

#[test]
fn error_taxonomy_maps_codes() {
    assert_eq!(OCLErrorKind::from_value(-1), OCLErrorKind::DeviceNotFound);
    assert_eq!(OCLErrorKind::from_value(-3), OCLErrorKind::CompilerNotAvailable);
    assert_eq!(OCLErrorKind::from_value(-48), OCLErrorKind::InvalidKernel);
    assert_eq!(OCLErrorKind::from_value(-52), OCLErrorKind::InvalidKernelArgs);
    assert_eq!(OCLErrorKind::from_value(-70), OCLErrorKind::InvalidDeviceQueue);
    assert_eq!(OCLErrorKind::from_value(-1001), OCLErrorKind::PlatformNotFoundKHR);
    assert_eq!(OCLErrorKind::from_value(-20), OCLErrorKind::Unknown);
    assert_eq!(OCLErrorKind::from_value(0), OCLErrorKind::Unknown);
    assert_eq!(OCLErrorKind::from_value(-9999), OCLErrorKind::Unknown);
    assert_eq!(
        OCLErrorKind::DeviceNotFound.as_str(),
        "(-1 DeviceNotFound) No OpenCL device found"
    );
    assert_eq!(
        OCLErrorKind::InvalidDeviceIdx.as_str(),
        "Invalid device idx, specific OpenCL device not found"
    );
}

#[test]
fn device_info_queries() {
    let mut host = Host::new();
    let platform = host.add_platform("vendor".to_string());
    let id = host.add_device(platform, device("gizmo", DeviceType::GPU, 2)).unwrap();
    assert_eq!(id.get_name(&host).unwrap(), "gizmo");
    assert_eq!(id.get_version(&host).unwrap(), "OpenCL 1.2");
    assert_eq!(id.get_global_mem(&host).unwrap(), 8_000_000_000);
    assert_eq!(id.get_max_mem_alloc(&host).unwrap(), 2_000_000_000);
    assert!(!id.unified_mem(&host).unwrap());
    let info = get_device_info(&host, id, DeviceInfo::GlobalMemSize).unwrap();
    assert_eq!(info.size, 8_000_000_000);
    assert_eq!(info.data.len(), 8);
    let mut decoded: u64 = 0;
    for (k, byte) in info.data.iter().enumerate() {
        decoded |= (*byte as u64) << (8 * k as u32);
    }
    assert_eq!(decoded, 8_000_000_000);
}

#[test]
fn buffer_creation_validation() {
    let mut host = Host::new();
    let platform = host.add_platform("vendor".to_string());
    let id = host.add_device(platform, device("gpu", DeviceType::GPU, 2)).unwrap();
    let dev = CLDevice::from_int_device(&mut host, id).unwrap();
    let err = create_buffer(&mut host, dev.ctx(), MemFlags::MemReadWrite.bits(), 0, None)
        .unwrap_err();
    assert_eq!(err.kind, OCLErrorKind::InvalidBufferSize);
    let seeded = vec![1i32; 4];
    let err = create_buffer(
        &mut host,
        dev.ctx(),
        MemFlags::MemReadWrite.bits(),
        4,
        Some(&seeded),
    )
    .unwrap_err();
    assert_eq!(err.kind, OCLErrorKind::InvalidHostPtr);
    let err = create_context(&mut host, &[]).unwrap_err();
    assert_eq!(err.kind, OCLErrorKind::InvalidValue);
}

#[test]
fn overlapping_copy_is_rejected() {
    let mut host = Host::new();
    let platform = host.add_platform("vendor".to_string());
    let id = host.add_device(platform, device("gpu", DeviceType::GPU, 2)).unwrap();
    let dev = CLDevice::from_int_device(&mut host, id).unwrap();
    let seeded = MemFlags::MemReadWrite.bits() | MemFlags::MemCopyHostPtr.bits();
    let data = vec![5i32; 10];
    let buf = create_buffer(&mut host, dev.ctx(), seeded, 10, Some(&data)).unwrap();
    let err = enqueue_copy_buffer(&mut host, dev.queue(), buf, buf, 0, 2, 5, None).unwrap_err();
    assert_eq!(err.kind, OCLErrorKind::MemCopyOverlap);
    // A non-overlapping copy within one buffer is fine.
    enqueue_copy_buffer(&mut host, dev.queue(), buf, buf, 0, 5, 5, None).unwrap();
}

#[test]
fn launch_validation_errors() {
    let mut host = Host::new();
    let platform = host.add_platform("vendor".to_string());
    let id = host.add_device(platform, device("gpu", DeviceType::GPU, 2)).unwrap();
    let mut dev = CLDevice::from_int_device(&mut host, id).unwrap();
    let kernel = dev
        .kernel_for(&mut host, "__kernel void add(__global int* a) {}")
        .unwrap();
    // No arguments set yet.
    let err = dev
        .enqueue_nd_range_kernel(&mut host, &kernel, 1, &[4, 0, 0], None, None)
        .unwrap_err();
    assert_eq!(err.kind, OCLErrorKind::InvalidKernelArgs);
    // A work dimension outside 1..=3 is rejected first.
    let err = dev
        .enqueue_nd_range_kernel(&mut host, &kernel, 0, &[4, 0, 0], None, None)
        .unwrap_err();
    assert_eq!(err.kind, OCLErrorKind::InvalidWorkDimension);
}

#[test]
fn release_is_exactly_once() {
    let mut host = Host::new();
    let platform = host.add_platform("vendor".to_string());
    let id = host.add_device(platform, device("gpu", DeviceType::GPU, 2)).unwrap();
    let dev = CLDevice::from_int_device(&mut host, id).unwrap();
    let buf = create_buffer(&mut host, dev.ctx(), MemFlags::MemReadWrite.bits(), 4, None)
        .unwrap();
    release_mem_object(&mut host, buf).unwrap();
    let err = release_mem_object(&mut host, buf).unwrap_err();
    assert_eq!(err.kind, OCLErrorKind::InvalidMemObject);
    let ctx = *dev.ctx();
    let queue = *dev.queue();
    dev.release(&mut host).unwrap();
    assert!(!host.contexts[ctx.0].live);
    assert!(!host.queues[queue.0].live);
}
