//! Buffer transfers, batched copies, mapping, and event lifetimes.

use cl_runtime::api::cl::{
    create_buffer, enqueue_copy_buffers, finish, get_platform_info, get_platforms,
    release_mem_object, retain_mem_object, wait_for_event, DeviceType, MemFlags, PlatformInfo,
};
use cl_runtime::api::host::{Host, HostDevice};
use cl_runtime::{CLDevice, OCLErrorKind};

fn accel(name: &str, op_cost: u64) -> HostDevice {
    HostDevice {
        name: name.to_string(),
        version: "OpenCL 3.0".to_string(),
        global_mem: 1_000_000,
        max_mem_alloc: 500_000,
        unified_mem: true,
        kind: DeviceType::ACCELERATOR,
        available: true,
        compiler_available: true,
        op_cost,
    }
}

fn accel_host() -> (Host, CLDevice) {
    let mut host = Host::new();
    let platform = host.add_platform("accel vendor".to_string());
    let id = host.add_device(platform, accel("accel0", 3)).unwrap();
    let device = CLDevice::from_int_device(&mut host, id).unwrap();
    (host, device)
}

#[test]
fn full_copy_moves_contents() {
    let (mut host, mut device) = accel_host();
    let seeded = MemFlags::MemReadWrite.bits() | MemFlags::MemCopyHostPtr.bits();
    let data = vec![4i32, 8, 15, 16, 23, 42];
    let src = create_buffer(&mut host, device.ctx(), seeded, 6, Some(&data)).unwrap();
    let dst = create_buffer(&mut host, device.ctx(), MemFlags::MemReadWrite.bits(), 6, None)
        .unwrap();
    device
        .enqueue_full_copy_buffer(&mut host, src, dst, 6)
        .unwrap();
    device.wait_for_events(&mut host).unwrap();
    let mut readback = vec![0i32; 6];
    device
        .enqueue_read_buffer(&mut host, dst, &mut readback, true)
        .unwrap();
    assert_eq!(readback, data);
}

#[test]
fn batched_copies_apply_in_order() {
    let (mut host, device) = accel_host();
    let seeded = MemFlags::MemReadWrite.bits() | MemFlags::MemCopyHostPtr.bits();
    let data = vec![1i32, 2, 3, 4];
    let src = create_buffer(&mut host, device.ctx(), seeded, 4, Some(&data)).unwrap();
    let dst = create_buffer(&mut host, device.ctx(), MemFlags::MemReadWrite.bits(), 8, None)
        .unwrap();
    // (source offset, destination offset, size)
    let ops = [(0usize, 0usize, 4usize), (1, 4, 3), (0, 7, 1)];
    enqueue_copy_buffers(&mut host, device.queue(), src, dst, &ops, None).unwrap();
    let region = device.unified_ptr(&mut host, dst, 8).unwrap();
    assert_eq!(region, vec![1, 2, 3, 4, 2, 3, 4, 1]);
    // An empty batch succeeds and does nothing.
    enqueue_copy_buffers(&mut host, device.queue(), src, dst, &[], None).unwrap();
}

#[test]
fn mapping_returns_region_contents() {
    let (mut host, device) = accel_host();
    let seeded = MemFlags::MemReadWrite.bits() | MemFlags::MemCopyHostPtr.bits();
    let data = vec![9i32, 7, 5, 3, 1];
    let buf = create_buffer(&mut host, device.ctx(), seeded, 5, Some(&data)).unwrap();
    let region = device.unified_ptr(&mut host, buf, 5).unwrap();
    assert_eq!(region, data);
}

#[test]
fn waiting_on_a_released_event_fails() {
    let (mut host, mut device) = accel_host();
    let buf = create_buffer(&mut host, device.ctx(), MemFlags::MemReadWrite.bits(), 4, None)
        .unwrap();
    let data = vec![1i32; 4];
    let ev = device
        .enqueue_write_buffer(&mut host, buf, &data, false)
        .unwrap();
    // Waiting on the live event any number of times is fine.
    wait_for_event(&mut host, &ev).unwrap();
    wait_for_event(&mut host, &ev).unwrap();
    // Draining releases the frontier's event; the stale handle is then
    // rejected.
    device.wait_for_events(&mut host).unwrap();
    let err = wait_for_event(&mut host, &ev).unwrap_err();
    assert_eq!(err.kind, OCLErrorKind::InvalidEvent);
}

#[test]
fn finish_waits_for_the_whole_queue() {
    let (mut host, mut device) = accel_host();
    let buf = create_buffer(&mut host, device.ctx(), MemFlags::MemReadWrite.bits(), 4, None)
        .unwrap();
    let data = vec![2i32; 4];
    let ev = device
        .enqueue_write_buffer(&mut host, buf, &data, false)
        .unwrap();
    let completion = host.events[ev.0].complete_at;
    assert!(host.clock < completion);
    finish(&mut host, device.queue()).unwrap();
    assert!(host.clock >= completion);
}

#[test]
fn retain_extends_a_buffer_lifetime() {
    let (mut host, device) = accel_host();
    let buf = create_buffer(&mut host, device.ctx(), MemFlags::MemReadWrite.bits(), 4, None)
        .unwrap();
    retain_mem_object(&mut host, buf).unwrap();
    release_mem_object(&mut host, buf).unwrap();
    // One reference is still held, so the buffer is still usable.
    let region = device.unified_ptr(&mut host, buf, 4).unwrap();
    assert_eq!(region, vec![0i32; 4]);
    release_mem_object(&mut host, buf).unwrap();
    let err = release_mem_object(&mut host, buf).unwrap_err();
    assert_eq!(err.kind, OCLErrorKind::InvalidMemObject);
}

#[test]
fn platform_queries() {
    let mut host = Host::new();
    let p1 = host.add_platform("first vendor".to_string());
    let p2 = host.add_platform("second vendor".to_string());
    let platforms = get_platforms(&host).unwrap();
    assert_eq!(platforms.len(), 2);
    assert_eq!(platforms[0].as_ptr(), p1.as_ptr());
    assert_eq!(
        get_platform_info(&host, platforms[0], PlatformInfo::PlatformName).unwrap(),
        "first vendor"
    );
    assert_eq!(
        get_platform_info(&host, platforms[1], PlatformInfo::PlatformName).unwrap(),
        "second vendor"
    );
    let err = get_platform_info(
        &host,
        cl_runtime::api::cl::Platform(9),
        PlatformInfo::PlatformName,
    )
    .unwrap_err();
    assert_eq!(err.kind, OCLErrorKind::InvalidPlatform);
    assert_eq!(p2.as_ptr(), 1);
}
