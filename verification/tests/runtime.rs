//! Device, frontier, and kernel-cache behaviour on a populated host.

use cl_runtime::api::cl::{create_buffer, DeviceType, MemFlags};
use cl_runtime::api::host::{Host, HostDevice, KernelArg};
use cl_runtime::api::cl::set_kernel_arg;
use cl_runtime::{CLDevice, DeviceRegistry, KernelCache};

fn gpu(name: &str, op_cost: u64) -> HostDevice {
    HostDevice {
        name: name.to_string(),
        version: "OpenCL 1.2".to_string(),
        global_mem: 4_000_000_000,
        max_mem_alloc: 1_000_000_000,
        unified_mem: false,
        kind: DeviceType::GPU,
        available: true,
        compiler_available: true,
        op_cost,
    }
}

fn one_gpu_host() -> (Host, CLDevice) {
    let mut host = Host::new();
    let platform = host.add_platform("vendor".to_string());
    let id = host.add_device(platform, gpu("gpu0", 5)).unwrap();
    let device = CLDevice::from_int_device(&mut host, id).unwrap();
    (host, device)
}

#[test]
fn test_get_fastest() {
    let mut host = Host::new();
    let platform = host.add_platform("vendor".to_string());
    host.add_device(platform, gpu("gpu0", 10)).unwrap();
    let device = CLDevice::fastest(&mut host).unwrap();
    create_buffer(
        &mut host,
        device.ctx(),
        MemFlags::MemReadWrite.bits(),
        10000,
        None,
    )
    .unwrap();
    println!("device name: {}", device.name(&host).unwrap());
    create_buffer(
        &mut host,
        device.ctx(),
        MemFlags::MemReadWrite.bits(),
        9423 * 123,
        None,
    )
    .unwrap();
    println!(
        "{}",
        device.device().get_global_mem(&host).unwrap() as f32 * 10f32.powf(-9.)
    );
}

#[test]
fn test_devices() {
    let mut host = Host::new();
    let platform = host.add_platform("vendor".to_string());
    host.add_device(platform, gpu("gpu0", 5)).unwrap();
    let mut registry = DeviceRegistry::new();
    cl_runtime::init_devices(&mut host, &mut registry).unwrap();
    println!("{:?}", registry.devices);
}

#[test]
fn test_kernel_cache() -> Result<(), cl_runtime::Error> {
    let mut host = Host::new();
    let platform = host.add_platform("vendor".to_string());
    host.add_device(platform, gpu("gpu0", 5)).unwrap();
    let mut registry = DeviceRegistry::new();
    let device = CLDevice::new(&mut host, &mut registry, 0)?;

    let mut kernel_cache = KernelCache::new();

    let kernel = kernel_cache
        .kernel(
            &mut host,
            &device.ctx,
            device.device,
            "
                __kernel void foo(__global float* test) {}
            ",
        )?
        .0;

    let same_kernel = kernel_cache
        .kernel(
            &mut host,
            &device.ctx,
            device.device,
            "
                __kernel void foo(__global float* test) {}
            ",
        )?
        .0;

    assert_eq!(kernel, same_kernel);

    let another_kernel = kernel_cache
        .kernel(
            &mut host,
            &device.ctx,
            device.device,
            "
                __kernel void bar(__global float* test, __global float* out) {}
            ",
        )?
        .0;

    assert_ne!(kernel, another_kernel);

    Ok(())
}

#[test]
fn cache_identity_through_device() {
    // Requesting a kernel twice through the device's cache yields the
    // identical kernel; a textually different source yields another one.
    let (mut host, mut device) = one_gpu_host();
    let k1 = device
        .kernel_for(&mut host, "__kernel void foo(...){}")
        .unwrap();
    let k2 = device
        .kernel_for(&mut host, "__kernel void foo(...){}")
        .unwrap();
    assert_eq!(k1.0, k2.0);
    let k3 = device
        .kernel_for(&mut host, "__kernel void foo(...){ }")
        .unwrap();
    assert_ne!(k1.0, k3.0);
}

#[test]
fn vector_addition_roundtrip() {
    // Build an add kernel over two 100-element buffers of ones and twos,
    // dispatch it once, read the output back: every element is 3.
    let (mut host, mut device) = one_gpu_host();
    let seeded = MemFlags::MemReadWrite.bits() | MemFlags::MemCopyHostPtr.bits();
    let ones = vec![1i32; 100];
    let twos = vec![2i32; 100];
    let lhs = create_buffer(&mut host, device.ctx(), seeded, 100, Some(&ones)).unwrap();
    let rhs = create_buffer(&mut host, device.ctx(), seeded, 100, Some(&twos)).unwrap();
    let out = create_buffer(&mut host, device.ctx(), MemFlags::MemReadWrite.bits(), 100, None)
        .unwrap();
    let kernel = device
        .kernel_for(
            &mut host,
            "__kernel void add(__global const int* a, __global const int* b, __global int* c) { int i = get_global_id(0); c[i] = a[i] + b[i]; }",
        )
        .unwrap();
    set_kernel_arg(&mut host, &kernel, 0, KernelArg::MemObject(lhs)).unwrap();
    set_kernel_arg(&mut host, &kernel, 1, KernelArg::MemObject(rhs)).unwrap();
    set_kernel_arg(&mut host, &kernel, 2, KernelArg::MemObject(out)).unwrap();
    device
        .enqueue_nd_range_kernel(&mut host, &kernel, 1, &[100, 0, 0], None, None)
        .unwrap();
    device.wait_for_events(&mut host).unwrap();
    let mut result = vec![0i32; 100];
    device
        .enqueue_read_buffer(&mut host, out, &mut result, true)
        .unwrap();
    assert_eq!(result.len(), 100);
    for value in result {
        assert_eq!(value, 3);
    }
}

#[test]
fn frontier_holds_one_newer_event_after_enqueue() {
    // After any enqueue the frontier holds exactly one event, and its
    // completion postdates the completion of what the frontier held.
    let (mut host, mut device) = one_gpu_host();
    let buf = create_buffer(&mut host, device.ctx(), MemFlags::MemReadWrite.bits(), 8, None)
        .unwrap();
    let data = vec![7i32; 8];
    let ev1 = device
        .enqueue_write_buffer(&mut host, buf, &data, false)
        .unwrap();
    assert_eq!(device.event_wait_list.len(), 1);
    assert_eq!(device.event_wait_list[0].0, ev1.0);
    let first_completion = host.events[ev1.0].complete_at;
    let ev2 = device
        .enqueue_write_buffer(&mut host, buf, &data, false)
        .unwrap();
    assert_eq!(device.event_wait_list.len(), 1);
    assert_eq!(device.event_wait_list[0].0, ev2.0);
    assert!(host.events[ev2.0].complete_at > first_completion);
}

#[test]
fn drain_empties_frontier_and_is_noop_when_empty() {
    let (mut host, mut device) = one_gpu_host();
    // Draining an empty frontier succeeds at once and moves nothing.
    let clock_before = host.clock;
    device.wait_for_events(&mut host).unwrap();
    assert_eq!(device.event_wait_list.len(), 0);
    assert_eq!(host.clock, clock_before);
    // After an enqueue, draining blocks until the pending event completes.
    let buf = create_buffer(&mut host, device.ctx(), MemFlags::MemReadWrite.bits(), 8, None)
        .unwrap();
    let data = vec![1i32; 8];
    let ev = device
        .enqueue_write_buffer(&mut host, buf, &data, false)
        .unwrap();
    let completion = host.events[ev.0].complete_at;
    device.wait_for_events(&mut host).unwrap();
    assert_eq!(device.event_wait_list.len(), 0);
    assert!(host.clock >= completion);
}

#[test]
fn independent_devices_do_not_block_each_other() {
    // Two devices, one launch each, drained independently: neither
    // frontier ever refers to the other's event.
    let mut host = Host::new();
    let platform = host.add_platform("vendor".to_string());
    let id_a = host.add_device(platform, gpu("gpu0", 5)).unwrap();
    let id_b = host.add_device(platform, gpu("gpu1", 9)).unwrap();
    let mut dev_a = CLDevice::from_int_device(&mut host, id_a).unwrap();
    let mut dev_b = CLDevice::from_int_device(&mut host, id_b).unwrap();
    let src = "__kernel void add(__global const int* a, __global const int* b, __global int* c) { int i = get_global_id(0); c[i] = a[i] + b[i]; }";
    let seeded = MemFlags::MemReadWrite.bits() | MemFlags::MemCopyHostPtr.bits();
    let ones = vec![1i32; 16];
    let mut outputs = Vec::new();
    for device in [&mut dev_a, &mut dev_b] {
        let lhs = create_buffer(&mut host, device.ctx(), seeded, 16, Some(&ones)).unwrap();
        let rhs = create_buffer(&mut host, device.ctx(), seeded, 16, Some(&ones)).unwrap();
        let out =
            create_buffer(&mut host, device.ctx(), MemFlags::MemReadWrite.bits(), 16, None)
                .unwrap();
        let kernel = device.kernel_for(&mut host, src).unwrap();
        set_kernel_arg(&mut host, &kernel, 0, KernelArg::MemObject(lhs)).unwrap();
        set_kernel_arg(&mut host, &kernel, 1, KernelArg::MemObject(rhs)).unwrap();
        set_kernel_arg(&mut host, &kernel, 2, KernelArg::MemObject(out)).unwrap();
        device
            .enqueue_nd_range_kernel(&mut host, &kernel, 1, &[16, 0, 0], None, None)
            .unwrap();
        outputs.push(out);
    }
    assert_eq!(dev_a.event_wait_list.len(), 1);
    assert_eq!(dev_b.event_wait_list.len(), 1);
    assert_ne!(dev_a.event_wait_list[0].0, dev_b.event_wait_list[0].0);
    dev_a.wait_for_events(&mut host).unwrap();
    assert_eq!(dev_a.event_wait_list.len(), 0);
    assert_eq!(dev_b.event_wait_list.len(), 1);
    dev_b.wait_for_events(&mut host).unwrap();
    assert_eq!(dev_b.event_wait_list.len(), 0);
    let mut result_a = vec![0i32; 16];
    dev_a
        .enqueue_read_buffer(&mut host, outputs[0], &mut result_a, true)
        .unwrap();
    let mut result_b = vec![0i32; 16];
    dev_b
        .enqueue_read_buffer(&mut host, outputs[1], &mut result_b, true)
        .unwrap();
    assert_eq!(result_a, vec![2i32; 16]);
    assert_eq!(result_b, vec![2i32; 16]);
}

#[test]
fn failed_enqueue_leaves_frontier_unchanged() {
    let (mut host, mut device) = one_gpu_host();
    let buf = create_buffer(&mut host, device.ctx(), MemFlags::MemReadWrite.bits(), 8, None)
        .unwrap();
    let data = vec![1i32; 8];
    let ev = device
        .enqueue_write_buffer(&mut host, buf, &data, false)
        .unwrap();
    // Writing more data than the buffer holds fails and must not touch
    // the frontier.
    let too_long = vec![1i32; 9];
    let err = device
        .enqueue_write_buffer(&mut host, buf, &too_long, false)
        .unwrap_err();
    assert_eq!(err.kind, cl_runtime::OCLErrorKind::InvalidValue);
    assert_eq!(device.event_wait_list.len(), 1);
    assert_eq!(device.event_wait_list[0].0, ev.0);
}
