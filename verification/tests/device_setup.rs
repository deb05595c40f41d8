use vk_compute_bench::setup::{
    device_line, device_local_mebibytes, driver_line, memory_line, pick_device,
    pick_queue_family, teardown, Heap, Reply, SetupAction, SetupError, SetupStage, TeardownAction,
};
use vk_compute_bench::text::append_decimal;
use vk_compute_bench::vulkan::{
    BIND_POINT_COMPUTE, BOTTOM_OF_PIPE, DESCRIPTOR_STORAGE_BUFFER, DISCRETE_GPU,
    HEAP_DEVICE_LOCAL, INTEGRATED_GPU, LEVEL_PRIMARY, NO_FLAGS, POOL_RESET_COMMAND_BUFFER,
    QUERY_TIMESTAMP, QUEUE_COMPUTE, RESULT_64, SHARING_EXCLUSIVE, STAGE_COMPUTE, TOP_OF_PIPE,
    USAGE_ONE_TIME_SUBMIT,
};

fn other() -> i32 {
    ash::vk::PhysicalDeviceType::CPU.as_raw()
}

#[test]
fn values_are_those_of_the_bindings() {
    assert_eq!(DISCRETE_GPU, ash::vk::PhysicalDeviceType::DISCRETE_GPU.as_raw());
    assert_eq!(INTEGRATED_GPU, ash::vk::PhysicalDeviceType::INTEGRATED_GPU.as_raw());
    assert_eq!(QUEUE_COMPUTE, ash::vk::QueueFlags::COMPUTE.as_raw());
    assert_eq!(HEAP_DEVICE_LOCAL, ash::vk::MemoryHeapFlags::DEVICE_LOCAL.as_raw());
}

#[test]
fn kinds_and_flags_of_calls_are_those_of_the_bindings() {
    assert_eq!(SHARING_EXCLUSIVE, ash::vk::SharingMode::EXCLUSIVE.as_raw());
    assert_eq!(DESCRIPTOR_STORAGE_BUFFER, ash::vk::DescriptorType::STORAGE_BUFFER.as_raw());
    assert_eq!(STAGE_COMPUTE, ash::vk::ShaderStageFlags::COMPUTE.as_raw());
    assert_eq!(BIND_POINT_COMPUTE, ash::vk::PipelineBindPoint::COMPUTE.as_raw());
    assert_eq!(
        POOL_RESET_COMMAND_BUFFER,
        ash::vk::CommandPoolCreateFlags::RESET_COMMAND_BUFFER.as_raw()
    );
    assert_eq!(LEVEL_PRIMARY, ash::vk::CommandBufferLevel::PRIMARY.as_raw());
    assert_eq!(
        USAGE_ONE_TIME_SUBMIT,
        ash::vk::CommandBufferUsageFlags::ONE_TIME_SUBMIT.as_raw()
    );
    assert_eq!(QUERY_TIMESTAMP, ash::vk::QueryType::TIMESTAMP.as_raw());
    assert_eq!(RESULT_64, ash::vk::QueryResultFlags::TYPE_64.as_raw());
    assert_eq!(TOP_OF_PIPE, ash::vk::PipelineStageFlags::TOP_OF_PIPE.as_raw());
    assert_eq!(BOTTOM_OF_PIPE, ash::vk::PipelineStageFlags::BOTTOM_OF_PIPE.as_raw());
    assert_eq!(NO_FLAGS, ash::vk::CommandBufferResetFlags::empty().as_raw());
    assert_eq!(NO_FLAGS, ash::vk::FenceCreateFlags::empty().as_raw());
}

#[test]
fn discrete_gpu_is_preferred() {
    let types = vec![other(), INTEGRATED_GPU, DISCRETE_GPU, DISCRETE_GPU];
    assert_eq!(pick_device(&types), Some(2));
}

#[test]
fn integrated_gpu_comes_second() {
    let types = vec![other(), INTEGRATED_GPU, other(), INTEGRATED_GPU];
    assert_eq!(pick_device(&types), Some(1));
}

#[test]
fn first_device_comes_last() {
    assert_eq!(pick_device(&vec![other(), 0, 3]), Some(0));
    assert_eq!(pick_device(&vec![]), None);
}

#[test]
fn first_computing_family_is_taken() {
    assert_eq!(pick_queue_family(&vec![1, 4, 6, 2]), Some(2));
    assert_eq!(pick_queue_family(&vec![7]), Some(0));
    assert_eq!(pick_queue_family(&vec![1, 4, 8]), None);
    assert_eq!(pick_queue_family(&vec![]), None);
}

#[test]
fn local_heaps_are_added_up() {
    let mib = 1024 * 1024u64;
    let heaps = vec![
        Heap { size: 512 * mib, flags: 1 },
        Heap { size: 16384 * mib, flags: 0 },
        Heap { size: 2 * mib - 1, flags: 3 },
        Heap { size: mib, flags: 2 },
    ];
    assert_eq!(device_local_mebibytes(&heaps), 513);
    assert_eq!(device_local_mebibytes(&vec![]), 0);
    let huge = vec![Heap { size: u64::MAX, flags: 1 }; 16];
    assert_eq!(device_local_mebibytes(&huge), 16 * (u64::MAX / mib));
}

#[test]
fn numbers_are_written_in_decimal() {
    for n in [0, 9, 10, 100, 65536, 4294967296, u64::MAX] {
        let mut text = String::from("n = ");
        append_decimal(&mut text, n);
        assert_eq!(text, format!("n = {}", n));
    }
}

#[test]
fn lines_for_the_user() {
    let version = ash::vk::make_api_version(0, 24, 2, 8);
    assert_eq!(device_line("AMD Radeon 890M"), "Device: AMD Radeon 890M");
    assert_eq!(device_line(""), "Device: ");
    assert_eq!(driver_line(version), "Driver: 24.2.8");
    assert_eq!(driver_line(u32::MAX), "Driver: 127.1023.4095");
    assert_eq!(memory_line(513), "VRAM (device-local heaps): 513 MB");
}

#[test]
fn setup_runs_to_its_end() {
    let mut stage = SetupStage::Entry;
    let mut actions = Vec::new();
    while !matches!(stage, SetupStage::Ready { .. }) {
        let action = stage.action();
        actions.push(action);
        let reply = match action {
            SetupAction::ListDevices => Reply::DeviceTypes(vec![INTEGRATED_GPU, DISCRETE_GPU]),
            SetupAction::ListQueueFamilies { .. } => Reply::QueueFlags(vec![4, 3]),
            SetupAction::ListHeaps { .. } => {
                Reply::Heaps(vec![Heap { size: 1 << 30, flags: 1 }])
            }
            _ => Reply::Done,
        };
        stage = match stage.advance(reply) {
            Ok(next) => next,
            Err(e) => panic!("{}", e.message()),
        };
    }
    assert_eq!(stage, SetupStage::Ready { device: 1, family: 1, mebibytes: 1024 });
    assert_eq!(stage.action(), SetupAction::Ready);
    assert_eq!(
        actions,
        vec![
            SetupAction::LoadEntry,
            SetupAction::CreateInstance {
                application_name: "vk-compute-bench",
                engine_name: "none",
                application_version: 1 << 22,
                api_version: ash::vk::API_VERSION_1_1,
            },
            SetupAction::ListDevices,
            SetupAction::ShowProperties { device: 1 },
            SetupAction::ListQueueFamilies { device: 1 },
            SetupAction::CreateDevice {
                device: 1,
                family: 1,
                queues: 1,
                priority: 1.0f32.to_bits(),
                queue: 0,
            },
            SetupAction::CreateCommandPool { family: 1, flags: 2 },
            SetupAction::CreateAllocator { device: 1, addresses: false },
            SetupAction::ListHeaps { device: 1 },
        ]
    );
}

fn refused(stage: SetupStage, reply: Reply) -> String {
    match stage.advance(reply) {
        Ok(_) => panic!("accepted"),
        Err(e) => e.message(),
    }
}

fn failed() -> Reply {
    Reply::Failed(String::from("ERROR_X"))
}

#[test]
fn setup_failures_are_explained() {
    assert_eq!(
        refused(SetupStage::Entry, failed()),
        "Failed to load Vulkan entry point: ERROR_X"
    );
    assert_eq!(
        refused(SetupStage::Instance, failed()),
        "Failed to create Vulkan instance: ERROR_X"
    );
    assert_eq!(
        refused(SetupStage::Devices, failed()),
        "Failed to enumerate devices: ERROR_X"
    );
    assert_eq!(
        refused(SetupStage::Devices, Reply::DeviceTypes(vec![])),
        "No Vulkan physical devices found"
    );
    assert_eq!(
        refused(SetupStage::Families { device: 0 }, Reply::QueueFlags(vec![1, 4])),
        "No compute queue family found"
    );
    assert_eq!(
        refused(SetupStage::Device { device: 0, family: 0 }, failed()),
        "Failed to create device: ERROR_X"
    );
    assert_eq!(
        refused(SetupStage::CommandPool { device: 0, family: 0 }, failed()),
        "Failed to create command pool: ERROR_X"
    );
    assert_eq!(
        refused(SetupStage::Allocator { device: 0, family: 0 }, failed()),
        "Failed to create allocator: ERROR_X"
    );
}

#[test]
fn replies_out_of_turn_are_refused() {
    for stage in [
        SetupStage::Properties { device: 0 },
        SetupStage::Families { device: 0 },
        SetupStage::Heaps { device: 0, family: 0 },
        SetupStage::Ready { device: 0, family: 0, mebibytes: 0 },
    ] {
        assert!(matches!(stage.advance(failed()), Err(SetupError::OutOfTurn)));
    }
    assert!(matches!(
        SetupStage::Devices.advance(Reply::Done),
        Err(SetupError::OutOfTurn)
    ));
    assert_eq!(
        refused(SetupStage::Entry, Reply::Heaps(vec![])),
        "Unexpected reply from the device"
    );
}

#[test]
fn allocator_goes_before_the_device() {
    assert_eq!(
        teardown(),
        vec![
            TeardownAction::WaitIdle,
            TeardownAction::DestroyCommandPool,
            TeardownAction::DropAllocator,
            TeardownAction::DestroyDevice,
            TeardownAction::DestroyInstance,
        ]
    );
}
