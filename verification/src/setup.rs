//! Setting up the device: which physical device and which queue family to take, and
//! in which order everything is created and, at the end, destroyed.

use vstd::prelude::*;
use crate::text::{append_decimal, decimal};
use crate::vulkan::{heap_flags_contain, queue_flags_contain, same_device_type};
use crate::vulkan::{DISCRETE_GPU, HEAP_DEVICE_LOCAL, INTEGRATED_GPU, QUEUE_COMPUTE};
use crate::vulkan::POOL_RESET_COMMAND_BUFFER;
use ash::vk::{api_version_major, api_version_minor, api_version_patch, make_api_version};

verus! {

/// The number of memory heaps that a device can have.
pub const MAX_MEMORY_HEAPS: usize = 16;

/// The bytes of a mebibyte.
pub const MEBIBYTE: u64 = 1048576;

/// The name that the program gives itself.
pub const APPLICATION_NAME: &'static str = "vk-compute-bench";

/// The name of the engine that the program gives.
pub const ENGINE_NAME: &'static str = "none";

/// The bits of the 32-bit float 1.0, the priority of the queue.
pub const QUEUE_PRIORITY_BITS: u32 = 0x3f80_0000;

/// A memory heap, with its flags as the device gives them.
#[derive(Clone, Copy, Debug, PartialEq, Eq, Structural)]
pub struct Heap {
    pub size: u64,
    pub flags: u32,
}

/// The first element of `s` that is `x`.
pub open spec fn is_first(s: Seq<i32>, x: i32, i: int) -> bool {
    &&& 0 <= i < s.len()
    &&& s[i] == x
    &&& forall|j: int| 0 <= j < i ==> s[j] != x
}

/// Device `i` is the one to take: the first discrete GPU, without one the first
/// integrated GPU, without either the first device.
pub open spec fn preferred(types: Seq<i32>, i: int) -> bool {
    if types.contains(DISCRETE_GPU) {
        is_first(types, DISCRETE_GPU, i)
    } else if types.contains(INTEGRATED_GPU) {
        is_first(types, INTEGRATED_GPU, i)
    } else {
        i == 0
    }
}

/// Family `i` is the first whose queues compute.
pub open spec fn first_compute_family(flags: Seq<u32>, i: int) -> bool {
    &&& 0 <= i < flags.len()
    &&& flags[i] & QUEUE_COMPUTE == QUEUE_COMPUTE
    &&& forall|j: int| 0 <= j < i ==> (#[trigger] flags[j]) & QUEUE_COMPUTE != QUEUE_COMPUTE
}

/// The queues of some family compute.
pub open spec fn some_family_computes(flags: Seq<u32>) -> bool {
    exists|j: int|
        0 <= j < flags.len() && (#[trigger] flags[j]) & QUEUE_COMPUTE == QUEUE_COMPUTE
}

/// The mebibytes of the heaps of the device's own memory, each rounded down.
pub open spec fn local_mebibytes(heaps: Seq<Heap>) -> nat
    decreases heaps.len(),
{
    if heaps.len() == 0 {
        0
    } else {
        local_mebibytes(heaps.drop_last()) + if heaps.last().flags & HEAP_DEVICE_LOCAL
            == HEAP_DEVICE_LOCAL {
            (heaps.last().size / MEBIBYTE) as nat
        } else {
            0
        }
    }
}

/// Picks a physical device by the types of all of them. There is none to pick exactly
/// if there is no device.
pub fn pick_device(types: &Vec<i32>) -> (r: Option<usize>)
    ensures
        r is None <==> types@.len() == 0,
        r matches Some(i) ==> i < types@.len() && preferred(types@, i as int),
        // A discrete GPU before an integrated one, that before any other, and of several
        // the first.
        r matches Some(i) ==> {
            &&& (exists|j: int| 0 <= j < types@.len() && #[trigger] types@[j] == 2)
                ==> types@[i as int] == 2 && forall|j: int| 0 <= j < i ==> types@[j] != 2
            &&& (forall|j: int| 0 <= j < types@.len() ==> types@[j] != 2) && (exists|j: int|
                0 <= j < types@.len() && #[trigger] types@[j] == 1) ==> types@[i as int] == 1
                && forall|j: int| 0 <= j < i ==> types@[j] != 1
            &&& (forall|j: int| 0 <= j < types@.len() ==> types@[j] != 2 && types@[j] != 1)
                ==> i == 0
        },
{
    if types.len() == 0 {
        return None;
    }
    let mut i: usize = 0;
    while i < types.len()
        invariant
            i <= types.len(),
            forall|j: int| 0 <= j < i ==> types@[j] != DISCRETE_GPU,
        decreases types.len() - i,
    {
        if same_device_type(types[i], DISCRETE_GPU) {
            return Some(i);
        }
        i = i + 1;
    }
    assert(!types@.contains(DISCRETE_GPU));
    let mut k: usize = 0;
    while k < types.len()
        invariant
            k <= types.len(),
            !types@.contains(DISCRETE_GPU),
            forall|j: int| 0 <= j < k ==> types@[j] != INTEGRATED_GPU,
        decreases types.len() - k,
    {
        if same_device_type(types[k], INTEGRATED_GPU) {
            return Some(k);
        }
        k = k + 1;
    }
    Some(0)
}

/// Picks a queue family by the flags of all of them. There is none to pick exactly if
/// no family computes.
pub fn pick_queue_family(flags: &Vec<u32>) -> (r: Option<u32>)
    requires
        flags@.len() <= u32::MAX,
    ensures
        r matches Some(i) ==> first_compute_family(flags@, i as int),
        // The picked family computes, and no family before it does.
        r matches Some(i) ==> {
            &&& i < flags@.len()
            &&& flags@[i as int] & 0x2 == 0x2
            &&& forall|j: int| 0 <= j < i ==> (#[trigger] flags@[j]) & 0x2 != 0x2
        },
        r is None <==> forall|j: int|
            0 <= j < flags@.len() ==> (#[trigger] flags@[j]) & QUEUE_COMPUTE != QUEUE_COMPUTE,
{
    let mut i: usize = 0;
    while i < flags.len()
        invariant
            i <= flags.len(),
            flags@.len() <= u32::MAX,
            forall|j: int|
                0 <= j < i ==> (#[trigger] flags@[j]) & QUEUE_COMPUTE != QUEUE_COMPUTE,
        decreases flags.len() - i,
    {
        if queue_flags_contain(flags[i], QUEUE_COMPUTE) {
            assert(flags@[i as int] & QUEUE_COMPUTE == QUEUE_COMPUTE);
            return Some(i as u32);
        }
        i = i + 1;
    }
    None
}

/// The mebibytes of memory that the device has of its own.
pub fn device_local_mebibytes(heaps: &Vec<Heap>) -> (r: u64)
    requires
        heaps@.len() <= MAX_MEMORY_HEAPS,
    ensures
        r == local_mebibytes(heaps@),
{
    let mut sum: u64 = 0;
    let mut i: usize = 0;
    while i < heaps.len()
        invariant
            i <= heaps.len() <= MAX_MEMORY_HEAPS,
            sum == local_mebibytes(heaps@.take(i as int)),
            sum <= i * 0x1000_0000_0000,
        decreases heaps.len() - i,
    {
        proof {
            assert(heaps@.take(i + 1).drop_last() =~= heaps@.take(i as int));
        }
        if heap_flags_contain(heaps[i].flags, HEAP_DEVICE_LOCAL) {
            sum = sum + heaps[i].size / MEBIBYTE;
        }
        i = i + 1;
    }
    assert(heaps@.take(heaps.len() as int) =~= heaps@);
    sum
}

/// Where the setup stands: the action that comes next, and what was picked so far.
#[derive(Clone, Copy, Debug, PartialEq, Eq, Structural)]
pub enum SetupStage {
    Entry,
    Instance,
    Devices,
    Properties { device: usize },
    Families { device: usize },
    Device { device: usize, family: u32 },
    CommandPool { device: usize, family: u32 },
    Allocator { device: usize, family: u32 },
    Heaps { device: usize, family: u32 },
    Ready { device: usize, family: u32, mebibytes: u64 },
}

/// One call of the setup. Flags are given as the device takes them.
#[derive(Clone, Copy, Debug, PartialEq, Eq)]
pub enum SetupAction {
    /// Loads the Vulkan library.
    LoadEntry,
    /// Creates the instance.
    CreateInstance {
        application_name: &'static str,
        application_version: u32,
        engine_name: &'static str,
        api_version: u32,
    },
    /// Lists the physical devices with their types.
    ListDevices,
    /// Reads the properties of a physical device and shows them to the user.
    ShowProperties { device: usize },
    /// Lists the queue families of a physical device with their flags.
    ListQueueFamilies { device: usize },
    /// Creates the logical device with `queues` queues of a family, whose priority has
    /// the bits `priority` as a 32-bit float, and takes the queue of index `queue`.
    CreateDevice { device: usize, family: u32, queues: u32, priority: u32, queue: u32 },
    /// Creates the command pool.
    CreateCommandPool { family: u32, flags: u32 },
    /// Creates the memory allocator. `addresses` says whether the device is to know its
    /// buffers by address.
    CreateAllocator { device: usize, addresses: bool },
    /// Lists the memory heaps of a physical device.
    ListHeaps { device: usize },
    /// Nothing is left to do.
    Ready,
}

/// How a call of the setup went.
pub enum Reply {
    /// It was carried out.
    Done,
    /// It failed; the text says why.
    Failed(String),
    /// The types of the physical devices.
    DeviceTypes(Vec<i32>),
    /// The flags of the queue families.
    QueueFlags(Vec<u32>),
    /// The memory heaps.
    Heaps(Vec<Heap>),
}

impl Reply {
    /// A device lists its families by 32-bit numbers, and has room for so many heaps.
    pub open spec fn wf(self) -> bool {
        match self {
            Reply::QueueFlags(flags) => flags@.len() <= u32::MAX,
            Reply::Heaps(heaps) => heaps@.len() <= MAX_MEMORY_HEAPS,
            _ => true,
        }
    }
}

/// Why the setup cannot go on.
pub enum SetupError {
    EntryNotLoaded(String),
    InstanceNotCreated(String),
    DevicesNotListed(String),
    NoDevice,
    NoComputeQueue,
    DeviceNotCreated(String),
    CommandPoolNotCreated(String),
    AllocatorNotCreated(String),
    /// The reply is not one to the call that was asked for.
    OutOfTurn,
}

impl SetupError {
    /// What the user is told.
    pub open spec fn text(self) -> Seq<char> {
        match self {
            SetupError::EntryNotLoaded(e) => "Failed to load Vulkan entry point: "@ + e@,
            SetupError::InstanceNotCreated(e) => "Failed to create Vulkan instance: "@ + e@,
            SetupError::DevicesNotListed(e) => "Failed to enumerate devices: "@ + e@,
            SetupError::NoDevice => "No Vulkan physical devices found"@,
            SetupError::NoComputeQueue => "No compute queue family found"@,
            SetupError::DeviceNotCreated(e) => "Failed to create device: "@ + e@,
            SetupError::CommandPoolNotCreated(e) => "Failed to create command pool: "@ + e@,
            SetupError::AllocatorNotCreated(e) => "Failed to create allocator: "@ + e@,
            SetupError::OutOfTurn => "Unexpected reply from the device"@,
        }
    }

    /// What the user is told.
    pub fn message(&self) -> (r: String)
        ensures
            r@ == self.text(),
            r@ == match *self {
                SetupError::EntryNotLoaded(e) => "Failed to load Vulkan entry point: "@ + e@,
                SetupError::InstanceNotCreated(e) => "Failed to create Vulkan instance: "@ + e@,
                SetupError::DevicesNotListed(e) => "Failed to enumerate devices: "@ + e@,
                SetupError::NoDevice => "No Vulkan physical devices found"@,
                SetupError::NoComputeQueue => "No compute queue family found"@,
                SetupError::DeviceNotCreated(e) => "Failed to create device: "@ + e@,
                SetupError::CommandPoolNotCreated(e) => "Failed to create command pool: "@ + e@,
                SetupError::AllocatorNotCreated(e) => "Failed to create allocator: "@ + e@,
                SetupError::OutOfTurn => "Unexpected reply from the device"@,
            },
    {
        match self {
            SetupError::EntryNotLoaded(e) => joined("Failed to load Vulkan entry point: ", e),
            SetupError::InstanceNotCreated(e) => joined("Failed to create Vulkan instance: ", e),
            SetupError::DevicesNotListed(e) => joined("Failed to enumerate devices: ", e),
            SetupError::NoDevice => "No Vulkan physical devices found".to_owned(),
            SetupError::NoComputeQueue => "No compute queue family found".to_owned(),
            SetupError::DeviceNotCreated(e) => joined("Failed to create device: ", e),
            SetupError::CommandPoolNotCreated(e) => joined("Failed to create command pool: ", e),
            SetupError::AllocatorNotCreated(e) => joined("Failed to create allocator: ", e),
            SetupError::OutOfTurn => "Unexpected reply from the device".to_owned(),
        }
    }
}

fn joined(start: &str, end: &String) -> (r: String)
    ensures
        r@ == start@ + end@,
{
    let mut text = start.to_owned();
    text.append(end.as_str());
    text
}

/// The version that the program gives itself: 1.0.0.
pub open spec fn application_version() -> u32 {
    (0u32 << 29u32) | (1u32 << 22u32) | (0u32 << 12u32) | 0u32
}

/// The version of Vulkan that the program asks for: 1.1.0.
pub open spec fn api_version() -> u32 {
    (0u32 << 29u32) | (1u32 << 22u32) | (1u32 << 12u32) | 0u32
}

impl SetupStage {
    /// The action that comes next.
    pub open spec fn next_action(self) -> SetupAction {
        match self {
            SetupStage::Entry => SetupAction::LoadEntry,
            SetupStage::Instance => SetupAction::CreateInstance {
                application_name: APPLICATION_NAME,
                application_version: application_version(),
                engine_name: ENGINE_NAME,
                api_version: api_version(),
            },
            SetupStage::Devices => SetupAction::ListDevices,
            SetupStage::Properties { device } => SetupAction::ShowProperties { device },
            SetupStage::Families { device } => SetupAction::ListQueueFamilies { device },
            SetupStage::Device { device, family } => SetupAction::CreateDevice {
                device,
                family,
                queues: 1,
                priority: QUEUE_PRIORITY_BITS,
                queue: 0,
            },
            SetupStage::CommandPool { family, .. } => SetupAction::CreateCommandPool {
                family,
                flags: POOL_RESET_COMMAND_BUFFER,
            },
            SetupStage::Allocator { device, .. } => SetupAction::CreateAllocator {
                device,
                addresses: false,
            },
            SetupStage::Heaps { device, .. } => SetupAction::ListHeaps { device },
            SetupStage::Ready { .. } => SetupAction::Ready,
        }
    }

    /// `r` is what becomes of the setup after `reply`.
    pub open spec fn next(self, reply: Reply, r: Result<SetupStage, SetupError>) -> bool {
        match (self, reply) {
            (SetupStage::Entry, Reply::Done) => r == Ok::<_, SetupError>(SetupStage::Instance),
            (SetupStage::Entry, Reply::Failed(e)) => r == Err::<SetupStage, _>(
                SetupError::EntryNotLoaded(e),
            ),
            (SetupStage::Instance, Reply::Done) => r == Ok::<_, SetupError>(SetupStage::Devices),
            (SetupStage::Instance, Reply::Failed(e)) => r == Err::<SetupStage, _>(
                SetupError::InstanceNotCreated(e),
            ),
            (SetupStage::Devices, Reply::DeviceTypes(types)) => if types@.len() == 0 {
                r == Err::<SetupStage, _>(SetupError::NoDevice)
            } else {
                r matches Ok(SetupStage::Properties { device }) && device < types@.len()
                    && preferred(types@, device as int)
            },
            (SetupStage::Devices, Reply::Failed(e)) => r == Err::<SetupStage, _>(
                SetupError::DevicesNotListed(e),
            ),
            (SetupStage::Properties { device }, Reply::Done) => r == Ok::<_, SetupError>(
                SetupStage::Families { device },
            ),
            (SetupStage::Families { device }, Reply::QueueFlags(flags)) => {
                if some_family_computes(flags@) {
                    r matches Ok(SetupStage::Device { device: d, family }) && d == device
                        && first_compute_family(flags@, family as int)
                } else {
                    r == Err::<SetupStage, _>(SetupError::NoComputeQueue)
                }
            },
            (SetupStage::Device { device, family }, Reply::Done) => r == Ok::<_, SetupError>(
                SetupStage::CommandPool { device, family },
            ),
            (SetupStage::Device { .. }, Reply::Failed(e)) => r == Err::<SetupStage, _>(
                SetupError::DeviceNotCreated(e),
            ),
            (SetupStage::CommandPool { device, family }, Reply::Done) => r == Ok::<_, SetupError>(
                SetupStage::Allocator { device, family },
            ),
            (SetupStage::CommandPool { .. }, Reply::Failed(e)) => r == Err::<SetupStage, _>(
                SetupError::CommandPoolNotCreated(e),
            ),
            (SetupStage::Allocator { device, family }, Reply::Done) => r == Ok::<_, SetupError>(
                SetupStage::Heaps { device, family },
            ),
            (SetupStage::Allocator { .. }, Reply::Failed(e)) => r == Err::<SetupStage, _>(
                SetupError::AllocatorNotCreated(e),
            ),
            (SetupStage::Heaps { device, family }, Reply::Heaps(heaps)) => r == Ok::<
                _,
                SetupError,
            >(
                SetupStage::Ready { device, family, mebibytes: local_mebibytes(heaps@) as u64 },
            ),
            _ => r == Err::<SetupStage, _>(SetupError::OutOfTurn),
        }
    }

    /// The action to carry out next.
    pub fn action(&self) -> (r: SetupAction)
        ensures
            r == self.next_action(),
    {
        match *self {
            SetupStage::Entry => SetupAction::LoadEntry,
            SetupStage::Instance => SetupAction::CreateInstance {
                application_name: APPLICATION_NAME,
                application_version: make_api_version(0, 1, 0, 0),
                engine_name: ENGINE_NAME,
                api_version: make_api_version(0, 1, 1, 0),
            },
            SetupStage::Devices => SetupAction::ListDevices,
            SetupStage::Properties { device } => SetupAction::ShowProperties { device },
            SetupStage::Families { device } => SetupAction::ListQueueFamilies { device },
            SetupStage::Device { device, family } => SetupAction::CreateDevice {
                device,
                family,
                queues: 1,
                priority: QUEUE_PRIORITY_BITS,
                queue: 0,
            },
            SetupStage::CommandPool { family, .. } => SetupAction::CreateCommandPool {
                family,
                flags: POOL_RESET_COMMAND_BUFFER,
            },
            SetupStage::Allocator { device, .. } => SetupAction::CreateAllocator {
                device,
                addresses: false,
            },
            SetupStage::Heaps { device, .. } => SetupAction::ListHeaps { device },
            SetupStage::Ready { .. } => SetupAction::Ready,
        }
    }

    /// The setup after a reply.
    pub fn advance(&self, reply: Reply) -> (r: Result<SetupStage, SetupError>)
        requires
            reply.wf(),
        ensures
            self.next(reply, r),
    {
        match (*self, reply) {
            (SetupStage::Entry, Reply::Done) => Ok(SetupStage::Instance),
            (SetupStage::Entry, Reply::Failed(e)) => Err(SetupError::EntryNotLoaded(e)),
            (SetupStage::Instance, Reply::Done) => Ok(SetupStage::Devices),
            (SetupStage::Instance, Reply::Failed(e)) => Err(SetupError::InstanceNotCreated(e)),
            (SetupStage::Devices, Reply::DeviceTypes(types)) => match pick_device(&types) {
                Some(device) => Ok(SetupStage::Properties { device }),
                None => Err(SetupError::NoDevice),
            },
            (SetupStage::Devices, Reply::Failed(e)) => Err(SetupError::DevicesNotListed(e)),
            (SetupStage::Properties { device }, Reply::Done) => Ok(SetupStage::Families { device }),
            (SetupStage::Families { device }, Reply::QueueFlags(flags)) => match pick_queue_family(
                &flags,
            ) {
                Some(family) => {
                    assert(flags@[family as int] & QUEUE_COMPUTE == QUEUE_COMPUTE);
                    Ok(SetupStage::Device { device, family })
                },
                None => Err(SetupError::NoComputeQueue),
            },
            (SetupStage::Device { device, family }, Reply::Done) => Ok(
                SetupStage::CommandPool { device, family },
            ),
            (SetupStage::Device { .. }, Reply::Failed(e)) => Err(SetupError::DeviceNotCreated(e)),
            (SetupStage::CommandPool { device, family }, Reply::Done) => Ok(
                SetupStage::Allocator { device, family },
            ),
            (SetupStage::CommandPool { .. }, Reply::Failed(e)) => Err(
                SetupError::CommandPoolNotCreated(e),
            ),
            (SetupStage::Allocator { device, family }, Reply::Done) => Ok(
                SetupStage::Heaps { device, family },
            ),
            (SetupStage::Allocator { .. }, Reply::Failed(e)) => Err(
                SetupError::AllocatorNotCreated(e),
            ),
            (SetupStage::Heaps { device, family }, Reply::Heaps(heaps)) => {
                let mebibytes: u64 = device_local_mebibytes(&heaps);
                Ok(SetupStage::Ready { device, family, mebibytes })
            },
            _ => Err(SetupError::OutOfTurn),
        }
    }
}

/// The line that shows the name of the device.
pub fn device_line(name: &str) -> (r: String)
    ensures
        r@ == "Device: "@ + name@,
{
    let mut line = "Device: ".to_owned();
    line.append(name);
    line
}

/// The line that shows the version of the driver.
pub fn driver_line(version: u32) -> (r: String)
    ensures
        r@ == "Driver: "@ + decimal(((version >> 22u32) & 0x7f) as nat) + "."@ + decimal(
            ((version >> 12u32) & 0x3ff) as nat,
        ) + "."@ + decimal((version & 0xfff) as nat),
{
    let mut line = "Driver: ".to_owned();
    append_decimal(&mut line, api_version_major(version) as u64);
    line.append(".");
    append_decimal(&mut line, api_version_minor(version) as u64);
    line.append(".");
    append_decimal(&mut line, api_version_patch(version) as u64);
    line
}

/// The line that shows how much memory the device has of its own.
pub fn memory_line(mebibytes: u64) -> (r: String)
    ensures
        r@ == "VRAM (device-local heaps): "@ + decimal(mebibytes as nat) + " MB"@,
{
    let mut line = "VRAM (device-local heaps): ".to_owned();
    append_decimal(&mut line, mebibytes);
    line.append(" MB");
    line
}

/// One call of the teardown.
#[derive(Clone, Copy, Debug, PartialEq, Eq, Structural)]
pub enum TeardownAction {
    /// Waits until the device is idle. A failure of this is passed over.
    WaitIdle,
    DestroyCommandPool,
    DropAllocator,
    DestroyDevice,
    DestroyInstance,
}

/// The calls of the teardown.
pub open spec fn teardown_actions() -> Seq<TeardownAction> {
    seq![
        TeardownAction::WaitIdle,
        TeardownAction::DestroyCommandPool,
        TeardownAction::DropAllocator,
        TeardownAction::DestroyDevice,
        TeardownAction::DestroyInstance,
    ]
}

/// The calls of the teardown, in their order.
pub fn teardown() -> (r: Vec<TeardownAction>)
    ensures
        r@ == teardown_actions(),
{
    let list: Vec<TeardownAction> = vec![
        TeardownAction::WaitIdle,
        TeardownAction::DestroyCommandPool,
        TeardownAction::DropAllocator,
        TeardownAction::DestroyDevice,
        TeardownAction::DestroyInstance,
    ];
    assert(list@ =~= teardown_actions());
    list
}

/// What is alive of the objects that the setup creates.
pub struct Context {
    pub entry: bool,
    pub instance: bool,
    pub device: bool,
    pub command_pool: bool,
    pub allocator: bool,
}

impl Context {
    /// Nothing is alive but the Vulkan library, if it was loaded.
    pub open spec fn bare(entry: bool) -> Context {
        Context { entry, instance: false, device: false, command_pool: false, allocator: false }
    }

    /// Everything is alive.
    pub open spec fn full() -> Context {
        Context { entry: true, instance: true, device: true, command_pool: true, allocator: true }
    }

    /// `action` may be asked for: what it needs is alive.
    pub open spec fn allows(self, action: SetupAction) -> bool {
        match action {
            SetupAction::LoadEntry => !self.entry,
            SetupAction::CreateInstance { .. } => self.entry && !self.instance,
            SetupAction::ListDevices => self.instance,
            SetupAction::ShowProperties { .. } => self.instance,
            SetupAction::ListQueueFamilies { .. } => self.instance,
            SetupAction::CreateDevice { .. } => self.instance && !self.device,
            SetupAction::CreateCommandPool { .. } => self.device && !self.command_pool,
            SetupAction::CreateAllocator { .. } => self.instance && self.device && !self.allocator,
            SetupAction::ListHeaps { .. } => self.instance,
            SetupAction::Ready => true,
        }
    }

    /// What is alive once `action` was carried out.
    pub open spec fn with(self, action: SetupAction) -> Context {
        match action {
            SetupAction::LoadEntry => Context { entry: true, ..self },
            SetupAction::CreateInstance { .. } => Context { instance: true, ..self },
            SetupAction::CreateDevice { .. } => Context { device: true, ..self },
            SetupAction::CreateCommandPool { .. } => Context { command_pool: true, ..self },
            SetupAction::CreateAllocator { .. } => Context { allocator: true, ..self },
            _ => self,
        }
    }

    /// `action` may be asked for: what it destroys is alive, what that needs to be
    /// destroyed is alive too, and what needs it is not.
    pub open spec fn allows_teardown(self, action: TeardownAction) -> bool {
        match action {
            TeardownAction::WaitIdle => self.device,
            TeardownAction::DestroyCommandPool => self.command_pool && self.device,
            TeardownAction::DropAllocator => self.allocator && self.device,
            TeardownAction::DestroyDevice => self.device && !self.command_pool && !self.allocator,
            TeardownAction::DestroyInstance => self.instance && !self.device,
        }
    }

    /// What is alive after `action`.
    pub open spec fn without(self, action: TeardownAction) -> Context {
        match action {
            TeardownAction::WaitIdle => self,
            TeardownAction::DestroyCommandPool => Context { command_pool: false, ..self },
            TeardownAction::DropAllocator => Context { allocator: false, ..self },
            TeardownAction::DestroyDevice => Context { device: false, ..self },
            TeardownAction::DestroyInstance => Context { instance: false, ..self },
        }
    }

    /// What is alive after the first `n` calls of the teardown.
    pub open spec fn after_teardown(self, n: int) -> Context
        decreases n,
    {
        if n <= 0 {
            self
        } else {
            self.after_teardown(n - 1).without(teardown_actions()[n - 1])
        }
    }
}

/// What is alive when a setup stands where `stage` does.
pub open spec fn context_at(stage: SetupStage) -> Context {
    Context {
        entry: !(stage is Entry),
        instance: !(stage is Entry || stage is Instance),
        device: stage is CommandPool || stage is Allocator || stage is Heaps || stage is Ready,
        command_pool: stage is Allocator || stage is Heaps || stage is Ready,
        allocator: stage is Heaps || stage is Ready,
    }
}

/// `stages` are the stages of a setup from its start on, each of them what became of
/// the one before it after a reply.
pub open spec fn is_setup(stages: Seq<SetupStage>, replies: Seq<Reply>) -> bool {
    &&& stages.len() == replies.len() + 1
    &&& stages[0] == SetupStage::Entry
    &&& forall|k: int|
        0 <= k < replies.len() ==> (#[trigger] replies[k]).wf() && stages[k].next(
            replies[k],
            Ok(stages[k + 1]),
        )
}

/// What is alive after the first `n` actions of a setup.
pub open spec fn context_after(stages: Seq<SetupStage>, n: int) -> Context
    decreases n,
{
    if n <= 0 {
        Context::bare(false)
    } else {
        context_after(stages, n - 1).with(stages[n - 1].next_action())
    }
}

proof fn lemma_context_after(stages: Seq<SetupStage>, replies: Seq<Reply>, n: int)
    requires
        is_setup(stages, replies),
        0 <= n < stages.len(),
    ensures
        context_after(stages, n) == context_at(stages[n]),
    decreases n,
{
    if n > 0 {
        lemma_context_after(stages, replies, n - 1);
        assert(replies[n - 1].wf());
        assert(stages[n - 1].next(replies[n - 1], Ok(stages[n - 1 + 1])));
    }
}

/// Whatever is replied, a setup asks for nothing before what it needs is alive, and
/// creates nothing twice.
pub proof fn law_every_setup_action_is_allowed(
    stages: Seq<SetupStage>,
    replies: Seq<Reply>,
    n: int,
)
    requires
        is_setup(stages, replies),
        0 <= n < stages.len(),
    ensures
        context_after(stages, n).allows(stages[n].next_action()),
{
    lemma_context_after(stages, replies, n);
}

/// A setup that is ready has everything alive.
pub proof fn law_ready_setup_is_complete(stages: Seq<SetupStage>, replies: Seq<Reply>)
    requires
        is_setup(stages, replies),
        stages.last() is Ready,
    ensures
        context_after(stages, stages.len() - 1) == Context::full(),
{
    lemma_context_after(stages, replies, stages.len() - 1);
}

/// What a setup asks for, call by call: the library, an instance that asks for Vulkan 1.1,
/// and the devices; then, of the device that was picked, its properties, its queue
/// families and its logical device with one queue of the family that was picked; and
/// then, of the same device and family, the command pool, the allocator and the heaps.
pub proof fn law_setup_asks_in_order(stages: Seq<SetupStage>, replies: Seq<Reply>, n: int)
    requires
        is_setup(stages, replies),
        0 <= n < stages.len(),
    ensures
        ({
            let device = stages[3]->Properties_device;
            let family = stages[5]->Device_family;
            match stages[n].next_action() {
                SetupAction::LoadEntry => n == 0,
                SetupAction::CreateInstance {
                    application_name,
                    application_version,
                    engine_name,
                    api_version,
                } => {
                    &&& n == 1
                    &&& application_name@ == "vk-compute-bench"@
                    &&& application_version == 4194304
                    &&& engine_name@ == "none"@
                    &&& api_version == 4198400
                },
                SetupAction::ListDevices => n == 2,
                SetupAction::ShowProperties { device: d } => n == 3 && d == device,
                SetupAction::ListQueueFamilies { device: d } => n == 4 && d == device,
                SetupAction::CreateDevice { device: d, family: f, queues, priority, queue } => {
                    &&& n == 5
                    &&& d == device
                    &&& f == family
                    &&& queues == 1
                    &&& priority == 0x3f80_0000
                    &&& queue == 0
                },
                SetupAction::CreateCommandPool { family: f, flags } => n == 6 && f == family
                    && flags == 0x2,
                SetupAction::CreateAllocator { device: d, addresses } => n == 7 && d == device
                    && !addresses,
                SetupAction::ListHeaps { device: d } => n == 8 && d == device,
                SetupAction::Ready => n == 9,
            }
        }),
{
    lemma_setup_position(stages, replies, n);
    lemma_setup_keeps_its_picks(stages, replies, n);
    assert(application_version() == 4194304) by (bit_vector)
        requires
            application_version() == (0u32 << 29u32) | (1u32 << 22u32) | (0u32 << 12u32) | 0u32,
    ;
    assert(api_version() == 4198400) by (bit_vector)
        requires
            api_version() == (0u32 << 29u32) | (1u32 << 22u32) | (1u32 << 12u32) | 0u32,
    ;
}

/// What the picks of a setup rest on: the device is the first discrete one of those that
/// were listed, else the first integrated one, else the first; the family is the first
/// of those listed that computes; and a setup that is ready tells of both, and of the
/// heaps that were listed.
pub proof fn law_setup_picks_from_what_was_listed(
    stages: Seq<SetupStage>,
    replies: Seq<Reply>,
    j: int,
)
    requires
        is_setup(stages, replies),
    ensures
        stages.len() > 3 ==> {
            let device = stages[3]->Properties_device as int;
            &&& stages[3] is Properties
            &&& replies[2] matches Reply::DeviceTypes(types)
            &&& 0 <= device < types@.len()
            &&& 0 <= j < types@.len() && types@[j] == 2 ==> types@[device] == 2 && device <= j
            &&& 0 <= j < types@.len() && types@[j] == 1 ==> types@[device] == 2 || (types@[device]
                == 1 && device <= j)
            &&& types@[device] != 2 && types@[device] != 1 ==> device == 0
        },
        stages.len() > 5 ==> {
            let family = stages[5]->Device_family as int;
            &&& stages[5] is Device
            &&& replies[4] matches Reply::QueueFlags(flags)
            &&& 0 <= family < flags@.len()
            &&& flags@[family] & 0x2 == 0x2
            &&& 0 <= j < family ==> flags@[j] & 0x2 != 0x2
        },
        stages.len() > 9 ==> {
            &&& stages[9] matches SetupStage::Ready { device, family, mebibytes }
            &&& device == stages[3]->Properties_device
            &&& family == stages[5]->Device_family
            &&& replies[8] matches Reply::Heaps(heaps)
            &&& mebibytes == local_mebibytes(heaps@)
        },
{
    if stages.len() > 3 {
        lemma_setup_position(stages, replies, 2);
        lemma_setup_position(stages, replies, 3);
        assert(replies[2].wf() && stages[2].next(replies[2], Ok(stages[3])));
    }
    if stages.len() > 5 {
        lemma_setup_position(stages, replies, 4);
        lemma_setup_position(stages, replies, 5);
        assert(replies[4].wf() && stages[4].next(replies[4], Ok(stages[5])));
    }
    if stages.len() > 9 {
        lemma_setup_position(stages, replies, 8);
        lemma_setup_position(stages, replies, 9);
        lemma_setup_keeps_its_picks(stages, replies, 9);
        assert(replies[8].wf() && stages[8].next(replies[8], Ok(stages[9])));
        if let Reply::Heaps(heaps) = replies[8] {
            lemma_local_mebibytes_fit(heaps@);
        }
    }
}

proof fn lemma_local_mebibytes_fit(heaps: Seq<Heap>)
    ensures
        local_mebibytes(heaps) <= heaps.len() * 0x1000_0000_0000,
    decreases heaps.len(),
{
    if heaps.len() > 0 {
        lemma_local_mebibytes_fit(heaps.drop_last());
    }
}

/// Once something is picked it stays picked.
proof fn lemma_setup_keeps_its_picks(stages: Seq<SetupStage>, replies: Seq<Reply>, n: int)
    requires
        is_setup(stages, replies),
        0 <= n < stages.len(),
    ensures
        ({
            let device = stages[3]->Properties_device;
            let family = stages[5]->Device_family;
            match stages[n] {
                SetupStage::Entry | SetupStage::Instance | SetupStage::Devices => true,
                SetupStage::Properties { device: d } => d == device,
                SetupStage::Families { device: d } => d == device,
                SetupStage::Device { device: d, family: f } => d == device && f == family,
                SetupStage::CommandPool { device: d, family: f } => d == device && f == family,
                SetupStage::Allocator { device: d, family: f } => d == device && f == family,
                SetupStage::Heaps { device: d, family: f } => d == device && f == family,
                SetupStage::Ready { device: d, family: f, .. } => d == device && f == family,
            }
        }),
    decreases n,
{
    lemma_setup_position(stages, replies, n);
    if n > 0 {
        lemma_setup_position(stages, replies, n - 1);
        lemma_setup_keeps_its_picks(stages, replies, n - 1);
        assert(replies[n - 1].wf());
        assert(stages[n - 1].next(replies[n - 1], Ok(stages[n - 1 + 1])));
    }
}

/// A setup goes on exactly if it gets the reply that its call is for, with a device and a
/// computing family in it where those are to be picked. Otherwise the user is told which
/// call failed and, word for word, why.
pub proof fn law_setup_failures_are_told(
    stage: SetupStage,
    reply: Reply,
    r: Result<SetupStage, SetupError>,
)
    requires
        reply.wf(),
        stage.next(reply, r),
    ensures
        match (stage.next_action(), reply) {
            (SetupAction::LoadEntry, Reply::Done) => r is Ok,
            (SetupAction::CreateInstance { .. }, Reply::Done) => r is Ok,
            (SetupAction::ShowProperties { .. }, Reply::Done) => r is Ok,
            (SetupAction::CreateDevice { .. }, Reply::Done) => r is Ok,
            (SetupAction::CreateCommandPool { .. }, Reply::Done) => r is Ok,
            (SetupAction::CreateAllocator { .. }, Reply::Done) => r is Ok,
            (SetupAction::ListHeaps { .. }, Reply::Heaps(_)) => r is Ok,
            (SetupAction::ListDevices, Reply::DeviceTypes(types)) => if types@.len() > 0 {
                r is Ok
            } else {
                r is Err && r->Err_0.text() == "No Vulkan physical devices found"@
            },
            (SetupAction::ListQueueFamilies { .. }, Reply::QueueFlags(flags)) => {
                &&& r is Err <==> forall|j: int|
                    0 <= j < flags@.len() ==> (#[trigger] flags@[j]) & 0x2 != 0x2
                &&& r is Err ==> r->Err_0.text() == "No compute queue family found"@
            },
            (SetupAction::LoadEntry, Reply::Failed(e)) => r is Err && r->Err_0.text()
                == "Failed to load Vulkan entry point: "@ + e@,
            (SetupAction::CreateInstance { .. }, Reply::Failed(e)) => r is Err && r->Err_0.text()
                == "Failed to create Vulkan instance: "@ + e@,
            (SetupAction::ListDevices, Reply::Failed(e)) => r is Err && r->Err_0.text()
                == "Failed to enumerate devices: "@ + e@,
            (SetupAction::CreateDevice { .. }, Reply::Failed(e)) => r is Err && r->Err_0.text()
                == "Failed to create device: "@ + e@,
            (SetupAction::CreateCommandPool { .. }, Reply::Failed(e)) => r is Err
                && r->Err_0.text() == "Failed to create command pool: "@ + e@,
            (SetupAction::CreateAllocator { .. }, Reply::Failed(e)) => r is Err
                && r->Err_0.text() == "Failed to create allocator: "@ + e@,
            _ => r is Err && r->Err_0 is OutOfTurn,
        },
{
    if let (SetupStage::Families { .. }, Reply::QueueFlags(flags)) = (stage, reply) {
        if some_family_computes(flags@) {
            let j = choose|j: int|
                0 <= j < flags@.len() && (#[trigger] flags@[j]) & QUEUE_COMPUTE == QUEUE_COMPUTE;
            assert(flags@[j] & 0x2 == 0x2);
        } else {
            assert forall|j: int| 0 <= j < flags@.len() implies (#[trigger] flags@[j]) & 0x2
                != 0x2 by {
                assert(!(flags@[j] & QUEUE_COMPUTE == QUEUE_COMPUTE));
            }
        }
    }
}

/// A setup is ready after nine replies, no more and no fewer.
pub proof fn law_setup_takes_nine_replies(stages: Seq<SetupStage>, replies: Seq<Reply>)
    requires
        is_setup(stages, replies),
    ensures
        replies.len() <= 9,
        stages.last() is Ready <==> replies.len() == 9,
{
    lemma_setup_position(stages, replies, replies.len() as int);
}

/// The number of replies that lead to a stage.
spec fn setup_position(stage: SetupStage) -> int {
    match stage {
        SetupStage::Entry => 0,
        SetupStage::Instance => 1,
        SetupStage::Devices => 2,
        SetupStage::Properties { .. } => 3,
        SetupStage::Families { .. } => 4,
        SetupStage::Device { .. } => 5,
        SetupStage::CommandPool { .. } => 6,
        SetupStage::Allocator { .. } => 7,
        SetupStage::Heaps { .. } => 8,
        SetupStage::Ready { .. } => 9,
    }
}

proof fn lemma_setup_position(stages: Seq<SetupStage>, replies: Seq<Reply>, n: int)
    requires
        is_setup(stages, replies),
        0 <= n < stages.len(),
    ensures
        setup_position(stages[n]) == n,
    decreases n,
{
    if n > 0 {
        lemma_setup_position(stages, replies, n - 1);
        assert(replies[n - 1].wf());
        assert(stages[n - 1].next(replies[n - 1], Ok(stages[n - 1 + 1])));
    }
}

/// The teardown undoes a complete setup: each call finds alive what it needs, the
/// allocator goes while the device is still there, and nothing is left but the Vulkan
/// library.
pub proof fn law_teardown_undoes_the_setup(n: int)
    requires
        0 <= n < teardown_actions().len(),
    ensures
        Context::full().after_teardown(n).allows_teardown(teardown_actions()[n]),
        Context::full().after_teardown(teardown_actions().len() as int) == Context::bare(true),
{
    reveal_with_fuel(Context::after_teardown, 6);
}

/// A discrete GPU is taken if there is one, and an integrated one is taken before
/// any that is neither. Of several of the same worth the first is taken.
pub proof fn law_discrete_gpu_is_preferred(types: Seq<i32>, picked: int, other: int)
    requires
        preferred(types, picked),
        0 <= picked < types.len(),
        0 <= other < types.len(),
    ensures
        types[other] == DISCRETE_GPU ==> types[picked] == DISCRETE_GPU && picked <= other,
        types[other] == INTEGRATED_GPU ==> types[picked] == DISCRETE_GPU || (types[picked]
            == INTEGRATED_GPU && picked <= other),
        types[picked] != DISCRETE_GPU && types[picked] != INTEGRATED_GPU ==> picked == 0,
        DISCRETE_GPU == 2 && INTEGRATED_GPU == 1,
{
}

/// The family that is picked has the bit of compute among its own flags, and no family
/// before it has. With `i` picked there is no other choice.
pub proof fn law_picked_family_computes(flags: Seq<u32>, i: int, j: int)
    requires
        first_compute_family(flags, i),
    ensures
        0 <= i < flags.len(),
        flags[i] & 0x2 == 0x2,
        0 <= j < i ==> flags[j] & 0x2 != 0x2,
        first_compute_family(flags, j) ==> i == j,
{
}

/// The same in the course of a setup: whatever families a device lists, the setup goes on
/// with the first of them that computes, on the device that was picked, and it gives up
/// exactly if none does.
pub proof fn law_setup_goes_on_with_a_computing_family(
    device: usize,
    flags: Vec<u32>,
    r: Result<SetupStage, SetupError>,
    j: int,
)
    requires
        flags@.len() <= u32::MAX,
        (SetupStage::Families { device }).next(Reply::QueueFlags(flags), r),
        0 <= j < flags@.len(),
    ensures
        flags@[j] & 0x2 == 0x2 ==> {
            &&& r matches Ok(SetupStage::Device { device: d, family })
            &&& d == device
            &&& family <= j
            &&& flags@[family as int] & 0x2 == 0x2
        },
        r matches Ok(SetupStage::Device { family, .. }) ==> family < flags@.len() && flags@[
        family as int] & 0x2 == 0x2,
        r is Ok ==> r->Ok_0 is Device,
        r matches Err(e) ==> e is NoComputeQueue,
{
    if flags@[j] & 0x2 == 0x2 {
        assert(flags@[j] & QUEUE_COMPUTE == QUEUE_COMPUTE);
        assert(some_family_computes(flags@));
    }
}

/// The heaps of two lists add up, an empty list has none, and a single heap counts its
/// whole mebibytes exactly if it is the device's own.
pub proof fn law_local_heaps_add_up(a: Seq<Heap>, b: Seq<Heap>, heap: Heap)
    ensures
        local_mebibytes(a + b) == local_mebibytes(a) + local_mebibytes(b),
        local_mebibytes(Seq::empty()) == 0,
        heap.flags & 0x1 == 0x1 ==> {
            &&& local_mebibytes(seq![heap]) * 1048576 <= heap.size
            &&& heap.size < (local_mebibytes(seq![heap]) + 1) * 1048576
        },
        heap.flags & 0x1 != 0x1 ==> local_mebibytes(seq![heap]) == 0,
    decreases b.len(),
{
    assert(seq![heap].drop_last() =~= Seq::empty());
    assert(seq![heap].last() == heap);
    assert(local_mebibytes(seq![heap].drop_last()) == 0);
    if b.len() == 0 {
        assert(a + b =~= a);
    } else {
        law_local_heaps_add_up(a, b.drop_last(), heap);
        assert((a + b).drop_last() =~= a + b.drop_last());
        assert((a + b).last() == b.last());
    }
}

} // verus!
