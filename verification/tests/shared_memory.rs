use vk_compute_bench::actions::{Location, Shader};
use vk_compute_bench::memory::{
    buffer_request, descriptor_writes, download, layout_bindings, memory_request, spirv_words,
    transfer_len, upload, Backing, DescriptorWrite, LayoutBinding, Scheme, TransferError,
};
use vk_compute_bench::shader::compile_arguments;
use vk_compute_bench::vulkan::{
    USAGE_STORAGE_BUFFER, USAGE_TRANSFER_DST, USAGE_TRANSFER_SRC,
};

#[test]
fn shader_words_have_the_bytes_of_the_shader() {
    let bytes: Vec<u8> = vec![0x03, 0x02, 0x23, 0x07, 0, 1, 2, 3];
    let words = spirv_words(&bytes);
    assert_eq!(
        words,
        vec![
            u32::from_ne_bytes([0x03, 0x02, 0x23, 0x07]),
            u32::from_ne_bytes([0, 1, 2, 3]),
        ]
    );
    assert_eq!(spirv_words(&[]), Vec::<u32>::new());
}

#[test]
fn words_survive_memory() {
    let words: Vec<u32> = vec![0, 1, 0x0102_0304, u32::MAX];
    let mut bytes: Vec<u8> = Vec::new();
    for word in &words {
        bytes.extend_from_slice(&word.to_ne_bytes());
    }
    assert_eq!(spirv_words(&bytes), words);
}

#[test]
fn buffers_are_stored_to_and_copied() {
    let usage = ash::vk::BufferUsageFlags::STORAGE_BUFFER
        | ash::vk::BufferUsageFlags::TRANSFER_SRC
        | ash::vk::BufferUsageFlags::TRANSFER_DST;
    let request = buffer_request(4096);
    assert_eq!(request.size, 4096);
    assert_eq!(request.usage, usage.as_raw());
    assert_eq!(
        request.usage,
        USAGE_STORAGE_BUFFER | USAGE_TRANSFER_SRC | USAGE_TRANSFER_DST
    );
    assert_eq!(request.usage, 0x23);
    assert_eq!(request.sharing, ash::vk::SharingMode::EXCLUSIVE.as_raw());
}

#[test]
fn memory_is_linear_and_managed() {
    for location in [Location::GpuOnly, Location::CpuToGpu, Location::GpuToCpu] {
        let request = memory_request(location);
        assert_eq!(request.name, "buffer");
        assert_eq!(request.location, location);
        assert!(request.linear);
        assert_eq!(request.scheme, Scheme::AllocatorManaged);
    }
}

#[test]
fn copies_need_reachable_memory() {
    assert_eq!(transfer_len(Backing::Nothing, 1, 4, 4), Err(TransferError::NoMemory));
    assert_eq!(
        transfer_len(Backing::Unmapped, 1, 4, 4),
        Err(TransferError::NotHostVisible)
    );
    assert_eq!(transfer_len(Backing::Mapped, 1, 4, 4), Ok(4));
}

#[test]
fn copies_fit_into_the_buffer() {
    assert_eq!(transfer_len(Backing::Mapped, 0, 4, 0), Ok(0));
    assert_eq!(transfer_len(Backing::Mapped, 25, 4, 100), Ok(100));
    assert_eq!(transfer_len(Backing::Mapped, 25, 4, 101), Ok(100));
    assert_eq!(transfer_len(Backing::Mapped, 26, 4, 103), Err(TransferError::TooLong));
    assert_eq!(
        transfer_len(Backing::Mapped, usize::MAX, 4, u64::MAX),
        Err(TransferError::TooLong)
    );
}

#[test]
fn layout_has_one_buffer_per_binding() {
    assert_eq!(layout_bindings(0), vec![]);
    assert_eq!(
        layout_bindings(2),
        vec![
            LayoutBinding { binding: 0, kind: 7, descriptors: 1, stages: 0x20 },
            LayoutBinding { binding: 1, kind: 7, descriptors: 1, stages: 0x20 },
        ]
    );
}

#[test]
fn every_binding_is_written() {
    let writes = descriptor_writes(&vec![64, 128, 256]);
    assert_eq!(
        writes,
        vec![
            DescriptorWrite { binding: 0, kind: 7, slot: 0, offset: 0, range: 64 },
            DescriptorWrite { binding: 1, kind: 7, slot: 1, offset: 0, range: 128 },
            DescriptorWrite { binding: 2, kind: 7, slot: 2, offset: 0, range: 256 },
        ]
    );
    let layout = layout_bindings(3);
    for (write, binding) in writes.iter().zip(&layout) {
        assert_eq!(write.binding, binding.binding);
    }
}

#[test]
fn shader_files() {
    let names: Vec<String> = [Shader::Saxpy, Shader::Reduce, Shader::Matmul, Shader::Copy]
        .iter()
        .map(|s| s.source_name())
        .collect();
    assert_eq!(names, vec!["saxpy.comp", "reduce.comp", "matmul.comp", "copy.comp"]);
    assert_eq!(Shader::Matmul.binary_name(), "matmul.spv");
    assert_eq!(Shader::Reduce.file_stem(), "reduce");
    assert_eq!(
        compile_arguments("shaders/copy.comp", "out/copy.spv"),
        vec!["-V", "--target-env", "vulkan1.1", "-o", "out/copy.spv", "shaders/copy.comp"]
    );
}

#[test]
fn upload_keeps_what_lies_behind() {
    let mut memory = [9u8; 8];
    assert_eq!(upload(&mut memory, 6, &[1, 2, 3]), Ok(()));
    assert_eq!(memory, [1, 2, 3, 9, 9, 9, 9, 9]);
    assert_eq!(upload(&mut memory, 6, &[]), Ok(()));
    assert_eq!(memory, [1, 2, 3, 9, 9, 9, 9, 9]);
    assert_eq!(upload(&mut memory, 6, &[4, 5, 6, 7, 8, 0]), Ok(()));
    assert_eq!(memory, [4, 5, 6, 7, 8, 0, 9, 9]);
}

#[test]
fn download_takes_the_start() {
    let memory = [1u8, 2, 3, 4];
    let mut out = [0u8; 3];
    assert_eq!(download(&memory, 4, &mut out), Ok(()));
    assert_eq!(out, [1, 2, 3]);
    let mut nothing = [0u8; 0];
    assert_eq!(download(&memory, 0, &mut nothing), Ok(()));
}

#[test]
fn copies_longer_than_the_buffer_change_nothing() {
    let mut memory = [9u8; 8];
    assert_eq!(upload(&mut memory, 6, &[1; 7]), Err(TransferError::TooLong));
    assert_eq!(memory, [9; 8]);
    let mut out = [5u8; 7];
    assert_eq!(download(&memory, 6, &mut out), Err(TransferError::TooLong));
    assert_eq!(out, [5; 7]);
}

#[test]
fn download_gives_back_what_was_uploaded() {
    let floats: Vec<f32> = (0..100).map(|i| i as f32 * 0.5).collect();
    let data: &[u8] = bytemuck::cast_slice(&floats);
    let mut memory = vec![0xffu8; 512];
    assert_eq!(upload(&mut memory, 400, data), Ok(()));
    let mut out = vec![0.0f32; 100];
    assert_eq!(download(&memory, 400, bytemuck::cast_slice_mut(&mut out)), Ok(()));
    assert_eq!(out, floats);
    assert!(memory[400..].iter().all(|b| *b == 0xff));
}

#[test]
fn refused_copies_are_explained() {
    assert_eq!(TransferError::NotHostVisible.message(), "Buffer not host-visible");
    assert_eq!(TransferError::NoMemory.message(), "Buffer has no memory");
    assert_eq!(TransferError::TooLong.message(), "Data longer than the buffer");
}
