//! Memory that the host and the device share: how words lie in it, what is asked for
//! when a buffer is created, and how much may be copied.

use vstd::endian::{endianness, Endian};
use vstd::prelude::*;
use crate::actions::Location;
use crate::vulkan::{join_usage, USAGE_STORAGE_BUFFER, USAGE_TRANSFER_DST, USAGE_TRANSFER_SRC};
use crate::vulkan::{DESCRIPTOR_STORAGE_BUFFER, SHARING_EXCLUSIVE, STAGE_COMPUTE};

verus! {

/// The byte of a word that has `k` bytes below it in value.
pub open spec fn byte_of(word: u32, k: int) -> u8 {
    if k == 0 {
        (word % 256) as u8
    } else if k == 1 {
        (word / 256 % 256) as u8
    } else if k == 2 {
        (word / 65536 % 256) as u8
    } else {
        (word / 16777216) as u8
    }
}

/// The bytes of words in memory, on a machine of the given byte order.
pub open spec fn image(order: Endian, words: Seq<u32>) -> Seq<u8> {
    Seq::new(
        4 * words.len(),
        |i: int|
            match order {
                Endian::Little => byte_of(words[i / 4], i % 4),
                Endian::Big => byte_of(words[i / 4], 3 - i % 4),
            },
    )
}

/// `bytemuck::cast_slice` from words to bytes: the bytes that the words have in this
/// machine's memory, copied out.
#[verifier::external_body]
pub(crate) fn cast_words(words: &[u32]) -> (r: Vec<u8>)
    ensures
        r@ == image(endianness(), words@),
{
    bytemuck::cast_slice::<u32, u8>(words).to_vec()
}

/// `bytemuck::pod_collect_to_vec` from bytes to words: the words that have these bytes
/// in this machine's memory. With a number of bytes that is no multiple of four, the
/// last word would be filled up with zero bytes.
#[verifier::external_body]
fn collect_words(bytes: &[u8]) -> (r: Vec<u32>)
    requires
        bytes@.len() % 4 == 0,
    ensures
        image(endianness(), r@) == bytes@,
{
    bytemuck::pod_collect_to_vec::<u8, u32>(bytes)
}

/// The words of a compiled shader: those whose bytes in memory are the shader's.
pub fn spirv_words(spirv: &[u8]) -> (r: Vec<u32>)
    requires
        spirv@.len() % 4 == 0,
    ensures
        image(endianness(), r@) == spirv@,
        r@.len() == spirv@.len() / 4,
        // Each word is the number that its four bytes write in this machine's order.
        forall|i: int|
            0 <= i < r@.len() ==> match endianness() {
                Endian::Little => #[trigger] r@[i] == spirv@[4 * i] + 256 * spirv@[4 * i + 1]
                    + 65536 * spirv@[4 * i + 2] + 16777216 * spirv@[4 * i + 3],
                Endian::Big => r@[i] == spirv@[4 * i + 3] + 256 * spirv@[4 * i + 2] + 65536
                    * spirv@[4 * i + 1] + 16777216 * spirv@[4 * i],
            },
{
    let words = collect_words(spirv);
    assert(image(endianness(), words@).len() == 4 * words@.len());
    proof {
        assert forall|i: int| 0 <= i < words@.len() implies match endianness() {
            Endian::Little => #[trigger] words@[i] == spirv@[4 * i] + 256 * spirv@[4 * i + 1]
                + 65536 * spirv@[4 * i + 2] + 16777216 * spirv@[4 * i + 3],
            Endian::Big => words@[i] == spirv@[4 * i + 3] + 256 * spirv@[4 * i + 2] + 65536
                * spirv@[4 * i + 1] + 16777216 * spirv@[4 * i],
        } by {
            law_bytes_write_the_word(endianness(), words@, i);
        }
    }
    words
}

/// The four bytes that a word has in memory write the word's value in the base 256: the
/// lowest first on a machine of little order, the highest first on one of big order.
pub proof fn law_bytes_write_the_word(order: Endian, words: Seq<u32>, i: int)
    requires
        0 <= i < words.len(),
    ensures
        image(order, words).len() == 4 * words.len(),
        match order {
            Endian::Little => words[i] == image(order, words)[4 * i] + 256 * image(
                order,
                words,
            )[4 * i + 1] + 65536 * image(order, words)[4 * i + 2] + 16777216 * image(
                order,
                words,
            )[4 * i + 3],
            Endian::Big => words[i] == image(order, words)[4 * i + 3] + 256 * image(
                order,
                words,
            )[4 * i + 2] + 65536 * image(order, words)[4 * i + 1] + 16777216 * image(
                order,
                words,
            )[4 * i],
        },
{
    lemma_image_of_word(order, words, i);
    let w = words[i];
    assert(w / 256 / 256 == w / 65536 && w / 65536 / 256 == w / 16777216);
}

/// Bytes in memory stand for one sequence of words: words that were turned into
/// bytes are read back as they were.
pub proof fn law_words_survive_memory(order: Endian, a: Seq<u32>, b: Seq<u32>)
    requires
        image(order, a) == image(order, b),
    ensures
        a == b,
{
    assert(image(order, a).len() == 4 * a.len());
    assert(image(order, b).len() == 4 * b.len());
    assert forall|i: int| 0 <= i < a.len() implies a[i] == b[i] by {
        lemma_image_of_word(order, a, i);
        lemma_image_of_word(order, b, i);
        lemma_bytes_determine_word(a[i], b[i]);
    }
    assert(a =~= b);
}

/// The four bytes of word `i` in memory.
proof fn lemma_image_of_word(order: Endian, words: Seq<u32>, i: int)
    requires
        0 <= i < words.len(),
    ensures
        match order {
            Endian::Little => {
                &&& image(order, words)[4 * i] == byte_of(words[i], 0)
                &&& image(order, words)[4 * i + 1] == byte_of(words[i], 1)
                &&& image(order, words)[4 * i + 2] == byte_of(words[i], 2)
                &&& image(order, words)[4 * i + 3] == byte_of(words[i], 3)
            },
            Endian::Big => {
                &&& image(order, words)[4 * i] == byte_of(words[i], 3)
                &&& image(order, words)[4 * i + 1] == byte_of(words[i], 2)
                &&& image(order, words)[4 * i + 2] == byte_of(words[i], 1)
                &&& image(order, words)[4 * i + 3] == byte_of(words[i], 0)
            },
        },
{
    assert((4 * i) / 4 == i && (4 * i) % 4 == 0);
    assert((4 * i + 1) / 4 == i && (4 * i + 1) % 4 == 1);
    assert((4 * i + 2) / 4 == i && (4 * i + 2) % 4 == 2);
    assert((4 * i + 3) / 4 == i && (4 * i + 3) % 4 == 3);
}

proof fn lemma_bytes_determine_word(a: u32, b: u32)
    requires
        byte_of(a, 0) == byte_of(b, 0),
        byte_of(a, 1) == byte_of(b, 1),
        byte_of(a, 2) == byte_of(b, 2),
        byte_of(a, 3) == byte_of(b, 3),
    ensures
        a == b,
{
    assert(a / 256 / 256 == a / 65536 && a / 65536 / 256 == a / 16777216);
    assert(b / 256 / 256 == b / 65536 && b / 65536 / 256 == b / 16777216);
}

/// How the allocator places a resource.
#[derive(Clone, Copy, Debug, PartialEq, Eq, Structural)]
pub enum Scheme {
    /// The allocator may place several resources in one allocation of the device.
    AllocatorManaged,
}

/// What is asked for when a buffer is created.
#[derive(Clone, Copy, Debug, PartialEq, Eq, Structural)]
pub struct BufferRequest {
    pub size: u64,
    /// The usage flags, as the device takes them.
    pub usage: u32,
    /// How queue families share the buffer, as the device takes it.
    pub sharing: i32,
}

/// The name that the allocator knows the buffers by.
pub const ALLOCATION_NAME: &'static str = "buffer";

/// What is asked of the allocator for a buffer.
#[derive(Clone, Copy, Debug, PartialEq, Eq)]
pub struct MemoryRequest {
    pub name: &'static str,
    pub location: Location,
    /// The resource has a linear layout, as buffers have.
    pub linear: bool,
    pub scheme: Scheme,
}

/// A buffer that shaders read and write, and that can be copied from and to.
pub fn buffer_request(size: u64) -> (r: BufferRequest)
    ensures
        r == (BufferRequest {
            size,
            usage: USAGE_STORAGE_BUFFER | USAGE_TRANSFER_SRC | USAGE_TRANSFER_DST,
            sharing: SHARING_EXCLUSIVE,
        }),
{
    let usage: u32 = join_usage(
        join_usage(USAGE_STORAGE_BUFFER, USAGE_TRANSFER_SRC),
        USAGE_TRANSFER_DST,
    );
    BufferRequest { size, usage, sharing: SHARING_EXCLUSIVE }
}

/// Memory for a buffer.
pub fn memory_request(location: Location) -> (r: MemoryRequest)
    ensures
        r == (MemoryRequest {
            name: ALLOCATION_NAME,
            location,
            linear: true,
            scheme: Scheme::AllocatorManaged,
        }),
{
    MemoryRequest {
        name: ALLOCATION_NAME,
        location,
        linear: true,
        scheme: Scheme::AllocatorManaged,
    }
}

/// What is behind a buffer.
#[derive(Clone, Copy, Debug, PartialEq, Eq, Structural)]
pub enum Backing {
    /// No memory, or none any more.
    Nothing,
    /// Memory that the host cannot reach.
    Unmapped,
    /// Memory that the host reaches through a pointer.
    Mapped,
}

/// Why the host cannot copy.
#[derive(Clone, Copy, Debug, PartialEq, Eq, Structural)]
pub enum TransferError {
    NoMemory,
    NotHostVisible,
    TooLong,
}

impl TransferError {
    /// What the user is told.
    pub open spec fn text(self) -> Seq<char> {
        match self {
            TransferError::NoMemory => "Buffer has no memory"@,
            TransferError::NotHostVisible => "Buffer not host-visible"@,
            TransferError::TooLong => "Data longer than the buffer"@,
        }
    }

    /// What the user is told.
    pub fn message(&self) -> (r: &'static str)
        ensures
            r@ == self.text(),
    {
        match self {
            TransferError::NoMemory => "Buffer has no memory",
            TransferError::NotHostVisible => "Buffer not host-visible",
            TransferError::TooLong => "Data longer than the buffer",
        }
    }
}

/// The number of bytes to copy for `count` elements of `element` bytes each, to or
/// from a buffer of `size` bytes.
pub fn transfer_len(backing: Backing, count: usize, element: usize, size: u64) -> (r: Result<
    usize,
    TransferError,
>)
    ensures
        match backing {
            Backing::Nothing => r == Err::<usize, _>(TransferError::NoMemory),
            Backing::Unmapped => r == Err::<usize, _>(TransferError::NotHostVisible),
            Backing::Mapped => if count * element <= size as usize {
                r == Ok::<_, TransferError>((count * element) as usize)
            } else {
                r == Err::<usize, _>(TransferError::TooLong)
            },
        },
{
    match backing {
        Backing::Nothing => Err(TransferError::NoMemory),
        Backing::Unmapped => Err(TransferError::NotHostVisible),
        Backing::Mapped => match count.checked_mul(element) {
            Some(len) => if len <= size as usize {
                Ok(len)
            } else {
                Err(TransferError::TooLong)
            },
            None => Err(TransferError::TooLong),
        },
    }
}

/// Memory after `data` was copied to its start: what lies behind stays.
pub open spec fn uploaded(memory: Seq<u8>, data: Seq<u8>) -> Seq<u8> {
    data + memory.skip(data.len() as int)
}

/// The first `len` bytes of memory.
pub open spec fn downloaded(memory: Seq<u8>, len: nat) -> Seq<u8> {
    memory.take(len as int)
}

/// `copy_from_slice` of slices of bytes: all bytes of `source` take the place of those
/// of `target`. The two have to be of the same length.
#[verifier::external_body]
fn copy_bytes(target: &mut [u8], source: &[u8])
    requires
        old(target)@.len() == source@.len(),
    ensures
        final(target)@ == source@,
{
    target.copy_from_slice(source);
}

/// Copies bytes into the memory of a buffer of `size` bytes. The memory may be longer
/// than the buffer.
pub fn upload(memory: &mut [u8], size: u64, data: &[u8]) -> (r: Result<(), TransferError>)
    requires
        size as usize <= old(memory)@.len(),
    ensures
        if data@.len() <= size as usize {
            r is Ok && final(memory)@ == uploaded(old(memory)@, data@)
        } else {
            r == Err::<(), _>(TransferError::TooLong) && final(memory)@ == old(memory)@
        },
        final(memory)@.len() == old(memory)@.len(),
        // Byte by byte the data lies at the start of the memory.
        data@.len() <= size as usize ==> forall|i: int|
            0 <= i < data@.len() ==> #[trigger] final(memory)@[i] == data@[i],
        data@.len() <= size as usize ==> forall|i: int|
            data@.len() <= i < old(memory)@.len() ==> #[trigger] final(memory)@[i] == old(
                memory,
            )@[i],
{
    let len: usize = data.len();
    if len > size as usize {
        return Err(TransferError::TooLong);
    }
    let (start, _rest) = memory.split_at_mut(len);
    copy_bytes(start, data);
    Ok(())
}

/// Fills `out` with bytes from the memory of a buffer of `size` bytes.
pub fn download(memory: &[u8], size: u64, out: &mut [u8]) -> (r: Result<(), TransferError>)
    requires
        size as usize <= memory@.len(),
    ensures
        if old(out)@.len() <= size as usize {
            r is Ok && final(out)@ == downloaded(memory@, old(out)@.len())
        } else {
            r == Err::<(), _>(TransferError::TooLong) && final(out)@ == old(out)@
        },
        final(out)@.len() == old(out)@.len(),
        // Byte by byte the output is the start of the memory.
        old(out)@.len() <= size as usize ==> forall|i: int|
            0 <= i < old(out)@.len() ==> #[trigger] final(out)@[i] == memory@[i],
{
    let len: usize = out.len();
    if len > size as usize {
        return Err(TransferError::TooLong);
    }
    let (start, _rest) = memory.split_at(len);
    copy_bytes(out, start);
    Ok(())
}

/// An upload leaves every byte of the data at its own place in the memory, and every
/// byte behind the data as it was.
pub proof fn law_upload_puts_every_byte_in_its_place(memory: Seq<u8>, data: Seq<u8>, i: int)
    requires
        data.len() <= memory.len(),
        0 <= i < memory.len(),
    ensures
        uploaded(memory, data).len() == memory.len(),
        i < data.len() ==> uploaded(memory, data)[i] == data[i],
        i >= data.len() ==> uploaded(memory, data)[i] == memory[i],
{
}

/// A download takes every byte from its own place in the memory.
pub proof fn law_download_takes_every_byte_from_its_place(memory: Seq<u8>, len: nat, i: int)
    requires
        len <= memory.len(),
        0 <= i < len,
    ensures
        downloaded(memory, len).len() == len,
        downloaded(memory, len)[i] == memory[i],
{
}

/// What was copied into memory is read back from it, and the bytes behind it are those
/// that were there before.
pub proof fn law_download_gives_back_upload(memory: Seq<u8>, data: Seq<u8>)
    requires
        data.len() <= memory.len(),
    ensures
        downloaded(uploaded(memory, data), data.len()) == data,
        uploaded(memory, data).len() == memory.len(),
        forall|i: int|
            data.len() <= i < memory.len() ==> #[trigger] uploaded(memory, data)[i] == memory[i],
{
    assert(downloaded(uploaded(memory, data), data.len()) =~= data);
}

/// A binding of a descriptor set layout.
#[derive(Clone, Copy, Debug, PartialEq, Eq, Structural)]
pub struct LayoutBinding {
    pub binding: u32,
    /// The kind of its descriptors, as the device takes it.
    pub kind: i32,
    pub descriptors: u32,
    /// The shader stages that use it, as the device takes them.
    pub stages: u32,
}

/// A binding of a descriptor set, pointed at a part of a buffer.
#[derive(Clone, Copy, Debug, PartialEq, Eq, Structural)]
pub struct DescriptorWrite {
    pub binding: u32,
    /// The kind of the descriptor, as the device takes it.
    pub kind: i32,
    /// The buffer.
    pub slot: usize,
    pub offset: u64,
    pub range: u64,
}

/// One storage buffer for each binding from 0 on, for the compute stage.
pub open spec fn bindings_for(count: u32) -> Seq<LayoutBinding> {
    Seq::new(
        count as nat,
        |i: int|
            LayoutBinding {
                binding: i as u32,
                kind: DESCRIPTOR_STORAGE_BUFFER,
                descriptors: 1,
                stages: STAGE_COMPUTE,
            },
    )
}

/// All of buffer `i`, as a storage buffer, for binding `i`.
pub open spec fn writes_for(sizes: Seq<u64>) -> Seq<DescriptorWrite> {
    Seq::new(
        sizes.len(),
        |i: int|
            DescriptorWrite {
                binding: i as u32,
                kind: DESCRIPTOR_STORAGE_BUFFER,
                slot: i as usize,
                offset: 0,
                range: sizes[i],
            },
    )
}

/// The bindings of a descriptor set layout.
pub fn layout_bindings(count: u32) -> (r: Vec<LayoutBinding>)
    ensures
        r@ == bindings_for(count),
        r@.len() == count,
        forall|i: int|
            0 <= i < count ==> {
                &&& (#[trigger] r@[i]).binding == i
                &&& r@[i].kind == 7
                &&& r@[i].descriptors == 1
                &&& r@[i].stages == 0x20
            },
{
    let mut list: Vec<LayoutBinding> = Vec::new();
    for i in 0..count
        invariant
            list@ =~= bindings_for(i),
    {
        list.push(
            LayoutBinding {
                binding: i,
                kind: DESCRIPTOR_STORAGE_BUFFER,
                descriptors: 1,
                stages: STAGE_COMPUTE,
            },
        );
    }
    list
}

/// The writes that point a descriptor set at buffers of the given sizes.
pub fn descriptor_writes(sizes: &Vec<u64>) -> (r: Vec<DescriptorWrite>)
    requires
        sizes@.len() <= u32::MAX,
    ensures
        r@ == writes_for(sizes@),
        r@.len() == sizes@.len(),
        forall|i: int|
            0 <= i < sizes@.len() ==> {
                &&& (#[trigger] r@[i]).binding == i
                &&& r@[i].kind == 7
                &&& r@[i].slot == i
                &&& r@[i].offset == 0
                &&& r@[i].range == sizes@[i]
            },
{
    let mut list: Vec<DescriptorWrite> = Vec::new();
    let count: usize = sizes.len();
    for i in 0..count
        invariant
            count == sizes@.len() <= u32::MAX,
            list@ =~= writes_for(sizes@.take(i as int)),
    {
        list.push(
            DescriptorWrite {
                binding: i as u32,
                kind: DESCRIPTOR_STORAGE_BUFFER,
                slot: i,
                offset: 0,
                range: sizes[i],
            },
        );
    }
    assert(sizes@.take(count as int) =~= sizes@);
    list
}

/// A descriptor covers the whole of its buffer: it starts where the buffer starts and is
/// as long as the buffer, whatever the sizes are.
pub proof fn law_descriptors_cover_their_buffers(sizes: Seq<u64>, i: int)
    requires
        sizes.len() <= u32::MAX,
        0 <= i < sizes.len(),
    ensures
        writes_for(sizes).len() == sizes.len(),
        writes_for(sizes)[i].binding == i,
        writes_for(sizes)[i].slot == i,
        writes_for(sizes)[i].offset == 0,
        writes_for(sizes)[i].offset + writes_for(sizes)[i].range == sizes[i],
        writes_for(sizes)[i].kind == 7,
{
}

/// Each binding of a layout holds one storage buffer and is there for the compute stage.
pub proof fn law_bindings_hold_one_storage_buffer(count: u32, i: int)
    requires
        0 <= i < count,
    ensures
        bindings_for(count).len() == count,
        bindings_for(count)[i].binding == i,
        bindings_for(count)[i].descriptors == 1,
        bindings_for(count)[i].kind == 7,
        bindings_for(count)[i].stages == 0x20,
{
}

/// Every binding of the layout for some buffers is written with a descriptor of its
/// kind, each by its own buffer, and nothing else is.
pub proof fn law_every_binding_is_written(sizes: Seq<u64>)
    requires
        sizes.len() <= u32::MAX,
    ensures
        writes_for(sizes).len() == bindings_for(sizes.len() as u32).len(),
        forall|i: int|
            0 <= i < sizes.len() ==> {
                &&& (#[trigger] writes_for(sizes)[i]).binding == bindings_for(
                    sizes.len() as u32,
                )[i].binding
                &&& writes_for(sizes)[i].kind == bindings_for(sizes.len() as u32)[i].kind
                &&& writes_for(sizes)[i].slot == i
            },
{
}

} // verus!
