use gpu_dispatch::buffer::{new_buffer, new_buffer_with_data, StorageMode};
use gpu_dispatch::byte_rep::{show_bytes, show_int, test_show_bytes};
use gpu_dispatch::codec::encode_words;
use gpu_dispatch::dispatch::{new_command_queue, record_dispatch, Dim3};
use gpu_dispatch::kernel::{new_compute_pipeline, Device, GpuError, KernelEntry};

fn test_device() -> Device {
    Device::with_limits(32, 1024).unwrap()
}

#[test]
fn shared_buffer_round_trips_host_data() {
    let device = test_device();
    let words = vec![0xdead_beefu32, 7, 0, u32::MAX];
    let bytes = encode_words(&words);
    let buffer = new_buffer_with_data(&device, &bytes, bytes.len(), StorageMode::Shared);
    assert_eq!(buffer.contents(), &bytes);
    assert_eq!(buffer.read(4).unwrap(), words);
}

#[test]
fn read_rejects_oversized_count() {
    let device = test_device();
    let bytes = vec![1u8, 2, 3, 4, 5, 6, 7, 8];
    let buffer = new_buffer_with_data(&device, &bytes, 8, StorageMode::Shared);
    assert_eq!(buffer.read(3), Err(GpuError::SizeMismatch));
    assert_eq!(buffer.read(2).unwrap(), vec![0x0403_0201, 0x0807_0605]);
}

#[test]
fn empty_buffer_reads_nothing() {
    let device = test_device();
    let buffer = new_buffer(&device, 0, StorageMode::Shared);
    assert_eq!(buffer.read(0).unwrap(), Vec::<u32>::new());
    assert_eq!(buffer.read(1), Err(GpuError::SizeMismatch));
}

#[test]
fn fresh_buffer_is_zeroed() {
    let device = test_device();
    let buffer = new_buffer(&device, 12, StorageMode::Shared);
    assert_eq!(buffer.length(), 12);
    assert_eq!(buffer.storage_mode(), StorageMode::Shared);
    assert_eq!(buffer.read(3).unwrap(), vec![0, 0, 0]);
}

#[test]
fn managed_buffer_is_stale_until_synchronized() {
    let device = test_device();
    let words = vec![0u32; 4];
    let bytes = encode_words(&words);
    let mut buffer = new_buffer_with_data(&device, &bytes, bytes.len(), StorageMode::Managed);
    let pipeline = new_compute_pipeline(&device, KernelEntry::Assign).unwrap();
    let dispatch = record_dispatch(&pipeline, Dim3::new(4, 1, 1), Dim3::new(4, 1, 1)).unwrap();
    let mut queue = new_command_queue(&device);
    let mut token = queue.submit_fill(&dispatch, &mut buffer);
    token.wait();
    assert_eq!(buffer.read(4).unwrap(), vec![0, 0, 0, 0]);
    let mut sync_token = queue.synchronize(&mut buffer);
    sync_token.wait();
    assert_eq!(buffer.read(4).unwrap(), vec![0, 1, 2, 3]);
}

#[test]
fn shared_buffer_sees_device_write_immediately() {
    let device = test_device();
    let a_bytes = encode_words(&vec![2u32, 3]);
    let b_bytes = encode_words(&vec![10u32, 20]);
    let a = new_buffer_with_data(&device, &a_bytes, a_bytes.len(), StorageMode::Shared);
    let b = new_buffer_with_data(&device, &b_bytes, b_bytes.len(), StorageMode::Shared);
    let mut out = new_buffer(&device, 8, StorageMode::Shared);
    let pipeline = new_compute_pipeline(&device, KernelEntry::DotProduct).unwrap();
    let dispatch = record_dispatch(&pipeline, Dim3::new(2, 1, 1), Dim3::new(2, 1, 1)).unwrap();
    let mut queue = new_command_queue(&device);
    let mut token = queue.submit_elementwise_product(&dispatch, &a, &b, &mut out);
    token.wait();
    assert_eq!(out.read(2).unwrap(), vec![20, 60]);
}

#[test]
fn show_bytes_renders_hex_pairs() {
    assert_eq!(show_bytes(&vec![0x0f, 0xa0]), " 0f a0");
    assert_eq!(show_bytes(&Vec::new()), "");
}

#[test]
fn show_int_renders_little_endian() {
    assert_eq!(show_int(12345), " 39 30 00 00");
    assert_eq!(show_int(-1), " ff ff ff ff");
    assert_eq!(show_int(0), " 00 00 00 00");
}

#[test]
fn test_show_bytes_matches_show_int() {
    assert_eq!(test_show_bytes(12345), " 39 30 00 00");
    assert_eq!(test_show_bytes(12345), show_int(12345));
}
