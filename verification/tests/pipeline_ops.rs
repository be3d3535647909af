use gpu_dispatch::dispatch::{new_command_queue, record_dispatch, Dim3};
use gpu_dispatch::kernel::{
    bundled_kernel_archive, new_compute_pipeline, Device, GpuError, KernelEntry, KernelLibrary,
};
use gpu_dispatch::matrix::Matrix;
use gpu_dispatch::ops::{dotprod, fill_exercise, prod, ComputeState, FILL_LENGTH};

fn test_device() -> Device {
    Device::with_limits(32, 1024).unwrap()
}

#[test]
fn dot_product_elementwise() {
    let device = test_device();
    let v = vec![3u32, 4, 1, 7, 10, 20];
    let w = vec![2u32, 5, 6, 9, 5, 10];
    let out = dotprod(&device, &v, &w).unwrap();
    assert_eq!(out, vec![6, 20, 6, 63, 50, 200]);
}

#[test]
fn dot_product_wraps_at_32_bits() {
    let device = test_device();
    let v = vec![0x1_0000u32, 3];
    let w = vec![0x1_0000u32, 5];
    let out = dotprod(&device, &v, &w).unwrap();
    assert_eq!(out, vec![0, 15]);
}

#[test]
fn dot_product_oversized_grid_is_refused() {
    let device = Device::with_limits(4, 4).unwrap();
    let v = vec![3u32, 4, 1, 7, 10, 20];
    let w = vec![2u32, 5, 6, 9, 5, 10];
    assert_eq!(dotprod(&device, &v, &w), Err(GpuError::GridSizeError));
}

#[test]
fn dot_product_at_exact_limit_succeeds() {
    let device = Device::with_limits(4, 6).unwrap();
    let v = vec![3u32, 4, 1, 7, 10, 20];
    let w = vec![2u32, 5, 6, 9, 5, 10];
    let out = dotprod(&device, &v, &w).unwrap();
    assert_eq!(out, vec![6, 20, 6, 63, 50, 200]);
}

#[test]
fn record_dispatch_validates_group_volume() {
    let device = Device::with_limits(4, 4).unwrap();
    let pipeline = new_compute_pipeline(&device, KernelEntry::DotProduct).unwrap();
    let ok = record_dispatch(&pipeline, Dim3::new(4, 1, 1), Dim3::new(4, 1, 1));
    assert!(ok.is_ok());
    let too_big = record_dispatch(&pipeline, Dim3::new(5, 1, 1), Dim3::new(5, 1, 1));
    assert_eq!(too_big.err(), Some(GpuError::GridSizeError));
}

#[test]
fn matrix_product_of_constant_matrices() {
    let device = test_device();
    let pipeline = new_compute_pipeline(&device, KernelEntry::MulMatrices).unwrap();
    let mut state = ComputeState {
        device,
        queue: new_command_queue(&device),
        pipeline,
    };
    let ma = Matrix::new(4, 4, vec![1u32; 16]);
    let mb = Matrix::new(4, 4, vec![2u32; 16]);
    let out = prod(&ma, &mb, &mut state).unwrap();
    assert_eq!(out, vec![8u32; 16]);
}

#[test]
fn matrix_product_known_values() {
    let device = test_device();
    let pipeline = new_compute_pipeline(&device, KernelEntry::MulMatrices).unwrap();
    let mut state = ComputeState {
        device,
        queue: new_command_queue(&device),
        pipeline,
    };
    let ma = Matrix::new(2, 2, vec![1u32, 2, 3, 4]);
    let mb = Matrix::new(2, 2, vec![5u32, 6, 7, 8]);
    let out = prod(&ma, &mb, &mut state).unwrap();
    assert_eq!(out, vec![19, 22, 43, 50]);
}

#[test]
fn fill_exercise_shows_visibility() {
    let device = test_device();
    let outcome = fill_exercise(&device).unwrap();
    assert_eq!(outcome.before_sync, vec![0u32; FILL_LENGTH]);
    assert_eq!(outcome.after_sync.len(), FILL_LENGTH);
    for (i, value) in outcome.after_sync.iter().enumerate() {
        assert_eq!(*value, i as u32);
    }
}

#[test]
fn fill_exercise_oversized_grid_is_refused() {
    let device = Device::with_limits(32, 512).unwrap();
    assert!(matches!(fill_exercise(&device), Err(GpuError::GridSizeError)));
}

#[test]
fn loader_rejects_invalid_archive() {
    let device = test_device();
    let blob = vec![1u8, 2, 3];
    assert!(matches!(
        KernelLibrary::load(&device, &blob),
        Err(GpuError::LoadError)
    ));
    let archive = bundled_kernel_archive();
    assert!(KernelLibrary::load(&device, &archive).is_ok());
}

#[test]
fn library_resolves_known_entries_only() {
    let device = test_device();
    let archive = bundled_kernel_archive();
    let lib = KernelLibrary::load(&device, &archive).unwrap();
    assert_eq!(lib.get_function("dot_product"), Ok(KernelEntry::DotProduct));
    assert_eq!(lib.get_function("mul_matrices"), Ok(KernelEntry::MulMatrices));
    assert_eq!(lib.get_function("assign"), Ok(KernelEntry::Assign));
    assert_eq!(lib.get_function("transpose"), Err(GpuError::EntryNotFound));
}

#[test]
fn pipeline_reports_device_limits() {
    let device = test_device();
    let pipeline = new_compute_pipeline(&device, KernelEntry::DotProduct).unwrap();
    assert_eq!(pipeline.thread_execution_width(), 32);
    assert_eq!(pipeline.max_total_threads_per_threadgroup(), 1024);
}

#[test]
fn device_refuses_impossible_limits() {
    assert!(Device::with_limits(0, 1024).is_none());
    assert!(Device::with_limits(64, 32).is_none());
    assert!(Device::with_limits(1, 1).is_some());
}

#[test]
fn matrix_helpers() {
    let m = Matrix::new(2, 3, vec![0u32; 6]);
    assert!(!m.is_square());
    assert_eq!(m.sizeof_entries(), 24);
    let s = Matrix::new(3, 3, vec![7u32; 9]);
    assert!(s.is_square());
}
