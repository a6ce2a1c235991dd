use gpu_list::limits::{Limits, MAX_REASONABLE_UNIFORM_BUFFER_BINDING_SIZE};

fn limits(max_binding: u32, alignment: u32, storage_buffers: u32) -> Limits {
    Limits {
        max_uniform_buffer_binding_size: max_binding,
        min_uniform_buffer_offset_alignment: alignment,
        max_storage_buffers_per_shader_stage: storage_buffers,
    }
}

#[test]
fn the_cap_is_one_mebibyte() {
    assert_eq!(MAX_REASONABLE_UNIFORM_BUFFER_BINDING_SIZE, 1 << 20);
}

#[test]
fn batch_size_divides_the_binding_size_by_the_element_size() {
    assert_eq!(limits(65536, 256, 0).batch_size_for(64), 1024);
    assert_eq!(limits(16384, 256, 0).batch_size_for(16), 1024);
    assert_eq!(limits(64, 256, 0).batch_size_for(16), 4);
}

#[test]
fn batch_size_rounds_down() {
    assert_eq!(limits(100, 256, 0).batch_size_for(16), 6);
    assert_eq!(limits(65536, 256, 0).batch_size_for(48), 1365);
    assert_eq!(limits(31, 256, 0).batch_size_for(16), 1);
}

#[test]
fn batch_size_is_capped_at_one_mebibyte() {
    assert_eq!(limits(1 << 30, 256, 0).batch_size_for(16), 65536);
    assert_eq!(limits(u32::MAX, 256, 0).batch_size_for(1), 1 << 20);
    assert_eq!(limits(1 << 20, 256, 0).batch_size_for(1 << 20), 1);
    assert_eq!(limits(u32::MAX, 256, 0).binding_size_cap(), 1 << 20);
    assert_eq!(limits(4096, 256, 0).binding_size_cap(), 4096);
}

#[test]
fn batch_size_is_zero_where_no_element_fits() {
    assert_eq!(limits(64, 256, 0).batch_size_for(65), 0);
    assert_eq!(limits(u32::MAX, 256, 0).batch_size_for((1 << 20) + 1), 0);
    assert_eq!(limits(0, 256, 0).batch_size_for(1), 0);
    assert_eq!(limits(65536, 256, 0).batch_size_for(u64::MAX), 0);
}

#[test]
fn batch_size_of_an_element_without_size_is_zero() {
    assert_eq!(limits(65536, 256, 0).batch_size_for(0), 0);
}

#[test]
fn batch_size_ignores_the_other_limits() {
    assert_eq!(limits(65536, 1, 0).batch_size_for(64), 1024);
    assert_eq!(limits(65536, 4096, 8).batch_size_for(64), 1024);
}

#[test]
fn storage_is_supported_where_a_stage_sees_a_storage_buffer() {
    assert!(!limits(65536, 256, 0).supports_storage());
    assert!(limits(65536, 256, 1).supports_storage());
    assert!(limits(65536, 256, 8).supports_storage());
}
