use gpu_list::binding::BufferBinding;
use gpu_list::storage_buffer::StorageBuffer;

#[test]
fn a_new_storage_buffer_has_no_binding() {
    let buffer: StorageBuffer<u32> = StorageBuffer::new();
    assert!(buffer.get().is_empty());
    assert_eq!(buffer.binding(), None);
}

#[test]
fn set_replaces_the_value_and_binds_nothing() {
    let mut buffer = StorageBuffer::new();
    buffer.set(vec![1u32, 2, 3]);
    assert_eq!(buffer.get(), &vec![1, 2, 3]);
    assert_eq!(buffer.binding(), None);
    buffer.set(vec![4]);
    assert_eq!(buffer.get(), &vec![4]);
}

#[test]
fn writing_elements_binds_the_whole_buffer() {
    let mut buffer = StorageBuffer::new();
    buffer.set(vec![1u32, 2, 3]);
    buffer.write_buffer();
    assert_eq!(buffer.get(), &vec![1, 2, 3]);
    assert_eq!(buffer.binding(), Some(BufferBinding { offset: 0, size: None }));
}

#[test]
fn writing_nothing_binds_nothing() {
    let mut buffer: StorageBuffer<u32> = StorageBuffer::new();
    buffer.write_buffer();
    assert_eq!(buffer.binding(), None);
    buffer.set(Vec::new());
    buffer.write_buffer();
    assert_eq!(buffer.binding(), None);
}

#[test]
fn a_written_buffer_stays_bound() {
    let mut buffer = StorageBuffer::new();
    buffer.set(vec![9u32]);
    buffer.write_buffer();
    buffer.set(Vec::new());
    buffer.write_buffer();
    assert!(buffer.get().is_empty());
    assert_eq!(buffer.binding(), Some(BufferBinding { offset: 0, size: None }));
}
