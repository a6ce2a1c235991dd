use gpu_list::binding::{BindGroupLayoutEntry, BufferBinding, BufferBindingType};
use gpu_list::gpu_list::{GpuList, GpuListable};
use gpu_list::limits::{ConfigError, Limits};

/// An element of sixty-four bytes on the device.
#[derive(Clone, Debug, PartialEq)]
struct Line(char);

impl GpuListable for Line {
    const MIN_SIZE: u64 = 64;
}

/// An element of sixteen bytes on the device.
#[derive(Clone, Debug, PartialEq)]
struct Disc;

impl GpuListable for Disc {
    const MIN_SIZE: u64 = 16;
}

/// An element that reports no size.
#[derive(Clone, Debug, PartialEq)]
struct Nothing;

impl GpuListable for Nothing {
    const MIN_SIZE: u64 = 0;
}

fn uniform_limits(max_binding: u32) -> Limits {
    Limits {
        max_uniform_buffer_binding_size: max_binding,
        min_uniform_buffer_offset_alignment: 256,
        max_storage_buffers_per_shader_stage: 0,
    }
}

fn storage_limits() -> Limits {
    Limits {
        max_uniform_buffer_binding_size: 65536,
        min_uniform_buffer_offset_alignment: 256,
        max_storage_buffers_per_shader_stage: 8,
    }
}

fn list_for(limits: &Limits) -> GpuList<Line> {
    match GpuList::new(limits) {
        Ok(list) => list,
        Err(error) => panic!("no list: {error:?}"),
    }
}

fn is_uniform(list: &GpuList<Line>) -> bool {
    matches!(list, GpuList::Uniform(_))
}

fn uploaded(list: &GpuList<Line>) -> Vec<Line> {
    match list {
        GpuList::Storage((buffer, _)) => buffer.get().clone(),
        GpuList::Uniform(buffer) => {
            buffer.chunks().iter().flat_map(|chunk| chunk.items().iter().cloned()).collect()
        }
    }
}

fn staged(list: &GpuList<Line>) -> Vec<Line> {
    match list {
        GpuList::Storage((_, staged)) => staged.clone(),
        GpuList::Uniform(buffer) => buffer.pending().items().clone(),
    }
}

#[test]
fn a_device_with_storage_buffers_gets_a_storage_list() {
    assert!(!is_uniform(&list_for(&storage_limits())));
    let mut limits = storage_limits();
    limits.max_storage_buffers_per_shader_stage = 1;
    assert!(!is_uniform(&list_for(&limits)));
}

#[test]
fn a_device_without_storage_buffers_gets_a_uniform_list() {
    let list = list_for(&uniform_limits(65536));
    assert!(is_uniform(&list));
    match &list {
        GpuList::Uniform(buffer) => assert_eq!(buffer.pending().capacity(), 1024),
        GpuList::Storage(_) => panic!("a storage list"),
    }
}

#[test]
fn a_storage_list_needs_no_alignment_and_no_room_in_a_binding() {
    let limits = Limits {
        max_uniform_buffer_binding_size: 0,
        min_uniform_buffer_offset_alignment: 0,
        max_storage_buffers_per_shader_stage: 4,
    };
    let mut list = list_for(&limits);
    let index = list.push(Line('a'));
    assert_eq!((index.index, index.dynamic_offset), (0, None));
}

#[test]
fn a_uniform_list_rejects_an_element_larger_than_a_binding() {
    let made = GpuList::<Line>::new(&uniform_limits(63));
    assert_eq!(
        made.err(),
        Some(ConfigError::ZeroBatchSize { element_min_size: 64, binding_size_cap: 63 })
    );
    let made = GpuList::<Nothing>::new(&uniform_limits(65536));
    assert_eq!(
        made.err(),
        Some(ConfigError::ZeroBatchSize { element_min_size: 0, binding_size_cap: 65536 })
    );
}

#[test]
fn storage_pushes_are_numbered_from_zero_without_offset() {
    let mut list = list_for(&storage_limits());
    let a = list.push(Line('a'));
    let b = list.push(Line('b'));
    let c = list.push(Line('c'));
    assert_eq!((a.index, a.dynamic_offset), (0, None));
    assert_eq!((b.index, b.dynamic_offset), (1, None));
    assert_eq!((c.index, c.dynamic_offset), (2, None));
    assert_eq!(staged(&list), vec![Line('a'), Line('b'), Line('c')]);
    assert!(uploaded(&list).is_empty());
}

#[test]
fn storage_write_takes_the_staged_elements_over() {
    let mut list = list_for(&storage_limits());
    list.push(Line('a'));
    list.push(Line('b'));
    list.push(Line('c'));
    list.write_buffer();
    assert!(staged(&list).is_empty());
    assert_eq!(uploaded(&list), vec![Line('a'), Line('b'), Line('c')]);
    let next = list.push(Line('d'));
    assert_eq!((next.index, next.dynamic_offset), (0, None));
    assert_eq!(staged(&list), vec![Line('d')]);
    assert_eq!(uploaded(&list), vec![Line('a'), Line('b'), Line('c')]);
}

#[test]
fn storage_write_replaces_what_was_uploaded() {
    let mut list = list_for(&storage_limits());
    list.push(Line('a'));
    list.write_buffer();
    list.push(Line('b'));
    list.push(Line('c'));
    list.write_buffer();
    assert_eq!(uploaded(&list), vec![Line('b'), Line('c')]);
    list.write_buffer();
    assert!(uploaded(&list).is_empty());
}

#[test]
fn storage_clear_drops_what_is_staged_only() {
    let mut list = list_for(&storage_limits());
    list.push(Line('a'));
    list.write_buffer();
    list.push(Line('b'));
    list.clear();
    assert!(staged(&list).is_empty());
    assert_eq!(uploaded(&list), vec![Line('a')]);
    let next = list.push(Line('c'));
    assert_eq!(next.index, 0);
}

#[test]
fn uniform_pushes_carry_the_offset_of_their_chunk() {
    let mut list = list_for(&uniform_limits(128));
    let a = list.push(Line('a'));
    let b = list.push(Line('b'));
    let c = list.push(Line('c'));
    assert_eq!((a.index, a.dynamic_offset), (0, Some(0)));
    assert_eq!((b.index, b.dynamic_offset), (1, Some(0)));
    assert_eq!((c.index, c.dynamic_offset), (0, Some(256)));
    list.write_buffer();
    assert_eq!(uploaded(&list), vec![Line('a'), Line('b'), Line('c')]);
    assert!(staged(&list).is_empty());
}

#[test]
fn a_list_that_was_never_written_has_no_binding() {
    for limits in [storage_limits(), uniform_limits(65536)] {
        let mut list = list_for(&limits);
        assert_eq!(list.binding(), None);
        list.clear();
        list.write_buffer();
        assert_eq!(list.binding(), None);
        list.push(Line('a'));
        assert_eq!(list.binding(), None);
    }
}

#[test]
fn a_written_storage_list_binds_the_whole_buffer() {
    let mut list = list_for(&storage_limits());
    list.push(Line('a'));
    list.write_buffer();
    assert_eq!(list.binding(), Some(BufferBinding { offset: 0, size: None }));
}

#[test]
fn a_written_uniform_list_binds_one_chunk() {
    let mut list = list_for(&uniform_limits(128));
    list.push(Line('a'));
    list.write_buffer();
    assert_eq!(list.binding(), Some(BufferBinding { offset: 0, size: Some(128) }));
}

#[test]
fn clear_then_write_leaves_the_binding_as_it_was() {
    for limits in [storage_limits(), uniform_limits(65536)] {
        let mut list = list_for(&limits);
        list.push(Line('a'));
        list.write_buffer();
        let binding = list.binding();
        assert!(binding.is_some());
        list.clear();
        list.write_buffer();
        assert_eq!(list.binding(), binding);
    }
}

#[test]
fn the_backend_is_the_same_after_two_frames() {
    for limits in [storage_limits(), uniform_limits(128)] {
        let mut list = list_for(&limits);
        let uniform = is_uniform(&list);
        for frame in 0..2 {
            list.clear();
            assert_eq!(is_uniform(&list), uniform);
            for value in ['a', 'b', 'c', 'd', 'e'] {
                list.push(Line(value));
                assert_eq!(is_uniform(&list), uniform);
            }
            list.write_buffer();
            assert_eq!(is_uniform(&list), uniform, "frame {frame}");
            assert_eq!(
                uploaded(&list),
                vec![Line('a'), Line('b'), Line('c'), Line('d'), Line('e')]
            );
        }
    }
}

#[test]
fn the_list_accepts_pushes_and_writes_in_ordinary_use() {
    for limits in [storage_limits(), uniform_limits(128)] {
        let mut list = list_for(&limits);
        assert!(list.accepts_push());
        assert!(list.accepts_write());
        list.push(Line('a'));
        assert!(list.accepts_push());
        assert!(list.accepts_write());
    }
}

#[test]
fn batch_size_is_none_for_storage() {
    assert_eq!(GpuList::<Line>::batch_size(&storage_limits()), None);
    assert_eq!(GpuList::<Nothing>::batch_size(&storage_limits()), None);
}

#[test]
fn batch_size_is_the_chunk_capacity_for_uniform() {
    assert_eq!(GpuList::<Line>::batch_size(&uniform_limits(65536)), Some(1024));
    assert_eq!(GpuList::<Line>::batch_size(&uniform_limits(u32::MAX)), Some(16384));
    assert_eq!(GpuList::<Disc>::batch_size(&uniform_limits(65536)), Some(4096));
    assert_eq!(GpuList::<Line>::batch_size(&uniform_limits(63)), Some(0));
    assert_eq!(GpuList::<Nothing>::batch_size(&uniform_limits(65536)), Some(0));
}

#[test]
fn the_layout_of_a_storage_list() {
    let entry = GpuList::<Line>::binding_layout(3, 0b101, &storage_limits());
    assert_eq!(
        entry,
        BindGroupLayoutEntry {
            binding: 3,
            visibility: 0b101,
            ty: BufferBindingType::Storage { read_only: true },
            has_dynamic_offset: false,
            min_binding_size: Some(64),
        }
    );
    let entry = GpuList::<Disc>::binding_layout(0, 1, &storage_limits());
    assert_eq!(entry.min_binding_size, Some(16));
}

#[test]
fn the_layout_of_a_uniform_list() {
    let entry = GpuList::<Line>::binding_layout(1, 0b010, &uniform_limits(65536));
    assert_eq!(
        entry,
        BindGroupLayoutEntry {
            binding: 1,
            visibility: 0b010,
            ty: BufferBindingType::Uniform,
            has_dynamic_offset: true,
            min_binding_size: None,
        }
    );
    let entry = GpuList::<Disc>::binding_layout(1, 0b010, &uniform_limits(65536));
    assert_eq!(entry.min_binding_size, None);
    assert!(entry.has_dynamic_offset);
}
