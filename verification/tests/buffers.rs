use renderer::buffers::{BufferCapacity, BufferWrite, IndexCount};
use renderer::mesh_rendering::{
    ceil_to_next_multiple, checked_ceil_to_next_multiple, dynamic_offset, transform_offset,
};
use renderer::vertex_layout::{packed_attributes, transform_column_attributes};

#[test]
fn write_data_grows_only_when_needed() {
    let mut capacity = BufferCapacity::new(16);
    assert_eq!(capacity.write_data(8), BufferWrite::WriteInPlace);
    assert_eq!(capacity.byte_len(), 16);
    assert_eq!(capacity.write_data(16), BufferWrite::WriteInPlace);
    assert_eq!(capacity.write_data(64), BufferWrite::Recreate);
    assert_eq!(capacity.byte_len(), 64);
    assert_eq!(capacity.write_data(32), BufferWrite::WriteInPlace);
    assert_eq!(capacity.byte_len(), 64);
}

#[test]
fn write_data_shrinking_follows_the_data() {
    let mut capacity = BufferCapacity::new(16);
    assert_eq!(capacity.write_data_shrinking(8), BufferWrite::Recreate);
    assert_eq!(capacity.byte_len(), 8);
    assert_eq!(capacity.write_data_shrinking(8), BufferWrite::WriteInPlace);
    assert_eq!(capacity.write_data_shrinking(24), BufferWrite::Recreate);
    assert_eq!(capacity.byte_len(), 24);
}

#[test]
fn empty_buffer_grows_on_first_data() {
    let mut capacity = BufferCapacity::new(0);
    assert_eq!(capacity.write_data(0), BufferWrite::WriteInPlace);
    assert_eq!(capacity.write_data(1), BufferWrite::Recreate);
    assert_eq!(capacity.byte_len(), 1);
}

#[test]
fn index_count_draws_all_indices() {
    let count = IndexCount::new(6);
    assert_eq!(count.draw_count(), 0..6);
    let empty = IndexCount::new(0);
    assert_eq!(empty.draw_count(), 0..0);
}

#[test]
fn index_count_keeps_low_bits() {
    let count = IndexCount::new((1usize << 32) + 5);
    assert_eq!(count.draw_count(), 0..5);
}

#[test]
fn ceil_to_next_multiple_rounds_up() {
    assert_eq!(ceil_to_next_multiple(64, 256), 256);
    assert_eq!(ceil_to_next_multiple(256, 256), 256);
    assert_eq!(ceil_to_next_multiple(257, 256), 512);
    assert_eq!(ceil_to_next_multiple(0, 256), 0);
    assert_eq!(ceil_to_next_multiple(7, 1), 7);
    assert_eq!(ceil_to_next_multiple(10, 3), 12);
}

#[test]
fn transform_offsets_are_aligned() {
    let aligned = ceil_to_next_multiple(64, 256);
    assert_eq!(transform_offset(0, aligned), 0);
    assert_eq!(transform_offset(3, aligned), 768);
}

#[test]
fn dynamic_offsets_step_by_alignment() {
    assert_eq!(dynamic_offset(0, 256), 0);
    assert_eq!(dynamic_offset(2, 256), 512);
}

#[test]
fn transform_columns_follow_each_other() {
    let columns = transform_column_attributes(1, 2, 3, 4);
    let offsets: Vec<u64> = columns.iter().map(|c| c.offset).collect();
    let locations: Vec<u32> = columns.iter().map(|c| c.shader_location).collect();
    assert_eq!(offsets, vec![0, 12, 24, 36]);
    assert_eq!(locations, vec![1, 2, 3, 4]);
}

#[test]
fn checked_ceil_refuses_zero_step_and_overflow() {
    assert_eq!(checked_ceil_to_next_multiple(64, 256), Some(256));
    assert_eq!(checked_ceil_to_next_multiple(512, 256), Some(512));
    assert_eq!(checked_ceil_to_next_multiple(0, 7), Some(0));
    assert_eq!(checked_ceil_to_next_multiple(5, 0), None);
    assert_eq!(checked_ceil_to_next_multiple(u32::MAX as usize, 2), None);
    assert_eq!(checked_ceil_to_next_multiple(u32::MAX as usize, 1), Some(u32::MAX as u64));
}

#[test]
fn packed_attributes_follow_each_other_and_fill_the_stride() {
    let (attributes, stride) = packed_attributes(&vec![(12, 5), (4, 6), (4, 7)]);
    let offsets: Vec<u64> = attributes.iter().map(|a| a.offset).collect();
    let locations: Vec<u32> = attributes.iter().map(|a| a.shader_location).collect();
    assert_eq!(offsets, vec![0, 12, 16]);
    assert_eq!(locations, vec![5, 6, 7]);
    assert_eq!(stride, 20);
    let (none, empty_stride) = packed_attributes(&vec![]);
    assert!(none.is_empty());
    assert_eq!(empty_stride, 0);
}
