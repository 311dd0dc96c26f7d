use ray_tracer::gpu::{
    valid_usage_bits, INDEX_SIZE, USAGE_COPY_DST, USAGE_COPY_SRC, USAGE_INDEX, USAGE_INDIRECT,
    USAGE_MAP_READ, USAGE_MAP_WRITE, USAGE_QUERY_RESOLVE, USAGE_STORAGE, USAGE_UNIFORM, USAGE_VERTEX, VERTEX_SIZE,
};

#[test]
fn usage_bits_match_wgpu() {
    assert_eq!(USAGE_MAP_READ, wgpu::BufferUsages::MAP_READ.bits());
    assert_eq!(USAGE_MAP_WRITE, wgpu::BufferUsages::MAP_WRITE.bits());
    assert_eq!(USAGE_COPY_SRC, wgpu::BufferUsages::COPY_SRC.bits());
    assert_eq!(USAGE_COPY_DST, wgpu::BufferUsages::COPY_DST.bits());
    assert_eq!(USAGE_INDEX, wgpu::BufferUsages::INDEX.bits());
    assert_eq!(USAGE_VERTEX, wgpu::BufferUsages::VERTEX.bits());
    assert_eq!(USAGE_UNIFORM, wgpu::BufferUsages::UNIFORM.bits());
    assert_eq!(USAGE_STORAGE, wgpu::BufferUsages::STORAGE.bits());
    assert_eq!(USAGE_INDIRECT, wgpu::BufferUsages::INDIRECT.bits());
    assert_eq!(USAGE_QUERY_RESOLVE, wgpu::BufferUsages::QUERY_RESOLVE.bits());
}

#[test]
fn usage_sets_that_can_be_created() {
    assert!(valid_usage_bits(USAGE_STORAGE | USAGE_COPY_DST));
    assert!(valid_usage_bits(USAGE_UNIFORM | USAGE_COPY_DST));
    assert!(valid_usage_bits(USAGE_VERTEX | USAGE_COPY_DST));
    assert!(valid_usage_bits(USAGE_INDEX | USAGE_COPY_DST));
    assert!(!valid_usage_bits(0));
    assert!(!valid_usage_bits(USAGE_MAP_READ | USAGE_COPY_DST));
    assert!(!valid_usage_bits(USAGE_INDEX | USAGE_VERTEX));
    assert!(!valid_usage_bits(1 << 10));
}

#[test]
fn element_sizes() {
    assert_eq!(VERTEX_SIZE, 4 * 4 * 3 + 4 * 2);
    assert_eq!(INDEX_SIZE, std::mem::size_of::<u32>() as u64);
    assert_eq!(wgpu::IndexFormat::default(), wgpu::IndexFormat::Uint32);
    assert_eq!(ray_tracer::gpu::WgpuIndexBuffer::index_format(), wgpu::IndexFormat::Uint32);
}
