use ray_tracer::context::{grid_dim, RenderContext, SamplePosition};

#[test]
fn grid_dim_is_whole_square_root() {
    let cases = [(1u32, 1u32), (2, 1), (3, 1), (4, 2), (8, 2), (9, 3), (15, 3), (16, 4), (100, 10), (1000, 31)];
    for (n, d) in cases {
        assert_eq!(grid_dim(n), d, "n = {}", n);
    }
    assert_eq!(grid_dim(0), 0);
    assert_eq!(grid_dim(u32::MAX), 65535);
    assert_eq!(grid_dim(65536 * 65535), 65535);
}

#[test]
fn new_context_derives_the_grid() {
    let c = RenderContext::new(800, 600, 10, 1, 8, 2);
    assert_eq!(c.width, 800);
    assert_eq!(c.height, 600);
    assert_eq!(c.samples_per_pixel, 10);
    assert_eq!(c.sample_grid_dim, 3);
    assert_eq!(c.sample_grid_num, 9);
    assert_eq!(c.sample_id, 0);
    assert_eq!(c.sample_position, SamplePosition { x: 0, y: 0 });
    assert_eq!(c.max_ray_bounces, 8);
    assert_eq!(c.important_index_len, 2);
    assert_eq!(c.pixels(), 480_000);
}

#[test]
fn sample_id_maps_to_grid_cell() {
    let mut c = RenderContext::new(4, 4, 16, 1, 4, 0);
    c.set_sample_id(6);
    assert_eq!(c.sample_position, SamplePosition { x: 2, y: 1 });
    c.set_sample_id(15);
    assert_eq!(c.sample_position, SamplePosition { x: 3, y: 3 });
    // past the grid the cell stays where it was
    c.set_sample_id(16);
    assert_eq!(c.sample_id, 16);
    assert_eq!(c.sample_position, SamplePosition { x: 3, y: 3 });
    c.reset_sample_id();
    assert_eq!(c.sample_id, 0);
    assert_eq!(c.sample_position, SamplePosition { x: 0, y: 0 });
}

#[test]
fn increment_is_clamped_at_target() {
    let mut c = RenderContext::new(4, 4, 10, 4, 4, 0);
    c.increment_sample_id();
    assert_eq!(c.sample_id, 4);
    assert_eq!(c.sample_position, SamplePosition { x: 1, y: 1 });
    c.increment_sample_id();
    assert_eq!(c.sample_id, 8);
    c.increment_sample_id();
    assert_eq!(c.sample_id, 10);
    c.increment_sample_id();
    assert_eq!(c.sample_id, 10);
}

#[test]
fn set_samples_per_pixel_updates_grid() {
    let mut c = RenderContext::new(4, 4, 1, 1, 4, 0);
    assert_eq!((c.sample_grid_dim, c.sample_grid_num), (1, 1));
    c.set_samples_per_pixel(50);
    assert_eq!((c.samples_per_pixel, c.sample_grid_dim, c.sample_grid_num), (50, 7, 49));
}

#[test]
fn update_reports_size_change() {
    let mut c = RenderContext::new(4, 4, 1, 1, 4, 0);
    assert!(!c.update(4, 4));
    assert!(c.update(8, 4));
    assert_eq!((c.width, c.height), (8, 4));
    assert!(!c.update(8, 4));
    assert_eq!(c.pixels(), 32);
}
