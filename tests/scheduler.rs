use ray_tracer::context::RenderContext;
use ray_tracer::scheduler::{FrameScheduler, RenderStatue};

fn scheduler(spp: u32, per_frame: u32) -> FrameScheduler {
    FrameScheduler::new(RenderContext::new(640, 480, spp, per_frame, 8, 0))
}

#[test]
fn cursor_after_k_frames_is_min_of_k_times_step_and_target() {
    for (spp, step) in [(10u32, 1u32), (10, 3), (64, 4), (7, 7), (5, 9), (9, 0)] {
        let mut s = scheduler(spp, step);
        let mut previous = 0;
        for k in 0..30u32 {
            assert_eq!(s.context.sample_id, std::cmp::min(k * step, spp), "spp {} step {} k {}", spp, step, k);
            assert!(s.context.sample_id >= previous);
            previous = s.context.sample_id;
            assert!(!s.next_frame());
        }
    }
}

#[test]
fn resize_restarts_sampling() {
    let mut s = scheduler(16, 2);
    for _ in 0..5 {
        s.next_frame();
    }
    assert_eq!(s.context.sample_id, 10);
    assert!(s.on_resize(1024, 768));
    assert!(s.should_rerender);
    assert_eq!((s.context.width, s.context.height), (1024, 768));
    assert!(s.next_frame());
    assert_eq!(s.context.sample_id, 0);
    assert!(!s.next_frame());
    assert_eq!(s.context.sample_id, 2);
}

#[test]
fn zero_size_resize_changes_nothing() {
    let mut s = scheduler(16, 2);
    s.next_frame();
    let before = s;
    assert!(!s.on_resize(0, 768));
    assert!(!s.on_resize(1024, 0));
    assert_eq!(s, before);
}

#[test]
fn camera_change_restarts_sampling() {
    let mut s = scheduler(16, 4);
    s.next_frame();
    s.next_frame();
    assert_eq!(s.context.sample_id, 8);
    s.on_update(8, 16, true, 640, 480);
    assert!(s.next_frame());
    assert_eq!(s.context.sample_id, 0);
}

#[test]
fn settings_change_restarts_sampling() {
    let mut s = scheduler(16, 4);
    s.next_frame();
    s.on_update(8, 16, false, 640, 480);
    assert!(!s.should_rerender);
    assert!(!s.next_frame());
    assert_eq!(s.context.sample_id, 8);

    s.on_update(3, 16, false, 640, 480);
    assert_eq!(s.context.max_ray_bounces, 3);
    assert!(s.next_frame());
    assert_eq!(s.context.sample_id, 0);

    s.next_frame();
    s.on_update(3, 100, false, 640, 480);
    assert_eq!((s.context.samples_per_pixel, s.context.sample_grid_dim), (100, 10));
    assert!(s.next_frame());
    assert_eq!(s.context.sample_id, 0);
}

#[test]
fn take_rerender_consumes_the_flag() {
    let mut s = scheduler(4, 1);
    assert!(!s.take_rerender());
    s.on_resize(2, 2);
    assert!(s.take_rerender());
    assert!(!s.take_rerender());
}

#[test]
fn status_reports_cursor_and_target() {
    let mut s = scheduler(20, 5);
    s.next_frame();
    assert_eq!(
        s.status(60),
        RenderStatue { sampled_count: 5, total_sample: 20, frames_per_second: 60 }
    );
}

#[test]
fn window_size_change_in_update_restarts_sampling() {
    let mut s = scheduler(16, 4);
    s.next_frame();
    s.on_update(8, 16, false, 800, 480);
    assert_eq!((s.context.width, s.context.height), (800, 480));
    assert!(s.next_frame());
    assert_eq!(s.context.sample_id, 0);
}

#[test]
fn zero_size_in_update_keeps_the_size() {
    let mut s = scheduler(16, 4);
    s.next_frame();
    s.on_update(8, 16, false, 0, 480);
    assert_eq!((s.context.width, s.context.height), (640, 480));
    assert!(!s.should_rerender);
    assert!(!s.next_frame());
    assert_eq!(s.context.sample_id, 8);
}
