use tiled_renderer::color::Color;
use tiled_renderer::renderer::{
    default_worker_count, RenderError, RenderState, Renderer, WorkerStatus,
};

fn placeholder() -> Color {
    Color::placeholder()
}

fn running(r: &Renderer, i: usize) -> bool {
    r.workers[i].status == WorkerStatus::Running
}

fn expect_invalid(r: Result<Renderer, RenderError>) {
    match r {
        Err(e) => assert_eq!(e, RenderError::InvalidConfiguration),
        Ok(_) => panic!("expected a configuration error"),
    }
}

#[test]
fn rejects_invalid_configuration() {
    expect_invalid(Renderer::new(0, 4, 1));
    expect_invalid(Renderer::new(4, 0, 1));
    expect_invalid(Renderer::new(4, 4, 0));
}

#[test]
fn new_renderer_starts_clean() {
    let r = Renderer::new(5, 3, 2).unwrap();
    assert_eq!(r.get_image_size(), [5, 3]);
    assert_eq!(r.get_progress(), (0, 15));
    assert_eq!(r.state, RenderState::Running);
    assert!(!r.cancel);
    let img = r.get_image();
    assert_eq!(img.len(), 15);
    for c in &img {
        assert_eq!(*c, placeholder());
    }
}

#[test]
fn single_worker_constant_color_fills_image() {
    // A 4 x 4 image, one worker, a scene that always answers the same
    // color: the final image is 16 pixels all equal to it, and progress
    // reaches completion.
    let c = Color::from_rgb(10, 20, 30);
    let mut r = Renderer::new(4, 4, 1).unwrap();
    while running(&r, 0) {
        assert!(r.current_pixel(0).is_some());
        r.step_worker(0, Some(c));
    }
    assert_eq!(r.get_progress(), (16, 16));
    let img = r.get_image();
    assert_eq!(img.len(), 16);
    for p in &img {
        assert_eq!(*p, c);
    }
}

#[test]
fn snapshot_is_a_point_in_time_copy() {
    let c = Color::from_rgb(1, 2, 3);
    let mut r = Renderer::new(3, 2, 1).unwrap();
    r.step_worker(0, Some(c));
    let snap = r.get_image();
    assert_eq!(snap.len(), 6);
    r.step_worker(0, Some(c));
    // The earlier snapshot still shows the placeholder in pixel 1.
    assert_eq!(snap[1], placeholder());
    assert_eq!(r.get_image()[1], c);
}

#[test]
fn progress_never_decreases_across_polls() {
    let c = Color::from_rgb(9, 9, 9);
    let mut r = Renderer::new(6, 2, 3).unwrap();
    let mut last = r.get_progress().0;
    for i in 0..3 {
        while running(&r, i) {
            r.step_worker(i, Some(c));
            let now = r.get_progress().0;
            assert!(now >= last);
            last = now;
        }
    }
    assert_eq!(r.get_progress(), (12, 12));
}

#[test]
fn failed_pixel_records_error_sentinel_and_render_continues() {
    let c = Color::from_rgb(40, 50, 60);
    let mut r = Renderer::new(2, 2, 1).unwrap();
    r.step_worker(0, Some(c));
    r.step_worker(0, None);
    while running(&r, 0) {
        r.step_worker(0, Some(c));
    }
    let img = r.get_image();
    assert_eq!(img[0], c);
    assert_eq!(img[1], Color::error());
    assert_eq!(img[2], c);
    assert_eq!(img[3], c);
    assert_eq!(r.get_progress(), (4, 4));
}

#[test]
fn cancellation_stops_each_worker_within_one_step() {
    let c = Color::from_rgb(7, 7, 7);
    let mut r = Renderer::new(8, 8, 2).unwrap();
    for _ in 0..3 {
        r.step_worker(0, Some(c));
    }
    r.request_cancel();
    assert_eq!(r.state, RenderState::Stopping);
    // Each still-running worker stops at its very next checkpoint.
    for i in 0..2 {
        if running(&r, i) {
            r.step_worker(i, Some(c));
            assert!(!running(&r, i));
        }
    }
    let (done, total) = r.get_progress();
    assert!(done <= 5);
    assert!(done < total);
}

#[test]
fn cancel_right_after_creation_leaves_mixed_image() {
    // Cancelling immediately: each worker writes at most one more pixel,
    // so the image is a mix of written pixels and placeholders, and the
    // renderer tears down cleanly.
    let c = Color::from_rgb(200, 100, 50);
    let mut r = Renderer::new(3, 3, 2).unwrap();
    r.request_cancel();
    for i in 0..2 {
        if running(&r, i) {
            r.step_worker(i, Some(c));
        }
    }
    r.teardown();
    let img = r.get_image();
    let written = img.iter().filter(|p| **p == c).count();
    let untouched = img.iter().filter(|p| **p == placeholder()).count();
    assert!(written <= 2);
    assert_eq!(written + untouched, 9);
    assert!(untouched > 0);
    assert_eq!(r.state, RenderState::Stopped);
}

#[test]
fn teardown_is_idempotent() {
    let c = Color::from_rgb(11, 22, 33);
    let mut r = Renderer::new(4, 3, 2).unwrap();
    r.step_worker(0, Some(c));
    r.teardown();
    let img_once = r.get_image();
    let progress_once = r.get_progress();
    let workers_once = r.workers.clone();
    assert_eq!(r.state, RenderState::Stopped);
    assert!(r.cancel);
    r.teardown();
    assert_eq!(r.get_image(), img_once);
    assert_eq!(r.get_progress(), progress_once);
    assert_eq!(r.workers, workers_once);
    assert_eq!(r.state, RenderState::Stopped);
}

#[test]
fn teardown_joins_all_workers_and_keeps_partial_result() {
    let c = Color::from_rgb(120, 130, 140);
    let mut r = Renderer::new(5, 4, 3).unwrap();
    r.step_worker(0, Some(c));
    r.step_worker(0, Some(c));
    r.teardown();
    for i in 0..3 {
        assert_eq!(r.workers[i].status, WorkerStatus::Stopped);
    }
    assert_eq!(r.get_progress().0, 2);
    let img = r.get_image();
    assert_eq!(img[0], c);
    assert_eq!(img[1], c);
    assert_eq!(img[2], placeholder());
}

#[test]
fn stop_worker_reports_early_exit_without_corrupting_progress() {
    let c = Color::from_rgb(1, 1, 1);
    let mut r = Renderer::new(4, 2, 2).unwrap();
    r.step_worker(0, Some(c));
    let before = r.get_progress();
    r.stop_worker(0);
    assert_eq!(r.workers[0].status, WorkerStatus::Stopped);
    assert_eq!(r.get_progress(), before);
    // The other worker is undisturbed and can still finish its range.
    while running(&r, 1) {
        r.step_worker(1, Some(c));
    }
    let (done, total) = r.get_progress();
    assert_eq!(total, 8);
    assert_eq!(done, 1 + 4);
}

#[test]
fn render_thread_run_completes_each_slice_with_one_flat_color() {
    let mut r = Renderer::new(4, 2, 2).unwrap();
    r.render_thread_run(0);
    r.render_thread_run(1);
    assert_eq!(r.get_progress(), (8, 8));
    let img = r.get_image();
    // Each worker paints its whole slice with a single opaque color.
    for p in 1..4 {
        assert_eq!(img[p], img[0]);
    }
    for p in 5..8 {
        assert_eq!(img[p], img[4]);
    }
    assert_eq!(img[0].a, 255);
    assert_eq!(img[4].a, 255);
}

#[test]
fn workers_with_empty_ranges_start_stopped() {
    // 2 pixels split five ways: at least three workers get an empty range
    // and must no-op.
    let r = Renderer::new(2, 1, 5).unwrap();
    let empty = (0..5).filter(|&i| !running(&r, i)).count();
    assert!(empty >= 3);
    let mut r = r;
    let c = Color::from_rgb(5, 6, 7);
    for i in 0..5 {
        while running(&r, i) {
            r.step_worker(i, Some(c));
        }
    }
    assert_eq!(r.get_progress(), (2, 2));
}

#[test]
fn current_pixel_walks_rows_in_order() {
    let c = Color::from_rgb(3, 3, 3);
    let mut r = Renderer::new(3, 2, 1).unwrap();
    let mut seen = Vec::new();
    while let Some(xy) = r.current_pixel(0) {
        seen.push(xy);
        r.step_worker(0, Some(c));
    }
    assert_eq!(
        seen,
        vec![[0, 0], [1, 0], [2, 0], [0, 1], [1, 1], [2, 1]]
    );
    assert_eq!(r.current_pixel(0), None);
}

#[test]
fn default_worker_count_is_at_least_one() {
    assert!(default_worker_count() >= 1);
}

#[test]
fn random_colors_are_opaque() {
    for _ in 0..8 {
        let c = tiled_renderer::color::random_color();
        assert_eq!(c.a, 255);
    }
}
