use path_tracer::renderer::{progress_report, RenderOptions};
use path_tracer::session::{
    new_sphere_name, render_file_name, RenderSession, H, PREVIEW_SCALE, PREVIEW_SETTLE_MS, W,
};

#[test]
fn progress_thirds() {
    assert_eq!(progress_report(0, 3), Some(33));
    assert_eq!(progress_report(1, 3), Some(66));
    assert_eq!(progress_report(2, 3), Some(100));
}

#[test]
fn progress_only_on_change() {
    // 200 rows: every second row moves the percentage.
    assert_eq!(progress_report(0, 200), None);
    assert_eq!(progress_report(1, 200), Some(1));
    assert_eq!(progress_report(2, 200), None);
    assert_eq!(progress_report(199, 200), Some(100));
}

#[test]
fn progress_last_row_is_hundred() {
    for total in [1usize, 2, 3, 7, 99, 100, 101, 600, 1234] {
        assert_eq!(progress_report(total - 1, total), Some(100));
    }
}

#[test]
fn progress_reports_increase() {
    let total = 600;
    let reports: Vec<usize> = (0..total).filter_map(|r| progress_report(r, total)).collect();
    assert_eq!(reports, (1..=100).collect::<Vec<usize>>());
}

#[test]
fn render_options_hold_settings() {
    let opts = RenderOptions { antialiasing: true, sample_count: 1, thread_count: 10, recursion_depth: 16 };
    let copy = opts;
    assert!(copy.antialiasing);
    assert_eq!(copy.sample_count, 1);
    assert_eq!(copy.thread_count, 10);
    assert_eq!(copy.recursion_depth, 16);
}

#[test]
fn session_starts_full() {
    let s = RenderSession::new();
    assert_eq!((s.width(), s.height()), (W, H));
    assert_eq!((s.width(), s.height()), (800, 600));
    assert_eq!(s.sample_count(), 0);
    assert!(!s.is_preview());
}

#[test]
fn session_edit_goes_preview() {
    let mut s = RenderSession::new();
    s.record_sample();
    s.record_sample();
    assert_eq!(s.sample_count(), 2);
    assert_eq!(s.end_frame(true, 5000), Some((W / PREVIEW_SCALE, H / PREVIEW_SCALE)));
    assert_eq!((s.width(), s.height()), (400, 300));
    assert!(s.is_preview());
    assert_eq!(s.sample_count(), 0);
}

#[test]
fn session_preview_settles_to_full() {
    let mut s = RenderSession::new();
    s.end_frame(true, 0);
    s.record_sample();
    assert_eq!(s.end_frame(false, 0), None);
    assert_eq!(s.end_frame(false, PREVIEW_SETTLE_MS - 1), None);
    assert_eq!(s.sample_count(), 1);
    assert!(s.is_preview());
    assert_eq!(s.end_frame(false, PREVIEW_SETTLE_MS), Some((800, 600)));
    assert!(!s.is_preview());
    assert_eq!(s.sample_count(), 0);
}

#[test]
fn session_full_resolution_stable() {
    let mut s = RenderSession::new();
    s.record_sample();
    assert_eq!(s.end_frame(false, 10_000), None);
    assert_eq!(s.end_frame(false, 0), None);
    assert_eq!(s.sample_count(), 1);
    assert_eq!((s.width(), s.height()), (800, 600));
}

#[test]
fn session_repeated_edits_stay_preview() {
    let mut s = RenderSession::new();
    for _ in 0..3 {
        assert_eq!(s.end_frame(true, 0), Some((400, 300)));
        s.record_sample();
    }
    assert_eq!(s.sample_count(), 1);
    assert!(s.is_preview());
}

#[test]
fn render_file_names() {
    assert_eq!(render_file_name(1), "render_001.ppm");
    assert_eq!(render_file_name(0), "render_000.ppm");
    assert_eq!(render_file_name(42), "render_042.ppm");
    assert_eq!(render_file_name(999), "render_999.ppm");
    assert_eq!(render_file_name(1234), "render_1234.ppm");
    assert_eq!(render_file_name(u32::MAX), "render_4294967295.ppm");
}

#[test]
fn render_file_names_distinct() {
    let names: std::collections::HashSet<String> = (0..2000u32).map(render_file_name).collect();
    assert_eq!(names.len(), 2000);
}

#[test]
fn sphere_names() {
    assert_eq!(new_sphere_name(0), "Sphere 1");
    assert_eq!(new_sphere_name(13), "Sphere 14");
}
