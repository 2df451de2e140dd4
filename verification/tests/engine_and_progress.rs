use photo_ingest::engine::plan_destinations;
use photo_ingest::progress::ProgressTracker;

fn path(segments: &[&str]) -> Vec<String> {
    segments.iter().map(|s| String::from(*s)).collect()
}

#[test]
fn plan_without_auto_rename_keeps_every_relative_path() {
    let files = vec![path(&["105MSDCF", "IMG_01.JPG"]), path(&["105MSDCF", "IMG_02.JPG"])];
    let dests = plan_destinations(&files, &Some(String::from("Trip")), false);
    assert_eq!(dests, files);
}

#[test]
fn plan_without_prefix_keeps_every_relative_path() {
    let files = vec![path(&["105MSDCF", "IMG_01.JPG"])];
    let dests = plan_destinations(&files, &None, true);
    assert_eq!(dests, files);
}

#[test]
fn plan_with_auto_rename_transforms_each_first_segment() {
    let files = vec![
        path(&["105MSDCF", "IMG_01.JPG"]),
        path(&["loose.jpg"]),
        path(&["NODIGITS", "IMG_02.JPG"]),
    ];
    let dests = plan_destinations(&files, &Some(String::from("Trip")), true);
    assert_eq!(
        dests,
        vec![
            path(&["Trip 05", "IMG_01.JPG"]),
            path(&["loose.jpg"]),
            path(&["NODIGITS", "IMG_02.JPG"]),
        ]
    );
}

#[test]
fn empty_operation_has_nothing_to_track() {
    let t = ProgressTracker::new(0);
    assert_eq!(t.total, 0);
    assert_eq!(t.copied, 0);
}

#[test]
fn final_event_always_reports_completion() {
    let mut t = ProgressTracker::new(3);
    assert!(t.record_copied("a.jpg", false).is_none());
    assert!(t.record_copied("b.jpg", false).is_none());
    let last = t.record_copied("c.jpg", false).expect("the last file always emits");
    assert_eq!(last.total, 3);
    assert_eq!(last.copied, 3);
    assert_eq!(last.current_file, String::from("c.jpg"));
    let percentage = (last.copied as f32 / last.total as f32) * 100.0;
    assert_eq!(percentage, 100.0);
}

#[test]
fn elapsed_throttle_window_emits_an_event() {
    let mut t = ProgressTracker::new(2);
    let ev = t.record_copied("a.jpg", true).expect("an elapsed window emits");
    assert_eq!(ev.total, 2);
    assert_eq!(ev.copied, 1);
    assert_eq!(ev.current_file, String::from("a.jpg"));
}

#[test]
fn emitted_progress_never_decreases() {
    let mut t = ProgressTracker::new(5);
    let mut copied_values = Vec::new();
    for name in ["a.jpg", "b.jpg", "c.jpg", "d.jpg", "e.jpg"] {
        if let Some(ev) = t.record_copied(name, true) {
            copied_values.push(ev.copied);
        }
    }
    assert_eq!(copied_values, vec![1, 2, 3, 4, 5]);
    for w in copied_values.windows(2) {
        assert!(w[0] <= w[1]);
    }
    assert_eq!(t.copied, t.total);
}
