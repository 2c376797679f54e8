use vs_launcher::extract::{EntryStep, ZipExtraction};
use vs_launcher::paths::PathError;
use vs_launcher::progress::{Phase, Ratio};

fn names(list: &[&str]) -> Vec<String> {
    list.iter().map(|s| s.to_string()).collect()
}

#[test]
fn counting_pass_counts_only_selected_entries() {
    let x = ZipExtraction::new(names(&["a/", "a/b.txt", "c.txt", "a\\d.txt"]), Some("a".to_string()));
    assert_eq!(x.total(), 3);
    assert_eq!(x.processed(), 0);
    assert_eq!(x.prefix(), "a/");
    let all = ZipExtraction::new(names(&["a/", "a/b.txt", "c.txt"]), None);
    assert_eq!(all.total(), 3);
}

#[test]
fn round_trip_entry_lands_below_prefix() {
    let mut x = ZipExtraction::new(names(&["a/b.txt"]), Some("a/".to_string()));
    match x.step("/nonexistent-dest", false, Some(0o644), false) {
        Ok(EntryStep::Extract { path, is_dir, unix_mode, progress }) => {
            assert_eq!(path, "/nonexistent-dest/b.txt");
            assert!(!is_dir);
            assert_eq!(unix_mode, Some(0o644));
            assert_eq!(progress.phase, Phase::Extract);
            assert_eq!(progress.current, Some(1));
            assert_eq!(progress.count, Some(1));
            assert_eq!(progress.percent, Some(Ratio { part: 1, whole: 1 }));
            assert_eq!(progress.message, Some("Extracted a/b.txt".to_string()));
        }
        other => panic!("unexpected step: {:?}", other),
    }
    assert!(x.is_finished());
}

#[test]
fn nothing_selected_gives_only_skips() {
    let mut x = ZipExtraction::new(names(&["x/1.txt", "y/2.txt"]), Some("a/".to_string()));
    assert_eq!(x.total(), 0);
    while !x.is_finished() {
        assert!(matches!(x.step("/nonexistent-dest", false, None, false), Ok(EntryStep::Skip)));
    }
    assert_eq!(x.processed(), 0);
}

#[test]
fn processed_never_exceeds_total() {
    let mut x = ZipExtraction::new(
        names(&["a/", "b/skip.txt", "a/one.txt", "c/skip.txt", "a/sub/two.txt"]),
        Some("a".to_string()),
    );
    let mut emitted = Vec::new();
    while !x.is_finished() {
        match x.step("/nonexistent-dest", false, None, false).unwrap() {
            EntryStep::Skip => {}
            EntryStep::Extract { progress, .. } => emitted.push(progress.current.unwrap()),
        }
        assert!(x.processed() <= x.total());
    }
    assert_eq!(emitted, vec![1, 2, 3]);
    assert_eq!(x.processed(), x.total());
}

#[test]
fn traversal_entry_stops_extraction() {
    let mut x = ZipExtraction::new(names(&["ok.txt", "../../evil.txt", "later.txt"]), None);
    assert!(matches!(x.step("/nonexistent-dest", false, None, false), Ok(EntryStep::Extract { .. })));
    assert_eq!(x.step("/nonexistent-dest", false, None, false).unwrap_err(), PathError::UnsafePath);
    assert_eq!(x.processed(), 1);
    assert!(!x.is_finished());
}

#[test]
fn directory_entry_is_created() {
    let mut x = ZipExtraction::new(names(&["a/", "a/b/"]), Some("a/".to_string()));
    match x.step("/nonexistent-dest", true, None, false) {
        Ok(EntryStep::Extract { path, is_dir, .. }) => {
            assert_eq!(path, "/nonexistent-dest/");
            assert!(is_dir);
        }
        other => panic!("unexpected step: {:?}", other),
    }
    match x.step("/nonexistent-dest", true, None, false) {
        Ok(EntryStep::Extract { path, progress, .. }) => {
            assert_eq!(path, "/nonexistent-dest/b/");
            assert_eq!(progress.percent, Some(Ratio { part: 2, whole: 2 }));
        }
        other => panic!("unexpected step: {:?}", other),
    }
}

#[test]
fn traversal_entry_stops_extraction_under_relative_destination() {
    let mut x = ZipExtraction::new(names(&["..\\..\\evil.txt"]), None);
    assert_eq!(x.step(".", false, None, false).unwrap_err(), PathError::UnsafePath);
    assert_eq!(x.processed(), 0);
    assert!(!x.is_finished());
}
