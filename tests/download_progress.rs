use vs_launcher::download::{
    archive_file_name, archive_path, disposition_filename, has_zip_extension, is_success_status,
    url_last_segment, DownloadCounter,
};
use vs_launcher::progress::{
    download_progress, extract_progress, tool_extract_progress, Phase, Ratio,
};

#[test]
fn unknown_length_download_reports_bytes_without_percent() {
    let mut c = DownloadCounter::new(None);
    let mut last = 0;
    for _ in 0..10 {
        let p = c.record_chunk(100);
        assert_eq!(p.phase, Phase::Download);
        let d = p.downloaded.unwrap();
        assert!(d > last);
        last = d;
        assert_eq!(p.total, None);
        assert_eq!(p.percent, None);
    }
    assert_eq!(c.downloaded(), 1000);
}

#[test]
fn known_length_download_reports_share() {
    let mut c = DownloadCounter::new(Some(400));
    let p = c.record_chunk(100);
    assert_eq!(p.total, Some(400));
    assert_eq!(p.percent, Some(Ratio { part: 100, whole: 400 }));
    let p = c.record_chunk(300);
    assert_eq!(p.percent, Some(Ratio { part: 400, whole: 400 }));
}

#[test]
fn progress_payload_shapes() {
    let d = download_progress(5, Some(10));
    assert_eq!(d.current, None);
    assert_eq!(d.message, None);
    let e = extract_progress(0, 0, "x");
    assert_eq!(e.percent, None);
    assert_eq!(e.count, Some(0));
    let t = tool_extract_progress();
    assert_eq!(t.phase, Phase::Extract);
    assert_eq!(t.percent, None);
}

#[test]
fn status_codes() {
    assert!(is_success_status(200));
    assert!(is_success_status(299));
    assert!(!is_success_status(199));
    assert!(!is_success_status(404));
}

#[test]
fn disposition_header_gives_file_name() {
    assert_eq!(
        disposition_filename("attachment; filename=\"example.zip\""),
        Some("example.zip".to_string())
    );
    assert_eq!(disposition_filename("attachment;filename=a.tar.gz"), Some("a.tar.gz".to_string()));
    assert_eq!(disposition_filename("attachment"), None);
    assert_eq!(disposition_filename("inline; name=x"), None);
    assert_eq!(
        disposition_filename("attachment;  filename=filename=b.zip ; filename=c.zip"),
        Some("b.zip".to_string())
    );
}

#[test]
fn file_name_falls_back_to_url_then_default() {
    assert_eq!(url_last_segment("https://h/a/b/game.zip"), "game.zip");
    assert_eq!(url_last_segment("https://h/a/"), "");
    assert_eq!(
        archive_file_name(Some("attachment; filename=\"x.zip\""), "https://h/y.tar.gz", false),
        "x.zip"
    );
    assert_eq!(archive_file_name(None, "https://h/y.tar.gz", true), "y.tar.gz");
    assert_eq!(archive_file_name(Some("attachment"), "https://h/d/", true), "downloaded_file.zip");
    assert_eq!(archive_file_name(None, "https://h/d/", false), "downloaded_file.tar.gz");
    assert_eq!(archive_path("/dl", None, "https://h/g.zip", false), "/dl/g.zip");
}

#[test]
fn zip_extension_in_any_case() {
    assert!(has_zip_extension("/dl/game.zip"));
    assert!(has_zip_extension("/dl/game.ZIP"));
    assert!(has_zip_extension("game.v1.Zip"));
    assert!(!has_zip_extension("/dl/game.tar.gz"));
    assert!(!has_zip_extension("/dl/.zip"));
    assert!(!has_zip_extension("/dl.zip/game"));
    assert!(!has_zip_extension("zip"));
}
