use wechat_cleaner::errors::Error;
use wechat_cleaner::format::format_size;
use wechat_cleaner::pattern::Pattern;
use wechat_cleaner::progress::{
    report_interval_for, should_report, Progress, ProgressLog, ProgressReporter,
};
use wechat_cleaner::records::{file_name, is_hidden, parent_dir, FileInfo};
use wechat_cleaner::scanner::{scan_records, ScanResult};
use wechat_cleaner::detect::DuplicateGroup;

fn rec(path: &str, size: u64, modified: u64) -> FileInfo {
    FileInfo::new(path.as_bytes().to_vec(), size, modified)
}

#[test]
fn test_file_name_and_parent() {
    assert_eq!(file_name(&b"a/b/c.txt".to_vec()), b"c.txt".to_vec());
    assert_eq!(parent_dir(&b"a/b/c.txt".to_vec()), b"a/b".to_vec());
    assert_eq!(file_name(&b"c.txt".to_vec()), b"c.txt".to_vec());
    assert_eq!(parent_dir(&b"c.txt".to_vec()), b"".to_vec());
    assert_eq!(file_name(&b"/c.txt".to_vec()), b"c.txt".to_vec());
    assert_eq!(parent_dir(&b"/c.txt".to_vec()), b"/".to_vec());
}

#[test]
fn test_hidden_names() {
    assert!(is_hidden(&b".DS_Store".to_vec()));
    assert!(is_hidden(&b".git".to_vec()));
    assert!(!is_hidden(&b"photo.jpg".to_vec()));
    assert!(!is_hidden(&b"".to_vec()));
}

#[test]
fn test_scan_of_nothing_is_source_unavailable() {
    let pat = Pattern::new(r"\(\d+\)\.[a-zA-Z0-9]+$").unwrap();
    let result = scan_records(&Vec::new(), &pat, &Vec::new(), 0);
    assert!(matches!(result, Err(Error::SourceUnavailable)));
}

#[test]
fn test_scan_result_counts_grouped_files() {
    let groups = vec![
        DuplicateGroup {
            key: b"photo".to_vec(),
            files: vec![rec("a/photo.jpg", 1, 1), rec("a/photo(1).jpg", 1, 2)],
        },
        DuplicateGroup {
            key: b"abc".to_vec(),
            files: vec![
                rec("b/x.bin", 2, 1),
                rec("b/y.bin", 2, 2),
                rec("b/z.bin", 2, 3),
            ],
        },
    ];
    let sr = ScanResult::new(9, groups, 17);
    assert_eq!(sr.total_files_count, 9);
    assert_eq!(sr.duplicate_count, 5);
    assert_eq!(sr.scan_time, 17);
    assert_eq!(sr.duplicate_files.len(), 2);
}

#[test]
fn test_error_kind_messages() {
    assert_eq!(
        Error::ConfigurationInvalid("x".to_string()).kind_message(),
        "configuration invalid"
    );
    assert_eq!(Error::SourceUnavailable.kind_message(), "source unavailable");
    assert_eq!(
        Error::FileProcessing("x".to_string()).kind_message(),
        "file processing failed"
    );
    assert_eq!(
        Error::PlanInvalid("x".to_string()).kind_message(),
        "plan invalid"
    );
}

#[test]
fn test_format_size_bytes_and_units() {
    assert_eq!(format_size(0), "0 B");
    assert_eq!(format_size(512), "512 B");
    assert_eq!(format_size(1023), "1023 B");
    assert_eq!(format_size(1024), "1.00 KB");
    assert_eq!(format_size(1536), "1.50 KB");
    assert_eq!(format_size(102400), "100.00 KB");
    assert_eq!(format_size(1048576), "1.00 MB");
    assert_eq!(format_size(1073741824), "1.00 GB");
    assert_eq!(format_size(1099511627776), "1.00 TB");
}

#[test]
fn test_report_interval_bounds() {
    assert_eq!(report_interval_for(0), 1);
    assert_eq!(report_interval_for(5), 1);
    assert_eq!(report_interval_for(100), 10);
    assert_eq!(report_interval_for(100000), 1000);
}

#[test]
fn test_should_report_every_interval() {
    assert!(should_report(0, 10));
    assert!(!should_report(5, 10));
    assert!(should_report(10, 10));
    assert!(should_report(3, 1));
}

#[test]
fn test_progress_state_transitions() {
    let mut p = Progress::new();
    assert_eq!(p.current(), 0);
    assert_eq!(p.total(), 0);
    assert!(!p.is_completed());

    p.set_total(10);
    p.set_current(5);
    p.set_message("halfway");
    assert_eq!(p.total(), 10);
    assert_eq!(p.current(), 5);
    assert_eq!(p.message(), "halfway");

    p.set_completed();
    assert!(p.is_completed());

    p.reset();
    assert_eq!(p.current(), 0);
    assert_eq!(p.total(), 0);
    assert!(!p.is_completed());
}

#[test]
fn test_progress_log_collects_events() {
    let mut log = ProgressLog::new();
    log.report_msg("starting");
    log.report_progress(1, 2, "working");
    log.report_complete();

    assert_eq!(log.len(), 3);
    assert_eq!(log.events[0].message, "starting");
    assert_eq!(log.events[1].current, 1);
    assert_eq!(log.events[1].total, 2);
    assert!(!log.events[1].completed);
    assert!(log.events[2].completed);
}
