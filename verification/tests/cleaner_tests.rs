use wechat_cleaner::cleaner::{
    sort_records, CleaningPreview, CleaningResult, DeleteStatus, PreviewGroup,
};
use wechat_cleaner::detect::PathDigest;
use wechat_cleaner::errors::Error;
use wechat_cleaner::pattern::Pattern;
use wechat_cleaner::records::FileInfo;
use wechat_cleaner::scanner::scan_records;

fn rec(path: &str, size: u64, modified: u64) -> FileInfo {
    FileInfo::new(path.as_bytes().to_vec(), size, modified)
}

fn default_pattern() -> Pattern {
    Pattern::new(r"\(\d+\)\.[a-zA-Z0-9]+$").expect("the default pattern compiles")
}

fn digest_entry(path: &str, digest: &[u8]) -> PathDigest {
    PathDigest {
        path: path.as_bytes().to_vec(),
        digest: digest.to_vec(),
    }
}

#[test]
fn test_scenario_same_folder_auto_copy() {
    let records = vec![
        rec("cache/photo.jpg", 102400, 100),
        rec("cache/photo(1).jpg", 102400, 200),
    ];
    let sr = scan_records(&records, &default_pattern(), &Vec::new(), 0).unwrap();
    assert_eq!(sr.duplicate_files.len(), 1);

    let preview = CleaningPreview::from(&sr, 0).expect("the plan has one sub-group");
    assert_eq!(preview.file_groups.len(), 1);
    let group = &preview.file_groups[0];
    assert_eq!(group.parent_path, b"cache".to_vec());
    assert_eq!(group.file_to_keep.path, b"cache/photo.jpg".to_vec());
    assert_eq!(group.files_to_delete.len(), 1);
    assert_eq!(
        group.files_to_delete[0].path,
        b"cache/photo(1).jpg".to_vec()
    );
    assert_eq!(preview.estimated_files_count, 1);
    assert_eq!(preview.estimated_freed_space, 102400);
}

#[test]
fn test_scenario_cross_directory_never_deletes() {
    let records = vec![rec("a/one.bin", 50, 10), rec("b/two.bin", 50, 20)];
    let digest = [4u8; 16];
    let table = vec![
        digest_entry("a/one.bin", &digest),
        digest_entry("b/two.bin", &digest),
    ];
    let sr = scan_records(&records, &default_pattern(), &table, 0).unwrap();
    assert_eq!(sr.duplicate_files.len(), 1);
    assert_eq!(sr.duplicate_files[0].files.len(), 2);

    let preview = CleaningPreview::from(&sr, 0);
    assert!(preview.is_none());
}

#[test]
fn test_scenario_floor_filters_all_candidates() {
    let records = vec![
        rec("cache/photo.jpg", 100, 100),
        rec("cache/photo(1).jpg", 100, 200),
    ];
    let sr = scan_records(&records, &default_pattern(), &Vec::new(), 0).unwrap();
    assert_eq!(sr.duplicate_files.len(), 1);

    let preview = CleaningPreview::from(&sr, 1000);
    assert!(preview.is_none());
}

#[test]
fn test_keep_earliest_with_path_tie_break() {
    let records = vec![
        rec("d/c(1).jpg", 10, 5),
        rec("d/c(2).jpg", 10, 5),
        rec("d/c.jpg", 10, 7),
    ];
    let sr = scan_records(&records, &default_pattern(), &Vec::new(), 0).unwrap();
    let preview = CleaningPreview::from(&sr, 0).unwrap();
    assert_eq!(preview.file_groups.len(), 1);
    let group = &preview.file_groups[0];
    assert_eq!(group.file_to_keep.path, b"d/c(1).jpg".to_vec());
    assert_eq!(group.files_to_delete.len(), 2);
    assert_eq!(preview.estimated_files_count, 2);
    assert_eq!(preview.estimated_freed_space, 20);
}

#[test]
fn test_sort_records_orders_by_time_then_path() {
    let input = vec![rec("b", 1, 5), rec("a", 2, 5), rec("c", 3, 1)];
    let sorted = sort_records(&input);
    assert_eq!(sorted[0].path, b"c".to_vec());
    assert_eq!(sorted[1].path, b"a".to_vec());
    assert_eq!(sorted[2].path, b"b".to_vec());
}

#[test]
fn test_execution_counts_only_deleted_files() {
    let preview = CleaningPreview {
        file_groups: vec![PreviewGroup {
            parent_path: b"cache".to_vec(),
            file_to_keep: rec("cache/k.jpg", 10, 1),
            files_to_delete: vec![
                rec("cache/a.jpg", 100, 2),
                rec("cache/b.jpg", 200, 3),
                rec("cache/c.jpg", 400, 4),
            ],
        }],
        estimated_files_count: 3,
        estimated_freed_space: 700,
    };
    let statuses = vec![vec![
        DeleteStatus::Deleted,
        DeleteStatus::Failed,
        DeleteStatus::Deleted,
    ]];
    let outcome = CleaningResult::from_statuses(&preview, &statuses, 42).unwrap();
    assert_eq!(outcome.files_deleted, 2);
    assert_eq!(outcome.freed_space, 500);
    assert_eq!(outcome.clean_time, 42);
    assert_eq!(outcome.deleted_files.len(), 1);
    assert_eq!(outcome.deleted_files[0].parent_path, b"cache".to_vec());
    assert_eq!(
        outcome.deleted_files[0].files,
        vec![rec("cache/a.jpg", 100, 2), rec("cache/c.jpg", 400, 4)]
    );
}

#[test]
fn test_reexecuting_consumed_plan_is_harmless() {
    let preview = CleaningPreview {
        file_groups: vec![PreviewGroup {
            parent_path: b"cache".to_vec(),
            file_to_keep: rec("cache/k.jpg", 10, 1),
            files_to_delete: vec![rec("cache/a.jpg", 100, 2), rec("cache/b.jpg", 200, 3)],
        }],
        estimated_files_count: 2,
        estimated_freed_space: 300,
    };
    let statuses = vec![vec![DeleteStatus::AlreadyGone, DeleteStatus::AlreadyGone]];
    let outcome = CleaningResult::from_statuses(&preview, &statuses, 1).unwrap();
    assert_eq!(outcome.files_deleted, 0);
    assert_eq!(outcome.freed_space, 0);
    assert!(outcome.deleted_files.is_empty());
}

#[test]
fn test_statuses_that_do_not_fit_are_plan_invalid() {
    let preview = CleaningPreview {
        file_groups: vec![PreviewGroup {
            parent_path: b"cache".to_vec(),
            file_to_keep: rec("cache/k.jpg", 10, 1),
            files_to_delete: vec![rec("cache/a.jpg", 100, 2)],
        }],
        estimated_files_count: 1,
        estimated_freed_space: 100,
    };
    let too_few = Vec::new();
    assert!(matches!(
        CleaningResult::from_statuses(&preview, &too_few, 0),
        Err(Error::PlanInvalid(_))
    ));
    let wrong_width = vec![vec![DeleteStatus::Deleted, DeleteStatus::Deleted]];
    assert!(matches!(
        CleaningResult::from_statuses(&preview, &wrong_width, 0),
        Err(Error::PlanInvalid(_))
    ));
}

#[test]
fn test_empty_plan_means_nothing_to_clean() {
    let records = vec![rec("a/only.txt", 10, 1)];
    let sr = scan_records(&records, &default_pattern(), &Vec::new(), 0).unwrap();
    assert!(sr.duplicate_files.is_empty());
    assert!(CleaningPreview::from(&sr, 0).is_none());
}

#[test]
fn test_two_directories_two_sub_groups() {
    let records = vec![
        rec("a/pic.jpg", 30, 1),
        rec("a/pic(1).jpg", 30, 2),
        rec("b/pic.jpg", 30, 1),
        rec("b/pic(1).jpg", 30, 5),
    ];
    let sr = scan_records(&records, &default_pattern(), &Vec::new(), 0).unwrap();
    let preview = CleaningPreview::from(&sr, 0).unwrap();
    assert_eq!(preview.file_groups.len(), 2);
    assert_eq!(preview.estimated_files_count, 2);
    assert_eq!(preview.estimated_freed_space, 60);
    for group in &preview.file_groups {
        assert_eq!(group.files_to_delete.len(), 1);
    }
}

#[test]
fn test_floor_excludes_small_candidates_only() {
    let records = vec![
        rec("d/c.jpg", 2000, 1),
        rec("d/c(1).jpg", 2000, 5),
        rec("d/c(2).jpg", 500, 9),
    ];
    let sr = scan_records(&records, &default_pattern(), &Vec::new(), 0).unwrap();
    let preview = CleaningPreview::from(&sr, 1000).unwrap();
    assert_eq!(preview.file_groups.len(), 1);
    let group = &preview.file_groups[0];
    assert_eq!(group.file_to_keep.path, b"d/c.jpg".to_vec());
    assert_eq!(group.files_to_delete.len(), 1);
    assert_eq!(group.files_to_delete[0].path, b"d/c(1).jpg".to_vec());
    assert_eq!(preview.estimated_files_count, 1);
    assert_eq!(preview.estimated_freed_space, 2000);
}
