use rustcord::bulk_cache::cache_file_name;
use rustcord::bulk_cache::current_cache_file_name;
use rustcord::bulk_cache::find_cached;
use rustcord::bulk_cache::is_kept_download;
use rustcord::bulk_cache::judge;
use rustcord::bulk_cache::CacheFile;
use rustcord::bulk_cache::FileAge;
use rustcord::bulk_cache::Verdict;
use rustcord::bulk_cache::MAX_AGE;
use rustcord::clock::UtcTime;

fn moment(year: i32, month: u8, day: u8, hour: u8, minute: u8, second: u8) -> UtcTime {
    UtcTime { julian_day: 0, year, month, day, hour, minute, second }
}

fn file(name: &str, age: FileAge) -> CacheFile {
    CacheFile { name: Some(name.to_string()), age }
}

const KEPT: &str = "default-cards-20260831120000+0000.jsonl.gz";

#[test]
fn a_download_is_named_after_its_moment() {
    assert_eq!(
        cache_file_name(&moment(2026, 8, 31, 9, 5, 7)),
        "default-cards-20260831090507+0000.jsonl.gz"
    );
    assert_eq!(
        cache_file_name(&moment(7, 12, 1, 23, 59, 59)),
        "default-cards-00071201235959+0000.jsonl.gz"
    );
}

#[test]
fn odd_years_are_written_as_std_writes_them() {
    for year in [-9999, -1000, -999, -5, 0, 12, 999, 1000, 9999, 12345, i32::MIN, i32::MAX] {
        let expected = format!("default-cards-{year:04}0102030405+0000.jsonl.gz");
        assert_eq!(cache_file_name(&moment(year, 1, 2, 3, 4, 5)), expected);
    }
}

#[test]
fn a_name_given_now_is_recognised() {
    let name = current_cache_file_name();
    assert_eq!(judge(&name, FileAge::Seconds(0)), Verdict::Use);
    assert_eq!(name.len(), KEPT.len());
    let year: i32 = name[14..18].parse().unwrap();
    assert!(year >= 2024);
}

#[test]
fn a_kept_download_expires_after_a_week() {
    assert_eq!(MAX_AGE, 168 * 60 * 60);
    assert_eq!(judge(KEPT, FileAge::Seconds(0)), Verdict::Use);
    assert_eq!(judge(KEPT, FileAge::Seconds(604_799)), Verdict::Use);
    assert_eq!(judge(KEPT, FileAge::Seconds(604_800)), Verdict::Delete);
    assert_eq!(judge(KEPT, FileAge::Ahead), Verdict::Delete);
    assert_eq!(judge(KEPT, FileAge::Unknown), Verdict::Ignore);
}

#[test]
fn other_files_are_left_alone() {
    for name in ["Cargo.toml", "default-cards-1.jsonl", "x-default-cards-1.jsonl.gz", "default-cards", ""] {
        assert_eq!(judge(name, FileAge::Seconds(u64::MAX)), Verdict::Ignore);
        assert_eq!(judge(name, FileAge::Seconds(0)), Verdict::Ignore);
    }
    assert_eq!(judge("default-cards-.jsonl.gz", FileAge::Seconds(0)), Verdict::Use);
}

#[test]
fn names_tell_moments_apart() {
    let one = cache_file_name(&moment(2026, 1, 11, 1, 1, 1));
    let other = cache_file_name(&moment(2026, 11, 1, 1, 1, 1));
    assert_ne!(one, other);
}

#[test]
fn the_last_usable_file_is_found() {
    let files = vec![
        file("README.md", FileAge::Seconds(1)),
        file("default-cards-1.jsonl.gz", FileAge::Seconds(10)),
        file("default-cards-2.jsonl.gz", FileAge::Seconds(700_000)),
        file("default-cards-3.jsonl.gz", FileAge::Seconds(20)),
        file("default-cards-4.jsonl.gz", FileAge::Unknown),
        file("default-cards-5.jsonl.gz", FileAge::Ahead),
    ];
    let scan = find_cached(&files);
    assert_eq!(scan.found, Some(3));
    assert_eq!(scan.stale, vec![2, 5]);
}

#[test]
fn an_empty_directory_has_nothing() {
    let scan = find_cached(&vec![]);
    assert_eq!(scan.found, None);
    assert!(scan.stale.is_empty());
}

#[test]
fn a_file_without_a_name_ends_the_search() {
    let files = vec![
        file("default-cards-1.jsonl.gz", FileAge::Seconds(700_000)),
        file("default-cards-2.jsonl.gz", FileAge::Seconds(1)),
        CacheFile { name: None, age: FileAge::Seconds(1) },
        file("default-cards-3.jsonl.gz", FileAge::Seconds(700_000)),
        file("default-cards-4.jsonl.gz", FileAge::Seconds(1)),
    ];
    let scan = find_cached(&files);
    assert_eq!(scan.found, None);
    assert_eq!(scan.stale, vec![0]);
}

#[test]
fn a_saved_download_is_found_again() {
    let name = cache_file_name(&moment(2026, 8, 31, 9, 5, 7));
    let files = vec![
        file("default-cards-0.jsonl.gz", FileAge::Seconds(5)),
        file(&name, FileAge::Seconds(604_799)),
        file("notes.txt", FileAge::Seconds(0)),
    ];
    let scan = find_cached(&files);
    assert_eq!(scan.found, Some(1));
    assert!(scan.stale.is_empty());
}

#[test]
fn kept_downloads_are_told_by_both_ends_of_their_names() {
    assert!(is_kept_download(KEPT));
    assert!(is_kept_download("default-cards-.jsonl.gz"));
    assert!(!is_kept_download("default-cards-1.jsonl"));
    assert!(!is_kept_download("all-cards-1.jsonl.gz"));
    assert!(!is_kept_download("default-cards.jsonl.gz"));
    assert!(!is_kept_download(""));
}
