use channel_archive::confirmations::ConfirmationResult;
use channel_archive::download::{with_retries, RetryBudget, MAX_RETRIES};
use channel_archive::error_handle::render_chain;
use channel_archive::naming::{
    archive_file_name, covered_days, covered_days_from, date_label, user_label,
};
use channel_archive::packager::{
    delivery_for, plan_archive, upload_notice, upload_notice_for, Delivery, EntryKind, WalkEntry,
    ENTRY_PERMISSIONS, SIZE_LIMIT,
};
use std::cell::Cell;

fn entry(path: &str, kind: EntryKind) -> WalkEntry {
    WalkEntry { path: String::from(path), kind }
}

fn names(entries: &[WalkEntry]) -> Vec<(String, bool)> {
    plan_archive(&entries.to_vec()).iter().map(|e| (e.name.clone(), e.directory)).collect()
}

#[test]
fn files_are_packed_and_the_root_is_not() {
    let walked = vec![
        entry("", EntryKind::Directory),
        entry("messages.json", EntryKind::File),
        entry("assets", EntryKind::Directory),
        entry("assets/1.png", EntryKind::File),
        entry("assets/2_a.txt", EntryKind::File),
    ];
    assert_eq!(
        names(&walked),
        vec![
            (String::from("messages.json"), false),
            (String::from("assets/1.png"), false),
            (String::from("assets/2_a.txt"), false),
        ]
    );
}

#[test]
fn empty_directories_survive() {
    let walked = vec![
        entry("", EntryKind::Directory),
        entry("messages.json", EntryKind::File),
        entry("assets", EntryKind::Directory),
        entry("assets/deep", EntryKind::Directory),
        entry("assets2", EntryKind::Directory),
    ];
    assert_eq!(
        names(&walked),
        vec![
            (String::from("messages.json"), false),
            (String::from("assets/deep"), true),
            (String::from("assets2"), true),
        ]
    );
}

#[test]
fn a_sibling_with_a_longer_name_is_no_descendant() {
    let walked = vec![entry("assets", EntryKind::Directory), entry("assets.txt", EntryKind::File)];
    assert_eq!(
        names(&walked),
        vec![(String::from("assets"), true), (String::from("assets.txt"), false)]
    );
}

#[test]
fn other_entries_are_left_out() {
    let walked = vec![entry("socket", EntryKind::Other), entry("a", EntryKind::File)];
    assert_eq!(names(&walked), vec![(String::from("a"), false)]);
    assert!(plan_archive(&Vec::new()).is_empty());
}

#[test]
fn every_entry_carries_the_fixed_permissions() {
    let walked = vec![entry("a", EntryKind::File), entry("d", EntryKind::Directory)];
    let bundle = plan_archive(&walked);
    assert_eq!(bundle.len(), 2);
    for e in &bundle {
        assert_eq!(e.permissions, 0o755);
        assert_eq!(e.permissions, ENTRY_PERMISSIONS);
    }
}

#[test]
fn planning_is_deterministic() {
    let walked = vec![
        entry("b", EntryKind::File),
        entry("a", EntryKind::File),
        entry("c", EntryKind::Directory),
    ];
    assert_eq!(names(&walked), names(&walked));
    assert_eq!(names(&walked)[0].0, "b");
}

#[test]
fn large_bundles_are_uploaded() {
    assert_eq!(SIZE_LIMIT, 24_000_000);
    assert_eq!(delivery_for(0), Delivery::Attach);
    assert_eq!(delivery_for(23_999_999), Delivery::Attach);
    assert_eq!(delivery_for(24_000_000), Delivery::UploadAndLink);
    assert_eq!(delivery_for(u64::MAX), Delivery::UploadAndLink);
}

#[test]
fn retry_budget_allows_three_retries() {
    assert_eq!(MAX_RETRIES, 3);
    let mut budget = RetryBudget::new();
    assert_eq!(budget.retries_left, 3);
    assert!(budget.after_failure());
    assert!(budget.after_failure());
    assert!(budget.after_failure());
    assert_eq!(budget.retries_left, 0);
    assert!(!budget.after_failure());
    assert_eq!(budget.retries_left, 0);
}

#[test]
fn download_is_tried_four_times_at_most() {
    let attempts = Cell::new(0);
    let failing = || -> Result<u8, u32> {
        attempts.set(attempts.get() + 1);
        Err(attempts.get())
    };
    assert_eq!(with_retries(&failing), Err(4));
    assert_eq!(attempts.get(), 4);
}

#[test]
fn download_stops_at_the_first_success() {
    let attempts = Cell::new(0);
    let flaky = || -> Result<u32, ()> {
        attempts.set(attempts.get() + 1);
        if attempts.get() < 3 {
            Err(())
        } else {
            Ok(attempts.get())
        }
    };
    assert_eq!(with_retries(&flaky), Ok(3));
    assert_eq!(attempts.get(), 3);
    let sound = || -> Result<u8, ()> { Ok(1) };
    assert_eq!(with_retries(&sound), Ok(1));
}

#[test]
fn error_chain_is_rendered_root_cause_first() {
    let chain = vec![
        String::from("processing message 12"),
        String::from("fetching user avatar"),
        String::from("Missing file extension"),
    ];
    assert_eq!(
        render_chain(&chain),
        "Got an error: Missing file extension\nWhile fetching user avatar\nWhile processing message 12"
    );
    assert_eq!(render_chain(&vec![String::from("boom")]), "Got an error: boom");
    assert_eq!(render_chain(&Vec::new()), "");
}

#[test]
fn archive_names() {
    assert_eq!(date_label("2024-03-01", "2024-03-01"), "2024-03-01");
    assert_eq!(date_label("2024-03-01", "2024-04-15"), "2024-03-01 to 2024-04-15");
    assert_eq!(
        archive_file_name("2024-03-01 to 2024-04-15", "general"),
        "2024-03-01 to 2024-04-15 - general.zip"
    );
}

#[test]
fn user_labels() {
    assert_eq!(user_label("ferris", 0, 42), "ferris (42)");
    assert_eq!(user_label("ferris", 7, 42), "ferris#0007 (42)");
    assert_eq!(user_label("ferris", 42, 1), "ferris#0042 (1)");
    assert_eq!(user_label("ferris", 420, 1), "ferris#0420 (1)");
    assert_eq!(user_label("ferris", 1234, 1), "ferris#1234 (1)");
    assert_eq!(user_label("ferris", 65535, 1), "ferris#65535 (1)");
}

#[test]
fn confirmation_as_flag() {
    assert!(ConfirmationResult::Confirmed.bool());
    assert!(!ConfirmationResult::Canceled.bool());
    assert_eq!(ConfirmationResult::from_flag(true), ConfirmationResult::Confirmed);
    assert_eq!(ConfirmationResult::from_flag(false), ConfirmationResult::Canceled);
    assert_eq!(ConfirmationResult::from(true), ConfirmationResult::Confirmed);
    assert_eq!(ConfirmationResult::from(false), ConfirmationResult::Canceled);
}

#[test]
fn covered_days_of_a_range() {
    assert_eq!(covered_days((1_709_251_200, 1_709_337_599)), Some(String::from("2024-03-01")));
    assert_eq!(
        covered_days((1_709_251_200, 1_713_139_200)),
        Some(String::from("2024-03-01 to 2024-04-15"))
    );
    assert_eq!(covered_days((0, 0)), Some(String::from("1970-01-01")));
    assert_eq!(covered_days((-1, 0)), Some(String::from("1969-12-31 to 1970-01-01")));
    assert_eq!(covered_days((i64::MAX, 0)), None);
    assert_eq!(covered_days((0, i64::MIN)), None);
}

#[test]
fn covered_days_from_the_days_of_both_ends() {
    let day = |text: &str| Some(String::from(text));
    assert_eq!(covered_days_from(day("a"), day("a")), day("a"));
    assert_eq!(covered_days_from(day("a"), day("b")), day("a to b"));
    assert_eq!(covered_days_from(None, day("b")), None);
    assert_eq!(covered_days_from(day("a"), None), None);
}

#[test]
fn upload_notice_text() {
    assert_eq!(
        upload_notice("Archival successful.", "https://file.example/abc", 1_700_000_000, "2 downloads"),
        "Archival successful.\nDownload archive at https://file.example/abc\nFile will expire <t:1700000000:R>, or after 2 downloads"
    );
    assert_eq!(upload_notice("", "", -5, ""), "\nDownload archive at \nFile will expire <t:-5:R>, or after ");
    assert!(upload_notice("", "", i64::MIN, "").contains("<t:-9223372036854775808:R>"));
}

#[test]
fn upload_notice_words_the_download_count() {
    assert!(upload_notice_for("p", "l", 10, 2).ends_with(", or after 2 downloads"));
    assert!(upload_notice_for("p", "l", 10, 1).ends_with(", or after 1 download"));
    assert!(upload_notice_for("p", "l", 10, 2).starts_with("p\nDownload archive at l\n"));
}
