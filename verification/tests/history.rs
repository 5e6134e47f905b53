use deploy_pipeline::history::{get_history, get_latest_version, history_command};
use deploy_pipeline::resolve::{next_archive_name, resolve, VersionPolicy};
use deploy_pipeline::error::DeployError;
use deploy_pipeline::version::Version;

fn strings(items: &[&str]) -> Vec<String> {
    items.iter().map(|s| s.to_string()).collect()
}

#[test]
fn builds_the_listing_command() {
    assert_eq!(history_command("/srv/history"), "cd /srv/history && ls -l");
}

#[test]
fn reads_the_ninth_word_of_each_line() {
    let output = "total 8\n\
        -rw-r--r-- 1 www www 1024 Jan  5 10:00 v1.0.0.zip\n\
        -rw-r--r-- 1 www www 2048 Jan  6 11:30 v1.0.1.zip\n";
    assert_eq!(get_history(output), strings(&["v1.0.0.zip", "v1.0.1.zip"]));
}

#[test]
fn keeps_the_order_of_the_listing() {
    let output = "-rw-r--r-- 1 a b 1 Jan 5 10:00 v2.0.0.zip\n\
        -rw-r--r-- 1 a b 1 Jan 5 10:00 v1.0.0.zip\n\
        -rw-r--r-- 1 a b 1 Jan 5 10:00 notes.txt";
    assert_eq!(get_history(output), strings(&["v2.0.0.zip", "v1.0.0.zip", "notes.txt"]));
}

#[test]
fn drops_lines_with_fewer_than_nine_words() {
    let output = "total 0\n\n   \n1 2 3 4 5 6 7 8\n1 2 3 4 5 6 7 8 nine\n1 2 3 4 5 6 7 8 nine ten\n";
    assert_eq!(get_history(output), strings(&["nine", "nine"]));
}

#[test]
fn splits_words_at_any_white_space() {
    let output = "a\tb  c\u{a0}d\u{3000}e\u{2003}f\rg \u{85}h\t\tname\r\n";
    assert_eq!(get_history(output), strings(&["name"]));
    assert_eq!(get_history("a b c d e f g h \u{fe}name"), strings(&["\u{fe}name"]));
    assert_eq!(get_history("a b c d e f g\u{200b}h name"), strings(&[]));
    assert_eq!(get_history("a b c d e f g\u{2009}h name"), strings(&["name"]));
}

#[test]
fn reads_nothing_from_an_empty_listing() {
    assert_eq!(get_history(""), Vec::<String>::new());
    assert_eq!(get_history("\n\n\n"), Vec::<String>::new());
    assert_eq!(get_history("total 0\n"), Vec::<String>::new());
}

#[test]
fn finds_the_latest_version_among_the_entries() {
    let history = strings(&["v1.0.0.zip", "v1.2.0.zip", "garbage", "v1.1.5.zip"]);
    assert_eq!(get_latest_version(&history), Some(Version::new(1, 2, 0)));
}

#[test]
fn orders_versions_by_number_not_by_text() {
    let history = strings(&["v1.9.0.zip", "v1.10.0.zip", "v1.2.30.zip"]);
    assert_eq!(get_latest_version(&history), Some(Version::new(1, 10, 0)));
    let history = strings(&["v10.0.0.zip", "v9.99.99.zip"]);
    assert_eq!(get_latest_version(&history), Some(Version::new(10, 0, 0)));
}

#[test]
fn finds_no_latest_version_without_versions() {
    assert_eq!(get_latest_version(&[]), None);
    assert_eq!(get_latest_version(&strings(&["garbage", "v1.2", ""])), None);
}

#[test]
fn increment_policy_follows_the_latest_version() {
    let history = strings(&["v1.0.0.zip", "v1.2.0.zip", "garbage", "v1.1.5.zip"]);
    assert_eq!(next_archive_name(&history), Some("v1.2.1.zip".to_string()));
    assert_eq!(resolve(&VersionPolicy::Increment, &history), Ok("v1.2.1.zip".to_string()));
}

#[test]
fn increment_policy_starts_at_one_zero_zero() {
    assert_eq!(next_archive_name(&[]), Some("v1.0.0.zip".to_string()));
    assert_eq!(resolve(&VersionPolicy::Increment, &[]), Ok("v1.0.0.zip".to_string()));
    let history = strings(&["garbage", "README"]);
    assert_eq!(next_archive_name(&history), Some("v1.0.0.zip".to_string()));
}

#[test]
fn increment_policy_carries() {
    assert_eq!(next_archive_name(&strings(&["v1.2.99.zip"])), Some("v1.3.0.zip".to_string()));
    assert_eq!(next_archive_name(&strings(&["v1.99.99.zip"])), Some("v2.0.0.zip".to_string()));
}

#[test]
fn increment_policy_fails_past_the_last_version() {
    let history = strings(&["v4294967295.99.99.zip"]);
    assert_eq!(next_archive_name(&history), None);
    assert_eq!(resolve(&VersionPolicy::Increment, &history), Err(DeployError::InvalidVersion));
}

#[test]
fn explicit_policy_validates_and_names_the_archive() {
    let history = strings(&["v9.9.9.zip"]);
    let policy = VersionPolicy::Explicit("v2.0.1".to_string());
    assert_eq!(resolve(&policy, &history), Ok("v2.0.1.zip".to_string()));
    let policy = VersionPolicy::Explicit("v02.0.1.zip".to_string());
    assert_eq!(resolve(&policy, &history), Ok("v2.0.1.zip".to_string()));
    let policy = VersionPolicy::Explicit("2.0".to_string());
    assert_eq!(resolve(&policy, &history), Err(DeployError::InvalidVersion));
}

#[test]
fn replay_policy_takes_the_entry_as_it_is() {
    let policy = VersionPolicy::Replay("v1.0.0.zip".to_string());
    assert_eq!(resolve(&policy, &[]), Ok("v1.0.0.zip".to_string()));
    let policy = VersionPolicy::Replay("anything at all".to_string());
    assert_eq!(resolve(&policy, &[]), Ok("anything at all".to_string()));
}

#[test]
fn entries_with_a_doubled_prefix_or_suffix_are_no_versions() {
    let history = strings(&["vv9.0.0.zip", "v8.0.0.zip.zip", "v1.0.0.zip"]);
    assert_eq!(get_latest_version(&history), Some(Version::new(1, 0, 0)));
    assert_eq!(next_archive_name(&history), Some("v1.0.1.zip".to_string()));
    let policy = VersionPolicy::Explicit("vv2.0.1".to_string());
    assert_eq!(resolve(&policy, &history), Err(DeployError::InvalidVersion));
    let policy = VersionPolicy::Explicit("v2.0.1.zip.zip".to_string());
    assert_eq!(resolve(&policy, &history), Err(DeployError::InvalidVersion));
}

#[test]
fn increment_policy_at_the_edge_of_the_last_major() {
    let history = strings(&["v4294967295.99.98.zip"]);
    assert_eq!(next_archive_name(&history), Some("v4294967295.99.99.zip".to_string()));
    let history = strings(&["v4294967294.99.99.zip"]);
    assert_eq!(next_archive_name(&history), Some("v4294967295.0.0.zip".to_string()));
}
