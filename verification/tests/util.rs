use ssht::util::{relative_time, relative_time_at};

#[test]
fn never_when_absent() {
    assert_eq!(relative_time(None), "never");
}

#[test]
fn formats_relative() {
    let now = chrono::Utc::now().timestamp();
    assert_eq!(relative_time(Some(now)), "just now");
    assert_eq!(relative_time(Some(now - 120)), "2m ago");
    assert_eq!(relative_time(Some(now - 3 * 3600)), "3h ago");
    assert_eq!(relative_time(Some(now - 2 * 86400)), "2d ago");
    assert_eq!(relative_time(Some(now - 14 * 86400)), "2w ago");
}

#[test]
fn units_change_at_their_edges() {
    assert_eq!(relative_time_at(100, 0), "just now");
    assert_eq!(relative_time_at(0, 59), "just now");
    assert_eq!(relative_time_at(0, 60), "1m ago");
    assert_eq!(relative_time_at(0, 3599), "59m ago");
    assert_eq!(relative_time_at(0, 3600), "1h ago");
    assert_eq!(relative_time_at(0, 86399), "23h ago");
    assert_eq!(relative_time_at(0, 86400), "1d ago");
    assert_eq!(relative_time_at(0, 604799), "6d ago");
    assert_eq!(relative_time_at(0, 604800), "1w ago");
    assert_eq!(relative_time_at(i64::MIN, i64::MAX), "30500568904943w ago");
}
