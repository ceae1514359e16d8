//! The time of day of a message.

use loomis::tui::messages::ChatMessage;

fn secs_of_day(ts: &str) -> u64 {
    let mut it = ts.split(':').map(|p| p.parse::<u64>().unwrap());
    let h = it.next().unwrap();
    let m = it.next().unwrap();
    let s = it.next().unwrap();
    h * 3600 + m * 60 + s
}

#[test]
fn now_timestamp_matches_local_time() {
    let local = time::OffsetDateTime::now_local()
        .unwrap_or_else(|_| time::OffsetDateTime::now_utc());
    let offset = local.offset().whole_seconds() as i64;
    let ts = ChatMessage::timestamp_at(local.unix_timestamp(), offset);
    let expected =
        (local.hour() as u64) * 3600 + (local.minute() as u64) * 60 + local.second() as u64;
    let actual = secs_of_day(&ts);
    let diff = actual.abs_diff(expected);
    assert!(diff <= 1 || diff >= 86399, "{ts} but local time = {expected}s of day");
}

#[test]
fn timestamps_follow_the_offset() {
    assert_eq!(ChatMessage::timestamp_at(0, 0), "00:00:00");
    assert_eq!(ChatMessage::timestamp_at(0, 8 * 3600), "08:00:00");
    assert_eq!(ChatMessage::timestamp_at(0, -3600), "23:00:00");
    assert_eq!(ChatMessage::timestamp_at(86_399, 0), "23:59:59");
}
