//! Tests of the punch buffer and of handing punches on.

use lora_online::lora_server::punch_buffer::{PunchBuffer, Row};
use lora_online::lora_server::pusher::PushPass;

#[test]
fn test_record_and_read_unsent() {
    let mut buf = PunchBuffer::new();
    buf.record(12345, 33, 36070, "local").unwrap();
    buf.record(12345, 50, 37300, "local").unwrap();

    let unsent = buf.unsent();
    assert_eq!(unsent.len(), 2);
    assert_eq!(unsent[0].card_id, 12345);
    assert_eq!(unsent[0].station, 33);
    assert_eq!(unsent[1].station, 50);
}

#[test]
fn test_clear_local_unsent_removes_only_the_named_row() {
    let mut buf = PunchBuffer::new();
    let id1 = buf.record(1, 1, 100, "local").unwrap();
    let id2 = buf.record(2, 2, 200, "test").unwrap();

    assert!(buf.clear_local_unsent(id1));
    let remaining: Vec<i64> = buf.unsent().iter().map(|p| p.id).collect();
    assert_eq!(remaining, vec![id2]);
}

#[test]
fn test_clear_local_unsent_leaves_remote_and_already_sent_rows_alone() {
    let mut buf = PunchBuffer::new();
    let remote_id = buf.record(1, 1, 100, "192.168.1.5").unwrap();
    let sent_id = buf.record(2, 2, 200, "local").unwrap();
    buf.mark_sent(sent_id);

    assert!(!buf.clear_local_unsent(remote_id));
    assert!(!buf.clear_local_unsent(sent_id));
    assert_eq!(buf.unsent().iter().map(|p| p.id).collect::<Vec<_>>(), vec![remote_id]);
}

#[test]
fn test_clear_local_unsent_reports_false_for_unknown_id() {
    let mut buf = PunchBuffer::new();
    assert!(!buf.clear_local_unsent(999));
}

#[test]
fn test_clear_all_local_unsent_only_touches_local_and_test() {
    let mut buf = PunchBuffer::new();
    buf.record(1, 1, 100, "local").unwrap();
    buf.record(2, 2, 200, "test").unwrap();
    let remote_id = buf.record(3, 3, 300, "192.168.1.5").unwrap();

    let cleared = buf.clear_all_local_unsent();
    assert_eq!(cleared, 2);
    assert_eq!(buf.unsent().iter().map(|p| p.id).collect::<Vec<_>>(), vec![remote_id]);
}

#[test]
fn test_mark_sent_removes_from_unsent() {
    let mut buf = PunchBuffer::new();
    let id = buf.record(1, 1, 100, "local").unwrap();
    buf.record(2, 2, 200, "192.168.1.5").unwrap();

    buf.mark_sent(id);

    let unsent = buf.unsent();
    assert_eq!(unsent.len(), 1);
    assert_eq!(unsent[0].card_id, 2);
}

fn raw(id: i64, card_id: i64, station: i64, time_s: i64) -> Row {
    Row {
        id,
        card_id: Some(card_id),
        station: Some(station),
        time_s: Some(time_s),
        source: "local".to_string(),
        sent: false,
    }
}

#[test]
fn test_unsent_skips_corrupt_row_without_losing_other_rows() {
    let rows = vec![raw(1, 1, 1, 100), raw(2, 2, 99_999, 200), raw(3, 3, 3, 300)];
    let buf = PunchBuffer::restore(rows, 4);

    let card_ids: Vec<u32> = buf.unsent().iter().map(|p| p.card_id).collect();
    assert_eq!(card_ids, vec![1, 3]);
}

#[test]
fn buffer_survives_a_restart() {
    let mut buf = PunchBuffer::new();
    let first = buf.record(1, 31, 36070, "local").unwrap();
    buf.record(u32::MAX, u8::MAX, u32::MAX, "10").unwrap();
    buf.mark_sent(first);
    let disk: Vec<Row> = buf
        .rows
        .iter()
        .map(|r| Row {
            id: r.id,
            card_id: r.card_id,
            station: r.station,
            time_s: r.time_s,
            source: r.source.clone(),
            sent: r.sent,
        })
        .collect();

    let again = PunchBuffer::restore(disk, buf.next_id);
    assert_eq!(format!("{again:?}"), format!("{buf:?}"));
}

/// A good row, one whose station is too large, one without a card number, and
/// a corrupt row of another node.
fn partly_corrupt() -> PunchBuffer {
    let mut nameless = raw(3, 3, 3, 300);
    nameless.card_id = None;
    let mut remote = raw(4, 4, -1, 400);
    remote.source = "10".to_string();
    PunchBuffer::restore(vec![raw(1, 1, 1, 100), raw(2, 2, 99_999, 200), nameless, remote], 5)
}

#[test]
fn corrupt_rows_are_not_listed_but_can_be_given_up() {
    let mut buf = partly_corrupt();
    assert_eq!(buf.unsent().iter().map(|p| p.id).collect::<Vec<_>>(), vec![1]);
    assert_eq!(buf.unsent_local().iter().map(|p| p.id).collect::<Vec<_>>(), vec![1]);
    assert!(buf.clear_local_unsent(2));
    assert!(!buf.clear_local_unsent(2));
    assert!(!buf.clear_local_unsent(4));
    assert_eq!(buf.rows.iter().map(|r| r.id).collect::<Vec<_>>(), vec![1, 3, 4]);
    assert_eq!(buf.unsent().len(), 1);
}

#[test]
fn corrupt_rows_count_when_all_are_given_up() {
    let mut buf = partly_corrupt();
    assert_eq!(buf.clear_all_local_unsent(), 3);
    assert_eq!(buf.rows.iter().map(|r| r.id).collect::<Vec<_>>(), vec![4]);
    assert_eq!(buf.clear_all_local_unsent(), 0);
}

#[test]
fn sent_corrupt_row_is_not_given_up() {
    let mut buf = partly_corrupt();
    buf.mark_sent(2);
    assert!(!buf.clear_local_unsent(2));
    assert_eq!(buf.clear_all_local_unsent(), 2);
    assert_eq!(buf.rows.iter().map(|r| (r.id, r.sent)).collect::<Vec<_>>(), vec![(2, true), (4, false)]);
}

#[test]
fn row_at_the_edge_of_its_fields_is_intact() {
    let most = raw(1, u32::MAX as i64, u8::MAX as i64, u32::MAX as i64).punch().unwrap();
    assert_eq!((most.card_id, most.station, most.time_s), (u32::MAX, u8::MAX, u32::MAX));
    assert!(raw(1, u32::MAX as i64 + 1, 1, 1).punch().is_none());
    assert!(raw(1, 1, u8::MAX as i64 + 1, 1).punch().is_none());
    assert!(raw(1, 1, 1, u32::MAX as i64 + 1).punch().is_none());
    assert!(raw(1, -1, 1, 1).punch().is_none());
}

#[test]
fn restored_buffer_goes_on_counting() {
    let mut buf = PunchBuffer::restore(vec![raw(3, 1, 1, 100)], 8);
    assert_eq!(buf.record(2, 2, 200, "local"), Some(8));
    assert_eq!(buf.record(2, 2, 200, "local"), Some(9));
    let mut full = PunchBuffer::restore(vec![], i64::MAX);
    assert_eq!(full.record(2, 2, 200, "local"), None);
}

#[test]
fn test_unsent_ordered_oldest_first() {
    let mut buf = PunchBuffer::new();
    buf.record(1, 1, 100, "local").unwrap();
    buf.record(2, 1, 200, "local").unwrap();
    buf.record(3, 1, 300, "local").unwrap();

    let ids: Vec<u32> = buf.unsent().iter().map(|p| p.card_id).collect();
    assert_eq!(ids, vec![1, 2, 3]);
}

#[test]
fn test_unsent_local_excludes_remote_sourced_punches() {
    let mut buf = PunchBuffer::new();
    buf.record(1, 1, 100, "local").unwrap();
    buf.record(2, 2, 200, "192.168.1.5").unwrap();
    buf.record(3, 3, 300, "local").unwrap();

    let ids: Vec<u32> = buf.unsent_local().iter().map(|p| p.card_id).collect();
    assert_eq!(ids, vec![1, 3]);
}

#[test]
fn test_unsent_local_includes_test_sourced_punches() {
    let mut buf = PunchBuffer::new();
    buf.record(1, 1, 100, "local").unwrap();
    buf.record(2, 2, 200, "test").unwrap();
    buf.record(3, 3, 300, "192.168.1.5").unwrap();

    let ids: Vec<u32> = buf.unsent_local().iter().map(|p| p.card_id).collect();
    assert_eq!(ids, vec![1, 2]);
}

#[test]
fn test_unsent_local_excludes_already_sent() {
    let mut buf = PunchBuffer::new();
    let id = buf.record(1, 1, 100, "local").unwrap();
    buf.record(2, 2, 200, "local").unwrap();
    buf.mark_sent(id);

    let ids: Vec<u32> = buf.unsent_local().iter().map(|p| p.card_id).collect();
    assert_eq!(ids, vec![2]);
}

#[test]
fn test_pusher_sends_real_request_and_marks_sent_on_success() {
    let mut buffer = PunchBuffer::new();
    let id = buffer.record(123456, 31, 36070, "local").unwrap();

    let mut pass = PushPass::begin(buffer.unsent());
    let body = pass.next("evt-42").unwrap();
    assert_eq!(body.card_id, 123456);
    assert_eq!(body.competition_id, "evt-42");
    assert_eq!(body.station, 31);
    assert_eq!(body.time_s, 36070);
    assert_eq!(body.source, "local");

    assert_eq!(pass.answered(true), Some(id));
    buffer.mark_sent(id);
    assert!(pass.next("evt-42").is_none());
    assert!(buffer.unsent().is_empty());
}

#[test]
fn pass_ends_at_the_first_refused_punch() {
    let mut buffer = PunchBuffer::new();
    let id = buffer.record(1, 31, 1, "local").unwrap();
    buffer.record(2, 31, 2, "local").unwrap();
    buffer.record(3, 31, 3, "local").unwrap();
    let mut pass = PushPass::begin(buffer.unsent());
    assert!(pass.next("").is_some());
    assert_eq!(pass.answered(true), Some(id));
    assert_eq!(pass.next("").unwrap().card_id, 2);
    assert_eq!(pass.answered(false), None);
    assert!(pass.next("").is_none());
}
