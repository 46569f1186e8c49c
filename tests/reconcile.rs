use leader_slots::enrichment::{
    after_leaderboard, after_skip_list, begin_enrichment, is_on_skip_list, latency_standing, EnrichAction,
    LatencyRecord, PreviousLeaderNote,
};
use leader_slots::epoch::{epoch_first_slot, EpochInfo};
use leader_slots::grouping::group_into_blocks;
use leader_slots::neighbors::resolve_neighbors;
use leader_slots::production::{classify_slot, record_slot, slots_to_check, BlockScan, NonProducedSlot, SlotStatus};
use leader_slots::response::{check_validator_identity, parse_latency_records, parse_skip_list};
use leader_slots::schedule::{to_absolute, LeaderScheduleIndex, ScheduleEntry};

fn entry(id: &str, slots: &[u64]) -> ScheduleEntry {
    ScheduleEntry { identity: id.to_string(), slots: slots.to_vec() }
}

fn info() -> EpochInfo {
    EpochInfo { epoch: 10, absolute_slot: 5_000, slot_index: 200, slots_in_epoch: 1_000 }
}

#[test]
fn current_epoch_start_is_absolute_minus_index() {
    assert_eq!(epoch_first_slot(&info(), 10), Some(4_800));
}

#[test]
fn past_and_future_epochs_extrapolate() {
    assert_eq!(epoch_first_slot(&info(), 9), Some(3_800));
    assert_eq!(epoch_first_slot(&info(), 12), Some(6_800));
}

#[test]
fn far_past_epoch_clamps_to_zero() {
    assert_eq!(epoch_first_slot(&info(), 0), Some(0));
    assert_eq!(epoch_first_slot(&info(), 5), Some(0));
}

#[test]
fn far_future_epoch_beyond_u64_is_none() {
    let i = EpochInfo { epoch: 0, absolute_slot: 10, slot_index: 0, slots_in_epoch: u64::MAX };
    assert_eq!(epoch_first_slot(&i, 2), None);
}

#[test]
fn grouping_caps_runs_and_splits_gaps() {
    let blocks = group_into_blocks(&vec![100, 101, 102, 103, 104, 200, 201]);
    assert_eq!(blocks, vec![vec![100, 101, 102, 103], vec![104], vec![200, 201]]);
}

#[test]
fn grouping_of_nothing_is_empty() {
    assert!(group_into_blocks(&vec![]).is_empty());
}

#[test]
fn grouping_handles_the_largest_slot() {
    let blocks = group_into_blocks(&vec![u64::MAX - 1, u64::MAX]);
    assert_eq!(blocks, vec![vec![u64::MAX - 1, u64::MAX]]);
}

#[test]
fn grouping_of_eight_in_a_row_gives_two_full_blocks() {
    let blocks = group_into_blocks(&vec![1, 2, 3, 4, 5, 6, 7, 8]);
    assert_eq!(blocks, vec![vec![1, 2, 3, 4], vec![5, 6, 7, 8]]);
}

#[test]
fn classification_covers_the_three_outcomes() {
    let me = "V1".to_string();
    assert!(matches!(classify_slot(true, Some("V1".to_string()), &me), SlotStatus::ProducedByTarget));
    match classify_slot(true, Some("V9".to_string()), &me) {
        SlotStatus::ProducedByOther(id) => assert_eq!(id, "V9"),
        _ => panic!("expected another producer"),
    }
    assert!(matches!(classify_slot(false, None, &me), SlotStatus::NotProduced));
    assert!(matches!(classify_slot(true, None, &me), SlotStatus::NotProduced));
}

#[test]
fn record_adds_rows_only_for_slots_not_produced_by_target() {
    let mut rows: Vec<NonProducedSlot> = Vec::new();
    assert!(!record_slot(&mut rows, 5, SlotStatus::ProducedByTarget));
    assert!(rows.is_empty());
    assert!(record_slot(&mut rows, 6, SlotStatus::ProducedByOther("X".to_string())));
    assert!(record_slot(&mut rows, 7, SlotStatus::NotProduced));
    assert_eq!(rows.len(), 2);
    assert_eq!(rows[0].slot, 6);
    assert_eq!(rows[0].producer, Some("X".to_string()));
    assert_eq!(rows[1].slot, 7);
    assert_eq!(rows[1].producer, None);
}

#[test]
fn future_slots_are_not_checked() {
    assert_eq!(slots_to_check(&vec![100, 101, 102, 103], 101), vec![100, 101]);
    assert!(slots_to_check(&vec![100, 101], 99).is_empty());
}

#[test]
fn absolute_slots_add_the_epoch_start() {
    assert_eq!(to_absolute(1000, &vec![0, 3, 7]), vec![1000, 1003, 1007]);
}

#[test]
fn index_sorts_target_slots_and_maps_leaders() {
    let schedule = vec![entry("V2", &[1, 4]), entry("V1", &[3, 0, 2])];
    let index = LeaderScheduleIndex::new(&schedule, 50, &"V1".to_string()).unwrap();
    assert_eq!(index.target_slots(), &vec![50, 52, 53]);
    assert_eq!(index.leader_at(51), Some("V2".to_string()));
    assert_eq!(index.leader_at(53), Some("V1".to_string()));
    assert_eq!(index.leader_at(55), None);
}

#[test]
fn unknown_previous_leader_is_none() {
    let schedule = vec![entry("V1", &[100, 101]), entry("V3", &[102])];
    let index = LeaderScheduleIndex::new(&schedule, 0, &"V1".to_string()).unwrap();
    let n = resolve_neighbors(&index, 100, 101);
    assert_eq!(n.previous_slot, 99);
    assert_eq!(n.previous_leader, None);
    assert_eq!(n.next_slot, 102);
    assert_eq!(n.next_leader, Some("V3".to_string()));
}

#[test]
fn previous_slot_saturates_at_zero() {
    let schedule = vec![entry("V1", &[0])];
    let index = LeaderScheduleIndex::new(&schedule, 0, &"V1".to_string()).unwrap();
    let n = resolve_neighbors(&index, 0, 0);
    assert_eq!(n.previous_slot, 0);
    assert_eq!(n.previous_leader, Some("V1".to_string()));
}

#[test]
fn skip_list_match_is_case_sensitive() {
    let list = Some(vec![Some("AbC".to_string()), None]);
    assert!(is_on_skip_list(&list, &"AbC".to_string()));
    assert!(!is_on_skip_list(&list, &"abc".to_string()));
    assert!(!is_on_skip_list(&None, &"AbC".to_string()));
}

#[test]
fn skip_list_read_from_json() {
    let body = r#"{"data":{"validators":[{"identity_pubkey":"AbC"},{"other":1}]}}"#;
    let list = parse_skip_list(body).ok().unwrap();
    assert_eq!(list, Some(vec![Some("AbC".to_string()), None]));
    assert!(is_on_skip_list(&list, &"AbC".to_string()));
    assert!(!is_on_skip_list(&list, &"abc".to_string()));
}

#[test]
fn skip_list_missing_field_is_none() {
    assert_eq!(parse_skip_list(r#"{"data":{}}"#).ok().unwrap(), None);
}

#[test]
fn skip_list_bad_json_is_error() {
    assert!(parse_skip_list("not json").is_err());
}

fn record(addr: Option<&str>, total: Option<u64>, voted: Option<u64>) -> LatencyRecord {
    LatencyRecord { node_address: addr.map(|a| a.to_string()), total_latency: total, voted_slots: voted }
}

#[test]
fn latency_rank_is_one_past_the_index() {
    let records = vec![record(Some("A"), None, None), record(Some("B"), Some(100), Some(10))];
    let st = latency_standing(&records, &"B".to_string()).unwrap();
    assert_eq!(st.rank, 2);
    assert_eq!(st.total_latency as f64 / st.voted_slots as f64, 10.0);
}

#[test]
fn latency_first_match_wins() {
    let records = vec![record(Some("B"), Some(30), Some(3)), record(Some("B"), Some(100), Some(10))];
    let st = latency_standing(&records, &"B".to_string()).unwrap();
    assert_eq!(st.rank, 1);
    assert_eq!(st.total_latency, 30);
}

#[test]
fn latency_missing_record_or_field_gives_none() {
    let records = vec![record(Some("A"), Some(1), None)];
    assert!(latency_standing(&records, &"A".to_string()).is_none());
    assert!(latency_standing(&records, &"Z".to_string()).is_none());
}

#[test]
fn latency_records_read_from_json() {
    let body = r#"{"records":[{"nodeAddress":"A"},{"nodeAddress":"B","totalLatency":100,"votedSlots":10}]}"#;
    let records = parse_latency_records(body).ok().unwrap().unwrap();
    assert_eq!(records.len(), 2);
    let st = latency_standing(&records, &"B".to_string()).unwrap();
    assert_eq!(st.rank, 2);
    assert_eq!(st.total_latency as f64 / st.voted_slots as f64, 10.0);
    assert!(parse_latency_records("{").is_err());
    assert!(parse_latency_records("{}").ok().unwrap().is_none());
}

#[test]
fn end_to_end_all_produced_gives_no_rows() {
    let schedule = vec![entry("V1", &[0, 1, 2]), entry("V2", &[3])];
    let me = "V1".to_string();
    let index = LeaderScheduleIndex::new(&schedule, 1000, &me).unwrap();
    assert_eq!(index.target_slots(), &vec![1000, 1001, 1002]);
    let blocks = group_into_blocks(index.target_slots());
    assert_eq!(blocks, vec![vec![1000, 1001, 1002]]);
    let mut scan = BlockScan::new(&blocks[0], 5000);
    let mut checked = 0;
    while let Some(_slot) = scan.next_slot() {
        assert!(!scan.record(classify_slot(true, Some("V1".to_string()), &me)));
        checked += 1;
    }
    assert_eq!(checked, 3);
    assert!(scan.rows().is_empty());
}

#[test]
fn validator_absent_from_schedule() {
    let schedule = vec![entry("V2", &[0])];
    assert!(LeaderScheduleIndex::new(&schedule, 0, &"V1".to_string()).is_none());
}

#[test]
fn pubkey_check() {
    assert!(check_validator_identity("11111111111111111111111111111111").is_ok());
    assert!(check_validator_identity("not-a-key").is_err());
    assert!(check_validator_identity("0OIl").is_err());
}

#[test]
fn enrichment_unknown_leader_fetches_nothing() {
    assert!(matches!(begin_enrichment(None), EnrichAction::Report(PreviousLeaderNote::Unknown)));
    match begin_enrichment(Some("P".to_string())) {
        EnrichAction::FetchSkipList(id) => assert_eq!(id, "P"),
        _ => panic!("expected a skip list fetch"),
    }
}

#[test]
fn enrichment_unlisted_leader_is_plain() {
    let list = Some(vec![Some("Q".to_string())]);
    match after_skip_list("P".to_string(), &list) {
        EnrichAction::Report(PreviousLeaderNote::Plain(id)) => assert_eq!(id, "P"),
        _ => panic!("expected a plain report"),
    }
    match after_skip_list("P".to_string(), &None) {
        EnrichAction::Report(PreviousLeaderNote::Plain(id)) => assert_eq!(id, "P"),
        _ => panic!("expected a plain report"),
    }
}

#[test]
fn enrichment_listed_leader_gets_standing() {
    let list = Some(vec![Some("B".to_string())]);
    match after_skip_list("B".to_string(), &list) {
        EnrichAction::FetchLeaderboard(id) => assert_eq!(id, "B"),
        _ => panic!("expected a leaderboard fetch"),
    }
    let records = Some(vec![record(Some("A"), None, None), record(Some("B"), Some(100), Some(10))]);
    match after_leaderboard("B".to_string(), &records) {
        PreviousLeaderNote::OnSkipList(id, Some(st)) => {
            assert_eq!(id, "B");
            assert_eq!(st.rank, 2);
            assert_eq!(st.total_latency, 100);
            assert_eq!(st.voted_slots, 10);
        }
        _ => panic!("expected a standing"),
    }
    assert!(matches!(after_leaderboard("B".to_string(), &None), PreviousLeaderNote::OnSkipList(_, None)));
}

#[test]
fn block_scan_skips_future_slots_and_reports_the_rest() {
    let me = "V1".to_string();
    let mut scan = BlockScan::new(&vec![100, 101, 102, 103], 101);
    assert_eq!(scan.next_slot(), Some(100));
    assert!(scan.record(classify_slot(false, None, &me)));
    assert_eq!(scan.next_slot(), Some(101));
    assert!(scan.record(classify_slot(true, Some("V7".to_string()), &me)));
    assert_eq!(scan.next_slot(), None);
    let rows = scan.rows();
    assert_eq!(rows.len(), 2);
    assert_eq!((rows[0].slot, rows[0].producer.clone()), (100, None));
    assert_eq!((rows[1].slot, rows[1].producer.clone()), (101, Some("V7".to_string())));
    assert!(rows.iter().all(|r| r.slot <= 101));
}

#[test]
fn block_scan_existence_step() {
    let me = "V1".to_string();
    let mut scan = BlockScan::new(&vec![10, 11, 12], 20);
    assert!(!scan.has_report());
    assert_eq!(scan.record_existence(true), None);
    assert_eq!(scan.next_slot(), Some(10));
    assert!(!scan.record(classify_slot(true, Some("V1".to_string()), &me)));
    assert_eq!(scan.record_existence(false), Some(true));
    assert!(scan.has_report());
    assert_eq!(scan.next_slot(), Some(12));
    let rows = scan.rows();
    assert_eq!(rows.len(), 1);
    assert_eq!((rows[0].slot, rows[0].producer.clone()), (11, None));
}

#[test]
fn json_readers_keep_order_and_kinds() {
    let body = r#"{"data":{"validators":[{"identity_pubkey":"X"},{"identity_pubkey":7},{"identity_pubkey":"Y"}]}}"#;
    assert_eq!(
        parse_skip_list(body).ok().unwrap(),
        Some(vec![Some("X".to_string()), None, Some("Y".to_string())])
    );
    assert_eq!(parse_skip_list(r#"{"data":{"validators":{}}}"#).ok().unwrap(), None);
    assert_eq!(parse_skip_list("[]").ok().unwrap(), None);
    let body = r#"{"records":[{"nodeAddress":"A","totalLatency":-1,"votedSlots":2.5},{"nodeAddress":5,"totalLatency":9,"votedSlots":3}]}"#;
    let records = parse_latency_records(body).ok().unwrap().unwrap();
    assert_eq!(records.len(), 2);
    assert_eq!(records[0].node_address, Some("A".to_string()));
    assert_eq!(records[0].total_latency, None);
    assert_eq!(records[0].voted_slots, None);
    assert_eq!(records[1].node_address, None);
    assert_eq!(records[1].total_latency, Some(9));
    assert_eq!(records[1].voted_slots, Some(3));
}
