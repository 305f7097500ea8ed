use rainmaker::ota::OtaAction;
use rainmaker::ota::OtaSatus;
use rainmaker::ota::RmakerOta;
use rainmaker::ota::SlotState;

fn engine() -> RmakerOta {
    RmakerOta::new("N1".to_string())
}

fn start_download(ota: &mut RmakerOta, job: &str, len: u64) {
    let actions = ota.apply_ota(job, "https://example.invalid/fw.bin");
    assert_eq!(actions.len(), 2);
    let started = ota.on_download_started(Some(len));
    assert!(started.is_empty());
}

#[test]
fn apply_starts_download_with_one_report() {
    let mut ota = engine();
    let actions = ota.apply_ota("job-1", "https://example.invalid/fw.bin");
    assert!(ota.in_progress());
    assert_eq!(actions.len(), 2);
    match &actions[0] {
        OtaAction::ReportStatus(r) => {
            assert_eq!(r.ota_job_id, "job-1");
            assert_eq!(r.status, OtaSatus::InProgress);
            assert_eq!(r.additional_info, "Starting OTA download");
        }
        other => panic!("unexpected action {:?}", other),
    }
    match &actions[1] {
        OtaAction::StartDownload { url } => {
            assert_eq!(url, "https://example.invalid/fw.bin");
        }
        other => panic!("unexpected action {:?}", other),
    }
}

#[test]
fn second_apply_while_in_flight_is_noop() {
    let mut ota = engine();
    let first = ota.apply_ota("job-1", "https://example.invalid/fw.bin");
    assert_eq!(first.len(), 2);
    let second = ota.apply_ota("job-2", "https://example.invalid/other.bin");
    assert!(second.is_empty());
    assert!(ota.in_progress());
}

#[test]
fn missing_content_length_abandons_attempt() {
    let mut ota = engine();
    let _ = ota.apply_ota("job-1", "https://example.invalid/fw.bin");
    let actions = ota.on_download_started(None);
    assert!(actions.is_empty());
    assert!(!ota.in_progress());
    // a new attempt is accepted afterwards
    let retry = ota.apply_ota("job-2", "https://example.invalid/fw.bin");
    assert_eq!(retry.len(), 2);
}

#[test]
fn download_loop_writes_exactly_the_advertised_length() {
    let mut ota = engine();
    start_download(&mut ota, "job-1", 5);
    let reads: Vec<u64> = vec![3, 0, 2];
    let mut actions: Vec<OtaAction> = Vec::new();
    for r in reads {
        actions.extend(ota.on_chunk(r));
    }
    let written: u64 = actions
        .iter()
        .map(|a| match a {
            OtaAction::WriteChunk { len } => *len,
            _ => 0,
        })
        .sum();
    assert_eq!(written, 5);
    let persist_positions: Vec<usize> = actions
        .iter()
        .enumerate()
        .filter_map(|(i, a)| match a {
            OtaAction::PersistJobId { job_id } => {
                assert_eq!(job_id, "job-1");
                Some(i)
            }
            _ => None,
        })
        .collect();
    assert_eq!(persist_positions.len(), 1);
    let persist_at = persist_positions[0];
    for (i, a) in actions.iter().enumerate() {
        if let OtaAction::WriteChunk { .. } = a {
            assert!(i < persist_at);
        }
    }
    match actions.last() {
        Some(OtaAction::Reboot) => {}
        other => panic!("unexpected final action {:?}", other),
    }
}

#[test]
fn zero_reads_are_retried_not_end_of_stream() {
    let mut ota = engine();
    start_download(&mut ota, "job-1", 4);
    assert!(ota.on_chunk(0).is_empty());
    assert!(ota.on_chunk(0).is_empty());
    let actions = ota.on_chunk(4);
    assert!(matches!(actions[0], OtaAction::WriteChunk { len: 4 }));
    assert!(matches!(actions.last(), Some(OtaAction::Reboot)));
}

#[test]
fn overrun_read_abandons_attempt() {
    let mut ota = engine();
    start_download(&mut ota, "job-1", 4);
    let actions = ota.on_chunk(9);
    assert!(actions.is_empty());
    assert!(!ota.in_progress());
}

#[test]
fn boot_reconciliation_with_valid_slot_reports_rejected() {
    let mut ota = engine();
    let actions = ota.manage_rollback(Some("job-9"), SlotState::Valid);
    assert_eq!(actions.len(), 2);
    match &actions[0] {
        OtaAction::ReportStatus(r) => {
            assert_eq!(r.ota_job_id, "job-9");
            assert_eq!(r.status, OtaSatus::Rejected);
            assert_eq!(r.additional_info, "Firmware rolled back");
        }
        other => panic!("unexpected action {:?}", other),
    }
    assert!(matches!(actions[1], OtaAction::ClearJobId));
    assert!(!ota.in_progress());
}

#[test]
fn boot_reconciliation_with_unverified_slot_schedules_validation() {
    let mut ota = engine();
    let actions = ota.manage_rollback(Some("job-9"), SlotState::Unverified);
    assert_eq!(actions.len(), 1);
    assert!(matches!(actions[0], OtaAction::ScheduleValidation));
    assert!(ota.in_progress());
}

#[test]
fn boot_reconciliation_without_job_id_does_nothing() {
    let mut ota = engine();
    let actions = ota.manage_rollback(None, SlotState::Valid);
    assert!(actions.is_empty());
    assert!(!ota.in_progress());
    let actions = ota.manage_rollback(None, SlotState::Unverified);
    assert!(actions.is_empty());
    assert!(!ota.in_progress());
}

#[test]
fn boot_reconciliation_with_unknown_slot_abandons_job() {
    let mut ota = engine();
    let actions = ota.manage_rollback(Some("job-9"), SlotState::Invalid);
    assert_eq!(actions.len(), 1);
    assert!(matches!(actions[0], OtaAction::ClearJobId));
    assert!(!ota.in_progress());
    let actions = ota.manage_rollback(Some("job-9"), SlotState::Unknown);
    assert_eq!(actions.len(), 1);
    assert!(matches!(actions[0], OtaAction::ClearJobId));
}

#[test]
fn validation_with_connectivity_marks_valid_and_clears_job() {
    let mut ota = engine();
    let _ = ota.manage_rollback(Some("job-9"), SlotState::Unverified);
    let actions = ota.validate_ota(true);
    assert_eq!(actions.len(), 3);
    assert!(matches!(actions[0], OtaAction::MarkSlotValid));
    match &actions[1] {
        OtaAction::ReportStatus(r) => {
            assert_eq!(r.ota_job_id, "job-9");
            assert_eq!(r.status, OtaSatus::Success);
            assert_eq!(r.additional_info, "Firmware verified successfully");
        }
        other => panic!("unexpected action {:?}", other),
    }
    assert!(matches!(actions[2], OtaAction::ClearJobId));
    assert!(!ota.in_progress());
}

#[test]
fn validation_without_connectivity_rolls_back_and_keeps_job() {
    let mut ota = engine();
    let _ = ota.manage_rollback(Some("job-9"), SlotState::Unverified);
    let actions = ota.validate_ota(false);
    assert_eq!(actions.len(), 1);
    assert!(matches!(actions[0], OtaAction::MarkSlotInvalidAndReset));
    // no ClearJobId was requested: the persisted job id stays for the
    // next boot's reconciliation
    assert!(ota.in_progress());
}

#[test]
fn status_wire_labels_are_exact() {
    assert_eq!(OtaSatus::InProgress.describe(), "in-progress");
    assert_eq!(OtaSatus::Success.describe(), "success");
    assert_eq!(OtaSatus::Failed.describe(), "failed");
    assert_eq!(OtaSatus::Rejected.describe(), "rejected");
}

#[test]
fn status_report_builds_topic_and_body() {
    let (topic, report) =
        rainmaker::ota::report_status("N1", "job-1", OtaSatus::Failed, "network error");
    assert_eq!(topic, "node/N1/otastatus");
    assert_eq!(report.ota_job_id, "job-1");
    assert_eq!(report.status, OtaSatus::Failed);
    assert_eq!(report.additional_info, "network error");
}
