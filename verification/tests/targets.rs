//! Which disk may be a target, and the confirmation of an overwrite.
use e_waste::eligibility::{
    evaluate_eligibility, evaluate_transition_eligibility, select_target_disk, Eligibility,
    TransitionEligibility,
};
use e_waste::inventory::{Binary64, BitLockerVolume, Partition, PhysicalDisk};
use e_waste::plan::{
    confirm_and_bind, plan_for_disk, verify_target_before_operation, DiskPlan, PLANNED_CHUNK_SIZE,
    PLANNED_PATTERN,
};
use e_waste::preflight::PreflightStatus;
use e_waste::protection::{evaluate_bitlocker_protection, evaluate_media_detection};

fn gigabytes(size: f64) -> Binary64 {
    Binary64 {
        bits: size.to_bits(),
    }
}

fn make_disk(is_boot: bool, is_system: bool) -> PhysicalDisk {
    PhysicalDisk {
        number: 0,
        friendly_name: "Test Disk".to_string(),
        serial_number: None,
        health_status: "Healthy".to_string(),
        operational_status: "Online".to_string(),
        is_boot,
        is_system,
        size_gb: gigabytes(100.0),
        size_bytes: 100 * 1024 * 1024 * 1024,
        bus_type: Some("SATA".to_string()),
        media_type: Some("HDD".to_string()),
        is_removable: Some(false),
    }
}

fn make_disk_with_serial(is_boot: bool, is_system: bool, serial: Option<&str>) -> PhysicalDisk {
    PhysicalDisk {
        number: 0,
        friendly_name: "Test Disk".to_string(),
        serial_number: serial.map(|s| s.to_string()),
        health_status: "Healthy".to_string(),
        operational_status: "Online".to_string(),
        is_boot,
        is_system,
        size_gb: gigabytes(100.0),
        size_bytes: 100 * 1024 * 1024 * 1024,
        bus_type: Some("SATA".to_string()),
        media_type: Some("HDD".to_string()),
        is_removable: Some(false),
    }
}

fn make_disk_full(
    number: u32,
    serial: Option<&str>,
    friendly_name: &str,
    size_gb: f64,
    health_status: &str,
    is_boot: bool,
    is_system: bool,
) -> PhysicalDisk {
    PhysicalDisk {
        number,
        friendly_name: friendly_name.to_string(),
        serial_number: serial.map(|s| s.to_string()),
        health_status: health_status.to_string(),
        operational_status: "Online".to_string(),
        is_boot,
        is_system,
        size_gb: gigabytes(size_gb),
        size_bytes: (size_gb * 1024.0 * 1024.0 * 1024.0) as u64,
        bus_type: Some("SATA".to_string()),
        media_type: Some("HDD".to_string()),
        is_removable: Some(false),
    }
}

fn make_target_disk() -> PhysicalDisk {
    make_disk_full(
        0,
        Some("ABC123"),
        "Test Disk",
        100.0,
        "Healthy",
        false,
        false,
    )
}

#[test]
fn evaluate_transition_eligibility_blocks_system_disk() {
    let disk = make_disk(true, false);
    assert!(matches!(
        evaluate_transition_eligibility(&disk, true),
        TransitionEligibility::Blocked(_)
    ));
    assert!(matches!(
        evaluate_transition_eligibility(&disk, false),
        TransitionEligibility::Blocked(_)
    ));
}

#[test]
fn evaluate_transition_eligibility_blocks_when_already_offline() {
    let mut disk = make_disk(false, false);
    disk.operational_status = "Offline".to_string();
    assert!(matches!(
        evaluate_transition_eligibility(&disk, true),
        TransitionEligibility::Blocked(_)
    ));
}

#[test]
fn evaluate_transition_eligibility_blocks_when_already_online() {
    let disk = make_disk(false, false);
    assert!(matches!(
        evaluate_transition_eligibility(&disk, false),
        TransitionEligibility::Blocked(_)
    ));
}

#[test]
fn evaluate_transition_eligibility_allows_valid_transition() {
    let mut offline_disk = make_disk(false, false);
    offline_disk.operational_status = "Offline".to_string();
    assert!(matches!(
        evaluate_transition_eligibility(&offline_disk, false),
        TransitionEligibility::Eligible
    ));

    let online_disk = make_disk(false, false);
    assert!(matches!(
        evaluate_transition_eligibility(&online_disk, true),
        TransitionEligibility::Eligible
    ));
}

fn make_partition(drive_letter: Option<char>) -> Partition {
    Partition {
        disk_number: 0,
        drive_letter,
        partition_type: "Basic".to_string(),
        access_paths: drive_letter.map(|l| vec![format!("{}:\\", l)]),
    }
}

fn make_letterless_partition(partition_type: &str) -> Partition {
    Partition {
        disk_number: 0,
        drive_letter: None,
        partition_type: partition_type.to_string(),
        access_paths: None,
    }
}

fn make_volume(mount_point: &str, protection_status: &str) -> BitLockerVolume {
    BitLockerVolume {
        mount_point: mount_point.to_string(),
        volume_status: Some("FullyEncrypted".to_string()),
        protection_status: protection_status.to_string(),
        encryption_percentage: Some(100),
        volume_type: "Data".to_string(),
        capacity_gb: gigabytes(100.0),
    }
}

#[test]
fn system_disk_is_blocked() {
    let disk = make_disk(true, false);

    let result = evaluate_eligibility(&disk);

    assert!(matches!(result, Eligibility::Blocked(_)));
}

#[test]
fn system_disk_via_is_system_flag_alone_is_blocked() {
    let disk = make_disk(false, true);

    let result = evaluate_eligibility(&disk);

    assert!(matches!(result, Eligibility::Blocked(_)));
}

#[test]
fn active_bitlocker_protection_is_blocked() {
    let disk = make_disk(false, false);
    let partition = make_partition(Some('C'));
    let partitions = vec![&partition];
    let volume = make_volume("C:", "On");
    let bitlocker: Result<Vec<BitLockerVolume>, String> = Ok(vec![volume]);

    let result = evaluate_bitlocker_protection(&disk, &partitions, &bitlocker);

    assert_eq!(result.status, PreflightStatus::Blocked);
}

#[test]
fn missing_bitlocker_data_is_unknown() {
    let disk = make_disk(false, false);
    let partition = make_partition(Some('C'));
    let partitions = vec![&partition];
    let bitlocker: Result<Vec<BitLockerVolume>, String> =
        Err("simulated failure".into());

    let result = evaluate_bitlocker_protection(&disk, &partitions, &bitlocker);

    assert_eq!(result.status, PreflightStatus::Unknown);
}

#[test]
fn unrecognized_protection_status_is_unknown() {
    let disk = make_disk(false, false);
    let partition = make_partition(Some('C'));
    let partitions = vec![&partition];
    let volume = make_volume("C:", "Unknown");
    let bitlocker: Result<Vec<BitLockerVolume>, String> = Ok(vec![volume]);

    let result = evaluate_bitlocker_protection(&disk, &partitions, &bitlocker);

    assert_eq!(result.status, PreflightStatus::Unknown);
}

#[test]
fn non_system_disk_with_protection_off_is_eligible() {
    let disk = make_disk(false, false);
    let partition = make_partition(Some('C'));
    let partitions = vec![&partition];
    let volume = make_volume("C:", "Off");
    let bitlocker: Result<Vec<BitLockerVolume>, String> = Ok(vec![volume]);

    assert!(matches!(evaluate_eligibility(&disk), Eligibility::Eligible));
    assert_eq!(
        evaluate_bitlocker_protection(&disk, &partitions, &bitlocker).status,
        PreflightStatus::Safe
    );
}

#[test]
fn one_protected_volume_among_multiple_partitions_is_blocked() {
    let disk = make_disk(false, false);
    let partition_c = make_partition(Some('C'));
    let partition_d = make_partition(Some('D'));
    let partitions = vec![&partition_c, &partition_d];
    let volume_c = make_volume("C:", "Off");
    let volume_d = make_volume("D:", "On");
    let bitlocker: Result<Vec<BitLockerVolume>, String> =
        Ok(vec![volume_c, volume_d]);

    let result = evaluate_bitlocker_protection(&disk, &partitions, &bitlocker);

    assert_eq!(result.status, PreflightStatus::Blocked);
}

#[test]
fn lettered_partition_with_no_bitlocker_entry_is_unknown() {
    let disk = make_disk(false, false);
    let partition = make_partition(Some('C'));
    let partitions = vec![&partition];
    let bitlocker: Result<Vec<BitLockerVolume>, String> = Ok(vec![]);

    let result = evaluate_bitlocker_protection(&disk, &partitions, &bitlocker);

    assert_eq!(result.status, PreflightStatus::Unknown);
}

#[test]
fn lowercase_drive_letter_still_matches_protected_volume() {
    let disk = make_disk(false, false);
    let partition = make_partition(Some('c'));
    let partitions = vec![&partition];
    let volume = make_volume("C:", "On");
    let bitlocker: Result<Vec<BitLockerVolume>, String> = Ok(vec![volume]);

    let result = evaluate_bitlocker_protection(&disk, &partitions, &bitlocker);

    assert_eq!(result.status, PreflightStatus::Blocked);
}

#[test]
fn trailing_separator_mount_point_still_matches_protected_volume() {
    let disk = make_disk(false, false);
    let partition = make_partition(Some('C'));
    let partitions = vec![&partition];
    let volume = make_volume("C:\\", "On");
    let bitlocker: Result<Vec<BitLockerVolume>, String> = Ok(vec![volume]);

    let result = evaluate_bitlocker_protection(&disk, &partitions, &bitlocker);

    assert_eq!(result.status, PreflightStatus::Blocked);
}

#[test]
fn nul_drive_letter_is_unknown() {
    let disk = make_disk(false, false);
    let partition = make_partition(Some('\0'));
    let partitions = vec![&partition];
    let bitlocker: Result<Vec<BitLockerVolume>, String> = Ok(vec![]);

    let result = evaluate_bitlocker_protection(&disk, &partitions, &bitlocker);

    assert_eq!(result.status, PreflightStatus::Unknown);
}

#[test]
fn letterless_efi_msr_recovery_partitions_do_not_force_unknown() {
    let disk = make_disk(false, false);
    let system = make_letterless_partition("System");
    let reserved = make_letterless_partition("Reserved");
    let recovery = make_letterless_partition("Recovery");
    let partitions = vec![&system, &reserved, &recovery];
    let bitlocker: Result<Vec<BitLockerVolume>, String> = Ok(vec![]);

    let result = evaluate_bitlocker_protection(&disk, &partitions, &bitlocker);

    assert_eq!(result.status, PreflightStatus::Safe);
}

#[test]
fn letterless_data_volume_is_unknown() {
    let disk = make_disk(false, false);
    let partition = make_partition(None);
    let partitions = vec![&partition];
    let bitlocker: Result<Vec<BitLockerVolume>, String> = Ok(vec![]);

    let result = evaluate_bitlocker_protection(&disk, &partitions, &bitlocker);

    assert_eq!(result.status, PreflightStatus::Unknown);
}

#[test]
fn letterless_data_volume_among_system_partitions_is_unknown() {
    let disk = make_disk(false, false);
    let system = make_letterless_partition("System");
    let data = make_partition(None);
    let partitions = vec![&system, &data];
    let bitlocker: Result<Vec<BitLockerVolume>, String> = Ok(vec![]);

    let result = evaluate_bitlocker_protection(&disk, &partitions, &bitlocker);

    assert_eq!(result.status, PreflightStatus::Unknown);
}

#[test]
fn unrecognized_letterless_partition_type_is_unknown() {
    let disk = make_disk(false, false);
    let partition = make_letterless_partition("");
    let partitions = vec![&partition];
    let bitlocker: Result<Vec<BitLockerVolume>, String> = Ok(vec![]);

    let result = evaluate_bitlocker_protection(&disk, &partitions, &bitlocker);

    assert_eq!(result.status, PreflightStatus::Unknown);
}

#[test]
fn lettered_volume_still_evaluated_past_a_letterless_system_partition() {
    let disk = make_disk(false, false);
    let system = make_letterless_partition("System");
    let data = make_partition(Some('D'));
    let partitions = vec![&system, &data];
    let volume = make_volume("D:", "On");
    let bitlocker: Result<Vec<BitLockerVolume>, String> = Ok(vec![volume]);

    let result = evaluate_bitlocker_protection(&disk, &partitions, &bitlocker);

    assert_eq!(result.status, PreflightStatus::Blocked);
}

#[test]
fn bitlocker_failure_with_no_lettered_partitions_is_unknown() {
    let disk = make_disk(false, false);
    let partition = make_letterless_partition("System");
    let partitions = vec![&partition];
    let bitlocker: Result<Vec<BitLockerVolume>, String> =
        Err("simulated failure".into());

    let result = evaluate_bitlocker_protection(&disk, &partitions, &bitlocker);

    assert_eq!(result.status, PreflightStatus::Unknown);
}

#[test]
fn bitlocker_failure_with_empty_partition_list_is_unknown() {
    let disk = make_disk(false, false);
    let partitions: Vec<&Partition> = vec![];
    let bitlocker: Result<Vec<BitLockerVolume>, String> =
        Err("simulated failure".into());

    let result = evaluate_bitlocker_protection(&disk, &partitions, &bitlocker);

    assert_eq!(result.status, PreflightStatus::Unknown);
}

#[test]
fn select_nonexistent_disk_returns_err() {
    let disks = vec![make_disk(false, false)];

    let result = select_target_disk(&disks, 99, None);

    assert!(result.is_err());
}

#[test]
fn select_system_disk_returns_err() {
    let disks = vec![make_disk(true, false)];

    let result = select_target_disk(&disks, 0, None);

    assert!(result.is_err());
}

#[test]
fn select_disk_with_active_bitlocker_returns_ok() {
    let disks = vec![make_disk(false, false)];

    let result = select_target_disk(&disks, 0, None);

    assert!(result.is_ok());
}

#[test]
fn select_eligible_disk_without_serial_returns_ok() {
    let disks = vec![make_disk(false, false)];

    let result = select_target_disk(&disks, 0, None);

    assert!(result.is_ok());
}

#[test]
fn select_eligible_disk_with_correct_serial_returns_ok() {
    let disks = vec![make_disk_with_serial(false, false, Some("ABC123"))];

    let result = select_target_disk(&disks, 0, Some("ABC123"));

    assert!(result.is_ok());
}

#[test]
fn select_eligible_disk_with_incorrect_serial_returns_err() {
    let disks = vec![make_disk_with_serial(false, false, Some("ABC123"))];

    let result = select_target_disk(&disks, 0, Some("WRONG"));

    assert!(result.is_err());
}

#[test]
fn select_disk_requiring_serial_but_unavailable_returns_err() {
    let disks = vec![make_disk_with_serial(false, false, None)];

    let result = select_target_disk(&disks, 0, Some("ABC123"));

    assert!(result.is_err());
}

#[test]
fn select_disk_with_duplicate_numbers_returns_err() {
    let disks = vec![make_disk(false, false), make_disk(false, false)];

    let result = select_target_disk(&disks, 0, None);

    assert!(result.is_err());
}

#[test]
fn verify_refuses_original_without_serial() {
    let original = make_disk_full(0, None, "Test Disk", 100.0, "Healthy", false, false);
    let fresh_disks = vec![make_target_disk()];

    let result = verify_target_before_operation(&original, &fresh_disks);

    assert!(result.is_err());
}

#[test]
fn verify_refuses_original_with_empty_serial() {
    let original = make_disk_full(0, Some("   "), "Test Disk", 100.0, "Healthy", false, false);
    let fresh_disks = vec![make_disk_full(
        0,
        Some("   "),
        "Test Disk",
        100.0,
        "Healthy",
        false,
        false,
    )];

    let result = verify_target_before_operation(&original, &fresh_disks);

    assert!(result.is_err());
}

#[test]
fn verify_refuses_when_disk_is_gone() {
    let original = make_target_disk();
    let fresh_disks: Vec<PhysicalDisk> = vec![];

    let result = verify_target_before_operation(&original, &fresh_disks);

    assert!(result.is_err());
}

#[test]
fn verify_refuses_duplicate_disk_numbers() {
    let original = make_target_disk();
    let fresh_disks = vec![make_target_disk(), make_target_disk()];

    let result = verify_target_before_operation(&original, &fresh_disks);

    assert!(result.is_err());
}

#[test]
fn verify_refuses_when_serial_differs() {
    let original = make_target_disk();
    let fresh_disks = vec![make_disk_full(
        0,
        Some("DIFFERENT"),
        "Test Disk",
        100.0,
        "Healthy",
        false,
        false,
    )];

    let result = verify_target_before_operation(&original, &fresh_disks);

    assert!(result.is_err());
}

#[test]
fn verify_refuses_when_fresh_serial_is_missing() {
    let original = make_target_disk();
    let fresh_disks = vec![make_disk_full(
        0,
        None,
        "Test Disk",
        100.0,
        "Healthy",
        false,
        false,
    )];

    let result = verify_target_before_operation(&original, &fresh_disks);

    assert!(result.is_err());
}

#[test]
fn verify_refuses_when_friendly_name_differs() {
    let original = make_target_disk();
    let fresh_disks = vec![make_disk_full(
        0,
        Some("ABC123"),
        "Different Disk",
        100.0,
        "Healthy",
        false,
        false,
    )];

    let result = verify_target_before_operation(&original, &fresh_disks);

    assert!(result.is_err());
}

#[test]
fn verify_refuses_when_size_differs() {
    let original = make_target_disk();
    let fresh_disks = vec![make_disk_full(
        0,
        Some("ABC123"),
        "Test Disk",
        250.0,
        "Healthy",
        false,
        false,
    )];

    let result = verify_target_before_operation(&original, &fresh_disks);

    assert!(result.is_err());
}

#[test]
fn verify_refuses_when_disk_is_now_system_disk() {
    let original = make_target_disk();
    let fresh_disks = vec![make_disk_full(
        0,
        Some("ABC123"),
        "Test Disk",
        100.0,
        "Healthy",
        true,
        false,
    )];

    let result = verify_target_before_operation(&original, &fresh_disks);

    assert!(result.is_err());
}

#[test]
fn verify_accepts_when_volume_is_now_protected() {
    let original = make_target_disk();
    let fresh_disks = vec![make_target_disk()];

    let result = verify_target_before_operation(&original, &fresh_disks);

    assert!(result.is_ok());
}

#[test]
fn verify_accepts_matching_disk_and_returns_fresh_inventory_entry() {
    let original = make_target_disk();
    let fresh_disks = vec![make_disk_full(
        0,
        Some("ABC123"),
        "Test Disk",
        100.0,
        "Warning",
        false,
        false,
    )];

    let result = verify_target_before_operation(&original, &fresh_disks);

    let verified = result.expect("matching disk should verify");
    assert_eq!(verified.health_status, "Warning");
    assert!(std::ptr::eq(verified, &fresh_disks[0]));
}

#[test]
fn confirm_and_bind_succeeds_when_everything_matches() {
    let selected = make_target_disk();
    let confirmed_plan = plan_for_disk(&selected);
    let fresh_disks = vec![make_target_disk()];

    let result = confirm_and_bind(&selected, &confirmed_plan, "ABC123", &fresh_disks);

    let bound = result.expect("matching confirmation should bind");
    assert_eq!(bound.plan, confirmed_plan);
}

#[test]
fn confirm_and_bind_rejects_wrong_serial() {
    let selected = make_target_disk();
    let confirmed_plan = plan_for_disk(&selected);
    let fresh_disks = vec![make_target_disk()];

    let result = confirm_and_bind(&selected, &confirmed_plan, "WRONG", &fresh_disks);

    assert!(result.is_err());
}

#[test]
fn confirm_and_bind_rejects_empty_confirmation() {
    let selected = make_target_disk();
    let confirmed_plan = plan_for_disk(&selected);
    let fresh_disks = vec![make_target_disk()];

    let result = confirm_and_bind(&selected, &confirmed_plan, "   ", &fresh_disks);

    assert!(result.is_err());
}

#[test]
fn confirm_and_bind_rejects_a_disk_with_no_serial() {
    let selected = make_disk(false, false);
    let confirmed_plan = plan_for_disk(&selected);
    let fresh_disks = vec![make_disk(false, false)];

    let result = confirm_and_bind(&selected, &confirmed_plan, "anything", &fresh_disks);

    assert!(result.is_err());
}

#[test]
fn confirm_and_bind_rejects_when_disk_is_gone() {
    let selected = make_target_disk();
    let confirmed_plan = plan_for_disk(&selected);
    let fresh_disks: Vec<PhysicalDisk> = vec![];

    let result = confirm_and_bind(&selected, &confirmed_plan, "ABC123", &fresh_disks);

    assert!(result.is_err());
}

#[test]
fn confirm_and_bind_rejects_when_disk_is_now_system_disk() {
    let selected = make_target_disk();
    let confirmed_plan = plan_for_disk(&selected);
    let fresh_disks = vec![make_disk_full(
        0,
        Some("ABC123"),
        "Test Disk",
        100.0,
        "Healthy",
        true,
        false,
    )];

    let result = confirm_and_bind(&selected, &confirmed_plan, "ABC123", &fresh_disks);

    assert!(result.is_err());
}

#[test]
fn confirm_and_bind_rejects_duplicate_disk_numbers_in_fresh_inventory() {
    let selected = make_target_disk();
    let confirmed_plan = plan_for_disk(&selected);
    let fresh_disks = vec![make_target_disk(), make_target_disk()];

    let result = confirm_and_bind(&selected, &confirmed_plan, "ABC123", &fresh_disks);

    assert!(result.is_err());
}

#[test]
fn confirm_and_bind_rejects_when_bus_type_reclassified() {
    let selected = make_target_disk();
    let confirmed_plan = plan_for_disk(&selected);
    assert!(matches!(confirmed_plan, DiskPlan::Planned { .. }));

    let mut fresh = make_target_disk();
    fresh.bus_type = Some("USB".to_string());
    let fresh_disks = vec![fresh];

    let result = confirm_and_bind(&selected, &confirmed_plan, "ABC123", &fresh_disks);

    assert!(result.is_err());
}

#[test]
fn confirm_and_bind_rejects_when_size_bytes_differs_but_size_gb_does_not() {
    let selected = make_target_disk();
    let confirmed_plan = plan_for_disk(&selected);

    let mut fresh = make_target_disk();
    fresh.size_bytes += 1;
    let fresh_disks = vec![fresh];

    let result = confirm_and_bind(&selected, &confirmed_plan, "ABC123", &fresh_disks);

    assert!(result.is_err());
}

#[test]
fn confirm_and_bind_requires_a_planned_confirmed_plan() {
    let selected = make_target_disk();
    let not_planned = DiskPlan::Skipped("test".to_string());
    let fresh_disks = vec![make_target_disk()];

    let result = confirm_and_bind(&selected, &not_planned, "ABC123", &fresh_disks);

    assert!(result.is_err());
}

#[test]
fn media_detection_safe_when_bus_and_media_type_recognized() {
    let mut disk = make_disk(false, false);
    disk.bus_type = Some("USB".to_string());
    disk.media_type = Some("SSD".to_string());
    disk.is_removable = Some(true);

    let finding = evaluate_media_detection(&disk);

    assert_eq!(finding.status, PreflightStatus::Safe);
}

#[test]
fn media_detection_unknown_when_bus_type_absent() {
    let mut disk = make_disk(false, false);
    disk.bus_type = None;

    assert_eq!(
        evaluate_media_detection(&disk).status,
        PreflightStatus::Unknown
    );
}

#[test]
fn media_detection_unknown_when_media_type_is_windows_sentinel() {
    let mut disk = make_disk(false, false);
    disk.media_type = Some("Unspecified".to_string());

    assert_eq!(
        evaluate_media_detection(&disk).status,
        PreflightStatus::Unknown
    );
}

#[test]
fn plan_for_disk_is_planned_for_an_eligible_disk() {
    let disk = make_disk(false, false);

    let plan = plan_for_disk(&disk);

    assert_eq!(
        plan,
        DiskPlan::Planned {
            total_bytes: disk.size_bytes,
            pattern: PLANNED_PATTERN,
            chunk_size: PLANNED_CHUNK_SIZE,
        }
    );
}

#[test]
fn plan_for_disk_skips_a_blocked_system_disk() {
    let disk = make_disk(true, false);

    assert!(matches!(plan_for_disk(&disk), DiskPlan::Skipped(_)));
}

#[test]
fn plan_for_disk_is_pending_for_a_capacity_untrusted_bus_type() {
    let mut disk = make_disk(false, false);
    disk.bus_type = Some("USB".to_string());

    let plan = plan_for_disk(&disk);

    assert!(matches!(plan, DiskPlan::PendingCapacityConfirmation(_)));
}

#[test]
fn plan_for_disk_is_pending_for_an_absent_bus_type() {
    let mut disk = make_disk(false, false);
    disk.bus_type = None;

    let plan = plan_for_disk(&disk);

    assert!(matches!(plan, DiskPlan::PendingCapacityConfirmation(_)));
}

#[test]
fn plan_for_disk_is_planned_even_when_media_type_is_unrecognized_for_a_trusted_bus() {
    let mut disk = make_disk(false, false);
    disk.bus_type = Some("NVMe".to_string());
    disk.media_type = None;

    let plan = plan_for_disk(&disk);

    assert_eq!(
        plan,
        DiskPlan::Planned {
            total_bytes: disk.size_bytes,
            pattern: PLANNED_PATTERN,
            chunk_size: PLANNED_CHUNK_SIZE,
        }
    );
}
