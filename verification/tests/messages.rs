//! What refusals, findings and reports say, word for word.
use e_waste::args::{
    parse_disk_number_arg, parse_offline_disk_arg, parse_online_disk_arg, parse_request,
    read_flag_value, Request,
};
use e_waste::eligibility::{
    evaluate_eligibility, evaluate_transition_eligibility, select_target_disk, Eligibility,
    TransitionEligibility,
};
use e_waste::inventory::{
    find_first, is_bare_system_partition, partitions_of_disk, Binary64, BitLockerVolume,
    Partition, PhysicalDisk,
};
use e_waste::plan::{
    confirm_and_bind, is_capacity_trusted_bus, plan_for_disk, verify_target_before_operation,
    DiskPlan,
};
use e_waste::powershell::{
    elevation_refusal, exe_path_to_string, inventory_json, is_elevated, judge_elevation, parse_elevation_output,
    powershell_command, powershell_json, transition_command, transition_result, usage_json,
    CRASH_DUMP_SUBJECT, HIBERNATION_SUBJECT, PAGEFILES_SUBJECT, SHADOW_COPIES_SUBJECT,
};
use e_waste::preflight::{PreflightCheck, PreflightReport, PreflightStatus};
use e_waste::protection::{
    evaluate_bitlocker_protection, evaluate_media_detection, full_preflight, judge_partition,
};
use e_waste::report::{
    begin_preflight, bitlocker_section, correlation_lines, correlations_section, disk_lines,
    eligibility_line, eligibility_section, inventory_section, plan_lines, plans_section,
    preflight_lines, preflights_section, unplaceable_line, volume_lines, PreflightNeed,
};
use e_waste::session::{
    accepts_transition, bound_line, confirm_overwrite, prompt_overwrite, propose_overwrite,
    report_transition, require_disk_inventory, run_disk_transition, transition_heading,
    ConfirmationAction, ConfirmationEvent, ConfirmationRun, TransitionAction, TransitionEvent,
    TransitionRun, TransitionStage,
};
use e_waste::usage::{
    evaluate_crash_dump, evaluate_executable_location, evaluate_hibernation, evaluate_pagefile,
    evaluate_preflight, evaluate_shadow_copies, CrashDump, Hibernation, PageFile, ShadowCopy,
    SystemUsage,
};

fn disk(number: u32) -> PhysicalDisk {
    PhysicalDisk {
        number,
        friendly_name: "Test Disk".to_string(),
        serial_number: Some("ABC123".to_string()),
        health_status: "Healthy".to_string(),
        operational_status: "Online".to_string(),
        is_boot: false,
        is_system: false,
        size_gb: Binary64 {
            bits: 100.0f64.to_bits(),
        },
        size_bytes: 107374182400,
        bus_type: Some("SATA".to_string()),
        media_type: Some("HDD".to_string()),
        is_removable: Some(false),
    }
}

fn partition(disk_number: u32, drive_letter: Option<char>, roots: &[&str]) -> Partition {
    Partition {
        disk_number,
        drive_letter,
        partition_type: "Basic".to_string(),
        access_paths: Some(roots.iter().map(|s| s.to_string()).collect()),
    }
}

fn volume(mount_point: &str, protection_status: &str) -> BitLockerVolume {
    BitLockerVolume {
        mount_point: mount_point.to_string(),
        volume_status: Some("FullyEncrypted".to_string()),
        protection_status: protection_status.to_string(),
        encryption_percentage: Some(100),
        volume_type: "Data".to_string(),
        capacity_gb: Binary64 {
            bits: 100.0f64.to_bits(),
        },
    }
}

fn partitions() -> Vec<Partition> {
    vec![
        partition(0, Some('C'), &["C:\\"]),
        partition(1, Some('E'), &["E:\\"]),
    ]
}

fn usage() -> SystemUsage {
    SystemUsage {
        pagefiles: Ok(vec![]),
        hibernation: Ok(Hibernation {
            enabled: Some(0),
            system_drive: Some("C:".to_string()),
        }),
        crash_dump: Ok(CrashDump {
            enabled: Some(0),
            dump_file: None,
            minidump_dir: None,
            dedicated_dump_file: None,
        }),
        shadow_copies: Ok(vec![]),
        exe_path: Ok("C:\\e-waste.exe".to_string()),
    }
}

fn strings(args: &[&str]) -> Vec<String> {
    args.iter().map(|s| s.to_string()).collect()
}

// --- Targets -----------------------------------------------------------------

#[test]
fn refused_selections_say_why() {
    let mut system = disk(1);
    system.is_boot = true;
    let mut bare = disk(2);
    bare.serial_number = None;
    let disks = vec![disk(0), system, bare, disk(3), disk(3)];
    let refusal = |n: u32, serial: Option<&str>| select_target_disk(&disks, n, serial).unwrap_err();

    assert_eq!(refusal(9, None), "no disk found with number 9");
    assert_eq!(
        refusal(3, None),
        "inventory is ambiguous: multiple disks found with number 3"
    );
    assert_eq!(
        refusal(0, Some("X")),
        "serial number mismatch for disk 0: does not match expected confirmation"
    );
    assert_eq!(
        refusal(2, Some("X")),
        "serial number confirmation requested for disk 2 but no serial number is available"
    );
    assert_eq!(refusal(1, None), "disk 1 is blocked: system/boot disk");
    assert!(std::ptr::eq(
        select_target_disk(&disks, 0, Some("ABC123")).unwrap(),
        &disks[0]
    ));
}

#[test]
fn a_disk_can_make_exactly_one_transition() {
    let mut d = disk(0);
    for status in ["Online", "offline", "OFFLINE", "Unknown"] {
        d.operational_status = status.to_string();
        let open = |offline: bool| {
            matches!(
                evaluate_transition_eligibility(&d, offline),
                TransitionEligibility::Eligible
            )
        };
        assert_ne!(open(true), open(false));
    }
    d.operational_status = "Offline".to_string();
    match evaluate_transition_eligibility(&d, true) {
        TransitionEligibility::Blocked(reason) => assert_eq!(reason, "disk is already offline"),
        other => panic!("expected Blocked, got {:?}", other),
    }
    d.operational_status = "Online".to_string();
    match evaluate_transition_eligibility(&d, false) {
        TransitionEligibility::Blocked(reason) => assert_eq!(reason, "disk is already online"),
        other => panic!("expected Blocked, got {:?}", other),
    }
    d.is_system = true;
    match evaluate_eligibility(&d) {
        Eligibility::Blocked(reason) => assert_eq!(reason, "system/boot disk"),
        other => panic!("expected Blocked, got {:?}", other),
    }
}

#[test]
fn refused_verifications_say_why() {
    let refusal = |selected: &PhysicalDisk, fresh: Vec<PhysicalDisk>| {
        verify_target_before_operation(selected, &fresh)
            .map(|d| d.number)
            .unwrap_err()
    };
    let mut blank = disk(0);
    blank.serial_number = Some(" \t".to_string());
    assert_eq!(
        refusal(&blank, vec![disk(0)]),
        "disk 0 has no usable serial number: identity cannot be proven across snapshots"
    );
    assert_eq!(
        refusal(&disk(0), vec![disk(1)]),
        "disk 0 is no longer present in the current inventory"
    );
    assert_eq!(
        refusal(&disk(0), vec![disk(0), disk(0)]),
        "inventory is ambiguous: multiple disks found with number 0"
    );
    let changed = |change: &dyn Fn(&mut PhysicalDisk)| {
        let mut fresh = disk(0);
        change(&mut fresh);
        refusal(&disk(0), vec![fresh])
    };
    assert_eq!(
        changed(&|d| d.serial_number = Some("abc123".to_string())),
        "disk 0 serial number no longer matches the selected target"
    );
    assert_eq!(
        changed(&|d| d.serial_number = None),
        "disk 0 no longer reports a serial number: identity cannot be confirmed"
    );
    assert_eq!(
        changed(&|d| d.friendly_name = "Other".to_string()),
        "disk 0 friendly name no longer matches the selected target"
    );
    assert_eq!(
        changed(&|d| d.size_gb.bits = 100.5f64.to_bits()),
        "disk 0 size no longer matches the selected target"
    );
    assert_eq!(
        changed(&|d| d.size_bytes += 1),
        "disk 0 exact size no longer matches the selected target"
    );
    assert_eq!(
        changed(&|d| d.is_system = true),
        "disk 0 is now a system/boot disk"
    );
}

#[test]
fn refused_confirmations_say_why() {
    let plan = plan_for_disk(&disk(0));
    let fresh = vec![disk(0)];
    assert_eq!(
        confirm_and_bind(&disk(0), &DiskPlan::Skipped("x".to_string()), "ABC123", &fresh)
            .unwrap_err(),
        "cannot confirm an operation that was not Planned"
    );
    let mut bare = disk(0);
    bare.serial_number = None;
    assert_eq!(
        confirm_and_bind(&bare, &plan, "ABC123", &fresh).unwrap_err(),
        "disk 0 has no usable serial number: cannot be confirmed"
    );
    assert_eq!(
        confirm_and_bind(&disk(0), &plan, "abc123", &fresh).unwrap_err(),
        "confirmation did not match the disk's serial number"
    );
    let mut usb = disk(0);
    usb.bus_type = Some("USB".to_string());
    assert_eq!(
        confirm_and_bind(&disk(0), &plan, "ABC123", &[usb]).unwrap_err(),
        "the plan for this disk has changed since confirmation -- aborting; re-run to reconfirm"
    );
    let bound = confirm_and_bind(&disk(0), &plan, " ABC123\r\n", &fresh).unwrap();
    assert_eq!(bound.plan.clone(), plan);
    assert!(std::ptr::eq(bound.disk, &fresh[0]));
    assert_eq!(
        bound_line(&bound),
        "Confirmed and bound: disk 0 (serial ABC123), 107374182400 bytes, pattern 0x00."
    );
}

#[test]
fn sizes_are_compared_as_numbers() {
    let size = |x: f64| Binary64 { bits: x.to_bits() };
    for a in [0.0, -0.0, 1.5, -1.5, f64::INFINITY, f64::NAN, f64::MIN_POSITIVE] {
        for b in [0.0, -0.0, 1.5, -1.5, f64::INFINITY, f64::NAN, f64::MIN_POSITIVE] {
            assert_eq!(size(a).same_number(&size(b)), a == b, "{} {}", a, b);
        }
    }
}

#[test]
fn plans_say_why_there_is_none() {
    let mut d = disk(0);
    d.bus_type = Some("USB".to_string());
    assert_eq!(
        plan_for_disk(&d),
        DiskPlan::PendingCapacityConfirmation(
            "bus type USB is not on the list of buses with trusted capacity reporting".to_string()
        )
    );
    d.bus_type = None;
    assert_eq!(
        plan_for_disk(&d),
        DiskPlan::PendingCapacityConfirmation(
            "bus type (absent) is not on the list of buses with trusted capacity reporting"
                .to_string()
        )
    );
    d.is_boot = true;
    assert_eq!(
        plan_for_disk(&d),
        DiskPlan::Skipped("system/boot disk".to_string())
    );
    assert_ne!(
        plan_for_disk(&d),
        DiskPlan::PendingCapacityConfirmation("system/boot disk".to_string())
    );
    for bus in ["SATA", "nvme", "SAS", "ATA", "SCSI", "Fibre Channel", "RAID", "ISCSI"] {
        assert!(is_capacity_trusted_bus(Some(bus)));
    }
    for bus in ["USB", "SD", "MMC", "", "SATA "] {
        assert!(!is_capacity_trusted_bus(Some(bus)));
    }
}

// --- Findings ----------------------------------------------------------------

#[test]
fn findings_on_usage_say_why() {
    let parts = partitions();
    let mut u = usage();
    let detail = |u: &SystemUsage| -> Vec<String> {
        evaluate_preflight(1, &parts, u)
            .findings
            .iter()
            .map(|f| f.detail.clone())
            .collect()
    };
    assert_eq!(
        detail(&u),
        vec![
            "no pagefile is in use or configured on this system",
            "hibernation is disabled (HibernateEnabled = 0)",
            "crash dumps are disabled (CrashDumpEnabled = 0)",
            "no shadow copies exist on this system",
            "E-Waste is not running from this disk",
        ]
    );
    u.pagefiles = Ok(vec![
        PageFile {
            name: "E:\\a.sys".to_string(),
            source: "in-use".to_string(),
        },
        PageFile {
            name: "C:\\b.sys".to_string(),
            source: "in-use".to_string(),
        },
        PageFile {
            name: "e:/c.sys".to_string(),
            source: "configured".to_string(),
        },
    ]);
    u.hibernation = Ok(Hibernation {
        enabled: Some(1),
        system_drive: Some("C:".to_string()),
    });
    u.crash_dump = Ok(CrashDump {
        enabled: Some(7),
        dump_file: None,
        minidump_dir: None,
        dedicated_dump_file: None,
    });
    u.shadow_copies = Ok(vec![ShadowCopy {
        id: "{1}".to_string(),
        volume_name: "Z:\\".to_string(),
    }]);
    u.exe_path = Ok("E:\\x.exe".to_string());
    assert_eq!(
        detail(&u),
        vec![
            "on disk 1: in-use pagefile E:\\a.sys; configured pagefile e:/c.sys",
            "hibernation is enabled, but the system volume is not on this disk",
            "crash dumps are enabled (CrashDumpEnabled = 7) but no dump path is configured",
            "could not be resolved to a physical disk: shadow copy {1} on Z:\\",
            "on disk 1: E-Waste executable E:\\x.exe",
        ]
    );
    u.crash_dump = Ok(CrashDump {
        enabled: Some(7),
        dump_file: Some("E:\\d".to_string()),
        minidump_dir: Some("E:\\m".to_string()),
        dedicated_dump_file: Some("E:\\x".to_string()),
    });
    assert_eq!(
        evaluate_crash_dump(1, &parts, &u).detail,
        "on disk 1: dump file E:\\d; minidump directory E:\\m; dedicated dump file E:\\x"
    );
    assert_eq!(
        evaluate_crash_dump(0, &parts, &u).detail,
        "no configured crash dump path resolves to this disk"
    );
    u.hibernation = Ok(Hibernation {
        enabled: Some(1),
        system_drive: Some("E:".to_string()),
    });
    assert_eq!(
        evaluate_hibernation(1, &parts, &u).detail,
        "on disk 1: hibernation system volume (hiberfil.sys) E:"
    );
    u.hibernation = Ok(Hibernation {
        enabled: Some(1),
        system_drive: None,
    });
    assert_eq!(
        evaluate_hibernation(1, &parts, &u).detail,
        "hibernation is enabled but the system drive could not be determined"
    );
}

#[test]
fn a_failed_query_leaves_its_own_check_open_and_no_other() {
    let parts = partitions();
    let base = evaluate_preflight(1, &parts, &usage());
    let mut failed = usage();
    failed.pagefiles = Err("p".to_string());
    failed.hibernation = Err("h".to_string());
    failed.crash_dump = Err("c".to_string());
    failed.shadow_copies = Err("s".to_string());
    failed.exe_path = Err("e".to_string());
    assert_eq!(
        evaluate_pagefile(1, &parts, &failed).detail,
        "pagefile information unavailable: p"
    );
    assert_eq!(
        evaluate_hibernation(1, &parts, &failed).detail,
        "hibernation state unavailable: h"
    );
    assert_eq!(
        evaluate_crash_dump(1, &parts, &failed).detail,
        "crash dump configuration unavailable: c"
    );
    assert_eq!(
        evaluate_shadow_copies(1, &parts, &failed).detail,
        "shadow copy enumeration unavailable: s"
    );
    assert_eq!(
        evaluate_executable_location(1, &parts, &failed).detail,
        "E-Waste executable location unavailable: e"
    );
    let mut one = usage();
    one.crash_dump = Err("c".to_string());
    let report = evaluate_preflight(1, &parts, &one);
    for i in 0..5 {
        if i == 2 {
            assert_eq!(report.findings[i].status, PreflightStatus::Unknown);
        } else {
            assert_eq!(report.findings[i].status, base.findings[i].status);
            assert_eq!(report.findings[i].detail, base.findings[i].detail);
        }
    }
    assert_eq!(report.status(), PreflightStatus::Unknown);
}

#[test]
fn absent_registry_values_say_so() {
    let parts = partitions();
    let mut u = usage();
    u.hibernation = Ok(Hibernation {
        enabled: None,
        system_drive: None,
    });
    u.crash_dump = Ok(CrashDump {
        enabled: None,
        dump_file: None,
        minidump_dir: None,
        dedicated_dump_file: None,
    });
    assert_eq!(
        evaluate_hibernation(1, &parts, &u).detail,
        "HibernateEnabled is absent or unreadable"
    );
    assert_eq!(
        evaluate_crash_dump(1, &parts, &u).detail,
        "CrashDumpEnabled is absent or unreadable"
    );
}

#[test]
fn findings_on_bitlocker_say_why() {
    let detail = |p: Partition, volumes: Vec<BitLockerVolume>| {
        evaluate_bitlocker_protection(&disk(4), &[&p], &Ok(volumes)).detail
    };
    let mut data = partition(4, None, &[]);
    data.partition_type = "IFS".to_string();
    assert_eq!(
        detail(data, vec![]),
        "disk 4 has a letterless IFS partition whose BitLocker state cannot be determined"
    );
    assert_eq!(
        detail(partition(4, Some('\0'), &[]), vec![]),
        "partition on disk 4 reports an unusable drive letter '\\0'"
    );
    assert_eq!(
        detail(partition(4, Some('é'), &[]), vec![]),
        "partition on disk 4 reports an unusable drive letter 'é'"
    );
    assert_eq!(
        detail(partition(4, Some('D'), &[]), vec![volume("E:", "Off")]),
        "no BitLocker entry for volume D: on disk 4: protection state unknown"
    );
    assert_eq!(
        detail(partition(4, Some('D'), &[]), vec![volume("d:\\", "On")]),
        "volume D: is BitLocker-protected (ProtectionStatus: On)"
    );
    assert_eq!(
        detail(partition(4, Some('D'), &[]), vec![volume("D:", "on")]),
        "volume D: has unrecognized ProtectionStatus 'on'"
    );
    assert_eq!(
        detail(partition(4, Some('D'), &[]), vec![volume("D:", "Off")]),
        "no partition on this disk is BitLocker-protected"
    );
    assert_eq!(
        evaluate_bitlocker_protection(&disk(4), &[], &Err("denied".to_string())).detail,
        "BitLocker information unavailable: denied"
    );
    let found = judge_partition(4, &partition(4, Some('1'), &[]), &vec![], "<1>").unwrap();
    assert_eq!(
        found.detail,
        "partition on disk 4 reports an unusable drive letter <1>"
    );
    assert_eq!(found.check, PreflightCheck::BitLockerProtection);
}

#[test]
fn findings_on_media_say_why() {
    let mut d = disk(0);
    assert_eq!(
        evaluate_media_detection(&d).detail,
        "bus type SATA / media type HDD / removable: false"
    );
    d.is_removable = Some(true);
    assert_eq!(
        evaluate_media_detection(&d).detail,
        "bus type SATA / media type HDD / removable: true"
    );
    d.is_removable = None;
    assert_eq!(
        evaluate_media_detection(&d).detail,
        "bus type SATA / media type HDD / removable: Unavailable"
    );
    d.bus_type = Some("Unknown".to_string());
    assert_eq!(
        evaluate_media_detection(&d).detail,
        "bus type Unknown / media type HDD not fully recognized"
    );
    d.bus_type = None;
    d.media_type = Some("".to_string());
    assert_eq!(
        evaluate_media_detection(&d).detail,
        "bus type (absent) / media type  not fully recognized"
    );
    d.media_type = None;
    assert_eq!(
        evaluate_media_detection(&d).detail,
        "bus type (absent) / media type (absent) not fully recognized"
    );
}

#[test]
fn partitions_without_user_data_are_known_by_type() {
    for t in ["System", "reserved", " Recovery "] {
        assert!(is_bare_system_partition(t));
    }
    for t in ["", "Basic", "Systems", "Recovery1"] {
        assert!(!is_bare_system_partition(t));
    }
}

#[test]
fn another_finding_never_improves_a_report() {
    let parts = partitions();
    let mut u = usage();
    u.exe_path = Ok("E:\\x.exe".to_string());
    let mut report: PreflightReport = evaluate_preflight(1, &parts, &u);
    assert_eq!(report.status(), PreflightStatus::Blocked);
    report.findings.push(evaluate_media_detection(&disk(1)));
    assert_eq!(report.status(), PreflightStatus::Blocked);
    let mut calm = evaluate_preflight(1, &parts, &usage());
    assert_eq!(calm.status(), PreflightStatus::Safe);
    let mut odd = disk(1);
    odd.media_type = None;
    calm.findings.push(evaluate_media_detection(&odd));
    assert_eq!(calm.status(), PreflightStatus::Unknown);
}

// --- Commands ----------------------------------------------------------------

#[test]
fn arguments_make_at_most_one_request() {
    let request = |args: &[&str]| parse_request(&strings(args));
    assert_eq!(request(&["x"]), Ok(Request::ReportOnly));
    assert_eq!(request(&[]), Ok(Request::ReportOnly));
    assert_eq!(request(&["x", "--target-disk", "1"]), Ok(Request::Target(1)));
    assert_eq!(request(&["x", "--offline-disk", "2"]), Ok(Request::Offline(2)));
    assert_eq!(request(&["x", "--online-disk", "+3"]), Ok(Request::Online(3)));
    assert_eq!(
        request(&["x", "--target-disk", "1", "--online-disk", "1"]),
        Err("Only one of --target-disk, --offline-disk, --online-disk may be given.".to_string())
    );
    assert_eq!(
        request(&["x", "--online-disk"]),
        Err("--online-disk requires a disk number".to_string())
    );
    assert_eq!(
        request(&["x", "--offline-disk", "a\"b"]),
        Err("--offline-disk value \"a\\\"b\" is not a valid disk number".to_string())
    );
    assert_eq!(
        request(&["x", "--online-disk", "z", "--target-disk", "y"]),
        Err("--target-disk value \"y\" is not a valid disk number".to_string())
    );
}

#[test]
fn the_first_occurrence_of_a_flag_decides() {
    assert_eq!(
        parse_offline_disk_arg(&strings(&["--offline-disk", "1", "--offline-disk", "x"])),
        Ok(Some(1))
    );
    assert_eq!(
        parse_online_disk_arg(&strings(&["--online-disk", "--online-disk", "1"])),
        Err("--online-disk value \"--online-disk\" is not a valid disk number".to_string())
    );
    assert_eq!(
        parse_disk_number_arg(&strings(&["--n", "4294967295"]), "--n"),
        Ok(Some(u32::MAX))
    );
    assert_eq!(
        read_flag_value("--n", Some("x"), "<x>"),
        Err("--n value <x> is not a valid disk number".to_string())
    );
    assert_eq!(
        read_flag_value("--n", None, ""),
        Err("--n requires a disk number".to_string())
    );
}

#[test]
fn commands_are_run_with_utf8_output() {
    assert_eq!(
        powershell_command("Get-Disk"),
        "[Console]::OutputEncoding=[Text.Encoding]::UTF8; \
$OutputEncoding=[Text.Encoding]::UTF8; Get-Disk"
    );
    assert_eq!(
        transition_command(7, true),
        "Set-Disk -Number 7 -IsOffline $true"
    );
    assert_eq!(
        transition_command(7, false),
        "Set-Disk -Number 7 -IsOffline $false"
    );
}

#[test]
fn an_error_message_is_a_failure_whatever_was_printed() {
    assert_eq!(powershell_json(b" [] \r\n", b" \r\n"), Ok("[]".to_string()));
    assert_eq!(
        powershell_json(b"[]", b" denied \r\n"),
        Err("PowerShell error: denied".to_string())
    );
    assert_eq!(
        powershell_json(b"[]", b"bad \xff byte"),
        Err("PowerShell error: bad \u{fffd} byte".to_string())
    );
    assert_eq!(
        powershell_json(b"\xff", b"denied"),
        Err("PowerShell produced output that was not valid UTF-8".to_string())
    );
    assert_eq!(
        powershell_json("[\"é\"]".as_bytes(), b""),
        Ok("[\"é\"]".to_string())
    );
    assert_eq!(inventory_json(b" \n", b""), Ok(None));
    assert_eq!(inventory_json(b"[1]\n", b""), Ok(Some("[1]".to_string())));
    assert_eq!(
        inventory_json(b"", b"x"),
        Err("PowerShell error: x".to_string())
    );
    assert_eq!(
        usage_json(b"\n", b"", "pagefile"),
        Err("pagefile query returned no output".to_string())
    );
    assert_eq!(usage_json(b"[]", b"", "pagefile"), Ok("[]".to_string()));
    for (subject, message) in [
        (PAGEFILES_SUBJECT, "pagefile query returned no output"),
        (HIBERNATION_SUBJECT, "hibernation query returned no output"),
        (CRASH_DUMP_SUBJECT, "crash dump query returned no output"),
        (SHADOW_COPIES_SUBJECT, "shadow copy query returned no output"),
    ] {
        assert_eq!(usage_json(b"", b"", subject), Err(message.to_string()));
    }
    assert_eq!(
        usage_json(b"[]", b"x", "pagefile"),
        Err("PowerShell error: x".to_string())
    );
    assert_eq!(transition_result(b"\r\n"), Ok(()));
    assert_eq!(
        transition_result(b"Removable media cannot be set to offline\r\n"),
        Err("PowerShell error: Removable media cannot be set to offline".to_string())
    );
    assert_eq!(
        transition_result(b"\xfe"),
        Err("PowerShell error: \u{fffd}".to_string())
    );
}

#[test]
fn elevation_is_never_guessed() {
    assert_eq!(is_elevated(b"True\r\n", b""), Ok(true));
    assert_eq!(is_elevated(b"False\r\n", b""), Ok(false));
    assert_eq!(
        is_elevated(b"True\r\n", b"warning"),
        Err("PowerShell error: warning".to_string())
    );
    assert_eq!(
        is_elevated(b"true", b""),
        Err("unexpected output from privilege check: \"true\"".to_string())
    );
    assert_eq!(
        parse_elevation_output(" a\"\u{7f}b "),
        Err("unexpected output from privilege check: \"a\\\"\\u{7f}b\"".to_string())
    );
    assert_eq!(
        judge_elevation("x", "<x>"),
        Err("unexpected output from privilege check: <x>".to_string())
    );
    assert_eq!(judge_elevation("True", "?"), Ok(true));
}

#[test]
fn a_path_without_text_is_an_error() {
    assert_eq!(
        exe_path_to_string(None),
        Err("executable path is not valid UTF-8".to_string())
    );
    assert_eq!(exe_path_to_string(Some("C:\\é")), Ok("C:\\é".to_string()));
}

// --- Report ------------------------------------------------------------------

#[test]
fn the_inventory_is_reported_in_full() {
    let mut d = disk(3);
    assert_eq!(
        disk_lines(&d, "100.00"),
        vec![
            "Disk 3",
            "  Name: Test Disk",
            "  Serial: ABC123",
            "  Health: Healthy",
            "  Operational: Online",
            "  System Disk: NO",
            "  Size: 100.00 GB",
            "  Bus Type: SATA",
            "  Media Type: HDD",
            "  Removable: false",
        ]
    );
    d.serial_number = None;
    d.bus_type = None;
    d.media_type = None;
    d.is_removable = None;
    d.is_system = true;
    let lines = disk_lines(&d, "0.50");
    assert_eq!(lines[2], "  Serial: Unavailable");
    assert_eq!(lines[5], "  System Disk: YES");
    assert_eq!(lines[7], "  Bus Type: Unavailable");
    assert_eq!(lines[8], "  Media Type: Unavailable");
    assert_eq!(lines[9], "  Removable: Unavailable");
}

#[test]
fn volumes_are_reported_in_full() {
    let mut v = volume("C:", "On");
    assert_eq!(
        volume_lines(&v, "99.50"),
        vec![
            "Volume C:",
            "  Type: Data",
            "  Status: FullyEncrypted",
            "  Protection: On",
            "  Encryption: 100%",
            "  Capacity: 99.50 GB",
        ]
    );
    v.volume_status = None;
    v.encryption_percentage = None;
    let lines = volume_lines(&v, "99.50");
    assert_eq!(lines[2], "  Status: Unavailable (volume locked)");
    assert_eq!(lines[4], "  Encryption: Unavailable (volume locked)");
}

#[test]
fn partitions_are_correlated_by_exact_mount_point() {
    let mut parts = vec![
        partition(0, Some('C'), &[]),
        partition(1, Some('E'), &[]),
        partition(0, None, &[]),
        partition(0, Some('d'), &[]),
    ];
    parts[2].partition_type = "System".to_string();
    let volumes = Ok(vec![volume("D:", "On"), volume("C:", "Off")]);
    assert_eq!(
        correlation_lines(&disk(0), &parts, &volumes),
        vec![
            "Disk 0",
            "  Partition: C:",
            "    BitLocker: C: / FullyEncrypted / Off / 100%",
            "  Partition: (no drive letter, type: System)",
            "  Partition: d:",
            "    BitLocker: no matching volume found",
        ]
    );
    assert_eq!(
        correlation_lines(&disk(1), &parts, &Err("denied".to_string())),
        vec![
            "Disk 1",
            "  Partition: E:",
            "    BitLocker: unavailable (see BitLocker Status above)",
        ]
    );
    assert_eq!(
        correlation_lines(&disk(2), &parts, &volumes),
        vec!["Disk 2", "  No partitions found."]
    );
    let own = partitions_of_disk(&parts, 0);
    assert_eq!(own.len(), 3);
    assert!(std::ptr::eq(own[1], &parts[2]));
}

#[test]
fn eligibility_and_plans_are_reported() {
    let mut d = disk(5);
    assert_eq!(eligibility_line(&d), "Disk 5: ELIGIBLE");
    assert_eq!(
        plan_lines(&d),
        vec![
            "Disk 5: PLANNED  overwrite 107374182400 bytes, pattern 0x00, chunk size 1048576 bytes"
        ]
    );
    d.bus_type = Some("USB".to_string());
    assert_eq!(
        plan_lines(&d),
        vec![
            "Disk 5: PENDING  capacity not trusted: bus type USB is not on the list of buses with \
trusted capacity reporting -- not planned until resolved",
            "  (inventory only, capacity trust unresolved: Get-Disk reports 107374182400 bytes exact)",
        ]
    );
    d.is_boot = true;
    assert_eq!(eligibility_line(&d), "Disk 5: BLOCKED: system/boot disk");
    assert_eq!(plan_lines(&d), vec!["Disk 5: SKIPPED  system/boot disk"]);
    assert_eq!(
        unplaceable_line(&d, "denied"),
        "Disk 5: UNKNOWN: partition information is unavailable, so no path can be correlated to \
a physical disk: denied"
    );
}

#[test]
fn the_preflight_is_reported_in_columns() {
    let parts = partitions();
    let volumes = Ok(vec![volume("E:", "On")]);
    let report = full_preflight(&disk(1), &parts, &usage(), &volumes);
    assert_eq!(
        preflight_lines(&report),
        vec![
            "  Pagefile:            SAFE     no pagefile is in use or configured on this system",
            "  Hibernation:         SAFE     hibernation is disabled (HibernateEnabled = 0)",
            "  Crash Dump:          SAFE     crash dumps are disabled (CrashDumpEnabled = 0)",
            "  Shadow Copies:       SAFE     no shadow copies exist on this system",
            "  Executable Location: SAFE     E-Waste is not running from this disk",
            "  Media Detection:     SAFE     bus type SATA / media type HDD / removable: false",
            "  BitLocker Protection:BLOCKED  volume E: is BitLocker-protected (ProtectionStatus: On)",
            "  Result: BLOCKED",
        ]
    );
}

// --- Sessions ----------------------------------------------------------------

#[test]
fn a_missing_inventory_is_reported() {
    let missing = Err("denied".to_string());
    assert_eq!(
        require_disk_inventory(&missing, 2).unwrap_err(),
        "Cannot target disk 2: disk information unavailable: denied"
    );
    let disks = Ok(vec![disk(0)]);
    assert_eq!(require_disk_inventory(&disks, 2).unwrap().len(), 1);
    assert_eq!(
        find_first(require_disk_inventory(&disks, 0).unwrap(), 0)
            .unwrap()
            .number,
        0
    );
}

#[test]
fn a_transition_runs_its_command_after_a_yes() {
    assert_eq!(transition_heading(true), "=== Disk Offline Transition ===");
    assert_eq!(transition_heading(false), "=== Disk Online Transition ===");
    let (mut run, action) = TransitionRun::begin(&[disk(0)], 0, true);
    match action {
        TransitionAction::Ask(lines) => {
            assert_eq!(lines.len(), 13);
            assert_eq!(lines[2], "  Disk number:      0");
            assert_eq!(lines[3], "  Friendly name:    Test Disk");
            assert_eq!(lines[4], "  Current state:    Online");
            assert_eq!(lines[5], "  Requested action: take this disk offline");
        }
        other => panic!("expected a question, got {:?}", other),
    }
    match run_disk_transition(&mut run, TransitionEvent::Entered("YES\r\n".to_string())) {
        TransitionAction::Run(command) => assert_eq!(command, "Set-Disk -Number 0 -IsOffline $true"),
        other => panic!("expected a command, got {:?}", other),
    }
    match run_disk_transition(&mut run, TransitionEvent::Ran(vec![])) {
        TransitionAction::Recheck(lines) => assert_eq!(
            lines,
            vec!["", "Transition command completed. Re-checking inventory..."]
        ),
        other => panic!("expected a new inventory, got {:?}", other),
    }
    match run_disk_transition(&mut run, TransitionEvent::Inventory(Ok(vec![disk(0)]))) {
        TransitionAction::Finish(Ok(lines)) => assert_eq!(
            lines,
            vec![
                "  Disk number:   0",
                "  Friendly name: Test Disk",
                "  Serial number: ABC123",
                "  Operational:   Online",
            ]
        ),
        other => panic!("expected an end, got {:?}", other),
    }
    assert_eq!(run.stage, TransitionStage::Ended);
}

#[test]
fn a_transition_is_not_made_without_a_yes() {
    for line in ["", "yes", "YES!", "Y"] {
        assert!(!accepts_transition(line));
        let (mut run, _) = TransitionRun::begin(&[disk(0)], 0, true);
        match run_disk_transition(&mut run, TransitionEvent::Entered(line.to_string())) {
            TransitionAction::Abort(lines) => assert_eq!(
                lines,
                vec![
                    "Confirmation failed: input did not match \"YES\".",
                    "No data has been modified. Re-run the tool to try again.",
                ]
            ),
            other => panic!("expected an end, got {:?}", other),
        }
    }
    assert!(accepts_transition(" YES\n"));
}

#[test]
fn refused_transitions_say_why() {
    let abort = |disks: &[PhysicalDisk], n: u32, offline: bool| {
        match TransitionRun::begin(disks, n, offline).1 {
            TransitionAction::Abort(lines) => lines,
            other => panic!("expected a refusal, got {:?}", other),
        }
    };
    assert_eq!(
        abort(&[disk(0)], 1, true),
        vec!["Cannot target disk 1: no disk found with number 1"]
    );
    assert_eq!(
        abort(&[disk(0)], 0, false),
        vec!["Cannot transition disk 0: disk is already online"]
    );
    let mut system = disk(0);
    system.is_system = true;
    assert_eq!(
        abort(&[system], 0, true),
        vec!["Cannot target disk 0: disk 0 is blocked: system/boot disk"]
    );
}

#[test]
fn failed_transitions_say_why() {
    let running = || {
        let (mut run, _) = TransitionRun::begin(&[disk(0)], 0, true);
        run_disk_transition(&mut run, TransitionEvent::Entered("YES".to_string()));
        run
    };
    let lines_of = |action: TransitionAction| match action {
        TransitionAction::Abort(lines) => lines,
        other => panic!("expected a failure, got {:?}", other),
    };
    assert_eq!(
        lines_of(run_disk_transition(
            &mut running(),
            TransitionEvent::NotRun("missing".to_string())
        )),
        vec!["Transition failed: missing", "No further action was taken."]
    );
    assert_eq!(
        lines_of(run_disk_transition(
            &mut running(),
            TransitionEvent::Ran(b"Not Supported".to_vec())
        )),
        vec![
            "Transition failed: PowerShell error: Not Supported",
            "No further action was taken.",
        ]
    );
    assert_eq!(
        report_transition(&Err("denied".to_string()), 0),
        Err("Transition command completed, but re-inventory failed: denied".to_string())
    );
    assert_eq!(
        report_transition(&Ok(vec![disk(1)]), 0),
        Ok(vec![
            "  Disk 0 no longer appears in inventory after the transition.".to_string()
        ])
    );
    let mut bare = disk(0);
    bare.serial_number = None;
    assert_eq!(
        report_transition(&Ok(vec![bare]), 0).unwrap()[2],
        "  Serial number: (none)"
    );
}

#[test]
fn overwrites_are_proposed_for_confirmable_disks_only() {
    let refusal = |d: PhysicalDisk| propose_overwrite(&[d], 0).map(|p| p.disk.number).unwrap_err();
    assert_eq!(
        refusal(disk(1)),
        "Cannot target disk 0: no disk found with number 0"
    );
    let mut usb = disk(0);
    usb.bus_type = Some("USB".to_string());
    assert_eq!(
        refusal(usb),
        "Cannot target disk 0: capacity not trusted: bus type USB is not on the list of buses \
with trusted capacity reporting"
    );
    let mut blank = disk(0);
    blank.serial_number = Some("  ".to_string());
    assert_eq!(
        refusal(blank),
        "Disk 0 has no usable serial number and cannot be confirmed."
    );
    let disks = vec![disk(0)];
    let proposal = propose_overwrite(&disks, 0).unwrap();
    assert_eq!(proposal.plan, plan_for_disk(&disks[0]));
    let lines = prompt_overwrite(&proposal, "100.00");
    assert_eq!(lines.len(), 22);
    assert_eq!(lines[2], "  Disk number:   0");
    assert_eq!(lines[4], "  Serial number: ABC123");
    assert_eq!(
        lines[5],
        "  Reported size: 100.00 GB (107374182400 bytes exact, per Get-Disk)"
    );
    assert_eq!(
        lines[7],
        "                  (0x00), in 1048576-byte chunks"
    );
    assert_eq!(
        lines[18],
        "To proceed, type this disk's exact serial number and press Enter."
    );
}

/// Whether a disk with this serial number is bound by this line.
fn binds(serial: &str, line: &str) -> bool {
    let mut d = disk(0);
    d.serial_number = Some(serial.to_string());
    let mut fresh = disk(0);
    fresh.serial_number = Some(serial.to_string());
    confirm_and_bind(&d, &plan_for_disk(&d), line, &[fresh]).is_ok()
}

#[test]
fn a_serial_typed_back_as_shown_is_accepted() {
    for serial in [" ABC123", "ABC123  ", "\tA B\u{a0}", "ABC123", "X\r"] {
        for end in ["", "\n", "\r\n"] {
            assert!(binds(serial, &format!("{}{}", serial, end)), "{:?}", serial);
        }
        for line in ["", " ", "\r\n", "ABC", "abc123", "ABC123X"] {
            assert!(!binds(serial, line), "{:?} {:?}", serial, line);
        }
    }
}

#[test]
fn white_space_around_a_line_counts_where_the_serial_has_some() {
    assert!(binds("ABC123", "  ABC123 \t\n"));
    assert!(binds("A B", " A B\n"));
    for line in ["ABC123", "ABC123\n", "  ABC123", " ABC123 ", " ABC123 \n"] {
        assert!(!binds(" ABC123", line), "{:?}", line);
    }
}

#[test]
fn the_run_ends_unless_the_process_is_elevated() {
    assert_eq!(elevation_refusal(&Ok(true)), None);
    assert_eq!(
        elevation_refusal(&Ok(false)),
        Some(strings(&[
            "E-Waste must be run as Administrator.",
            "",
            "It needs elevated privileges to inspect physical disks and BitLocker state.",
            "Close this window, right-click your terminal (PowerShell or Windows Terminal),",
            "choose \"Run as administrator\", then run E-Waste again.",
            "",
            "No disks have been inspected or changed.",
        ]))
    );
    assert_eq!(
        elevation_refusal(&Err("x".to_string())),
        Some(strings(&[
            "E-Waste could not determine whether it is running with administrator privileges: x",
            "Refusing to continue. No disks have been inspected or changed.",
        ]))
    );
}

/// A confirmation up to the line that the operator entered.
fn answered<'a>(
    disks: &'a Result<Vec<PhysicalDisk>, String>,
    line: &str,
) -> ConfirmationRun<'a> {
    let (run, action) = ConfirmationRun::begin(disks, 0);
    match action {
        ConfirmationAction::ShowSize(size) => assert_eq!(size.bits, 100.0f64.to_bits()),
        other => panic!("expected a size, got {:?}", other),
    }
    let (run, action) = confirm_overwrite(run, ConfirmationEvent::Sized("100.00".to_string()));
    match action {
        ConfirmationAction::Ask(lines) => assert_eq!(
            lines,
            prompt_overwrite(
                &propose_overwrite(disks.as_ref().unwrap(), 0).unwrap(),
                "100.00"
            )
        ),
        other => panic!("expected a question, got {:?}", other),
    }
    let (run, action) = confirm_overwrite(run, ConfirmationEvent::Entered(line.to_string()));
    assert!(matches!(action, ConfirmationAction::TakeInventory));
    run
}

#[test]
fn an_operation_is_bound_after_the_answer_and_a_fresh_inventory() {
    let disks = Ok(vec![disk(0)]);
    let run = answered(&disks, "ABC123\n");
    let (run, action) = confirm_overwrite(run, ConfirmationEvent::Inventory(Ok(vec![disk(0)])));
    assert!(matches!(run, ConfirmationRun::Ended));
    match action {
        ConfirmationAction::Finish(lines) => assert_eq!(
            lines,
            vec![
                "Confirmed and bound: disk 0 (serial ABC123), 107374182400 bytes, pattern 0x00.",
                "No sanitization executor exists in this build -- nothing further will happen.",
            ]
        ),
        other => panic!("expected an end, got {:?}", other),
    }
}

#[test]
fn an_operation_is_not_bound_otherwise() {
    let disks = Ok(vec![disk(0)]);
    let end = |line: &str, fresh: Result<Vec<PhysicalDisk>, String>| {
        let run = answered(&disks, line);
        match confirm_overwrite(run, ConfirmationEvent::Inventory(fresh)).1 {
            ConfirmationAction::Abort(lines) => lines,
            other => panic!("expected a refusal, got {:?}", other),
        }
    };
    assert_eq!(
        end("ABC123", Err("denied".to_string())),
        vec!["Could not re-verify target: fresh inventory unavailable: denied"]
    );
    assert_eq!(
        end("", Ok(vec![disk(0)])),
        vec![
            "Confirmation failed: confirmation did not match the disk's serial number",
            "No data has been modified. Re-run the tool to try again.",
        ]
    );
    assert_eq!(
        end("ABC123", Ok(vec![])),
        vec![
            "Confirmation failed: disk 0 is no longer present in the current inventory",
            "No data has been modified. Re-run the tool to try again.",
        ]
    );
    for (disks, line) in [
        (
            Err("denied".to_string()),
            "Cannot target disk 0: disk information unavailable: denied",
        ),
        (
            Ok(vec![]),
            "Cannot target disk 0: no disk found with number 0",
        ),
    ] {
        match ConfirmationRun::begin(&disks, 0).1 {
            ConfirmationAction::Abort(lines) => assert_eq!(lines, vec![line]),
            other => panic!("expected a refusal, got {:?}", other),
        }
    }
}

#[test]
fn sections_report_on_every_disk() {
    let disks = Ok(vec![disk(0), disk(1)]);
    let sizes = strings(&["100.00", "0.50"]);
    let parts = Ok(partitions());
    let volumes = Ok(vec![volume("C:", "Off")]);
    let mut both = disk_lines(&disk(0), "100.00");
    both.extend(disk_lines(&disk(1), "0.50"));
    assert_eq!(inventory_section(&disks, &sizes), Ok(both));
    assert_eq!(
        bitlocker_section(&volumes, &strings(&["9.00"])),
        Ok(volume_lines(&volume("C:", "Off"), "9.00"))
    );
    let mut both = correlation_lines(&disk(0), &partitions(), &volumes);
    both.extend(correlation_lines(&disk(1), &partitions(), &volumes));
    assert_eq!(correlations_section(&disks, &parts, &volumes), Ok(both));
    assert_eq!(
        eligibility_section(&disks),
        Ok(strings(&["Disk 0: ELIGIBLE", "Disk 1: ELIGIBLE"]))
    );
    let mut both = plan_lines(&disk(0));
    both.extend(plan_lines(&disk(1)));
    assert_eq!(plans_section(&disks), Ok(both));
    match begin_preflight(&disks, &parts) {
        PreflightNeed::Usage(known, placed) => {
            let lines = preflights_section(known, placed, &usage(), &volumes);
            assert_eq!(lines.len(), 18);
            assert_eq!(lines[0], "Disk 0");
            assert_eq!(lines[9], "Disk 1");
            assert_eq!(
                lines[10..],
                preflight_lines(&full_preflight(&disk(1), placed, &usage(), &volumes))[..]
            );
        }
        other => panic!("expected a need, got {:?}", other),
    }
}

#[test]
fn sections_report_what_is_missing() {
    let none: Result<Vec<PhysicalDisk>, String> = Ok(vec![]);
    let no_disks = || Ok(strings(&["No physical disks found."]));
    let no_volumes: Result<Vec<BitLockerVolume>, String> = Ok(vec![]);
    let parts = Ok(partitions());
    assert_eq!(inventory_section(&none, &[]), no_disks());
    assert_eq!(eligibility_section(&none), no_disks());
    assert_eq!(plans_section(&none), no_disks());
    assert_eq!(correlations_section(&none, &parts, &no_volumes), no_disks());
    assert_eq!(
        preflights_section(&[], &partitions(), &usage(), &no_volumes),
        strings(&["No physical disks found."])
    );
    assert_eq!(
        bitlocker_section(&no_volumes, &[]),
        Ok(strings(&["No BitLocker-capable volumes found."]))
    );

    let failed: Result<Vec<PhysicalDisk>, String> = Err("x".to_string());
    let no_parts: Result<Vec<Partition>, String> = Err("y".to_string());
    let error = || Err("Error getting disk information: x".to_string());
    assert_eq!(inventory_section(&failed, &[]), error());
    assert_eq!(eligibility_section(&failed), error());
    assert_eq!(plans_section(&failed), error());
    assert_eq!(correlations_section(&failed, &no_parts, &no_volumes), error());
    assert_eq!(
        correlations_section(&Ok(vec![disk(0)]), &no_parts, &no_volumes),
        Err("Error getting partition information: y".to_string())
    );
    assert_eq!(
        bitlocker_section(&Err("z".to_string()), &[]),
        Err("Error getting BitLocker status: z".to_string())
    );
    match begin_preflight(&failed, &no_parts) {
        PreflightNeed::Nothing(section) => assert_eq!(section, error()),
        other => panic!("expected nothing, got {:?}", other),
    }
    match begin_preflight(&Ok(vec![disk(0), disk(1)]), &no_parts) {
        PreflightNeed::Nothing(section) => assert_eq!(
            section,
            Ok(vec![
                unplaceable_line(&disk(0), "y"),
                unplaceable_line(&disk(1), "y")
            ])
        ),
        other => panic!("expected nothing, got {:?}", other),
    }
}
