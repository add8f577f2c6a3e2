//! Whether Windows is using a disk.
use e_waste::inventory::{Binary64, Partition, PhysicalDisk};
use e_waste::paths::{
    hosting_disks, mount_roots, normalize_path, resolve_path_to_disks, separate, MountRoot,
};
use e_waste::preflight::{PreflightCheck, PreflightFinding, PreflightReport, PreflightStatus};
use e_waste::protection::evaluate_media_detection;
use e_waste::usage::{
    evaluate_preflight, CrashDump, Hibernation, PageFile, ShadowCopy, SystemUsage,
};

fn gigabytes(size: f64) -> Binary64 {
    Binary64 {
        bits: size.to_bits(),
    }
}

fn make_disk(is_boot: bool, is_system: bool) -> PhysicalDisk {
    PhysicalDisk {
        number: 0,
        friendly_name: "Test Disk".to_string(),
        serial_number: None,
        health_status: "Healthy".to_string(),
        operational_status: "Online".to_string(),
        is_boot,
        is_system,
        size_gb: gigabytes(100.0),
        size_bytes: 100 * 1024 * 1024 * 1024,
        bus_type: Some("SATA".to_string()),
        media_type: Some("HDD".to_string()),
        is_removable: Some(false),
    }
}

const TARGET: u32 = 1;

const OTHER_GUID: &str = "\\\\?\\Volume{aaaaaaaa-0000-0000-0000-000000000000}\\";

const TARGET_GUID: &str = "\\\\?\\Volume{bbbbbbbb-0000-0000-0000-000000000000}\\";

fn make_partition_on(disk_number: u32, access_paths: &[&str]) -> Partition {
    Partition {
        disk_number,
        drive_letter: None,
        partition_type: "Basic".to_string(),
        access_paths: Some(access_paths.iter().map(|s| s.to_string()).collect()),
    }
}

fn preflight_partitions() -> Vec<Partition> {
    vec![
        make_partition_on(0, &["C:\\", OTHER_GUID]),
        make_partition_on(TARGET, &["E:\\", TARGET_GUID]),
    ]
}

fn safe_usage() -> SystemUsage {
    SystemUsage {
        pagefiles: Ok(vec![PageFile {
            name: "C:\\pagefile.sys".to_string(),
            source: "in-use".to_string(),
        }]),
        hibernation: Ok(Hibernation {
            enabled: Some(0),
            system_drive: Some("C:".to_string()),
        }),
        crash_dump: Ok(CrashDump {
            enabled: Some(3),
            dump_file: Some("C:\\WINDOWS\\MEMORY.DMP".to_string()),
            minidump_dir: Some("C:\\WINDOWS\\Minidump".to_string()),
            dedicated_dump_file: None,
        }),
        shadow_copies: Ok(vec![ShadowCopy {
            id: "{11111111-0000-0000-0000-000000000000}".to_string(),
            volume_name: OTHER_GUID.to_string(),
        }]),
        exe_path: Ok("C:\\tools\\e-waste.exe".to_string()),
    }
}

fn finding_for(report: &PreflightReport, check: PreflightCheck) -> &PreflightFinding {
    report
        .findings
        .iter()
        .find(|f| f.check == check)
        .expect("every check must produce exactly one finding")
}

fn status_of(usage: &SystemUsage, check: PreflightCheck) -> PreflightStatus {
    let partitions = preflight_partitions();
    let report = evaluate_preflight(TARGET, &partitions, usage);
    finding_for(&report, check).status
}

#[test]
fn preflight_with_no_usage_on_target_is_safe() {
    let partitions = preflight_partitions();
    let report = evaluate_preflight(TARGET, &partitions, &safe_usage());

    assert_eq!(report.status(), PreflightStatus::Safe);
    assert!(
        report
            .findings
            .iter()
            .all(|f| f.status == PreflightStatus::Safe),
        "expected every finding to be safe, got {:?}",
        report.findings
    );
}

#[test]
fn every_check_produces_exactly_one_finding_in_fixed_order() {
    let partitions = preflight_partitions();
    let report = evaluate_preflight(TARGET, &partitions, &safe_usage());

    let checks: Vec<PreflightCheck> = report.findings.iter().map(|f| f.check).collect();
    assert_eq!(
        checks,
        vec![
            PreflightCheck::Pagefile,
            PreflightCheck::Hibernation,
            PreflightCheck::CrashDump,
            PreflightCheck::ShadowCopy,
            PreflightCheck::ExecutableLocation,
        ]
    );
}

#[test]
fn pagefile_on_target_is_blocked() {
    let mut usage = safe_usage();
    usage.pagefiles = Ok(vec![PageFile {
        name: "E:\\pagefile.sys".to_string(),
        source: "in-use".to_string(),
    }]);

    assert_eq!(
        status_of(&usage, PreflightCheck::Pagefile),
        PreflightStatus::Blocked
    );
}

#[test]
fn configured_but_inactive_pagefile_on_target_is_blocked() {
    let mut usage = safe_usage();
    usage.pagefiles = Ok(vec![PageFile {
        name: "E:\\pagefile.sys".to_string(),
        source: "configured".to_string(),
    }]);

    assert_eq!(
        status_of(&usage, PreflightCheck::Pagefile),
        PreflightStatus::Blocked
    );
}

#[test]
fn pagefile_on_another_disk_is_safe() {
    assert_eq!(
        status_of(&safe_usage(), PreflightCheck::Pagefile),
        PreflightStatus::Safe
    );
}

#[test]
fn pagefile_query_failure_is_unknown() {
    let mut usage = safe_usage();
    usage.pagefiles = Err("simulated failure".into());

    assert_eq!(
        status_of(&usage, PreflightCheck::Pagefile),
        PreflightStatus::Unknown
    );
}

#[test]
fn hibernation_enabled_with_system_volume_on_target_is_blocked() {
    let mut usage = safe_usage();
    usage.hibernation = Ok(Hibernation {
        enabled: Some(1),
        system_drive: Some("E:".to_string()),
    });

    assert_eq!(
        status_of(&usage, PreflightCheck::Hibernation),
        PreflightStatus::Blocked
    );
}

#[test]
fn hibernation_enabled_with_system_volume_elsewhere_is_safe() {
    let mut usage = safe_usage();
    usage.hibernation = Ok(Hibernation {
        enabled: Some(1),
        system_drive: Some("C:".to_string()),
    });

    assert_eq!(
        status_of(&usage, PreflightCheck::Hibernation),
        PreflightStatus::Safe
    );
}

#[test]
fn hibernation_disabled_is_safe() {
    assert_eq!(
        status_of(&safe_usage(), PreflightCheck::Hibernation),
        PreflightStatus::Safe
    );
}

#[test]
fn hibernation_registry_value_absent_is_unknown() {
    let mut usage = safe_usage();
    usage.hibernation = Ok(Hibernation {
        enabled: None,
        system_drive: Some("C:".to_string()),
    });

    assert_eq!(
        status_of(&usage, PreflightCheck::Hibernation),
        PreflightStatus::Unknown
    );
}

#[test]
fn hibernation_enabled_without_system_drive_is_unknown() {
    let mut usage = safe_usage();
    usage.hibernation = Ok(Hibernation {
        enabled: Some(1),
        system_drive: None,
    });

    assert_eq!(
        status_of(&usage, PreflightCheck::Hibernation),
        PreflightStatus::Unknown
    );
}

#[test]
fn hibernation_query_failure_is_unknown() {
    let mut usage = safe_usage();
    usage.hibernation = Err("simulated failure".into());

    assert_eq!(
        status_of(&usage, PreflightCheck::Hibernation),
        PreflightStatus::Unknown
    );
}

#[test]
fn crash_dump_on_target_is_blocked() {
    let mut usage = safe_usage();
    usage.crash_dump = Ok(CrashDump {
        enabled: Some(3),
        dump_file: Some("E:\\dumps\\MEMORY.DMP".to_string()),
        minidump_dir: None,
        dedicated_dump_file: None,
    });

    assert_eq!(
        status_of(&usage, PreflightCheck::CrashDump),
        PreflightStatus::Blocked
    );
}

#[test]
fn crash_dump_minidump_directory_on_target_is_blocked() {
    let mut usage = safe_usage();
    usage.crash_dump = Ok(CrashDump {
        enabled: Some(3),
        dump_file: Some("C:\\WINDOWS\\MEMORY.DMP".to_string()),
        minidump_dir: Some("E:\\Minidump".to_string()),
        dedicated_dump_file: None,
    });

    assert_eq!(
        status_of(&usage, PreflightCheck::CrashDump),
        PreflightStatus::Blocked
    );
}

#[test]
fn crash_dump_disabled_is_safe() {
    let mut usage = safe_usage();
    usage.crash_dump = Ok(CrashDump {
        enabled: Some(0),
        dump_file: Some("E:\\dumps\\MEMORY.DMP".to_string()),
        minidump_dir: Some("E:\\Minidump".to_string()),
        dedicated_dump_file: None,
    });

    assert_eq!(
        status_of(&usage, PreflightCheck::CrashDump),
        PreflightStatus::Safe
    );
}

#[test]
fn crash_dump_enabled_without_any_path_is_unknown() {
    let mut usage = safe_usage();
    usage.crash_dump = Ok(CrashDump {
        enabled: Some(3),
        dump_file: None,
        minidump_dir: None,
        dedicated_dump_file: None,
    });

    assert_eq!(
        status_of(&usage, PreflightCheck::CrashDump),
        PreflightStatus::Unknown
    );
}

#[test]
fn crash_dump_registry_value_absent_is_unknown() {
    let mut usage = safe_usage();
    usage.crash_dump = Ok(CrashDump {
        enabled: None,
        dump_file: Some("C:\\WINDOWS\\MEMORY.DMP".to_string()),
        minidump_dir: None,
        dedicated_dump_file: None,
    });

    assert_eq!(
        status_of(&usage, PreflightCheck::CrashDump),
        PreflightStatus::Unknown
    );
}

#[test]
fn crash_dump_query_failure_is_unknown() {
    let mut usage = safe_usage();
    usage.crash_dump = Err("simulated failure".into());

    assert_eq!(
        status_of(&usage, PreflightCheck::CrashDump),
        PreflightStatus::Unknown
    );
}

#[test]
fn shadow_copy_on_target_is_blocked() {
    let mut usage = safe_usage();
    usage.shadow_copies = Ok(vec![ShadowCopy {
        id: "{22222222-0000-0000-0000-000000000000}".to_string(),
        volume_name: TARGET_GUID.to_string(),
    }]);

    assert_eq!(
        status_of(&usage, PreflightCheck::ShadowCopy),
        PreflightStatus::Blocked
    );
}

#[test]
fn shadow_copy_on_another_disk_is_safe() {
    assert_eq!(
        status_of(&safe_usage(), PreflightCheck::ShadowCopy),
        PreflightStatus::Safe
    );
}

#[test]
fn no_shadow_copies_is_safe() {
    let mut usage = safe_usage();
    usage.shadow_copies = Ok(vec![]);

    assert_eq!(
        status_of(&usage, PreflightCheck::ShadowCopy),
        PreflightStatus::Safe
    );
}

#[test]
fn shadow_copy_query_failure_is_unknown_not_safe() {
    let mut usage = safe_usage();
    usage.shadow_copies = Err("simulated provider load failure".into());

    assert_eq!(
        status_of(&usage, PreflightCheck::ShadowCopy),
        PreflightStatus::Unknown
    );
}

#[test]
fn executable_on_target_is_blocked() {
    let mut usage = safe_usage();
    usage.exe_path = Ok("E:\\tools\\e-waste.exe".to_string());

    assert_eq!(
        status_of(&usage, PreflightCheck::ExecutableLocation),
        PreflightStatus::Blocked
    );
}

#[test]
fn executable_on_another_disk_is_safe() {
    assert_eq!(
        status_of(&safe_usage(), PreflightCheck::ExecutableLocation),
        PreflightStatus::Safe
    );
}

#[test]
fn executable_path_unavailable_is_unknown() {
    let mut usage = safe_usage();
    usage.exe_path = Err("simulated failure".into());

    assert_eq!(
        status_of(&usage, PreflightCheck::ExecutableLocation),
        PreflightStatus::Unknown
    );
}

#[test]
fn path_on_an_unknown_volume_is_unknown_not_safe() {
    let mut usage = safe_usage();
    usage.pagefiles = Ok(vec![PageFile {
        name: "Z:\\pagefile.sys".to_string(),
        source: "in-use".to_string(),
    }]);

    assert_eq!(
        status_of(&usage, PreflightCheck::Pagefile),
        PreflightStatus::Unknown
    );
}

#[test]
fn a_single_unknown_keeps_the_whole_report_off_safe() {
    let mut usage = safe_usage();
    usage.shadow_copies = Err("simulated failure".into());

    let partitions = preflight_partitions();
    let report = evaluate_preflight(TARGET, &partitions, &usage);

    assert_eq!(report.status(), PreflightStatus::Unknown);
}

#[test]
fn blocked_dominates_unknown_and_safe() {
    let mut usage = safe_usage();
    usage.shadow_copies = Err("simulated failure".into());
    usage.exe_path = Ok("E:\\tools\\e-waste.exe".to_string());

    let partitions = preflight_partitions();
    let report = evaluate_preflight(TARGET, &partitions, &usage);

    assert_eq!(report.status(), PreflightStatus::Blocked);
    assert_eq!(
        finding_for(&report, PreflightCheck::ShadowCopy).status,
        PreflightStatus::Unknown
    );
    assert_eq!(
        finding_for(&report, PreflightCheck::ExecutableLocation).status,
        PreflightStatus::Blocked
    );
}

#[test]
fn multiple_findings_combine_deterministically() {
    let usage = SystemUsage {
        pagefiles: Ok(vec![PageFile {
            name: "E:\\pagefile.sys".to_string(),
            source: "in-use".to_string(),
        }]),
        hibernation: Ok(Hibernation {
            enabled: Some(1),
            system_drive: Some("E:".to_string()),
        }),
        crash_dump: Ok(CrashDump {
            enabled: Some(3),
            dump_file: Some("E:\\MEMORY.DMP".to_string()),
            minidump_dir: None,
            dedicated_dump_file: None,
        }),
        shadow_copies: Err("simulated failure".into()),
        exe_path: Ok("E:\\tools\\e-waste.exe".to_string()),
    };

    let partitions = preflight_partitions();
    let first = evaluate_preflight(TARGET, &partitions, &usage);
    let second = evaluate_preflight(TARGET, &partitions, &usage);

    assert_eq!(first.status(), PreflightStatus::Blocked);

    let summarize =
        |report: &PreflightReport| -> Vec<(PreflightCheck, PreflightStatus, String)> {
            report
                .findings
                .iter()
                .map(|f| (f.check, f.status, f.detail.clone()))
                .collect()
        };
    assert_eq!(summarize(&first), summarize(&second));

    assert_eq!(
        first
            .findings
            .iter()
            .filter(|f| f.status == PreflightStatus::Blocked)
            .count(),
        4
    );
    assert_eq!(
        finding_for(&first, PreflightCheck::ShadowCopy).status,
        PreflightStatus::Unknown
    );
}

#[test]
fn status_ordering_is_safe_then_unknown_then_blocked() {
    assert!(PreflightStatus::Safe < PreflightStatus::Unknown);
    assert!(PreflightStatus::Unknown < PreflightStatus::Blocked);
}

#[test]
fn empty_report_is_unknown_not_safe() {
    let report = PreflightReport {
        findings: Vec::new(),
    };

    assert_eq!(report.status(), PreflightStatus::Unknown);
}

#[test]
fn media_detection_participates_in_report_status_combination() {
    let mut disk = make_disk(false, false);
    disk.bus_type = None;

    let mut report = evaluate_preflight(TARGET, &preflight_partitions(), &safe_usage());
    report.findings.push(evaluate_media_detection(&disk));

    assert_eq!(report.status(), PreflightStatus::Unknown);
}

#[test]
fn resolve_matches_drive_letter_root() {
    let partitions = preflight_partitions();

    assert_eq!(
        resolve_path_to_disks("E:\\pagefile.sys", &partitions),
        vec![TARGET]
    );
}

#[test]
fn resolve_matches_volume_guid_root() {
    let partitions = preflight_partitions();

    assert_eq!(
        resolve_path_to_disks(TARGET_GUID, &partitions),
        vec![TARGET]
    );
}

#[test]
fn resolve_is_case_and_separator_insensitive() {
    let partitions = preflight_partitions();

    assert_eq!(
        resolve_path_to_disks("e:/WINDOWS/MEMORY.DMP", &partitions),
        vec![TARGET]
    );
}

#[test]
fn resolve_matches_a_bare_drive_specifier() {
    let partitions = preflight_partitions();

    assert_eq!(resolve_path_to_disks("E:", &partitions), vec![TARGET]);
}

#[test]
fn resolve_prefers_the_longest_access_path() {
    let partitions = vec![
        make_partition_on(0, &["C:\\"]),
        make_partition_on(TARGET, &["C:\\mnt\\data\\"]),
    ];

    assert_eq!(
        resolve_path_to_disks("C:\\mnt\\data\\pagefile.sys", &partitions),
        vec![TARGET]
    );
    assert_eq!(
        resolve_path_to_disks("C:\\pagefile.sys", &partitions),
        vec![0]
    );
}

#[test]
fn resolve_returns_none_for_an_unclaimed_path() {
    let partitions = preflight_partitions();

    assert_eq!(
        resolve_path_to_disks("Z:\\pagefile.sys", &partitions),
        Vec::<u32>::new()
    );
}

#[test]
fn resolve_ignores_partitions_without_access_paths() {
    let partitions = vec![Partition {
        disk_number: 0,
        drive_letter: None,
        partition_type: "Reserved".to_string(),
        access_paths: None,
    }];

    assert_eq!(
        resolve_path_to_disks("C:\\pagefile.sys", &partitions),
        Vec::<u32>::new()
    );
}

#[test]
fn resolve_ignores_an_empty_access_path() {
    let partitions = vec![make_partition_on(0, &["", "   "])];

    assert_eq!(
        resolve_path_to_disks("C:\\pagefile.sys", &partitions),
        Vec::<u32>::new()
    );
}

#[test]
fn resolve_does_not_match_a_sibling_directory_by_prefix() {
    let partitions = vec![
        make_partition_on(0, &["C:\\"]),
        make_partition_on(TARGET, &["C:\\mnt\\data\\"]),
    ];

    assert_eq!(
        resolve_path_to_disks("C:\\mnt\\database\\pagefile.sys", &partitions),
        vec![0]
    );
}

fn mirrored_partitions() -> Vec<Partition> {
    vec![
        make_partition_on(0, &["E:\\", TARGET_GUID]),
        make_partition_on(1, &["E:\\", TARGET_GUID]),
    ]
}

#[test]
fn resolve_returns_every_disk_of_a_mirrored_volume() {
    assert_eq!(
        resolve_path_to_disks("E:\\pagefile.sys", &mirrored_partitions()),
        vec![0, 1]
    );
}

#[test]
fn mirrored_volume_blocks_every_disk_it_occupies() {
    let mut usage = safe_usage();
    usage.pagefiles = Ok(vec![PageFile {
        name: "E:\\pagefile.sys".to_string(),
        source: "in-use".to_string(),
    }]);
    let partitions = mirrored_partitions();

    for disk_number in [0, 1] {
        let report = evaluate_preflight(disk_number, &partitions, &usage);
        assert_eq!(
            finding_for(&report, PreflightCheck::Pagefile).status,
            PreflightStatus::Blocked,
            "disk {} hosts the mirrored pagefile volume and must block",
            disk_number
        );
    }
}

#[test]
fn a_tie_does_not_mask_a_longer_nested_mount_point() {
    let partitions = vec![
        make_partition_on(0, &["C:\\"]),
        make_partition_on(1, &["C:\\"]),
        make_partition_on(2, &["C:\\mnt\\data\\"]),
    ];

    assert_eq!(
        resolve_path_to_disks("C:\\mnt\\data\\pagefile.sys", &partitions),
        vec![2]
    );
    assert_eq!(
        resolve_path_to_disks("C:\\pagefile.sys", &partitions),
        vec![0, 1]
    );
}

#[test]
fn dedicated_dump_file_on_target_is_blocked() {
    let mut usage = safe_usage();
    usage.crash_dump = Ok(CrashDump {
        enabled: Some(3),
        dump_file: Some("C:\\WINDOWS\\MEMORY.DMP".to_string()),
        minidump_dir: Some("C:\\WINDOWS\\Minidump".to_string()),
        dedicated_dump_file: Some("E:\\dedicated.sys".to_string()),
    });

    assert_eq!(
        status_of(&usage, PreflightCheck::CrashDump),
        PreflightStatus::Blocked
    );
}

#[test]
fn paths_have_one_normal_form() {
    for path in ["C:", "c:\\", "C:/", " C:\\\\ ", "c:/\\/"] {
        assert_eq!(normalize_path(path), "c:\\");
    }
    assert_eq!(normalize_path(""), "\\");
    assert_eq!(normalize_path("E:/Ärger/ΟΔΟΣ"), "e:\\ärger\\οδος\\");
    assert_eq!(
        normalize_path(TARGET_GUID),
        "\\\\?\\volume{bbbbbbbb-0000-0000-0000-000000000000}\\"
    );
    assert_eq!(separate("a/b//"), "a\\b\\");
    for path in ["C:", "x/Y\\z ", "\\\\?\\V\\"] {
        let once = normalize_path(path);
        assert_eq!(normalize_path(&once), once);
    }
}

#[test]
fn mount_points_are_kept_in_order() {
    let roots = mount_roots(&preflight_partitions());
    let shown: Vec<(u32, &str)> = roots
        .iter()
        .map(|r| (r.disk_number, r.path.as_str()))
        .collect();
    assert_eq!(
        shown,
        vec![
            (0, "c:\\"),
            (0, "\\\\?\\volume{aaaaaaaa-0000-0000-0000-000000000000}\\"),
            (1, "e:\\"),
            (1, "\\\\?\\volume{bbbbbbbb-0000-0000-0000-000000000000}\\"),
        ]
    );
}

#[test]
fn every_disk_of_the_longest_mount_point_hosts_once() {
    let root = |disk_number: u32, path: &str| MountRoot {
        disk_number,
        path: path.to_string(),
    };
    let roots = vec![
        root(3, "\\"),
        root(5, "c:\\"),
        root(2, "c:\\m\\"),
        root(9, "c:\\mm\\"),
        root(1, "c:\\m\\"),
        root(2, "c:\\m\\"),
        root(4, "c:\\"),
    ];
    assert_eq!(hosting_disks("c:\\m\\x\\", &roots), vec![2, 1]);
    assert_eq!(hosting_disks("c:\\x\\", &roots), vec![5, 4]);
    assert_eq!(hosting_disks("d:\\", &roots), Vec::<u32>::new());
}

#[test]
fn spelling_does_not_change_the_hosts() {
    let partitions = preflight_partitions();
    for path in ["E:\\Dumps\\a/b.dmp", "c:\\x", TARGET_GUID, "Z:\\none"] {
        let hosts = resolve_path_to_disks(path, &partitions);
        for other in [
            path.to_ascii_uppercase(),
            path.to_ascii_lowercase(),
            path.replace('\\', "/"),
            path.replace('/', "\\"),
            format!(" \t{}\r\n", path),
            format!("{}\\", path),
        ] {
            assert_eq!(resolve_path_to_disks(&other, &partitions), hosts, "{}", other);
        }
    }
    assert_eq!(
        normalize_path("\u{2003}E:\\Ärger \n"),
        normalize_path("E:\\Ärger")
    );
}

#[test]
fn folding_separators_twice_is_folding_them_once() {
    for text in ["", "/", "a/b\\c", "ärger\\ΟΔΟΣ//", "\\\\?\\v\\", " x / "] {
        let once = separate(text);
        assert_eq!(separate(&once), once);
        assert_eq!(separate(&text.replace('\\', "/")), once);
        assert_eq!(separate(&text.replace('/', "\\")), once);
        assert_eq!(separate(&format!("{}/", text)), once);
    }
}
