//! Whether a disk holds a pagefile, the hibernation file, crash dumps, shadow
//! copies or this program itself.
use vstd::prelude::*;

use crate::inventory;
use crate::inventory::Partition;
use crate::paths;
use crate::preflight;
use crate::preflight::{
    blocked_finding, safe_finding, unknown_finding, FindingView, PreflightCheck, PreflightFinding,
    PreflightReport, PreflightStatus,
};
use crate::text;

verus! {

/// A pagefile, in use or configured.
#[derive(Debug)]
pub struct PageFile {
    pub name: String,
    pub source: String,
}

/// Whether hibernation is on, and the system volume, which holds its file. An
/// absent value is one that Windows did not report or that could not be read.
#[derive(Debug)]
pub struct Hibernation {
    pub enabled: Option<u32>,
    pub system_drive: Option<String>,
}

/// Whether crash dumps are on, and where they go.
#[derive(Debug)]
pub struct CrashDump {
    pub enabled: Option<u32>,
    pub dump_file: Option<String>,
    pub minidump_dir: Option<String>,
    /// Overrides the dump file where it is set, and can lie on another volume.
    pub dedicated_dump_file: Option<String>,
}

/// A shadow copy, and the root of the volume that it is on.
#[derive(Debug)]
pub struct ShadowCopy {
    pub id: String,
    pub volume_name: String,
}

/// What the system-wide queries gave, each by itself: one that fails leaves one
/// check unanswered and not all of them.
#[derive(Debug)]
pub struct SystemUsage {
    pub pagefiles: Result<Vec<PageFile>, String>,
    pub hibernation: Result<Hibernation, String>,
    pub crash_dump: Result<CrashDump, String>,
    pub shadow_copies: Result<Vec<ShadowCopy>, String>,
    pub exe_path: Result<String, String>,
}

// --- Paths -------------------------------------------------------------------

/// The views of described paths.
pub open spec fn pairs(paths: Seq<(String, String)>) -> Seq<(Seq<char>, Seq<char>)> {
    paths.map_values(|p: (String, String)| (p.0@, p.1@))
}

/// A described path as a finding names it.
pub open spec fn mention(p: (Seq<char>, Seq<char>)) -> Seq<char> {
    p.0 + " "@ + p.1
}

/// The paths that disk `disk_number` hosts, by itself or with others.
pub open spec fn on_target(
    disk_number: u32,
    partitions: Seq<Partition>,
    paths: Seq<(Seq<char>, Seq<char>)>,
) -> Seq<(Seq<char>, Seq<char>)> {
    paths.filter(
        |p: (Seq<char>, Seq<char>)| paths::resolved(p.1, partitions).contains(disk_number),
    )
}

/// The paths that no disk is known to host.
pub open spec fn unresolved(
    partitions: Seq<Partition>,
    paths: Seq<(Seq<char>, Seq<char>)>,
) -> Seq<(Seq<char>, Seq<char>)> {
    paths.filter(|p: (Seq<char>, Seq<char>)| paths::resolved(p.1, partitions).len() == 0)
}

/// The names of the paths, in order.
pub open spec fn mentions(paths: Seq<(Seq<char>, Seq<char>)>) -> Seq<Seq<char>> {
    paths.map_values(|p: (Seq<char>, Seq<char>)| mention(p))
}

/// What paths in use mean for a disk: one on it blocks, one that cannot be
/// placed leaves the answer open, and only paths that are all placed elsewhere
/// are safe.
pub open spec fn classification(
    check: PreflightCheck,
    disk_number: u32,
    partitions: Seq<Partition>,
    paths: Seq<(Seq<char>, Seq<char>)>,
    safe_detail: Seq<char>,
) -> FindingView {
    let here = on_target(disk_number, partitions, paths);
    let nowhere = unresolved(partitions, paths);
    if here.len() > 0 {
        preflight::finding(
            check,
            PreflightStatus::Blocked,
            "on disk "@ + text::decimal(disk_number as nat) + ": "@ + text::joined(
                mentions(here),
                "; "@,
            ),
        )
    } else if nowhere.len() > 0 {
        preflight::finding(
            check,
            PreflightStatus::Unknown,
            "could not be resolved to a physical disk: "@ + text::joined(
                mentions(nowhere),
                "; "@,
            ),
        )
    } else {
        preflight::finding(check, PreflightStatus::Safe, safe_detail)
    }
}

/// Judges the paths in use, each with a description, for one disk.
pub fn classify_paths(
    check: PreflightCheck,
    disk_number: u32,
    partitions: &[Partition],
    paths: &[(String, String)],
    safe_detail: &str,
) -> (r: PreflightFinding)
    ensures
        r@ == classification(check, disk_number, partitions@, pairs(paths@), safe_detail@),
{
    let ghost all = pairs(paths@);
    let ghost is_here = |p: (Seq<char>, Seq<char>)|
        paths::resolved(p.1, partitions@).contains(disk_number);
    let ghost is_nowhere = |p: (Seq<char>, Seq<char>)|
        paths::resolved(p.1, partitions@).len() == 0;
    let mut here: Vec<String> = Vec::new();
    let mut nowhere: Vec<String> = Vec::new();
    let mut i: usize = 0;
    proof {
        reveal(Seq::filter);
        assert(text::texts(here@) =~= mentions(all.take(0).filter(is_here)));
        assert(text::texts(nowhere@) =~= mentions(all.take(0).filter(is_nowhere)));
    }
    while i < paths.len()
        invariant
            i <= paths.len(),
            all == pairs(paths@),
            is_here == (|p: (Seq<char>, Seq<char>)|
                paths::resolved(p.1, partitions@).contains(disk_number)),
            is_nowhere == (|p: (Seq<char>, Seq<char>)|
                paths::resolved(p.1, partitions@).len() == 0),
            text::texts(here@) == mentions(all.take(i as int).filter(is_here)),
            text::texts(nowhere@) == mentions(all.take(i as int).filter(is_nowhere)),
        decreases paths.len() - i,
    {
        let description = paths[i].0.as_str();
        let path = paths[i].1.as_str();
        let hosts = paths::resolve_path_to_disks(path, partitions);
        let ghost front = all.take(i as int);
        let ghost own = all[i as int];
        let ghost here_before = here@;
        let ghost nowhere_before = nowhere@;
        proof {
            reveal(Seq::filter);
            assert(all.take(i + 1).drop_last() =~= front);
            assert(all.take(i + 1).last() == own);
            assert(own == (description@, path@));
        }
        if hosts.len() == 0 {
            nowhere.push(text::enclosed(description, " ", path));
            assert(text::texts(nowhere@) =~= text::texts(nowhere_before).push(mention(own)));
            assert(mentions(front.filter(is_nowhere).push(own)) =~= mentions(
                front.filter(is_nowhere),
            ).push(mention(own)));
        } else if paths::holds(&hosts, disk_number) {
            here.push(text::enclosed(description, " ", path));
            assert(text::texts(here@) =~= text::texts(here_before).push(mention(own)));
            assert(mentions(front.filter(is_here).push(own)) =~= mentions(
                front.filter(is_here),
            ).push(mention(own)));
        }
        i += 1;
    }
    assert(all.take(i as int) =~= all);
    assert(here@.len() == text::texts(here@).len() == all.filter(is_here).len());
    assert(nowhere@.len() == text::texts(nowhere@).len() == all.filter(is_nowhere).len());
    if here.len() > 0 {
        let mut detail = text::with_number("on disk ", disk_number as u64, ": ");
        detail.append(text::join(&here, "; ").as_str());
        return blocked_finding(check, detail);
    }
    if nowhere.len() > 0 {
        let list = text::join(&nowhere, "; ");
        return unknown_finding(
            check,
            text::prefixed("could not be resolved to a physical disk: ", list.as_str()),
        );
    }
    safe_finding(check, safe_detail)
}

/// A classification is `Blocked` exactly when the disk hosts one of the paths,
/// `Safe` exactly when every path is hosted somewhere and none by the disk, and
/// `Unknown` otherwise.
pub proof fn law_classification_of_paths(
    check: PreflightCheck,
    disk_number: u32,
    partitions: Seq<Partition>,
    paths: Seq<(Seq<char>, Seq<char>)>,
    safe_detail: Seq<char>,
)
    ensures
        ({
            let f = classification(check, disk_number, partitions, paths, safe_detail);
            &&& f.check == check
            &&& f.status == PreflightStatus::Blocked <==> exists|i: int|
                0 <= i < paths.len() && paths::resolved(
                    (#[trigger] paths[i]).1,
                    partitions,
                ).contains(disk_number)
            &&& f.status == PreflightStatus::Safe <==> forall|i: int|
                0 <= i < paths.len() ==> {
                    &&& paths::resolved((#[trigger] paths[i]).1, partitions).len() > 0
                    &&& !paths::resolved(paths[i].1, partitions).contains(disk_number)
                }
        }),
{
    let is_here = |p: (Seq<char>, Seq<char>)|
        paths::resolved(p.1, partitions).contains(disk_number);
    let is_nowhere = |p: (Seq<char>, Seq<char>)| paths::resolved(p.1, partitions).len() == 0;
    lemma_filter_is_empty(paths, is_here);
    lemma_filter_is_empty(paths, is_nowhere);
    if exists|i: int| 0 <= i < paths.len() && is_here(#[trigger] paths[i]) {
        let i = choose|i: int| 0 <= i < paths.len() && is_here(#[trigger] paths[i]);
        assert(paths::resolved(paths[i].1, partitions).contains(disk_number));
    }
    if exists|i: int|
        0 <= i < paths.len() && paths::resolved((#[trigger] paths[i]).1, partitions).contains(
            disk_number,
        ) {
        let i = choose|i: int|
            0 <= i < paths.len() && paths::resolved((#[trigger] paths[i]).1, partitions).contains(
                disk_number,
            );
        assert(is_here(paths[i]));
    }
    if exists|i: int| 0 <= i < paths.len() && is_nowhere(#[trigger] paths[i]) {
        let i = choose|i: int| 0 <= i < paths.len() && is_nowhere(#[trigger] paths[i]);
        assert(paths::resolved(paths[i].1, partitions).len() == 0);
    }
    if forall|i: int| 0 <= i < paths.len() ==> !is_here(#[trigger] paths[i]) && !is_nowhere(
        paths[i],
    ) {
        assert forall|i: int| 0 <= i < paths.len() implies paths::resolved(
            (#[trigger] paths[i]).1,
            partitions,
        ).len() > 0 && !paths::resolved(paths[i].1, partitions).contains(disk_number) by {
            assert(!is_here(paths[i]) && !is_nowhere(paths[i]));
        }
    }
}

/// A filter keeps something exactly when some item meets its condition.
proof fn lemma_filter_is_empty<A>(s: Seq<A>, pred: spec_fn(A) -> bool)
    ensures
        s.filter(pred).len() == 0 <==> forall|i: int|
            0 <= i < s.len() ==> !pred(#[trigger] s[i]),
{
    if s.filter(pred).len() > 0 {
        s.lemma_filter_pred(pred, 0);
        assert(s.filter(pred).contains(s.filter(pred)[0]));
        s.lemma_filter_contains_rev(pred, s.filter(pred)[0]);
        let i = choose|i: int| 0 <= i < s.len() && s[i] == s.filter(pred)[0];
        assert(pred(s[i]));
    }
    if exists|i: int| 0 <= i < s.len() && pred(#[trigger] s[i]) {
        let i = choose|i: int| 0 <= i < s.len() && pred(#[trigger] s[i]);
        s.lemma_filter_contains(pred, i);
    }
}

// --- The checks --------------------------------------------------------------

/// The finding on pagefiles.
pub open spec fn pagefile_finding(
    disk_number: u32,
    partitions: Seq<Partition>,
    pagefiles: Result<Vec<PageFile>, String>,
) -> FindingView {
    match pagefiles {
        Err(e) => preflight::finding(
            PreflightCheck::Pagefile,
            PreflightStatus::Unknown,
            "pagefile information unavailable: "@ + e@,
        ),
        Ok(files) => if files@.len() == 0 {
            preflight::finding(
                PreflightCheck::Pagefile,
                PreflightStatus::Safe,
                "no pagefile is in use or configured on this system"@,
            )
        } else {
            classification(
                PreflightCheck::Pagefile,
                disk_number,
                partitions,
                files@.map_values(|f: PageFile| (f.source@ + " pagefile"@, f.name@)),
                "no pagefile resolves to this disk"@,
            )
        },
    }
}

/// Whether a pagefile lies on the disk.
pub fn evaluate_pagefile(disk_number: u32, partitions: &[Partition], usage: &SystemUsage) -> (r:
    PreflightFinding)
    ensures
        r@ == pagefile_finding(disk_number, partitions@, usage.pagefiles),
{
    let pagefiles = match &usage.pagefiles {
        Ok(pagefiles) => pagefiles,
        Err(e) => {
            return unknown_finding(
                PreflightCheck::Pagefile,
                text::prefixed("pagefile information unavailable: ", e.as_str()),
            );
        },
    };
    if pagefiles.len() == 0 {
        return safe_finding(
            PreflightCheck::Pagefile,
            "no pagefile is in use or configured on this system",
        );
    }
    let ghost expected = pagefiles@.map_values(
        |f: PageFile| (f.source@ + " pagefile"@, f.name@),
    );
    let mut paths: Vec<(String, String)> = Vec::new();
    let mut i: usize = 0;
    while i < pagefiles.len()
        invariant
            i <= pagefiles.len(),
            expected == pagefiles@.map_values(
                |f: PageFile| (f.source@ + " pagefile"@, f.name@),
            ),
            pairs(paths@) == expected.take(i as int),
        decreases pagefiles.len() - i,
    {
        let ghost before = paths@;
        let description = text::prefixed(pagefiles[i].source.as_str(), " pagefile");
        paths.push((description, pagefiles[i].name.as_str().to_owned()));
        assert(pairs(paths@) =~= pairs(before).push(expected[i as int]));
        assert(expected.take(i + 1) =~= expected.take(i as int).push(expected[i as int]));
        i += 1;
    }
    assert(expected.take(i as int) =~= expected);
    classify_paths(
        PreflightCheck::Pagefile,
        disk_number,
        partitions,
        paths.as_slice(),
        "no pagefile resolves to this disk",
    )
}

/// The finding on hibernation.
pub open spec fn hibernation_finding(
    disk_number: u32,
    partitions: Seq<Partition>,
    hibernation: Result<Hibernation, String>,
) -> FindingView {
    match hibernation {
        Err(e) => preflight::finding(
            PreflightCheck::Hibernation,
            PreflightStatus::Unknown,
            "hibernation state unavailable: "@ + e@,
        ),
        Ok(h) => match h.enabled {
            None => preflight::finding(
                PreflightCheck::Hibernation,
                PreflightStatus::Unknown,
                "HibernateEnabled is absent or unreadable"@,
            ),
            Some(enabled) => if enabled == 0 {
                preflight::finding(
                    PreflightCheck::Hibernation,
                    PreflightStatus::Safe,
                    "hibernation is disabled (HibernateEnabled = 0)"@,
                )
            } else {
                match h.system_drive {
                    None => preflight::finding(
                        PreflightCheck::Hibernation,
                        PreflightStatus::Unknown,
                        "hibernation is enabled but the system drive could not be determined"@,
                    ),
                    Some(drive) => classification(
                        PreflightCheck::Hibernation,
                        disk_number,
                        partitions,
                        seq![("hibernation system volume (hiberfil.sys)"@, drive@)],
                        "hibernation is enabled, but the system volume is not on this disk"@,
                    ),
                }
            },
        },
    }
}

/// Whether the hibernation file lies on the disk. That it is off is believed
/// only where Windows says so.
pub fn evaluate_hibernation(disk_number: u32, partitions: &[Partition], usage: &SystemUsage) -> (r:
    PreflightFinding)
    ensures
        r@ == hibernation_finding(disk_number, partitions@, usage.hibernation),
{
    let hibernation = match &usage.hibernation {
        Ok(hibernation) => hibernation,
        Err(e) => {
            return unknown_finding(
                PreflightCheck::Hibernation,
                text::prefixed("hibernation state unavailable: ", e.as_str()),
            );
        },
    };
    let enabled: u32 = match hibernation.enabled {
        Some(enabled) => enabled,
        None => {
            return unknown_finding(
                PreflightCheck::Hibernation,
                "HibernateEnabled is absent or unreadable".to_owned(),
            );
        },
    };
    if enabled == 0 {
        return safe_finding(
            PreflightCheck::Hibernation,
            "hibernation is disabled (HibernateEnabled = 0)",
        );
    }
    let system_drive = match inventory::as_text(&hibernation.system_drive) {
        Some(system_drive) => system_drive,
        None => {
            return unknown_finding(
                PreflightCheck::Hibernation,
                "hibernation is enabled but the system drive could not be determined".to_owned(),
            );
        },
    };
    let mut paths: Vec<(String, String)> = Vec::new();
    paths.push(
        ("hibernation system volume (hiberfil.sys)".to_owned(), system_drive.to_owned()),
    );
    assert(pairs(paths@) =~= seq![
        ("hibernation system volume (hiberfil.sys)"@, system_drive@),
    ]);
    classify_paths(
        PreflightCheck::Hibernation,
        disk_number,
        partitions,
        paths.as_slice(),
        "hibernation is enabled, but the system volume is not on this disk",
    )
}

/// A path that may be configured, with its description.
pub open spec fn configured(description: Seq<char>, path: Option<String>) -> Seq<
    (Seq<char>, Seq<char>),
> {
    match path {
        Some(p) => seq![(description, p@)],
        None => Seq::empty(),
    }
}

/// The configured crash dump paths.
pub open spec fn dump_paths(crash_dump: CrashDump) -> Seq<(Seq<char>, Seq<char>)> {
    configured("dump file"@, crash_dump.dump_file) + configured(
        "minidump directory"@,
        crash_dump.minidump_dir,
    ) + configured("dedicated dump file"@, crash_dump.dedicated_dump_file)
}

/// The finding on crash dumps.
pub open spec fn crash_dump_finding(
    disk_number: u32,
    partitions: Seq<Partition>,
    crash_dump: Result<CrashDump, String>,
) -> FindingView {
    match crash_dump {
        Err(e) => preflight::finding(
            PreflightCheck::CrashDump,
            PreflightStatus::Unknown,
            "crash dump configuration unavailable: "@ + e@,
        ),
        Ok(c) => match c.enabled {
            None => preflight::finding(
                PreflightCheck::CrashDump,
                PreflightStatus::Unknown,
                "CrashDumpEnabled is absent or unreadable"@,
            ),
            Some(enabled) => if enabled == 0 {
                preflight::finding(
                    PreflightCheck::CrashDump,
                    PreflightStatus::Safe,
                    "crash dumps are disabled (CrashDumpEnabled = 0)"@,
                )
            } else if dump_paths(c).len() == 0 {
                preflight::finding(
                    PreflightCheck::CrashDump,
                    PreflightStatus::Unknown,
                    "crash dumps are enabled (CrashDumpEnabled = "@ + text::decimal(
                        enabled as nat,
                    ) + ") but no dump path is configured"@,
                )
            } else {
                classification(
                    PreflightCheck::CrashDump,
                    disk_number,
                    partitions,
                    dump_paths(c),
                    "no configured crash dump path resolves to this disk"@,
                )
            },
        },
    }
}

/// Adds a path to `paths` where it is configured.
fn push_configured(paths: &mut Vec<(String, String)>, description: &str, path: &Option<String>)
    ensures
        pairs(final(paths)@) == pairs(old(paths)@) + configured(description@, *path),
{
    match path {
        Some(p) => {
            paths.push((description.to_owned(), p.as_str().to_owned()));
            assert(pairs(paths@) =~= pairs(old(paths)@).push((description@, p@)));
            assert(pairs(paths@) =~= pairs(old(paths)@) + configured(description@, *path));
        },
        None => {
            assert(pairs(paths@) =~= pairs(old(paths)@) + configured(description@, *path));
        },
    }
}

/// Whether crash dumps go to the disk.
pub fn evaluate_crash_dump(disk_number: u32, partitions: &[Partition], usage: &SystemUsage) -> (r:
    PreflightFinding)
    ensures
        r@ == crash_dump_finding(disk_number, partitions@, usage.crash_dump),
{
    let crash_dump = match &usage.crash_dump {
        Ok(crash_dump) => crash_dump,
        Err(e) => {
            return unknown_finding(
                PreflightCheck::CrashDump,
                text::prefixed("crash dump configuration unavailable: ", e.as_str()),
            );
        },
    };
    let enabled: u32 = match crash_dump.enabled {
        Some(enabled) => enabled,
        None => {
            return unknown_finding(
                PreflightCheck::CrashDump,
                "CrashDumpEnabled is absent or unreadable".to_owned(),
            );
        },
    };
    if enabled == 0 {
        return safe_finding(
            PreflightCheck::CrashDump,
            "crash dumps are disabled (CrashDumpEnabled = 0)",
        );
    }
    let mut paths: Vec<(String, String)> = Vec::new();
    assert(pairs(paths@) =~= Seq::empty());
    push_configured(&mut paths, "dump file", &crash_dump.dump_file);
    push_configured(&mut paths, "minidump directory", &crash_dump.minidump_dir);
    push_configured(&mut paths, "dedicated dump file", &crash_dump.dedicated_dump_file);
    assert(pairs(paths@) =~= dump_paths(*crash_dump));
    if paths.len() == 0 {
        return unknown_finding(
            PreflightCheck::CrashDump,
            text::with_number(
                "crash dumps are enabled (CrashDumpEnabled = ",
                enabled as u64,
                ") but no dump path is configured",
            ),
        );
    }
    classify_paths(
        PreflightCheck::CrashDump,
        disk_number,
        partitions,
        paths.as_slice(),
        "no configured crash dump path resolves to this disk",
    )
}

/// The finding on shadow copies.
pub open spec fn shadow_copy_finding(
    disk_number: u32,
    partitions: Seq<Partition>,
    shadow_copies: Result<Vec<ShadowCopy>, String>,
) -> FindingView {
    match shadow_copies {
        Err(e) => preflight::finding(
            PreflightCheck::ShadowCopy,
            PreflightStatus::Unknown,
            "shadow copy enumeration unavailable: "@ + e@,
        ),
        Ok(copies) => if copies@.len() == 0 {
            preflight::finding(
                PreflightCheck::ShadowCopy,
                PreflightStatus::Safe,
                "no shadow copies exist on this system"@,
            )
        } else {
            classification(
                PreflightCheck::ShadowCopy,
                disk_number,
                partitions,
                copies@.map_values(
                    |c: ShadowCopy| ("shadow copy "@ + c.id@ + " on"@, c.volume_name@),
                ),
                "no shadow copy resolves to this disk"@,
            )
        },
    }
}

/// Whether a shadow copy exists of a volume on the disk.
pub fn evaluate_shadow_copies(
    disk_number: u32,
    partitions: &[Partition],
    usage: &SystemUsage,
) -> (r: PreflightFinding)
    ensures
        r@ == shadow_copy_finding(disk_number, partitions@, usage.shadow_copies),
{
    let shadow_copies = match &usage.shadow_copies {
        Ok(shadow_copies) => shadow_copies,
        Err(e) => {
            return unknown_finding(
                PreflightCheck::ShadowCopy,
                text::prefixed("shadow copy enumeration unavailable: ", e.as_str()),
            );
        },
    };
    if shadow_copies.len() == 0 {
        return safe_finding(
            PreflightCheck::ShadowCopy,
            "no shadow copies exist on this system",
        );
    }
    let ghost expected = shadow_copies@.map_values(
        |c: ShadowCopy| ("shadow copy "@ + c.id@ + " on"@, c.volume_name@),
    );
    let mut paths: Vec<(String, String)> = Vec::new();
    let mut i: usize = 0;
    while i < shadow_copies.len()
        invariant
            i <= shadow_copies.len(),
            expected == shadow_copies@.map_values(
                |c: ShadowCopy| ("shadow copy "@ + c.id@ + " on"@, c.volume_name@),
            ),
            pairs(paths@) == expected.take(i as int),
        decreases shadow_copies.len() - i,
    {
        let ghost before = paths@;
        let description = text::enclosed("shadow copy ", shadow_copies[i].id.as_str(), " on");
        paths.push((description, shadow_copies[i].volume_name.as_str().to_owned()));
        assert(pairs(paths@) =~= pairs(before).push(expected[i as int]));
        assert(expected.take(i + 1) =~= expected.take(i as int).push(expected[i as int]));
        i += 1;
    }
    assert(expected.take(i as int) =~= expected);
    classify_paths(
        PreflightCheck::ShadowCopy,
        disk_number,
        partitions,
        paths.as_slice(),
        "no shadow copy resolves to this disk",
    )
}

/// The finding on where this program runs from.
pub open spec fn executable_finding(
    disk_number: u32,
    partitions: Seq<Partition>,
    exe_path: Result<String, String>,
) -> FindingView {
    match exe_path {
        Err(e) => preflight::finding(
            PreflightCheck::ExecutableLocation,
            PreflightStatus::Unknown,
            "E-Waste executable location unavailable: "@ + e@,
        ),
        Ok(path) => classification(
            PreflightCheck::ExecutableLocation,
            disk_number,
            partitions,
            seq![("E-Waste executable"@, path@)],
            "E-Waste is not running from this disk"@,
        ),
    }
}

/// Whether this program runs from the disk.
pub fn evaluate_executable_location(
    disk_number: u32,
    partitions: &[Partition],
    usage: &SystemUsage,
) -> (r: PreflightFinding)
    ensures
        r@ == executable_finding(disk_number, partitions@, usage.exe_path),
{
    let exe_path = match &usage.exe_path {
        Ok(exe_path) => exe_path,
        Err(e) => {
            return unknown_finding(
                PreflightCheck::ExecutableLocation,
                text::prefixed("E-Waste executable location unavailable: ", e.as_str()),
            );
        },
    };
    let mut paths: Vec<(String, String)> = Vec::new();
    paths.push(("E-Waste executable".to_owned(), exe_path.as_str().to_owned()));
    assert(pairs(paths@) =~= seq![("E-Waste executable"@, exe_path@)]);
    classify_paths(
        PreflightCheck::ExecutableLocation,
        disk_number,
        partitions,
        paths.as_slice(),
        "E-Waste is not running from this disk",
    )
}

/// The five findings on system usage, in their order.
pub open spec fn usage_findings(
    disk_number: u32,
    partitions: Seq<Partition>,
    usage: SystemUsage,
) -> Seq<FindingView> {
    seq![
        pagefile_finding(disk_number, partitions, usage.pagefiles),
        hibernation_finding(disk_number, partitions, usage.hibernation),
        crash_dump_finding(disk_number, partitions, usage.crash_dump),
        shadow_copy_finding(disk_number, partitions, usage.shadow_copies),
        executable_finding(disk_number, partitions, usage.exe_path),
    ]
}

/// Runs the five checks on system usage: one finding for each, in a fixed
/// order, so that none can be left out unseen.
pub fn evaluate_preflight(disk_number: u32, partitions: &[Partition], usage: &SystemUsage) -> (r:
    PreflightReport)
    ensures
        r@ == usage_findings(disk_number, partitions@, *usage),
{
    let mut findings: Vec<PreflightFinding> = Vec::new();
    findings.push(evaluate_pagefile(disk_number, partitions, usage));
    findings.push(evaluate_hibernation(disk_number, partitions, usage));
    findings.push(evaluate_crash_dump(disk_number, partitions, usage));
    findings.push(evaluate_shadow_copies(disk_number, partitions, usage));
    findings.push(evaluate_executable_location(disk_number, partitions, usage));
    let report = PreflightReport { findings };
    assert(report@ =~= usage_findings(disk_number, partitions@, *usage));
    report
}

/// There is one finding for each check on system usage, in a fixed order.
pub proof fn law_one_finding_per_check(
    disk_number: u32,
    partitions: Seq<Partition>,
    usage: SystemUsage,
)
    ensures
        usage_findings(disk_number, partitions, usage).map_values(|f: FindingView| f.check)
            == seq![
            PreflightCheck::Pagefile,
            PreflightCheck::Hibernation,
            PreflightCheck::CrashDump,
            PreflightCheck::ShadowCopy,
            PreflightCheck::ExecutableLocation,
        ],
{
    assert(usage_findings(disk_number, partitions, usage).map_values(|f: FindingView| f.check)
        =~= seq![
        PreflightCheck::Pagefile,
        PreflightCheck::Hibernation,
        PreflightCheck::CrashDump,
        PreflightCheck::ShadowCopy,
        PreflightCheck::ExecutableLocation,
    ]);
}

/// The query whose result a check on system usage reads, if it failed.
pub open spec fn query_failure(usage: SystemUsage, check: PreflightCheck) -> Option<Seq<char>> {
    match check {
        PreflightCheck::Pagefile => match usage.pagefiles {
            Err(e) => Some(e@),
            Ok(_) => None,
        },
        PreflightCheck::Hibernation => match usage.hibernation {
            Err(e) => Some(e@),
            Ok(_) => None,
        },
        PreflightCheck::CrashDump => match usage.crash_dump {
            Err(e) => Some(e@),
            Ok(_) => None,
        },
        PreflightCheck::ShadowCopy => match usage.shadow_copies {
            Err(e) => Some(e@),
            Ok(_) => None,
        },
        PreflightCheck::ExecutableLocation => match usage.exe_path {
            Err(e) => Some(e@),
            Ok(_) => None,
        },
        _ => None,
    }
}

/// A check whose query failed is `Unknown`, never `Safe`, and names the
/// failure; so a disk with a failed query is not reported as safe.
pub proof fn law_a_failed_query_is_unknown(
    disk_number: u32,
    partitions: Seq<Partition>,
    usage: SystemUsage,
    i: int,
)
    requires
        0 <= i < 5,
        query_failure(usage, usage_findings(disk_number, partitions, usage)[i].check) is Some,
    ensures
        usage_findings(disk_number, partitions, usage)[i].status == PreflightStatus::Unknown,
        query_failure(
            usage,
            usage_findings(disk_number, partitions, usage)[i].check,
        )->Some_0.is_suffix_of(usage_findings(disk_number, partitions, usage)[i].detail),
        preflight::overall(usage_findings(disk_number, partitions, usage))
            != PreflightStatus::Safe,
{
    let findings = usage_findings(disk_number, partitions, usage);
    let e = query_failure(usage, findings[i].check)->Some_0;
    let d = findings[i].detail;
    assert(e.is_suffix_of(d)) by {
        assert(d.subrange(d.len() - e.len(), d.len() as int) =~= e);
    }
    assert(preflight::some_finding(findings, PreflightStatus::Unknown));
}

/// Each query decides the finding of its own check and no other: where all but
/// one of them gave the same, all findings but one are the same.
pub proof fn law_a_query_decides_its_own_check(
    disk_number: u32,
    partitions: Seq<Partition>,
    a: SystemUsage,
    b: SystemUsage,
)
    ensures
        ({
            let x = usage_findings(disk_number, partitions, a);
            let y = usage_findings(disk_number, partitions, b);
            &&& a.pagefiles == b.pagefiles ==> x[0] == y[0]
            &&& a.hibernation == b.hibernation ==> x[1] == y[1]
            &&& a.crash_dump == b.crash_dump ==> x[2] == y[2]
            &&& a.shadow_copies == b.shadow_copies ==> x[3] == y[3]
            &&& a.exe_path == b.exe_path ==> x[4] == y[4]
        }),
{
}

// --- Laws of the checks ------------------------------------------------------

/// Shadow copies block exactly when one of them, whichever it is, is of a volume
/// that resolves to the disk; they are safe exactly when each is of a volume that
/// resolves somewhere and none to the disk.
pub proof fn law_every_shadow_copy_counts(
    disk_number: u32,
    partitions: Seq<Partition>,
    copies: Vec<ShadowCopy>,
)
    ensures
        ({
            let f = shadow_copy_finding(disk_number, partitions, Ok(copies));
            &&& f.check == PreflightCheck::ShadowCopy
            &&& f.status == PreflightStatus::Blocked <==> exists|i: int|
                0 <= i < copies@.len() && paths::resolved(
                    (#[trigger] copies@[i]).volume_name@,
                    partitions,
                ).contains(disk_number)
            &&& f.status == PreflightStatus::Safe <==> forall|i: int|
                0 <= i < copies@.len() ==> {
                    &&& paths::resolved((#[trigger] copies@[i]).volume_name@, partitions).len() > 0
                    &&& !paths::resolved(copies@[i].volume_name@, partitions).contains(
                        disk_number,
                    )
                }
        }),
{
    let described = copies@.map_values(
        |c: ShadowCopy| ("shadow copy "@ + c.id@ + " on"@, c.volume_name@),
    );
    assert(forall|i: int|
        0 <= i < copies@.len() ==> (#[trigger] described[i]).1 == copies@[i].volume_name@);
    assert(forall|i: int|
        0 <= i < copies@.len() ==> described[i].1 == (#[trigger] copies@[i]).volume_name@);
    law_classification_of_paths(
        PreflightCheck::ShadowCopy,
        disk_number,
        partitions,
        described,
        "no shadow copy resolves to this disk"@,
    );
}

/// Pagefiles block exactly when one of them, whichever it is, lies on the disk;
/// they are safe exactly when each resolves somewhere and none to the disk.
pub proof fn law_every_pagefile_counts(
    disk_number: u32,
    partitions: Seq<Partition>,
    files: Vec<PageFile>,
)
    ensures
        ({
            let f = pagefile_finding(disk_number, partitions, Ok(files));
            &&& f.check == PreflightCheck::Pagefile
            &&& f.status == PreflightStatus::Blocked <==> exists|i: int|
                0 <= i < files@.len() && paths::resolved(
                    (#[trigger] files@[i]).name@,
                    partitions,
                ).contains(disk_number)
            &&& f.status == PreflightStatus::Safe <==> forall|i: int|
                0 <= i < files@.len() ==> {
                    &&& paths::resolved((#[trigger] files@[i]).name@, partitions).len() > 0
                    &&& !paths::resolved(files@[i].name@, partitions).contains(disk_number)
                }
        }),
{
    let described = files@.map_values(|f: PageFile| (f.source@ + " pagefile"@, f.name@));
    assert(forall|i: int|
        0 <= i < files@.len() ==> (#[trigger] described[i]).1 == files@[i].name@);
    assert(forall|i: int|
        0 <= i < files@.len() ==> described[i].1 == (#[trigger] files@[i]).name@);
    law_classification_of_paths(
        PreflightCheck::Pagefile,
        disk_number,
        partitions,
        described,
        "no pagefile resolves to this disk"@,
    );
}

/// A path is configured and lies on the disk.
pub open spec fn lies_here(
    disk_number: u32,
    partitions: Seq<Partition>,
    path: Option<String>,
) -> bool {
    path matches Some(p) && paths::resolved(p@, partitions).contains(disk_number)
}

/// A path is configured and lies on other disks alone.
pub open spec fn lies_elsewhere(
    disk_number: u32,
    partitions: Seq<Partition>,
    path: Option<String>,
) -> bool {
    path matches Some(p) && paths::resolved(p@, partitions).len() > 0 && !paths::resolved(
        p@,
        partitions,
    ).contains(disk_number)
}

/// Crash dumps that are on block exactly when a configured dump path, whichever
/// of the three it is, lies on the disk; they are safe exactly when a path is
/// configured and each that is resolves somewhere and not to the disk. Dumps that
/// are off are safe wherever the paths lie, and dumps of which it is not known
/// whether they are on are neither.
pub proof fn law_every_dump_path_counts(
    disk_number: u32,
    partitions: Seq<Partition>,
    c: CrashDump,
)
    ensures
        ({
            let f = crash_dump_finding(disk_number, partitions, Ok(c));
            &&& f.check == PreflightCheck::CrashDump
            &&& c.enabled is None ==> f.status == PreflightStatus::Unknown
            &&& c.enabled == Some(0u32) ==> f.status == PreflightStatus::Safe
            &&& c.enabled is Some && c.enabled != Some(0u32) ==> {
                &&& f.status == PreflightStatus::Blocked <==> {
                    ||| lies_here(disk_number, partitions, c.dump_file)
                    ||| lies_here(disk_number, partitions, c.minidump_dir)
                    ||| lies_here(disk_number, partitions, c.dedicated_dump_file)
                }
                &&& f.status == PreflightStatus::Safe <==> {
                    &&& c.dump_file is Some || c.minidump_dir is Some
                        || c.dedicated_dump_file is Some
                    &&& c.dump_file is Some ==> lies_elsewhere(disk_number, partitions, c.dump_file)
                    &&& c.minidump_dir is Some ==> lies_elsewhere(disk_number, partitions, c.minidump_dir)
                    &&& c.dedicated_dump_file is Some ==> lies_elsewhere(disk_number, partitions, c.dedicated_dump_file)
                }
            }
        }),
{
    let paths = dump_paths(c);
    law_classification_of_paths(
        PreflightCheck::CrashDump,
        disk_number,
        partitions,
        paths,
        "no configured crash dump path resolves to this disk"@,
    );
    let a = configured("dump file"@, c.dump_file);
    let b = configured("minidump directory"@, c.minidump_dir);
    let d = configured("dedicated dump file"@, c.dedicated_dump_file);
    if c.dump_file is Some {
        assert(paths[0].1 == c.dump_file->Some_0@);
    }
    if c.minidump_dir is Some {
        assert(paths[a.len() as int].1 == c.minidump_dir->Some_0@);
    }
    if c.dedicated_dump_file is Some {
        assert(paths[(a + b).len() as int].1 == c.dedicated_dump_file->Some_0@);
    }
    assert forall|i: int| 0 <= i < paths.len() implies {
        ||| c.dump_file matches Some(p) && p@ == (#[trigger] paths[i]).1
        ||| c.minidump_dir matches Some(p) && p@ == paths[i].1
        ||| c.dedicated_dump_file matches Some(p) && p@ == paths[i].1
    } by {
        if i >= (a + b).len() {
            assert(paths[i] == d[i - (a + b).len()]);
        } else if i >= a.len() {
            assert(paths[i] == b[i - a.len()]);
        } else {
            assert(paths[i] == a[i]);
        }
    }
}

/// Hibernation that is on blocks exactly when the system volume lies on the
/// disk, and is safe exactly when it lies elsewhere; without a system volume it
/// is neither. Hibernation that is off is safe, and where it is not known whether
/// it is on, it is neither.
pub proof fn law_hibernation_follows_the_system_volume(
    disk_number: u32,
    partitions: Seq<Partition>,
    h: Hibernation,
)
    ensures
        ({
            let f = hibernation_finding(disk_number, partitions, Ok(h));
            &&& f.check == PreflightCheck::Hibernation
            &&& h.enabled is None ==> f.status == PreflightStatus::Unknown
            &&& h.enabled == Some(0u32) ==> f.status == PreflightStatus::Safe
            &&& h.enabled is Some && h.enabled != Some(0u32) ==> match h.system_drive {
                None => f.status == PreflightStatus::Unknown,
                Some(drive) => {
                    &&& f.status == PreflightStatus::Blocked <==> paths::resolved(
                        drive@,
                        partitions,
                    ).contains(disk_number)
                    &&& f.status == PreflightStatus::Unknown <==> paths::resolved(
                        drive@,
                        partitions,
                    ).len() == 0
                },
            }
        }),
{
    if h.system_drive is Some {
        let paths = seq![
            ("hibernation system volume (hiberfil.sys)"@, h.system_drive->Some_0@),
        ];
        law_classification_of_paths(
            PreflightCheck::Hibernation,
            disk_number,
            partitions,
            paths,
            "hibernation is enabled, but the system volume is not on this disk"@,
        );
        assert(paths[0].1 == h.system_drive->Some_0@);
    }
}

/// The program's location blocks exactly when it lies on the disk, and is
/// unknown exactly when it resolves to no disk.
pub proof fn law_the_program_blocks_its_own_disk(
    disk_number: u32,
    partitions: Seq<Partition>,
    exe_path: String,
)
    ensures
        ({
            let f = executable_finding(disk_number, partitions, Ok(exe_path));
            &&& f.check == PreflightCheck::ExecutableLocation
            &&& f.status == PreflightStatus::Blocked <==> paths::resolved(
                exe_path@,
                partitions,
            ).contains(disk_number)
            &&& f.status == PreflightStatus::Unknown <==> paths::resolved(
                exe_path@,
                partitions,
            ).len() == 0
        }),
{
    let paths = seq![("E-Waste executable"@, exe_path@)];
    law_classification_of_paths(
        PreflightCheck::ExecutableLocation,
        disk_number,
        partitions,
        paths,
        "E-Waste is not running from this disk"@,
    );
    assert(paths[0].1 == exe_path@);
}

/// A finding that blocks names the disk and every path on it; one that is
/// unknown names every path that resolves to no disk. A path is named by its
/// description, a space and the path itself. The result is where path `i` is
/// named.
pub proof fn law_a_finding_names_its_paths(
    check: PreflightCheck,
    disk_number: u32,
    partitions: Seq<Partition>,
    paths: Seq<(Seq<char>, Seq<char>)>,
    safe_detail: Seq<char>,
    i: int,
) -> (at: int)
    requires
        0 <= i < paths.len(),
    ensures
        ({
            let f = classification(check, disk_number, partitions, paths, safe_detail);
            let name = paths[i].0 + seq![' '] + paths[i].1;
            &&& f.status == PreflightStatus::Blocked && paths::resolved(
                paths[i].1,
                partitions,
            ).contains(disk_number) ==> {
                &&& ("on disk "@ + text::decimal(disk_number as nat) + ": "@).is_prefix_of(
                    f.detail,
                )
                &&& 0 <= at <= at + name.len() <= f.detail.len()
                &&& f.detail.subrange(at, at + name.len()) == name
            }
            &&& f.status == PreflightStatus::Unknown && paths::resolved(
                paths[i].1,
                partitions,
            ).len() == 0 ==> {
                &&& 0 <= at <= at + name.len() <= f.detail.len()
                &&& f.detail.subrange(at, at + name.len()) == name
            }
        }),
{
    let f = classification(check, disk_number, partitions, paths, safe_detail);
    let is_here = |p: (Seq<char>, Seq<char>)|
        paths::resolved(p.1, partitions).contains(disk_number);
    let is_nowhere = |p: (Seq<char>, Seq<char>)| paths::resolved(p.1, partitions).len() == 0;
    reveal_strlit(" ");
    let name = paths[i].0 + seq![' '] + paths[i].1;
    assert(" "@ =~= seq![' ']);
    let before = "on disk "@ + text::decimal(disk_number as nat) + ": "@;
    let unplaced = "could not be resolved to a physical disk: "@;
    if f.status == PreflightStatus::Blocked && is_here(paths[i]) {
        let here = on_target(disk_number, partitions, paths);
        let at = lemma_named(paths, is_here, i);
        assert(f.detail == before + text::joined(mentions(here), "; "@));
        assert(before =~= f.detail.subrange(0, before.len() as int));
        assert(f.detail.subrange(before.len() + at, before.len() + at + name.len())
            =~= text::joined(mentions(here), "; "@).subrange(at, at + name.len()));
        before.len() + at
    } else if f.status == PreflightStatus::Unknown && is_nowhere(paths[i]) {
        let nowhere = unresolved(partitions, paths);
        let at = lemma_named(paths, is_nowhere, i);
        assert(f.detail == unplaced + text::joined(mentions(nowhere), "; "@));
        assert(f.detail.subrange(unplaced.len() + at, unplaced.len() + at + name.len())
            =~= text::joined(mentions(nowhere), "; "@).subrange(at, at + name.len()));
        unplaced.len() + at
    } else {
        0
    }
}

/// A path that a filter keeps is among those that the list of names joins.
proof fn lemma_named(
    paths: Seq<(Seq<char>, Seq<char>)>,
    pred: spec_fn((Seq<char>, Seq<char>)) -> bool,
    i: int,
) -> (at: int)
    requires
        0 <= i < paths.len(),
        pred(paths[i]),
    ensures
        0 <= at,
        at + mention(paths[i]).len() <= text::joined(mentions(paths.filter(pred)), "; "@).len(),
        text::joined(mentions(paths.filter(pred)), "; "@).subrange(
            at,
            at + mention(paths[i]).len(),
        ) == mention(paths[i]),
{
    paths.lemma_filter_contains(pred, i);
    let kept = paths.filter(pred);
    let k = choose|k: int| 0 <= k < kept.len() && kept[k] == paths[i];
    assert(mentions(kept)[k] == mention(paths[i]));
    text::law_every_part_is_joined(mentions(kept), "; "@, k)
}

/// Where each check describes its paths: a pagefile by its source, a shadow copy
/// by its identifier. The results are where pagefile `i` and copy `j` are named
/// in a finding that blocks, if they lie on the disk.
pub proof fn law_pagefiles_and_copies_are_named(
    disk_number: u32,
    partitions: Seq<Partition>,
    files: Vec<PageFile>,
    copies: Vec<ShadowCopy>,
    i: int,
    j: int,
) -> (at: (int, int))
    requires
        0 <= i < files@.len(),
        0 <= j < copies@.len(),
    ensures
        paths::resolved(files@[i].name@, partitions).contains(disk_number) ==> {
            let detail = pagefile_finding(disk_number, partitions, Ok(files)).detail;
            let name = files@[i].source@ + " pagefile "@ + files@[i].name@;
            &&& 0 <= at.0 <= at.0 + name.len() <= detail.len()
            &&& detail.subrange(at.0, at.0 + name.len()) == name
        },
        paths::resolved(copies@[j].volume_name@, partitions).contains(disk_number) ==> {
            let detail = shadow_copy_finding(disk_number, partitions, Ok(copies)).detail;
            let name = "shadow copy "@ + copies@[j].id@ + " on "@ + copies@[j].volume_name@;
            &&& 0 <= at.1 <= at.1 + name.len() <= detail.len()
            &&& detail.subrange(at.1, at.1 + name.len()) == name
        },
{
    reveal_strlit(" pagefile");
    reveal_strlit(" pagefile ");
    reveal_strlit(" on");
    reveal_strlit(" on ");
    let described = files@.map_values(|f: PageFile| (f.source@ + " pagefile"@, f.name@));
    let others = copies@.map_values(
        |c: ShadowCopy| ("shadow copy "@ + c.id@ + " on"@, c.volume_name@),
    );
    law_every_pagefile_counts(disk_number, partitions, files);
    law_every_shadow_copy_counts(disk_number, partitions, copies);
    let a = law_a_finding_names_its_paths(
        PreflightCheck::Pagefile,
        disk_number,
        partitions,
        described,
        "no pagefile resolves to this disk"@,
        i,
    );
    let b = law_a_finding_names_its_paths(
        PreflightCheck::ShadowCopy,
        disk_number,
        partitions,
        others,
        "no shadow copy resolves to this disk"@,
        j,
    );
    assert(described[i].0 + seq![' '] + described[i].1 =~= files@[i].source@ + " pagefile "@
        + files@[i].name@);
    assert(others[j].0 + seq![' '] + others[j].1 =~= "shadow copy "@ + copies@[j].id@ + " on "@
        + copies@[j].volume_name@);
    (a, b)
}

/// The detail of a finding on paths: that of a safe one is the one given, and that
/// of one that is unknown says that paths could not be resolved.
pub proof fn law_how_a_detail_begins(
    check: PreflightCheck,
    disk_number: u32,
    partitions: Seq<Partition>,
    paths: Seq<(Seq<char>, Seq<char>)>,
    safe_detail: Seq<char>,
)
    ensures
        ({
            let f = classification(check, disk_number, partitions, paths, safe_detail);
            &&& f.status == PreflightStatus::Safe ==> f.detail == safe_detail
            &&& f.status == PreflightStatus::Unknown
                ==> "could not be resolved to a physical disk: "@.is_prefix_of(f.detail)
        }),
{
    let f = classification(check, disk_number, partitions, paths, safe_detail);
    let start = "could not be resolved to a physical disk: "@;
    if f.status == PreflightStatus::Unknown {
        assert(start =~= f.detail.subrange(0, start.len() as int));
    }
}

/// Crash dumps that are on without any dump path are unknown, and the finding
/// names the setting's value.
pub proof fn law_dumps_without_a_path_are_unknown(
    disk_number: u32,
    partitions: Seq<Partition>,
    c: CrashDump,
)
    requires
        c.enabled matches Some(enabled) && enabled != 0,
        c.dump_file is None,
        c.minidump_dir is None,
        c.dedicated_dump_file is None,
    ensures
        crash_dump_finding(disk_number, partitions, Ok(c)) == preflight::finding(
            PreflightCheck::CrashDump,
            PreflightStatus::Unknown,
            "crash dumps are enabled (CrashDumpEnabled = "@ + text::decimal(
                c.enabled->Some_0 as nat,
            ) + ") but no dump path is configured"@,
        ),
{
}

} // verus!
