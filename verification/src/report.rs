//! The lines of the report that every run prints.
use vstd::prelude::*;
use vstd::string::*;

use crate::eligibility::{evaluate_eligibility, Eligibility};
use crate::inventory;
use crate::inventory::{BitLockerVolume, Partition, PhysicalDisk};
use crate::plan;
use crate::plan::{plan_for_disk, DiskPlan, PlanView};
use crate::preflight;
use crate::preflight::{FindingView, PreflightReport};
use crate::protection;
use crate::text;
use crate::usage::SystemUsage;

verus! {

/// The lines on one disk of the inventory. `size` is its size in gigabytes, as
/// it is shown.
pub open spec fn disk_section(disk: PhysicalDisk, size: Seq<char>) -> Seq<Seq<char>> {
    seq![
        "Disk "@ + text::decimal(disk.number as nat),
        "  Name: "@ + disk.friendly_name@,
        "  Serial: "@ + inventory::shown(
            inventory::optional_text(disk.serial_number),
            "Unavailable"@,
        ),
        "  Health: "@ + disk.health_status@,
        "  Operational: "@ + disk.operational_status@,
        "  System Disk: "@ + if inventory::system_disk(disk) {
            "YES"@
        } else {
            "NO"@
        },
        "  Size: "@ + size + " GB"@,
        "  Bus Type: "@ + inventory::shown(
            inventory::optional_text(disk.bus_type),
            "Unavailable"@,
        ),
        "  Media Type: "@ + inventory::shown(
            inventory::optional_text(disk.media_type),
            "Unavailable"@,
        ),
        "  Removable: "@ + protection::removable_words(disk.is_removable),
    ]
}

/// The lines on one disk of the inventory. `size` is its size in gigabytes, as
/// it is shown.
pub fn disk_lines(disk: &PhysicalDisk, size: &str) -> (r: Vec<String>)
    ensures
        text::texts(r@) == disk_section(*disk, size@),
{
    let mut lines: Vec<String> = Vec::new();
    let system = if inventory::is_system_disk(disk) {
        "YES"
    } else {
        "NO"
    };
    lines.push(text::prefixed("Disk ", text::decimal_text(disk.number as u64).as_str()));
    lines.push(text::prefixed("  Name: ", disk.friendly_name.as_str()));
    lines.push(
        text::prefixed(
            "  Serial: ",
            inventory::text_or(inventory::as_text(&disk.serial_number), "Unavailable"),
        ),
    );
    lines.push(text::prefixed("  Health: ", disk.health_status.as_str()));
    lines.push(text::prefixed("  Operational: ", disk.operational_status.as_str()));
    lines.push(text::prefixed("  System Disk: ", system));
    lines.push(text::enclosed("  Size: ", size, " GB"));
    lines.push(
        text::prefixed(
            "  Bus Type: ",
            inventory::text_or(inventory::as_text(&disk.bus_type), "Unavailable"),
        ),
    );
    lines.push(
        text::prefixed(
            "  Media Type: ",
            inventory::text_or(inventory::as_text(&disk.media_type), "Unavailable"),
        ),
    );
    lines.push(text::prefixed("  Removable: ", protection::removable_text(disk.is_removable)));
    assert(text::texts(lines@) =~= disk_section(*disk, size@));
    lines
}

// --- BitLocker ---------------------------------------------------------------

/// How far a volume is encrypted. A locked volume does not say.
pub open spec fn encryption_words(percentage: Option<u32>) -> Seq<char> {
    match percentage {
        Some(percent) => text::decimal(percent as nat) + "%"@,
        None => "Unavailable (volume locked)"@,
    }
}

/// How far a volume is encrypted.
pub fn encryption_text(percentage: Option<u32>) -> (r: String)
    ensures
        r@ == encryption_words(percentage),
{
    match percentage {
        Some(percent) => text::prefixed(text::decimal_text(percent as u64).as_str(), "%"),
        None => "Unavailable (volume locked)".to_owned(),
    }
}

/// The lines on one BitLocker volume. `capacity` is its capacity in gigabytes,
/// as it is shown.
pub open spec fn volume_section(volume: BitLockerVolume, capacity: Seq<char>) -> Seq<Seq<char>> {
    seq![
        "Volume "@ + volume.mount_point@,
        "  Type: "@ + volume.volume_type@,
        "  Status: "@ + inventory::shown(
            inventory::optional_text(volume.volume_status),
            "Unavailable (volume locked)"@,
        ),
        "  Protection: "@ + volume.protection_status@,
        "  Encryption: "@ + encryption_words(volume.encryption_percentage),
        "  Capacity: "@ + capacity + " GB"@,
    ]
}

/// The lines on one BitLocker volume. `capacity` is its capacity in gigabytes,
/// as it is shown.
pub fn volume_lines(volume: &BitLockerVolume, capacity: &str) -> (r: Vec<String>)
    ensures
        text::texts(r@) == volume_section(*volume, capacity@),
{
    let mut lines: Vec<String> = Vec::new();
    lines.push(text::prefixed("Volume ", volume.mount_point.as_str()));
    lines.push(text::prefixed("  Type: ", volume.volume_type.as_str()));
    lines.push(
        text::prefixed(
            "  Status: ",
            inventory::text_or(
                inventory::as_text(&volume.volume_status),
                "Unavailable (volume locked)",
            ),
        ),
    );
    lines.push(text::prefixed("  Protection: ", volume.protection_status.as_str()));
    lines.push(
        text::prefixed(
            "  Encryption: ",
            encryption_text(volume.encryption_percentage).as_str(),
        ),
    );
    lines.push(text::enclosed("  Capacity: ", capacity, " GB"));
    assert(text::texts(lines@) =~= volume_section(*volume, capacity@));
    lines
}

// --- Correlation -------------------------------------------------------------

/// The first volume with exactly this mount point.
pub open spec fn volume_at(volumes: Seq<BitLockerVolume>, mount: Seq<char>) -> Option<
    BitLockerVolume,
>
    decreases volumes.len(),
{
    if volumes.len() == 0 {
        None
    } else if volumes.first().mount_point@ == mount {
        Some(volumes.first())
    } else {
        volume_at(volumes.drop_first(), mount)
    }
}

/// The first volume with exactly this mount point.
fn find_volume<'a>(volumes: &'a Vec<BitLockerVolume>, mount: &str) -> (r: Option<
    &'a BitLockerVolume,
>)
    ensures
        volume_at(volumes@, mount@) == match r {
            Some(volume) => Some(*volume),
            None => None,
        },
{
    let mut i: usize = 0;
    assert(volumes@.skip(0) =~= volumes@);
    while i < volumes.len()
        invariant
            i <= volumes.len(),
            volume_at(volumes@, mount@) == volume_at(volumes@.skip(i as int), mount@),
        decreases volumes.len() - i,
    {
        assert(volumes@.skip(i as int).drop_first() =~= volumes@.skip(i + 1));
        if text::same_text(volumes[i].mount_point.as_str(), mount) {
            return Some(&volumes[i]);
        }
        i += 1;
    }
    None
}

/// The line on the BitLocker volume of a mount point.
pub open spec fn bitlocker_line(
    mount: Seq<char>,
    bitlocker: Result<Vec<BitLockerVolume>, String>,
) -> Seq<char> {
    match bitlocker {
        Err(_) => "    BitLocker: unavailable (see BitLocker Status above)"@,
        Ok(volumes) => match volume_at(volumes@, mount) {
            None => "    BitLocker: no matching volume found"@,
            Some(v) => "    BitLocker: "@ + mount + " / "@ + inventory::shown(
                inventory::optional_text(v.volume_status),
                "Unavailable (volume locked)"@,
            ) + " / "@ + v.protection_status@ + " / "@ + encryption_words(v.encryption_percentage),
        },
    }
}

/// The line on the BitLocker volume of a mount point.
pub fn bitlocker_text(mount: &str, bitlocker: &Result<Vec<BitLockerVolume>, String>) -> (r: String)
    ensures
        r@ == bitlocker_line(mount@, *bitlocker),
{
    match bitlocker {
        Err(_) => "    BitLocker: unavailable (see BitLocker Status above)".to_owned(),
        Ok(volumes) => match find_volume(volumes, mount) {
            None => "    BitLocker: no matching volume found".to_owned(),
            Some(v) => {
                let mut line = text::enclosed("    BitLocker: ", mount, " / ");
                line.append(
                    inventory::text_or(
                        inventory::as_text(&v.volume_status),
                        "Unavailable (volume locked)",
                    ),
                );
                line.append(" / ");
                line.append(v.protection_status.as_str());
                line.append(" / ");
                line.append(encryption_text(v.encryption_percentage).as_str());
                line
            },
        },
    }
}

/// The lines on one partition: its mount point and the BitLocker volume there,
/// or that it has no drive letter.
pub open spec fn partition_section(
    partition: Partition,
    bitlocker: Result<Vec<BitLockerVolume>, String>,
) -> Seq<Seq<char>> {
    match partition.drive_letter {
        None => seq![
            "  Partition: (no drive letter, type: "@ + partition.partition_type@ + ")"@,
        ],
        Some(letter) => seq![
            "  Partition: "@ + protection::mount_point(letter),
            bitlocker_line(protection::mount_point(letter), bitlocker),
        ],
    }
}

/// The lines on the partitions of a disk, one after another.
pub open spec fn partition_sections(
    partitions: Seq<Partition>,
    bitlocker: Result<Vec<BitLockerVolume>, String>,
) -> Seq<Seq<char>>
    decreases partitions.len(),
{
    if partitions.len() == 0 {
        Seq::empty()
    } else {
        partition_sections(partitions.drop_last(), bitlocker) + partition_section(
            partitions.last(),
            bitlocker,
        )
    }
}

/// The lines that tell which partitions and BitLocker volumes a disk has.
/// `partitions` are those of all disks.
pub open spec fn correlation_section(
    disk: PhysicalDisk,
    partitions: Seq<Partition>,
    bitlocker: Result<Vec<BitLockerVolume>, String>,
) -> Seq<Seq<char>> {
    let own = inventory::partitions_on(partitions, disk.number);
    seq!["Disk "@ + text::decimal(disk.number as nat)] + if own.len() == 0 {
        seq!["  No partitions found."@]
    } else {
        partition_sections(own, bitlocker)
    }
}

/// The lines that tell which partitions and BitLocker volumes a disk has.
/// `partitions` are those of all disks.
pub fn correlation_lines(
    disk: &PhysicalDisk,
    partitions: &[Partition],
    bitlocker: &Result<Vec<BitLockerVolume>, String>,
) -> (r: Vec<String>)
    ensures
        text::texts(r@) == correlation_section(*disk, partitions@, *bitlocker),
{
    let mut lines: Vec<String> = Vec::new();
    lines.push(text::prefixed("Disk ", text::decimal_text(disk.number as u64).as_str()));
    let ghost head = text::texts(lines@);
    assert(head =~= seq!["Disk "@ + text::decimal(disk.number as nat)]);
    let own = inventory::partitions_of_disk(partitions, disk.number);
    if own.len() == 0 {
        lines.push("  No partitions found.".to_owned());
        assert(text::texts(lines@) =~= head + seq!["  No partitions found."@]);
        return lines;
    }
    let ghost all = own@.unref();
    let mut i: usize = 0;
    assert(text::texts(lines@) =~= head + partition_sections(all.take(0), *bitlocker));
    while i < own.len()
        invariant
            i <= own.len(),
            all == own@.unref(),
            text::texts(lines@) == head + partition_sections(all.take(i as int), *bitlocker),
        decreases own.len() - i,
    {
        let partition = own[i];
        let ghost before = text::texts(lines@);
        assert(all.take(i + 1).drop_last() =~= all.take(i as int));
        assert(all.take(i + 1).last() == *partition);
        match partition.drive_letter {
            None => {
                lines.push(
                    text::enclosed(
                        "  Partition: (no drive letter, type: ",
                        partition.partition_type.as_str(),
                        ")",
                    ),
                );
            },
            Some(letter) => {
                let mount = protection::mount_point_of(letter);
                lines.push(text::prefixed("  Partition: ", mount.as_str()));
                lines.push(bitlocker_text(mount.as_str(), bitlocker));
            },
        }
        assert(text::texts(lines@) =~= before + partition_section(*partition, *bitlocker));
        assert(text::texts(lines@) =~= head + partition_sections(all.take(i + 1), *bitlocker));
        i += 1;
    }
    assert(all.take(i as int) =~= all);
    lines
}

// --- Eligibility, pre-flight and plan ----------------------------------------

/// The line on whether a disk may be a target.
pub open spec fn eligibility_words(disk: PhysicalDisk) -> Seq<char> {
    "Disk "@ + text::decimal(disk.number as nat) + ": "@ + if inventory::system_disk(disk) {
        "BLOCKED: "@ + "system/boot disk"@
    } else {
        "ELIGIBLE"@
    }
}

/// The line on whether a disk may be a target.
pub fn eligibility_line(disk: &PhysicalDisk) -> (r: String)
    ensures
        r@ == eligibility_words(*disk),
{
    let mut line = text::with_number("Disk ", disk.number as u64, ": ");
    match evaluate_eligibility(disk) {
        Eligibility::Eligible => line.append("ELIGIBLE"),
        Eligibility::Blocked(
            reason,
        ) => line.append(text::prefixed("BLOCKED: ", reason.as_str()).as_str()),
    }
    line
}

/// The line on one finding, in columns.
pub open spec fn finding_line(f: FindingView) -> Seq<char> {
    "  "@ + text::padded(f.check.name() + ":"@, 21) + text::padded(f.status.name(), 9) + f.detail
}

/// The lines on the findings of a report, and its status.
pub open spec fn preflight_section(findings: Seq<FindingView>) -> Seq<Seq<char>> {
    findings.map_values(|f: FindingView| finding_line(f)).push(
        "  Result: "@ + preflight::overall(findings).name(),
    )
}

/// The lines on the findings of a report, and its status.
pub fn preflight_lines(report: &PreflightReport) -> (r: Vec<String>)
    ensures
        text::texts(r@) == preflight_section(report@),
{
    let ghost expected = report@.map_values(|f: FindingView| finding_line(f));
    let mut lines: Vec<String> = Vec::new();
    let mut i: usize = 0;
    while i < report.findings.len()
        invariant
            i <= report.findings.len(),
            expected == report@.map_values(|f: FindingView| finding_line(f)),
            text::texts(lines@) == expected.take(i as int),
        decreases report.findings.len() - i,
    {
        let f = &report.findings[i];
        let ghost before = lines@;
        let label = text::prefixed(f.check.label(), ":");
        let mut line = text::prefixed("  ", text::pad(label.as_str(), 21).as_str());
        line.append(text::pad(f.status.label(), 9).as_str());
        line.append(f.detail.as_str());
        assert(report@[i as int] == f@);
        lines.push(line);
        assert(text::texts(lines@) =~= text::texts(before).push(expected[i as int]));
        assert(expected.take(i + 1) =~= expected.take(i as int).push(expected[i as int]));
        i += 1;
    }
    let ghost before = lines@;
    lines.push(text::prefixed("  Result: ", report.status().label()));
    assert(expected.take(i as int) =~= expected);
    assert(text::texts(lines@) =~= preflight_section(report@));
    lines
}

/// The lines on what would be done to a disk. The size of a disk whose capacity
/// is not trusted is shown apart from the plan, as what the inventory says.
pub open spec fn plan_section(disk: PhysicalDisk) -> Seq<Seq<char>> {
    let start = "Disk "@ + text::decimal(disk.number as nat) + ": "@;
    match plan::planned(disk) {
        PlanView::Planned { total_bytes, pattern, chunk_size } => seq![
            start + "PLANNED  overwrite "@ + text::decimal(total_bytes as nat)
                + " bytes, pattern "@ + text::hex_byte(pattern) + ", chunk size "@
                + text::decimal(chunk_size as nat) + " bytes"@,
        ],
        PlanView::Skipped(reason) => seq![start + "SKIPPED  "@ + reason],
        PlanView::PendingCapacityConfirmation(reason) => seq![
            start + "PENDING  capacity not trusted: "@ + reason
                + " -- not planned until resolved"@,
            "  (inventory only, capacity trust unresolved: Get-Disk reports "@ + text::decimal(
                disk.size_bytes as nat,
            ) + " bytes exact)"@,
        ],
    }
}

/// The lines on what would be done to a disk.
pub fn plan_lines(disk: &PhysicalDisk) -> (r: Vec<String>)
    ensures
        text::texts(r@) == plan_section(*disk),
{
    let mut lines: Vec<String> = Vec::new();
    let mut line = text::with_number("Disk ", disk.number as u64, ": ");
    match plan_for_disk(disk) {
        DiskPlan::Planned { total_bytes, pattern, chunk_size } => {
            line.append("PLANNED  overwrite ");
            line.append(text::decimal_text(total_bytes).as_str());
            line.append(" bytes, pattern ");
            line.append(text::hex_byte_text(pattern).as_str());
            line.append(", chunk size ");
            line.append(text::decimal_text(chunk_size as u64).as_str());
            line.append(" bytes");
            lines.push(line);
        },
        DiskPlan::Skipped(reason) => {
            line.append("SKIPPED  ");
            line.append(reason.as_str());
            lines.push(line);
        },
        DiskPlan::PendingCapacityConfirmation(reason) => {
            line.append("PENDING  capacity not trusted: ");
            line.append(reason.as_str());
            line.append(" -- not planned until resolved");
            lines.push(line);
            lines.push(
                text::with_number(
                    "  (inventory only, capacity trust unresolved: Get-Disk reports ",
                    disk.size_bytes,
                    " bytes exact)",
                ),
            );
        },
    }
    assert(text::texts(lines@) =~= plan_section(*disk));
    lines
}

/// The line on a disk for which no path can be placed, because the partitions
/// are not known.
pub open spec fn unplaceable_words(disk: PhysicalDisk, error: Seq<char>) -> Seq<char> {
    "Disk "@ + text::decimal(disk.number as nat)
        + ": UNKNOWN: partition information is unavailable, so no path can be correlated to a physical disk: "@
        + error
}

/// The line on a disk for which no path can be placed, because the partitions
/// are not known.
pub fn unplaceable_line(disk: &PhysicalDisk, error: &str) -> (r: String)
    ensures
        r@ == unplaceable_words(*disk, error@),
{
    let mut line = text::with_number(
        "Disk ",
        disk.number as u64,
        ": UNKNOWN: partition information is unavailable, so no path can be correlated to a physical disk: ",
    );
    line.append(error);
    line
}

// --- Sections ----------------------------------------------------------------
//
// A section is a list of lines, or one line for the error stream where what it
// reports on is not known.

/// The lines that `f` gives for the items 0 to `n`, one after another.
pub open spec fn gathered(n: nat, f: spec_fn(int) -> Seq<Seq<char>>) -> Seq<Seq<char>>
    decreases n,
{
    if n == 0 {
        Seq::empty()
    } else {
        gathered((n - 1) as nat, f) + f(n - 1)
    }
}

/// Adds `more` at the end of `lines`.
fn push_lines(lines: &mut Vec<String>, more: Vec<String>)
    ensures
        text::texts(final(lines)@) == text::texts(old(lines)@) + text::texts(more@),
{
    let mut rest = more;
    lines.append(&mut rest);
    assert(text::texts(lines@) =~= text::texts(old(lines)@) + text::texts(more@));
}

/// The lines on `n` disks, where `f` gives those on each: that there is none, or
/// those on each in turn.
pub open spec fn disks_section(n: nat, f: spec_fn(int) -> Seq<Seq<char>>) -> Seq<Seq<char>> {
    if n == 0 {
        seq!["No physical disks found."@]
    } else {
        gathered(n, f)
    }
}

/// The line on disks that are not known.
pub open spec fn disks_error(e: Seq<char>) -> Seq<char> {
    "Error getting disk information: "@ + e
}

/// The line on disks that are not known.
fn disks_error_line(e: &str) -> (r: String)
    ensures
        r@ == disks_error(e@),
{
    text::prefixed("Error getting disk information: ", e)
}

/// The section on the inventory of disks. `sizes` are the sizes of the disks in
/// gigabytes, as they are shown.
pub fn inventory_section(disks: &Result<Vec<PhysicalDisk>, String>, sizes: &[String]) -> (r: Result<
    Vec<String>,
    String,
>)
    requires
        disks matches Ok(all) ==> sizes@.len() == all@.len(),
    ensures
        text::lines_or_error(r) == match *disks {
            Ok(all) => Ok::<Seq<Seq<char>>, Seq<char>>(
                disks_section(all@.len(), |i: int| disk_section(all@[i], sizes@[i]@)),
            ),
            Err(e) => Err(disks_error(e@)),
        },
{
    let all = match disks {
        Ok(all) => all,
        Err(e) => {
            return Err(disks_error_line(e.as_str()));
        },
    };
    let ghost f = |i: int| disk_section(all@[i], sizes@[i]@);
    let mut lines: Vec<String> = Vec::new();
    if all.len() == 0 {
        lines.push("No physical disks found.".to_owned());
        assert(text::texts(lines@) =~= seq!["No physical disks found."@]);
        return Ok(lines);
    }
    let mut i: usize = 0;
    assert(text::texts(lines@) =~= gathered(0, f));
    while i < all.len()
        invariant
            i <= all.len(),
            sizes@.len() == all@.len(),
            f == (|i: int| disk_section(all@[i], sizes@[i]@)),
            text::texts(lines@) == gathered(i as nat, f),
        decreases all.len() - i,
    {
        let more = disk_lines(&all[i], sizes[i].as_str());
        push_lines(&mut lines, more);
        i += 1;
    }
    Ok(lines)
}

/// The section on BitLocker volumes. `capacities` are those of the volumes in
/// gigabytes, as they are shown.
pub fn bitlocker_section(
    volumes: &Result<Vec<BitLockerVolume>, String>,
    capacities: &[String],
) -> (r: Result<Vec<String>, String>)
    requires
        volumes matches Ok(all) ==> capacities@.len() == all@.len(),
    ensures
        text::lines_or_error(r) == match *volumes {
            Ok(all) => Ok::<Seq<Seq<char>>, Seq<char>>(
                if all@.len() == 0 {
                    seq!["No BitLocker-capable volumes found."@]
                } else {
                    gathered(all@.len(), |i: int| volume_section(all@[i], capacities@[i]@))
                },
            ),
            Err(e) => Err("Error getting BitLocker status: "@ + e@),
        },
{
    let all = match volumes {
        Ok(all) => all,
        Err(e) => {
            return Err(text::prefixed("Error getting BitLocker status: ", e.as_str()));
        },
    };
    let ghost f = |i: int| volume_section(all@[i], capacities@[i]@);
    let mut lines: Vec<String> = Vec::new();
    if all.len() == 0 {
        lines.push("No BitLocker-capable volumes found.".to_owned());
        assert(text::texts(lines@) =~= seq!["No BitLocker-capable volumes found."@]);
        return Ok(lines);
    }
    let mut i: usize = 0;
    assert(text::texts(lines@) =~= gathered(0, f));
    while i < all.len()
        invariant
            i <= all.len(),
            capacities@.len() == all@.len(),
            f == (|i: int| volume_section(all@[i], capacities@[i]@)),
            text::texts(lines@) == gathered(i as nat, f),
        decreases all.len() - i,
    {
        let more = volume_lines(&all[i], capacities[i].as_str());
        push_lines(&mut lines, more);
        i += 1;
    }
    Ok(lines)
}

/// The section on which partitions and BitLocker volumes the disks have. Where
/// neither the disks nor the partitions are known, the disks are named.
pub fn correlations_section(
    disks: &Result<Vec<PhysicalDisk>, String>,
    partitions: &Result<Vec<Partition>, String>,
    bitlocker: &Result<Vec<BitLockerVolume>, String>,
) -> (r: Result<Vec<String>, String>)
    ensures
        text::lines_or_error(r) == match (*disks, *partitions) {
            (Err(e), _) => Err::<Seq<Seq<char>>, Seq<char>>(disks_error(e@)),
            (_, Err(e)) => Err("Error getting partition information: "@ + e@),
            (Ok(all), Ok(parts)) => Ok(
                disks_section(
                    all@.len(),
                    |i: int| correlation_section(all@[i], parts@, *bitlocker),
                ),
            ),
        },
{
    let all = match disks {
        Ok(all) => all,
        Err(e) => {
            return Err(disks_error_line(e.as_str()));
        },
    };
    let parts = match partitions {
        Ok(parts) => parts,
        Err(e) => {
            return Err(text::prefixed("Error getting partition information: ", e.as_str()));
        },
    };
    let ghost f = |i: int| correlation_section(all@[i], parts@, *bitlocker);
    let mut lines: Vec<String> = Vec::new();
    if all.len() == 0 {
        lines.push("No physical disks found.".to_owned());
        assert(text::texts(lines@) =~= seq!["No physical disks found."@]);
        return Ok(lines);
    }
    let mut i: usize = 0;
    assert(text::texts(lines@) =~= gathered(0, f));
    while i < all.len()
        invariant
            i <= all.len(),
            f == (|i: int| correlation_section(all@[i], parts@, *bitlocker)),
            text::texts(lines@) == gathered(i as nat, f),
        decreases all.len() - i,
    {
        let more = correlation_lines(&all[i], parts.as_slice(), bitlocker);
        push_lines(&mut lines, more);
        i += 1;
    }
    Ok(lines)
}

/// The section on whether the disks may be targets.
pub fn eligibility_section(disks: &Result<Vec<PhysicalDisk>, String>) -> (r: Result<
    Vec<String>,
    String,
>)
    ensures
        text::lines_or_error(r) == match *disks {
            Ok(all) => Ok::<Seq<Seq<char>>, Seq<char>>(
                disks_section(all@.len(), |i: int| seq![eligibility_words(all@[i])]),
            ),
            Err(e) => Err(disks_error(e@)),
        },
{
    let all = match disks {
        Ok(all) => all,
        Err(e) => {
            return Err(disks_error_line(e.as_str()));
        },
    };
    let ghost f = |i: int| seq![eligibility_words(all@[i])];
    let mut lines: Vec<String> = Vec::new();
    if all.len() == 0 {
        lines.push("No physical disks found.".to_owned());
        assert(text::texts(lines@) =~= seq!["No physical disks found."@]);
        return Ok(lines);
    }
    let mut i: usize = 0;
    assert(text::texts(lines@) =~= gathered(0, f));
    while i < all.len()
        invariant
            i <= all.len(),
            f == (|i: int| seq![eligibility_words(all@[i])]),
            text::texts(lines@) == gathered(i as nat, f),
        decreases all.len() - i,
    {
        let ghost before = text::texts(lines@);
        lines.push(eligibility_line(&all[i]));
        assert(text::texts(lines@) =~= before + f(i as int));
        i += 1;
    }
    Ok(lines)
}

/// The section on what would be done to the disks.
pub fn plans_section(disks: &Result<Vec<PhysicalDisk>, String>) -> (r: Result<Vec<String>, String>)
    ensures
        text::lines_or_error(r) == match *disks {
            Ok(all) => Ok::<Seq<Seq<char>>, Seq<char>>(
                disks_section(all@.len(), |i: int| plan_section(all@[i])),
            ),
            Err(e) => Err(disks_error(e@)),
        },
{
    let all = match disks {
        Ok(all) => all,
        Err(e) => {
            return Err(disks_error_line(e.as_str()));
        },
    };
    let ghost f = |i: int| plan_section(all@[i]);
    let mut lines: Vec<String> = Vec::new();
    if all.len() == 0 {
        lines.push("No physical disks found.".to_owned());
        assert(text::texts(lines@) =~= seq!["No physical disks found."@]);
        return Ok(lines);
    }
    let mut i: usize = 0;
    assert(text::texts(lines@) =~= gathered(0, f));
    while i < all.len()
        invariant
            i <= all.len(),
            f == (|i: int| plan_section(all@[i])),
            text::texts(lines@) == gathered(i as nat, f),
        decreases all.len() - i,
    {
        let more = plan_lines(&all[i]);
        push_lines(&mut lines, more);
        i += 1;
    }
    Ok(lines)
}

/// What has to be known of the system for the pre-flight.
#[derive(Debug)]
pub enum PreflightNeed<'a> {
    /// The system usage, for these disks and partitions.
    Usage(&'a [PhysicalDisk], &'a [Partition]),
    /// Nothing: the section is this.
    Nothing(Result<Vec<String>, String>),
}

/// The section of the pre-flight where it cannot be run, because the disks or
/// the partitions are not known; none where it can.
pub open spec fn preflight_obstacle(
    disks: Result<Vec<PhysicalDisk>, String>,
    partitions: Result<Vec<Partition>, String>,
) -> Option<Result<Seq<Seq<char>>, Seq<char>>> {
    match (disks, partitions) {
        (Err(e), _) => Some(Err(disks_error(e@))),
        (Ok(all), Err(e)) => Some(
            Ok(gathered(all@.len(), |i: int| seq![unplaceable_words(all@[i], e@)])),
        ),
        (Ok(_), Ok(_)) => None,
    }
}

/// Decides whether the system usage is needed: it is asked for once, and only
/// where the pre-flight can be run.
pub fn begin_preflight<'a>(
    disks: &'a Result<Vec<PhysicalDisk>, String>,
    partitions: &'a Result<Vec<Partition>, String>,
) -> (r: PreflightNeed<'a>)
    ensures
        match r {
            PreflightNeed::Usage(all, parts) => {
                &&& preflight_obstacle(*disks, *partitions) is None
                &&& disks matches Ok(known) && known@ == all@
                &&& partitions matches Ok(known) && known@ == parts@
            },
            PreflightNeed::Nothing(given) => preflight_obstacle(*disks, *partitions) == Some(
                text::lines_or_error(given),
            ),
        },
{
    let all = match disks {
        Ok(all) => all,
        Err(e) => {
            return PreflightNeed::Nothing(Err(disks_error_line(e.as_str())));
        },
    };
    let e = match partitions {
        Ok(parts) => {
            return PreflightNeed::Usage(all.as_slice(), parts.as_slice());
        },
        Err(e) => e,
    };
    let ghost f = |i: int| seq![unplaceable_words(all@[i], e@)];
    let mut lines: Vec<String> = Vec::new();
    let mut i: usize = 0;
    assert(text::texts(lines@) =~= gathered(0, f));
    while i < all.len()
        invariant
            i <= all.len(),
            f == (|i: int| seq![unplaceable_words(all@[i], e@)]),
            text::texts(lines@) == gathered(i as nat, f),
        decreases all.len() - i,
    {
        let ghost before = text::texts(lines@);
        lines.push(unplaceable_line(&all[i], e.as_str()));
        assert(text::texts(lines@) =~= before + f(i as int));
        i += 1;
    }
    PreflightNeed::Nothing(Ok(lines))
}

/// The lines of the pre-flight on one disk.
pub open spec fn disk_preflight(
    disk: PhysicalDisk,
    partitions: Seq<Partition>,
    usage: SystemUsage,
    bitlocker: Result<Vec<BitLockerVolume>, String>,
) -> Seq<Seq<char>> {
    seq!["Disk "@ + text::decimal(disk.number as nat)] + preflight_section(
        protection::all_findings(disk, partitions, usage, bitlocker),
    )
}

/// The section of the pre-flight, once the system usage is known.
pub fn preflights_section(
    disks: &[PhysicalDisk],
    partitions: &[Partition],
    usage: &SystemUsage,
    bitlocker: &Result<Vec<BitLockerVolume>, String>,
) -> (r: Vec<String>)
    ensures
        text::texts(r@) == disks_section(
            disks@.len(),
            |i: int| disk_preflight(disks@[i], partitions@, *usage, *bitlocker),
        ),
{
    let ghost f = |i: int| disk_preflight(disks@[i], partitions@, *usage, *bitlocker);
    let mut lines: Vec<String> = Vec::new();
    if disks.len() == 0 {
        lines.push("No physical disks found.".to_owned());
        assert(text::texts(lines@) =~= seq!["No physical disks found."@]);
        return lines;
    }
    let mut i: usize = 0;
    assert(text::texts(lines@) =~= gathered(0, f));
    while i < disks.len()
        invariant
            i <= disks.len(),
            f == (|i: int| disk_preflight(disks@[i], partitions@, *usage, *bitlocker)),
            text::texts(lines@) == gathered(i as nat, f),
        decreases disks.len() - i,
    {
        let ghost before = text::texts(lines@);
        let disk = &disks[i];
        let heading = text::prefixed("Disk ", text::decimal_text(disk.number as u64).as_str());
        let ghost first = heading@;
        let report = protection::full_preflight(disk, partitions, usage, bitlocker);
        lines.push(heading);
        assert(text::texts(lines@) =~= before + seq![first]);
        push_lines(&mut lines, preflight_lines(&report));
        assert(text::texts(lines@) =~= before + f(i as int));
        i += 1;
    }
    lines
}

// --- Laws --------------------------------------------------------------------

/// Every item's lines stand among those gathered, in the order of the items and
/// with nothing between: those of item `i` behind those of all items before it.
/// The result is where they begin.
pub proof fn law_every_item_is_gathered(
    n: nat,
    f: spec_fn(int) -> Seq<Seq<char>>,
    i: int,
) -> (at: int)
    requires
        0 <= i < n,
    ensures
        at == gathered(i as nat, f).len(),
        0 <= at,
        at + f(i).len() <= gathered(n, f).len(),
        gathered(n, f).subrange(at, at + f(i).len()) == f(i),
        i == 0 ==> at == 0,
        i + 1 < n ==> gathered((i + 1) as nat, f).len() == at + f(i).len(),
        i + 1 == n ==> at + f(i).len() == gathered(n, f).len(),
    decreases n,
{
    let front = gathered((n - 1) as nat, f);
    let at = gathered(i as nat, f).len() as int;
    if i == n - 1 {
        assert(gathered(n, f).subrange(at, at + f(i).len()) =~= f(i));
    } else {
        law_every_item_is_gathered((n - 1) as nat, f, i);
        assert(gathered(n, f).subrange(at, at + f(i).len()) =~= front.subrange(
            at,
            at + f(i).len(),
        ));
        assert(gathered((i + 1) as nat, f) == gathered(i as nat, f) + f(i));
    }
    at
}

/// A section on disks says that there is none exactly where there is none, and
/// else has the lines of every disk, as gathered. The result is where those of
/// disk `i` begin.
pub proof fn law_every_disk_has_its_lines(
    n: nat,
    f: spec_fn(int) -> Seq<Seq<char>>,
    i: int,
) -> (at: int)
    ensures
        n == 0 ==> disks_section(n, f) == seq!["No physical disks found."@],
        0 <= i < n ==> {
            &&& 0 <= at <= at + f(i).len() <= disks_section(n, f).len()
            &&& disks_section(n, f).subrange(at, at + f(i).len()) == f(i)
            &&& i == 0 ==> at == 0
            &&& i + 1 == n ==> at + f(i).len() == disks_section(n, f).len()
        },
{
    if 0 <= i < n {
        law_every_item_is_gathered(n, f, i)
    } else {
        0
    }
}

/// The volume at a mount point is the first with exactly that mount point, and
/// there is none exactly where no volume has it.
pub proof fn law_the_first_volume_counts(volumes: Seq<BitLockerVolume>, mount: Seq<char>, i: int)
    ensures
        0 <= i < volumes.len() && volumes[i].mount_point@ == mount && (forall|k: int|
            0 <= k < i ==> (#[trigger] volumes[k]).mount_point@ != mount) ==> volume_at(
            volumes,
            mount,
        ) == Some(volumes[i]),
        (forall|k: int| 0 <= k < volumes.len() ==> (#[trigger] volumes[k]).mount_point@ != mount)
            ==> volume_at(volumes, mount) is None,
    decreases volumes.len(),
{
    if volumes.len() > 0 {
        let rest = volumes.drop_first();
        law_the_first_volume_counts(rest, mount, i - 1);
        assert(forall|k: int| 0 <= k < rest.len() ==> #[trigger] rest[k] == volumes[k + 1]);
        assert(volumes.first() == volumes[0]);
        if 0 < i < volumes.len() {
            assert(rest[i - 1] == volumes[i]);
        }
    }
}

/// What a line on a BitLocker volume shows: the mount point, the status, the
/// protection and how far the volume is encrypted; or that the volumes are not
/// known, or that none is there.
pub proof fn law_what_a_volume_line_shows(
    mount: Seq<char>,
    bitlocker: Result<Vec<BitLockerVolume>, String>,
)
    ensures
        bitlocker is Err ==> bitlocker_line(mount, bitlocker)
            == "    BitLocker: unavailable (see BitLocker Status above)"@,
        bitlocker matches Ok(volumes) ==> match volume_at(volumes@, mount) {
            None => bitlocker_line(mount, bitlocker) == "    BitLocker: no matching volume found"@,
            Some(v) => bitlocker_line(mount, bitlocker) == "    BitLocker: "@ + mount + " / "@ + (
            match v.volume_status {
                Some(status) => status@,
                None => "Unavailable (volume locked)"@,
            }) + " / "@ + v.protection_status@ + " / "@ + (match v.encryption_percentage {
                Some(percent) => text::decimal(percent as nat) + "%"@,
                None => "Unavailable (volume locked)"@,
            }),
        },
{
}

/// The lines on partitions, one by one: another partition adds its own behind
/// those before it, one line without a drive letter and two with one.
pub proof fn law_every_partition_adds_its_lines(
    partitions: Seq<Partition>,
    more: Partition,
    bitlocker: Result<Vec<BitLockerVolume>, String>,
)
    ensures
        partition_sections(Seq::empty(), bitlocker) == Seq::<Seq<char>>::empty(),
        partition_sections(partitions.push(more), bitlocker) == partition_sections(
            partitions,
            bitlocker,
        ) + match more.drive_letter {
            None => seq![
                "  Partition: (no drive letter, type: "@ + more.partition_type@ + ")"@,
            ],
            Some(letter) => seq![
                "  Partition: "@ + seq![letter, ':'],
                bitlocker_line(seq![letter, ':'], bitlocker),
            ],
        },
{
    assert(partitions.push(more).drop_last() =~= partitions);
}

/// The lines on a disk's partitions begin with the disk; then every partition of
/// the disk, whatever its type, has a line with its mount point and one with the
/// BitLocker volume there, or one line that names its type; and a disk without
/// partitions says so. The result is where partition `i` has its line.
pub proof fn law_every_own_partition_is_listed(
    disk: PhysicalDisk,
    partitions: Seq<Partition>,
    bitlocker: Result<Vec<BitLockerVolume>, String>,
    i: int,
) -> (at: int)
    ensures
        ({
            let lines = correlation_section(disk, partitions, bitlocker);
            &&& lines.len() >= 2
            &&& lines[0] == "Disk "@ + text::decimal(disk.number as nat)
            &&& (forall|k: int|
                0 <= k < partitions.len() ==> (#[trigger] partitions[k]).disk_number
                    != disk.number) ==> lines == seq![
                "Disk "@ + text::decimal(disk.number as nat),
                "  No partitions found."@,
            ]
            &&& 0 <= i < partitions.len() && partitions[i].disk_number == disk.number ==> {
                &&& 0 < at < lines.len()
                &&& partitions[i].drive_letter is None ==> lines[at]
                    == "  Partition: (no drive letter, type: "@ + partitions[i].partition_type@
                    + ")"@
                &&& partitions[i].drive_letter matches Some(letter) ==> {
                    &&& at + 1 < lines.len()
                    &&& lines[at] == "  Partition: "@ + seq![letter, ':']
                    &&& lines[at + 1] == bitlocker_line(seq![letter, ':'], bitlocker)
                }
            }
        }),
{
    let own = inventory::partitions_on(partitions, disk.number);
    let lines = correlation_section(disk, partitions, bitlocker);
    if own.len() > 0 {
        let k = inventory::law_every_partition_of_a_disk(partitions, disk.number, i, 0);
        assert(partitions[k.1].disk_number == disk.number);
        lemma_partition_lines(own, bitlocker, 0);
        if 0 <= i < partitions.len() && partitions[i].disk_number == disk.number {
            let at = lemma_partition_lines(own, bitlocker, k.0);
            let section = partition_section(partitions[i], bitlocker);
            let tail = partition_sections(own, bitlocker);
            assert(lines[at + 1] == tail[at]);
            assert(tail.subrange(at, at + section.len())[0] == tail[at]);
            if partitions[i].drive_letter is Some {
                assert(tail.subrange(at, at + section.len())[1] == tail[at + 1]);
                assert(lines[at + 2] == tail[at + 1]);
            }
            at + 1
        } else {
            0
        }
    } else {
        let k = inventory::law_every_partition_of_a_disk(partitions, disk.number, i, 0);
        assert(lines =~= seq![
            "Disk "@ + text::decimal(disk.number as nat),
            "  No partitions found."@,
        ]);
        0
    }
}

/// The lines on a partition stand among those on all.
proof fn lemma_partition_lines(
    partitions: Seq<Partition>,
    bitlocker: Result<Vec<BitLockerVolume>, String>,
    k: int,
) -> (at: int)
    requires
        0 <= k < partitions.len(),
    ensures
        0 <= at,
        at + partition_section(partitions[k], bitlocker).len() <= partition_sections(
            partitions,
            bitlocker,
        ).len(),
        partition_sections(partitions, bitlocker).subrange(
            at,
            at + partition_section(partitions[k], bitlocker).len(),
        ) == partition_section(partitions[k], bitlocker),
    decreases partitions.len(),
{
    let section = partition_section(partitions[k], bitlocker);
    let whole = partition_sections(partitions, bitlocker);
    let front = partition_sections(partitions.drop_last(), bitlocker);
    if k == partitions.len() - 1 {
        let at = front.len() as int;
        assert(whole.subrange(at, at + section.len()) =~= section);
        at
    } else {
        let at = lemma_partition_lines(partitions.drop_last(), bitlocker, k);
        assert(whole.subrange(at, at + section.len()) =~= front.subrange(at, at + section.len()));
        at
    }
}

/// A line ends in what it was given behind its label.
proof fn lemma_behind(label: Seq<char>, s: Seq<char>)
    ensures
        s.is_suffix_of(label + s),
{
    let whole = label + s;
    assert(whole.subrange(whole.len() - s.len(), whole.len() as int) =~= s);
}

/// What the lines on a disk show: ten, and in them its number, name, serial
/// number, health, status, whether either flag is set, its size, bus, media and
/// whether it is removable. What is absent is said to be unavailable.
pub proof fn law_what_the_lines_on_a_disk_show(disk: PhysicalDisk, size: Seq<char>)
    ensures
        ({
            let lines = disk_section(disk, size);
            &&& lines.len() == 10
            &&& lines[0] == "Disk "@ + text::decimal(disk.number as nat)
            &&& disk.friendly_name@.is_suffix_of(lines[1])
            &&& lines[2] == "  Serial: "@ + match disk.serial_number {
                Some(serial) => serial@,
                None => "Unavailable"@,
            }
            &&& disk.health_status@.is_suffix_of(lines[3])
            &&& disk.operational_status@.is_suffix_of(lines[4])
            &&& disk.is_boot || disk.is_system ==> lines[5] == "  System Disk: YES"@
            &&& !disk.is_boot && !disk.is_system ==> lines[5] == "  System Disk: NO"@
            &&& lines[6] == "  Size: "@ + size + " GB"@
            &&& lines[7] == "  Bus Type: "@ + match disk.bus_type {
                Some(bus) => bus@,
                None => "Unavailable"@,
            }
            &&& lines[8] == "  Media Type: "@ + match disk.media_type {
                Some(media) => media@,
                None => "Unavailable"@,
            }
            &&& lines[9] == match disk.is_removable {
                Some(true) => "  Removable: true"@,
                Some(false) => "  Removable: false"@,
                None => "  Removable: Unavailable"@,
            }
        }),
{
    reveal_strlit("  System Disk: ");
    reveal_strlit("YES");
    reveal_strlit("NO");
    reveal_strlit("  System Disk: YES");
    reveal_strlit("  System Disk: NO");
    reveal_strlit("  Removable: ");
    reveal_strlit("true");
    reveal_strlit("false");
    reveal_strlit("Unavailable");
    reveal_strlit("  Removable: true");
    reveal_strlit("  Removable: false");
    reveal_strlit("  Removable: Unavailable");
    assert("  System Disk: "@ + "YES"@ =~= "  System Disk: YES"@);
    assert("  System Disk: "@ + "NO"@ =~= "  System Disk: NO"@);
    assert("  Removable: "@ + "true"@ =~= "  Removable: true"@);
    assert("  Removable: "@ + "false"@ =~= "  Removable: false"@);
    assert("  Removable: "@ + "Unavailable"@ =~= "  Removable: Unavailable"@);
    lemma_behind("  Name: "@, disk.friendly_name@);
    lemma_behind("  Health: "@, disk.health_status@);
    lemma_behind("  Operational: "@, disk.operational_status@);
}

/// What the lines on a BitLocker volume show: six, and in them its mount point,
/// type, status, protection, how far it is encrypted, and its capacity.
pub proof fn law_what_the_lines_on_a_volume_show(volume: BitLockerVolume, capacity: Seq<char>)
    ensures
        ({
            let lines = volume_section(volume, capacity);
            &&& lines.len() == 6
            &&& volume.mount_point@.is_suffix_of(lines[0])
            &&& volume.volume_type@.is_suffix_of(lines[1])
            &&& lines[2] == "  Status: "@ + match volume.volume_status {
                Some(status) => status@,
                None => "Unavailable (volume locked)"@,
            }
            &&& volume.protection_status@.is_suffix_of(lines[3])
            &&& lines[4] == "  Encryption: "@ + match volume.encryption_percentage {
                Some(percent) => text::decimal(percent as nat) + "%"@,
                None => "Unavailable (volume locked)"@,
            }
            &&& lines[5] == "  Capacity: "@ + capacity + " GB"@
        }),
{
    lemma_behind("Volume "@, volume.mount_point@);
    lemma_behind("  Type: "@, volume.volume_type@);
    lemma_behind("  Protection: "@, volume.protection_status@);
}

/// The line on a finding has its parts in columns: the check and a colon from the
/// third character on, the status from the twenty-fourth, and the detail from the
/// thirty-third to the end.
pub proof fn law_findings_stand_in_columns(f: FindingView)
    ensures
        ({
            let line = finding_line(f);
            let name = f.check.name();
            let status = f.status.name();
            &&& line.subrange(2, 2int + name.len()) == name
            &&& line[2int + name.len()] == ':'
            &&& line.subrange(23, 23int + status.len()) == status
            &&& line.skip(32) == f.detail
        }),
{
    reveal_strlit("Pagefile");
    reveal_strlit("Hibernation");
    reveal_strlit("Crash Dump");
    reveal_strlit("Shadow Copies");
    reveal_strlit("Executable Location");
    reveal_strlit("Media Detection");
    reveal_strlit("BitLocker Protection");
    reveal_strlit("SAFE");
    reveal_strlit("UNKNOWN");
    reveal_strlit("BLOCKED");
    reveal_strlit("  ");
    reveal_strlit(":");
    let name = f.check.name();
    let status = f.status.name();
    assert(name.len() <= 20 && status.len() <= 7);
    let label = text::padded(name + ":"@, 21);
    let column = text::padded(status, 9);
    assert(label.len() == 21 && column.len() == 9);
    let line = finding_line(f);
    assert(line.subrange(2, 2int + name.len()) =~= name);
    assert(line.subrange(23, 23int + status.len()) =~= status);
    assert(line.skip(32) =~= f.detail);
}

/// The lines on a report: one for every finding, in order, and then its status.
pub proof fn law_every_finding_has_a_line(findings: Seq<FindingView>, i: int)
    ensures
        preflight_section(findings).len() == findings.len() + 1,
        0 <= i < findings.len() ==> preflight_section(findings)[i] == finding_line(findings[i]),
        (exists|k: int|
            0 <= k < findings.len() && (#[trigger] findings[k]).status
                == preflight::PreflightStatus::Blocked) ==> preflight_section(
            findings,
        )[findings.len() as int] == "  Result: BLOCKED"@,
        (forall|k: int|
            0 <= k < findings.len() ==> (#[trigger] findings[k]).status
                == preflight::PreflightStatus::Safe) && findings.len() > 0 ==> preflight_section(
            findings,
        )[findings.len() as int] == "  Result: SAFE"@,
{
    reveal_strlit("  Result: ");
    reveal_strlit("BLOCKED");
    reveal_strlit("SAFE");
    reveal_strlit("  Result: BLOCKED");
    reveal_strlit("  Result: SAFE");
    assert("  Result: "@ + "BLOCKED"@ =~= "  Result: BLOCKED"@);
    assert("  Result: "@ + "SAFE"@ =~= "  Result: SAFE"@);
    preflight::law_safe_means_every_check_is_safe(findings);
    preflight::law_when_a_report_is_blocked(findings);
}

/// What the lines on a plan show. A disk with either flag is skipped; one whose
/// capacity is trusted has its exact size, the pattern and the chunk size; and
/// any other has a second line with the size that is reported, apart from any
/// plan.
pub proof fn law_what_the_lines_on_a_plan_show(disk: PhysicalDisk)
    ensures
        ({
            let lines = plan_section(disk);
            let start = "Disk "@ + text::decimal(disk.number as nat) + ": "@;
            let trusted = plan::capacity_trusted_bus(inventory::optional_text(disk.bus_type));
            &&& start.is_prefix_of(lines[0])
            &&& disk.is_boot || disk.is_system ==> lines == seq![
                start + "SKIPPED  "@ + "system/boot disk"@,
            ]
            &&& !disk.is_boot && !disk.is_system && trusted ==> lines == seq![
                start + "PLANNED  overwrite "@ + text::decimal(disk.size_bytes as nat)
                    + " bytes, pattern "@ + "0x00"@ + ", chunk size "@ + text::decimal(0x10_0000)
                    + " bytes"@,
            ]
            &&& !disk.is_boot && !disk.is_system && !trusted ==> {
                &&& lines.len() == 2
                &&& (start + "PENDING  capacity not trusted: "@).is_prefix_of(lines[0])
                &&& lines[1] == "  (inventory only, capacity trust unresolved: Get-Disk reports "@
                    + text::decimal(disk.size_bytes as nat) + " bytes exact)"@
            }
        }),
{
    reveal_strlit("0x00");
    assert(text::hex_byte(0u8) =~= "0x00"@);
    let lines = plan_section(disk);
    let start = "Disk "@ + text::decimal(disk.number as nat) + ": "@;
    assert(start =~= lines[0].subrange(0, start.len() as int));
    let pending = start + "PENDING  capacity not trusted: "@;
    if plan::planned(disk) is PendingCapacityConfirmation {
        assert(pending =~= lines[0].subrange(0, pending.len() as int));
    }
}

/// Whether a disk may be a target, as the report has it: blocked exactly where
/// either flag is set.
pub proof fn law_what_eligibility_shows(disk: PhysicalDisk)
    ensures
        disk.is_boot || disk.is_system ==> eligibility_words(disk) == "Disk "@ + text::decimal(
            disk.number as nat,
        ) + ": "@ + "BLOCKED: system/boot disk"@,
        !disk.is_boot && !disk.is_system ==> eligibility_words(disk) == "Disk "@ + text::decimal(
            disk.number as nat,
        ) + ": "@ + "ELIGIBLE"@,
{
    reveal_strlit("BLOCKED: ");
    reveal_strlit("system/boot disk");
    reveal_strlit("BLOCKED: system/boot disk");
    assert("BLOCKED: "@ + "system/boot disk"@ =~= "BLOCKED: system/boot disk"@);
}

/// The pre-flight is run exactly where both the disks and the partitions are
/// known. Unknown disks are an error whatever is known of the partitions; with
/// unknown partitions every disk has one line, which names it, is marked unknown
/// and ends in the error.
pub proof fn law_when_the_preflight_runs(
    disks: Result<Vec<PhysicalDisk>, String>,
    partitions: Result<Vec<Partition>, String>,
    i: int,
)
    ensures
        preflight_obstacle(disks, partitions) is None <==> disks is Ok && partitions is Ok,
        disks matches Err(e) ==> preflight_obstacle(disks, partitions) == Some(
            Err::<Seq<Seq<char>>, Seq<char>>("Error getting disk information: "@ + e@),
        ),
        disks matches Ok(all) ==> (partitions matches Err(e) ==> {
            &&& preflight_obstacle(disks, partitions) matches Some(Ok(lines))
            &&& lines.len() == all@.len()
            &&& 0 <= i < all@.len() ==> {
                &&& ("Disk "@ + text::decimal(all@[i].number as nat) + ": UNKNOWN: "@).is_prefix_of(
                    lines[i],
                )
                &&& e@.is_suffix_of(lines[i])
            }
        }),
{
    if disks is Ok && partitions is Err {
        let all = disks->Ok_0@;
        let e = partitions->Err_0@;
        let f = |i: int| seq![unplaceable_words(all[i], e)];
        lemma_one_line_each(all.len(), f);
        if 0 <= i < all.len() {
            let at = law_every_item_is_gathered(all.len(), f, i);
            lemma_one_line_each(i as nat, f);
            let lines = gathered(all.len(), f);
            assert(lines.subrange(at, at + f(i).len())[0] == lines[i]);
            assert(lines[i] == unplaceable_words(all[i], e));
            reveal_strlit(": UNKNOWN: ");
            reveal_strlit(
                ": UNKNOWN: partition information is unavailable, so no path can be correlated to a physical disk: ",
            );
            let start = "Disk "@ + text::decimal(all[i].number as nat) + ": UNKNOWN: "@;
            assert(start =~= lines[i].subrange(0, start.len() as int));
            lemma_behind(
                "Disk "@ + text::decimal(all[i].number as nat)
                    + ": UNKNOWN: partition information is unavailable, so no path can be correlated to a physical disk: "@,
                e,
            );
        }
    }
}

/// Items of one line each give as many lines.
proof fn lemma_one_line_each(n: nat, f: spec_fn(int) -> Seq<Seq<char>>)
    requires
        forall|i: int| 0 <= i < n ==> (#[trigger] f(i)).len() == 1,
    ensures
        gathered(n, f).len() == n,
    decreases n,
{
    if n > 0 {
        lemma_one_line_each((n - 1) as nat, f);
    }
}

/// The pre-flight on a disk names the disk, has one line for each of the seven
/// checks, and then its status.
pub proof fn law_a_preflight_has_nine_lines(
    disk: PhysicalDisk,
    partitions: Seq<Partition>,
    usage: SystemUsage,
    bitlocker: Result<Vec<BitLockerVolume>, String>,
    i: int,
)
    ensures
        ({
            let lines = disk_preflight(disk, partitions, usage, bitlocker);
            let findings = protection::all_findings(disk, partitions, usage, bitlocker);
            &&& lines.len() == 9
            &&& lines[0] == "Disk "@ + text::decimal(disk.number as nat)
            &&& 0 <= i < 7 ==> lines[i + 1] == finding_line(findings[i])
            &&& lines[8] == "  Result: "@ + preflight::overall(findings).name()
        }),
{
}

} // verus!
