//! What is known of a disk's media and of its BitLocker protection. Both are
//! evidence for the choice of a method; neither can veto a plan.
use vstd::prelude::*;

use crate::inventory;
use crate::inventory::{BitLockerVolume, Partition, PhysicalDisk};
use crate::preflight;
use crate::preflight::{
    blocked_finding, safe_finding, unknown_finding, FindingView, PreflightCheck, PreflightFinding,
    PreflightReport, PreflightStatus,
};
use crate::text;
use crate::usage;
use crate::usage::{evaluate_preflight, SystemUsage};

verus! {

// --- Media -------------------------------------------------------------------

/// Whether Windows named a kind of bus or media: an absent or empty value does
/// not, nor do the words that Windows uses when it does not know.
pub open spec fn recognized_media_value(value: Option<Seq<char>>) -> bool {
    value matches Some(v) && v.len() > 0 && v != "Unspecified"@ && v != "Unknown"@
}

/// Whether Windows named a kind of bus or media.
pub fn is_recognized_media_value(value: Option<&str>) -> (r: bool)
    ensures
        r == recognized_media_value(inventory::optional_str(value)),
{
    match value {
        Some(v) => !v.is_empty() && !text::same_text(v, "Unspecified") && !text::same_text(
            v,
            "Unknown",
        ),
        None => false,
    }
}

/// Whether a disk is removable, in words.
pub open spec fn removable_words(is_removable: Option<bool>) -> Seq<char> {
    match is_removable {
        Some(true) => "true"@,
        Some(false) => "false"@,
        None => "Unavailable"@,
    }
}

/// Whether a disk is removable, in words.
pub fn removable_text(is_removable: Option<bool>) -> (r: &'static str)
    ensures
        r@ == removable_words(is_removable),
{
    match is_removable {
        Some(b) => if b {
            "true"
        } else {
            "false"
        },
        None => "Unavailable",
    }
}

/// The finding on a disk's media.
pub open spec fn media_finding(disk: PhysicalDisk) -> FindingView {
    let bus_type = inventory::optional_text(disk.bus_type);
    let media_type = inventory::optional_text(disk.media_type);
    if recognized_media_value(bus_type) && recognized_media_value(media_type) {
        preflight::finding(
            PreflightCheck::MediaDetection,
            PreflightStatus::Safe,
            "bus type "@ + bus_type->Some_0 + " / media type "@ + media_type->Some_0
                + " / removable: "@ + removable_words(disk.is_removable),
        )
    } else {
        preflight::finding(
            PreflightCheck::MediaDetection,
            PreflightStatus::Unknown,
            "bus type "@ + inventory::shown(bus_type, "(absent)"@) + " / media type "@
                + inventory::shown(media_type, "(absent)"@) + " not fully recognized"@,
        )
    }
}

/// Whether the kind of a disk's media is known.
pub fn evaluate_media_detection(disk: &PhysicalDisk) -> (r: PreflightFinding)
    ensures
        r@ == media_finding(*disk),
{
    let bus_type = inventory::as_text(&disk.bus_type);
    let media_type = inventory::as_text(&disk.media_type);
    let known = is_recognized_media_value(bus_type) && is_recognized_media_value(media_type);
    let mut detail = text::enclosed(
        "bus type ",
        inventory::text_or(bus_type, "(absent)"),
        " / media type ",
    );
    detail.append(inventory::text_or(media_type, "(absent)"));
    if known {
        detail.append(" / removable: ");
        detail.append(removable_text(disk.is_removable));
        return safe_finding(PreflightCheck::MediaDetection, detail.as_str());
    }
    detail.append(" not fully recognized");
    unknown_finding(PreflightCheck::MediaDetection, detail)
}

// --- BitLocker ---------------------------------------------------------------

/// The mount point of a drive letter.
pub open spec fn mount_point(letter: char) -> Seq<char> {
    seq![letter, ':']
}

/// The mount point of a drive letter.
pub fn mount_point_of(letter: char) -> (r: String)
    ensures
        r@ == mount_point(letter),
{
    let mut s = String::new();
    s.push(letter);
    s.push(':');
    assert(s@ =~= mount_point(letter));
    s
}

/// Whether an entry is about a mount point. Windows does not always agree with
/// itself on the case of a letter or on a separator at the end.
pub open spec fn is_entry_for(volume: BitLockerVolume, mount: Seq<char>) -> bool {
    text::same_ignoring_ascii_case(text::trimmed_end_of(volume.mount_point@, '\\'), mount)
}

/// The first entry about a mount point.
pub open spec fn entry_for(volumes: Seq<BitLockerVolume>, mount: Seq<char>) -> Option<
    BitLockerVolume,
>
    decreases volumes.len(),
{
    if volumes.len() == 0 {
        None
    } else if is_entry_for(volumes.first(), mount) {
        Some(volumes.first())
    } else {
        entry_for(volumes.drop_first(), mount)
    }
}

/// The first entry about a mount point.
pub fn find_entry<'a>(volumes: &'a Vec<BitLockerVolume>, mount: &str) -> (r: Option<
    &'a BitLockerVolume,
>)
    ensures
        entry_for(volumes@, mount@) == match r {
            Some(volume) => Some(*volume),
            None => None,
        },
{
    let mut i: usize = 0;
    assert(volumes@.skip(0) =~= volumes@);
    while i < volumes.len()
        invariant
            i <= volumes.len(),
            entry_for(volumes@, mount@) == entry_for(volumes@.skip(i as int), mount@),
        decreases volumes.len() - i,
    {
        let trimmed = text::trim_end_matches(volumes[i].mount_point.as_str(), '\\');
        assert(volumes@.skip(i as int).drop_first() =~= volumes@.skip(i + 1));
        if text::eq_ignore_ascii_case(trimmed, mount) {
            return Some(&volumes[i]);
        }
        i += 1;
    }
    None
}

/// What one partition has to say against a disk, if anything: a status other
/// than `Safe`, and why. `shown_letter` is the drive letter as a message shows
/// it.
pub open spec fn partition_objection(
    disk_number: u32,
    partition: Partition,
    volumes: Seq<BitLockerVolume>,
    shown_letter: Seq<char>,
) -> Option<(PreflightStatus, Seq<char>)> {
    let id = text::decimal(disk_number as nat);
    match partition.drive_letter {
        None => if inventory::bare_system_partition(partition.partition_type@) {
            None
        } else {
            Some(
                (
                    PreflightStatus::Unknown,
                    "disk "@ + id + " has a letterless "@ + partition.partition_type@
                        + " partition whose BitLocker state cannot be determined"@,
                ),
            )
        },
        Some(letter) => {
            let mount = mount_point(letter);
            if !text::ascii_letter(letter) {
                Some(
                    (
                        PreflightStatus::Unknown,
                        "partition on disk "@ + id + " reports an unusable drive letter "@
                            + shown_letter,
                    ),
                )
            } else {
                match entry_for(volumes, mount) {
                    None => Some(
                        (
                            PreflightStatus::Unknown,
                            "no BitLocker entry for volume "@ + mount + " on disk "@ + id
                                + ": protection state unknown"@,
                        ),
                    ),
                    Some(volume) => if volume.protection_status@ == "On"@ {
                        Some(
                            (
                                PreflightStatus::Blocked,
                                "volume "@ + mount
                                    + " is BitLocker-protected (ProtectionStatus: On)"@,
                            ),
                        )
                    } else if volume.protection_status@ == "Off"@ {
                        None
                    } else {
                        Some(
                            (
                                PreflightStatus::Unknown,
                                "volume "@ + mount + " has unrecognized ProtectionStatus '"@
                                    + volume.protection_status@ + "'"@,
                            ),
                        )
                    },
                }
            }
        },
    }
}

/// Judges one partition of disk `disk_number`. Nothing is said against one that
/// has a letter and whose volume is listed as unprotected, nor against one of
/// those that hold no user data.
///
/// A drive letter other than a letter names no volume: Windows reports the
/// character NUL for a partition that has none.
pub fn judge_partition(
    disk_number: u32,
    partition: &Partition,
    volumes: &Vec<BitLockerVolume>,
    shown_letter: &str,
) -> (r: Option<PreflightFinding>)
    ensures
        match r {
            Some(f) => f.check == PreflightCheck::BitLockerProtection && partition_objection(
                disk_number,
                *partition,
                volumes@,
                shown_letter@,
            ) == Some((f.status, f.detail@)),
            None => partition_objection(
                disk_number,
                *partition,
                volumes@,
                shown_letter@,
            ) is None,
        },
{
    let id: u64 = disk_number as u64;
    let letter = match partition.drive_letter {
        Some(letter) => letter,
        None => {
            if inventory::is_bare_system_partition(partition.partition_type.as_str()) {
                return None;
            }
            let mut detail = text::with_number("disk ", id, " has a letterless ");
            detail.append(partition.partition_type.as_str());
            detail.append(" partition whose BitLocker state cannot be determined");
            return Some(unknown_finding(PreflightCheck::BitLockerProtection, detail));
        },
    };
    if !text::is_ascii_letter(letter) {
        let mut detail = text::with_number(
            "partition on disk ",
            id,
            " reports an unusable drive letter ",
        );
        detail.append(shown_letter);
        return Some(unknown_finding(PreflightCheck::BitLockerProtection, detail));
    }
    let mount = mount_point_of(letter);
    let volume = match find_entry(volumes, mount.as_str()) {
        Some(volume) => volume,
        None => {
            let mut detail = text::enclosed(
                "no BitLocker entry for volume ",
                mount.as_str(),
                " on disk ",
            );
            detail.append(text::decimal_text(id).as_str());
            detail.append(": protection state unknown");
            return Some(unknown_finding(PreflightCheck::BitLockerProtection, detail));
        },
    };
    let status = volume.protection_status.as_str();
    if text::same_text(status, "On") {
        return Some(
            blocked_finding(
                PreflightCheck::BitLockerProtection,
                text::enclosed(
                    "volume ",
                    mount.as_str(),
                    " is BitLocker-protected (ProtectionStatus: On)",
                ),
            ),
        );
    }
    if text::same_text(status, "Off") {
        return None;
    }
    let mut detail = text::enclosed(
        "volume ",
        mount.as_str(),
        " has unrecognized ProtectionStatus '",
    );
    detail.append(status);
    detail.append("'");
    Some(unknown_finding(PreflightCheck::BitLockerProtection, detail))
}

/// What a partition has to say against a disk, with its drive letter shown as
/// the `Debug` format shows it.
pub open spec fn objection(
    disk_number: u32,
    partition: Partition,
    volumes: Seq<BitLockerVolume>,
) -> Option<(PreflightStatus, Seq<char>)> {
    partition_objection(
        disk_number,
        partition,
        volumes,
        match partition.drive_letter {
            Some(letter) => text::quoted_char(letter),
            None => Seq::empty(),
        },
    )
}

/// The finding on the partitions of a disk: that of the first one with
/// something to say against it.
pub open spec fn partitions_finding(
    disk_number: u32,
    partitions: Seq<Partition>,
    volumes: Seq<BitLockerVolume>,
) -> FindingView
    decreases partitions.len(),
{
    if partitions.len() == 0 {
        preflight::finding(
            PreflightCheck::BitLockerProtection,
            PreflightStatus::Safe,
            "no partition on this disk is BitLocker-protected"@,
        )
    } else {
        match objection(disk_number, partitions.first(), volumes) {
            Some((status, detail)) => preflight::finding(
                PreflightCheck::BitLockerProtection,
                status,
                detail,
            ),
            None => partitions_finding(disk_number, partitions.drop_first(), volumes),
        }
    }
}

/// The finding on BitLocker: a failed query concerns every disk, whether or not
/// it has a partition that needs the answer.
pub open spec fn bitlocker_finding(
    disk_number: u32,
    partitions: Seq<Partition>,
    bitlocker: Result<Vec<BitLockerVolume>, String>,
) -> FindingView {
    match bitlocker {
        Err(e) => preflight::finding(
            PreflightCheck::BitLockerProtection,
            PreflightStatus::Unknown,
            "BitLocker information unavailable: "@ + e@,
        ),
        Ok(volumes) => partitions_finding(disk_number, partitions, volumes@),
    }
}

/// Whether a volume on the disk is protected by BitLocker. `disk_partitions`
/// are the partitions of the disk.
pub fn evaluate_bitlocker_protection(
    disk: &PhysicalDisk,
    disk_partitions: &[&Partition],
    bitlocker: &Result<Vec<BitLockerVolume>, String>,
) -> (r: PreflightFinding)
    ensures
        r@ == bitlocker_finding(disk.number, disk_partitions@.unref(), *bitlocker),
{
    let volumes = match bitlocker {
        Ok(volumes) => volumes,
        Err(e) => {
            return unknown_finding(
                PreflightCheck::BitLockerProtection,
                text::prefixed("BitLocker information unavailable: ", e.as_str()),
            );
        },
    };
    let ghost all = disk_partitions@.unref();
    let mut i: usize = 0;
    assert(all.skip(0) =~= all);
    while i < disk_partitions.len()
        invariant
            i <= disk_partitions.len(),
            all == disk_partitions@.unref(),
            *bitlocker == Ok::<Vec<BitLockerVolume>, String>(*volumes),
            partitions_finding(disk.number, all, volumes@) == partitions_finding(
                disk.number,
                all.skip(i as int),
                volumes@,
            ),
        decreases disk_partitions.len() - i,
    {
        let partition = disk_partitions[i];
        assert(all.skip(i as int).first() == *partition);
        assert(all.skip(i as int).drop_first() =~= all.skip(i + 1));
        let shown_letter = match partition.drive_letter {
            Some(letter) => text::quote_char(letter),
            None => String::new(),
        };
        if let Some(found) = judge_partition(
            disk.number,
            partition,
            volumes,
            shown_letter.as_str(),
        ) {
            return found;
        }
        i += 1;
    }
    safe_finding(
        PreflightCheck::BitLockerProtection,
        "no partition on this disk is BitLocker-protected",
    )
}

/// The finding on BitLocker is `Safe` only where every partition either holds
/// no user data or has a letter and an entry that says `Off`.
pub proof fn law_bitlocker_safe_means_proven(
    disk_number: u32,
    partitions: Seq<Partition>,
    volumes: Seq<BitLockerVolume>,
)
    ensures
        partitions_finding(disk_number, partitions, volumes).status == PreflightStatus::Safe
            <==> forall|i: int|
            0 <= i < partitions.len() ==> proven_unprotected(#[trigger] partitions[i], volumes),
    decreases partitions.len(),
{
    if partitions.len() > 0 {
        let rest = partitions.drop_first();
        law_bitlocker_safe_means_proven(disk_number, rest, volumes);
        reveal_strlit("On");
        reveal_strlit("Off");
        assert("On"@.len() != "Off"@.len());
        assert(objection(disk_number, partitions.first(), volumes) is None
            <==> proven_unprotected(partitions[0], volumes));
        if forall|i: int|
            0 <= i < partitions.len() ==> proven_unprotected(#[trigger] partitions[i], volumes) {
            assert forall|i: int| 0 <= i < rest.len() implies proven_unprotected(
                #[trigger] rest[i],
                volumes,
            ) by {
                assert(rest[i] == partitions[i + 1]);
            }
        }
        if proven_unprotected(partitions[0], volumes) && forall|i: int|
            0 <= i < rest.len() ==> proven_unprotected(#[trigger] rest[i], volumes) {
            assert forall|i: int| 0 <= i < partitions.len() implies proven_unprotected(
                #[trigger] partitions[i],
                volumes,
            ) by {
                if i > 0 {
                    assert(partitions[i] == rest[i - 1]);
                }
            }
        }
    }
}

/// Whether it is known that no BitLocker protection covers a partition.
pub open spec fn proven_unprotected(partition: Partition, volumes: Seq<BitLockerVolume>) -> bool {
    match partition.drive_letter {
        None => inventory::bare_system_partition(partition.partition_type@),
        Some(letter) => text::ascii_letter(letter) && (entry_for(
            volumes,
            mount_point(letter),
        ) matches Some(volume) && volume.protection_status@ == "Off"@),
    }
}

/// The finding on BitLocker blocks only where a partition with a letter has an
/// entry that says `On`.
pub proof fn law_bitlocker_blocks_only_on_evidence(
    disk_number: u32,
    partitions: Seq<Partition>,
    volumes: Seq<BitLockerVolume>,
)
    ensures
        partitions_finding(disk_number, partitions, volumes).status == PreflightStatus::Blocked
            ==> exists|i: int|
            0 <= i < partitions.len() && #[trigger] known_protected(partitions[i], volumes),
    decreases partitions.len(),
{
    if partitions.len() > 0 {
        let rest = partitions.drop_first();
        law_bitlocker_blocks_only_on_evidence(disk_number, rest, volumes);
        if objection(disk_number, partitions.first(), volumes) is None {
            if exists|i: int| 0 <= i < rest.len() && #[trigger] known_protected(rest[i], volumes) {
                let i = choose|i: int|
                    0 <= i < rest.len() && #[trigger] known_protected(rest[i], volumes);
                assert(known_protected(partitions[i + 1], volumes));
            }
        } else if partitions_finding(disk_number, partitions, volumes).status
            == PreflightStatus::Blocked {
            assert(known_protected(partitions[0], volumes));
        }
    }
}

/// Whether it is known that BitLocker protection covers a partition.
pub open spec fn known_protected(partition: Partition, volumes: Seq<BitLockerVolume>) -> bool {
    partition.drive_letter matches Some(letter) && text::ascii_letter(letter) && (entry_for(
        volumes,
        mount_point(letter),
    ) matches Some(volume) && volume.protection_status@ == "On"@)
}

// --- The whole report --------------------------------------------------------

/// The findings on a disk: those on system usage, on its media and on
/// BitLocker.
pub open spec fn all_findings(
    disk: PhysicalDisk,
    partitions: Seq<Partition>,
    usage: SystemUsage,
    bitlocker: Result<Vec<BitLockerVolume>, String>,
) -> Seq<FindingView> {
    usage::usage_findings(disk.number, partitions, usage).push(media_finding(disk)).push(
        bitlocker_finding(
            disk.number,
            inventory::partitions_on(partitions, disk.number),
            bitlocker,
        ),
    )
}

/// Runs every check on a disk. `partitions` are those of all disks.
pub fn full_preflight(
    disk: &PhysicalDisk,
    partitions: &[Partition],
    usage: &SystemUsage,
    bitlocker: &Result<Vec<BitLockerVolume>, String>,
) -> (r: PreflightReport)
    ensures
        r@ == all_findings(*disk, partitions@, *usage, *bitlocker),
{
    let mut report = evaluate_preflight(disk.number, partitions, usage);
    let ghost five = report@;
    report.findings.push(evaluate_media_detection(disk));
    assert(report@ =~= five.push(media_finding(*disk)));
    let ghost six = report@;
    let disk_partitions = inventory::partitions_of_disk(partitions, disk.number);
    let last = evaluate_bitlocker_protection(disk, disk_partitions.as_slice(), bitlocker);
    let ghost shown = last@;
    report.findings.push(last);
    assert(report@ =~= six.push(shown));
    report
}

// --- Laws --------------------------------------------------------------------

/// The media of a disk are known exactly when both the bus and the media type
/// are there, are not empty, and are neither of the two words for not knowing;
/// otherwise they are unknown, never blocked. Either way both are named, and the
/// flags, the sizes and the rest of the disk play no part in that.
pub proof fn law_when_media_are_known(disk: PhysicalDisk) -> (at: int)
    ensures
        media_finding(disk).check == PreflightCheck::MediaDetection,
        media_finding(disk).status == PreflightStatus::Safe <==> {
            &&& disk.bus_type matches Some(bus) && bus@ != ""@ && bus@ != "Unspecified"@ && bus@
                != "Unknown"@
            &&& disk.media_type matches Some(media) && media@ != ""@ && media@ != "Unspecified"@
                && media@ != "Unknown"@
        },
        media_finding(disk).status != PreflightStatus::Safe ==> media_finding(disk).status
            == PreflightStatus::Unknown,
        ({
            let d = media_finding(disk).detail;
            let bus = match disk.bus_type {
                Some(bus) => bus@,
                None => "(absent)"@,
            };
            let media = match disk.media_type {
                Some(media) => media@,
                None => "(absent)"@,
            };
            let named = "bus type "@ + bus + " / media type "@ + media;
            &&& named.is_prefix_of(d)
            &&& at == named.len()
            &&& media_finding(disk).status == PreflightStatus::Safe ==> d.skip(at)
                == " / removable: "@ + match disk.is_removable {
                Some(true) => "true"@,
                Some(false) => "false"@,
                None => "Unavailable"@,
            }
        }),
{
    reveal_strlit("");
    assert(""@ =~= Seq::<char>::empty());
    let d = media_finding(disk).detail;
    let bus = match disk.bus_type {
        Some(bus) => bus@,
        None => "(absent)"@,
    };
    let media = match disk.media_type {
        Some(media) => media@,
        None => "(absent)"@,
    };
    if disk.bus_type is Some && bus.len() == 0 {
        assert(bus =~= Seq::<char>::empty());
    }
    if disk.media_type is Some && media.len() == 0 {
        assert(media =~= Seq::<char>::empty());
    }
    let named = "bus type "@ + bus + " / media type "@ + media;
    assert(named =~= d.subrange(0, named.len() as int));
    if media_finding(disk).status == PreflightStatus::Safe {
        assert(d.skip(named.len() as int) =~= " / removable: "@ + removable_words(
            disk.is_removable,
        ));
    }
    named.len() as int
}

/// An entry is about a drive letter exactly when its mount point is the letter,
/// in either case, then a colon, then any number of backslashes and nothing else.
pub proof fn law_which_entries_are_about_a_letter(volume: BitLockerVolume, letter: char)
    ensures
        is_entry_for(volume, mount_point(letter)) <==> {
            let m = volume.mount_point@;
            &&& m.len() >= 2
            &&& {
                ||| m[0] == letter
                ||| 65 <= m[0] as u32 <= 90 && letter as u32 == m[0] as u32 + 32
                ||| 65 <= letter as u32 <= 90 && m[0] as u32 == letter as u32 + 32
            }
            &&& m[1] == ':'
            &&& forall|i: int| 2 <= i < m.len() ==> #[trigger] m[i] == '\\'
        },
{
    let m = volume.mount_point@;
    let t = text::trimmed_end_of(m, '\\');
    let n = text::law_only_the_character_is_trimmed(m, '\\');
    let mount = mount_point(letter);
    text::law_same_but_for_case(t, mount);
    if is_entry_for(volume, mount) {
        assert(t[0] == m[0] && t[1] == m[1]);
        assert(mount[0] == letter && mount[1] == ':');
        assert forall|i: int| 2 <= i < m.len() implies #[trigger] m[i] == '\\' by {
            assert(m[i] == Seq::new(n, |k: int| '\\')[i - t.len()]);
        }
    }
    if m.len() >= 2 && m[1] == ':' && forall|i: int|
        2 <= i < m.len() ==> #[trigger] m[i] == '\\' {
        if t.len() > 2 {
            assert(t[t.len() - 1] == m[t.len() - 1]);
        }
        if t.len() < 2 {
            assert(m[1] == Seq::new(n, |k: int| '\\')[1 - t.len()]);
        }
        assert(t.len() == 2);
        assert(t[0] == m[0] && t[1] == m[1]);
    }
}

/// The entry that counts for a mount point is the first that is about it, and
/// there is none exactly where no entry is.
pub proof fn law_the_first_entry_counts(volumes: Seq<BitLockerVolume>, mount: Seq<char>, i: int)
    ensures
        0 <= i < volumes.len() && is_entry_for(volumes[i], mount) && (forall|k: int|
            0 <= k < i ==> !is_entry_for(#[trigger] volumes[k], mount)) ==> entry_for(
            volumes,
            mount,
        ) == Some(volumes[i]),
        (forall|k: int| 0 <= k < volumes.len() ==> !is_entry_for(#[trigger] volumes[k], mount))
            ==> entry_for(volumes, mount) is None,
    decreases volumes.len(),
{
    if volumes.len() > 0 {
        let rest = volumes.drop_first();
        law_the_first_entry_counts(rest, mount, i - 1);
        assert(forall|k: int| 0 <= k < rest.len() ==> #[trigger] rest[k] == volumes[k + 1]);
        assert(volumes.first() == volumes[0]);
        if i > 0 && i < volumes.len() {
            assert(rest[i - 1] == volumes[i]);
        }
    }
}

/// The finding on BitLocker follows the first partition that is not proven to be
/// unprotected: it blocks exactly where that one is known to be protected, and
/// names its volume; otherwise it is unknown.
pub proof fn law_the_first_doubtful_partition_decides(
    disk_number: u32,
    partitions: Seq<Partition>,
    volumes: Seq<BitLockerVolume>,
    i: int,
)
    requires
        0 <= i < partitions.len(),
        forall|k: int| 0 <= k < i ==> proven_unprotected(#[trigger] partitions[k], volumes),
        !proven_unprotected(partitions[i], volumes),
    ensures
        ({
            let f = partitions_finding(disk_number, partitions, volumes);
            &&& f.check == PreflightCheck::BitLockerProtection
            &&& known_protected(partitions[i], volumes) ==> f.status == PreflightStatus::Blocked
                && f.detail == "volume "@ + seq![partitions[i].drive_letter->Some_0, ':']
                + " is BitLocker-protected (ProtectionStatus: On)"@
            &&& !known_protected(partitions[i], volumes) ==> f.status == PreflightStatus::Unknown
            &&& partitions[i].drive_letter is None ==> f.detail == "disk "@ + text::decimal(
                disk_number as nat,
            ) + " has a letterless "@ + partitions[i].partition_type@
                + " partition whose BitLocker state cannot be determined"@
            &&& (partitions[i].drive_letter matches Some(letter) && text::ascii_letter(letter)
                && entry_for(volumes, seq![letter, ':']) is None) ==> f.detail
                == "no BitLocker entry for volume "@ + seq![
                partitions[i].drive_letter->Some_0,
                ':',
            ] + " on disk "@ + text::decimal(disk_number as nat) + ": protection state unknown"@
            &&& (partitions[i].drive_letter matches Some(letter) && !text::ascii_letter(letter))
                ==> f.detail == "partition on disk "@ + text::decimal(disk_number as nat)
                + " reports an unusable drive letter "@ + text::quoted_char(
                partitions[i].drive_letter->Some_0,
            )
            &&& (partitions[i].drive_letter matches Some(letter) && text::ascii_letter(letter)
                && !known_protected(partitions[i], volumes)) ==> (entry_for(
                volumes,
                seq![partitions[i].drive_letter->Some_0, ':'],
            ) matches Some(volume) ==> f.detail == "volume "@ + seq![
                partitions[i].drive_letter->Some_0,
                ':',
            ] + " has unrecognized ProtectionStatus '"@ + volume.protection_status@ + "'"@)
        }),
    decreases partitions.len(),
{
    reveal_strlit("On");
    reveal_strlit("Off");
    assert("On"@.len() != "Off"@.len());
    if i > 0 {
        let rest = partitions.drop_first();
        assert(proven_unprotected(partitions[0], volumes));
        assert(objection(disk_number, partitions.first(), volumes) is None);
        assert forall|k: int| 0 <= k < i - 1 implies proven_unprotected(
            #[trigger] rest[k],
            volumes,
        ) by {
            assert(rest[k] == partitions[k + 1]);
        }
        assert(rest[i - 1] == partitions[i]);
        law_the_first_doubtful_partition_decides(disk_number, rest, volumes, i - 1);
    }
}

/// The findings on a disk: one for each of seven checks, in a fixed order. The
/// last is about the disk's own partitions: those of other disks play no part.
pub proof fn law_seven_findings(
    disk: PhysicalDisk,
    partitions: Seq<Partition>,
    usage: SystemUsage,
    bitlocker: Result<Vec<BitLockerVolume>, String>,
)
    ensures
        ({
            let all = all_findings(disk, partitions, usage, bitlocker);
            &&& all.len() == 7
            &&& all[0] == usage::pagefile_finding(disk.number, partitions, usage.pagefiles)
            &&& all[1] == usage::hibernation_finding(disk.number, partitions, usage.hibernation)
            &&& all[2] == usage::crash_dump_finding(disk.number, partitions, usage.crash_dump)
            &&& all[3] == usage::shadow_copy_finding(disk.number, partitions, usage.shadow_copies)
            &&& all[4] == usage::executable_finding(disk.number, partitions, usage.exe_path)
            &&& all[5] == media_finding(disk)
            &&& all[5].check == PreflightCheck::MediaDetection
            &&& all[6].check == PreflightCheck::BitLockerProtection
            &&& bitlocker matches Err(e) ==> all[6].status == PreflightStatus::Unknown
                && all[6].detail == "BitLocker information unavailable: "@ + e@
            &&& bitlocker matches Ok(volumes) ==> (all[6].status == PreflightStatus::Safe
                <==> forall|i: int|
                0 <= i < partitions.len() && (#[trigger] partitions[i]).disk_number == disk.number
                    ==> proven_unprotected(partitions[i], volumes@))
        }),
{
    let own = inventory::partitions_on(partitions, disk.number);
    let all = all_findings(disk, partitions, usage, bitlocker);
    if bitlocker is Ok {
        let volumes = bitlocker->Ok_0@;
        law_bitlocker_safe_means_proven(disk.number, own, volumes);
        lemma_check_of_partitions(disk.number, own, volumes);
        if all[6].status == PreflightStatus::Safe {
            assert forall|i: int|
                0 <= i < partitions.len() && (#[trigger] partitions[i]).disk_number
                    == disk.number implies proven_unprotected(partitions[i], volumes) by {
                let r = inventory::law_every_partition_of_a_disk(partitions, disk.number, i, 0);
                assert(proven_unprotected(own[r.0], volumes));
            }
        }
        if forall|i: int|
            0 <= i < partitions.len() && (#[trigger] partitions[i]).disk_number == disk.number
                ==> proven_unprotected(partitions[i], volumes) {
            assert forall|k: int| 0 <= k < own.len() implies proven_unprotected(
                #[trigger] own[k],
                volumes,
            ) by {
                let r = inventory::law_every_partition_of_a_disk(partitions, disk.number, 0, k);
                assert(partitions[r.1].disk_number == disk.number);
            }
        }
    }
}

/// The finding on partitions is one on BitLocker.
proof fn lemma_check_of_partitions(
    disk_number: u32,
    partitions: Seq<Partition>,
    volumes: Seq<BitLockerVolume>,
)
    ensures
        partitions_finding(disk_number, partitions, volumes).check
            == PreflightCheck::BitLockerProtection,
    decreases partitions.len(),
{
    if partitions.len() > 0 {
        lemma_check_of_partitions(disk_number, partitions.drop_first(), volumes);
    }
}

} // verus!
