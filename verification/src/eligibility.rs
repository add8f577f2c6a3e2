//! Whether a disk may be a target at all, and which disk a request names.
use vstd::prelude::*;

use crate::inventory;
use crate::inventory::{Found, PhysicalDisk};
use crate::text;

verus! {

/// Whether a disk may be a target. The boot and system flags are the only
/// input and can always be answered, so there is no third case.
#[derive(Debug)]
pub enum Eligibility {
    Eligible,
    Blocked(String),
}

/// Decides whether a disk may be a target: it may unless Windows boots from it
/// or runs from it. BitLocker has no say here, since an overwrite destroys
/// ciphertext as well as plaintext.
pub fn evaluate_eligibility(disk: &PhysicalDisk) -> (r: Eligibility)
    ensures
        match r {
            Eligibility::Eligible => !inventory::system_disk(*disk),
            Eligibility::Blocked(reason) => inventory::system_disk(*disk) && reason@
                == "system/boot disk"@,
        },
{
    if inventory::is_system_disk(disk) {
        return Eligibility::Blocked("system/boot disk".to_owned());
    }
    Eligibility::Eligible
}

/// Whether a disk may be taken offline or brought online.
#[derive(Debug)]
pub enum TransitionEligibility {
    Eligible,
    Blocked(String),
}

/// Whether Windows reports the disk as offline.
pub open spec fn offline(disk: PhysicalDisk) -> bool {
    text::same_ignoring_ascii_case(disk.operational_status@, "Offline"@)
}

/// Why a transition is refused, if it is: the disk is a system disk, or is
/// already in the state that is asked for.
pub open spec fn transition_obstacle(disk: PhysicalDisk, target_offline: bool) -> Option<
    Seq<char>,
> {
    if inventory::system_disk(disk) {
        Some("system/boot disk"@)
    } else if target_offline == offline(disk) {
        if offline(disk) {
            Some("disk is already "@ + "offline"@)
        } else {
            Some("disk is already "@ + "online"@)
        }
    } else {
        None
    }
}

/// Decides whether a disk may be taken offline (`target_offline`) or brought
/// online. Nothing is written by that, so whether the reported capacity is
/// trusted plays no part; and whether Windows itself allows it for removable
/// media is left to Windows.
pub fn evaluate_transition_eligibility(disk: &PhysicalDisk, target_offline: bool) -> (r:
    TransitionEligibility)
    ensures
        match r {
            TransitionEligibility::Eligible => transition_obstacle(*disk, target_offline) is None,
            TransitionEligibility::Blocked(reason) => transition_obstacle(*disk, target_offline)
                == Some(reason@),
        },
{
    if let Eligibility::Blocked(reason) = evaluate_eligibility(disk) {
        return TransitionEligibility::Blocked(reason);
    }
    let currently_offline = text::eq_ignore_ascii_case(
        disk.operational_status.as_str(),
        "Offline",
    );
    if target_offline == currently_offline {
        let state = if currently_offline {
            "offline"
        } else {
            "online"
        };
        return TransitionEligibility::Blocked(text::prefixed("disk is already ", state));
    }
    TransitionEligibility::Eligible
}

/// A disk that is no system disk can make exactly one of the two transitions,
/// and a system disk can make neither.
pub proof fn law_one_transition_is_open(disk: PhysicalDisk)
    ensures
        inventory::system_disk(disk) ==> transition_obstacle(disk, true) is Some
            && transition_obstacle(disk, false) is Some,
        !inventory::system_disk(disk) ==> (transition_obstacle(disk, true) is None) != (
        transition_obstacle(disk, false) is None),
{
}

/// What a request for disk `n`, with or without a serial number that the disk
/// is expected to have, comes to: the disk, or why it is refused.
pub open spec fn selection(
    disks: Seq<PhysicalDisk>,
    n: u32,
    expected_serial: Option<Seq<char>>,
) -> Result<PhysicalDisk, Seq<char>> {
    let found = inventory::numbered(disks, n);
    let id = text::decimal(n as nat);
    if found.len() == 0 {
        Err("no disk found with number "@ + id)
    } else if found.len() > 1 {
        Err("inventory is ambiguous: multiple disks found with number "@ + id)
    } else {
        let actual = inventory::optional_text(found[0].serial_number);
        if expected_serial is Some && actual is None {
            Err(
                "serial number confirmation requested for disk "@ + id
                    + " but no serial number is available"@,
            )
        } else if expected_serial is Some && actual != expected_serial {
            Err(
                "serial number mismatch for disk "@ + id
                    + ": does not match expected confirmation"@,
            )
        } else if inventory::system_disk(found[0]) {
            Err("disk "@ + id + " is blocked: "@ + "system/boot disk"@)
        } else {
            Ok(found[0])
        }
    }
}

/// Selects the disk with number `disk_number`: the one disk of that number, if
/// it has the expected serial number, where one is expected, and may be a
/// target.
pub fn select_target_disk<'a>(
    disks: &'a [PhysicalDisk],
    disk_number: u32,
    expected_serial: Option<&str>,
) -> (r: Result<&'a PhysicalDisk, String>)
    ensures
        match r {
            Ok(disk) => selection(
                disks@,
                disk_number,
                inventory::optional_str(expected_serial),
            ) == Ok::<PhysicalDisk, Seq<char>>(*disk),
            Err(e) => selection(disks@, disk_number, inventory::optional_str(expected_serial))
                == Err::<PhysicalDisk, Seq<char>>(e@),
        },
{
    let id = text::decimal_text(disk_number as u64);
    let disk = match inventory::find_numbered(disks, disk_number) {
        Found::Absent => {
            return Err(text::prefixed("no disk found with number ", id.as_str()));
        },
        Found::Several => {
            return Err(
                text::prefixed(
                    "inventory is ambiguous: multiple disks found with number ",
                    id.as_str(),
                ),
            );
        },
        Found::One(disk) => disk,
    };
    if let Some(expected) = expected_serial {
        match inventory::as_text(&disk.serial_number) {
            Some(actual) => {
                if !text::same_text(actual, expected) {
                    return Err(
                        text::enclosed(
                            "serial number mismatch for disk ",
                            id.as_str(),
                            ": does not match expected confirmation",
                        ),
                    );
                }
            },
            None => {
                return Err(
                    text::enclosed(
                        "serial number confirmation requested for disk ",
                        id.as_str(),
                        " but no serial number is available",
                    ),
                );
            },
        }
    }
    match evaluate_eligibility(disk) {
        Eligibility::Eligible => Ok(disk),
        Eligibility::Blocked(reason) => {
            let mut message = text::enclosed("disk ", id.as_str(), " is blocked: ");
            message.append(reason.as_str());
            Err(message)
        },
    }
}

/// A selected disk is the only one of its number in the inventory, is no system
/// disk, and has the serial number that was expected, if one was.
pub proof fn law_selection_is_safe(
    disks: Seq<PhysicalDisk>,
    n: u32,
    expected_serial: Option<Seq<char>>,
)
    ensures
        selection(disks, n, expected_serial) matches Ok(disk) ==> {
            &&& disks.contains(disk)
            &&& disk.number == n
            &&& inventory::numbered(disks, n) == seq![disk]
            &&& !inventory::system_disk(disk)
            &&& expected_serial is Some ==> inventory::optional_text(disk.serial_number)
                == expected_serial
        },
{
    if selection(disks, n, expected_serial) is Ok {
        let pred = |d: PhysicalDisk| d.number == n;
        let found = disks.filter(pred);
        disks.lemma_filter_pred(pred, 0);
        assert(found.contains(found[0]));
        disks.lemma_filter_contains_rev(pred, found[0]);
        assert(found =~= seq![found[0]]);
    }
}

/// A disk may make a transition exactly when neither flag is set and it is not
/// yet where it is to go. It counts as offline exactly when its status, in small
/// letters, is `offline`; any other status counts as online.
pub proof fn law_when_a_transition_is_open(disk: PhysicalDisk, target_offline: bool)
    ensures
        ({
            let small = disk.operational_status@.map_values(|c: char| text::ascii_lower(c));
            &&& transition_obstacle(disk, target_offline) is None <==> !disk.is_boot
                && !disk.is_system && target_offline == (small != "offline"@)
            &&& disk.is_boot || disk.is_system ==> transition_obstacle(disk, target_offline)
                == Some("system/boot disk"@)
            &&& !disk.is_boot && !disk.is_system && target_offline && small == "offline"@
                ==> transition_obstacle(disk, target_offline) == Some("disk is already offline"@)
            &&& !disk.is_boot && !disk.is_system && !target_offline && small != "offline"@
                ==> transition_obstacle(disk, target_offline) == Some("disk is already online"@)
        }),
{
    reveal_strlit("Offline");
    reveal_strlit("offline");
    reveal_strlit("online");
    reveal_strlit("disk is already ");
    reveal_strlit("disk is already offline");
    reveal_strlit("disk is already online");
    text::lemma_same_as_small(disk.operational_status@, "Offline"@, "offline"@);
    assert("disk is already "@ + "offline"@ =~= "disk is already offline"@);
    assert("disk is already "@ + "online"@ =~= "disk is already online"@);
}

/// A disk is selected exactly when it alone has the number, neither of its flags
/// is set, and it has the serial number that is expected, if one is; whatever
/// else it reports. The first clause takes the place of such a disk; the result
/// is the place of the one that was selected.
pub proof fn law_which_disk_is_selected(
    disks: Seq<PhysicalDisk>,
    n: u32,
    expected_serial: Option<Seq<char>>,
    i: int,
) -> (at: int)
    ensures
        0 <= i < disks.len() && disks[i].number == n && (forall|k: int|
            0 <= k < disks.len() && k != i ==> (#[trigger] disks[k]).number != n)
            && !disks[i].is_boot && !disks[i].is_system && (expected_serial matches Some(expected)
            ==> (disks[i].serial_number matches Some(serial) && serial@ == expected))
            ==> selection(disks, n, expected_serial) == Ok::<PhysicalDisk, Seq<char>>(disks[i]),
        selection(disks, n, expected_serial) matches Ok(disk) ==> {
            &&& 0 <= at < disks.len()
            &&& disk == disks[at]
            &&& disk.number == n
            &&& forall|k: int|
                0 <= k < disks.len() && k != at ==> (#[trigger] disks[k]).number != n
            &&& !disk.is_boot
            &&& !disk.is_system
            &&& expected_serial matches Some(expected) ==> (disk.serial_number matches Some(serial)
                && serial@ == expected)
        },
{
    inventory::law_disks_of_a_number(disks, n, i, i);
    if inventory::numbered(disks, n).len() == 1 {
        inventory::law_a_single_disk_has_a_place(disks, n)
    } else {
        0
    }
}

/// Why no disk is selected: none has the number, or several have it, before
/// anything else is looked at; and a serial number that is expected and not there
/// is refused before the flags are.
pub proof fn law_why_no_disk_is_selected(
    disks: Seq<PhysicalDisk>,
    n: u32,
    expected: Seq<char>,
    i: int,
    j: int,
)
    ensures
        (forall|k: int| 0 <= k < disks.len() ==> (#[trigger] disks[k]).number != n) ==> selection(
            disks,
            n,
            None,
        ) == Err::<PhysicalDisk, Seq<char>>(
            "no disk found with number "@ + text::decimal(n as nat),
        ) && selection(disks, n, Some(expected)) == selection(disks, n, None),
        0 <= i < j < disks.len() && disks[i].number == n && disks[j].number == n ==> selection(
            disks,
            n,
            None,
        ) == Err::<PhysicalDisk, Seq<char>>(
            "inventory is ambiguous: multiple disks found with number "@ + text::decimal(n as nat),
        ) && selection(disks, n, Some(expected)) == selection(disks, n, None),
        0 <= i < disks.len() && disks[i].number == n && (forall|k: int|
            0 <= k < disks.len() && k != i ==> (#[trigger] disks[k]).number != n) ==> {
            &&& disks[i].serial_number is None ==> selection(disks, n, Some(expected)) == Err::<
                PhysicalDisk,
                Seq<char>,
            >(
                "serial number confirmation requested for disk "@ + text::decimal(n as nat)
                    + " but no serial number is available"@,
            )
            &&& (disks[i].serial_number matches Some(serial) && serial@ != expected) ==> selection(
                disks,
                n,
                Some(expected),
            ) == Err::<PhysicalDisk, Seq<char>>(
                "serial number mismatch for disk "@ + text::decimal(n as nat)
                    + ": does not match expected confirmation"@,
            )
            &&& disks[i].is_boot || disks[i].is_system ==> selection(disks, n, None) is Err
        },
{
    inventory::law_disks_of_a_number(disks, n, i, j);
}

/// The only disk of a number, with either flag set, is refused as such, unless its
/// serial number was asked for and is another.
pub proof fn law_a_flagged_disk_is_named(disks: Seq<PhysicalDisk>, n: u32, i: int)
    requires
        0 <= i < disks.len(),
        disks[i].number == n,
        forall|k: int| 0 <= k < disks.len() && k != i ==> (#[trigger] disks[k]).number != n,
        disks[i].is_boot || disks[i].is_system,
    ensures
        selection(disks, n, None) == Err::<PhysicalDisk, Seq<char>>(
            "disk "@ + text::decimal(n as nat) + " is blocked: system/boot disk"@,
        ),
{
    inventory::law_disks_of_a_number(disks, n, i, i);
    reveal_strlit(" is blocked: ");
    reveal_strlit("system/boot disk");
    reveal_strlit(" is blocked: system/boot disk");
    assert("disk "@ + text::decimal(n as nat) + " is blocked: "@ + "system/boot disk"@ =~= "disk "@
        + text::decimal(n as nat) + " is blocked: system/boot disk"@);
}

} // verus!
