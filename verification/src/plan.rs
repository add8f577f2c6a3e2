//! What an overwrite of a disk would do, and the confirmation that binds it to
//! that disk.
use vstd::prelude::*;

use crate::eligibility::{evaluate_eligibility, Eligibility};
use crate::inventory;
use crate::inventory::{Found, PhysicalDisk};
use crate::text;

verus! {

/// The byte that a planned overwrite writes.
pub const PLANNED_PATTERN: u8 = 0x00;

/// How many bytes a planned overwrite writes at a time: one mebibyte.
pub const PLANNED_CHUNK_SIZE: usize = 1048576;

/// The buses whose reported capacity is trusted: internal, directly attached
/// ones, where Windows' own value reflects the true size of the device.
pub open spec fn capacity_trusted_bus(bus_type: Option<Seq<char>>) -> bool {
    bus_type matches Some(b) && {
        ||| text::same_ignoring_ascii_case(b, "SATA"@)
        ||| text::same_ignoring_ascii_case(b, "NVMe"@)
        ||| text::same_ignoring_ascii_case(b, "SAS"@)
        ||| text::same_ignoring_ascii_case(b, "ATA"@)
        ||| text::same_ignoring_ascii_case(b, "SCSI"@)
        ||| text::same_ignoring_ascii_case(b, "Fibre Channel"@)
        ||| text::same_ignoring_ascii_case(b, "RAID"@)
        ||| text::same_ignoring_ascii_case(b, "iSCSI"@)
    }
}

/// Whether the capacity that a disk on this bus reports is trusted. An absent
/// or unlisted bus type is not: a bridge chip can report many times the true
/// size of a card. The media type plays no part, since it can be blank on a
/// trustworthy internal disk.
pub fn is_capacity_trusted_bus(bus_type: Option<&str>) -> (r: bool)
    ensures
        r == capacity_trusted_bus(inventory::optional_str(bus_type)),
{
    match bus_type {
        Some(b) => text::eq_ignore_ascii_case(b, "SATA") || text::eq_ignore_ascii_case(b, "NVMe")
            || text::eq_ignore_ascii_case(b, "SAS") || text::eq_ignore_ascii_case(b, "ATA")
            || text::eq_ignore_ascii_case(b, "SCSI") || text::eq_ignore_ascii_case(
            b,
            "Fibre Channel",
        ) || text::eq_ignore_ascii_case(b, "RAID") || text::eq_ignore_ascii_case(b, "iSCSI"),
        None => false,
    }
}

/// What would be done to a disk. A disk whose capacity is not trusted gets no
/// byte count: the size that it reports cannot be attached to a plan.
#[derive(Debug)]
pub enum DiskPlan {
    Planned { total_bytes: u64, pattern: u8, chunk_size: usize },
    Skipped(String),
    PendingCapacityConfirmation(String),
}

/// A plan, by what it says.
pub enum PlanView {
    Planned { total_bytes: u64, pattern: u8, chunk_size: usize },
    Skipped(Seq<char>),
    PendingCapacityConfirmation(Seq<char>),
}

impl View for DiskPlan {
    type V = PlanView;

    open spec fn view(&self) -> PlanView {
        match *self {
            DiskPlan::Planned { total_bytes, pattern, chunk_size } => PlanView::Planned {
                total_bytes,
                pattern,
                chunk_size,
            },
            DiskPlan::Skipped(reason) => PlanView::Skipped(reason@),
            DiskPlan::PendingCapacityConfirmation(reason) => PlanView::PendingCapacityConfirmation(
                reason@,
            ),
        }
    }
}

impl Clone for DiskPlan {
    fn clone(&self) -> (r: DiskPlan)
        ensures
            r@ == self@,
    {
        match self {
            DiskPlan::Planned { total_bytes, pattern, chunk_size } => DiskPlan::Planned {
                total_bytes: *total_bytes,
                pattern: *pattern,
                chunk_size: *chunk_size,
            },
            DiskPlan::Skipped(reason) => DiskPlan::Skipped(reason.as_str().to_owned()),
            DiskPlan::PendingCapacityConfirmation(
                reason,
            ) => DiskPlan::PendingCapacityConfirmation(reason.as_str().to_owned()),
        }
    }
}

impl PartialEq for DiskPlan {
    fn eq(&self, other: &DiskPlan) -> (r: bool) {
        match (self, other) {
            (
                DiskPlan::Planned { total_bytes, pattern, chunk_size },
                DiskPlan::Planned { total_bytes: bytes, pattern: byte, chunk_size: chunk },
            ) => *total_bytes == *bytes && *pattern == *byte && *chunk_size == *chunk,
            (DiskPlan::Skipped(a), DiskPlan::Skipped(b)) => text::same_text(a.as_str(), b.as_str()),
            (
                DiskPlan::PendingCapacityConfirmation(a),
                DiskPlan::PendingCapacityConfirmation(b),
            ) => text::same_text(a.as_str(), b.as_str()),
            _ => false,
        }
    }
}

impl vstd::std_specs::cmp::PartialEqSpecImpl for DiskPlan {
    open spec fn obeys_eq_spec() -> bool {
        true
    }

    /// Plans are equal when they say the same.
    open spec fn eq_spec(&self, other: &DiskPlan) -> bool {
        self@ == other@
    }
}

/// The plan for a disk: none for a system disk, none yet for a disk whose
/// capacity is not trusted, and else an overwrite of its exact size.
pub open spec fn planned(disk: PhysicalDisk) -> PlanView {
    let bus_type = inventory::optional_text(disk.bus_type);
    if inventory::system_disk(disk) {
        PlanView::Skipped("system/boot disk"@)
    } else if !capacity_trusted_bus(bus_type) {
        let shown = match bus_type {
            Some(b) => b,
            None => "(absent)"@,
        };
        PlanView::PendingCapacityConfirmation(
            "bus type "@ + shown
                + " is not on the list of buses with trusted capacity reporting"@,
        )
    } else {
        PlanView::Planned {
            total_bytes: disk.size_bytes,
            pattern: PLANNED_PATTERN,
            chunk_size: PLANNED_CHUNK_SIZE,
        }
    }
}

/// States what an overwrite of `disk` would do.
pub fn plan_for_disk(disk: &PhysicalDisk) -> (r: DiskPlan)
    ensures
        r@ == planned(*disk),
{
    if let Eligibility::Blocked(reason) = evaluate_eligibility(disk) {
        return DiskPlan::Skipped(reason);
    }
    let bus_type = inventory::as_text(&disk.bus_type);
    if !is_capacity_trusted_bus(bus_type) {
        let shown = match bus_type {
            Some(b) => b,
            None => "(absent)",
        };
        return DiskPlan::PendingCapacityConfirmation(
            text::enclosed(
                "bus type ",
                shown,
                " is not on the list of buses with trusted capacity reporting",
            ),
        );
    }
    DiskPlan::Planned {
        total_bytes: disk.size_bytes,
        pattern: PLANNED_PATTERN,
        chunk_size: PLANNED_CHUNK_SIZE,
    }
}

/// A disk is planned for exactly when it is no system disk and sits on a bus
/// whose capacity is trusted; and then the plan covers its exact size.
pub proof fn law_planned_disks(disk: PhysicalDisk)
    ensures
        planned(disk) is Planned <==> !inventory::system_disk(disk) && capacity_trusted_bus(
            inventory::optional_text(disk.bus_type),
        ),
        planned(disk) matches PlanView::Planned { total_bytes, .. } ==> total_bytes
            == disk.size_bytes,
{
}

/// Only the boot and system flags, the bus type and the exact size of a disk
/// decide its plan: its media type, its status, its name and the rest do not.
pub proof fn law_plan_depends_on_little(a: PhysicalDisk, b: PhysicalDisk)
    requires
        inventory::system_disk(a) == inventory::system_disk(b),
        inventory::optional_text(a.bus_type) == inventory::optional_text(b.bus_type),
        a.size_bytes == b.size_bytes,
    ensures
        planned(a) == planned(b),
{
}

// --- Identity across two inventories -----------------------------------------

/// Whether `fresh` is, by everything that identifies a disk, the disk
/// `selected`, seen again.
pub open spec fn same_identity(selected: PhysicalDisk, fresh: PhysicalDisk) -> bool {
    &&& fresh.number == selected.number
    &&& inventory::usable_serial(selected) is Some
    &&& inventory::optional_text(fresh.serial_number) == inventory::usable_serial(selected)
    &&& fresh.friendly_name@ == selected.friendly_name@
    &&& fresh.size_gb.equals(selected.size_gb)
    &&& fresh.size_bytes == selected.size_bytes
}

/// The disk of a fresh inventory that an operation on `selected` may go on
/// with, or why there is none.
pub open spec fn verification(selected: PhysicalDisk, fresh_disks: Seq<PhysicalDisk>) -> Result<
    PhysicalDisk,
    Seq<char>,
> {
    let found = inventory::numbered(fresh_disks, selected.number);
    let id = text::decimal(selected.number as nat);
    if inventory::usable_serial(selected) is None {
        Err(
            "disk "@ + id
                + " has no usable serial number: identity cannot be proven across snapshots"@,
        )
    } else if found.len() == 0 {
        Err("disk "@ + id + " is no longer present in the current inventory"@)
    } else if found.len() > 1 {
        Err("inventory is ambiguous: multiple disks found with number "@ + id)
    } else {
        let fresh = found[0];
        let serial = inventory::optional_text(fresh.serial_number);
        if serial is None {
            Err(
                "disk "@ + id
                    + " no longer reports a serial number: identity cannot be confirmed"@,
            )
        } else if serial != inventory::usable_serial(selected) {
            Err("disk "@ + id + " serial number no longer matches the selected target"@)
        } else if fresh.friendly_name@ != selected.friendly_name@ {
            Err("disk "@ + id + " friendly name no longer matches the selected target"@)
        } else if !fresh.size_gb.equals(selected.size_gb) {
            Err("disk "@ + id + " size no longer matches the selected target"@)
        } else if fresh.size_bytes != selected.size_bytes {
            Err("disk "@ + id + " exact size no longer matches the selected target"@)
        } else if inventory::system_disk(fresh) {
            Err("disk "@ + id + " is now a system/boot disk"@)
        } else {
            Ok(fresh)
        }
    }
}

/// Finds the disk `selected` again in a fresh inventory, right before an
/// operation on it.
///
/// The serial number is mandatory here: after a change of topology another
/// disk can have the same number. For the same reason the disk is not followed
/// to another number; whatever no longer matches is refused.
pub fn verify_target_before_operation<'a>(
    selected: &PhysicalDisk,
    fresh_disks: &'a [PhysicalDisk],
) -> (r: Result<&'a PhysicalDisk, String>)
    ensures
        match r {
            Ok(disk) => verification(*selected, fresh_disks@) == Ok::<PhysicalDisk, Seq<char>>(
                *disk,
            ),
            Err(e) => verification(*selected, fresh_disks@) == Err::<PhysicalDisk, Seq<char>>(e@),
        },
{
    let id: u64 = selected.number as u64;
    let expected = match inventory::usable_serial_of(selected) {
        Some(serial) => serial,
        None => {
            return Err(
                text::with_number(
                    "disk ",
                    id,
                    " has no usable serial number: identity cannot be proven across snapshots",
                ),
            );
        },
    };
    let fresh = match inventory::find_numbered(fresh_disks, selected.number) {
        Found::Absent => {
            return Err(
                text::with_number(
                    "disk ",
                    id,
                    " is no longer present in the current inventory",
                ),
            );
        },
        Found::Several => {
            return Err(
                text::prefixed(
                    "inventory is ambiguous: multiple disks found with number ",
                    text::decimal_text(id).as_str(),
                ),
            );
        },
        Found::One(fresh) => fresh,
    };
    match inventory::as_text(&fresh.serial_number) {
        Some(actual) => {
            if !text::same_text(actual, expected) {
                return Err(
                    text::with_number(
                        "disk ",
                        id,
                        " serial number no longer matches the selected target",
                    ),
                );
            }
        },
        None => {
            return Err(
                text::with_number(
                    "disk ",
                    id,
                    " no longer reports a serial number: identity cannot be confirmed",
                ),
            );
        },
    }
    if !text::same_text(fresh.friendly_name.as_str(), selected.friendly_name.as_str()) {
        return Err(
            text::with_number(
                "disk ",
                id,
                " friendly name no longer matches the selected target",
            ),
        );
    }
    if !fresh.size_gb.same_number(&selected.size_gb) {
        return Err(text::with_number("disk ", id, " size no longer matches the selected target"));
    }
    // The size in gigabytes is rounded: two different capacities can show the
    // same value, so the exact one has to match too.
    if fresh.size_bytes != selected.size_bytes {
        return Err(
            text::with_number("disk ", id, " exact size no longer matches the selected target"),
        );
    }
    if inventory::is_system_disk(fresh) {
        return Err(text::with_number("disk ", id, " is now a system/boot disk"));
    }
    // The same flags once more, by the rule that holds for every target.
    match evaluate_eligibility(fresh) {
        Eligibility::Eligible => Ok(fresh),
        Eligibility::Blocked(reason) => {
            let mut message = text::with_number(
                "disk ",
                id,
                " is blocked in the current inventory: ",
            );
            message.append(reason.as_str());
            Err(message)
        },
    }
}

/// A disk is found again exactly when the fresh inventory holds one disk of its
/// number, which has the same identity and is no system disk; and then it is
/// that one.
pub proof fn law_verified_target_is_the_selected_disk(
    selected: PhysicalDisk,
    fresh_disks: Seq<PhysicalDisk>,
)
    ensures
        verification(selected, fresh_disks) is Ok <==> {
            &&& inventory::numbered(fresh_disks, selected.number).len() == 1
            &&& same_identity(selected, inventory::numbered(fresh_disks, selected.number)[0])
            &&& !inventory::system_disk(inventory::numbered(fresh_disks, selected.number)[0])
        },
        verification(selected, fresh_disks) matches Ok(fresh) ==> {
            &&& fresh_disks.contains(fresh)
            &&& inventory::numbered(fresh_disks, selected.number) == seq![fresh]
            &&& same_identity(selected, fresh)
            &&& !inventory::system_disk(fresh)
        },
{
    let pred = |d: PhysicalDisk| d.number == selected.number;
    let found = fresh_disks.filter(pred);
    if found.len() == 1 {
        fresh_disks.lemma_filter_pred(pred, 0);
        assert(found.contains(found[0]));
        fresh_disks.lemma_filter_contains_rev(pred, found[0]);
        assert(found =~= seq![found[0]]);
    }
}

// --- Confirmation ------------------------------------------------------------

/// A confirmed operation: a disk whose identity was verified, and the plan that
/// the operator was shown.
#[derive(Debug)]
pub struct BoundOperation<'a> {
    pub disk: &'a PhysicalDisk,
    pub plan: DiskPlan,
}

/// Whether a line is a serial number typed back: exactly as it was shown, with or
/// without a line end; or, where it has no white space around it, with any.
pub open spec fn typed_back(entered: Seq<char>, serial: Seq<char>) -> bool {
    ||| entered == serial
    ||| entered == serial + "\n"@
    ||| entered == serial + "\r\n"@
    ||| text::trimmed(entered) == serial
}

/// Whether the operator typed a serial number back.
pub fn is_typed_back(entered: &str, serial: &str) -> (r: bool)
    ensures
        r == typed_back(entered@, serial@),
{
    text::same_text(entered, serial) || text::same_text(
        entered,
        text::prefixed(serial, "\n").as_str(),
    ) || text::same_text(entered, text::prefixed(serial, "\r\n").as_str()) || text::same_text(
        text::trim(entered),
        serial,
    )
}

/// A line that is a serial number typed back differs from it by nothing but white
/// space around it.
proof fn lemma_typed_back(entered: Seq<char>, serial: Seq<char>)
    requires
        typed_back(entered, serial),
    ensures
        text::trimmed(entered) == text::trimmed(serial),
{
    reveal_strlit("\n");
    reveal_strlit("\r\n");
    text::lemma_trimmed_ignores_padding(Seq::empty(), serial, "\n"@);
    text::lemma_trimmed_ignores_padding(Seq::empty(), serial, "\r\n"@);
    assert(Seq::<char>::empty() + serial =~= serial);
    text::lemma_trimmed_edges(entered);
    assert(text::trimmed(text::trimmed(entered)) == text::trimmed(entered));
}

/// What a confirmation comes to: the disk to operate on, or why it is refused.
/// The plan that is bound is the one that was confirmed.
pub open spec fn binding(
    selected: PhysicalDisk,
    confirmed: PlanView,
    entered: Seq<char>,
    fresh_disks: Seq<PhysicalDisk>,
) -> Result<PhysicalDisk, Seq<char>> {
    let serial = inventory::usable_serial(selected);
    if !(confirmed is Planned) {
        Err("cannot confirm an operation that was not Planned"@)
    } else if serial is None {
        Err(
            "disk "@ + text::decimal(selected.number as nat)
                + " has no usable serial number: cannot be confirmed"@,
        )
    } else if !typed_back(entered, serial->Some_0) {
        Err("confirmation did not match the disk's serial number"@)
    } else {
        match verification(selected, fresh_disks) {
            Err(e) => Err(e),
            Ok(fresh) => if planned(fresh) != confirmed {
                Err(
                    "the plan for this disk has changed since confirmation -- aborting; re-run to reconfirm"@,
                )
            } else {
                Ok(fresh)
            },
        }
    }
}

/// Decides whether the operation that `confirmed_plan` states may be bound to
/// the disk `selected`, given the line that the operator entered and a fresh
/// inventory. Everything that does not match is refused.
///
/// The serial number has to be typed exactly as it was shown. White space around
/// the line is passed over where the serial number has none.
/// The plan is derived again from the fresh inventory and has to be the same: a
/// disk can keep its identity while its bus type changes.
pub fn confirm_and_bind<'a>(
    selected: &PhysicalDisk,
    confirmed_plan: &DiskPlan,
    entered_serial: &str,
    fresh_disks: &'a [PhysicalDisk],
) -> (r: Result<BoundOperation<'a>, String>)
    ensures
        match r {
            Ok(bound) => {
                &&& binding(*selected, confirmed_plan@, entered_serial@, fresh_disks@) == Ok::<
                    PhysicalDisk,
                    Seq<char>,
                >(*bound.disk)
                &&& bound.plan@ == confirmed_plan@
            },
            Err(e) => binding(*selected, confirmed_plan@, entered_serial@, fresh_disks@) == Err::<
                PhysicalDisk,
                Seq<char>,
            >(e@),
        },
{
    if !matches!(confirmed_plan, DiskPlan::Planned { .. }) {
        return Err("cannot confirm an operation that was not Planned".to_owned());
    }
    let expected = match inventory::usable_serial_of(selected) {
        Some(serial) => serial,
        None => {
            return Err(
                text::with_number(
                    "disk ",
                    selected.number as u64,
                    " has no usable serial number: cannot be confirmed",
                ),
            );
        },
    };
    if !is_typed_back(entered_serial, expected) {
        return Err("confirmation did not match the disk's serial number".to_owned());
    }
    let fresh = match verify_target_before_operation(selected, fresh_disks) {
        Ok(fresh) => fresh,
        Err(e) => {
            return Err(e);
        },
    };
    let fresh_plan = plan_for_disk(fresh);
    if fresh_plan != *confirmed_plan {
        return Err(
            "the plan for this disk has changed since confirmation -- aborting; re-run to reconfirm".to_owned(),
        );
    }
    Ok(BoundOperation { disk: fresh, plan: fresh_plan })
}

/// An operation is bound only where all of this holds: the plan is `Planned`,
/// covers the exact size of the disk and is what the fresh inventory gives
/// again; the disk is the one that was selected, is no system disk and sits on
/// a bus whose capacity is trusted; and the operator typed its serial number.
pub proof fn law_bound_operations_are_safe(
    selected: PhysicalDisk,
    confirmed: PlanView,
    entered: Seq<char>,
    fresh_disks: Seq<PhysicalDisk>,
)
    ensures
        binding(selected, confirmed, entered, fresh_disks) matches Ok(disk) ==> {
            &&& confirmed == (PlanView::Planned {
                total_bytes: disk.size_bytes,
                pattern: PLANNED_PATTERN,
                chunk_size: PLANNED_CHUNK_SIZE,
            })
            &&& planned(disk) == confirmed
            &&& fresh_disks.contains(disk)
            &&& inventory::numbered(fresh_disks, selected.number) == seq![disk]
            &&& same_identity(selected, disk)
            &&& !inventory::system_disk(disk)
            &&& capacity_trusted_bus(inventory::optional_text(disk.bus_type))
            &&& inventory::optional_text(disk.serial_number) matches Some(serial)
            &&& typed_back(entered, serial)
            &&& text::trimmed(entered) == text::trimmed(serial)
            &&& !text::blank(entered)
        },
{
    law_verified_target_is_the_selected_disk(selected, fresh_disks);
    text::lemma_trimmed_of_blank(entered);
    if binding(selected, confirmed, entered, fresh_disks) is Ok {
        lemma_typed_back(entered, inventory::usable_serial(selected)->Some_0);
    }
}

/// A blank line, such as a cancelled prompt leaves, confirms nothing.
pub proof fn law_a_blank_line_confirms_nothing(
    selected: PhysicalDisk,
    confirmed: PlanView,
    entered: Seq<char>,
    fresh_disks: Seq<PhysicalDisk>,
)
    requires
        text::blank(entered),
    ensures
        binding(selected, confirmed, entered, fresh_disks) is Err,
{
    law_bound_operations_are_safe(selected, confirmed, entered, fresh_disks);
}

/// A plan that was shown for a disk is bound to it when the operator types its
/// serial number as it was shown, with or without a line end, and the fresh
/// inventory still reports the same: the disk is the only one of its number, has
/// a serial number that is not blank, and its size is a number.
pub proof fn law_an_unchanged_disk_is_bound(
    disk: PhysicalDisk,
    fresh_disks: Seq<PhysicalDisk>,
    line_end: Seq<char>,
)
    requires
        line_end == ""@ || line_end == "\n"@ || line_end == "\r\n"@,
        planned(disk) is Planned,
        inventory::numbered(fresh_disks, disk.number) == seq![disk],
        inventory::usable_serial(disk) is Some,
        !disk.size_gb.is_nan(),
    ensures
        binding(
            disk,
            planned(disk),
            inventory::usable_serial(disk)->Some_0 + line_end,
            fresh_disks,
        ) == Ok::<PhysicalDisk, Seq<char>>(disk),
{
    reveal_strlit("");
    let serial = inventory::usable_serial(disk)->Some_0;
    assert(serial + ""@ =~= serial);
}

/// A line that differs from the serial number by more than white space around it
/// confirms nothing; nor does one that leaves out or adds to the white space
/// around the serial number, beyond a line end.
pub proof fn law_another_line_confirms_nothing(
    selected: PhysicalDisk,
    confirmed: PlanView,
    entered: Seq<char>,
    fresh_disks: Seq<PhysicalDisk>,
)
    requires
        inventory::usable_serial(selected) matches Some(serial) && {
            ||| text::trimmed(entered) != text::trimmed(serial)
            ||| serial != text::trimmed(serial) && entered != serial && entered != serial + "\n"@
                && entered != serial + "\r\n"@
        },
    ensures
        binding(selected, confirmed, entered, fresh_disks) is Err,
{
    let serial = inventory::usable_serial(selected)->Some_0;
    if typed_back(entered, serial) {
        lemma_typed_back(entered, serial);
    }
}

// --- Laws on single fields ---------------------------------------------------

/// The capacity of a disk is trusted exactly on eight buses, by their names in
/// small letters; without a bus type it is not.
pub proof fn law_eight_buses_are_trusted(bus_type: Seq<char>)
    ensures
        !capacity_trusted_bus(None),
        capacity_trusted_bus(Some(bus_type)) <==> {
            let small = bus_type.map_values(|c: char| text::ascii_lower(c));
            ||| small == "sata"@ || small == "nvme"@ || small == "sas"@ || small == "ata"@
            ||| small == "scsi"@ || small == "fibre channel"@ || small == "raid"@ || small
                == "iscsi"@
        },
{
    reveal_strlit("SATA");
    reveal_strlit("NVMe");
    reveal_strlit("SAS");
    reveal_strlit("ATA");
    reveal_strlit("SCSI");
    reveal_strlit("Fibre Channel");
    reveal_strlit("RAID");
    reveal_strlit("iSCSI");
    reveal_strlit("sata");
    reveal_strlit("nvme");
    reveal_strlit("sas");
    reveal_strlit("ata");
    reveal_strlit("scsi");
    reveal_strlit("fibre channel");
    reveal_strlit("raid");
    reveal_strlit("iscsi");
    text::lemma_same_as_small(bus_type, "SATA"@, "sata"@);
    text::lemma_same_as_small(bus_type, "NVMe"@, "nvme"@);
    text::lemma_same_as_small(bus_type, "SAS"@, "sas"@);
    text::lemma_same_as_small(bus_type, "ATA"@, "ata"@);
    text::lemma_same_as_small(bus_type, "SCSI"@, "scsi"@);
    text::lemma_same_as_small(bus_type, "Fibre Channel"@, "fibre channel"@);
    text::lemma_same_as_small(bus_type, "RAID"@, "raid"@);
    text::lemma_same_as_small(bus_type, "iSCSI"@, "iscsi"@);
}

/// What a plan says: a disk with either flag is skipped, whatever its bus; another
/// on a bus that is not trusted gets no byte count and its bus is named; and any
/// other is overwritten over its exact size, with zeros, a mebibyte at a time.
pub proof fn law_what_a_plan_says(disk: PhysicalDisk)
    ensures
        disk.is_boot || disk.is_system ==> planned(disk) == PlanView::Skipped("system/boot disk"@),
        !disk.is_boot && !disk.is_system && disk.bus_type is None ==> planned(disk)
            == PlanView::PendingCapacityConfirmation(
            "bus type (absent) is not on the list of buses with trusted capacity reporting"@,
        ),
        !disk.is_boot && !disk.is_system ==> (disk.bus_type matches Some(bus) ==> if (
        capacity_trusted_bus(Some(bus@))) {
            planned(disk) == (PlanView::Planned {
                total_bytes: disk.size_bytes,
                pattern: 0,
                chunk_size: 0x10_0000,
            })
        } else {
            planned(disk) == PlanView::PendingCapacityConfirmation(
                "bus type "@ + bus@
                    + " is not on the list of buses with trusted capacity reporting"@,
            )
        }),
{
    reveal_strlit("bus type ");
    reveal_strlit("(absent)");
    reveal_strlit(" is not on the list of buses with trusted capacity reporting");
    reveal_strlit("bus type (absent) is not on the list of buses with trusted capacity reporting");
    assert("bus type "@ + "(absent)"@
        + " is not on the list of buses with trusted capacity reporting"@
        =~= "bus type (absent) is not on the list of buses with trusted capacity reporting"@);
}

/// A disk at place `i` of a fresh inventory is the one selected, seen again, as
/// far as an operation on it goes: it alone has the number, it reports the same
/// serial number, which is not blank, the same name and the same sizes, and
/// neither of its flags is set. What else it reports plays no part.
pub open spec fn seen_again(
    selected: PhysicalDisk,
    fresh_disks: Seq<PhysicalDisk>,
    i: int,
) -> bool {
    &&& 0 <= i < fresh_disks.len()
    &&& fresh_disks[i].number == selected.number
    &&& forall|k: int|
        0 <= k < fresh_disks.len() && k != i ==> (#[trigger] fresh_disks[k]).number
            != selected.number
    &&& selected.serial_number matches Some(old_serial) && !text::blank(old_serial@) && (
    fresh_disks[i].serial_number matches Some(serial) && serial@ == old_serial@)
    &&& fresh_disks[i].friendly_name@ == selected.friendly_name@
    &&& fresh_disks[i].size_gb.equals(selected.size_gb)
    &&& fresh_disks[i].size_bytes == selected.size_bytes
    &&& !fresh_disks[i].is_boot
    &&& !fresh_disks[i].is_system
}

/// A disk is verified exactly when it is seen again. The first clause takes the
/// place of such a disk; the result is the place of the one that was verified.
pub proof fn law_which_disk_is_verified(
    selected: PhysicalDisk,
    fresh_disks: Seq<PhysicalDisk>,
    i: int,
) -> (at: int)
    ensures
        seen_again(selected, fresh_disks, i) ==> verification(selected, fresh_disks) == Ok::<
            PhysicalDisk,
            Seq<char>,
        >(fresh_disks[i]),
        verification(selected, fresh_disks) matches Ok(fresh) ==> seen_again(
            selected,
            fresh_disks,
            at,
        ) && fresh == fresh_disks[at],
{
    inventory::law_disks_of_a_number(fresh_disks, selected.number, i, i);
    if selected.serial_number is Some {
        text::lemma_trimmed_of_blank(selected.serial_number->Some_0@);
    }
    if inventory::numbered(fresh_disks, selected.number).len() == 1 {
        inventory::law_a_single_disk_has_a_place(fresh_disks, selected.number)
    } else {
        0
    }
}

/// A line types a serial number back exactly when it is the serial number with a
/// line end or none, or, where the serial number has no white space around it,
/// the serial number with any white space around it.
pub proof fn law_what_types_a_serial_back(
    serial: Seq<char>,
    before: Seq<char>,
    after: Seq<char>,
    entered: Seq<char>,
) -> (around: (Seq<char>, Seq<char>))
    requires
        serial.len() > 0,
        text::blank(before),
        text::blank(after),
    ensures
        typed_back(serial, serial),
        typed_back(serial + seq!['\n'], serial),
        typed_back(serial + seq!['\r', '\n'], serial),
        !text::white_space(serial.first()) && !text::white_space(serial.last()) ==> typed_back(
            before + serial + after,
            serial,
        ),
        typed_back(entered, serial) ==> {
            ||| entered == serial
            ||| entered == serial + seq!['\n']
            ||| entered == serial + seq!['\r', '\n']
            ||| {
                &&& !text::white_space(serial.first())
                &&& !text::white_space(serial.last())
                &&& entered == around.0 + serial + around.1
                &&& text::blank(around.0)
                &&& text::blank(around.1)
            }
        },
{
    reveal_strlit("\n");
    reveal_strlit("\r\n");
    assert("\n"@ =~= seq!['\n']);
    assert("\r\n"@ =~= seq!['\r', '\n']);
    text::lemma_trimmed_ignores_padding(before, serial, after);
    if !text::white_space(serial.first()) && !text::white_space(serial.last()) {
        assert(text::trimmed(serial) == serial);
    }
    text::law_only_white_space_is_trimmed(entered)
}

/// A confirmation binds exactly when this holds: what was confirmed is to
/// overwrite the whole disk with zeros, a mebibyte at a time; the operator typed
/// the selected disk's serial number back; and the fresh inventory has the disk
/// again, on a bus whose capacity is trusted. The first clause takes the place of
/// such a disk; the result is the place of the one that was bound.
pub proof fn law_which_disk_is_bound(
    selected: PhysicalDisk,
    confirmed: PlanView,
    entered: Seq<char>,
    fresh_disks: Seq<PhysicalDisk>,
    i: int,
) -> (at: int)
    ensures
        seen_again(selected, fresh_disks, i) && confirmed == (PlanView::Planned {
            total_bytes: selected.size_bytes,
            pattern: 0,
            chunk_size: 0x10_0000,
        }) && typed_back(entered, selected.serial_number->Some_0@) && (
        fresh_disks[i].bus_type matches Some(bus) && capacity_trusted_bus(Some(bus@))) ==> binding(
            selected,
            confirmed,
            entered,
            fresh_disks,
        ) == Ok::<PhysicalDisk, Seq<char>>(fresh_disks[i]),
        binding(selected, confirmed, entered, fresh_disks) matches Ok(disk) ==> {
            &&& seen_again(selected, fresh_disks, at)
            &&& disk == fresh_disks[at]
            &&& confirmed == (PlanView::Planned {
                total_bytes: selected.size_bytes,
                pattern: 0,
                chunk_size: 0x10_0000,
            })
            &&& selected.serial_number matches Some(serial) && typed_back(entered, serial@)
            &&& disk.bus_type matches Some(bus) && capacity_trusted_bus(Some(bus@))
        },
{
    if selected.serial_number is Some {
        text::lemma_trimmed_of_blank(selected.serial_number->Some_0@);
    }
    law_which_disk_is_verified(selected, fresh_disks, i)
}

/// Why the only disk of the selected number is not verified: what identifies it is
/// looked at in a fixed order, and the first thing that does not match is named.
pub proof fn law_why_a_disk_is_not_verified(
    selected: PhysicalDisk,
    fresh_disks: Seq<PhysicalDisk>,
    i: int,
    j: int,
)
    requires
        selected.serial_number matches Some(serial) && !text::blank(serial@),
    ensures
        ({
            let why = verification(selected, fresh_disks);
            let disk = "disk "@ + text::decimal(selected.number as nat);
            let serial = selected.serial_number->Some_0@;
            &&& (forall|k: int|
                0 <= k < fresh_disks.len() ==> (#[trigger] fresh_disks[k]).number
                    != selected.number) ==> why == Err::<PhysicalDisk, Seq<char>>(
                disk + " is no longer present in the current inventory"@,
            )
            &&& 0 <= i < j < fresh_disks.len() && fresh_disks[i].number == selected.number
                && fresh_disks[j].number == selected.number ==> why == Err::<
                PhysicalDisk,
                Seq<char>,
            >(
                "inventory is ambiguous: multiple disks found with number "@ + text::decimal(
                    selected.number as nat,
                ),
            )
            &&& 0 <= i < fresh_disks.len() && fresh_disks[i].number == selected.number && (forall|
                k: int,
            |
                0 <= k < fresh_disks.len() && k != i ==> (#[trigger] fresh_disks[k]).number
                    != selected.number) ==> {
                let fresh = fresh_disks[i];
                &&& fresh.serial_number is None ==> why == Err::<PhysicalDisk, Seq<char>>(
                    disk + " no longer reports a serial number: identity cannot be confirmed"@,
                )
                &&& fresh.serial_number matches Some(other) ==> {
                    &&& other@ != serial ==> why == Err::<PhysicalDisk, Seq<char>>(
                        disk + " serial number no longer matches the selected target"@,
                    )
                    &&& other@ == serial && fresh.friendly_name@ != selected.friendly_name@ ==> why
                        == Err::<PhysicalDisk, Seq<char>>(
                        disk + " friendly name no longer matches the selected target"@,
                    )
                    &&& other@ == serial && fresh.friendly_name@ == selected.friendly_name@
                        && !fresh.size_gb.equals(selected.size_gb) ==> why == Err::<
                        PhysicalDisk,
                        Seq<char>,
                    >(disk + " size no longer matches the selected target"@)
                    &&& other@ == serial && fresh.friendly_name@ == selected.friendly_name@
                        && fresh.size_gb.equals(selected.size_gb) && fresh.size_bytes
                        != selected.size_bytes ==> why == Err::<PhysicalDisk, Seq<char>>(
                        disk + " exact size no longer matches the selected target"@,
                    )
                    &&& same_identity(selected, fresh) && (fresh.is_boot || fresh.is_system) ==> why
                        == Err::<PhysicalDisk, Seq<char>>(disk + " is now a system/boot disk"@)
                }
            }
        }),
{
    text::lemma_trimmed_of_blank(selected.serial_number->Some_0@);
    inventory::law_disks_of_a_number(fresh_disks, selected.number, i, j);
}

/// Why nothing is bound: what was confirmed is no plan to overwrite; or the
/// selected disk has no serial number to type; or the line is not its serial
/// number; or the disk is not verified, for the reason given there. What the
/// operator typed is looked at before the fresh inventory.
pub proof fn law_why_nothing_is_bound(
    selected: PhysicalDisk,
    confirmed: PlanView,
    entered: Seq<char>,
    fresh_disks: Seq<PhysicalDisk>,
)
    ensures
        ({
            let why = binding(selected, confirmed, entered, fresh_disks);
            &&& !(confirmed is Planned) ==> why == Err::<PhysicalDisk, Seq<char>>(
                "cannot confirm an operation that was not Planned"@,
            )
            &&& confirmed is Planned && inventory::usable_serial(selected) is None ==> why
                == Err::<PhysicalDisk, Seq<char>>(
                "disk "@ + text::decimal(selected.number as nat)
                    + " has no usable serial number: cannot be confirmed"@,
            )
            &&& confirmed is Planned && (inventory::usable_serial(selected) matches Some(serial)
                && !typed_back(entered, serial)) ==> why == Err::<PhysicalDisk, Seq<char>>(
                "confirmation did not match the disk's serial number"@,
            )
            &&& confirmed is Planned && (inventory::usable_serial(selected) matches Some(serial)
                && typed_back(entered, serial)) && verification(selected, fresh_disks) is Err
                ==> why == verification(selected, fresh_disks)
        }),
{
}

} // verus!
