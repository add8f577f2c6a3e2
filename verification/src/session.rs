//! What an operator is asked before a disk is taken offline, brought online or
//! bound to an overwrite, and what the answers lead to.
use vstd::prelude::*;
use vstd::string::*;

use crate::eligibility;
use crate::eligibility::{
    evaluate_transition_eligibility, select_target_disk, TransitionEligibility,
};
use crate::inventory;
use crate::inventory::{Binary64, PhysicalDisk};
use crate::plan;
use crate::plan::{confirm_and_bind, plan_for_disk, BoundOperation, DiskPlan, PlanView};
use crate::powershell;
use crate::text;

verus! {

/// The line on a request for a disk when the disks are not known.
pub open spec fn inventory_error(disk_number: u32, e: Seq<char>) -> Seq<char> {
    "Cannot target disk "@ + text::decimal(disk_number as nat)
        + ": disk information unavailable: "@ + e
}

/// The disks of an inventory that a request needs, or the line that says that
/// they are not known.
pub fn require_disk_inventory<'a>(
    disks: &'a Result<Vec<PhysicalDisk>, String>,
    disk_number: u32,
) -> (r: Result<&'a [PhysicalDisk], String>)
    ensures
        match (*disks, r) {
            (Ok(all), Ok(given)) => given@ == all@,
            (Err(e), Err(line)) => line@ == inventory_error(disk_number, e@),
            _ => false,
        },
{
    match disks {
        Ok(disks) => Ok(disks.as_slice()),
        Err(e) => {
            let mut line = text::with_number(
                "Cannot target disk ",
                disk_number as u64,
                ": disk information unavailable: ",
            );
            line.append(e.as_str());
            Err(line)
        },
    }
}

// --- Offline and online ------------------------------------------------------

/// The heading of a transition.
pub fn transition_heading(target_offline: bool) -> (r: &'static str)
    ensures
        r@ == if target_offline {
            "=== Disk Offline Transition ==="@
        } else {
            "=== Disk Online Transition ==="@
        },
{
    if target_offline {
        "=== Disk Offline Transition ==="
    } else {
        "=== Disk Online Transition ==="
    }
}

/// The prompt before a transition of `disk`.
pub open spec fn transition_prompt(disk: PhysicalDisk, target_offline: bool) -> Seq<Seq<char>> {
    seq![
        ""@,
        "You have selected:"@,
        "  Disk number:      "@ + text::decimal(disk.number as nat),
        "  Friendly name:    "@ + disk.friendly_name@,
        "  Current state:    "@ + disk.operational_status@,
        "  Requested action: take this disk "@ + if target_offline {
            "offline"@
        } else {
            "online"@
        },
        ""@,
        "This is a reversible state change -- no data is written by this"@,
        "operation. Windows may reject it for reasons unrelated to this tool"@,
        "(for example, removable media cannot be taken offline)."@,
        ""@,
        "Type YES and press Enter to proceed. Anything else cancels."@,
        ""@,
    ]
}

/// What a request for a transition comes to: the prompt, or why it is refused.
pub open spec fn transition_proposal(
    disks: Seq<PhysicalDisk>,
    disk_number: u32,
    target_offline: bool,
) -> Result<Seq<Seq<char>>, Seq<char>> {
    let id = text::decimal(disk_number as nat);
    match eligibility::selection(disks, disk_number, None) {
        Err(e) => Err("Cannot target disk "@ + id + ": "@ + e),
        Ok(disk) => match eligibility::transition_obstacle(disk, target_offline) {
            Some(reason) => Err("Cannot transition disk "@ + id + ": "@ + reason),
            None => Ok(transition_prompt(disk, target_offline)),
        },
    }
}

/// Prepares a transition: the prompt for the operator, or why it is refused.
pub fn propose_transition(disks: &[PhysicalDisk], disk_number: u32, target_offline: bool) -> (r:
    Result<Vec<String>, String>)
    ensures
        text::lines_or_error(r) == transition_proposal(disks@, disk_number, target_offline),
{
    let disk = match select_target_disk(disks, disk_number, None) {
        Ok(disk) => disk,
        Err(e) => {
            let mut line = text::with_number("Cannot target disk ", disk_number as u64, ": ");
            line.append(e.as_str());
            return Err(line);
        },
    };
    if let TransitionEligibility::Blocked(reason) = evaluate_transition_eligibility(
        disk,
        target_offline,
    ) {
        let mut line = text::with_number("Cannot transition disk ", disk_number as u64, ": ");
        line.append(reason.as_str());
        return Err(line);
    }
    let verb = if target_offline {
        "offline"
    } else {
        "online"
    };
    let mut lines: Vec<String> = Vec::new();
    lines.push("".to_owned());
    lines.push("You have selected:".to_owned());
    lines.push(
        text::prefixed("  Disk number:      ", text::decimal_text(disk.number as u64).as_str()),
    );
    lines.push(text::prefixed("  Friendly name:    ", disk.friendly_name.as_str()));
    lines.push(text::prefixed("  Current state:    ", disk.operational_status.as_str()));
    lines.push(text::prefixed("  Requested action: take this disk ", verb));
    lines.push("".to_owned());
    lines.push("This is a reversible state change -- no data is written by this".to_owned());
    lines.push("operation. Windows may reject it for reasons unrelated to this tool".to_owned());
    lines.push("(for example, removable media cannot be taken offline).".to_owned());
    lines.push("".to_owned());
    lines.push("Type YES and press Enter to proceed. Anything else cancels.".to_owned());
    lines.push("".to_owned());
    assert(text::texts(lines@) =~= transition_prompt(*disk, target_offline));
    Ok(lines)
}

/// A transition is proposed only for a disk that is the only one of its number,
/// is no system disk and is not yet in the state that is asked for.
pub proof fn law_proposed_transitions_are_open(
    disks: Seq<PhysicalDisk>,
    disk_number: u32,
    target_offline: bool,
)
    ensures
        transition_proposal(disks, disk_number, target_offline) is Ok <==> {
            &&& inventory::numbered(disks, disk_number).len() == 1
            &&& !inventory::system_disk(inventory::numbered(disks, disk_number)[0])
            &&& eligibility::offline(inventory::numbered(disks, disk_number)[0]) != target_offline
        },
{
}

/// Whether the operator agreed to a transition: by `YES` and nothing else, but
/// for white space around it.
pub fn accepts_transition(entered: &str) -> (r: bool)
    ensures
        r == (text::trimmed(entered@) == "YES"@),
{
    text::same_text(text::trim(entered), "YES")
}

/// The lines that end a transition, by what a fresh inventory says of the disk.
pub open spec fn transition_report(
    fresh_disks: Result<Vec<PhysicalDisk>, String>,
    disk_number: u32,
) -> Result<Seq<Seq<char>>, Seq<char>> {
    match fresh_disks {
        Err(e) => Err("Transition command completed, but re-inventory failed: "@ + e@),
        Ok(disks) => {
            let found = inventory::numbered(disks@, disk_number);
            if found.len() == 0 {
                Ok(
                    seq![
                        "  Disk "@ + text::decimal(disk_number as nat)
                            + " no longer appears in inventory after the transition."@,
                    ],
                )
            } else {
                Ok(
                    seq![
                        "  Disk number:   "@ + text::decimal(found[0].number as nat),
                        "  Friendly name: "@ + found[0].friendly_name@,
                        "  Serial number: "@ + inventory::shown(
                            inventory::optional_text(found[0].serial_number),
                            "(none)"@,
                        ),
                        "  Operational:   "@ + found[0].operational_status@,
                    ],
                )
            }
        },
    }
}

/// The lines that end a transition, by what a fresh inventory says of the disk,
/// or the line for the error stream where there is none.
pub fn report_transition(
    fresh_disks: &Result<Vec<PhysicalDisk>, String>,
    disk_number: u32,
) -> (r: Result<Vec<String>, String>)
    ensures
        text::lines_or_error(r) == transition_report(*fresh_disks, disk_number),
{
    let disks = match fresh_disks {
        Ok(disks) => disks,
        Err(e) => {
            return Err(
                text::prefixed(
                    "Transition command completed, but re-inventory failed: ",
                    e.as_str(),
                ),
            );
        },
    };
    let mut lines: Vec<String> = Vec::new();
    match inventory::find_first(disks.as_slice(), disk_number) {
        Some(fresh) => {
            lines.push(
                text::prefixed(
                    "  Disk number:   ",
                    text::decimal_text(fresh.number as u64).as_str(),
                ),
            );
            lines.push(text::prefixed("  Friendly name: ", fresh.friendly_name.as_str()));
            lines.push(
                text::prefixed(
                    "  Serial number: ",
                    inventory::text_or(inventory::as_text(&fresh.serial_number), "(none)"),
                ),
            );
            lines.push(text::prefixed("  Operational:   ", fresh.operational_status.as_str()));
        },
        None => {
            lines.push(
                text::with_number(
                    "  Disk ",
                    disk_number as u64,
                    " no longer appears in inventory after the transition.",
                ),
            );
        },
    }
    assert(text::texts(lines@) =~= transition_report(*fresh_disks, disk_number)->Ok_0);
    Ok(lines)
}

/// What a transition is waiting for.
#[derive(Debug, Clone, Copy, PartialEq, Eq, Structural)]
pub enum TransitionStage {
    /// The line that the operator enters.
    Asking,
    /// How the command went.
    Running,
    /// A fresh inventory.
    Checking,
    /// Nothing; the transition is over.
    Ended,
}

/// A transition in progress.
#[derive(Debug)]
pub struct TransitionRun {
    pub disk_number: u32,
    pub target_offline: bool,
    pub stage: TransitionStage,
}

/// What to do next.
#[derive(Debug)]
pub enum TransitionAction {
    /// Print these lines and read a line.
    Ask(Vec<String>),
    /// Run this command.
    Run(String),
    /// Print these lines and take a fresh inventory.
    Recheck(Vec<String>),
    /// Stop: the transition was made. Print these lines, or this one to the
    /// error stream.
    Finish(Result<Vec<String>, String>),
    /// Stop: no transition was made. Print these lines to the error stream.
    Abort(Vec<String>),
}

/// An action, by what it says.
pub enum TransitionActionView {
    Ask(Seq<Seq<char>>),
    Run(Seq<char>),
    Recheck(Seq<Seq<char>>),
    Finish(Result<Seq<Seq<char>>, Seq<char>>),
    Abort(Seq<Seq<char>>),
}

impl View for TransitionAction {
    type V = TransitionActionView;

    open spec fn view(&self) -> TransitionActionView {
        match *self {
            TransitionAction::Ask(lines) => TransitionActionView::Ask(text::texts(lines@)),
            TransitionAction::Run(command) => TransitionActionView::Run(command@),
            TransitionAction::Recheck(lines) => TransitionActionView::Recheck(text::texts(lines@)),
            TransitionAction::Finish(r) => TransitionActionView::Finish(text::lines_or_error(r)),
            TransitionAction::Abort(lines) => TransitionActionView::Abort(text::texts(lines@)),
        }
    }
}

/// How the last action went.
#[derive(Debug)]
pub enum TransitionEvent {
    /// The line that the operator entered.
    Entered(String),
    /// The command could not be run.
    NotRun(String),
    /// What the command wrote to its error stream.
    Ran(Vec<u8>),
    /// A fresh inventory.
    Inventory(Result<Vec<PhysicalDisk>, String>),
}

impl TransitionStage {
    /// Whether `event` answers what a transition is waiting for.
    pub open spec fn awaits(self, event: TransitionEvent) -> bool {
        match event {
            TransitionEvent::Entered(_) => self is Asking,
            TransitionEvent::NotRun(_) => self is Running,
            TransitionEvent::Ran(_) => self is Running,
            TransitionEvent::Inventory(_) => self is Checking,
        }
    }
}

/// The lines on a transition that failed.
pub open spec fn transition_failure(e: Seq<char>) -> Seq<Seq<char>> {
    seq!["Transition failed: "@ + e, "No further action was taken."@]
}

/// Where an event of a transition leads, and what is asked for next.
pub open spec fn after_transition(
    disk_number: u32,
    target_offline: bool,
    event: TransitionEvent,
) -> (TransitionStage, TransitionActionView) {
    match event {
        TransitionEvent::Entered(line) => if text::trimmed(line@) == "YES"@ {
            (
                TransitionStage::Running,
                TransitionActionView::Run(
                    powershell::transition_command_text(disk_number, target_offline),
                ),
            )
        } else {
            (
                TransitionStage::Ended,
                TransitionActionView::Abort(
                    seq![
                        "Confirmation failed: input did not match \"YES\"."@,
                        "No data has been modified. Re-run the tool to try again."@,
                    ],
                ),
            )
        },
        TransitionEvent::NotRun(e) => (
            TransitionStage::Ended,
            TransitionActionView::Abort(transition_failure(e@)),
        ),
        TransitionEvent::Ran(stderr) => match powershell::stderr_error(
            powershell::stderr_text(stderr@),
        ) {
            Some(e) => (
                TransitionStage::Ended,
                TransitionActionView::Abort(transition_failure(e)),
            ),
            None => (
                TransitionStage::Checking,
                TransitionActionView::Recheck(
                    seq![""@, "Transition command completed. Re-checking inventory..."@],
                ),
            ),
        },
        TransitionEvent::Inventory(fresh_disks) => (
            TransitionStage::Ended,
            TransitionActionView::Finish(transition_report(fresh_disks, disk_number)),
        ),
    }
}

/// The lines on a transition that failed.
fn failure_lines(e: &str) -> (r: Vec<String>)
    ensures
        text::texts(r@) == transition_failure(e@),
{
    let mut lines: Vec<String> = Vec::new();
    lines.push(text::prefixed("Transition failed: ", e));
    lines.push("No further action was taken.".to_owned());
    assert(text::texts(lines@) =~= transition_failure(e@));
    lines
}

impl TransitionRun {
    /// Begins to take a disk offline or to bring it online, and says what to do
    /// first.
    pub fn begin(disks: &[PhysicalDisk], disk_number: u32, target_offline: bool) -> (r: (
        TransitionRun,
        TransitionAction,
    ))
        ensures
            r.0.disk_number == disk_number,
            r.0.target_offline == target_offline,
            (r.0.stage, r.1@) == match transition_proposal(disks@, disk_number, target_offline) {
                Ok(prompt) => (TransitionStage::Asking, TransitionActionView::Ask(prompt)),
                Err(e) => (TransitionStage::Ended, TransitionActionView::Abort(seq![e])),
            },
    {
        match propose_transition(disks, disk_number, target_offline) {
            Ok(prompt) => (
                TransitionRun { disk_number, target_offline, stage: TransitionStage::Asking },
                TransitionAction::Ask(prompt),
            ),
            Err(e) => (
                TransitionRun { disk_number, target_offline, stage: TransitionStage::Ended },
                TransitionAction::Abort(one_line(e)),
            ),
        }
    }
}

/// Takes one event of a transition and says what to do next. The command is run
/// only once the operator agreed to it.
pub fn run_disk_transition(run: &mut TransitionRun, event: TransitionEvent) -> (r:
    TransitionAction)
    requires
        old(run).stage.awaits(event),
    ensures
        final(run).disk_number == old(run).disk_number,
        final(run).target_offline == old(run).target_offline,
        (final(run).stage, r@) == after_transition(
            old(run).disk_number,
            old(run).target_offline,
            event,
        ),
{
    match event {
        TransitionEvent::Entered(line) => {
            if accepts_transition(line.as_str()) {
                run.stage = TransitionStage::Running;
                return TransitionAction::Run(
                    powershell::transition_command(run.disk_number, run.target_offline),
                );
            }
            run.stage = TransitionStage::Ended;
            let mut lines: Vec<String> = Vec::new();
            lines.push("Confirmation failed: input did not match \"YES\".".to_owned());
            lines.push("No data has been modified. Re-run the tool to try again.".to_owned());
            assert(text::texts(lines@) =~= seq![
                "Confirmation failed: input did not match \"YES\"."@,
                "No data has been modified. Re-run the tool to try again."@,
            ]);
            TransitionAction::Abort(lines)
        },
        TransitionEvent::NotRun(e) => {
            run.stage = TransitionStage::Ended;
            TransitionAction::Abort(failure_lines(e.as_str()))
        },
        TransitionEvent::Ran(stderr) => {
            if let Err(e) = powershell::transition_result(stderr.as_slice()) {
                run.stage = TransitionStage::Ended;
                return TransitionAction::Abort(failure_lines(e.as_str()));
            }
            run.stage = TransitionStage::Checking;
            let mut lines: Vec<String> = Vec::new();
            lines.push("".to_owned());
            lines.push("Transition command completed. Re-checking inventory...".to_owned());
            assert(text::texts(lines@) =~= seq![
                ""@,
                "Transition command completed. Re-checking inventory..."@,
            ]);
            TransitionAction::Recheck(lines)
        },
        TransitionEvent::Inventory(fresh_disks) => {
            run.stage = TransitionStage::Ended;
            TransitionAction::Finish(report_transition(&fresh_disks, run.disk_number))
        },
    }
}

/// A command is run only in answer to a `YES`, and it is the one for the disk
/// and the direction that were asked about.
pub proof fn law_nothing_is_run_without_a_yes(
    disk_number: u32,
    target_offline: bool,
    event: TransitionEvent,
)
    ensures
        after_transition(disk_number, target_offline, event).1 matches TransitionActionView::Run(
            command,
        ) ==> {
            &&& event matches TransitionEvent::Entered(line) && text::trimmed(line@) == "YES"@
            &&& command == powershell::transition_command_text(disk_number, target_offline)
        },
        after_transition(disk_number, target_offline, event).0 == TransitionStage::Running <==> (
        event matches TransitionEvent::Entered(line) && text::trimmed(line@) == "YES"@),
{
}

/// Where a transition is after `events`, and what it asked for last.
pub open spec fn transition_so_far(
    disks: Seq<PhysicalDisk>,
    disk_number: u32,
    target_offline: bool,
    events: Seq<TransitionEvent>,
) -> (TransitionStage, TransitionActionView) {
    if events.len() == 0 {
        match transition_proposal(disks, disk_number, target_offline) {
            Ok(prompt) => (TransitionStage::Asking, TransitionActionView::Ask(prompt)),
            Err(e) => (TransitionStage::Ended, TransitionActionView::Abort(seq![e])),
        }
    } else {
        after_transition(disk_number, target_offline, events.last())
    }
}

/// Whether each event answers what the transition was waiting for.
pub open spec fn transitioning(
    disks: Seq<PhysicalDisk>,
    disk_number: u32,
    target_offline: bool,
    events: Seq<TransitionEvent>,
) -> bool
    decreases events.len(),
{
    events.len() == 0 || {
        let before = events.drop_last();
        &&& transitioning(disks, disk_number, target_offline, before)
        &&& transition_so_far(disks, disk_number, target_offline, before).0.awaits(events.last())
    }
}

/// The commands that a transition has asked to run.
pub open spec fn commands_run(
    disk_number: u32,
    target_offline: bool,
    events: Seq<TransitionEvent>,
) -> Seq<Seq<char>>
    decreases events.len(),
{
    if events.len() == 0 {
        Seq::empty()
    } else {
        let before = commands_run(disk_number, target_offline, events.drop_last());
        match after_transition(disk_number, target_offline, events.last()).1 {
            TransitionActionView::Run(command) => before.push(command),
            _ => before,
        }
    }
}

/// A whole transition takes at most three events and runs at most one command:
/// the one for the disk and the direction that were asked about, and only where
/// the transition could be proposed and the operator answered `YES`.
pub proof fn law_a_transition_runs_at_most_one_command(
    disks: Seq<PhysicalDisk>,
    disk_number: u32,
    target_offline: bool,
    events: Seq<TransitionEvent>,
)
    requires
        transitioning(disks, disk_number, target_offline, events),
    ensures
        events.len() <= 3,
        commands_run(disk_number, target_offline, events) == if events.len() > 0 && (
        events[0] matches TransitionEvent::Entered(line) && text::trimmed(line@) == "YES"@) {
            seq![powershell::transition_command_text(disk_number, target_offline)]
        } else {
            Seq::<Seq<char>>::empty()
        },
        events.len() > 0 ==> transition_proposal(disks, disk_number, target_offline) is Ok,
{
    reveal_with_fuel(transitioning, 5);
    reveal_with_fuel(commands_run, 5);
    lemma_transition_stage(disks, disk_number, target_offline, events);
    if events.len() > 0 {
        assert(events.drop_last().len() == events.len() - 1);
        assert(commands_run(disk_number, target_offline, events.take(0)) =~= Seq::empty());
    }
}

/// Where a transition is tells how many events it has had.
proof fn lemma_transition_stage(
    disks: Seq<PhysicalDisk>,
    disk_number: u32,
    target_offline: bool,
    events: Seq<TransitionEvent>,
)
    requires
        transitioning(disks, disk_number, target_offline, events),
    ensures
        events.len() <= 3,
        match transition_so_far(disks, disk_number, target_offline, events).0 {
            TransitionStage::Asking => events.len() == 0,
            TransitionStage::Running => events.len() == 1,
            TransitionStage::Checking => events.len() == 2,
            TransitionStage::Ended => true,
        },
    decreases events.len(),
{
    if events.len() > 0 {
        lemma_transition_stage(disks, disk_number, target_offline, events.drop_last());
    }
}

// --- Overwrite ---------------------------------------------------------------

/// An overwrite that the operator can be asked to confirm.
#[derive(Debug)]
pub struct Proposal<'a> {
    pub disk: &'a PhysicalDisk,
    pub plan: DiskPlan,
}

/// What a request for an overwrite comes to: the disk to ask about, or why it
/// is refused before any question.
pub open spec fn overwrite_proposal(disks: Seq<PhysicalDisk>, disk_number: u32) -> Result<
    PhysicalDisk,
    Seq<char>,
> {
    let id = text::decimal(disk_number as nat);
    match eligibility::selection(disks, disk_number, None) {
        Err(e) => Err("Cannot target disk "@ + id + ": "@ + e),
        Ok(disk) => match plan::planned(disk) {
            PlanView::Skipped(reason) => Err("Cannot target disk "@ + id + ": "@ + reason),
            PlanView::PendingCapacityConfirmation(reason) => Err(
                "Cannot target disk "@ + id + ": capacity not trusted: "@ + reason,
            ),
            PlanView::Planned { .. } => if inventory::usable_serial(disk) is None {
                Err("Disk "@ + id + " has no usable serial number and cannot be confirmed."@)
            } else {
                Ok(disk)
            },
        },
    }
}

/// Prepares an overwrite: the disk and its plan, or why it is refused.
pub fn propose_overwrite<'a>(disks: &'a [PhysicalDisk], disk_number: u32) -> (r: Result<
    Proposal<'a>,
    String,
>)
    ensures
        match r {
            Ok(proposal) => {
                &&& overwrite_proposal(disks@, disk_number) == Ok::<PhysicalDisk, Seq<char>>(
                    *proposal.disk,
                )
                &&& proposal.plan@ == plan::planned(*proposal.disk)
                &&& proposal.plan is Planned
                &&& inventory::usable_serial(*proposal.disk) is Some
            },
            Err(e) => overwrite_proposal(disks@, disk_number) == Err::<PhysicalDisk, Seq<char>>(
                e@,
            ),
        },
{
    let id: u64 = disk_number as u64;
    let disk = match select_target_disk(disks, disk_number, None) {
        Ok(disk) => disk,
        Err(e) => {
            let mut line = text::with_number("Cannot target disk ", id, ": ");
            line.append(e.as_str());
            return Err(line);
        },
    };
    let plan = plan_for_disk(disk);
    match &plan {
        DiskPlan::Planned { .. } => {},
        DiskPlan::Skipped(reason) => {
            let mut line = text::with_number("Cannot target disk ", id, ": ");
            line.append(reason.as_str());
            return Err(line);
        },
        DiskPlan::PendingCapacityConfirmation(reason) => {
            let mut line = text::with_number(
                "Cannot target disk ",
                id,
                ": capacity not trusted: ",
            );
            line.append(reason.as_str());
            return Err(line);
        },
    }
    if inventory::usable_serial_of(disk).is_none() {
        return Err(
            text::with_number(
                "Disk ",
                id,
                " has no usable serial number and cannot be confirmed.",
            ),
        );
    }
    Ok(Proposal { disk, plan })
}

/// An overwrite is proposed exactly for a disk that is the only one of its
/// number, is no system disk, sits on a bus whose capacity is trusted and has a
/// serial number that is not blank.
pub proof fn law_proposed_overwrites_are_safe(disks: Seq<PhysicalDisk>, disk_number: u32)
    ensures
        overwrite_proposal(disks, disk_number) is Ok <==> {
            let found = inventory::numbered(disks, disk_number);
            &&& found.len() == 1
            &&& !inventory::system_disk(found[0])
            &&& plan::capacity_trusted_bus(inventory::optional_text(found[0].bus_type))
            &&& inventory::usable_serial(found[0]) is Some
        },
{
}

/// The prompt before an overwrite. `size` is the size in gigabytes, as it is
/// shown.
pub open spec fn overwrite_prompt(
    disk: PhysicalDisk,
    pattern: u8,
    chunk_size: usize,
    size: Seq<char>,
) -> Seq<Seq<char>> {
    seq![
        ""@,
        "You have selected:"@,
        "  Disk number:   "@ + text::decimal(disk.number as nat),
        "  Friendly name: "@ + disk.friendly_name@,
        "  Serial number: "@ + inventory::shown(inventory::usable_serial(disk), ""@),
        "  Reported size: "@ + size + " GB ("@ + text::decimal(disk.size_bytes as nat)
            + " bytes exact, per Get-Disk)"@,
        "  Planned action: overwrite the ENTIRE disk with a fixed byte pattern"@,
        "                  ("@ + text::hex_byte(pattern) + "), in "@ + text::decimal(
            chunk_size as nat,
        ) + "-byte chunks"@,
        ""@,
        "This operation is DESTRUCTIVE and IRREVERSIBLE. All data on this disk"@,
        "will be overwritten and will not be recoverable by this tool, or any"@,
        "other software, once the operation completes."@,
        ""@,
        "This confirmation records operator intent only. It does not prove no"@,
        "other process holds this disk open, and it does not certify a NIST"@,
        "SP 800-88 sanitization category -- that determination belongs to a"@,
        "later, unimplemented step."@,
        ""@,
        "To proceed, type this disk's exact serial number and press Enter."@,
        "Anything else -- including a blank line, or Ctrl+C -- cancels. Nothing"@,
        "has been written to any disk yet."@,
        ""@,
    ]
}

/// The prompt for a proposed overwrite. `size` is the size in gigabytes, as it
/// is shown.
pub fn prompt_overwrite(proposal: &Proposal, size: &str) -> (r: Vec<String>)
    requires
        proposal.plan is Planned,
    ensures
        proposal.plan matches DiskPlan::Planned { pattern, chunk_size, .. } && text::texts(r@)
            == overwrite_prompt(*proposal.disk, pattern, chunk_size, size@),
{
    let disk = proposal.disk;
    let (pattern, chunk_size): (u8, usize) = match proposal.plan {
        DiskPlan::Planned { pattern, chunk_size, .. } => (pattern, chunk_size),
        _ => (plan::PLANNED_PATTERN, plan::PLANNED_CHUNK_SIZE),
    };
    let serial = inventory::text_or(inventory::usable_serial_of(disk), "");
    let mut reported = text::enclosed("  Reported size: ", size, " GB (");
    reported.append(text::decimal_text(disk.size_bytes).as_str());
    reported.append(" bytes exact, per Get-Disk)");
    let mut action = text::enclosed(
        "                  (",
        text::hex_byte_text(pattern).as_str(),
        "), in ",
    );
    action.append(text::decimal_text(chunk_size as u64).as_str());
    action.append("-byte chunks");
    let mut lines: Vec<String> = Vec::new();
    lines.push("".to_owned());
    lines.push("You have selected:".to_owned());
    lines.push(
        text::prefixed("  Disk number:   ", text::decimal_text(disk.number as u64).as_str()),
    );
    lines.push(text::prefixed("  Friendly name: ", disk.friendly_name.as_str()));
    lines.push(text::prefixed("  Serial number: ", serial));
    lines.push(reported);
    lines.push(
        "  Planned action: overwrite the ENTIRE disk with a fixed byte pattern".to_owned(),
    );
    lines.push(action);
    lines.push("".to_owned());
    lines.push(
        "This operation is DESTRUCTIVE and IRREVERSIBLE. All data on this disk".to_owned(),
    );
    lines.push("will be overwritten and will not be recoverable by this tool, or any".to_owned());
    lines.push("other software, once the operation completes.".to_owned());
    lines.push("".to_owned());
    lines.push("This confirmation records operator intent only. It does not prove no".to_owned());
    lines.push("other process holds this disk open, and it does not certify a NIST".to_owned());
    lines.push("SP 800-88 sanitization category -- that determination belongs to a".to_owned());
    lines.push("later, unimplemented step.".to_owned());
    lines.push("".to_owned());
    lines.push("To proceed, type this disk's exact serial number and press Enter.".to_owned());
    lines.push(
        "Anything else -- including a blank line, or Ctrl+C -- cancels. Nothing".to_owned(),
    );
    lines.push("has been written to any disk yet.".to_owned());
    lines.push("".to_owned());
    assert(text::texts(lines@) =~= overwrite_prompt(*disk, pattern, chunk_size, size@));
    lines
}

/// The line on an operation that is bound to `disk` by a plan to overwrite it.
pub open spec fn bound_words(disk: PhysicalDisk, plan: PlanView) -> Seq<char> {
    "Confirmed and bound: disk "@ + text::decimal(disk.number as nat) + " (serial "@
        + inventory::shown(inventory::optional_text(disk.serial_number), ""@) + "), "@
        + text::decimal(plan->total_bytes as nat) + " bytes, pattern "@ + text::hex_byte(
        plan->pattern,
    ) + "."@
}

/// The line on a bound operation.
pub fn bound_line(bound: &BoundOperation) -> (r: String)
    requires
        bound.plan is Planned,
    ensures
        r@ == bound_words(*bound.disk, bound.plan@),
{
    let (total_bytes, pattern): (u64, u8) = match bound.plan {
        DiskPlan::Planned { total_bytes, pattern, .. } => (total_bytes, pattern),
        _ => (0, plan::PLANNED_PATTERN),
    };
    let mut line = text::with_number(
        "Confirmed and bound: disk ",
        bound.disk.number as u64,
        " (serial ",
    );
    line.append(inventory::text_or(inventory::as_text(&bound.disk.serial_number), ""));
    line.append("), ");
    line.append(text::decimal_text(total_bytes).as_str());
    line.append(" bytes, pattern ");
    line.append(text::hex_byte_text(pattern).as_str());
    line.append(".");
    line
}

// --- Confirmation ------------------------------------------------------------

/// Where the confirmation of an overwrite is.
#[derive(Debug)]
pub enum ConfirmationRun<'a> {
    /// The text of the disk's size is awaited.
    Sizing(Proposal<'a>),
    /// The line that the operator enters is awaited.
    Asking(Proposal<'a>),
    /// A fresh inventory is awaited. The operator entered this line.
    Checking(Proposal<'a>, String),
    /// Nothing; the confirmation is over.
    Ended,
}

/// A confirmation, by what it holds: the disk, the plan and the entered line.
pub enum ConfirmationView {
    Sizing(PhysicalDisk, PlanView),
    Asking(PhysicalDisk, PlanView),
    Checking(PhysicalDisk, PlanView, Seq<char>),
    Ended,
}

impl<'a> View for ConfirmationRun<'a> {
    type V = ConfirmationView;

    open spec fn view(&self) -> ConfirmationView {
        match *self {
            ConfirmationRun::Sizing(p) => ConfirmationView::Sizing(*p.disk, p.plan@),
            ConfirmationRun::Asking(p) => ConfirmationView::Asking(*p.disk, p.plan@),
            ConfirmationRun::Checking(p, line) => ConfirmationView::Checking(
                *p.disk,
                p.plan@,
                line@,
            ),
            ConfirmationRun::Ended => ConfirmationView::Ended,
        }
    }
}

impl ConfirmationView {
    /// Only a planned overwrite is asked about.
    pub open spec fn valid(self) -> bool {
        match self {
            ConfirmationView::Sizing(_, plan) => plan is Planned,
            ConfirmationView::Asking(_, plan) => plan is Planned,
            ConfirmationView::Checking(_, plan, _) => plan is Planned,
            ConfirmationView::Ended => true,
        }
    }

    /// Whether `event` answers what a confirmation is waiting for.
    pub open spec fn awaits(self, event: ConfirmationEvent) -> bool {
        match event {
            ConfirmationEvent::Sized(_) => self is Sizing,
            ConfirmationEvent::Entered(_) => self is Asking,
            ConfirmationEvent::Inventory(_) => self is Checking,
        }
    }
}

/// What to do next.
#[derive(Debug)]
pub enum ConfirmationAction {
    /// Write this number of gigabytes with two decimals.
    ShowSize(Binary64),
    /// Print these lines and read a line.
    Ask(Vec<String>),
    /// Take a fresh inventory.
    TakeInventory,
    /// Stop: the operation is bound. Print these lines.
    Finish(Vec<String>),
    /// Stop: nothing is bound. Print these lines to the error stream.
    Abort(Vec<String>),
}

/// An action, by what it says.
pub enum ConfirmationActionView {
    ShowSize(Binary64),
    Ask(Seq<Seq<char>>),
    TakeInventory,
    Finish(Seq<Seq<char>>),
    Abort(Seq<Seq<char>>),
}

impl View for ConfirmationAction {
    type V = ConfirmationActionView;

    open spec fn view(&self) -> ConfirmationActionView {
        match *self {
            ConfirmationAction::ShowSize(size) => ConfirmationActionView::ShowSize(size),
            ConfirmationAction::Ask(lines) => ConfirmationActionView::Ask(text::texts(lines@)),
            ConfirmationAction::TakeInventory => ConfirmationActionView::TakeInventory,
            ConfirmationAction::Finish(lines) => ConfirmationActionView::Finish(
                text::texts(lines@),
            ),
            ConfirmationAction::Abort(lines) => ConfirmationActionView::Abort(text::texts(lines@)),
        }
    }
}

/// How the last action went.
#[derive(Debug)]
pub enum ConfirmationEvent {
    /// The text of the disk's size.
    Sized(String),
    /// The line that the operator entered.
    Entered(String),
    /// A fresh inventory.
    Inventory(Result<Vec<PhysicalDisk>, String>),
}

/// How a request for an overwrite starts, and what is asked for first.
pub open spec fn confirmation_begun(
    disks: Result<Vec<PhysicalDisk>, String>,
    disk_number: u32,
) -> (ConfirmationView, ConfirmationActionView) {
    match disks {
        Err(e) => (
            ConfirmationView::Ended,
            ConfirmationActionView::Abort(seq![inventory_error(disk_number, e@)]),
        ),
        Ok(all) => match overwrite_proposal(all@, disk_number) {
            Err(e) => (ConfirmationView::Ended, ConfirmationActionView::Abort(seq![e])),
            Ok(disk) => (
                ConfirmationView::Sizing(disk, plan::planned(disk)),
                ConfirmationActionView::ShowSize(disk.size_gb),
            ),
        },
    }
}

/// Where an event of a confirmation leads, and what is asked for next.
pub open spec fn after_confirmation(run: ConfirmationView, event: ConfirmationEvent) -> (
    ConfirmationView,
    ConfirmationActionView,
) {
    match (run, event) {
        (
            ConfirmationView::Sizing(disk, PlanView::Planned { total_bytes, pattern, chunk_size }),
            ConfirmationEvent::Sized(size),
        ) => (
            ConfirmationView::Asking(
                disk,
                PlanView::Planned { total_bytes, pattern, chunk_size },
            ),
            ConfirmationActionView::Ask(overwrite_prompt(disk, pattern, chunk_size, size@)),
        ),
        (ConfirmationView::Asking(disk, plan), ConfirmationEvent::Entered(line)) => (
            ConfirmationView::Checking(disk, plan, line@),
            ConfirmationActionView::TakeInventory,
        ),
        (
            ConfirmationView::Checking(disk, plan, line),
            ConfirmationEvent::Inventory(fresh_disks),
        ) => (ConfirmationView::Ended, confirmation_end(disk, plan, line, fresh_disks)),
        _ => (run, ConfirmationActionView::Abort(Seq::empty())),
    }
}

/// How a confirmation ends, by the line that was entered and the inventory that
/// was taken after it.
pub open spec fn confirmation_end(
    disk: PhysicalDisk,
    plan: PlanView,
    line: Seq<char>,
    fresh_disks: Result<Vec<PhysicalDisk>, String>,
) -> ConfirmationActionView {
    match fresh_disks {
        Err(e) => ConfirmationActionView::Abort(
            seq!["Could not re-verify target: fresh inventory unavailable: "@ + e@],
        ),
        Ok(fresh) => match plan::binding(disk, plan, line, fresh@) {
            Err(reason) => ConfirmationActionView::Abort(
                seq![
                    "Confirmation failed: "@ + reason,
                    "No data has been modified. Re-run the tool to try again."@,
                ],
            ),
            Ok(bound) => ConfirmationActionView::Finish(
                seq![
                    bound_words(bound, plan),
                    "No sanitization executor exists in this build -- nothing further will happen."@,
                ],
            ),
        },
    }
}

impl<'a> ConfirmationRun<'a> {
    /// Begins to confirm an overwrite of disk `disk_number`, and says what to
    /// do first. What cannot be confirmed is refused before any question.
    pub fn begin(disks: &'a Result<Vec<PhysicalDisk>, String>, disk_number: u32) -> (r: (
        ConfirmationRun<'a>,
        ConfirmationAction,
    ))
        ensures
            r.0@.valid(),
            (r.0@, r.1@) == confirmation_begun(*disks, disk_number),
    {
        let known = match require_disk_inventory(disks, disk_number) {
            Ok(known) => known,
            Err(line) => {
                return (ConfirmationRun::Ended, ConfirmationAction::Abort(one_line(line)));
            },
        };
        match propose_overwrite(known, disk_number) {
            Ok(proposal) => {
                let size = proposal.disk.size_gb;
                (ConfirmationRun::Sizing(proposal), ConfirmationAction::ShowSize(size))
            },
            Err(line) => (ConfirmationRun::Ended, ConfirmationAction::Abort(one_line(line))),
        }
    }
}

/// A list of one line.
fn one_line(line: String) -> (r: Vec<String>)
    ensures
        text::texts(r@) == seq![line@],
{
    let mut lines: Vec<String> = Vec::new();
    let ghost shown = line@;
    lines.push(line);
    assert(text::texts(lines@) =~= seq![shown]);
    lines
}

/// Takes one event of a confirmation and says what to do next. The inventory
/// that the operation is bound by is taken after the operator has answered.
pub fn confirm_overwrite<'a>(run: ConfirmationRun<'a>, event: ConfirmationEvent) -> (r: (
    ConfirmationRun<'a>,
    ConfirmationAction,
))
    requires
        run@.valid(),
        run@.awaits(event),
    ensures
        r.0@.valid(),
        (r.0@, r.1@) == after_confirmation(run@, event),
{
    match (run, event) {
        (ConfirmationRun::Sizing(proposal), ConfirmationEvent::Sized(size)) => {
            let prompt = prompt_overwrite(&proposal, size.as_str());
            (ConfirmationRun::Asking(proposal), ConfirmationAction::Ask(prompt))
        },
        (ConfirmationRun::Asking(proposal), ConfirmationEvent::Entered(line)) => (
            ConfirmationRun::Checking(proposal, line),
            ConfirmationAction::TakeInventory,
        ),
        (
            ConfirmationRun::Checking(proposal, line),
            ConfirmationEvent::Inventory(fresh_disks),
        ) => (ConfirmationRun::Ended, end_confirmation(&proposal, line.as_str(), &fresh_disks)),
        (run, _) => (run, ConfirmationAction::Abort(Vec::new())),
    }
}

/// Ends a confirmation by the line that was entered and the inventory that was
/// taken after it.
fn end_confirmation(
    proposal: &Proposal,
    line: &str,
    fresh_disks: &Result<Vec<PhysicalDisk>, String>,
) -> (r: ConfirmationAction)
    ensures
        r@ == confirmation_end(*proposal.disk, proposal.plan@, line@, *fresh_disks),
{
    let fresh = match fresh_disks {
        Ok(fresh) => fresh,
        Err(e) => {
            return ConfirmationAction::Abort(
                one_line(
                    text::prefixed(
                        "Could not re-verify target: fresh inventory unavailable: ",
                        e.as_str(),
                    ),
                ),
            );
        },
    };
    let mut lines: Vec<String> = Vec::new();
    match confirm_and_bind(proposal.disk, &proposal.plan, line, fresh.as_slice()) {
        Ok(bound) => {
            lines.push(bound_line(&bound));
            lines.push(
                "No sanitization executor exists in this build -- nothing further will happen.".to_owned(),
            );
            assert(text::texts(lines@) =~= seq![
                bound_words(*bound.disk, proposal.plan@),
                "No sanitization executor exists in this build -- nothing further will happen."@,
            ]);
            ConfirmationAction::Finish(lines)
        },
        Err(reason) => {
            let ghost why = reason@;
            lines.push(text::prefixed("Confirmation failed: ", reason.as_str()));
            lines.push("No data has been modified. Re-run the tool to try again.".to_owned());
            assert(text::texts(lines@) =~= seq![
                "Confirmation failed: "@ + why,
                "No data has been modified. Re-run the tool to try again."@,
            ]);
            ConfirmationAction::Abort(lines)
        },
    }
}

/// The state that `events` lead to from the start of a confirmation.
pub open spec fn confirmed_so_far(
    disks: Result<Vec<PhysicalDisk>, String>,
    disk_number: u32,
    events: Seq<ConfirmationEvent>,
) -> (ConfirmationView, ConfirmationActionView)
    decreases events.len(),
{
    if events.len() == 0 {
        confirmation_begun(disks, disk_number)
    } else {
        after_confirmation(
            confirmed_so_far(disks, disk_number, events.drop_last()).0,
            events.last(),
        )
    }
}

/// Whether each event answers what the confirmation was waiting for.
pub open spec fn confirming(
    disks: Result<Vec<PhysicalDisk>, String>,
    disk_number: u32,
    events: Seq<ConfirmationEvent>,
) -> bool
    decreases events.len(),
{
    events.len() == 0 || {
        &&& confirming(disks, disk_number, events.drop_last())
        &&& confirmed_so_far(disks, disk_number, events.drop_last()).0.awaits(events.last())
    }
}

/// Where a confirmation is tells how many events it has had.
proof fn lemma_confirmation_stage(
    disks: Result<Vec<PhysicalDisk>, String>,
    disk_number: u32,
    events: Seq<ConfirmationEvent>,
)
    requires
        confirming(disks, disk_number, events),
    ensures
        confirmed_so_far(disks, disk_number, events).0.valid(),
        match confirmed_so_far(disks, disk_number, events).0 {
            ConfirmationView::Sizing(..) => events.len() == 0,
            ConfirmationView::Asking(..) => events.len() == 1,
            ConfirmationView::Checking(..) => events.len() == 2,
            ConfirmationView::Ended => events.len() == 0 || events.len() == 3,
        },
    decreases events.len(),
{
    if events.len() > 0 {
        lemma_confirmation_stage(disks, disk_number, events.drop_last());
    }
}

/// An operation is bound only after the operator has answered a question about
/// a disk that can be confirmed, and an inventory taken after that answer was
/// read; and then it is bound as the answer and that inventory have it. Where
/// there is no such inventory nothing is bound.
pub proof fn law_binding_follows_the_answer_and_a_fresh_inventory(
    disks: Result<Vec<PhysicalDisk>, String>,
    disk_number: u32,
    events: Seq<ConfirmationEvent>,
)
    requires
        confirming(disks, disk_number, events),
    ensures
        events.len() <= 3,
        confirmed_so_far(disks, disk_number, events).1 is Finish <==> {
            &&& events.len() == 3
            &&& disks matches Ok(all) && overwrite_proposal(all@, disk_number) matches Ok(disk)
                && events[1] matches ConfirmationEvent::Entered(line)
                && events[2] matches ConfirmationEvent::Inventory(Ok(fresh))
                && plan::binding(disk, plan::planned(disk), line@, fresh@) is Ok
        },
{
    reveal_with_fuel(confirming, 5);
    reveal_with_fuel(confirmed_so_far, 5);
    lemma_confirmation_stage(disks, disk_number, events);
}

// --- Laws on what is shown and asked -----------------------------------------

/// A disk at place `i` can be asked about for a transition: it alone has the
/// number, neither of its flags is set, and it is not yet where it is to go. It
/// counts as offline exactly when its status, in small letters, is `offline`.
pub open spec fn can_transition(
    disks: Seq<PhysicalDisk>,
    disk_number: u32,
    target_offline: bool,
    i: int,
) -> bool {
    &&& 0 <= i < disks.len()
    &&& disks[i].number == disk_number
    &&& forall|k: int| 0 <= k < disks.len() && k != i ==> (#[trigger] disks[k]).number
        != disk_number
    &&& !disks[i].is_boot
    &&& !disks[i].is_system
    &&& target_offline == (disks[i].operational_status@.map_values(|c: char| text::ascii_lower(c))
        != "offline"@)
}

/// A transition is proposed exactly for a disk that can make it, and the prompt
/// is then about that disk and that direction; what else the disk reports plays no
/// part. The first clause takes the place of such a disk; the result is the place
/// of the one that is asked about.
pub proof fn law_which_transition_is_proposed(
    disks: Seq<PhysicalDisk>,
    disk_number: u32,
    target_offline: bool,
    i: int,
) -> (at: int)
    ensures
        can_transition(disks, disk_number, target_offline, i) ==> transition_proposal(
            disks,
            disk_number,
            target_offline,
        ) == Ok::<Seq<Seq<char>>, Seq<char>>(transition_prompt(disks[i], target_offline)),
        transition_proposal(disks, disk_number, target_offline) matches Ok(prompt)
            ==> can_transition(disks, disk_number, target_offline, at) && prompt
            == transition_prompt(disks[at], target_offline),
{
    let at = eligibility::law_which_disk_is_selected(disks, disk_number, None, i);
    if 0 <= i < disks.len() {
        eligibility::law_when_a_transition_is_open(disks[i], target_offline);
    }
    if eligibility::selection(disks, disk_number, None) is Ok {
        eligibility::law_when_a_transition_is_open(disks[at], target_offline);
    }
    at
}

/// The prompt before a transition shows the disk's number, name and state, and
/// whether it is to go offline or online.
pub proof fn law_what_a_transition_prompt_shows(disk: PhysicalDisk)
    ensures
        ({
            let off = transition_prompt(disk, true);
            let on = transition_prompt(disk, false);
            &&& off.len() == 13 && on.len() == 13
            &&& off[2] == "  Disk number:      "@ + text::decimal(disk.number as nat) && on[2]
                == off[2]
            &&& off[3] == "  Friendly name:    "@ + disk.friendly_name@ && on[3] == off[3]
            &&& off[4] == "  Current state:    "@ + disk.operational_status@ && on[4] == off[4]
            &&& off[5] == "  Requested action: take this disk offline"@
            &&& on[5] == "  Requested action: take this disk online"@
            &&& off[11] == "Type YES and press Enter to proceed. Anything else cancels."@
        }),
{
    reveal_strlit("  Requested action: take this disk ");
    reveal_strlit("offline");
    reveal_strlit("online");
    reveal_strlit("  Requested action: take this disk offline");
    reveal_strlit("  Requested action: take this disk online");
    assert("  Requested action: take this disk "@ + "offline"@
        =~= "  Requested action: take this disk offline"@);
    assert("  Requested action: take this disk "@ + "online"@
        =~= "  Requested action: take this disk online"@);
}

/// What a transition does next, whatever came before: `YES`, with any white space
/// around it, runs the command for the disk and the direction, and any other line
/// ends it; a command that could not be run ends it with the reason; one that
/// wrote anything but white space to its error stream ends it with that; one that
/// did not is checked; and only a fresh inventory finishes it.
pub proof fn law_what_a_transition_does_next(
    disk_number: u32,
    target_offline: bool,
    event: TransitionEvent,
)
    ensures
        ({
            let next = after_transition(disk_number, target_offline, event);
            match event {
                TransitionEvent::Entered(line) => {
                    &&& text::trimmed(line@) == "YES"@ ==> next == (
                        TransitionStage::Running,
                        TransitionActionView::Run(
                            "Set-Disk -Number "@ + text::decimal(disk_number as nat) + (
                            if target_offline {
                                " -IsOffline $true"@
                            } else {
                                " -IsOffline $false"@
                            }),
                        ),
                    )
                    &&& text::trimmed(line@) != "YES"@ ==> next.0 == TransitionStage::Ended
                        && next.1 is Abort
                },
                TransitionEvent::NotRun(e) => next == (
                    TransitionStage::Ended,
                    TransitionActionView::Abort(
                        seq!["Transition failed: "@ + e@, "No further action was taken."@],
                    ),
                ),
                TransitionEvent::Ran(stderr) => {
                    let said = powershell::stderr_text(stderr@);
                    &&& text::blank(said) ==> next.0 == TransitionStage::Checking && next.1
                        is Recheck
                    &&& !text::blank(said) ==> next == (
                        TransitionStage::Ended,
                        TransitionActionView::Abort(
                            seq![
                                "Transition failed: "@ + ("PowerShell error: "@ + text::trimmed(
                                    said,
                                )),
                                "No further action was taken."@,
                            ],
                        ),
                    )
                },
                TransitionEvent::Inventory(fresh) => next == (
                    TransitionStage::Ended,
                    TransitionActionView::Finish(transition_report(fresh, disk_number)),
                ),
            }
        }),
{
    if event is Ran {
        powershell::law_when_a_transition_succeeded(
            powershell::stderr_text(event->Ran_0@),
        );
    }
}

/// `YES` is accepted with any white space around it, and nothing else is.
pub proof fn law_what_counts_as_yes(
    before: Seq<char>,
    after: Seq<char>,
    line: Seq<char>,
) -> (around: (Seq<char>, Seq<char>))
    requires
        text::blank(before),
        text::blank(after),
    ensures
        text::trimmed(before + seq!['Y', 'E', 'S'] + after) == "YES"@,
        text::trimmed(line) == "YES"@ ==> line == around.0 + seq!['Y', 'E', 'S'] + around.1
            && text::blank(around.0) && text::blank(around.1),
{
    reveal_strlit("YES");
    assert("YES"@ =~= seq!['Y', 'E', 'S']);
    text::lemma_trimmed_ignores_padding(before, "YES"@, after);
    assert(text::trimmed("YES"@) == "YES"@);
    text::law_only_white_space_is_trimmed(line)
}

/// What ends a transition: the first disk of the number in the fresh inventory,
/// by its number, name, serial number and state; that it is gone, exactly where no
/// disk has the number; or that there is no fresh inventory.
pub proof fn law_what_ends_a_transition(
    fresh: Result<Vec<PhysicalDisk>, String>,
    disk_number: u32,
    i: int,
)
    ensures
        fresh matches Err(e) ==> transition_report(fresh, disk_number) == Err::<
            Seq<Seq<char>>,
            Seq<char>,
        >("Transition command completed, but re-inventory failed: "@ + e@),
        fresh matches Ok(disks) ==> {
            &&& (forall|k: int|
                0 <= k < disks@.len() ==> (#[trigger] disks@[k]).number != disk_number)
                ==> transition_report(fresh, disk_number) == Ok::<Seq<Seq<char>>, Seq<char>>(
                seq![
                    "  Disk "@ + text::decimal(disk_number as nat)
                        + " no longer appears in inventory after the transition."@,
                ],
            )
            &&& 0 <= i < disks@.len() && disks@[i].number == disk_number && (forall|k: int|
                0 <= k < i ==> (#[trigger] disks@[k]).number != disk_number) ==> transition_report(
                fresh,
                disk_number,
            ) == Ok::<Seq<Seq<char>>, Seq<char>>(
                seq![
                    "  Disk number:   "@ + text::decimal(disk_number as nat),
                    "  Friendly name: "@ + disks@[i].friendly_name@,
                    "  Serial number: "@ + match disks@[i].serial_number {
                        Some(serial) => serial@,
                        None => "(none)"@,
                    },
                    "  Operational:   "@ + disks@[i].operational_status@,
                ],
            )
        },
{
    if fresh is Ok {
        let disks = fresh->Ok_0@;
        inventory::law_disks_of_a_number(disks, disk_number, i, i);
        if 0 <= i < disks.len() && disks[i].number == disk_number && forall|k: int|
            0 <= k < i ==> (#[trigger] disks[k]).number != disk_number {
            assert(inventory::numbered(disks, disk_number)[0] == disks[i]);
            assert(transition_report(fresh, disk_number)->Ok_0 =~= seq![
                "  Disk number:   "@ + text::decimal(disk_number as nat),
                "  Friendly name: "@ + disks[i].friendly_name@,
                "  Serial number: "@ + match disks[i].serial_number {
                    Some(serial) => serial@,
                    None => "(none)"@,
                },
                "  Operational:   "@ + disks[i].operational_status@,
            ]);
        }
    }
}

/// A disk at place `i` can be asked about for an overwrite: it alone has the
/// number, neither of its flags is set, it sits on a bus whose capacity is
/// trusted, and it has a serial number that is not blank.
pub open spec fn can_be_overwritten(disks: Seq<PhysicalDisk>, disk_number: u32, i: int) -> bool {
    &&& 0 <= i < disks.len()
    &&& disks[i].number == disk_number
    &&& forall|k: int| 0 <= k < disks.len() && k != i ==> (#[trigger] disks[k]).number
        != disk_number
    &&& !disks[i].is_boot
    &&& !disks[i].is_system
    &&& disks[i].bus_type matches Some(bus) && plan::capacity_trusted_bus(Some(bus@))
    &&& disks[i].serial_number matches Some(serial) && !text::blank(serial@)
}

/// An overwrite is proposed exactly for a disk that can be overwritten. The first
/// clause takes the place of such a disk; the result is the place of the one that
/// is asked about.
pub proof fn law_which_overwrite_is_proposed(
    disks: Seq<PhysicalDisk>,
    disk_number: u32,
    i: int,
) -> (at: int)
    ensures
        can_be_overwritten(disks, disk_number, i) ==> overwrite_proposal(disks, disk_number)
            == Ok::<PhysicalDisk, Seq<char>>(disks[i]),
        overwrite_proposal(disks, disk_number) matches Ok(disk) ==> can_be_overwritten(
            disks,
            disk_number,
            at,
        ) && disk == disks[at],
{
    let at = eligibility::law_which_disk_is_selected(disks, disk_number, None, i);
    if 0 <= i < disks.len() && disks[i].serial_number is Some {
        text::lemma_trimmed_of_blank(disks[i].serial_number->Some_0@);
    }
    if eligibility::selection(disks, disk_number, None) is Ok && disks[at].serial_number is Some {
        text::lemma_trimmed_of_blank(disks[at].serial_number->Some_0@);
    }
    at
}

/// The prompt before an overwrite shows the disk's number, name, serial number as
/// it has to be typed, size and exact size, the pattern and the chunk size, and
/// what cancels.
pub proof fn law_what_an_overwrite_prompt_shows(
    disk: PhysicalDisk,
    pattern: u8,
    chunk_size: usize,
    size: Seq<char>,
)
    requires
        inventory::usable_serial(disk) is Some,
    ensures
        ({
            let lines = overwrite_prompt(disk, pattern, chunk_size, size);
            &&& lines.len() == 22
            &&& lines[2] == "  Disk number:   "@ + text::decimal(disk.number as nat)
            &&& lines[3] == "  Friendly name: "@ + disk.friendly_name@
            &&& lines[4] == "  Serial number: "@ + disk.serial_number->Some_0@
            &&& lines[5] == "  Reported size: "@ + size + " GB ("@ + text::decimal(
                disk.size_bytes as nat,
            ) + " bytes exact, per Get-Disk)"@
            &&& lines[7] == "                  ("@ + text::hex_byte(pattern) + "), in "@
                + text::decimal(chunk_size as nat) + "-byte chunks"@
            &&& lines[18] == "To proceed, type this disk's exact serial number and press Enter."@
        }),
{
}

/// What a confirmation asks for, step by step: the text of the disk's size; then,
/// with that text, the operator's line on an overwrite with zeros, a mebibyte at a
/// time; then a fresh inventory; and then it ends, bound or aborted. What cannot be
/// confirmed is aborted at once.
pub proof fn law_what_a_confirmation_asks_for(
    disks: Result<Vec<PhysicalDisk>, String>,
    disk_number: u32,
    events: Seq<ConfirmationEvent>,
)
    requires
        confirming(disks, disk_number, events),
    ensures
        ({
            let action = confirmed_so_far(disks, disk_number, events).1;
            &&& disks is Err ==> events.len() == 0 && action is Abort
            &&& disks matches Ok(all) ==> match overwrite_proposal(all@, disk_number) {
                Err(e) => events.len() == 0 && action == ConfirmationActionView::Abort(seq![e]),
                Ok(disk) => {
                    &&& events.len() == 0 ==> action == ConfirmationActionView::ShowSize(
                        disk.size_gb,
                    )
                    &&& events.len() == 1 ==> (events[0] matches ConfirmationEvent::Sized(size)
                        && action == ConfirmationActionView::Ask(
                        overwrite_prompt(disk, 0, 0x10_0000, size@),
                    ))
                    &&& events.len() == 2 ==> events[1] is Entered && action
                        == ConfirmationActionView::TakeInventory
                    &&& events.len() == 3 ==> events[2] is Inventory && (action is Finish || action
                        is Abort)
                },
            }
        }),
{
    reveal_with_fuel(confirming, 5);
    reveal_with_fuel(confirmed_so_far, 5);
    lemma_confirmation_stage(disks, disk_number, events);
}

/// How a confirmation ends: with the reason why nothing is bound, and that no data
/// was modified; or with the number, the serial number and the exact size of the
/// disk that was bound, and the pattern.
pub proof fn law_how_a_confirmation_ends(
    disk: PhysicalDisk,
    line: Seq<char>,
    fresh: Result<Vec<PhysicalDisk>, String>,
)
    requires
        plan::planned(disk) is Planned,
    ensures
        ({
            let end = confirmation_end(disk, plan::planned(disk), line, fresh);
            &&& fresh matches Err(e) ==> end == ConfirmationActionView::Abort(
                seq!["Could not re-verify target: fresh inventory unavailable: "@ + e@],
            )
            &&& fresh matches Ok(disks) ==> match plan::binding(
                disk,
                plan::planned(disk),
                line,
                disks@,
            ) {
                Err(reason) => end == ConfirmationActionView::Abort(
                    seq![
                        "Confirmation failed: "@ + reason,
                        "No data has been modified. Re-run the tool to try again."@,
                    ],
                ),
                Ok(bound) => bound.serial_number is Some && end == ConfirmationActionView::Finish(
                    seq![
                        "Confirmed and bound: disk "@ + text::decimal(disk.number as nat)
                            + " (serial "@ + disk.serial_number->Some_0@ + "), "@ + text::decimal(
                            disk.size_bytes as nat,
                        ) + " bytes, pattern "@ + "0x00"@ + "."@,
                        "No sanitization executor exists in this build -- nothing further will happen."@,
                    ],
                ),
            }
        }),
{
    reveal_strlit("0x00");
    assert(text::hex_byte(0u8) =~= "0x00"@);
    if fresh is Ok {
        plan::law_bound_operations_are_safe(disk, plan::planned(disk), line, fresh->Ok_0@);
        plan::law_which_disk_is_bound(disk, plan::planned(disk), line, fresh->Ok_0@, 0);
    }
}

/// A refusal names the disk that was asked for and passes on the reason: that the
/// disks are not known, that no disk is selected, that it cannot make the
/// transition, that its capacity is not trusted, or that it has no serial number.
pub proof fn law_refusals_pass_on_the_reason(
    disks: Seq<PhysicalDisk>,
    disk_number: u32,
    target_offline: bool,
    e: String,
)
    ensures
        ({
            let id = text::decimal(disk_number as nat);
            &&& confirmation_begun(Err(e), disk_number) == (
                ConfirmationView::Ended,
                ConfirmationActionView::Abort(
                    seq![
                        "Cannot target disk "@ + id + ": disk information unavailable: "@ + e@,
                    ],
                ),
            )
            &&& eligibility::selection(disks, disk_number, None) matches Err(reason) ==> {
                &&& transition_proposal(disks, disk_number, target_offline) == Err::<
                    Seq<Seq<char>>,
                    Seq<char>,
                >("Cannot target disk "@ + id + ": "@ + reason)
                &&& overwrite_proposal(disks, disk_number) == Err::<PhysicalDisk, Seq<char>>(
                    "Cannot target disk "@ + id + ": "@ + reason,
                )
            }
            &&& eligibility::selection(disks, disk_number, None) matches Ok(disk) ==> {
                &&& eligibility::transition_obstacle(disk, target_offline) matches Some(reason)
                    ==> transition_proposal(disks, disk_number, target_offline) == Err::<
                    Seq<Seq<char>>,
                    Seq<char>,
                >("Cannot transition disk "@ + id + ": "@ + reason)
                &&& plan::planned(disk) matches PlanView::PendingCapacityConfirmation(reason)
                    ==> overwrite_proposal(disks, disk_number) == Err::<PhysicalDisk, Seq<char>>(
                    "Cannot target disk "@ + id + ": capacity not trusted: "@ + reason,
                )
                &&& plan::planned(disk) is Planned && inventory::usable_serial(disk) is None
                    ==> overwrite_proposal(disks, disk_number) == Err::<PhysicalDisk, Seq<char>>(
                    "Disk "@ + id + " has no usable serial number and cannot be confirmed."@,
                )
            }
        }),
{
}

} // verus!
