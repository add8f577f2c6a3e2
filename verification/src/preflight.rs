//! The pre-flight: whether Windows is using a disk right now, and what else an
//! operator should know about it. It gathers evidence only.
use vstd::prelude::*;

verus! {

/// How a check came out, from the best to the worst. The order is the rule by
/// which a report is judged: `Blocked` dominates `Unknown`, and `Unknown`
/// dominates `Safe`.
#[derive(Debug, Clone, Copy, PartialEq, Eq, Ord, Structural)]
pub enum PreflightStatus {
    Safe,
    Unknown,
    Blocked,
}

impl PreflightStatus {
    /// The place of a status in the order.
    pub open spec fn rank(self) -> int {
        match self {
            PreflightStatus::Safe => 0,
            PreflightStatus::Unknown => 1,
            PreflightStatus::Blocked => 2,
        }
    }

    pub open spec fn name(self) -> Seq<char> {
        match self {
            PreflightStatus::Safe => "SAFE"@,
            PreflightStatus::Unknown => "UNKNOWN"@,
            PreflightStatus::Blocked => "BLOCKED"@,
        }
    }

    /// The word that a report shows.
    pub fn label(self) -> (r: &'static str)
        ensures
            r@ == self.name(),
    {
        match self {
            PreflightStatus::Safe => "SAFE",
            PreflightStatus::Unknown => "UNKNOWN",
            PreflightStatus::Blocked => "BLOCKED",
        }
    }
}

impl PartialOrd for PreflightStatus {
    fn partial_cmp(&self, other: &PreflightStatus) -> (r: Option<core::cmp::Ordering>) {
        if *self == *other {
            return Some(core::cmp::Ordering::Equal);
        }
        match (self, other) {
            (PreflightStatus::Safe, _) => Some(core::cmp::Ordering::Less),
            (_, PreflightStatus::Blocked) => Some(core::cmp::Ordering::Less),
            _ => Some(core::cmp::Ordering::Greater),
        }
    }
}

impl vstd::std_specs::cmp::PartialOrdSpecImpl for PreflightStatus {
    open spec fn obeys_partial_cmp_spec() -> bool {
        true
    }

    open spec fn partial_cmp_spec(&self, other: &PreflightStatus) -> Option<core::cmp::Ordering> {
        if self.rank() < other.rank() {
            Some(core::cmp::Ordering::Less)
        } else if self.rank() > other.rank() {
            Some(core::cmp::Ordering::Greater)
        } else {
            Some(core::cmp::Ordering::Equal)
        }
    }
}

/// What a finding is about.
#[derive(Debug, Clone, Copy, PartialEq, Eq, Structural)]
pub enum PreflightCheck {
    Pagefile,
    Hibernation,
    CrashDump,
    ShadowCopy,
    ExecutableLocation,
    MediaDetection,
    BitLockerProtection,
}

impl PreflightCheck {
    pub open spec fn name(self) -> Seq<char> {
        match self {
            PreflightCheck::Pagefile => "Pagefile"@,
            PreflightCheck::Hibernation => "Hibernation"@,
            PreflightCheck::CrashDump => "Crash Dump"@,
            PreflightCheck::ShadowCopy => "Shadow Copies"@,
            PreflightCheck::ExecutableLocation => "Executable Location"@,
            PreflightCheck::MediaDetection => "Media Detection"@,
            PreflightCheck::BitLockerProtection => "BitLocker Protection"@,
        }
    }

    /// The words that a report shows.
    pub fn label(self) -> (r: &'static str)
        ensures
            r@ == self.name(),
    {
        match self {
            PreflightCheck::Pagefile => "Pagefile",
            PreflightCheck::Hibernation => "Hibernation",
            PreflightCheck::CrashDump => "Crash Dump",
            PreflightCheck::ShadowCopy => "Shadow Copies",
            PreflightCheck::ExecutableLocation => "Executable Location",
            PreflightCheck::MediaDetection => "Media Detection",
            PreflightCheck::BitLockerProtection => "BitLocker Protection",
        }
    }
}

/// The outcome of one check.
#[derive(Debug)]
pub struct PreflightFinding {
    pub check: PreflightCheck,
    pub status: PreflightStatus,
    pub detail: String,
}

/// A finding, by what it says.
pub struct FindingView {
    pub check: PreflightCheck,
    pub status: PreflightStatus,
    pub detail: Seq<char>,
}

impl View for PreflightFinding {
    type V = FindingView;

    open spec fn view(&self) -> FindingView {
        FindingView { check: self.check, status: self.status, detail: self.detail@ }
    }
}

/// What the checks of one disk found, in order.
#[derive(Debug)]
pub struct PreflightReport {
    pub findings: Vec<PreflightFinding>,
}

impl View for PreflightReport {
    type V = Seq<FindingView>;

    open spec fn view(&self) -> Seq<FindingView> {
        self.findings@.map_values(|f: PreflightFinding| f@)
    }
}

/// Whether some finding has this status.
pub open spec fn some_finding(findings: Seq<FindingView>, status: PreflightStatus) -> bool {
    exists|i: int| 0 <= i < findings.len() && (#[trigger] findings[i]).status == status
}

/// The status of a report: that of its worst finding. A report without findings
/// is no evidence of safety.
pub open spec fn overall(findings: Seq<FindingView>) -> PreflightStatus {
    if some_finding(findings, PreflightStatus::Blocked) {
        PreflightStatus::Blocked
    } else if findings.len() == 0 || some_finding(findings, PreflightStatus::Unknown) {
        PreflightStatus::Unknown
    } else {
        PreflightStatus::Safe
    }
}

impl PreflightReport {
    /// The worst status of the findings, or `Unknown` where there are none.
    pub fn status(&self) -> (r: PreflightStatus)
        ensures
            r == overall(self@),
    {
        if self.findings.len() == 0 {
            return PreflightStatus::Unknown;
        }
        let mut worst = self.findings[0].status;
        let mut i: usize = 1;
        assert(self@[0].status == worst);
        while i < self.findings.len()
            invariant
                1 <= i <= self.findings.len(),
                exists|k: int| 0 <= k < i && (#[trigger] self@[k]).status == worst,
                forall|k: int| 0 <= k < i ==> (#[trigger] self@[k]).status.rank() <= worst.rank(),
            decreases self.findings.len() - i,
        {
            assert(self@[i as int].status == self.findings@[i as int].status);
            if worst < self.findings[i].status {
                worst = self.findings[i].status;
            }
            i += 1;
        }
        worst
    }
}

/// A report is `Safe` exactly when it has findings and all of them are.
pub proof fn law_safe_means_every_check_is_safe(findings: Seq<FindingView>)
    ensures
        overall(findings) == PreflightStatus::Safe <==> findings.len() > 0 && forall|i: int|
            0 <= i < findings.len() ==> (#[trigger] findings[i]).status == PreflightStatus::Safe,
{
    if findings.len() > 0 && overall(findings) != PreflightStatus::Safe {
        assert(some_finding(findings, PreflightStatus::Blocked) || some_finding(
            findings,
            PreflightStatus::Unknown,
        ));
    }
    if exists|i: int|
        0 <= i < findings.len() && (#[trigger] findings[i]).status != PreflightStatus::Safe {
        let i = choose|i: int|
            0 <= i < findings.len() && (#[trigger] findings[i]).status != PreflightStatus::Safe;
        assert(findings[i].status == PreflightStatus::Blocked || findings[i].status
            == PreflightStatus::Unknown);
    }
}

/// The status of a report is that of one of its findings, and none is worse.
pub proof fn law_the_worst_finding_decides(findings: Seq<FindingView>)
    requires
        findings.len() > 0,
    ensures
        some_finding(findings, overall(findings)),
        forall|i: int|
            0 <= i < findings.len() ==> (#[trigger] findings[i]).status.rank() <= overall(
                findings,
            ).rank(),
{
    assert(findings[0].status == PreflightStatus::Safe || findings[0].status
        == PreflightStatus::Unknown || findings[0].status == PreflightStatus::Blocked);
    assert forall|i: int| 0 <= i < findings.len() implies (#[trigger] findings[i]).status.rank()
        <= overall(findings).rank() by {
        assert(some_finding(findings, findings[i].status));
    }
}

/// One more check never makes a report better: what could not be answered is
/// not promoted by another check that passes.
pub proof fn law_another_finding_never_improves(findings: Seq<FindingView>, more: FindingView)
    requires
        findings.len() > 0,
    ensures
        overall(findings.push(more)).rank() >= overall(findings).rank(),
        overall(findings.push(more)).rank() >= more.status.rank(),
{
    let longer = findings.push(more);
    law_the_worst_finding_decides(findings);
    law_the_worst_finding_decides(longer);
    let i = choose|i: int|
        0 <= i < findings.len() && (#[trigger] findings[i]).status == overall(findings);
    assert(longer[i] == findings[i]);
    assert(longer[findings.len() as int] == more);
}

/// A finding with status `status` of the check `check`.
pub open spec fn finding(
    check: PreflightCheck,
    status: PreflightStatus,
    detail: Seq<char>,
) -> FindingView {
    FindingView { check, status, detail }
}

/// A check that cannot be answered.
pub fn unknown_finding(check: PreflightCheck, detail: String) -> (r: PreflightFinding)
    ensures
        r@ == finding(check, PreflightStatus::Unknown, detail@),
{
    PreflightFinding { check, status: PreflightStatus::Unknown, detail }
}

/// A check that found nothing against the disk.
pub fn safe_finding(check: PreflightCheck, detail: &str) -> (r: PreflightFinding)
    ensures
        r@ == finding(check, PreflightStatus::Safe, detail@),
{
    PreflightFinding { check, status: PreflightStatus::Safe, detail: detail.to_owned() }
}

/// A check that found something against the disk.
pub fn blocked_finding(check: PreflightCheck, detail: String) -> (r: PreflightFinding)
    ensures
        r@ == finding(check, PreflightStatus::Blocked, detail@),
{
    PreflightFinding { check, status: PreflightStatus::Blocked, detail }
}

/// A report is blocked exactly when one of its findings is, whatever the others
/// say; and unknown exactly when none is and one is unknown, or there is none at
/// all.
pub proof fn law_when_a_report_is_blocked(findings: Seq<FindingView>)
    ensures
        overall(findings) == PreflightStatus::Blocked <==> exists|i: int|
            0 <= i < findings.len() && (#[trigger] findings[i]).status == PreflightStatus::Blocked,
        overall(findings) == PreflightStatus::Unknown <==> findings.len() == 0 || {
            &&& exists|i: int|
                0 <= i < findings.len() && (#[trigger] findings[i]).status
                    == PreflightStatus::Unknown
            &&& forall|i: int|
                0 <= i < findings.len() ==> (#[trigger] findings[i]).status
                    != PreflightStatus::Blocked
        },
{
}

/// No two statuses and no two checks are shown by the same words.
pub proof fn law_words_tell_apart(
    a: PreflightStatus,
    b: PreflightStatus,
    x: PreflightCheck,
    y: PreflightCheck,
)
    ensures
        a.name() == b.name() ==> a == b,
        x.name() == y.name() ==> x == y,
{
    reveal_strlit("SAFE");
    reveal_strlit("UNKNOWN");
    reveal_strlit("BLOCKED");
    assert("UNKNOWN"@[0] != "BLOCKED"@[0]);
    lemma_length_of_words(x);
    lemma_length_of_words(y);
}

/// The words for the checks are all of different lengths.
proof fn lemma_length_of_words(x: PreflightCheck)
    ensures
        x.name().len() == match x {
            PreflightCheck::Pagefile => 8nat,
            PreflightCheck::Hibernation => 11,
            PreflightCheck::CrashDump => 10,
            PreflightCheck::ShadowCopy => 13,
            PreflightCheck::ExecutableLocation => 19,
            PreflightCheck::MediaDetection => 15,
            PreflightCheck::BitLockerProtection => 20,
        },
{
    reveal_strlit("Pagefile");
    reveal_strlit("Hibernation");
    reveal_strlit("Crash Dump");
    reveal_strlit("Shadow Copies");
    reveal_strlit("Executable Location");
    reveal_strlit("Media Detection");
    reveal_strlit("BitLocker Protection");
}

} // verus!
