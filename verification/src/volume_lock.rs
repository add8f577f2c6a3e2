//! The protocol with the process that holds volume locks.
//!
//! A volume lock lasts only as long as the process that holds it, so a helper
//! process takes the locks, confirms them, and stays alive during the whole
//! write. It is released by a line on its standard input, or by that pipe being
//! closed. Nothing here starts a process or reads a pipe: it says what to do
//! next and is told how that went.
use vstd::prelude::*;
use vstd::string::*;

use crate::text;

verus! {

/// How long to wait for the helper to confirm the locks, in seconds.
pub const LOCK_TIMEOUT_SECONDS: u64 = 10;

/// How long to wait for the helper to confirm the release and to exit, in
/// seconds.
pub const RELEASE_TIMEOUT_SECONDS: u64 = 10;

/// How long to sleep between two looks at whether the helper has exited, in
/// milliseconds.
pub const EXIT_POLL_MILLISECONDS: u64 = 20;

/// The line that asks the helper to release its locks.
pub const RELEASE_LINE: &'static str = "RELEASE";

/// Why no lock is held.
#[derive(Debug)]
pub enum LockError {
    Spawn(String),
    HelperExited { stderr: String },
    HelperReportedError(String),
    Timeout,
    UnexpectedMessage(String),
    Io(String),
}

/// A lock error, by what it says.
pub enum LockErrorView {
    Spawn(Seq<char>),
    HelperExited { stderr: Seq<char> },
    HelperReportedError(Seq<char>),
    Timeout,
    UnexpectedMessage(Seq<char>),
    Io(Seq<char>),
}

impl View for LockError {
    type V = LockErrorView;

    open spec fn view(&self) -> LockErrorView {
        match *self {
            LockError::Spawn(e) => LockErrorView::Spawn(e@),
            LockError::HelperExited { stderr } => LockErrorView::HelperExited { stderr: stderr@ },
            LockError::HelperReportedError(m) => LockErrorView::HelperReportedError(m@),
            LockError::Timeout => LockErrorView::Timeout,
            LockError::UnexpectedMessage(line) => LockErrorView::UnexpectedMessage(line@),
            LockError::Io(e) => LockErrorView::Io(e@),
        }
    }
}

impl LockErrorView {
    /// The error in words. `shown` is an unexpected line as a message shows it.
    pub open spec fn words(self, shown: Seq<char>) -> Seq<char> {
        match self {
            LockErrorView::Spawn(e) => "could not start volume-lock helper: "@ + e,
            LockErrorView::HelperExited {
                stderr,
            } => "volume-lock helper exited before confirming a lock"@ + if text::trimmed(
                stderr,
            ).len() == 0 {
                Seq::empty()
            } else {
                ": "@ + text::trimmed(stderr)
            },
            LockErrorView::HelperReportedError(m) => "volume-lock helper reported: "@ + m,
            LockErrorView::Timeout => "timed out waiting for the volume-lock helper"@,
            LockErrorView::UnexpectedMessage(_) => "volume-lock helper sent an unexpected message: "@
                + shown,
            LockErrorView::Io(e) => "I/O error talking to the volume-lock helper: "@ + e,
        }
    }

    /// The error in words, with an unexpected line shown as the `Debug` format
    /// shows it.
    pub open spec fn message(self) -> Seq<char> {
        self.words(
            match self {
                LockErrorView::UnexpectedMessage(line) => text::quoted_text(line),
                _ => Seq::empty(),
            },
        )
    }
}

impl LockError {
    /// The error in words. `shown` is an unexpected line as a message shows it.
    pub fn describe(&self, shown: &str) -> (r: String)
        ensures
            r@ == self@.words(shown@),
    {
        match self {
            LockError::Spawn(e) => text::prefixed("could not start volume-lock helper: ", e.as_str()),
            LockError::HelperExited { stderr } => {
                let said = text::trim(stderr.as_str());
                let mut out = "volume-lock helper exited before confirming a lock".to_owned();
                if !said.is_empty() {
                    out.append(text::prefixed(": ", said).as_str());
                }
                out
            },
            LockError::HelperReportedError(m) => text::prefixed("volume-lock helper reported: ", m.as_str()),
            LockError::Timeout => "timed out waiting for the volume-lock helper".to_owned(),
            LockError::UnexpectedMessage(_) => text::prefixed("volume-lock helper sent an unexpected message: ", shown),
            LockError::Io(e) => text::prefixed("I/O error talking to the volume-lock helper: ", e.as_str()),
        }
    }

    /// The error in words.
    pub fn message(&self) -> (r: String)
        ensures
            r@ == self@.message(),
    {
        match self {
            LockError::UnexpectedMessage(line) => {
                let shown = text::quote_text(line.as_str());
                self.describe(shown.as_str())
            },
            _ => self.describe(""),
        }
    }
}

/// How cleanly a helper was released. A caller has to combine it with the
/// outcome of the write before it decides what to report.
#[derive(Debug, Clone, Copy, PartialEq, Eq, Structural)]
pub enum LockLifecycle {
    /// The helper was signalled, confirmed the release and exited.
    CleanRelease,
    /// The helper was gone before it could be signalled.
    HelperAlreadyGone,
    /// The helper did not exit within the time to wait, and was killed.
    ReleaseTimedOut,
    /// The helper was signalled and exited, but never confirmed the release:
    /// whether it cleaned up is uncertain.
    ReleaseUnconfirmed,
}

// --- The helper's script -----------------------------------------------------

/// The script up to its array of drive letters.
pub const SCRIPT_HEAD: &'static str = r#"[Console]::OutputEncoding=[Text.Encoding]::UTF8; $OutputEncoding=[Text.Encoding]::UTF8;
$ErrorActionPreference = 'Stop'
try {
    Add-Type -Namespace EWaste -Name VolumeLock -MemberDefinition @'
[DllImport("kernel32.dll", SetLastError = true, CharSet = CharSet.Auto)]
public static extern Microsoft.Win32.SafeHandles.SafeFileHandle CreateFile(
    string lpFileName, uint dwDesiredAccess, uint dwShareMode,
    IntPtr lpSecurityAttributes, uint dwCreationDisposition,
    uint dwFlagsAndAttributes, IntPtr hTemplateFile);
[DllImport("kernel32.dll", SetLastError = true)]
public static extern bool DeviceIoControl(
    Microsoft.Win32.SafeHandles.SafeFileHandle hDevice, uint dwIoControlCode,
    IntPtr lpInBuffer, uint nInBufferSize, IntPtr lpOutBuffer, uint nOutBufferSize,
    out uint lpBytesReturned, IntPtr lpOverlapped);
'@

    $FSCTL_LOCK_VOLUME = [Convert]::ToUInt32("00090018", 16)
    $FSCTL_DISMOUNT_VOLUME = [Convert]::ToUInt32("00090020", 16)
    $GENERIC_READ = [Convert]::ToUInt32("80000000", 16)
    $GENERIC_WRITE = [Convert]::ToUInt32("40000000", 16)
    $FILE_SHARE_READ = [uint32]1
    $FILE_SHARE_WRITE = [uint32]2
    $OPEN_EXISTING = [uint32]3

    $letters = "#;

/// The script behind its array of drive letters.
pub const SCRIPT_TAIL: &'static str = r#"
    $handles = New-Object System.Collections.Generic.List[Microsoft.Win32.SafeHandles.SafeFileHandle]

    foreach ($letter in $letters) {
        $path = "\\.\${letter}:"
        $h = [EWaste.VolumeLock]::CreateFile($path, $GENERIC_READ -bor $GENERIC_WRITE, $FILE_SHARE_READ -bor $FILE_SHARE_WRITE, [IntPtr]::Zero, $OPEN_EXISTING, 0, [IntPtr]::Zero)
        if ($h.IsInvalid) {
            throw "open failed for ${letter}: Win32 error $([System.Runtime.InteropServices.Marshal]::GetLastWin32Error())"
        }
        $bytesReturned = 0
        $lockOk = [EWaste.VolumeLock]::DeviceIoControl($h, $FSCTL_LOCK_VOLUME, [IntPtr]::Zero, 0, [IntPtr]::Zero, 0, [ref]$bytesReturned, [IntPtr]::Zero)
        if (-not $lockOk) {
            $h.Dispose()
            throw "lock failed for ${letter}: Win32 error $([System.Runtime.InteropServices.Marshal]::GetLastWin32Error())"
        }
        $dismountOk = [EWaste.VolumeLock]::DeviceIoControl($h, $FSCTL_DISMOUNT_VOLUME, [IntPtr]::Zero, 0, [IntPtr]::Zero, 0, [ref]$bytesReturned, [IntPtr]::Zero)
        if (-not $dismountOk) {
            $h.Dispose()
            throw "dismount failed for ${letter}: Win32 error $([System.Runtime.InteropServices.Marshal]::GetLastWin32Error())"
        }
        $handles.Add($h)
    }

    Write-Output "LOCKED"
    [Console]::Out.Flush()

    $null = [Console]::In.ReadLine()

    foreach ($h in $handles) {
        if ($h -and -not $h.IsClosed) { $h.Dispose() }
    }
    Write-Output "RELEASED"
    [Console]::Out.Flush()
    exit 0
} catch {
    Write-Output "ERROR: $($_.Exception.Message)"
    [Console]::Out.Flush()
    if ($handles) {
        foreach ($h in $handles) {
            if ($h -and -not $h.IsClosed) { $h.Dispose() }
        }
    }
    exit 1
}
"#;

/// A drive letter as the script quotes it.
pub open spec fn quoted_letter(c: char) -> Seq<char> {
    seq!['\'', c, '\'']
}

/// The list of drive letters as the script writes it.
pub open spec fn letter_list(letters: Seq<char>) -> Seq<char> {
    text::joined(letters.map_values(|c: char| quoted_letter(c)), ","@)
}

/// The script for these drive letters.
pub open spec fn helper_script(letters: Seq<char>) -> Seq<char> {
    SCRIPT_HEAD@ + ("@("@ + letter_list(letters) + ")"@) + SCRIPT_TAIL@
}

/// The script that locks and dismounts the volumes with these drive letters,
/// reports so, and holds the locks until it is told to release them. The
/// letters are those that Windows reports for partitions.
pub fn build_helper_script(drive_letters: &[char]) -> (r: String)
    ensures
        r@ == helper_script(drive_letters@),
{
    let ghost expected = drive_letters@.map_values(|c: char| quoted_letter(c));
    let mut quoted: Vec<String> = Vec::new();
    let mut i: usize = 0;
    while i < drive_letters.len()
        invariant
            i <= drive_letters.len(),
            expected == drive_letters@.map_values(|c: char| quoted_letter(c)),
            text::texts(quoted@) == expected.take(i as int),
        decreases drive_letters.len() - i,
    {
        let mut one = String::new();
        one.push('\'');
        one.push(drive_letters[i]);
        one.push('\'');
        assert(one@ =~= quoted_letter(drive_letters@[i as int]));
        let ghost before = quoted@;
        quoted.push(one);
        assert(text::texts(quoted@) =~= text::texts(before).push(expected[i as int]));
        assert(expected.take(i + 1) =~= expected.take(i as int).push(expected[i as int]));
        i += 1;
    }
    assert(expected.take(i as int) =~= expected);
    let list = text::join(&quoted, ",");
    let array = text::enclosed("@(", list.as_str(), ")");
    text::enclosed(SCRIPT_HEAD, array.as_str(), SCRIPT_TAIL)
}

/// With letters alone for drive letters, the list holds nothing but letters,
/// quotes and commas: no drive letter ends its quotes.
pub proof fn law_letters_stay_quoted(letters: Seq<char>)
    requires
        forall|i: int| 0 <= i < letters.len() ==> text::ascii_letter(#[trigger] letters[i]),
    ensures
        forall|i: int|
            0 <= i < letter_list(letters).len() ==> text::ascii_letter(
                #[trigger] letter_list(letters)[i],
            ) || letter_list(letters)[i] == '\'' || letter_list(letters)[i] == ',',
    decreases letters.len(),
{
    let parts = letters.map_values(|c: char| quoted_letter(c));
    reveal_strlit(",");
    if letters.len() > 0 {
        law_letters_stay_quoted(letters.drop_last());
        assert(letters.drop_last().map_values(|c: char| quoted_letter(c)) =~= parts.drop_last());
        assert(parts.last() == quoted_letter(letters.last()));
        assert(text::ascii_letter(letters[letters.len() - 1]));
        let front = letter_list(letters.drop_last());
        if letters.len() > 1 {
            assert(letter_list(letters) == front + ","@ + parts.last());
            assert forall|i: int| 0 <= i < letter_list(letters).len() implies text::ascii_letter(
                #[trigger] letter_list(letters)[i],
            ) || letter_list(letters)[i] == '\'' || letter_list(letters)[i] == ',' by {
                if i < front.len() {
                    assert(letter_list(letters)[i] == front[i]);
                }
            }
        }
    }
}

/// The list of drive letters, character by character: every letter stands between
/// single quotes, four characters behind the letter before it, with a comma
/// between neighbours, and nothing follows the last.
pub proof fn law_every_letter_is_listed(letters: Seq<char>, k: int)
    ensures
        letters.len() == 0 ==> letter_list(letters).len() == 0,
        letters.len() > 0 ==> letter_list(letters).len() == 4 * letters.len() - 1,
        0 <= k < letters.len() ==> {
            &&& letter_list(letters)[4 * k] == '\''
            &&& letter_list(letters)[4 * k + 1] == letters[k]
            &&& letter_list(letters)[4 * k + 2] == '\''
        },
        0 <= k < letters.len() - 1 ==> letter_list(letters)[4 * k + 3] == ',',
    decreases letters.len(),
{
    reveal_strlit(",");
    let parts = letters.map_values(|c: char| quoted_letter(c));
    if letters.len() > 0 {
        let front = letters.drop_last();
        law_every_letter_is_listed(front, k);
        assert(front.map_values(|c: char| quoted_letter(c)) =~= parts.drop_last());
        assert(parts.last() == quoted_letter(letters.last()));
        if letters.len() > 1 {
            assert(letter_list(letters) == letter_list(front) + ","@ + parts.last());
        }
    }
}

/// Every drive letter stands in the script between single quotes, in its place
/// behind the script's head, and behind the array stands the script's tail.
pub proof fn law_every_letter_is_in_the_script(letters: Seq<char>, k: int)
    requires
        0 <= k < letters.len(),
    ensures
        ({
            let script = helper_script(letters);
            let at = SCRIPT_HEAD@.len() + 2 + 4 * k;
            &&& script.len() == SCRIPT_HEAD@.len() + 4 * letters.len() + 2 + SCRIPT_TAIL@.len()
            &&& script.take(SCRIPT_HEAD@.len() as int) == SCRIPT_HEAD@
            &&& script[at] == '\'' && script[at + 1] == letters[k] && script[at + 2] == '\''
            &&& script[at + 3] == if k + 1 < letters.len() {
                ','
            } else {
                ')'
            }
            &&& script.skip((SCRIPT_HEAD@.len() + 4 * letters.len() + 2) as int) == SCRIPT_TAIL@
        }),
{
    reveal_strlit("@(");
    reveal_strlit(")");
    law_every_letter_is_listed(letters, k);
    let script = helper_script(letters);
    let list = letter_list(letters);
    let head = SCRIPT_HEAD@.len() as int;
    assert(script.take(head) =~= SCRIPT_HEAD@);
    assert(script.skip(head + 4 * letters.len() + 2) =~= SCRIPT_TAIL@);
    assert(script[head + 2 + 4 * k] == list[4 * k]);
    assert(script[head + 3 + 4 * k] == list[4 * k + 1]);
    assert(script[head + 4 + 4 * k] == list[4 * k + 2]);
    if k + 1 < letters.len() {
        assert(script[head + 5 + 4 * k] == list[4 * k + 3]);
    }
}

/// No array begins in the script before that of the drive letters. The text of
/// the script's head stands here once more, since only a literal can be looked
/// into.
proof fn lemma_no_array_in_the_head(i: int)
    requires
        0 <= i < SCRIPT_HEAD@.len(),
        SCRIPT_HEAD@[i] == '@',
    ensures
        i + 1 < SCRIPT_HEAD@.len(),
        SCRIPT_HEAD@[i + 1] != '(',
{
    reveal_strlit(r#"[Console]::OutputEncoding=[Text.Encoding]::UTF8; $OutputEncoding=[Text.Encoding]::UTF8;
$ErrorActionPreference = 'Stop'
try {
    Add-Type -Namespace EWaste -Name VolumeLock -MemberDefinition @'
[DllImport("kernel32.dll", SetLastError = true, CharSet = CharSet.Auto)]
public static extern Microsoft.Win32.SafeHandles.SafeFileHandle CreateFile(
    string lpFileName, uint dwDesiredAccess, uint dwShareMode,
    IntPtr lpSecurityAttributes, uint dwCreationDisposition,
    uint dwFlagsAndAttributes, IntPtr hTemplateFile);
[DllImport("kernel32.dll", SetLastError = true)]
public static extern bool DeviceIoControl(
    Microsoft.Win32.SafeHandles.SafeFileHandle hDevice, uint dwIoControlCode,
    IntPtr lpInBuffer, uint nInBufferSize, IntPtr lpOutBuffer, uint nOutBufferSize,
    out uint lpBytesReturned, IntPtr lpOverlapped);
'@

    $FSCTL_LOCK_VOLUME = [Convert]::ToUInt32("00090018", 16)
    $FSCTL_DISMOUNT_VOLUME = [Convert]::ToUInt32("00090020", 16)
    $GENERIC_READ = [Convert]::ToUInt32("80000000", 16)
    $GENERIC_WRITE = [Convert]::ToUInt32("40000000", 16)
    $FILE_SHARE_READ = [uint32]1
    $FILE_SHARE_WRITE = [uint32]2
    $OPEN_EXISTING = [uint32]3

    $letters = "#);
}

/// Only the list of letters depends on the drive letters: the script is that
/// for no letters, with the first empty array in it replaced by the array of
/// the letters.
pub proof fn law_only_the_letter_list_changes(letters: Seq<char>)
    ensures
        ({
            let blank = helper_script(Seq::empty());
            let at = SCRIPT_HEAD@.len() as int;
            &&& blank.subrange(at, at + 3) == "@()"@
            &&& forall|i: int| 0 <= i < at ==> #[trigger] blank.subrange(i, i + 3) != "@()"@
            &&& helper_script(letters) == blank.take(at) + ("@("@ + letter_list(letters) + ")"@)
                + blank.skip(at + 3)
        }),
{
    let blank = helper_script(Seq::empty());
    let at = SCRIPT_HEAD@.len() as int;
    reveal_strlit("@(");
    reveal_strlit(")");
    reveal_strlit("@()");
    assert(letter_list(Seq::empty()) =~= Seq::empty());
    assert(blank.subrange(at, at + 3) =~= "@()"@);
    assert forall|i: int| 0 <= i < at implies #[trigger] blank.subrange(i, i + 3) != "@()"@ by {
        if blank.subrange(i, i + 3) == "@()"@ {
            assert(blank.subrange(i, i + 3)[0] == SCRIPT_HEAD@[i]);
            assert(blank.subrange(i, i + 3)[1] == blank[i + 1]);
            lemma_no_array_in_the_head(i);
            assert(blank[i + 1] == SCRIPT_HEAD@[i + 1]);
        }
    }
    assert(blank.take(at) =~= SCRIPT_HEAD@);
    assert(blank.skip(at + 3) =~= SCRIPT_TAIL@);
}

// --- The helper's life -------------------------------------------------------

/// Why a helper's exit is awaited.
#[derive(Debug, Clone, Copy, PartialEq, Eq, Structural)]
pub enum ExitReason {
    /// It could not be signalled.
    Unsignalled,
    /// It was signalled, but did not confirm the release.
    Unconfirmed,
    /// It confirmed the release.
    Confirmed,
}

/// Where a helper is in its life.
#[derive(Debug, Clone, Copy, PartialEq, Eq, Structural)]
pub enum HelperStage {
    /// It is being started.
    Starting,
    /// It runs; its first line is awaited.
    AwaitingLock,
    /// It did not answer in time and is being killed.
    Killing,
    /// It exited; what it wrote to its error stream is being read.
    Draining,
    /// It holds the locks.
    Held,
    /// It is being told to release them.
    Signalling,
    /// Its confirmation is awaited.
    AwaitingRelease,
    /// Its exit is awaited.
    AwaitingExit(ExitReason),
    /// It is of no further use.
    Gone,
}

/// Whether a process has exited, as far as can be told.
#[derive(Debug, Clone, Copy, PartialEq, Eq, Structural)]
pub enum ExitPoll {
    Exited,
    Running,
    Unknown,
}

/// A helper process, as far as the protocol goes.
#[derive(Debug)]
pub struct LockHelper {
    pub stage: HelperStage,
}

/// What to do next to acquire the locks.
#[derive(Debug)]
pub enum AcquireAction {
    /// Start PowerShell with this script.
    Spawn(String),
    /// Wait for the helper's first line.
    AwaitLine,
    /// Kill the helper.
    Kill,
    /// Read the helper's error stream to its end and collect the process.
    DrainAndReap,
    /// Stop: the locks are held, or this is why not.
    Finish(Result<(), LockError>),
}

/// An action, by what it says.
pub enum AcquireActionView {
    Spawn(Seq<char>),
    AwaitLine,
    Kill,
    DrainAndReap,
    Finish(Result<(), LockErrorView>),
}

impl View for AcquireAction {
    type V = AcquireActionView;

    open spec fn view(&self) -> AcquireActionView {
        match *self {
            AcquireAction::Spawn(script) => AcquireActionView::Spawn(script@),
            AcquireAction::AwaitLine => AcquireActionView::AwaitLine,
            AcquireAction::Kill => AcquireActionView::Kill,
            AcquireAction::DrainAndReap => AcquireActionView::DrainAndReap,
            AcquireAction::Finish(Ok(_)) => AcquireActionView::Finish(Ok(())),
            AcquireAction::Finish(Err(e)) => AcquireActionView::Finish(Err(e@)),
        }
    }
}

/// How the last action went.
#[derive(Debug)]
pub enum AcquireEvent {
    Spawned,
    SpawnFailed(String),
    Line(String),
    ReadFailed(String),
    TimedOut,
    /// The helper closed its output.
    Disconnected,
    Killed,
    /// What the helper had written to its error stream.
    Drained(String),
}

impl HelperStage {
    /// Whether `event` answers what an acquisition is waiting for.
    pub open spec fn acquires(self, event: AcquireEvent) -> bool {
        match event {
            AcquireEvent::Spawned => self is Starting,
            AcquireEvent::SpawnFailed(_) => self is Starting,
            AcquireEvent::Line(_) => self is AwaitingLock,
            AcquireEvent::ReadFailed(_) => self is AwaitingLock,
            AcquireEvent::TimedOut => self is AwaitingLock,
            AcquireEvent::Disconnected => self is AwaitingLock,
            AcquireEvent::Killed => self is Killing,
            AcquireEvent::Drained(_) => self is Draining,
        }
    }
}

/// What the first line of a helper means. There is one wait and no retry: a
/// line that is not part of the protocol is a failure.
pub open spec fn first_line(line: Seq<char>) -> Result<(), LockErrorView> {
    if line == "LOCKED"@ {
        Ok(())
    } else if "ERROR: "@.is_prefix_of(line) {
        Err(LockErrorView::HelperReportedError(line.skip("ERROR: "@.len() as int)))
    } else {
        Err(LockErrorView::UnexpectedMessage(line))
    }
}

/// Where an event of an acquisition leads, and what is asked for next.
pub open spec fn after_acquire(event: AcquireEvent) -> (HelperStage, AcquireActionView) {
    match event {
        AcquireEvent::Spawned => (HelperStage::AwaitingLock, AcquireActionView::AwaitLine),
        AcquireEvent::SpawnFailed(e) => (
            HelperStage::Gone,
            AcquireActionView::Finish(Err(LockErrorView::Spawn(e@))),
        ),
        AcquireEvent::Line(line) => (
            if first_line(line@) is Ok {
                HelperStage::Held
            } else {
                HelperStage::Gone
            },
            AcquireActionView::Finish(first_line(line@)),
        ),
        AcquireEvent::ReadFailed(e) => (
            HelperStage::Gone,
            AcquireActionView::Finish(Err(LockErrorView::Io(e@))),
        ),
        AcquireEvent::TimedOut => (HelperStage::Killing, AcquireActionView::Kill),
        AcquireEvent::Disconnected => (HelperStage::Draining, AcquireActionView::DrainAndReap),
        AcquireEvent::Killed => (
            HelperStage::Gone,
            AcquireActionView::Finish(Err(LockErrorView::Timeout)),
        ),
        AcquireEvent::Drained(stderr) => (
            HelperStage::Gone,
            AcquireActionView::Finish(Err(LockErrorView::HelperExited { stderr: stderr@ })),
        ),
    }
}

impl LockHelper {
    /// A helper that is to lock the volumes with these drive letters, and what
    /// to do first. There may be none: the helper then locks nothing and says
    /// that it is done.
    pub fn start(drive_letters: &[char]) -> (r: (LockHelper, AcquireAction))
        ensures
            r.0.stage == HelperStage::Starting,
            r.1@ == AcquireActionView::Spawn(helper_script(drive_letters@)),
    {
        (
            LockHelper { stage: HelperStage::Starting },
            AcquireAction::Spawn(build_helper_script(drive_letters)),
        )
    }

    /// Whether the helper still runs: not so as soon as it has exited, or as
    /// its state can no longer be told.
    pub fn is_alive(&self, poll: ExitPoll) -> (r: bool)
        ensures
            r == (poll == ExitPoll::Running),
    {
        matches!(poll, ExitPoll::Running)
    }
}

/// Takes one event of an acquisition and says what to do next.
pub fn acquire(helper: &mut LockHelper, event: AcquireEvent) -> (r: AcquireAction)
    requires
        old(helper).stage.acquires(event),
    ensures
        (final(helper).stage, r@) == after_acquire(event),
{
    match event {
        AcquireEvent::Spawned => {
            helper.stage = HelperStage::AwaitingLock;
            AcquireAction::AwaitLine
        },
        AcquireEvent::SpawnFailed(e) => {
            helper.stage = HelperStage::Gone;
            AcquireAction::Finish(Err(LockError::Spawn(e)))
        },
        AcquireEvent::Line(line) => {
            if text::same_text(line.as_str(), "LOCKED") {
                helper.stage = HelperStage::Held;
                return AcquireAction::Finish(Ok(()));
            }
            helper.stage = HelperStage::Gone;
            if text::starts_with(line.as_str(), "ERROR: ") {
                let reported = text::without_prefix(line.as_str(), "ERROR: ");
                return AcquireAction::Finish(Err(LockError::HelperReportedError(reported)));
            }
            AcquireAction::Finish(Err(LockError::UnexpectedMessage(line)))
        },
        AcquireEvent::ReadFailed(e) => {
            helper.stage = HelperStage::Gone;
            AcquireAction::Finish(Err(LockError::Io(e)))
        },
        AcquireEvent::TimedOut => {
            helper.stage = HelperStage::Killing;
            AcquireAction::Kill
        },
        AcquireEvent::Disconnected => {
            helper.stage = HelperStage::Draining;
            AcquireAction::DrainAndReap
        },
        AcquireEvent::Killed => {
            helper.stage = HelperStage::Gone;
            AcquireAction::Finish(Err(LockError::Timeout))
        },
        AcquireEvent::Drained(stderr) => {
            helper.stage = HelperStage::Gone;
            AcquireAction::Finish(Err(LockError::HelperExited { stderr }))
        },
    }
}

/// What to do next to release the locks.
#[derive(Debug, Clone, Copy, PartialEq, Eq, Structural)]
pub enum ReleaseAction {
    /// Write the release line to the helper and close the pipe, whether or not
    /// that worked. The time to wait runs from here.
    Signal,
    /// Wait for the helper's next line, as long as time is left.
    AwaitLine,
    /// Wait for the helper to exit, as long as time is left, step by step as
    /// [`wait_for_exit`] says.
    AwaitExit,
    /// Stop: the release went like this.
    Finish(LockLifecycle),
}

/// How writing the release line went. A helper without a pipe has had it closed
/// before, which tells it the same.
#[derive(Debug, Clone, Copy, PartialEq, Eq, Structural)]
pub enum SignalOutcome {
    NoPipe,
    Sent,
    Failed,
}

/// How the last action went.
#[derive(Debug)]
pub enum ReleaseEvent {
    Signalled(SignalOutcome),
    Line(String),
    ReadFailed,
    TimedOut,
    Disconnected,
    /// The helper exited.
    Exited,
    /// The time to wait ran out, and the helper was killed.
    Killed,
}

impl HelperStage {
    /// Whether `event` answers what a release is waiting for.
    pub open spec fn releases(self, event: ReleaseEvent) -> bool {
        match event {
            ReleaseEvent::Signalled(_) => self is Signalling,
            ReleaseEvent::Line(_) => self is AwaitingRelease,
            ReleaseEvent::ReadFailed => self is AwaitingRelease,
            ReleaseEvent::TimedOut => self is AwaitingRelease,
            ReleaseEvent::Disconnected => self is AwaitingRelease,
            ReleaseEvent::Exited => self is AwaitingExit,
            ReleaseEvent::Killed => self is AwaitingExit,
        }
    }
}

/// How a release went whose helper exited, by why the exit was awaited.
pub open spec fn lifecycle(reason: ExitReason) -> LockLifecycle {
    match reason {
        ExitReason::Unsignalled => LockLifecycle::HelperAlreadyGone,
        ExitReason::Unconfirmed => LockLifecycle::ReleaseUnconfirmed,
        ExitReason::Confirmed => LockLifecycle::CleanRelease,
    }
}

/// Where an event of a release leads, and what is asked for next.
pub open spec fn after_release(stage: HelperStage, event: ReleaseEvent) -> (
    HelperStage,
    ReleaseAction,
) {
    let unconfirmed = (
        HelperStage::AwaitingExit(ExitReason::Unconfirmed),
        ReleaseAction::AwaitExit,
    );
    match event {
        ReleaseEvent::Signalled(SignalOutcome::Failed) => (
            HelperStage::AwaitingExit(ExitReason::Unsignalled),
            ReleaseAction::AwaitExit,
        ),
        ReleaseEvent::Signalled(_) => (HelperStage::AwaitingRelease, ReleaseAction::AwaitLine),
        ReleaseEvent::Line(line) => if line@ == "RELEASED"@ {
            (HelperStage::AwaitingExit(ExitReason::Confirmed), ReleaseAction::AwaitExit)
        } else {
            (HelperStage::AwaitingRelease, ReleaseAction::AwaitLine)
        },
        ReleaseEvent::ReadFailed => unconfirmed,
        ReleaseEvent::TimedOut => unconfirmed,
        ReleaseEvent::Disconnected => unconfirmed,
        ReleaseEvent::Exited => (
            HelperStage::Gone,
            ReleaseAction::Finish(
                lifecycle(
                    match stage {
                        HelperStage::AwaitingExit(reason) => reason,
                        _ => ExitReason::Unconfirmed,
                    },
                ),
            ),
        ),
        ReleaseEvent::Killed => (
            HelperStage::Gone,
            ReleaseAction::Finish(LockLifecycle::ReleaseTimedOut),
        ),
    }
}

impl LockHelper {
    /// Begins to release the locks, and says what to do first.
    pub fn begin_release(&mut self) -> (r: ReleaseAction)
        requires
            old(self).stage is Held,
        ensures
            final(self).stage == HelperStage::Signalling,
            r == ReleaseAction::Signal,
    {
        self.stage = HelperStage::Signalling;
        ReleaseAction::Signal
    }
}

/// Takes one event of a release and says what to do next. A release works
/// whether or not the helper still runs.
pub fn release(helper: &mut LockHelper, event: ReleaseEvent) -> (r: ReleaseAction)
    requires
        old(helper).stage.releases(event),
    ensures
        (final(helper).stage, r) == after_release(old(helper).stage, event),
{
    match event {
        ReleaseEvent::Signalled(outcome) => {
            if outcome == SignalOutcome::Failed {
                helper.stage = HelperStage::AwaitingExit(ExitReason::Unsignalled);
                return ReleaseAction::AwaitExit;
            }
            helper.stage = HelperStage::AwaitingRelease;
            ReleaseAction::AwaitLine
        },
        ReleaseEvent::Line(line) => {
            if text::same_text(line.as_str(), "RELEASED") {
                helper.stage = HelperStage::AwaitingExit(ExitReason::Confirmed);
                return ReleaseAction::AwaitExit;
            }
            ReleaseAction::AwaitLine
        },
        ReleaseEvent::ReadFailed => {
            helper.stage = HelperStage::AwaitingExit(ExitReason::Unconfirmed);
            ReleaseAction::AwaitExit
        },
        ReleaseEvent::TimedOut => {
            helper.stage = HelperStage::AwaitingExit(ExitReason::Unconfirmed);
            ReleaseAction::AwaitExit
        },
        ReleaseEvent::Disconnected => {
            helper.stage = HelperStage::AwaitingExit(ExitReason::Unconfirmed);
            ReleaseAction::AwaitExit
        },
        ReleaseEvent::Exited => {
            let reason = match helper.stage {
                HelperStage::AwaitingExit(reason) => reason,
                _ => ExitReason::Unconfirmed,
            };
            helper.stage = HelperStage::Gone;
            match reason {
                ExitReason::Unsignalled => ReleaseAction::Finish(LockLifecycle::HelperAlreadyGone),
                ExitReason::Unconfirmed => ReleaseAction::Finish(
                    LockLifecycle::ReleaseUnconfirmed,
                ),
                ExitReason::Confirmed => ReleaseAction::Finish(LockLifecycle::CleanRelease),
            }
        },
        ReleaseEvent::Killed => {
            helper.stage = HelperStage::Gone;
            ReleaseAction::Finish(LockLifecycle::ReleaseTimedOut)
        },
    }
}

/// What to do next while a process is awaited.
#[derive(Debug, Clone, Copy, PartialEq, Eq, Structural)]
pub enum WaitStep {
    /// It exited.
    Exited,
    /// Time is up: kill it, collect it, and report that it did not exit.
    KillAndGiveUp,
    /// Sleep, and look again.
    Sleep,
}

/// How to go on awaiting a process: a process that has not exited, as far as
/// can be told, is awaited until time is up, and then killed.
pub open spec fn wait_step(poll: ExitPoll, time_is_up: bool) -> WaitStep {
    match poll {
        ExitPoll::Exited => WaitStep::Exited,
        _ => if time_is_up {
            WaitStep::KillAndGiveUp
        } else {
            WaitStep::Sleep
        },
    }
}

/// Decides how to go on awaiting a process, by whether it has exited and by
/// whether the time to wait is up. A process whose state cannot be told counts
/// as one that still runs: it is awaited, and killed when time is up.
pub fn wait_for_exit(poll: ExitPoll, time_is_up: bool) -> (r: WaitStep)
    ensures
        r == wait_step(poll, time_is_up),
{
    match poll {
        ExitPoll::Exited => WaitStep::Exited,
        _ => if time_is_up {
            WaitStep::KillAndGiveUp
        } else {
            WaitStep::Sleep
        },
    }
}

// --- Laws of the protocol ----------------------------------------------------

/// How a wait goes on after these looks at a process, each with whether time
/// was up: by the first that does not ask to look again.
pub open spec fn waited(looks: Seq<(ExitPoll, bool)>) -> WaitStep
    decreases looks.len(),
{
    if looks.len() == 0 {
        WaitStep::Sleep
    } else if wait_step(looks[0].0, looks[0].1) != WaitStep::Sleep {
        wait_step(looks[0].0, looks[0].1)
    } else {
        waited(looks.drop_first())
    }
}

/// A wait ends with the process exited, or killed because time was up; a
/// process that is never seen to exit is killed as soon as time is up, also
/// where its state cannot be told.
pub proof fn law_a_wait_ends_in_exit_or_kill(looks: Seq<(ExitPoll, bool)>)
    ensures
        waited(looks) == WaitStep::Exited ==> exists|i: int|
            0 <= i < looks.len() && (#[trigger] looks[i]).0 == ExitPoll::Exited,
        waited(looks) == WaitStep::KillAndGiveUp ==> exists|i: int|
            0 <= i < looks.len() && (#[trigger] looks[i]).1,
        (forall|i: int| 0 <= i < looks.len() ==> (#[trigger] looks[i]).0 != ExitPoll::Exited)
            ==> waited(looks) == if exists|i: int|
            0 <= i < looks.len() && (#[trigger] looks[i]).1 {
            WaitStep::KillAndGiveUp
        } else {
            WaitStep::Sleep
        },
    decreases looks.len(),
{
    if looks.len() > 0 && wait_step(looks[0].0, looks[0].1) == WaitStep::Sleep {
        let rest = looks.drop_first();
        law_a_wait_ends_in_exit_or_kill(rest);
        assert forall|i: int| 0 <= i < rest.len() implies #[trigger] rest[i] == looks[i + 1] by {}
        assert forall|i: int| 1 <= i < looks.len() implies #[trigger] looks[i] == rest[i - 1] by {}
    }
}

/// The stage that the events of an acquisition lead to.
pub open spec fn acquired(events: Seq<AcquireEvent>) -> HelperStage {
    if events.len() == 0 {
        HelperStage::Starting
    } else {
        after_acquire(events.last()).0
    }
}

/// Whether each event of an acquisition answers what it was waiting for.
pub open spec fn acquisition(events: Seq<AcquireEvent>) -> bool
    decreases events.len(),
{
    events.len() == 0 || {
        &&& acquisition(events.drop_last())
        &&& acquired(events.drop_last()).acquires(events.last())
    }
}

/// The locks are held exactly when the helper was started and its first line
/// confirmed them; and an acquisition takes at most three events.
pub proof fn law_locks_are_held_only_when_confirmed(events: Seq<AcquireEvent>)
    requires
        acquisition(events),
    ensures
        events.len() <= 3,
        acquired(events) == HelperStage::Held <==> {
            &&& events.len() == 2
            &&& events[0] is Spawned
            &&& events[1] matches AcquireEvent::Line(line) && line@ == "LOCKED"@
        },
{
    reveal_strlit("LOCKED");
    reveal_strlit("ERROR: ");
    reveal_with_fuel(acquisition, 5);
}

/// The stage that the events of a release lead to.
pub open spec fn released(events: Seq<ReleaseEvent>) -> HelperStage
    decreases events.len(),
{
    if events.len() == 0 {
        HelperStage::Signalling
    } else {
        after_release(released(events.drop_last()), events.last()).0
    }
}

/// Whether each event of a release answers what it was waiting for.
pub open spec fn releasing(events: Seq<ReleaseEvent>) -> bool
    decreases events.len(),
{
    events.len() == 0 || {
        &&& releasing(events.drop_last())
        &&& released(events.drop_last()).releases(events.last())
    }
}

/// How a release went, once its events have ended it.
pub open spec fn release_outcome(events: Seq<ReleaseEvent>) -> Option<LockLifecycle> {
    if events.len() == 0 {
        None
    } else {
        match after_release(released(events.drop_last()), events.last()).1 {
            ReleaseAction::Finish(outcome) => Some(outcome),
            _ => None,
        }
    }
}

/// Whether the helper confirmed the release.
pub open spec fn confirmed(events: Seq<ReleaseEvent>) -> bool {
    exists|i: int|
        0 <= i < events.len() && (#[trigger] events[i] matches ReleaseEvent::Line(line) && line@
            == "RELEASED"@)
}

/// What the stage of a release says of its events so far.
proof fn lemma_release_stage(events: Seq<ReleaseEvent>)
    requires
        releasing(events),
    ensures
        match released(events) {
            HelperStage::Signalling => events.len() == 0,
            HelperStage::AwaitingRelease => events.len() > 0 && !confirmed(events)
                && events[0] != ReleaseEvent::Signalled(SignalOutcome::Failed),
            HelperStage::AwaitingExit(ExitReason::Unsignalled) => events.len() > 0 && events[0]
                == ReleaseEvent::Signalled(SignalOutcome::Failed) && !confirmed(events),
            HelperStage::AwaitingExit(ExitReason::Unconfirmed) => events.len() > 0 && events[0]
                != ReleaseEvent::Signalled(SignalOutcome::Failed) && !confirmed(events),
            HelperStage::AwaitingExit(ExitReason::Confirmed) => events.len() > 0 && events[0]
                != ReleaseEvent::Signalled(SignalOutcome::Failed) && confirmed(events),
            HelperStage::Gone => events.len() > 0,
            _ => false,
        },
    decreases events.len(),
{
    if events.len() > 0 {
        let before = events.drop_last();
        lemma_release_stage(before);
        assert(confirmed(events) <==> confirmed(before) || (events.last() matches
            ReleaseEvent::Line(line) && line@ == "RELEASED"@)) by {
            if confirmed(before) {
                let i = choose|i: int|
                    0 <= i < before.len() && (#[trigger] before[i] matches ReleaseEvent::Line(line)
                        && line@ == "RELEASED"@);
                assert(events[i] == before[i]);
            }
            if confirmed(events) {
                let i = choose|i: int|
                    0 <= i < events.len() && (#[trigger] events[i] matches ReleaseEvent::Line(line)
                        && line@ == "RELEASED"@);
                if i < before.len() {
                    assert(before[i] == events[i]);
                }
            }
            if events.last() matches ReleaseEvent::Line(line) && line@ == "RELEASED"@ {
                assert(events[events.len() - 1] == events.last());
            }
        }
    }
}

/// How a release is reported follows from what happened: it timed out exactly
/// when the helper was killed because time ran out; and of a helper that exited,
/// it was clean exactly when the helper was signalled and confirmed it, the helper was gone
/// already exactly when it could not be signalled, and else it is unconfirmed.
pub proof fn law_release_is_reported_as_it_went(events: Seq<ReleaseEvent>)
    requires
        releasing(events),
        release_outcome(events) is Some,
    ensures
        events.last() is Exited || events.last() is Killed,
        release_outcome(events) == Some(
            if events.last() is Killed {
                LockLifecycle::ReleaseTimedOut
            } else if events[0] == ReleaseEvent::Signalled(SignalOutcome::Failed) {
                LockLifecycle::HelperAlreadyGone
            } else if confirmed(events) {
                LockLifecycle::CleanRelease
            } else {
                LockLifecycle::ReleaseUnconfirmed
            },
        ),
{
    let before = events.drop_last();
    lemma_release_stage(before);
    assert(confirmed(events) <==> confirmed(before)) by {
        if confirmed(before) {
            let i = choose|i: int|
                0 <= i < before.len() && (#[trigger] before[i] matches ReleaseEvent::Line(line)
                    && line@ == "RELEASED"@);
            assert(events[i] == before[i]);
        }
        if confirmed(events) {
            let i = choose|i: int|
                0 <= i < events.len() && (#[trigger] events[i] matches ReleaseEvent::Line(line)
                    && line@ == "RELEASED"@);
            assert(before[i] == events[i]);
        }
    }
}

/// What the first line says: that the locks are held exactly where it is
/// `LOCKED`; a message behind `ERROR: ` is passed on whole; and any other line
/// is reported as it came.
pub proof fn law_the_first_line_is_passed_on(line: Seq<char>, message: Seq<char>)
    ensures
        first_line(line) is Ok <==> line == "LOCKED"@,
        first_line("ERROR: "@ + message) == Err::<(), LockErrorView>(
            LockErrorView::HelperReportedError(message),
        ),
        line != "LOCKED"@ && !(exists|rest: Seq<char>| line == #[trigger] ("ERROR: "@ + rest))
            ==> first_line(line) == Err::<(), LockErrorView>(
            LockErrorView::UnexpectedMessage(line),
        ),
{
    reveal_strlit("LOCKED");
    reveal_strlit("ERROR: ");
    let prefix = "ERROR: "@;
    let whole = prefix + message;
    assert(whole[0] == 'E');
    assert(prefix =~= whole.subrange(0, prefix.len() as int));
    assert(whole.skip(prefix.len() as int) =~= message);
    if prefix.is_prefix_of(line) {
        assert(line =~= prefix + line.skip(prefix.len() as int));
    }
}

/// How an acquisition ended, once its events have ended it.
pub open spec fn acquire_outcome(events: Seq<AcquireEvent>) -> Option<Result<(), LockErrorView>> {
    if events.len() == 0 {
        None
    } else {
        match after_acquire(events.last()).1 {
            AcquireActionView::Finish(outcome) => Some(outcome),
            _ => None,
        }
    }
}

/// How an acquisition is reported follows from what happened: a helper that was
/// not started, a read that failed, and what an exited helper wrote are passed
/// on; a helper that was killed because time ran out is a timeout; and an
/// acquisition goes on only while the helper has been started and not answered,
/// or is being killed or drained.
pub proof fn law_an_acquisition_is_reported_as_it_went(events: Seq<AcquireEvent>)
    requires
        acquisition(events),
        events.len() > 0,
    ensures
        match events.last() {
            AcquireEvent::Spawned => acquire_outcome(events) is None && events.len() == 1,
            AcquireEvent::SpawnFailed(e) => acquire_outcome(events) == Some(
                Err::<(), LockErrorView>(LockErrorView::Spawn(e@)),
            ) && events.len() == 1,
            AcquireEvent::Line(line) => acquire_outcome(events) is Some && (acquire_outcome(
                events,
            ) == Some(Ok::<(), LockErrorView>(())) <==> line@ == "LOCKED"@) && events.len() == 2,
            AcquireEvent::ReadFailed(e) => acquire_outcome(events) == Some(
                Err::<(), LockErrorView>(LockErrorView::Io(e@)),
            ) && events.len() == 2,
            AcquireEvent::TimedOut => acquire_outcome(events) is None && events.len() == 2,
            AcquireEvent::Disconnected => acquire_outcome(events) is None && events.len() == 2,
            AcquireEvent::Killed => acquire_outcome(events) == Some(
                Err::<(), LockErrorView>(LockErrorView::Timeout),
            ) && events.len() == 3 && events[1] is TimedOut,
            AcquireEvent::Drained(stderr) => acquire_outcome(events) == Some(
                Err::<(), LockErrorView>((LockErrorView::HelperExited { stderr: stderr@ })),
            ) && events.len() == 3 && events[1] is Disconnected,
        },
        events.len() > 1 ==> events[0] is Spawned,
        after_acquire(events.last()).1 == AcquireActionView::AwaitLine <==> events.last() is Spawned,
        after_acquire(events.last()).1 == AcquireActionView::Kill <==> events.last() is TimedOut,
        after_acquire(events.last()).1 == AcquireActionView::DrainAndReap <==> events.last() is
            Disconnected,
{
    reveal_strlit("LOCKED");
    reveal_strlit("ERROR: ");
    reveal_with_fuel(acquisition, 5);
    law_locks_are_held_only_when_confirmed(events);
}

/// What a release does next, whatever it has done before: a line other than
/// `RELEASED` is passed over and the next one awaited; a helper that could not be
/// signalled, that confirmed, that fell silent or that closed its output is
/// awaited; and only its exit or its being killed ends the release.
pub proof fn law_what_a_release_asks_for(events: Seq<ReleaseEvent>)
    requires
        releasing(events),
        events.len() > 0,
    ensures
        ({
            let action = after_release(released(events.drop_last()), events.last()).1;
            match events.last() {
                ReleaseEvent::Signalled(outcome) => events.len() == 1 && (action
                    == ReleaseAction::AwaitExit <==> outcome == SignalOutcome::Failed) && (action
                    == ReleaseAction::AwaitLine <==> outcome != SignalOutcome::Failed),
                ReleaseEvent::Line(line) => (action == ReleaseAction::AwaitExit <==> line@
                    == "RELEASED"@) && (action == ReleaseAction::AwaitLine <==> line@
                    != "RELEASED"@),
                ReleaseEvent::ReadFailed => action == ReleaseAction::AwaitExit,
                ReleaseEvent::TimedOut => action == ReleaseAction::AwaitExit,
                ReleaseEvent::Disconnected => action == ReleaseAction::AwaitExit,
                ReleaseEvent::Exited => action is Finish,
                ReleaseEvent::Killed => action is Finish,
            }
        }),
        released(events) is AwaitingRelease <==> after_release(
            released(events.drop_last()),
            events.last(),
        ).1 == ReleaseAction::AwaitLine,
        released(events) is AwaitingExit <==> after_release(
            released(events.drop_last()),
            events.last(),
        ).1 == ReleaseAction::AwaitExit,
{
    lemma_release_stage(events.drop_last());
}

/// A single look at a process: it has exited exactly where it is seen to have,
/// also when time is up; and it is killed exactly where it is not and time is up.
pub proof fn law_one_look(poll: ExitPoll, time_is_up: bool)
    ensures
        wait_step(poll, time_is_up) == WaitStep::Exited <==> poll == ExitPoll::Exited,
        wait_step(poll, time_is_up) == WaitStep::KillAndGiveUp <==> poll != ExitPoll::Exited
            && time_is_up,
{
}

/// An error's message ends in what was said: the reason, the helper's own words,
/// or its unexpected line as it is shown. A helper that said nothing adds
/// nothing, and white space around its words is left out.
pub proof fn law_messages_end_in_what_was_said(said: Seq<char>, shown: Seq<char>)
    ensures
        said.is_suffix_of(LockErrorView::Spawn(said).words(shown)),
        said.is_suffix_of(LockErrorView::HelperReportedError(said).words(shown)),
        said.is_suffix_of(LockErrorView::Io(said).words(shown)),
        shown.is_suffix_of(LockErrorView::UnexpectedMessage(said).words(shown)),
        text::blank(said) ==> (LockErrorView::HelperExited { stderr: said }).words(shown)
            == "volume-lock helper exited before confirming a lock"@,
        !text::blank(said) ==> (LockErrorView::HelperExited { stderr: said }).words(shown)
            == "volume-lock helper exited before confirming a lock: "@ + text::trimmed(said),
{
    text::lemma_trimmed_of_blank(said);
    reveal_strlit("volume-lock helper exited before confirming a lock");
    reveal_strlit("volume-lock helper exited before confirming a lock: ");
    reveal_strlit(": ");
    let a = LockErrorView::Spawn(said).words(shown);
    let b = LockErrorView::HelperReportedError(said).words(shown);
    let c = LockErrorView::Io(said).words(shown);
    let d = LockErrorView::UnexpectedMessage(said).words(shown);
    assert(a.subrange(a.len() - said.len(), a.len() as int) =~= said);
    assert(b.subrange(b.len() - said.len(), b.len() as int) =~= said);
    assert(c.subrange(c.len() - said.len(), c.len() as int) =~= said);
    assert(d.subrange(d.len() - shown.len(), d.len() as int) =~= shown);
    let e = (LockErrorView::HelperExited { stderr: said }).words(shown);
    if text::blank(said) {
        assert(e =~= "volume-lock helper exited before confirming a lock"@);
    } else {
        assert(e =~= "volume-lock helper exited before confirming a lock: "@ + text::trimmed(said));
    }
}

/// The message on a line that is not part of the protocol shows the line as the
/// `Debug` format does; every other message is the error in words.
pub proof fn law_messages_quote_unexpected_lines(line: Seq<char>, e: LockErrorView)
    ensures
        LockErrorView::UnexpectedMessage(line).message()
            == "volume-lock helper sent an unexpected message: "@ + text::quoted_text(line),
        !(e is UnexpectedMessage) ==> e.message() == e.words(Seq::empty()),
{
}

} // verus!
