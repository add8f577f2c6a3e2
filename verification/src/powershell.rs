//! The PowerShell commands that are run, and what their output means.
//!
//! A command counts as failed whenever it wrote to its error stream: a failing
//! provider exits with success and still prints an empty list, so its standard
//! output alone cannot tell "failed" from "nothing found".
use vstd::prelude::*;
use vstd::string::*;
use vstd::utf8::*;

use crate::inventory;
use crate::text;

verus! {

/// Where PowerShell is.
pub const POWERSHELL_PATH: &'static str = "C:\\Windows\\System32\\WindowsPowerShell\\v1.0\\powershell.exe";

/// Prints `True` exactly when the process is elevated, and else `False`.
pub const ELEVATION_CHECK: &'static str = "([Security.Principal.WindowsPrincipal][Security.Principal.WindowsIdentity]::GetCurrent()).IsInRole([Security.Principal.WindowsBuiltInRole]::Administrator)";

/// Makes PowerShell print UTF-8, so that its output can be decoded strictly.
pub const UTF8_PREFIX: &'static str = "[Console]::OutputEncoding=[Text.Encoding]::UTF8; $OutputEncoding=[Text.Encoding]::UTF8; ";

/// Lists the physical disks.
pub const DISKS_QUERY: &'static str = "$disks = @(Get-Disk | Select-Object Number,FriendlyName,SerialNumber,HealthStatus,\
OperationalStatus,IsBoot,IsSystem,@{N='SizeGB';E={[math]::Round($_.Size / 1GB, 2)}},Size,\
@{N='BusType';E={$_.BusType.ToString()}},@{N='MediaType';E={$_.MediaType.ToString()}},\
IsRemovable); \
ConvertTo-Json -InputObject $disks";

/// Lists the partitions of all disks.
pub const PARTITIONS_QUERY: &'static str = "$partitions = @(Get-Partition | \
Select-Object DiskNumber,DriveLetter,Type,AccessPaths); \
ConvertTo-Json -InputObject $partitions";

/// Lists the BitLocker volumes.
pub const BITLOCKER_QUERY: &'static str = "$volumes = @(Get-BitLockerVolume | Select-Object MountPoint,\
@{N='VolumeStatus';E={$_.VolumeStatus.ToString()}},\
@{N='ProtectionStatus';E={$_.ProtectionStatus.ToString()}},\
EncryptionPercentage,\
@{N='VolumeType';E={$_.VolumeType.ToString()}},\
CapacityGB); \
ConvertTo-Json -InputObject $volumes";

/// Lists the pagefiles that are in use and those that are configured. With an
/// automatically managed pagefile the second class reports nothing, so neither
/// is enough by itself.
pub const PAGEFILES_QUERY: &'static str = "$rows = @(); \
$rows += @(Get-CimInstance -ClassName Win32_PageFileUsage -ErrorAction Stop | \
ForEach-Object { [pscustomobject]@{Name=$_.Name; Source='in-use'} }); \
$rows += @(Get-CimInstance -ClassName Win32_PageFileSetting -ErrorAction Stop | \
ForEach-Object { [pscustomobject]@{Name=$_.Name; Source='configured'} }); \
ConvertTo-Json -InputObject @($rows)";

/// What [`PAGEFILES_QUERY`] asks about, as a message names it.
pub const PAGEFILES_SUBJECT: &'static str = "pagefile";

/// Reports whether hibernation is on, and the system volume.
pub const HIBERNATION_QUERY: &'static str = "$power = Get-ItemProperty -Path \
'HKLM:\\SYSTEM\\CurrentControlSet\\Control\\Power' -ErrorAction Stop; \
ConvertTo-Json -InputObject ([pscustomobject]@{\
HibernateEnabled=$power.HibernateEnabled; SystemDrive=$env:SystemDrive})";

/// What [`HIBERNATION_QUERY`] asks about, as a message names it.
pub const HIBERNATION_SUBJECT: &'static str = "hibernation";

/// Reports the crash dump configuration.
pub const CRASH_DUMP_QUERY: &'static str = "$crash = Get-ItemProperty -Path \
'HKLM:\\SYSTEM\\CurrentControlSet\\Control\\CrashControl' -ErrorAction Stop; \
ConvertTo-Json -InputObject ([pscustomobject]@{\
CrashDumpEnabled=$crash.CrashDumpEnabled; DumpFile=$crash.DumpFile; \
MinidumpDir=$crash.MinidumpDir; DedicatedDumpFile=$crash.DedicatedDumpFile})";

/// What [`CRASH_DUMP_QUERY`] asks about, as a message names it.
pub const CRASH_DUMP_SUBJECT: &'static str = "crash dump";

/// Lists the shadow copies.
pub const SHADOW_COPIES_QUERY: &'static str = "$shadows = @(Get-CimInstance -ClassName Win32_ShadowCopy -ErrorAction Stop | \
Select-Object ID,VolumeName); ConvertTo-Json -InputObject $shadows";

/// What [`SHADOW_COPIES_QUERY`] asks about, as a message names it.
pub const SHADOW_COPIES_SUBJECT: &'static str = "shadow copy";

/// The text to hand to PowerShell in order to run `command`.
pub fn powershell_command(command: &str) -> (r: String)
    ensures
        r@ == UTF8_PREFIX@ + command@,
{
    text::prefixed(UTF8_PREFIX, command)
}

/// The command that takes a disk offline or brings it online.
pub open spec fn transition_command_text(disk_number: u32, offline: bool) -> Seq<char> {
    "Set-Disk -Number "@ + text::decimal(disk_number as nat) + if offline {
        " -IsOffline $true"@
    } else {
        " -IsOffline $false"@
    }
}

/// The command that takes a disk offline or brings it online.
pub fn transition_command(disk_number: u32, offline: bool) -> (r: String)
    ensures
        r@ == transition_command_text(disk_number, offline),
{
    let flag = if offline {
        " -IsOffline $true"
    } else {
        " -IsOffline $false"
    };
    text::with_number("Set-Disk -Number ", disk_number as u64, flag)
}

// --- Output ------------------------------------------------------------------

/// What the standard output of a command says, or that it cannot be read.
pub open spec fn decoded_stdout(bytes: Seq<u8>) -> Result<Seq<char>, Seq<char>> {
    if valid_utf8(bytes) {
        Ok(text::trimmed(decode_utf8(bytes)))
    } else {
        Err("PowerShell produced output that was not valid UTF-8"@)
    }
}

/// The views of a text or of an error message.
pub open spec fn outcome(r: Result<String, String>) -> Result<Seq<char>, Seq<char>> {
    match r {
        Ok(s) => Ok(s@),
        Err(e) => Err(e@),
    }
}

/// Decodes what a command wrote to its standard output, without the white space
/// around it. A byte sequence that is not UTF-8 is an error and not repaired: a
/// repaired path could be taken for one on another disk.
pub fn decode_powershell_stdout(bytes: &[u8]) -> (r: Result<String, String>)
    ensures
        outcome(r) == decoded_stdout(bytes@),
{
    match std::str::from_utf8(bytes) {
        Ok(s) => Ok(text::trim(s).to_owned()),
        Err(_) => Err("PowerShell produced output that was not valid UTF-8".to_owned()),
    }
}

/// The text that a command wrote to its error stream.
pub open spec fn stderr_text(bytes: Seq<u8>) -> Seq<char> {
    if valid_utf8(bytes) {
        decode_utf8(bytes)
    } else {
        text::repaired_utf8(bytes)
    }
}

/// The failure that a text on the error stream reports: any, where it is not
/// blank. The message is passed on as it is, since it is the system's own
/// answer, such as that removable media cannot be taken offline.
pub open spec fn stderr_error(stderr: Seq<char>) -> Option<Seq<char>> {
    if text::trimmed(stderr).len() > 0 {
        Some("PowerShell error: "@ + text::trimmed(stderr))
    } else {
        None
    }
}

/// Whether the error stream of a command says anything.
pub fn judge_stderr(stderr: &str) -> (r: Result<(), String>)
    ensures
        match r {
            Ok(_) => stderr_error(stderr@) is None,
            Err(e) => stderr_error(stderr@) == Some(e@),
        },
{
    let message = text::trim(stderr);
    if !message.is_empty() {
        return Err(text::prefixed("PowerShell error: ", message));
    }
    Ok(())
}

/// What a command gave, by its decoded output and the text on its error stream:
/// an error where the output cannot be read, or where the error stream says
/// anything.
pub open spec fn guarded(
    stdout: Result<Seq<char>, Seq<char>>,
    stderr: Seq<char>,
) -> Result<Seq<char>, Seq<char>> {
    match (stdout, stderr_error(stderr)) {
        (Ok(_), Some(e)) => Err(e),
        _ => stdout,
    }
}

/// Lets a decoded output pass where the error stream says nothing.
pub fn guard_output(stdout: Result<String, String>, stderr: &str) -> (r: Result<String, String>)
    ensures
        outcome(r) == guarded(outcome(stdout), stderr@),
{
    match stdout {
        Err(e) => Err(e),
        Ok(s) => match judge_stderr(stderr) {
            Ok(_) => Ok(s),
            Err(e) => Err(e),
        },
    }
}

/// What a command gave, by what it wrote to its two streams.
pub open spec fn command_result(stdout: Seq<u8>, stderr: Seq<u8>) -> Result<
    Seq<char>,
    Seq<char>,
> {
    guarded(decoded_stdout(stdout), stderr_text(stderr))
}

/// What a read-only query printed, without the white space around it.
pub fn powershell_json(stdout: &[u8], stderr: &[u8]) -> (r: Result<String, String>)
    ensures
        outcome(r) == command_result(stdout@, stderr@),
{
    let decoded = decode_powershell_stdout(stdout);
    let message = text::decode_lossy(stderr);
    guard_output(decoded, message.as_str())
}

/// What an inventory query printed, if anything: no output at all means an
/// empty list.
pub fn inventory_json(stdout: &[u8], stderr: &[u8]) -> (r: Result<Option<String>, String>)
    ensures
        match r {
            Ok(Some(json)) => command_result(stdout@, stderr@) == Ok::<Seq<char>, Seq<char>>(
                json@,
            ) && json@.len() > 0,
            Ok(None) => command_result(stdout@, stderr@) matches Ok(s) && s.len() == 0,
            Err(e) => command_result(stdout@, stderr@) == Err::<Seq<char>, Seq<char>>(e@),
        },
{
    match powershell_json(stdout, stderr) {
        Ok(s) => if s.as_str().is_empty() {
            Ok(None)
        } else {
            Ok(Some(s))
        },
        Err(e) => Err(e),
    }
}

/// What a query on system usage gave: no output at all is a failure that left
/// no message, since such a query prints an empty list when it finds nothing.
pub open spec fn usage_result(stdout: Seq<u8>, stderr: Seq<u8>, subject: Seq<char>) -> Result<
    Seq<char>,
    Seq<char>,
> {
    match command_result(stdout, stderr) {
        Ok(s) => if s.len() == 0 {
            Err(subject + " query returned no output"@)
        } else {
            Ok(s)
        },
        Err(e) => Err(e),
    }
}

/// What a query on system usage printed. `subject` is what it asks about, as the
/// constant beside the query says.
pub fn usage_json(stdout: &[u8], stderr: &[u8], subject: &str) -> (r: Result<String, String>)
    ensures
        outcome(r) == usage_result(stdout@, stderr@, subject@),
{
    match powershell_json(stdout, stderr) {
        Ok(s) => if s.as_str().is_empty() {
            Err(text::prefixed(subject, " query returned no output"))
        } else {
            Ok(s)
        },
        Err(e) => Err(e),
    }
}

/// How taking a disk offline or bringing it online went, by what the command
/// wrote to its error stream.
pub fn transition_result(stderr: &[u8]) -> (r: Result<(), String>)
    ensures
        match r {
            Ok(_) => stderr_error(stderr_text(stderr@)) is None,
            Err(e) => stderr_error(stderr_text(stderr@)) == Some(e@),
        },
{
    let message = text::decode_lossy(stderr);
    judge_stderr(message.as_str())
}

/// A command that wrote something to its error stream has failed, whatever it
/// printed: a query then finds neither something nor nothing.
pub proof fn law_an_error_message_is_a_failure(
    stdout: Seq<u8>,
    stderr: Seq<u8>,
    subject: Seq<char>,
)
    requires
        text::trimmed(stderr_text(stderr)).len() > 0,
    ensures
        command_result(stdout, stderr) is Err,
        usage_result(stdout, stderr, subject) is Err,
        stderr_error(stderr_text(stderr)) is Some,
{
}

/// Output that is not UTF-8 is a failure.
pub proof fn law_undecodable_output_is_a_failure(
    stdout: Seq<u8>,
    stderr: Seq<u8>,
    subject: Seq<char>,
)
    requires
        !valid_utf8(stdout),
    ensures
        command_result(stdout, stderr) is Err,
        usage_result(stdout, stderr, subject) is Err,
{
}

// --- Elevation ---------------------------------------------------------------

/// What the answer of the elevation check means. `shown` is the answer as a
/// message shows it. Only the two answers are accepted; anything else is an
/// error, and no guess.
pub open spec fn elevation_answer(answer: Seq<char>, shown: Seq<char>) -> Result<
    bool,
    Seq<char>,
> {
    if answer == "True"@ {
        Ok(true)
    } else if answer == "False"@ {
        Ok(false)
    } else {
        Err("unexpected output from privilege check: "@ + shown)
    }
}

/// What the answer `answer`, which a message shows as `shown`, means.
pub fn judge_elevation(answer: &str, shown: &str) -> (r: Result<bool, String>)
    ensures
        match r {
            Ok(b) => elevation_answer(answer@, shown@) == Ok::<bool, Seq<char>>(b),
            Err(e) => elevation_answer(answer@, shown@) == Err::<bool, Seq<char>>(e@),
        },
{
    if text::same_text(answer, "True") {
        return Ok(true);
    }
    if text::same_text(answer, "False") {
        return Ok(false);
    }
    Err(text::prefixed("unexpected output from privilege check: ", shown))
}

/// What the output of the elevation check means.
pub open spec fn elevation(stdout: Seq<char>) -> Result<bool, Seq<char>> {
    elevation_answer(text::trimmed(stdout), text::quoted_text(text::trimmed(stdout)))
}

/// Reads the output of the elevation check.
pub fn parse_elevation_output(stdout: &str) -> (r: Result<bool, String>)
    ensures
        match r {
            Ok(b) => elevation(stdout@) == Ok::<bool, Seq<char>>(b),
            Err(e) => elevation(stdout@) == Err::<bool, Seq<char>>(e@),
        },
{
    let answer = text::trim(stdout);
    let shown = text::quote_text(answer);
    judge_elevation(answer, shown.as_str())
}

/// Whether the process is elevated, by what the elevation check wrote to its
/// two streams.
pub open spec fn elevation_result(stdout: Seq<u8>, stderr: Seq<u8>) -> Result<bool, Seq<char>> {
    match command_result(stdout, stderr) {
        Ok(s) => elevation(s),
        Err(e) => Err(e),
    }
}

/// Whether the process is elevated, by what the elevation check wrote to its
/// two streams.
pub fn is_elevated(stdout: &[u8], stderr: &[u8]) -> (r: Result<bool, String>)
    ensures
        match r {
            Ok(b) => elevation_result(stdout@, stderr@) == Ok::<bool, Seq<char>>(b),
            Err(e) => elevation_result(stdout@, stderr@) == Err::<bool, Seq<char>>(e@),
        },
{
    match powershell_json(stdout, stderr) {
        Ok(s) => parse_elevation_output(s.as_str()),
        Err(e) => Err(e),
    }
}

/// A process counts as elevated only where the check printed `True`, as UTF-8
/// and but for white space around it, and nothing on its error stream.
pub proof fn law_elevation_is_never_guessed(stdout: Seq<u8>, stderr: Seq<u8>)
    ensures
        elevation_result(stdout, stderr) == Ok::<bool, Seq<char>>(true) ==> {
            &&& valid_utf8(stdout)
            &&& text::trimmed(text::trimmed(decode_utf8(stdout))) == "True"@
            &&& text::trimmed(stderr_text(stderr)).len() == 0
        },
{
}

/// The lines that refuse to go on, where the process is not known to be
/// elevated.
pub open spec fn refusal_lines(elevated: Result<bool, String>) -> Option<Seq<Seq<char>>> {
    match elevated {
        Ok(true) => None,
        Ok(false) => Some(
            seq![
                "E-Waste must be run as Administrator."@,
                ""@,
                "It needs elevated privileges to inspect physical disks and BitLocker state."@,
                "Close this window, right-click your terminal (PowerShell or Windows Terminal),"@,
                "choose \"Run as administrator\", then run E-Waste again."@,
                ""@,
                "No disks have been inspected or changed."@,
            ],
        ),
        Err(e) => Some(
            seq![
                "E-Waste could not determine whether it is running with administrator privileges: "@
                    + e@,
                "Refusing to continue. No disks have been inspected or changed."@,
            ],
        ),
    }
}

/// Decides whether to go on: only a process that is known to be elevated does.
/// Otherwise these are the lines that say why not.
pub fn elevation_refusal(elevated: &Result<bool, String>) -> (r: Option<Vec<String>>)
    ensures
        r is None <==> *elevated == Ok::<bool, String>(true),
        refusal_lines(*elevated) == match r {
            Some(lines) => Some(text::texts(lines@)),
            None => None,
        },
{
    let mut lines: Vec<String> = Vec::new();
    match elevated {
        Ok(known) => {
            if *known {
                return None;
            }
            lines.push("E-Waste must be run as Administrator.".to_owned());
            lines.push("".to_owned());
            lines.push(
                "It needs elevated privileges to inspect physical disks and BitLocker state.".to_owned(),
            );
            lines.push(
                "Close this window, right-click your terminal (PowerShell or Windows Terminal),".to_owned(),
            );
            lines.push("choose \"Run as administrator\", then run E-Waste again.".to_owned());
            lines.push("".to_owned());
            lines.push("No disks have been inspected or changed.".to_owned());
        },
        Err(e) => {
            lines.push(
                text::prefixed(
                    "E-Waste could not determine whether it is running with administrator privileges: ",
                    e.as_str(),
                ),
            );
            lines.push(
                "Refusing to continue. No disks have been inspected or changed.".to_owned(),
            );
        },
    }
    assert(text::texts(lines@) =~= refusal_lines(*elevated)->Some_0);
    Some(lines)
}

// --- The path of this program ------------------------------------------------

/// The path of this program, given its text, if it has a form in UTF-8. A path
/// without one is an error and not repaired: a repaired path could be taken for
/// one on another disk.
pub fn exe_path_to_string(path: Option<&str>) -> (r: Result<String, String>)
    ensures
        outcome(r) == match inventory::optional_str(path) {
            Some(s) => Ok::<Seq<char>, Seq<char>>(s),
            None => Err("executable path is not valid UTF-8"@),
        },
{
    match path {
        Some(s) => Ok(s.to_owned()),
        None => Err("executable path is not valid UTF-8".to_owned()),
    }
}

// --- Laws --------------------------------------------------------------------

/// A command succeeds exactly when its output is UTF-8 and its error stream holds
/// white space alone; and then it gives its output without the white space around
/// it. A failure is named: output that cannot be read first, and else the text on
/// the error stream.
pub proof fn law_when_a_command_succeeds(stdout: Seq<u8>, stderr: Seq<u8>)
    ensures
        command_result(stdout, stderr) is Ok <==> valid_utf8(stdout) && text::blank(
            stderr_text(stderr),
        ),
        command_result(stdout, stderr) matches Ok(s) ==> s == text::trimmed(decode_utf8(stdout)),
        !valid_utf8(stdout) ==> command_result(stdout, stderr) == Err::<Seq<char>, Seq<char>>(
            "PowerShell produced output that was not valid UTF-8"@,
        ),
        valid_utf8(stdout) && !text::blank(stderr_text(stderr)) ==> command_result(stdout, stderr)
            == Err::<Seq<char>, Seq<char>>(
            "PowerShell error: "@ + text::trimmed(stderr_text(stderr)),
        ),
        valid_utf8(stderr) ==> stderr_text(stderr) == decode_utf8(stderr),
{
    text::lemma_trimmed_of_blank(stderr_text(stderr));
}

/// A query on system usage succeeds exactly when its command does and printed
/// anything but white space; one that printed nothing is named by its subject.
pub proof fn law_when_a_usage_query_succeeds(stdout: Seq<u8>, stderr: Seq<u8>, subject: Seq<char>)
    ensures
        usage_result(stdout, stderr, subject) is Ok <==> valid_utf8(stdout) && text::blank(
            stderr_text(stderr),
        ) && !text::blank(decode_utf8(stdout)),
        usage_result(stdout, stderr, subject) matches Ok(s) ==> s == text::trimmed(
            decode_utf8(stdout),
        ),
        valid_utf8(stdout) && text::blank(stderr_text(stderr)) && text::blank(decode_utf8(stdout))
            ==> usage_result(stdout, stderr, subject) == Err::<Seq<char>, Seq<char>>(
            subject + " query returned no output"@,
        ),
        command_result(stdout, stderr) is Err ==> usage_result(stdout, stderr, subject)
            == command_result(stdout, stderr),
{
    text::lemma_trimmed_of_blank(stderr_text(stderr));
    text::lemma_trimmed_of_blank(decode_utf8(stdout));
}

/// A transition succeeded exactly when its error stream holds white space alone.
pub proof fn law_when_a_transition_succeeded(stderr: Seq<char>)
    ensures
        stderr_error(stderr) is None <==> text::blank(stderr),
        !text::blank(stderr) ==> stderr_error(stderr) == Some(
            "PowerShell error: "@ + text::trimmed(stderr),
        ),
{
    text::lemma_trimmed_of_blank(stderr);
}

/// The elevation check answers exactly two words, with any white space around
/// them; any other answer is an error that shows it.
pub proof fn law_two_answers_on_elevation(before: Seq<char>, answer: Seq<char>, after: Seq<char>)
    requires
        text::blank(before),
        text::blank(after),
    ensures
        elevation(before + "True"@ + after) == Ok::<bool, Seq<char>>(true),
        elevation(before + "False"@ + after) == Ok::<bool, Seq<char>>(false),
        text::trimmed(answer) != "True"@ && text::trimmed(answer) != "False"@ ==> elevation(
            before + answer + after,
        ) == Err::<bool, Seq<char>>(
            "unexpected output from privilege check: "@ + text::quoted_text(text::trimmed(answer)),
        ),
{
    reveal_strlit("True");
    reveal_strlit("False");
    text::lemma_trimmed_ignores_padding(before, "True"@, after);
    text::lemma_trimmed_ignores_padding(before, "False"@, after);
    text::lemma_trimmed_ignores_padding(before, answer, after);
    assert(text::trimmed("True"@) == "True"@);
    assert(text::trimmed("False"@) == "False"@);
}

/// A process is known to be elevated exactly when the check's command succeeded
/// and printed `True`, and known not to be exactly when it printed `False`.
pub proof fn law_when_elevation_is_known(stdout: Seq<u8>, stderr: Seq<u8>)
    ensures
        elevation_result(stdout, stderr) == Ok::<bool, Seq<char>>(true) <==> valid_utf8(stdout)
            && text::blank(stderr_text(stderr)) && text::trimmed(decode_utf8(stdout)) == "True"@,
        elevation_result(stdout, stderr) == Ok::<bool, Seq<char>>(false) <==> valid_utf8(stdout)
            && text::blank(stderr_text(stderr)) && text::trimmed(decode_utf8(stdout)) == "False"@,
{
    reveal_strlit("True");
    reveal_strlit("False");
    law_when_a_command_succeeds(stdout, stderr);
    let s = decode_utf8(stdout);
    text::lemma_trimmed_edges(s);
    assert(text::trimmed(text::trimmed(s)) == text::trimmed(s));
    assert("True"@.len() != "False"@.len());
}

/// The command of a transition names the disk's number and the state to reach:
/// the same for no two disks and for no two states.
pub proof fn law_a_transition_names_disk_and_state(a: u32, b: u32, x: bool, y: bool)
    ensures
        transition_command_text(a, true) == "Set-Disk -Number "@ + text::decimal(a as nat)
            + " -IsOffline $true"@,
        transition_command_text(a, false) == "Set-Disk -Number "@ + text::decimal(a as nat)
            + " -IsOffline $false"@,
        transition_command_text(a, x) == transition_command_text(b, y) ==> a == b && x == y,
{
    reveal_strlit(" -IsOffline $true");
    reveal_strlit(" -IsOffline $false");
    let at = "Set-Disk -Number "@.len() as int;
    let p = transition_command_text(a, x);
    let q = transition_command_text(b, y);
    if p == q {
        let m = p.len() as int;
        if x != y {
            let on = if x {
                p
            } else {
                q
            };
            let off = if x {
                q
            } else {
                p
            };
            assert(on[m - 2] == 'u');
            assert(off[m - 2] == 's');
        }
        let da = text::decimal(a as nat);
        let db = text::decimal(b as nat);
        assert(da =~= p.subrange(at, at + da.len()));
        assert(db =~= q.subrange(at, at + db.len()));
        assert(da.len() == db.len());
        text::law_decimal_is_read_back(a);
        text::law_decimal_is_read_back(b);
    }
}

/// Bytes on the error stream that are not UTF-8 are repaired and not dropped.
pub proof fn law_broken_messages_are_repaired(stderr: Seq<u8>)
    requires
        !valid_utf8(stderr),
    ensures
        stderr_text(stderr) == text::repaired_utf8(stderr),
{
}

/// A refusal says that nothing was inspected or changed; and where it is not
/// known whether the process is elevated, why.
pub proof fn law_a_refusal_says_why(e: String)
    ensures
        refusal_lines(Ok(true)) is None,
        refusal_lines(Ok(false)) matches Some(lines) && lines.last()
            == "No disks have been inspected or changed."@,
        refusal_lines(Err(e)) matches Some(lines) && e@.is_suffix_of(lines[0]) && lines.last()
            == "Refusing to continue. No disks have been inspected or changed."@,
{
    let line = "E-Waste could not determine whether it is running with administrator privileges: "@
        + e@;
    assert(line.subrange(line.len() - e@.len(), line.len() as int) =~= e@);
}

} // verus!
