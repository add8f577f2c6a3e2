//! The command line.
use vstd::prelude::*;
use vstd::string::*;

use crate::text;

verus! {

/// Where `flag` stands first in the arguments from number `from` on.
pub open spec fn flag_position(args: Seq<String>, flag: Seq<char>, from: int) -> Option<int>
    decreases args.len() - from,
{
    if from < 0 || from >= args.len() {
        None
    } else if args[from]@ == flag {
        Some(from)
    } else {
        flag_position(args, flag, from + 1)
    }
}

/// The disk number that follows a flag, if it is one. `shown` is what follows
/// the flag as a message shows it.
pub open spec fn flag_value(flag: Seq<char>, value: Option<Seq<char>>, shown: Seq<char>) -> Result<
    u32,
    Seq<char>,
> {
    match value {
        None => Err(flag + " requires a disk number"@),
        Some(v) => match text::parsed_u32(v) {
            Some(n) => Ok(n),
            None => Err(flag + " value "@ + shown + " is not a valid disk number"@),
        },
    }
}

/// Reads the disk number that follows a flag. `shown` is what follows the flag
/// as a message shows it.
pub fn read_flag_value(flag: &str, value: Option<&str>, shown: &str) -> (r: Result<u32, String>)
    ensures
        match r {
            Ok(n) => flag_value(flag@, crate::inventory::optional_str(value), shown@) == Ok::<
                u32,
                Seq<char>,
            >(n),
            Err(e) => flag_value(flag@, crate::inventory::optional_str(value), shown@) == Err::<
                u32,
                Seq<char>,
            >(e@),
        },
{
    match value {
        None => Err(text::prefixed(flag, " requires a disk number")),
        Some(v) => match text::parse_u32(v) {
            Some(n) => Ok(n),
            None => {
                let mut e = text::enclosed(flag, " value ", shown);
                e.append(" is not a valid disk number");
                Err(e)
            },
        },
    }
}

/// The disk number that the arguments give by `flag`: none where the flag is
/// absent. The first occurrence decides.
pub open spec fn disk_number_arg(args: Seq<String>, flag: Seq<char>) -> Result<
    Option<u32>,
    Seq<char>,
> {
    match flag_position(args, flag, 0) {
        None => Ok(None),
        Some(at) => {
            let value = if at + 1 < args.len() {
                Some(args[at + 1]@)
            } else {
                None
            };
            let shown = match value {
                Some(v) => text::quoted_text(v),
                None => Seq::empty(),
            };
            match flag_value(flag, value, shown) {
                Ok(n) => Ok(Some(n)),
                Err(e) => Err(e),
            }
        },
    }
}

/// Reads a disk number given by `flag` from the arguments. The name of the
/// program may be among them: it is no flag.
pub fn parse_disk_number_arg(args: &[String], flag: &str) -> (r: Result<Option<u32>, String>)
    ensures
        match r {
            Ok(n) => disk_number_arg(args@, flag@) == Ok::<Option<u32>, Seq<char>>(n),
            Err(e) => disk_number_arg(args@, flag@) == Err::<Option<u32>, Seq<char>>(e@),
        },
{
    let mut i: usize = 0;
    while i < args.len()
        invariant
            i <= args.len(),
            flag_position(args@, flag@, 0) == flag_position(args@, flag@, i as int),
        decreases args.len() - i,
    {
        if text::same_text(args[i].as_str(), flag) {
            if i + 1 == args.len() {
                return match read_flag_value(flag, None, "") {
                    Ok(n) => Ok(Some(n)),
                    Err(e) => Err(e),
                };
            }
            let value = args[i + 1].as_str();
            let shown = text::quote_text(value);
            return match read_flag_value(flag, Some(value), shown.as_str()) {
                Ok(n) => Ok(Some(n)),
                Err(e) => Err(e),
            };
        }
        i += 1;
    }
    Ok(None)
}

/// The disk to overwrite, if the arguments name one.
pub fn parse_target_disk_arg(args: &[String]) -> (r: Result<Option<u32>, String>)
    ensures
        match r {
            Ok(n) => disk_number_arg(args@, "--target-disk"@) == Ok::<Option<u32>, Seq<char>>(n),
            Err(e) => disk_number_arg(args@, "--target-disk"@) == Err::<Option<u32>, Seq<char>>(
                e@,
            ),
        },
{
    parse_disk_number_arg(args, "--target-disk")
}

/// The disk to take offline, if the arguments name one.
pub fn parse_offline_disk_arg(args: &[String]) -> (r: Result<Option<u32>, String>)
    ensures
        match r {
            Ok(n) => disk_number_arg(args@, "--offline-disk"@) == Ok::<Option<u32>, Seq<char>>(n),
            Err(e) => disk_number_arg(args@, "--offline-disk"@) == Err::<Option<u32>, Seq<char>>(
                e@,
            ),
        },
{
    parse_disk_number_arg(args, "--offline-disk")
}

/// The disk to bring online, if the arguments name one.
pub fn parse_online_disk_arg(args: &[String]) -> (r: Result<Option<u32>, String>)
    ensures
        match r {
            Ok(n) => disk_number_arg(args@, "--online-disk"@) == Ok::<Option<u32>, Seq<char>>(n),
            Err(e) => disk_number_arg(args@, "--online-disk"@) == Err::<Option<u32>, Seq<char>>(
                e@,
            ),
        },
{
    parse_disk_number_arg(args, "--online-disk")
}

/// What a run is asked to do besides its report.
#[derive(Debug, Clone, Copy, PartialEq, Eq, Structural)]
pub enum Request {
    ReportOnly,
    Target(u32),
    Offline(u32),
    Online(u32),
}

/// The request that the arguments make. Each flag has to be well-formed by
/// itself, and at most one may be given.
pub open spec fn requested(args: Seq<String>) -> Result<Request, Seq<char>> {
    match (
        disk_number_arg(args, "--target-disk"@),
        disk_number_arg(args, "--offline-disk"@),
        disk_number_arg(args, "--online-disk"@),
    ) {
        (Err(e), _, _) => Err(e),
        (_, Err(e), _) => Err(e),
        (_, _, Err(e)) => Err(e),
        (Ok(None), Ok(None), Ok(None)) => Ok(Request::ReportOnly),
        (Ok(Some(n)), Ok(None), Ok(None)) => Ok(Request::Target(n)),
        (Ok(None), Ok(Some(n)), Ok(None)) => Ok(Request::Offline(n)),
        (Ok(None), Ok(None), Ok(Some(n))) => Ok(Request::Online(n)),
        _ => Err("Only one of --target-disk, --offline-disk, --online-disk may be given."@),
    }
}

/// Reads the request that the arguments make.
pub fn parse_request(args: &[String]) -> (r: Result<Request, String>)
    ensures
        match r {
            Ok(request) => requested(args@) == Ok::<Request, Seq<char>>(request),
            Err(e) => requested(args@) == Err::<Request, Seq<char>>(e@),
        },
{
    let target = match parse_target_disk_arg(args) {
        Ok(target) => target,
        Err(e) => {
            return Err(e);
        },
    };
    let offline = match parse_offline_disk_arg(args) {
        Ok(offline) => offline,
        Err(e) => {
            return Err(e);
        },
    };
    let online = match parse_online_disk_arg(args) {
        Ok(online) => online,
        Err(e) => {
            return Err(e);
        },
    };
    match (target, offline, online) {
        (None, None, None) => Ok(Request::ReportOnly),
        (Some(n), None, None) => Ok(Request::Target(n)),
        (None, Some(n), None) => Ok(Request::Offline(n)),
        (None, None, Some(n)) => Ok(Request::Online(n)),
        _ => Err(
            "Only one of --target-disk, --offline-disk, --online-disk may be given.".to_owned(),
        ),
    }
}

/// Arguments without a flag ask for nothing but the report.
pub proof fn law_no_flag_means_report_only(args: Seq<String>)
    requires
        forall|i: int|
            0 <= i < args.len() ==> (#[trigger] args[i])@ != "--target-disk"@ && args[i]@
                != "--offline-disk"@ && args[i]@ != "--online-disk"@,
    ensures
        requested(args) == Ok::<Request, Seq<char>>(Request::ReportOnly),
{
    lemma_absent(args, "--target-disk"@, 0);
    lemma_absent(args, "--offline-disk"@, 0);
    lemma_absent(args, "--online-disk"@, 0);
}

proof fn lemma_absent(args: Seq<String>, flag: Seq<char>, from: int)
    requires
        0 <= from,
        forall|i: int| 0 <= i < args.len() ==> (#[trigger] args[i])@ != flag,
    ensures
        flag_position(args, flag, from) is None,
    decreases args.len() - from,
{
    if from < args.len() {
        lemma_absent(args, flag, from + 1);
    }
}

/// A disk number written in decimal is read back.
pub proof fn law_a_written_number_is_read_back(args: Seq<String>, flag: Seq<char>, at: int, n: u32)
    requires
        flag_position(args, flag, 0) == Some(at),
        at + 1 < args.len(),
        args[at + 1]@ == text::decimal(n as nat),
    ensures
        disk_number_arg(args, flag) == Ok::<Option<u32>, Seq<char>>(Some(n)),
{
    text::law_decimal_is_read_back(n);
}

/// A flag is found where it stands first, and not found exactly where it does not
/// stand at all.
pub proof fn law_the_first_flag_counts(args: Seq<String>, flag: Seq<char>, at: int)
    ensures
        0 <= at < args.len() && args[at]@ == flag && (forall|k: int|
            0 <= k < at ==> (#[trigger] args[k])@ != flag) ==> flag_position(args, flag, 0)
            == Some(at),
        (forall|k: int| 0 <= k < args.len() ==> (#[trigger] args[k])@ != flag) ==> flag_position(
            args,
            flag,
            0,
        ) is None,
{
    if 0 <= at < args.len() && args[at]@ == flag && forall|k: int|
        0 <= k < at ==> (#[trigger] args[k])@ != flag {
        lemma_found(args, flag, 0, at);
    }
    if forall|k: int| 0 <= k < args.len() ==> (#[trigger] args[k])@ != flag {
        lemma_absent(args, flag, 0);
    }
}

proof fn lemma_found(args: Seq<String>, flag: Seq<char>, from: int, at: int)
    requires
        0 <= from <= at < args.len(),
        args[at]@ == flag,
        forall|k: int| from <= k < at ==> (#[trigger] args[k])@ != flag,
    ensures
        flag_position(args, flag, from) == Some(at),
    decreases at - from,
{
    if from < at {
        assert(args[from]@ != flag);
        lemma_found(args, flag, from + 1, at);
    }
}

/// What the argument behind the first occurrence of a flag gives: a number that
/// it spells, and else an error; the flag as the last argument is an error; and
/// later occurrences, what precedes the flag and what follows the number play no
/// part.
pub proof fn law_what_follows_a_flag_counts(args: Seq<String>, flag: Seq<char>, at: int)
    requires
        0 <= at < args.len(),
        args[at]@ == flag,
        forall|k: int| 0 <= k < at ==> (#[trigger] args[k])@ != flag,
    ensures
        at + 1 == args.len() ==> disk_number_arg(args, flag) == Err::<Option<u32>, Seq<char>>(
            flag + " requires a disk number"@,
        ),
        at + 1 < args.len() && text::parsed_u32(args[at + 1]@) is Some ==> disk_number_arg(
            args,
            flag,
        ) == Ok::<Option<u32>, Seq<char>>(text::parsed_u32(args[at + 1]@)),
        at + 1 < args.len() && text::parsed_u32(args[at + 1]@) is None ==> disk_number_arg(
            args,
            flag,
        ) == Err::<Option<u32>, Seq<char>>(
            flag + " value "@ + text::quoted_text(args[at + 1]@) + " is not a valid disk number"@,
        ),
{
    law_the_first_flag_counts(args, flag, at);
}

/// A request is made by one flag alone: each request exactly where its own flag
/// gives the number and the other two are absent. Two flags are refused, and a
/// flag that is malformed is refused whichever others there are.
pub proof fn law_one_flag_makes_a_request(args: Seq<String>, n: u32)
    ensures
        ({
            let target = disk_number_arg(args, "--target-disk"@);
            let offline = disk_number_arg(args, "--offline-disk"@);
            let online = disk_number_arg(args, "--online-disk"@);
            let none = Ok::<Option<u32>, Seq<char>>(None);
            let some = Ok::<Option<u32>, Seq<char>>(Some(n));
            &&& requested(args) == Ok::<Request, Seq<char>>(Request::Target(n)) <==> target == some
                && offline == none && online == none
            &&& requested(args) == Ok::<Request, Seq<char>>(Request::Offline(n)) <==> target
                == none && offline == some && online == none
            &&& requested(args) == Ok::<Request, Seq<char>>(Request::Online(n)) <==> target == none
                && offline == none && online == some
            &&& requested(args) == Ok::<Request, Seq<char>>(Request::ReportOnly) <==> target == none
                && offline == none && online == none
            &&& target matches Err(e) ==> requested(args) == Err::<Request, Seq<char>>(e)
            &&& target is Ok ==> (offline matches Err(e) ==> requested(args) == Err::<
                Request,
                Seq<char>,
            >(e))
            &&& target is Ok && offline is Ok ==> (online matches Err(e) ==> requested(args)
                == Err::<Request, Seq<char>>(e))
        }),
{
}

} // verus!
