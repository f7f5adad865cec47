//! The host's command line, its files and its log.

use vstd::prelude::*;

use crate::text::{
    all_digits, decimal, decimals_stand_for_their_number, numeral_value, push_decimal, same_text,
};

verus! {

pub const DEFAULT_LISTEN_ADDRESS: &'static str = "0.0.0.0:8787";

pub const RAW_TUNNEL_FLAG: &'static str = "--debug-raw-tunnel";

pub const USAGE: &'static str = "usage: fetchline-host [--debug-raw-tunnel] [listen-address]";

/// How long the log may become before it is archived.
pub const MAX_LOG_FILE_BYTES: u64 = 5242880;

/// How many archives of the log are kept.
pub const LOG_HISTORY_FILES: u8 = 3;

/// How the host talks to the MCU.
#[derive(Clone, Copy, Debug, PartialEq, Eq, Structural)]
pub enum TransportMode {
    /// The MCU talks to the servos and takes commands.
    Controller,
    /// The host talks to the servos through the MCU's raw tunnel. For tests only.
    DebugRawTunnel,
}

/// The arguments that are listen addresses.
pub open spec fn listen_arguments(arguments: Seq<String>) -> Seq<Seq<char>>
    decreases arguments.len(),
{
    if arguments.len() == 0 {
        Seq::empty()
    } else if arguments.last()@ == RAW_TUNNEL_FLAG@ {
        listen_arguments(arguments.drop_last())
    } else {
        listen_arguments(arguments.drop_last()).push(arguments.last()@)
    }
}

/// The transport that the arguments select.
pub open spec fn selected_transport(arguments: Seq<String>) -> TransportMode {
    if exists|i: int| 0 <= i < arguments.len() && (#[trigger] arguments[i])@ == RAW_TUNNEL_FLAG@ {
        TransportMode::DebugRawTunnel
    } else {
        TransportMode::Controller
    }
}

/// The listen address and the transport that the arguments select; `None` where there is more than
/// one listen address.
pub open spec fn selected_options(arguments: Seq<String>) -> Option<(Seq<char>, TransportMode)> {
    let addresses = listen_arguments(arguments);
    if addresses.len() > 1 {
        None
    } else if addresses.len() == 1 {
        Some((addresses[0], selected_transport(arguments)))
    } else {
        Some((DEFAULT_LISTEN_ADDRESS@, selected_transport(arguments)))
    }
}

/// The listen address and the transport that the arguments select; where there is more than one
/// listen address, the text that explains the arguments.
pub fn startup_options(arguments: &Vec<String>) -> (options: Result<
    (String, TransportMode),
    &'static str,
>)
    ensures
        match options {
            Ok((address, transport)) => selected_options(arguments@) == Some((address@, transport)),
            Err(message) => selected_options(arguments@) is None && message@ == USAGE@,
        },
{
    let mut listen_address: Option<String> = None;
    let mut transport = TransportMode::Controller;
    let mut index: usize = 0;
    while index < arguments.len()
        invariant
            index <= arguments@.len(),
            transport == selected_transport(arguments@.take(index as int)),
            match listen_address {
                Some(address) => listen_arguments(arguments@.take(index as int))
                    == seq![address@],
                None => listen_arguments(arguments@.take(index as int)) == Seq::<
                    Seq<char>,
                >::empty(),
            },
        decreases arguments@.len() - index,
    {
        let argument = &arguments[index];
        let ghost before = arguments@.take(index as int);
        let ghost after = arguments@.take(index + 1);
        proof {
            assert(after.drop_last() =~= before);
            assert(after.last() == argument);
            if selected_transport(before) == TransportMode::DebugRawTunnel {
                let i = choose|i: int|
                    0 <= i < before.len() && (#[trigger] before[i])@ == RAW_TUNNEL_FLAG@;
                assert(after[i]@ == RAW_TUNNEL_FLAG@);
            }
            if selected_transport(after) == TransportMode::DebugRawTunnel {
                let i = choose|i: int|
                    0 <= i < after.len() && (#[trigger] after[i])@ == RAW_TUNNEL_FLAG@;
                assert(i < index ==> before[i]@ == RAW_TUNNEL_FLAG@);
            }
        }
        if same_text(argument.as_str(), RAW_TUNNEL_FLAG) {
            transport = TransportMode::DebugRawTunnel;
            proof {
                assert(after[index as int]@ == RAW_TUNNEL_FLAG@);
            }
        } else if listen_address.is_some() {
            proof {
                assert(listen_arguments(after).len() == 2);
                more_arguments_list_more_addresses(arguments@, index + 1);
            }
            return Err(USAGE);
        } else {
            listen_address = Some(argument.as_str().to_owned());
        }
        index += 1;
    }
    proof {
        assert(arguments@.take(arguments@.len() as int) =~= arguments@);
    }
    match listen_address {
        Some(address) => Ok((address, transport)),
        None => Ok((DEFAULT_LISTEN_ADDRESS.to_owned(), transport)),
    }
}

proof fn more_arguments_list_more_addresses(arguments: Seq<String>, count: int)
    requires
        0 <= count <= arguments.len(),
    ensures
        listen_arguments(arguments.take(count)).len() <= listen_arguments(arguments).len(),
    decreases arguments.len() - count,
{
    if count == arguments.len() {
        assert(arguments.take(count) =~= arguments);
    } else {
        assert(arguments.take(count + 1).drop_last() =~= arguments.take(count));
        more_arguments_list_more_addresses(arguments, count + 1);
    }
}

/// The directory below which a file of the host stands.
#[derive(Clone, Copy, Debug, PartialEq, Eq, Structural)]
pub enum PathBase {
    /// What the XDG variable for the kind of file names.
    Xdg,
    /// What `HOME` names.
    Home,
    /// The working directory.
    WorkingDirectory,
}

/// Where the log stands, given which variables name a directory: a base and a path below it.
pub fn host_log_path(xdg_state_home: bool, home: bool) -> (path: (PathBase, &'static str))
    ensures
        path.0 == chosen_base(xdg_state_home, home),
        path.1@ == match path.0 {
            PathBase::Xdg => "fetchline-host/fetchline-host.log"@,
            PathBase::Home => ".local/state/fetchline-host/fetchline-host.log"@,
            PathBase::WorkingDirectory => "fetchline-host.log"@,
        },
{
    if xdg_state_home {
        (PathBase::Xdg, "fetchline-host/fetchline-host.log")
    } else if home {
        (PathBase::Home, ".local/state/fetchline-host/fetchline-host.log")
    } else {
        (PathBase::WorkingDirectory, "fetchline-host.log")
    }
}

/// Where the configuration stands, given which variables name a directory: a base and a path below
/// it.
pub fn host_config_path(xdg_config_home: bool, home: bool) -> (path: (PathBase, &'static str))
    ensures
        path.0 == chosen_base(xdg_config_home, home),
        path.1@ == match path.0 {
            PathBase::Xdg => "fetchline-host/config.json"@,
            PathBase::Home => ".config/fetchline-host/config.json"@,
            PathBase::WorkingDirectory => "fetchline-host-config.json"@,
        },
{
    if xdg_config_home {
        (PathBase::Xdg, "fetchline-host/config.json")
    } else if home {
        (PathBase::Home, ".config/fetchline-host/config.json")
    } else {
        (PathBase::WorkingDirectory, "fetchline-host-config.json")
    }
}

/// The XDG variable comes before `HOME`, and the working directory last.
pub open spec fn chosen_base(xdg: bool, home: bool) -> PathBase {
    if xdg {
        PathBase::Xdg
    } else if home {
        PathBase::Home
    } else {
        PathBase::WorkingDirectory
    }
}

#[derive(Clone, Copy, Debug, PartialEq, Eq, Structural)]
pub enum LogLevel {
    Error,
    Warn,
    Info,
    Debug,
    Trace,
}

/// The level that a value of the environment variable selects.
pub open spec fn selected_level(value: Option<Seq<char>>) -> LogLevel {
    match value {
        Some(value) => if value == "debug"@ {
            LogLevel::Debug
        } else if value == "trace"@ {
            LogLevel::Trace
        } else if value == "warn"@ {
            LogLevel::Warn
        } else if value == "error"@ {
            LogLevel::Error
        } else {
            LogLevel::Info
        },
        None => LogLevel::Info,
    }
}

/// The level that the environment variable selects, where `None` stands for one that is not set.
pub fn log_level_from_environment(value: Option<&str>) -> (level: LogLevel)
    ensures
        level == selected_level(
            match value {
                Some(value) => Some(value@),
                None => None,
            },
        ),
{
    match value {
        Some(value) => if same_text(value, "debug") {
            LogLevel::Debug
        } else if same_text(value, "trace") {
            LogLevel::Trace
        } else if same_text(value, "warn") {
            LogLevel::Warn
        } else if same_text(value, "error") {
            LogLevel::Error
        } else {
            LogLevel::Info
        },
        None => LogLevel::Info,
    }
}

/// How verbose a level is.
pub open spec fn verbosity(level: LogLevel) -> int {
    match level {
        LogLevel::Error => 1,
        LogLevel::Warn => 2,
        LogLevel::Info => 3,
        LogLevel::Debug => 4,
        LogLevel::Trace => 5,
    }
}

fn verbosity_of(level: LogLevel) -> (number: u8)
    ensures
        number == verbosity(level),
{
    match level {
        LogLevel::Error => 1,
        LogLevel::Warn => 2,
        LogLevel::Info => 3,
        LogLevel::Debug => 4,
        LogLevel::Trace => 5,
    }
}

/// Tells whether a record of the given level is written while `max_level` is selected.
pub fn enabled(level: LogLevel, max_level: LogLevel) -> (enabled: bool)
    ensures
        enabled == (verbosity(level) <= verbosity(max_level)),
{
    verbosity_of(level) <= verbosity_of(max_level)
}

/// The name of a level in five columns.
pub open spec fn level_column(level: LogLevel) -> Seq<char> {
    match level {
        LogLevel::Error => "ERROR"@,
        LogLevel::Warn => "WARN "@,
        LogLevel::Info => "INFO "@,
        LogLevel::Debug => "DEBUG"@,
        LogLevel::Trace => "TRACE"@,
    }
}

/// The time of a record since the Unix epoch, in seconds and milliseconds.
pub open spec fn timestamp(time: Option<(u64, u32)>) -> Seq<char> {
    match time {
        Some((seconds, milliseconds)) => decimal(seconds as nat) + "."@ + padded(
            milliseconds as nat,
        ),
        None => "before-unix-epoch"@,
    }
}

/// A number in at least three digits.
pub open spec fn padded(value: nat) -> Seq<char> {
    if value < 10 {
        "00"@ + decimal(value)
    } else if value < 100 {
        "0"@ + decimal(value)
    } else {
        decimal(value)
    }
}

/// A line of the log.
pub open spec fn line_text(time: Option<(u64, u32)>, level: LogLevel, message: Seq<char>) -> Seq<
    char,
> {
    timestamp(time) + " "@ + level_column(level) + " "@ + message
}

/// A line of the log, where `time` is `None` for a clock that stands before the Unix epoch.
pub fn log_line(time: Option<(u64, u32)>, level: LogLevel, message: &str) -> (line: String)
    ensures
        line@ == line_text(time, level, message@),
{
    let mut line = String::new();
    match time {
        Some((seconds, milliseconds)) => {
            push_decimal(&mut line, seconds);
            line.append(".");
            if milliseconds < 10 {
                line.append("00");
            } else if milliseconds < 100 {
                line.append("0");
            }
            push_decimal(&mut line, milliseconds as u64);
        },
        None => {
            line.append("before-unix-epoch");
        },
    }
    proof {
        assert(line@ =~= timestamp(time));
    }
    line.append(" ");
    line.append(
        match level {
            LogLevel::Error => "ERROR",
            LogLevel::Warn => "WARN ",
            LogLevel::Info => "INFO ",
            LogLevel::Debug => "DEBUG",
            LogLevel::Trace => "TRACE",
        },
    );
    line.append(" ");
    line.append(message);
    line
}

/// Tells whether a log of the given length is archived before the next line.
pub fn log_is_full(length: u64) -> (full: bool)
    ensures
        full == (length >= MAX_LOG_FILE_BYTES),
{
    length >= MAX_LOG_FILE_BYTES
}

/// The extension of an archive of the log.
pub fn log_archive_extension(index: u8) -> (extension: String)
    ensures
        extension@ == "log."@ + decimal(index as nat),
{
    let mut extension = "log.".to_owned();
    push_decimal(&mut extension, index as u64);
    extension
}

/// A log is renamed to an archive, or an archive to the next one. The number 0 stands for the log.
#[derive(Clone, Copy, Debug, PartialEq, Eq, Structural)]
pub struct Rename {
    pub from: u8,
    pub to: u8,
}

/// The renames that archive the log, where `existing` tells which archives other than the last one
/// exist: each archive makes room for its successor, starting with the oldest.
pub open spec fn rotation(existing: Seq<bool>) -> Seq<Rename> {
    shifts(existing, existing.len() as int).push(Rename { from: 0, to: 1 })
}

/// The renames of the archives from `top` down to the first.
pub open spec fn shifts(existing: Seq<bool>, top: int) -> Seq<Rename>
    decreases top,
{
    if top <= 0 {
        Seq::empty()
    } else if existing[top - 1] {
        seq![Rename { from: top as u8, to: (top + 1) as u8 }] + shifts(existing, top - 1)
    } else {
        shifts(existing, top - 1)
    }
}

/// The renames that archive the log, where `existing` tells which archives other than the last one
/// exist.
pub fn rotate_log_file(existing: [bool; 2]) -> (renames: Vec<Rename>)
    ensures
        renames@ == rotation(existing@),
{
    let mut renames: Vec<Rename> = Vec::new();
    let mut index: u8 = LOG_HISTORY_FILES - 1;
    proof {
        assert(shifts(existing@, 2) =~= renames@ + shifts(existing@, 2));
    }
    while index > 0
        invariant
            index <= 2,
            shifts(existing@, 2) == renames@ + shifts(existing@, index as int),
        decreases index,
    {
        let ghost before = renames@;
        if existing[index as usize - 1] {
            renames.push(Rename { from: index, to: index + 1 });
        }
        proof {
            assert(before + shifts(existing@, index as int) =~= renames@ + shifts(
                existing@,
                index - 1,
            ));
        }
        index -= 1;
    }
    proof {
        assert(renames@ + shifts(existing@, 0) =~= renames@);
    }
    renames.push(Rename { from: 0, to: 1 });
    renames
}

/// The files after one of them was renamed.
pub open spec fn renamed(files: Map<u8, Seq<u8>>, rename: Rename) -> Map<u8, Seq<u8>> {
    files.insert(rename.to, files[rename.from]).remove(rename.from)
}

/// The files after some renames.
pub open spec fn all_renamed(files: Map<u8, Seq<u8>>, renames: Seq<Rename>) -> Map<u8, Seq<u8>>
    decreases renames.len(),
{
    if renames.len() == 0 {
        files
    } else {
        all_renamed(renamed(files, renames[0]), renames.drop_first())
    }
}

/// Archiving loses nothing but the oldest archive: the log becomes the first archive, the first
/// one the second, and the second one the third. An archive that has no successor stays, and none
/// beyond the third is made.
pub proof fn rotation_keeps_recent_archives(files: Map<u8, Seq<u8>>, existing: Seq<bool>)
    requires
        existing.len() == 2,
        files.contains_key(0),
        existing[0] == files.contains_key(1),
        existing[1] == files.contains_key(2),
    ensures
        ({
            let after = all_renamed(files, rotation(existing));
            &&& !after.contains_key(0)
            &&& after.contains_key(1) && after[1] == files[0]
            &&& files.contains_key(1) ==> after.contains_key(2) && after[2] == files[1]
            &&& files.contains_key(2) ==> after.contains_key(3) && after[3] == files[2]
            &&& !files.contains_key(2) && files.contains_key(3) ==> after.contains_key(3)
                && after[3] == files[3]
            &&& forall|i: u8|
                i > LOG_HISTORY_FILES && #[trigger] after.contains_key(i) ==> files.contains_key(i)
        }),
{
    reveal_with_fuel(shifts, 3);
    reveal_with_fuel(all_renamed, 4);
    let second = Rename { from: 2, to: 3 };
    let first = Rename { from: 1, to: 2 };
    let live = Rename { from: 0, to: 1 };
    if existing[1] && existing[0] {
        assert(rotation(existing) =~= seq![second, first, live]);
        assert(seq![second, first, live].drop_first() =~= seq![first, live]);
        assert(seq![first, live].drop_first() =~= seq![live]);
    } else if existing[1] {
        assert(rotation(existing) =~= seq![second, live]);
        assert(seq![second, live].drop_first() =~= seq![live]);
    } else if existing[0] {
        assert(rotation(existing) =~= seq![first, live]);
        assert(seq![first, live].drop_first() =~= seq![live]);
    } else {
        assert(rotation(existing) =~= seq![live]);
    }
    assert(seq![live].drop_first() =~= Seq::<Rename>::empty());
}

/// Each argument but the flag is a listen address, in order; the flag, wherever it stands, selects
/// the raw tunnel, and nothing else does.
pub proof fn arguments_are_taken_one_by_one(arguments: Seq<String>, more: String)
    ensures
        listen_arguments(Seq::empty()) == Seq::<Seq<char>>::empty(),
        selected_transport(Seq::empty()) == TransportMode::Controller,
        more@ == "--debug-raw-tunnel"@ ==> listen_arguments(arguments.push(more))
            == listen_arguments(arguments) && selected_transport(arguments.push(more))
            == TransportMode::DebugRawTunnel,
        more@ != "--debug-raw-tunnel"@ ==> listen_arguments(arguments.push(more))
            == listen_arguments(arguments).push(more@) && selected_transport(arguments.push(more))
            == selected_transport(arguments),
{
    let all = arguments.push(more);
    assert(all.drop_last() =~= arguments);
    assert(all.last() == more);
    assert(all[arguments.len() as int] == more);
    if selected_transport(arguments) == TransportMode::DebugRawTunnel {
        let i = choose|i: int|
            0 <= i < arguments.len() && (#[trigger] arguments[i])@ == RAW_TUNNEL_FLAG@;
        assert(all[i] == arguments[i]);
    }
    if selected_transport(all) == TransportMode::DebugRawTunnel {
        let i = choose|i: int| 0 <= i < all.len() && (#[trigger] all[i])@ == RAW_TUNNEL_FLAG@;
        if i < arguments.len() {
            assert(arguments[i] == all[i]);
        }
    }
}

/// A time is shown as its seconds, a point and three digits of milliseconds.
pub proof fn times_are_shown_in_digits(seconds: u64, milliseconds: u32) -> (point: int)
    requires
        milliseconds < 1000,
    ensures
        ({
            let text = timestamp(Some((seconds, milliseconds)));
            let whole = text.take(point);
            let part = text.skip(point + 1);
            &&& 0 <= point < text.len() && text[point] == '.'
            &&& all_digits(whole) && numeral_value(whole) == seconds
            &&& part.len() == 3 && all_digits(part) && numeral_value(part) == milliseconds
        }),
        timestamp(None) == "before-unix-epoch"@,
{
    let text = timestamp(Some((seconds, milliseconds)));
    let point = decimal(seconds as nat).len() as int;
    let part = padded(milliseconds as nat);
    let digits = decimal(milliseconds as nat);
    reveal_strlit(".");
    reveal_strlit("0");
    reveal_strlit("00");
    decimals_stand_for_their_number(seconds as nat);
    decimals_stand_for_their_number(milliseconds as nat);
    assert(text.take(point) =~= decimal(seconds as nat));
    assert(text.skip(point + 1) =~= part);
    reveal_with_fuel(decimal, 4);
    zeros_in_front_change_nothing(digits);
    zeros_in_front_change_nothing(seq!['0'] + digits);
    if milliseconds < 10 {
        assert(part =~= seq!['0'] + (seq!['0'] + digits));
    } else if milliseconds < 100 {
        assert(part =~= seq!['0'] + digits);
    }
    point
}

proof fn zeros_in_front_change_nothing(digits: Seq<char>)
    ensures
        numeral_value(seq!['0'] + digits) == numeral_value(digits),
    decreases digits.len(),
{
    let longer = seq!['0'] + digits;
    if digits.len() > 0 {
        zeros_in_front_change_nothing(digits.drop_last());
        assert(longer.drop_last() =~= seq!['0'] + digits.drop_last());
        assert(longer.last() == digits.last());
    } else {
        assert(longer.drop_last() =~= digits);
        assert(longer.last() == '0');
    }
}

/// Four words select their level; anything else, or nothing, selects the one in the middle.
pub proof fn levels_are_selected_by_their_name(value: Seq<char>)
    ensures
        selected_level(None) == LogLevel::Info,
        selected_level(Some("error"@)) == LogLevel::Error,
        selected_level(Some("warn"@)) == LogLevel::Warn,
        selected_level(Some("debug"@)) == LogLevel::Debug,
        selected_level(Some("trace"@)) == LogLevel::Trace,
        value != "error"@ && value != "warn"@ && value != "debug"@ && value != "trace"@
            <==> selected_level(Some(value)) == LogLevel::Info,
{
    reveal_strlit("error");
    reveal_strlit("warn");
    reveal_strlit("debug");
    reveal_strlit("trace");
    assert("error"@[0] == 'e' && "warn"@[0] == 'w' && "debug"@[0] == 'd' && "trace"@[0] == 't');
}

/// Levels are ordered from errors to traces, and shown by their names in five columns.
pub proof fn levels_are_ordered_and_named(level: LogLevel)
    ensures
        verbosity(LogLevel::Error) < verbosity(LogLevel::Warn) < verbosity(LogLevel::Info)
            < verbosity(LogLevel::Debug) < verbosity(LogLevel::Trace),
        level_column(level).len() == 5,
        level_column(level) == match level {
            LogLevel::Error => "ERROR"@,
            LogLevel::Warn => "WARN "@,
            LogLevel::Info => "INFO "@,
            LogLevel::Debug => "DEBUG"@,
            LogLevel::Trace => "TRACE"@,
        },
{
    reveal_strlit("ERROR");
    reveal_strlit("WARN ");
    reveal_strlit("INFO ");
    reveal_strlit("DEBUG");
    reveal_strlit("TRACE");
}

/// The XDG variable wins over `HOME`, and the working directory is used without either.
pub proof fn files_stand_below_the_first_directory(xdg: bool, home: bool)
    ensures
        chosen_base(xdg, home) == PathBase::Xdg <==> xdg,
        chosen_base(xdg, home) == PathBase::Home <==> home && !xdg,
        chosen_base(xdg, home) == PathBase::WorkingDirectory <==> !home && !xdg,
{
}

/// Without a listen address the host listens on port 8787 of every interface; with one it listens
/// there; more than one are refused, whatever the transport.
pub proof fn at_most_one_address_is_listened_on(arguments: Seq<String>)
    ensures
        ({
            let addresses = listen_arguments(arguments);
            match selected_options(arguments) {
                Some((address, transport)) => transport == selected_transport(arguments) && (
                addresses == seq![address] || addresses == Seq::<Seq<char>>::empty() && address
                    == "0.0.0.0:8787"@),
                None => addresses.len() >= 2,
            }
        }),
{
    let addresses = listen_arguments(arguments);
    if addresses.len() == 1 {
        assert(addresses =~= seq![addresses[0]]);
    } else if addresses.len() == 0 {
        assert(addresses =~= Seq::<Seq<char>>::empty());
    }
}

/// A line of the log ends with the message, and has the time and the level before it.
pub proof fn lines_end_with_their_message(
    time: Option<(u64, u32)>,
    level: LogLevel,
    message: Seq<char>,
)
    ensures
        ({
            let line = line_text(time, level, message);
            let start = line.len() - message.len();
            &&& start == timestamp(time).len() + 7
            &&& line.skip(start) == message
            &&& line[start - 1] == ' '
            &&& line.subrange(start - 6, start - 1) == level_column(level)
            &&& line[start - 7] == ' '
            &&& line.take(start - 7) == timestamp(time)
        }),
{
    reveal_strlit(" ");
    levels_are_ordered_and_named(level);
    let line = line_text(time, level, message);
    let start = line.len() - message.len();
    assert(line.skip(start) =~= message);
    assert(line.subrange(start - 6, start - 1) =~= level_column(level));
    assert(line.take(start - 7) =~= timestamp(time));
}

} // verus!
