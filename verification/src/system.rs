//! What the daemon learns of the system it runs on, and how it is told to run
//! and to stop.

use crate::outside::{lossy_text, lowercase_of, utf8_lossy};
use crate::text::{
    after_first, is_ascii_text, join2, lower_ascii, occurs, split_after,
    split_comes_after_the_first_mark, split_is_an_end_behind_a_mark, strip_end,
    text_occurs_as_a_piece, trim, trimmed,
};
use vstd::prelude::*;
use vstd::utf8::{decode_utf8, valid_utf8};

verus! {

// ---- Stopping -----------------------------------------------------------

/// Whether the daemon was told to stop.
#[derive(Debug)]
pub struct StopFlag {
    pub stop: bool,
}

impl StopFlag {
    /// Not told to stop.
    pub fn new() -> (r: Self)
        ensures
            !r.stop,
    {
        StopFlag { stop: false }
    }
}

/// Tells the daemon to stop.
pub fn request_stop(flag: &mut StopFlag)
    ensures
        final(flag).stop,
{
    flag.stop = true;
}

/// Whether the daemon was told to stop.
pub fn should_stop(flag: &StopFlag) -> (r: bool)
    ensures
        r == flag.stop,
{
    flag.stop
}

// ---- Starting -----------------------------------------------------------

/// What the program was started for.
#[derive(Debug, Clone, Copy, PartialEq, Eq, Structural)]
pub enum Command {
    Install,
    Uninstall,
    Start,
    Stop,
    Version,
    Run,
}

/// What the first argument asks for. Anything unknown starts the daemon, as no
/// argument does.
pub fn command(argument: Option<&str>) -> (r: Command)
    ensures
        r == (match argument {
            Some(word) => if word@ == "install"@ {
                Command::Install
            } else if word@ == "uninstall"@ {
                Command::Uninstall
            } else if word@ == "start"@ {
                Command::Start
            } else if word@ == "stop"@ {
                Command::Stop
            } else if word@ == "version"@ || word@ == "--version"@ {
                Command::Version
            } else {
                Command::Run
            },
            None => Command::Run,
        }),
{
    match argument {
        Some(word) => {
            let word = word.to_owned();
            if word == "install".to_owned() {
                Command::Install
            } else if word == "uninstall".to_owned() {
                Command::Uninstall
            } else if word == "start".to_owned() {
                Command::Start
            } else if word == "stop".to_owned() {
                Command::Stop
            } else if word == "version".to_owned() || word == "--version".to_owned() {
                Command::Version
            } else {
                Command::Run
            }
        },
        None => Command::Run,
    }
}

// ---- Version of the system ----------------------------------------------

/// The version number in what the command `ver` prints, such as
/// `Microsoft Windows [Version 10.0.22631.4317]`; empty where it has none.
pub open spec fn version_number(banner: Seq<char>) -> Seq<char> {
    match after_first(trimmed(banner), "[Version "@) {
        Some(rest) => if rest.len() > 0 && rest.last() == ']' {
            rest.drop_last()
        } else {
            Seq::empty()
        },
        None => Seq::empty(),
    }
}

/// The name and version of the system, from what the command `ver` printed.
pub open spec fn system_name(banner: Seq<char>) -> Seq<char> {
    if version_number(banner).len() == 0 {
        "Windows"@
    } else {
        "Windows "@ + version_number(banner)
    }
}

/// The name and version of the system, from what the command `ver` printed.
pub fn os_version_of(banner: &str) -> (r: String)
    ensures
        r@ == system_name(banner@),
{
    let text = trim(banner);
    if let Some(rest) = split_after(&text, "[Version ") {
        if let Some(version) = strip_end(&rest, ']') {
            if !version.as_str().is_empty() {
                return join2("Windows ", &version);
            }
        }
    }
    "Windows".to_owned()
}

/// The name and version of the system, from the bytes that the command `ver`
/// printed, or from nothing where it could not be run.
pub fn detect_os_version(output: Option<Vec<u8>>) -> (r: String)
    ensures
        r@ == (match output {
            Some(bytes) => system_name(lossy_text(bytes@)),
            None => "Windows"@,
        }),
        output matches Some(bytes) ==> valid_utf8(bytes@) ==> r@ == system_name(
            decode_utf8(bytes@),
        ),
{
    match output {
        Some(bytes) => os_version_of(&utf8_lossy(bytes.as_slice())),
        None => "Windows".to_owned(),
    }
}

// ---- Logging ------------------------------------------------------------

/// The directory that holds the log directory.
#[derive(Debug, Clone, Copy, PartialEq, Eq, Structural)]
pub enum LogBase {
    /// What the variable `ProgramData` names.
    ProgramData,
    /// `DEFAULT_PROGRAM_DATA`.
    DefaultProgramData,
    /// What the variable `LOCALAPPDATA` names.
    LocalAppData,
    /// The user's directory for local data.
    DataLocalDir,
    /// The current directory.
    Current,
}

/// The directory for program data, where no variable names it.
pub const DEFAULT_PROGRAM_DATA: &'static str = "C:\\ProgramData";

/// The log directory, in the base directory.
pub const LOG_DIR: &'static str = "Hashnet\\Logs";

/// The name of the log file.
pub const LOG_FILE: &'static str = "csid.log";

/// The log levels, where no variable sets them.
pub const DEFAULT_LOG_FILTER: &'static str = "csid=info,csi_core=info,warn";

/// The account that services run under, in lower case.
pub const SYSTEM_ACCOUNT: &'static str = "system";

/// Whether a user name in lower case is that of the account that services run
/// under.
pub fn is_system_account(lowered_user: &str) -> (r: bool)
    ensures
        r == (lowered_user@ == SYSTEM_ACCOUNT@),
        r <==> lowered_user@ == "system"@,
{
    lowered_user.to_owned() == SYSTEM_ACCOUNT.to_owned()
}

/// Whether the daemon runs as LocalSystem: the service manager started it, or
/// the user has that account's name, whatever its case.
pub fn is_local_system(by_service_manager: bool, user: Option<&str>) -> (r: bool)
    ensures
        r <==> by_service_manager || user is Some && lowercase_of(user->0@) == SYSTEM_ACCOUNT@,
        user matches Some(user) ==> is_ascii_text(user@) ==> (r <==> by_service_manager
            || lower_ascii(user@) == SYSTEM_ACCOUNT@),
{
    match user {
        Some(user) => by_service_manager || is_system_account(&user.to_lowercase()),
        None => by_service_manager,
    }
}

/// Where the log goes.
pub open spec fn log_base_for(
    local_system: bool,
    has_program_data: bool,
    has_local_app_data: bool,
    has_data_local_dir: bool,
) -> LogBase {
    if !has_program_data && !has_local_app_data {
        LogBase::Current
    } else if local_system {
        if has_program_data {
            LogBase::ProgramData
        } else {
            LogBase::DefaultProgramData
        }
    } else if has_local_app_data {
        LogBase::LocalAppData
    } else if has_data_local_dir {
        LogBase::DataLocalDir
    } else {
        LogBase::Current
    }
}

/// Where the log goes: with the program data of all users when the daemon runs
/// as LocalSystem, with the user's own data in a user's session, and to the
/// current directory where neither variable is set.
pub fn log_dir(
    local_system: bool,
    has_program_data: bool,
    has_local_app_data: bool,
    has_data_local_dir: bool,
) -> (r: LogBase)
    ensures
        r == log_base_for(local_system, has_program_data, has_local_app_data, has_data_local_dir),
        local_system && has_program_data ==> r == LogBase::ProgramData,
        !local_system && has_local_app_data ==> r == LogBase::LocalAppData,
        !has_program_data && !has_local_app_data ==> r == LogBase::Current,
        local_system && !has_program_data && has_local_app_data ==> r
            == LogBase::DefaultProgramData,
        !local_system && has_program_data && !has_local_app_data && has_data_local_dir ==> r
            == LogBase::DataLocalDir,
        !local_system && has_program_data && !has_local_app_data && !has_data_local_dir ==> r
            == LogBase::Current,
{
    if !has_program_data && !has_local_app_data {
        LogBase::Current
    } else if local_system {
        if has_program_data {
            LogBase::ProgramData
        } else {
            LogBase::DefaultProgramData
        }
    } else if has_local_app_data {
        LogBase::LocalAppData
    } else if has_data_local_dir {
        LogBase::DataLocalDir
    } else {
        LogBase::Current
    }
}

// ---- Laws ---------------------------------------------------------------

/// The version that is reported is what stands between the first `[Version ` and
/// a `]` that ends the text, white space at the ends aside.
pub proof fn version_stands_in_its_brackets(
    banner: Seq<char>,
    head: Seq<char>,
    version: Seq<char>,
)
    requires
        trimmed(banner) == head + "[Version "@ + version + "]"@,
        forall|k: int|
            0 <= k < head.len() ==> #[trigger] trimmed(banner).subrange(k, k + "[Version "@.len())
                != "[Version "@,
    ensures
        version.len() > 0 ==> system_name(banner) == "Windows "@ + version,
        version.len() == 0 ==> system_name(banner) == "Windows"@,
{
    let mark = "[Version "@;
    let text = trimmed(banner);
    let at = head.len() as int;
    reveal_strlit("]");
    assert(text.subrange(at, at + mark.len()) == mark);
    split_comes_after_the_first_mark(text, mark, at);
    assert(text.skip(at + mark.len()) == version + "]"@);
    assert((version + "]"@).last() == ']');
    assert((version + "]"@).drop_last() == version);
}

/// No version is reported of a text that does not hold `[Version `, or that does
/// not end in `]`, white space at the ends aside.
pub proof fn version_needs_its_brackets(banner: Seq<char>)
    ensures
        !occurs(trimmed(banner), "[Version "@) ==> system_name(banner) == "Windows"@,
        trimmed(banner).len() == 0 || trimmed(banner).last() != ']' ==> system_name(banner)
            == "Windows"@,
{
    let mark = "[Version "@;
    let text = trimmed(banner);
    split_is_an_end_behind_a_mark(text, mark);
    text_occurs_as_a_piece(text, mark);
    if let Some(rest) = after_first(text, mark) {
        let at = choose|at: int|
            {
                &&& 0 <= at <= text.len() - mark.len()
                &&& #[trigger] text.subrange(at, at + mark.len()) == mark
                &&& rest == text.skip(at + mark.len())
            };
        if rest.len() > 0 {
            assert(rest.last() == text.last());
        }
    }
}

/// The log is in the directory of the agent's logs, under its own name.
pub proof fn log_has_its_place()
    ensures
        DEFAULT_PROGRAM_DATA@ == "C:\\ProgramData"@,
        LOG_DIR@ == "Hashnet\\Logs"@,
        LOG_FILE@ == "csid.log"@,
        DEFAULT_LOG_FILTER@ == "csid=info,csi_core=info,warn"@,
{
}

} // verus!
