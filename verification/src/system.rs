//! The device operations built on command execution: power mode, shutdown,
//! reboot and system information. Each has its command, its reading of the
//! output and its own view of a non-zero exit status.

use crate::clock::now_millis;
use crate::error::{ErrorModel, SessionError};
use crate::executor::{CommandOutput, CommandOutputModel};
use crate::text::{
    chars_of, contains, contains_text, decimal_string, decimal_text, find_char_from,
    index_of_from, lines, lines_text, parse_u64, parse_u64_text, texts, trim, trim_text,
};
use crate::types::{opt_text, SystemInfo};
use vstd::prelude::*;
use vstd::string::*;

verus! {

/// Asks for the power mode, with and without more privileges.
pub const POWER_MODE_QUERY_COMMAND: &'static str =
    "sh -lc 'sudo -n nvpmodel -q 2>/dev/null || nvpmodel -q 2>/dev/null || echo \"unknown\"'";

/// Schedules a shutdown.
pub const SHUTDOWN_COMMAND: &'static str = "sudo -n shutdown";

/// Reboots, with and without more privileges.
pub const REBOOT_COMMAND: &'static str =
    "sh -lc 'sudo -n reboot 2>/dev/null || reboot 2>/dev/null'";

/// Prints host name, operating system, kernel, CUDA release, JetPack
/// version and uptime in seconds, one per line.
pub const SYS_INFO_COMMAND: &'static str = "sh -lc '\n        \
    hostname=$(hostname)\n        \
    os=$(uname -s)\n        \
    kernel=$(uname -r)\n        \
    cuda=$(nvcc --version 2>/dev/null | grep \"release\" \
    | sed -E \"s/.*release ([0-9.]+).*/\\1/\" || echo \"\")\n        \
    jetpack=$(dpkg -l | grep nvidia-jetpack | awk \"{print \\$3}\" | head -1 || echo \"\")\n        \
    uptime_sec=$(cat /proc/uptime | awk \"{print int(\\$1)}\")\n        \n        \
    echo \"$hostname\"\n        \
    echo \"$os\"\n        \
    echo \"$kernel\"\n        \
    echo \"$cuda\"\n        \
    echo \"$jetpack\"\n        \
    echo \"$uptime_sec\"\n    '";

/// The index of the first of `ls` from `k` on that holds `pat`, or the
/// number of lines.
pub open spec fn line_with_from(ls: Seq<Seq<char>>, pat: Seq<char>, k: int) -> int
    decreases ls.len() - k,
{
    if 0 <= k < ls.len() && !contains_text(ls[k], pat) {
        line_with_from(ls, pat, k + 1)
    } else {
        k
    }
}

/// The text between the first and the second `sep` of `line` (or the end
/// of the line where there is no second), if `line` holds a `sep` at all.
pub open spec fn second_field(line: Seq<char>, sep: char) -> Option<Seq<char>> {
    let a = index_of_from(line, sep, 0);
    if a < line.len() {
        Some(line.subrange(a + 1, index_of_from(line, sep, a + 1)))
    } else {
        None
    }
}

/// The power mode that the query printed: in the first line that holds
/// `Power Mode`, the trimmed text behind the first colon; without such a
/// line, or without a colon in it, the whole output, trimmed.
pub open spec fn power_mode_of(out: Seq<char>) -> Seq<char> {
    let ls = lines_text(out);
    let k = line_with_from(ls, "Power Mode"@, 0);
    if k < ls.len() {
        match second_field(ls[k], ':') {
            Some(mode) => trim_text(mode),
            None => trim_text(out),
        }
    } else {
        trim_text(out)
    }
}

/// Reads the power mode out of what the query printed.
pub fn parse_power_mode(out: &str) -> (mode: String)
    ensures
        mode@ == power_mode_of(out@),
{
    let ls = lines(out);
    let n: usize = ls.len();
    let mut k: usize = 0;
    while k < n && !contains(ls[k], "Power Mode")
        invariant
            n == ls.len(),
            k <= n,
            texts(ls@) == lines_text(out@),
            line_with_from(lines_text(out@), "Power Mode"@, 0) == line_with_from(
                lines_text(out@),
                "Power Mode"@,
                k as int,
            ),
        decreases n - k,
    {
        assert(texts(ls@)[k as int] == ls@[k as int]@);
        k = k + 1;
    }
    if k < n {
        assert(texts(ls@)[k as int] == ls@[k as int]@);
        let line: &str = ls[k];
        let cs = chars_of(line);
        let a: usize = find_char_from(&cs, ':', 0);
        if a < cs.len() {
            let b: usize = find_char_from(&cs, ':', a + 1);
            return trim(line.substring_char(a + 1, b)).to_owned();
        }
    }
    trim(out).to_owned()
}

/// The command that sets power mode `mode`, with and without more
/// privileges.
pub open spec fn set_power_mode_command_text(mode: i32) -> Seq<char> {
    "sh -lc 'sudo -n nvpmodel -m "@ + decimal_text(mode as int) + " 2>/dev/null || nvpmodel -m "@
        + decimal_text(mode as int) + " 2>/dev/null'"@
}

/// Builds the command that sets power mode `mode`.
pub fn set_power_mode_command(mode: i32) -> (command: String)
    ensures
        command@ == set_power_mode_command_text(mode),
{
    let number = decimal_string(mode as i64);
    let mut command = "sh -lc 'sudo -n nvpmodel -m ".to_owned();
    command.append(number.as_str());
    command.append(" 2>/dev/null || nvpmodel -m ");
    command.append(number.as_str());
    command.append(" 2>/dev/null'");
    command
}

/// What setting the power mode came to: a non-zero exit status is a
/// failure that carries what the command printed.
pub open spec fn set_power_mode_result(output: CommandOutputModel) -> Result<(), ErrorModel> {
    if output.exit_status != 0 {
        Err(
            ErrorModel::RemoteCommandFailed {
                exit_status: output.exit_status,
                message: "nvpmodel failed: "@ + output.stdout,
            },
        )
    } else {
        Ok(())
    }
}

/// Judges the output of the command that sets the power mode.
pub fn set_power_mode_outcome(output: &CommandOutput) -> (r: Result<(), SessionError>)
    ensures
        match r {
            Ok(_) => set_power_mode_result(output@) is Ok,
            Err(e) => set_power_mode_result(output@) == Err::<(), ErrorModel>(e@),
        },
{
    if output.exit_status != 0 {
        let mut message = "nvpmodel failed: ".to_owned();
        message.append(output.stdout.as_str());
        Err(SessionError::RemoteCommandFailed { exit_status: output.exit_status, message })
    } else {
        Ok(())
    }
}

/// The failure that a non-zero exit status stands for, for an operation
/// called `label`: it carries the trimmed error output where the command
/// wrote any, else a sentence with the exit status. An exit status of zero
/// is no failure.
pub open spec fn exit_failure(output: CommandOutputModel, label: Seq<char>) -> Option<ErrorModel> {
    if output.exit_status == 0 {
        None
    } else if output.stderr.len() > 0 {
        Some(
            ErrorModel::RemoteCommandFailed {
                exit_status: output.exit_status,
                message: trim_text(output.stderr),
            },
        )
    } else {
        Some(
            ErrorModel::RemoteCommandFailed {
                exit_status: output.exit_status,
                message: label + " command failed with exit status: "@ + decimal_text(
                    output.exit_status as int,
                ),
            },
        )
    }
}

fn check_exit(output: &CommandOutput, label: &str) -> (r: Option<SessionError>)
    ensures
        match r {
            Some(e) => exit_failure(output@, label@) == Some(e@),
            None => exit_failure(output@, label@) is None,
        },
{
    if output.exit_status == 0 {
        None
    } else if output.stderr.as_str().unicode_len() > 0 {
        let message = trim(output.stderr.as_str()).to_owned();
        Some(SessionError::RemoteCommandFailed { exit_status: output.exit_status, message })
    } else {
        let mut message = label.to_owned();
        message.append(" command failed with exit status: ");
        let number = decimal_string(output.exit_status as i64);
        message.append(number.as_str());
        Some(SessionError::RemoteCommandFailed { exit_status: output.exit_status, message })
    }
}

/// What a shutdown came to: a non-zero exit status is a failure; else the
/// trimmed output, or a fixed sentence where the command printed nothing.
pub open spec fn shutdown_result(output: CommandOutputModel) -> Result<Seq<char>, ErrorModel> {
    match exit_failure(output, "Shutdown"@) {
        Some(e) => Err(e),
        None => if output.stdout.len() == 0 {
            Ok("Shutdown scheduled successfully."@)
        } else {
            Ok(trim_text(output.stdout))
        },
    }
}

/// Judges the output of the shutdown command.
pub fn shutdown_outcome(output: &CommandOutput) -> (r: Result<String, SessionError>)
    ensures
        match r {
            Ok(text) => shutdown_result(output@) == Ok::<Seq<char>, ErrorModel>(text@),
            Err(e) => shutdown_result(output@) == Err::<Seq<char>, ErrorModel>(e@),
        },
{
    match check_exit(output, "Shutdown") {
        Some(e) => Err(e),
        None => if output.stdout.as_str().unicode_len() == 0 {
            Ok("Shutdown scheduled successfully.".to_owned())
        } else {
            Ok(trim(output.stdout.as_str()).to_owned())
        },
    }
}

/// Judges the output of the reboot command: a non-zero exit status is a
/// failure.
pub fn reboot_outcome(output: &CommandOutput) -> (r: Result<(), SessionError>)
    ensures
        match r {
            Ok(_) => exit_failure(output@, "Reboot"@) is None,
            Err(e) => exit_failure(output@, "Reboot"@) == Some(e@),
        },
{
    match check_exit(output, "Reboot") {
        Some(e) => Err(e),
        None => Ok(()),
    }
}

/// The `k`-th line, or `unknown` where the output has fewer lines.
pub open spec fn line_or_unknown(ls: Seq<Seq<char>>, k: int) -> Seq<char> {
    if 0 <= k < ls.len() {
        ls[k]
    } else {
        "unknown"@
    }
}

/// The `k`-th line where it exists and is not empty.
pub open spec fn line_if_any(ls: Seq<Seq<char>>, k: int) -> Option<Seq<char>> {
    if 0 <= k < ls.len() && ls[k].len() > 0 {
        Some(ls[k])
    } else {
        None
    }
}

/// The number that the `k`-th line spells, 0 where it is missing or does
/// not read as a `u64`.
pub open spec fn line_number(ls: Seq<Seq<char>>, k: int) -> u64 {
    if 0 <= k < ls.len() {
        match parse_u64_text(ls[k]) {
            Some(v) => v,
            None => 0,
        }
    } else {
        0
    }
}

fn line_or_unknown_exec(ls: &Vec<&str>, k: usize) -> (r: String)
    ensures
        r@ == line_or_unknown(texts(ls@), k as int),
{
    if k < ls.len() {
        ls[k].to_owned()
    } else {
        "unknown".to_owned()
    }
}

fn line_if_any_exec(ls: &Vec<&str>, k: usize) -> (r: Option<String>)
    ensures
        opt_text(r) == line_if_any(texts(ls@), k as int),
{
    if k < ls.len() && ls[k].unicode_len() > 0 {
        Some(ls[k].to_owned())
    } else {
        None
    }
}

/// Reads the system information out of what the command printed, for the
/// device `device_id`, as fetched at `now`: host name, operating system
/// and kernel from the first three lines (`unknown` where one is
/// missing), CUDA release and JetPack version from the next two where they
/// are not empty, the uptime from the sixth. The record has no storage
/// identifier yet.
pub fn sys_info_at(out: &str, device_id: i64, now: i64) -> (info: SystemInfo)
    ensures
        info.id is None,
        info.device_id == device_id,
        info.updated_at == Some(now),
        info.hostname@ == line_or_unknown(lines_text(out@), 0),
        info.os@ == line_or_unknown(lines_text(out@), 1),
        info.kernel@ == line_or_unknown(lines_text(out@), 2),
        opt_text(info.cuda) == line_if_any(lines_text(out@), 3),
        opt_text(info.jetpack) == line_if_any(lines_text(out@), 4),
        info.uptime_sec == line_number(lines_text(out@), 5),
{
    let ls = lines(out);
    let uptime_sec: u64 = if 5 < ls.len() {
        match parse_u64(ls[5]) {
            Some(v) => v,
            None => 0,
        }
    } else {
        0
    };
    SystemInfo {
        id: None,
        device_id,
        updated_at: Some(now),
        hostname: line_or_unknown_exec(&ls, 0),
        os: line_or_unknown_exec(&ls, 1),
        kernel: line_or_unknown_exec(&ls, 2),
        cuda: line_if_any_exec(&ls, 3),
        jetpack: line_if_any_exec(&ls, 4),
        uptime_sec,
    }
}

/// Reads the system information as [`sys_info_at`] does, stamped with the
/// clock as it is read now.
pub fn sys_info_now(out: &str, device_id: i64) -> (info: SystemInfo)
    ensures
        info.id is None,
        info.device_id == device_id,
        info.updated_at is Some,
        info.hostname@ == line_or_unknown(lines_text(out@), 0),
        info.os@ == line_or_unknown(lines_text(out@), 1),
        info.kernel@ == line_or_unknown(lines_text(out@), 2),
        opt_text(info.cuda) == line_if_any(lines_text(out@), 3),
        opt_text(info.jetpack) == line_if_any(lines_text(out@), 4),
        info.uptime_sec == line_number(lines_text(out@), 5),
{
    let now = now_millis();
    sys_info_at(out, device_id, now)
}

} // verus!
