//! Gaining access to serial devices on Linux: a udev rule installed through
//! pkexec, and the message that reports how that went.

use vstd::prelude::*;
use crate::text::{push_str, string_of, trim, trim_chars};

verus! {

/// The udev rule that opens the usual serial device nodes to all users.
pub open spec fn udev_rule_text() -> Seq<char> {
    "# 由串口调试助手自动写入，可安全删除\nKERNEL==\"ttyUSB[0-9]*\",      MODE=\"0666\"\nKERNEL==\"ttyACM[0-9]*\",      MODE=\"0666\"\nKERNEL==\"ttyS[0-9]*\",        MODE=\"0666\"\nKERNEL==\"ttyCH341USB[0-9]*\", MODE=\"0666\"\n"@
}

/// Where the rule is written first.
pub open spec fn rule_tmp_path() -> Seq<char> {
    "/tmp/50-serial-debugger.rules"@
}

/// Where the rule is installed.
pub open spec fn rule_dest_path() -> Seq<char> {
    "/etc/udev/rules.d/50-serial-debugger.rules"@
}

/// The shell command run as root: install the rule, open the device nodes
/// present now, and make udev apply the rule.
pub open spec fn elevate_command_text() -> Seq<char> {
    "mv "@ + rule_tmp_path() + " "@ + rule_dest_path()
        + " && chmod o+rw /dev/ttyUSB* /dev/ttyACM* /dev/ttyS* /dev/ttyCH341USB* 2>/dev/null; udevadm control --reload-rules && udevadm trigger --action=change --subsystem-match=tty"@
}

/// The udev rule's text.
pub fn udev_rule() -> (s: String)
    ensures
        s@ == udev_rule_text(),
{
    "# 由串口调试助手自动写入，可安全删除\nKERNEL==\"ttyUSB[0-9]*\",      MODE=\"0666\"\nKERNEL==\"ttyACM[0-9]*\",      MODE=\"0666\"\nKERNEL==\"ttyS[0-9]*\",        MODE=\"0666\"\nKERNEL==\"ttyCH341USB[0-9]*\", MODE=\"0666\"\n".to_string()
}

/// The path the rule is written to before it is moved into place.
pub fn rule_tmp_file() -> (s: String)
    ensures
        s@ == rule_tmp_path(),
{
    "/tmp/50-serial-debugger.rules".to_string()
}

fn push_command(v: &mut Vec<char>)
    ensures
        final(v)@ == old(v)@ + elevate_command_text(),
{
    push_str(v, "mv ");
    push_str(v, "/tmp/50-serial-debugger.rules");
    push_str(v, " ");
    push_str(v, "/etc/udev/rules.d/50-serial-debugger.rules");
    push_str(
        v,
        " && chmod o+rw /dev/ttyUSB* /dev/ttyACM* /dev/ttyS* /dev/ttyCH341USB* 2>/dev/null; udevadm control --reload-rules && udevadm trigger --action=change --subsystem-match=tty",
    );
    assert(final(v)@ =~= old(v)@ + elevate_command_text());
}

/// The shell command that pkexec runs.
pub fn elevate_command() -> (s: String)
    ensures
        s@ == elevate_command_text(),
{
    let mut v: Vec<char> = Vec::new();
    push_command(&mut v);
    assert(v@ =~= elevate_command_text());
    string_of(v.as_slice())
}

/// How the attempt to install the rule ended.
#[derive(Debug)]
pub enum PkexecOutcome {
    /// The rule could not be written to its temporary file; the error's text.
    RuleWriteFailed(String),
    /// pkexec ran the command and it succeeded.
    Succeeded,
    /// pkexec ran but did not succeed (refused or cancelled); its error
    /// output, as raw bytes.
    Failed(Vec<u8>),
    /// There is no pkexec on the system.
    NotFound,
    /// pkexec could not be started for another reason; the error's text.
    SpawnFailed(String),
}

/// The message shown after a failed run whose decoded, trimmed error output
/// is `stderr`.
pub open spec fn failed_report(stderr: Seq<char>) -> Seq<char> {
    "[提权] pkexec 执行失败（可能已取消）。\n如需手动修复：sudo sh -c '"@ + elevate_command_text()
        + "'\n"@ + (if stderr.len() == 0 {
        seq![]
    } else {
        "错误详情: "@ + stderr
    })
}

/// The message shown to the user for `port` and the way the attempt ended.
pub open spec fn elevate_report(port: Seq<char>, outcome: PkexecOutcome) -> Seq<char> {
    match outcome {
        PkexecOutcome::RuleWriteFailed(e) => "[错误] 写入临时规则文件失败: "@ + e@,
        PkexecOutcome::Succeeded => "[提权] 成功：设备 "@ + port + " 的访问权限已更新，规则文件已写入 "@
            + rule_dest_path() + "。\n现在可以直接点击「打开串口」。"@,
        PkexecOutcome::Failed(stderr) => failed_report(
            trim(crate::backend::utf8_lossy(stderr@)),
        ),
        PkexecOutcome::NotFound => "[提权] 未找到 pkexec，请手动执行：\n  sudo sh -c '"@
            + elevate_command_text() + "'"@,
        PkexecOutcome::SpawnFailed(e) => "[错误] 启动 pkexec 失败: "@ + e@,
    }
}

/// The message that reports the attempt to open the serial devices of the
/// system to the user working on `port_name`.
pub fn elevate(port_name: &str, outcome: &PkexecOutcome) -> (s: String)
    ensures
        s@ == elevate_report(port_name@, *outcome),
{
    let mut v: Vec<char> = Vec::new();
    match outcome {
        PkexecOutcome::RuleWriteFailed(e) => {
            push_str(&mut v, "[错误] 写入临时规则文件失败: ");
            push_str(&mut v, e.as_str());
        },
        PkexecOutcome::Succeeded => {
            push_str(&mut v, "[提权] 成功：设备 ");
            push_str(&mut v, port_name);
            push_str(&mut v, " 的访问权限已更新，规则文件已写入 ");
            push_str(&mut v, "/etc/udev/rules.d/50-serial-debugger.rules");
            push_str(&mut v, "。\n现在可以直接点击「打开串口」。");
        },
        PkexecOutcome::Failed(stderr) => {
            let decoded = crate::backend::decode_lossy(stderr.as_slice());
            let cs = crate::text::chars_of(decoded.as_str());
            let detail = trim_chars(cs.as_slice());
            push_str(&mut v, "[提权] pkexec 执行失败（可能已取消）。\n如需手动修复：sudo sh -c '");
            push_command(&mut v);
            push_str(&mut v, "'\n");
            if detail.len() > 0 {
                push_str(&mut v, "错误详情: ");
                crate::text::append_chars(&mut v, detail.as_slice());
            }
        },
        PkexecOutcome::NotFound => {
            push_str(&mut v, "[提权] 未找到 pkexec，请手动执行：\n  sudo sh -c '");
            push_command(&mut v);
            push_str(&mut v, "'");
        },
        PkexecOutcome::SpawnFailed(e) => {
            push_str(&mut v, "[错误] 启动 pkexec 失败: ");
            push_str(&mut v, e.as_str());
        },
    }
    assert(v@ =~= elevate_report(port_name@, *outcome));
    string_of(v.as_slice())
}

} // verus!
