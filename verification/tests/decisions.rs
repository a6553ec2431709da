use serialtool::backend::app_settings::default_baud;
use serialtool::backend::ch341_fix::{
    build_hint, check_build_env, check_dtr_fix_needed, install_failed_to_start, install_result,
    install_result_from_output, Distro,
};
use serialtool::backend::no_reset::{
    classify_open_failure, find_port_instance, prepare, NeedReconnect, OpenError, UsbPortInstance,
};
use serialtool::backend::privileges::{elevate, elevate_command, rule_tmp_file, udev_rule, PkexecOutcome};
use serialtool::clock::{fmt_timestamp, log_file_name, time_of_day};
use serialtool::text::{decimal_text, parse_u32, parse_u64, text_contains, text_eq_ignore_ascii_case};
use serialtool::types::{
    DataBits, FlowControl, LineEnding, Parity, QuickCommand, SendMode, StopBits, TimestampFormat,
};

const CMD: &str = "mv /tmp/50-serial-debugger.rules /etc/udev/rules.d/50-serial-debugger.rules && chmod o+rw /dev/ttyUSB* /dev/ttyACM* /dev/ttyS* /dev/ttyCH341USB* 2>/dev/null; udevadm control --reload-rules && udevadm trigger --action=change --subsystem-match=tty";

#[test]
fn labels_of_choices() {
    assert_eq!(DataBits::Seven.label(), "7");
    assert_eq!(StopBits::Two.label(), "2");
    assert_eq!(Parity::Off.label(), "None");
    assert_eq!(Parity::Even.label(), "Even");
    assert_eq!(FlowControl::Hardware.label(), "硬件");
    assert_eq!(FlowControl::Off.label(), "无");
    assert_eq!(LineEnding::CrLf.label(), "\\r\\n");
    assert_eq!(LineEnding::Off.label(), "无");
    assert_eq!(SendMode::EnterNewline.label(), "Enter 换行 / Ctrl+Enter 发送");
    assert_eq!(TimestampFormat::TimeMsec.label(), "HH:MM:SS.mmm");
}

#[test]
fn defaults_of_choices() {
    assert_eq!(SendMode::default(), SendMode::EnterSend);
    assert_eq!(TimestampFormat::default(), TimestampFormat::TimeOnly);
    let c = QuickCommand::default();
    assert!(c.name.is_empty() && c.text.is_empty() && !c.is_hex);
    assert_eq!(default_baud(), "115200");
}

#[test]
fn unsigned_parsing_follows_str_parse() {
    assert_eq!(parse_u32("115200"), Some(115200));
    assert_eq!(parse_u32("+9600"), Some(9600));
    assert_eq!(parse_u32("4294967295"), Some(u32::MAX));
    assert_eq!(parse_u32("4294967296"), None);
    assert_eq!(parse_u32(""), None);
    assert_eq!(parse_u32("+"), None);
    assert_eq!(parse_u32("-1"), None);
    assert_eq!(parse_u32(" 12"), None);
    assert_eq!(parse_u32("12a"), None);
    assert_eq!(parse_u64("18446744073709551615"), Some(u64::MAX));
    assert_eq!(parse_u64("18446744073709551616"), None);
    assert_eq!(parse_u64("007"), Some(7));
}

#[test]
fn decimal_parses_back() {
    for n in [0usize, 7, 10, 99, 115200, 4294967295] {
        assert_eq!(decimal_text(n), n.to_string());
        assert_eq!(parse_u64(&decimal_text(n)), Some(n as u64));
    }
}

#[test]
fn contains_and_case_insensitive_equality() {
    assert!(text_contains("abc", ""));
    assert!(text_contains("os error 13)", "error 13"));
    assert!(!text_contains("ab", "abc"));
    assert!(text_eq_ignore_ascii_case("com3", "COM3"));
    assert!(!text_eq_ignore_ascii_case("COM3", "COM4"));
    assert!(!text_eq_ignore_ascii_case("COM3", "COM30"));
}

#[test]
fn need_reconnect_message() {
    let e = NeedReconnect("COM5".to_string());
    assert_eq!(e.message(), "已完成配置，请重新插拔 USB 数据线后重试（端口：COM5）");
    match OpenError::from(e) {
        OpenError::NeedReconnect(m) => {
            assert_eq!(m, "已完成配置，请重新插拔 USB 数据线后重试（端口：COM5）")
        }
        _ => panic!("wrong variant"),
    }
}

#[test]
fn open_failures_are_classified() {
    match classify_open_failure("Permission denied (os error 13)".to_string()) {
        OpenError::PermissionDenied(m) => assert_eq!(m, "Permission denied (os error 13)"),
        _ => panic!("expected permission error"),
    }
    match classify_open_failure("Access is denied.".to_string()) {
        OpenError::PermissionDenied(_) => {}
        _ => panic!("expected permission error"),
    }
    match classify_open_failure("No such file or directory".to_string()) {
        OpenError::Other(m) => assert_eq!(m, "打开失败: No such file or directory"),
        _ => panic!("expected other error"),
    }
}

fn inst(name: &str, flag: u32) -> UsbPortInstance {
    UsbPortInstance { port_name: name.to_string(), disable_modem_out_handshake: flag }
}

#[test]
fn prepare_asks_for_reconnect_only_when_flag_unset() {
    assert!(prepare("COM3", &[]).is_ok());
    assert!(prepare("COM3", &[inst("COM4", 0)]).is_ok());
    assert!(prepare("com3", &[inst("COM3", 1)]).is_ok());
    let err = prepare("COM3", &[inst("COM4", 1), inst("com3", 0), inst("COM3", 1)]).unwrap_err();
    assert_eq!(err.0, "COM3");
    assert_eq!(find_port_instance("COM3", &[inst("COM4", 1), inst("com3", 0)]), Some(1));
    assert_eq!(find_port_instance("COM9", &[inst("COM4", 1)]), None);
}

#[test]
fn dtr_fix_detection() {
    assert!(!check_dtr_fix_needed(Some("Y\n"), ""));
    assert!(check_dtr_fix_needed(Some("N\n"), "options ch341 no_dtr_on_open=1"));
    assert!(!check_dtr_fix_needed(None, "options ch341 no_dtr_on_open=1\n"));
    assert!(check_dtr_fix_needed(None, ""));
}

#[test]
fn build_hints_per_distribution() {
    let missing = vec!["gcc".to_string(), "linux-headers".to_string()];
    assert_eq!(build_hint(&missing, "6.9.1-arch1-1", Distro::Arch), "sudo pacman -S --needed gcc linux-headers");
    assert_eq!(build_hint(&missing, "6.6.30-1-lts", Distro::Arch), "sudo pacman -S --needed gcc linux-lts-headers");
    assert_eq!(build_hint(&missing, "6.1.0-18-amd64", Distro::Debian), "sudo apt install gcc linux-headers-6.1.0-18-amd64");
    assert_eq!(build_hint(&missing, "6.8.5", Distro::Fedora), "sudo dnf install gcc kernel-devel");
    assert_eq!(build_hint(&missing, "6.8.5", Distro::Unknown), "请安装：gcc linux-headers");
    assert_eq!(build_hint(&[], "6.8.5", Distro::Debian), "");
}

#[test]
fn build_env_report() {
    let r = check_build_env("5.15.0", true, false, false, false, Distro::Debian);
    assert_eq!(r.missing, vec!["make", "git", "linux-headers"]);
    assert_eq!(r.install_hint, "sudo apt install make git linux-headers-5.15.0");
    let ok = check_build_env("5.15.0", true, true, true, true, Distro::Debian);
    assert!(ok.missing.is_empty() && ok.install_hint.is_empty());
}

#[test]
fn install_outcomes() {
    let r = install_result("building...\nSUCCESS\n", "");
    assert!(r.success);
    assert_eq!(r.message, "CH341 驱动安装成功，重新插拔设备后生效");
    let r = install_result("", "  \n");
    assert!(!r.success);
    assert_eq!(r.message, "安装失败（用户取消或权限不足）");
    let r = install_result("", "  make: *** error 2\n");
    assert_eq!(r.message, "make: *** error 2");
    let r = install_result_from_output(b"ok", &[0xff, b'x']);
    assert!(!r.success);
    assert_eq!(r.message, "\u{FFFD}x");
    let r = install_failed_to_start("No such file");
    assert!(!r.success);
    assert_eq!(r.message, "pkexec 执行失败: No such file");
}

#[test]
fn elevate_messages() {
    assert_eq!(elevate_command(), CMD);
    assert_eq!(rule_tmp_file(), "/tmp/50-serial-debugger.rules");
    assert!(udev_rule().starts_with("# 由串口调试助手自动写入"));
    assert_eq!(udev_rule().lines().count(), 5);
    assert_eq!(
        elevate("/dev/ttyUSB0", &PkexecOutcome::Succeeded),
        "[提权] 成功：设备 /dev/ttyUSB0 的访问权限已更新，规则文件已写入 /etc/udev/rules.d/50-serial-debugger.rules。\n现在可以直接点击「打开串口」。"
    );
    assert_eq!(
        elevate("x", &PkexecOutcome::Failed(b" denied \n".to_vec())),
        format!("[提权] pkexec 执行失败（可能已取消）。\n如需手动修复：sudo sh -c '{}'\n错误详情: denied", CMD)
    );
    assert_eq!(
        elevate("x", &PkexecOutcome::Failed(Vec::new())),
        format!("[提权] pkexec 执行失败（可能已取消）。\n如需手动修复：sudo sh -c '{}'\n", CMD)
    );
    assert_eq!(
        elevate("x", &PkexecOutcome::NotFound),
        format!("[提权] 未找到 pkexec，请手动执行：\n  sudo sh -c '{}'", CMD)
    );
    assert_eq!(elevate("x", &PkexecOutcome::SpawnFailed("boom".to_string())), "[错误] 启动 pkexec 失败: boom");
    assert_eq!(
        elevate("x", &PkexecOutcome::RuleWriteFailed("disk full".to_string())),
        "[错误] 写入临时规则文件失败: disk full"
    );
}

fn is_clock(s: &str) -> bool {
    let b = s.as_bytes();
    b.len() == 8 && b[2] == b':' && b[5] == b':'
        && b.iter().enumerate().all(|(i, c)| i == 2 || i == 5 || c.is_ascii_digit())
}

#[test]
fn timestamps_have_documented_shapes() {
    assert!(is_clock(&time_of_day()));
    assert!(is_clock(&fmt_timestamp(TimestampFormat::TimeOnly)));
    let ms = fmt_timestamp(TimestampFormat::TimeMsec);
    assert_eq!(ms.len(), 12);
    assert!(is_clock(&ms[..8]));
    assert_eq!(&ms[8..9], ".");
    let dt = fmt_timestamp(TimestampFormat::DateTime);
    assert!(is_clock(&dt[dt.len() - 8..]));
    assert_eq!(&dt[4..5], "-");
    let name = log_file_name();
    assert!(name.starts_with("serial_log_") && name.ends_with(".txt"));
    assert_eq!(name.len(), "serial_log_YYYYMMDD_HHMMSS.txt".len());
}

#[test]
fn preferences_reset_keeps_last_port() {
    let mut p = serialtool::backend::app_settings::Preferences {
        log_dir_custom: true,
        send_mode: SendMode::EnterNewline,
        timestamp_format: TimestampFormat::DateTime,
        last_port: Some("COM7".to_string()),
        last_baud: "9600".to_string(),
    };
    p.reset_to_defaults();
    assert!(!p.log_dir_custom);
    assert_eq!(p.send_mode, SendMode::EnterSend);
    assert_eq!(p.timestamp_format, TimestampFormat::TimeOnly);
    assert_eq!(p.last_port.as_deref(), Some("COM7"));
    assert_eq!(p.last_baud, "9600");
}
