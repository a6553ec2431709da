use serialtool::backend::history::History;
use serialtool::backend::no_reset::OpenError;
use serialtool::backend::quick_commands::QuickCommands;
use serialtool::backend::ch341_fix::check_build_env;
use serialtool::backend::ch341_fix::Distro;
use serialtool::controller::{Session, ToggleAction};
use serialtool::session::{
    connected_line_text, history_entry_label, outgoing_text, quick_command_label, should_send,
    tx_line_text, NavDown, PortSettings, Terminal, MAX_LINES,
};
use serialtool::types::{DataBits, FlowControl, HistoryItem, LineEnding, Parity, QuickCommand, SendMode, StopBits, TimestampFormat};

fn lines(t: &Terminal) -> Vec<String> {
    t.received_lines.iter().cloned().collect()
}

#[test]
fn terminal_defaults() {
    let t = Terminal::new();
    assert!(t.received_lines.is_empty());
    assert!(t.auto_scroll && !t.hex_display && !t.pause_receive);
    assert_eq!(t.line_ending, LineEnding::CrLf);
    assert_eq!(t.timed_send_interval, "1000");
    assert_eq!((t.rx_count, t.tx_count), (0, 0));
    assert_eq!(t.history_nav_index, None);
}

#[test]
fn receive_log_is_bounded() {
    let mut t = Terminal::new();
    for i in 0..MAX_LINES + 5 {
        t.push_line(format!("line {}", i));
    }
    assert_eq!(t.received_lines.len(), MAX_LINES);
    assert_eq!(t.received_lines[0], "line 5");
    assert_eq!(t.received_lines[MAX_LINES - 1], format!("line {}", MAX_LINES + 4));
}

#[test]
fn receive_text_filters_by_search() {
    let mut t = Terminal::new();
    t.push_line("[RX] hello".to_string());
    t.push_line("[TX] ping".to_string());
    t.push_line("[RX] help".to_string());
    assert_eq!(t.receive_text(), "[RX] hello\n[TX] ping\n[RX] help");
    assert_eq!(t.shown_line_count(), 3);
    t.search_text = "hel".to_string();
    assert_eq!(t.receive_text(), "[RX] hello\n[RX] help");
    assert_eq!(t.shown_line_count(), 2);
    t.search_text = "zzz".to_string();
    assert_eq!(t.receive_text(), "");
    assert_eq!(t.log_text(), "[RX] hello\n[TX] ping\n[RX] help");
}

#[test]
fn data_received_splits_and_prefixes_lines() {
    let mut t = Terminal::new();
    let refresh = t.data_received_at("a\n\nb\n".to_string(), "61 0A".to_string(), 5, None);
    assert!(refresh);
    assert_eq!(t.rx_count, 5);
    assert_eq!(lines(&t), vec!["[RX] a", "[RX] b"]);
    t.hex_display = true;
    t.data_received_at("x".to_string(), "78".to_string(), 1, Some("12:00:00".to_string()));
    assert_eq!(lines(&t)[2], "[12:00:00] [RX] 78");
}

#[test]
fn paused_data_is_counted_not_shown() {
    let mut t = Terminal::new();
    t.pause_receive = true;
    let refresh = t.data_received("abc".to_string(), "61 62 63".to_string(), 3, TimestampFormat::TimeOnly);
    assert!(!refresh);
    assert_eq!(t.rx_count, 3);
    assert!(t.received_lines.is_empty());
}

#[test]
fn no_refresh_when_frozen_without_search() {
    let mut t = Terminal::new();
    t.auto_scroll = false;
    assert!(!t.data_received_at("a".to_string(), "61".to_string(), 1, None));
    t.search_text = "a".to_string();
    assert!(t.data_received_at("a".to_string(), "61".to_string(), 1, None));
}

#[test]
fn timestamped_received_lines() {
    let mut t = Terminal::new();
    t.show_timestamp = true;
    t.data_received("ok".to_string(), "6F 6B".to_string(), 2, TimestampFormat::TimeOnly);
    let l = &t.received_lines[0];
    assert!(l.starts_with('[') && l.ends_with("] [RX] ok"));
    assert_eq!(l.len(), "[HH:MM:SS] [RX] ok".len());
}

#[test]
fn sent_lines() {
    assert_eq!(tx_line_text("  AT \n", false, &None), "[TX] AT");
    assert_eq!(tx_line_text("41", true, &Some("09:08:07".to_string())), "[09:08:07] [TX HEX] 41");
    let mut t = Terminal::new();
    t.history_nav_index = Some(2);
    t.record_sent_at("AT", false, 4, None);
    assert_eq!(t.tx_count, 4);
    assert_eq!(t.history_nav_index, None);
    assert_eq!(lines(&t), vec!["[TX] AT"]);
}

#[test]
fn history_browsing_up_and_down() {
    let mut t = Terminal::new();
    assert_eq!(t.history_up(0, true), None);
    assert_eq!(t.history_up(3, false), None);
    assert_eq!(t.history_up(3, true), Some(0));
    assert_eq!(t.history_up(3, false), Some(1));
    assert_eq!(t.history_up(3, false), Some(2));
    assert_eq!(t.history_up(3, false), Some(2));
    assert_eq!(t.history_down(), NavDown::Show(1));
    assert_eq!(t.history_down(), NavDown::Show(0));
    assert_eq!(t.history_down(), NavDown::Leave);
    assert_eq!(t.history_nav_index, None);
    assert_eq!(t.history_down(), NavDown::NotBrowsing);
}

#[test]
fn enter_key_modes() {
    assert!(should_send(SendMode::EnterSend, false));
    assert!(!should_send(SendMode::EnterSend, true));
    assert!(should_send(SendMode::EnterNewline, true));
    assert!(!should_send(SendMode::EnterNewline, false));
}

#[test]
fn timed_send_period() {
    let mut t = Terminal::new();
    assert_eq!(t.timed_send_period_ms(), 1000);
    t.timed_send_interval = "250".to_string();
    assert_eq!(t.timed_send_period_ms(), 250);
    t.timed_send_interval = "5".to_string();
    assert_eq!(t.timed_send_period_ms(), 100);
    t.timed_send_interval = "".to_string();
    assert_eq!(t.timed_send_period_ms(), 1000);
    t.timed_send_interval = "abc".to_string();
    assert_eq!(t.timed_send_period_ms(), 1000);
}

#[test]
fn outgoing_text_of_send_box() {
    assert_eq!(outgoing_text("AT\n\n"), Some("AT".to_string()));
    assert_eq!(outgoing_text(" a b \n"), Some(" a b ".to_string()));
    assert_eq!(outgoing_text("  \n"), None);
    assert_eq!(outgoing_text(""), None);
}

#[test]
fn labels_in_the_sidebar() {
    let named = QuickCommand { name: "Reset".to_string(), text: "AT+RST".to_string(), is_hex: false };
    assert_eq!(quick_command_label(&named, 0), "Reset");
    let unnamed = QuickCommand { name: " ".to_string(), text: "AT".to_string(), is_hex: false };
    assert_eq!(quick_command_label(&unnamed, 4), "命令 5");
    let item = HistoryItem { text: "ABCDEFGH".to_string(), is_hex: false, time: "10:11:12".to_string() };
    assert_eq!(history_entry_label(&item, 6), "[10:11:12] ABCDEF…");
    assert_eq!(history_entry_label(&item, 8), "[10:11:12] ABCDEFGH");
    let cjk = HistoryItem { text: "中文字符串".to_string(), is_hex: false, time: "00:00:00".to_string() };
    assert_eq!(history_entry_label(&cjk, 2), "[00:00:00] 中文…");
}

#[test]
fn port_settings_open_request() {
    let mut p = PortSettings::new(None, "115200".to_string());
    assert_eq!(p.open_request().unwrap_err(), "[错误] 未选择端口");
    p.selected_port = Some("/dev/ttyUSB0".to_string());
    p.selected_baud = "fast".to_string();
    assert_eq!(p.open_request().unwrap_err(), "[错误] 波特率格式错误");
    p.selected_baud = "9600".to_string();
    p.selected_parity = None;
    p.selected_data_bits = Some(DataBits::Seven);
    let q = p.open_request().unwrap();
    assert_eq!(q.port_name, "/dev/ttyUSB0");
    assert_eq!(q.baud, 9600);
    assert_eq!(q.data_bits, DataBits::Seven);
    assert_eq!(q.parity, Parity::Off);
    assert_eq!(q.stop_bits, StopBits::One);
    assert_eq!(q.flow_control, FlowControl::Off);
    assert_eq!(connected_line_text("COM3", 115200), "[已连接] COM3 @ 115200");
}

fn session() -> Session {
    Session::new(History::new(), QuickCommands::new(), Some("COM3".to_string()), "115200".to_string(), false)
}

#[test]
fn session_open_send_and_close() {
    let mut s = session();
    let req = match s.toggle_port() {
        ToggleAction::Open(q) => q,
        _ => panic!("expected an open request"),
    };
    s.port_opened(&req);
    assert!(s.is_connected);
    assert_eq!(lines(&s.terminal), vec!["[已连接] COM3 @ 115200"]);
    let send = s.send_request("AT\n").unwrap();
    assert_eq!(send.text, "AT");
    assert_eq!(send.line_ending, LineEnding::CrLf);
    s.message_sent_at(send.text, send.hex_mode, 4, "08:00:00".to_string(), None);
    assert_eq!(s.terminal.tx_count, 4);
    assert_eq!(s.history.items()[0].text, "AT");
    assert_eq!(lines(&s.terminal)[1], "[TX] AT");
    assert!(s.send_request("  \n").is_none());
    assert!(matches!(s.toggle_port(), ToggleAction::Close));
    assert!(!s.is_connected);
    assert_eq!(s.terminal.tx_count, 0);
    assert!(s.send_request("AT").is_none());
    assert_eq!(lines(&s.terminal).last().unwrap(), "[错误] 串口未打开");
}

#[test]
fn session_refuses_without_port() {
    let mut s = Session::new(History::new(), QuickCommands::new(), None, "115200".to_string(), false);
    assert!(matches!(s.toggle_port(), ToggleAction::Refused));
    assert_eq!(lines(&s.terminal), vec!["[错误] 未选择端口"]);
}

#[test]
fn session_open_failures() {
    let mut s = session();
    s.port_open_failed(OpenError::PermissionDenied("Permission denied".to_string()));
    assert!(s.show_elevate_hint);
    s.port_open_failed(OpenError::NeedReconnect("请重插".to_string()));
    s.port_open_failed(OpenError::Other("打开失败: busy".to_string()));
    assert_eq!(
        lines(&s.terminal),
        vec![
            "[错误] 串口访问被拒绝（权限不足）: Permission denied",
            "[⚠ 配置完成] 请重插",
            "此配置只需进行一次，之后将永久生效。",
            "[错误] 打开失败: busy",
        ]
    );
    let port = s.elevate_started();
    assert_eq!(port, "COM3");
    assert!(!s.show_elevate_hint);
}

#[test]
fn session_serial_error_disconnects() {
    let mut s = session();
    s.is_connected = true;
    s.terminal.rx_count = 10;
    s.serial_error("读取失败: broken pipe");
    assert!(!s.is_connected);
    assert_eq!(s.terminal.rx_count, 0);
    assert_eq!(lines(&s.terminal), vec!["[错误] 读取失败: broken pipe"]);
}

#[test]
fn session_quick_commands_flow() {
    let mut s = session();
    assert_eq!(s.save_as_quick_command(" \n"), None);
    assert_eq!(s.save_as_quick_command("AT+GMR\n"), Some(Some(0)));
    assert_eq!(lines(&s.terminal), vec!["[提示] 发送内容为空", "[快捷命令] 已保存到槽位 1"]);
    assert!(s.quick_send_request(0).is_none());
    assert_eq!(lines(&s.terminal).last().unwrap(), "[错误] 串口未打开");
    s.is_connected = true;
    let r = s.quick_send_request(0).unwrap();
    assert_eq!(r.text, "AT+GMR");
    assert!(s.quick_send_request(1).is_none());
    s.quick_sent(8);
    assert_eq!(s.terminal.tx_count, 8);
    s.start_quick_edit(0);
    if let Some((_, ref mut name, _, _)) = s.quick_cmd_editing {
        *name = "版本".to_string();
    }
    s.save_quick_edit();
    assert!(s.quick_cmd_editing.is_none());
    assert_eq!(s.quick_commands.items()[0].name, "版本");
    s.start_quick_edit(0);
    s.delete_quick_command(0);
    assert!(s.quick_cmd_editing.is_none());
    assert!(s.quick_commands.send_at(0).is_none());
    for _ in 0..20 {
        s.save_as_quick_command("x");
    }
    assert_eq!(s.save_as_quick_command("y"), Some(None));
    assert_eq!(lines(&s.terminal).last().unwrap(), "[快捷命令] 所有槽位已满");
}

#[test]
fn session_history_reuse_and_clear() {
    let mut s = session();
    s.history.add_at("41 42".to_string(), true, "01:02:03".to_string());
    s.terminal.history_nav_index = Some(0);
    assert_eq!(s.history_reuse(0), Some("41 42".to_string()));
    assert!(s.terminal.hex_send);
    assert_eq!(s.terminal.history_nav_index, None);
    assert_eq!(s.history_reuse(5), None);
    s.clear_history();
    assert!(s.history.items().is_empty());
}

#[test]
fn session_driver_fix_flow() {
    let mut s = Session::new(History::new(), QuickCommands::new(), None, "9600".to_string(), true);
    let missing = check_build_env("6.1.0", true, true, false, true, Distro::Debian);
    assert!(!s.ch341_env_checked(&missing));
    assert_eq!(lines(&s.terminal), vec!["[提示] 缺少编译依赖，请先安装：sudo apt install git"]);
    let ready = check_build_env("6.1.0", true, true, true, true, Distro::Debian);
    assert!(s.ch341_env_checked(&ready));
    assert!(s.ch341_fix_installing);
    s.ch341_fix_result(false, "cancelled");
    assert!(!s.ch341_fix_installing && s.ch341_fix_needed);
    s.ch341_fix_result(true, "done");
    assert!(!s.ch341_fix_needed);
    assert_eq!(lines(&s.terminal)[1..], ["[错误] CH341 驱动安装失败: cancelled", "[成功] done"]);
}

#[test]
fn session_starts_with_default_framing() {
    let s = session();
    assert_eq!(s.port.selected_port.as_deref(), Some("COM3"));
    assert_eq!(s.port.selected_baud, "115200");
    assert_eq!(s.port.selected_data_bits, Some(DataBits::Eight));
    assert_eq!(s.port.selected_stop_bits, Some(StopBits::One));
    assert_eq!(s.port.selected_parity, Some(Parity::Off));
    assert_eq!(s.port.selected_flow_control, Some(FlowControl::Off));
    assert!(!s.port.dtr_enabled && !s.port.rts_enabled && !s.port.disable_modem_handshake);
    assert!(s.terminal.auto_scroll && !s.terminal.hex_send);
    assert_eq!(s.terminal.line_ending, LineEnding::CrLf);
    assert!(!s.is_connected);
}

#[test]
fn refused_toggle_stays_disconnected() {
    let mut s = session();
    s.port.selected_baud = "fast".to_string();
    assert!(matches!(s.toggle_port(), ToggleAction::Refused));
    assert!(!s.is_connected);
    assert!(!s.show_elevate_hint);
    assert_eq!(lines(&s.terminal), vec!["[错误] 波特率格式错误"]);
}

#[test]
fn blank_send_changes_nothing() {
    let mut s = session();
    let req = match s.toggle_port() {
        ToggleAction::Open(q) => q,
        _ => panic!("expected an open request"),
    };
    s.port_opened(&req);
    s.message_sent_at("AT".to_string(), false, 2, "08:00:00".to_string(), None);
    assert_eq!(s.history_up(true), Some(0));
    assert!(s.send_request(" \n").is_none());
    assert_eq!(s.terminal.history_nav_index, Some(0));
    assert!(s.is_connected);
    assert_eq!(s.terminal.tx_count, 2);
    assert_eq!(lines(&s.terminal).len(), 2);
}

#[test]
fn session_history_browsing_stays_in_history() {
    let mut s = session();
    assert_eq!(s.history_up(true), None);
    s.is_connected = true;
    s.message_sent_at("A".to_string(), false, 1, "08:00:00".to_string(), None);
    s.message_sent_at("B".to_string(), false, 1, "08:00:01".to_string(), None);
    assert_eq!(s.history_up(false), None);
    assert_eq!(s.history_up(true), Some(0));
    assert_eq!(s.history_up(false), Some(1));
    assert_eq!(s.history_up(false), Some(1));
    assert_eq!(s.history_down(), NavDown::Show(0));
    assert_eq!(s.history_down(), NavDown::Leave);
    assert_eq!(s.history_down(), NavDown::NotBrowsing);
    assert_eq!(s.terminal.history_nav_index, None);
}

#[test]
fn enter_sends_or_breaks_the_line() {
    let mut s = session();
    s.is_connected = true;
    s.message_sent_at("A".to_string(), false, 1, "08:00:00".to_string(), None);
    s.history_up(true);
    // Enter in Enter-sends mode, without Ctrl: a send request, browsing ends.
    let r = s.enter_pressed(SendMode::EnterSend, false, "AT\n").unwrap().unwrap();
    assert_eq!(r.text, "AT");
    assert_eq!(s.terminal.history_nav_index, None);
    // Ctrl+Enter there breaks the line: nothing is sent.
    assert!(s.enter_pressed(SendMode::EnterSend, true, "AT").is_none());
    // The other mode swaps the two.
    assert!(s.enter_pressed(SendMode::EnterNewline, false, "AT").is_none());
    assert!(s.enter_pressed(SendMode::EnterNewline, true, "AT").is_some());
    // Enter sending without an open port reports it.
    s.is_connected = false;
    assert!(s.enter_pressed(SendMode::EnterSend, false, "AT").unwrap().is_none());
    assert_eq!(lines(&s.terminal).last().unwrap(), "[错误] 串口未打开");
}

#[test]
fn history_keeps_newest_fifty_added_since_clear() {
    let mut h = History::from_saved(vec![HistoryItem {
        text: "old".to_string(),
        is_hex: false,
        time: "07:00:00".to_string(),
    }]);
    for i in 0..60 {
        h.add_at(format!("m{}", i), false, "08:00:00".to_string());
    }
    h.add_at("   ".to_string(), false, "08:00:00".to_string());
    assert_eq!(h.items().len(), 50);
    assert_eq!(h.items()[0].text, "m59");
    assert_eq!(h.items()[49].text, "m10");
    h.clear();
    h.add_at("x".to_string(), true, "09:00:00".to_string());
    assert_eq!(h.items().len(), 1);
    assert_eq!(h.items()[0].text, "x");
}

#[test]
fn edits_end_browsing_only() {
    let mut s = session();
    s.is_connected = true;
    s.message_sent_at("A".to_string(), false, 1, "08:00:00".to_string(), None);
    assert_eq!(s.history_up(true), Some(0));
    s.end_browsing();
    assert_eq!(s.terminal.history_nav_index, None);
    assert!(s.is_connected);
    assert_eq!(s.terminal.tx_count, 1);
    assert_eq!(s.history.items().len(), 1);
}
