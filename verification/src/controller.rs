//! The decisions of the user interface, on the plain part of its state:
//! opening and closing the port, sending, the quick-command editor, the
//! history, and the driver-fix and permission flows.  The caller performs
//! the input and output these decisions ask for.

use vstd::prelude::*;
use crate::backend::ch341_fix::BuildEnvReport;
use crate::backend::history::{History, with_newest};
use crate::backend::no_reset::OpenError;
use crate::backend::quick_commands::{QuickCommands, filled_first_empty};
use crate::clock::{is_clock_time, stamp_shape};
use crate::session::{
    NavDown, OpenRequest, PortSettings, Terminal, appended, enter_sends, nav_down, nav_up, open_refusal,
    request_for, connected_line, connected_line_text, outgoing, outgoing_text, should_send, tx_line,
};
use crate::text::{decimal, decimal_text, is_blank, push_str, string_of};
use crate::types::{HistoryItem, LineEnding, QuickCommand, SendMode, TimestampFormat};

verus! {

/// Bytes to write to the open port.
#[derive(Debug)]
pub struct SendRequest {
    pub text: String,
    pub hex_mode: bool,
    pub line_ending: LineEnding,
}

/// What the open/close button asks for.
#[derive(Debug)]
pub enum ToggleAction {
    /// The port was open: it is to be closed (and is now marked closed).
    Close,
    /// The port is to be opened with these parameters.
    Open(OpenRequest),
    /// Nothing to do: an error line explains why.
    Refused,
}

/// What the send button does from state `before` with the send box holding
/// `content`, giving `r` and leaving `after`: without an open port nothing
/// is sent and an error line is appended; with one the log stays as it is,
/// blank content sends nothing, and otherwise the content without trailing
/// line breaks is sent in the current mode and line ending.  Nothing but
/// the log and history browsing changes.
pub open spec fn send_outcome(before: Session, content: Seq<char>, r: Option<SendRequest>, after: Session) -> bool {
    &&& after.same_apart_from_log(before)
    &&& if before.is_connected {
        &&& after.terminal.lines() == before.terminal.lines()
        &&& match outgoing(content) {
            None => r is None,
            Some(t) => r matches Some(q) && q.text@ == t && q.hex_mode == before.terminal.hex_send
                && q.line_ending == before.terminal.line_ending,
        }
    } else {
        &&& r is None
        &&& after.terminal.lines() == appended(before.terminal.lines(), "[错误] 串口未打开"@)
    }
}

/// The plain state behind the user interface.
pub struct Session {
    pub port: PortSettings,
    pub terminal: Terminal,
    pub history: History,
    pub quick_commands: QuickCommands,
    pub is_connected: bool,
    /// Opening failed for lack of permission: offer to gain access.
    pub show_elevate_hint: bool,
    /// The slot being edited, with its caption, text and mode as edited.
    pub quick_cmd_editing: Option<(usize, String, String, bool)>,
    /// The CH341 driver lacks the fix for DTR on open (Linux).
    pub ch341_fix_needed: bool,
    /// The fixed driver is being built and installed.
    pub ch341_fix_installing: bool,
    /// Seconds spent installing so far.
    pub ch341_install_elapsed: u32,
}

impl Session {
    /// The terminal log, history and quick commands are well formed.
    pub open spec fn wf(&self) -> bool {
        &&& self.terminal.wf() && self.history.wf() && self.quick_commands.wf()
        &&& self.browsing_in_history()
    }

    /// History browsing, while under way, shows an entry of the history.
    pub open spec fn browsing_in_history(&self) -> bool {
        self.terminal.history_nav_index matches Some(i) ==> i < self.history@.len()
    }

    /// The panels agree with `other`'s: the port settings, the history, the
    /// quick commands and their editor, the permission offer, the driver-fix
    /// state and the terminal's settings.
    pub open spec fn same_panels(&self, other: Session) -> bool {
        &&& self.port == other.port
        &&& self.history == other.history
        &&& self.quick_commands == other.quick_commands
        &&& self.show_elevate_hint == other.show_elevate_hint
        &&& self.quick_cmd_editing == other.quick_cmd_editing
        &&& self.ch341_fix_needed == other.ch341_fix_needed
        &&& self.ch341_fix_installing == other.ch341_fix_installing
        &&& self.ch341_install_elapsed == other.ch341_install_elapsed
        &&& self.terminal.same_settings(other.terminal)
    }

    /// Everything but the receive log and history browsing agrees with
    /// `other`: the panels, the connection and both byte counters.
    pub open spec fn same_apart_from_log(&self, other: Session) -> bool {
        &&& self.same_panels(other)
        &&& self.is_connected == other.is_connected
        &&& self.terminal.rx_count == other.terminal.rx_count
        &&& self.terminal.tx_count == other.terminal.tx_count
    }

    /// The state at start-up, from the loaded history and quick commands,
    /// the last port and baud rate, and whether the driver fix is needed.
    pub fn new(
        history: History,
        quick_commands: QuickCommands,
        last_port: Option<String>,
        last_baud: String,
        ch341_fix_needed: bool,
    ) -> (s: Self)
        requires
            history.wf(),
            quick_commands.wf(),
        ensures
            s.wf(),
            s.history == history,
            s.quick_commands == quick_commands,
            s.port.at_start(last_port, last_baud),
            s.terminal.starts_fresh(),
            !s.is_connected && !s.show_elevate_hint && s.quick_cmd_editing is None,
            s.ch341_fix_needed == ch341_fix_needed,
            !s.ch341_fix_installing && s.ch341_install_elapsed == 0,
    {
        Session {
            port: PortSettings::new(last_port, last_baud),
            terminal: Terminal::new(),
            history,
            quick_commands,
            is_connected: false,
            show_elevate_hint: false,
            quick_cmd_editing: None,
            ch341_fix_needed,
            ch341_fix_installing: false,
            ch341_install_elapsed: 0,
        }
    }

    /// The open/close button.  When connected, the port is marked closed
    /// and the byte counters are zeroed.  Otherwise the chosen parameters
    /// are checked: a missing port or a bad baud rate appends an error line
    /// and nothing is opened.
    pub fn toggle_port(&mut self) -> (a: ToggleAction)
        requires
            old(self).wf(),
        ensures
            final(self).wf(),
            final(self).same_panels(*old(self)),
            final(self).terminal.history_nav_index == old(self).terminal.history_nav_index,
            old(self).is_connected ==> a is Close && !final(self).is_connected
                && final(self).terminal.rx_count == 0 && final(self).terminal.tx_count == 0
                && final(self).terminal.received_lines == old(self).terminal.received_lines,
            !old(self).is_connected ==> !final(self).is_connected && match open_refusal(old(self).port) {
                None => a is Open && *final(self) == *old(self),
                Some(m) => a is Refused && final(self).same_apart_from_log(*old(self))
                    && final(self).terminal.lines() == appended(old(self).terminal.lines(), m),
            },
            a matches ToggleAction::Open(q) ==> request_for(old(self).port, q),
    {
        if self.is_connected {
            self.is_connected = false;
            self.terminal.reset_counters();
            return ToggleAction::Close;
        }
        match self.port.open_request() {
            Ok(q) => ToggleAction::Open(q),
            Err(m) => {
                self.terminal.push_line(m);
                ToggleAction::Refused
            },
        }
    }

    /// The port opened as `req` asked: the state is connected, the
    /// permission hint goes, and the connection line is appended.
    pub fn port_opened(&mut self, req: &OpenRequest)
        requires
            old(self).wf(),
        ensures
            final(self).wf(),
            final(self).port == old(self).port,
            final(self).quick_cmd_editing == old(self).quick_cmd_editing,
            final(self).terminal.same_settings(old(self).terminal),
            final(self).terminal.history_nav_index == old(self).terminal.history_nav_index,
            final(self).ch341_fix_needed == old(self).ch341_fix_needed && final(self).ch341_fix_installing == old(self).ch341_fix_installing,
            final(self).is_connected,
            !final(self).show_elevate_hint,
            final(self).terminal.lines() == appended(
                old(self).terminal.lines(),
                connected_line(req.port_name@, req.baud as nat),
            ),
            final(self).terminal.rx_count == old(self).terminal.rx_count,
            final(self).terminal.tx_count == old(self).terminal.tx_count,
            final(self).history == old(self).history,
            final(self).quick_commands == old(self).quick_commands,
    {
        self.is_connected = true;
        self.show_elevate_hint = false;
        let line = connected_line_text(req.port_name.as_str(), req.baud);
        self.terminal.push_line(line);
    }

    /// Opening failed: the reconnect notice is two lines; refused access
    /// is reported and offers to gain access; other failures are reported.
    pub fn port_open_failed(&mut self, e: OpenError)
        requires
            old(self).wf(),
        ensures
            final(self).wf(),
            final(self).is_connected == old(self).is_connected,
            final(self).port == old(self).port,
            final(self).quick_cmd_editing == old(self).quick_cmd_editing,
            final(self).terminal.same_settings(old(self).terminal),
            final(self).terminal.rx_count == old(self).terminal.rx_count,
            final(self).terminal.tx_count == old(self).terminal.tx_count,
            final(self).terminal.history_nav_index == old(self).terminal.history_nav_index,
            final(self).ch341_fix_needed == old(self).ch341_fix_needed && final(self).ch341_fix_installing == old(self).ch341_fix_installing,
            final(self).terminal.lines() == (match e {
                OpenError::NeedReconnect(m) => appended(
                    appended(old(self).terminal.lines(), "[⚠ 配置完成] "@ + m@),
                    "此配置只需进行一次，之后将永久生效。"@,
                ),
                OpenError::PermissionDenied(m) => appended(
                    old(self).terminal.lines(),
                    "[错误] 串口访问被拒绝（权限不足）: "@ + m@,
                ),
                OpenError::Other(m) => appended(old(self).terminal.lines(), "[错误] "@ + m@),
            }),
            final(self).show_elevate_hint == (if e is PermissionDenied {
                true
            } else {
                old(self).show_elevate_hint
            }),
            final(self).history == old(self).history,
            final(self).quick_commands == old(self).quick_commands,
    {
        match e {
            OpenError::NeedReconnect(m) => {
                let mut v: Vec<char> = Vec::new();
                push_str(&mut v, "[⚠ 配置完成] ");
                push_str(&mut v, m.as_str());
                self.terminal.push_line(string_of(v.as_slice()));
                self.terminal.push_line("此配置只需进行一次，之后将永久生效。".to_string());
            },
            OpenError::PermissionDenied(m) => {
                let mut v: Vec<char> = Vec::new();
                push_str(&mut v, "[错误] 串口访问被拒绝（权限不足）: ");
                push_str(&mut v, m.as_str());
                self.terminal.push_line(string_of(v.as_slice()));
                self.show_elevate_hint = true;
            },
            OpenError::Other(m) => {
                self.terminal.push_error(m.as_str());
            },
        }
    }

    /// The port failed while open: the error is reported, the state is
    /// disconnected and the byte counters are zeroed.
    pub fn serial_error(&mut self, msg: &str)
        requires
            old(self).wf(),
        ensures
            final(self).wf(),
            final(self).port == old(self).port,
            final(self).quick_commands == old(self).quick_commands,
            final(self).show_elevate_hint == old(self).show_elevate_hint,
            final(self).quick_cmd_editing == old(self).quick_cmd_editing,
            final(self).terminal.same_settings(old(self).terminal),
            final(self).terminal.history_nav_index == old(self).terminal.history_nav_index,
            final(self).ch341_fix_needed == old(self).ch341_fix_needed && final(self).ch341_fix_installing == old(self).ch341_fix_installing,
            !final(self).is_connected,
            final(self).terminal.rx_count == 0,
            final(self).terminal.tx_count == 0,
            final(self).terminal.lines() == appended(old(self).terminal.lines(), "[错误] "@ + msg@),
            final(self).history == old(self).history,
    {
        self.terminal.push_error(msg);
        self.is_connected = false;
        self.terminal.reset_counters();
    }

    /// The send button (or Enter) with the send box holding `content`.
    /// Without an open port an error line is appended; with one, nothing
    /// changes: blank content sends nothing, and otherwise the content
    /// without trailing line breaks is to be sent in the current mode and
    /// line ending.
    pub fn send_request(&mut self, content: &str) -> (r: Option<SendRequest>)
        requires
            old(self).wf(),
        ensures
            final(self).wf(),
            send_outcome(*old(self), content@, r, *final(self)),
            final(self).terminal.history_nav_index == old(self).terminal.history_nav_index,
            old(self).is_connected ==> *final(self) == *old(self),
    {
        if !self.is_connected {
            self.terminal.push_line("[错误] 串口未打开".to_string());
            return None;
        }
        match outgoing_text(content) {
            None => None,
            Some(text) => Some(
                SendRequest {
                    text,
                    hex_mode: self.terminal.hex_send,
                    line_ending: self.terminal.line_ending,
                },
            ),
        }
    }

    /// The Enter key in the send box holding `content`, in send mode `mode`
    /// with Ctrl held or not.  Browsing the history ends, as with any edit.
    /// When Enter sends, the result is `Some` of what the send button gives
    /// from there; otherwise it is `None`, nothing else changes, and the
    /// caller breaks the line.
    pub fn enter_pressed(&mut self, mode: SendMode, ctrl_held: bool, content: &str) -> (r: Option<
        Option<SendRequest>,
    >)
        requires
            old(self).wf(),
        ensures
            final(self).wf(),
            final(self).terminal.history_nav_index is None,
            enter_sends(mode, ctrl_held) ==> (r matches Some(q) && send_outcome(
                *old(self),
                content@,
                q,
                *final(self),
            )),
            !enter_sends(mode, ctrl_held) ==> r is None && final(self).same_apart_from_log(*old(self))
                && final(self).terminal.received_lines == old(self).terminal.received_lines,
    {
        self.terminal.history_nav_index = None;
        if should_send(mode, ctrl_held) {
            Some(self.send_request(content))
        } else {
            None
        }
    }

    /// An edit of the send box (typing, deleting, clearing it): browsing the
    /// history ends and nothing else changes.
    pub fn end_browsing(&mut self)
        requires
            old(self).wf(),
        ensures
            final(self).wf(),
            final(self).terminal.history_nav_index is None,
            final(self).same_apart_from_log(*old(self)),
            final(self).terminal.received_lines == old(self).terminal.received_lines,
    {
        self.terminal.history_nav_index = None;
    }

    /// The Up key in the send box, `single_line` telling whether the box
    /// holds one line: browsing moves to the next older history entry, whose
    /// index is returned, or the key is left to the editor (`None`).
    pub fn history_up(&mut self, single_line: bool) -> (r: Option<usize>)
        requires
            old(self).wf(),
        ensures
            final(self).wf(),
            r == nav_up(
                old(self).terminal.history_nav_index,
                old(self).history@.len() as usize,
                single_line,
            ),
            r matches Some(i) ==> (i < final(self).history@.len()
                && final(self).terminal.history_nav_index == r),
            r is None ==> final(self).terminal.history_nav_index == old(
                self,
            ).terminal.history_nav_index,
            final(self).same_apart_from_log(*old(self)),
            final(self).terminal.received_lines == old(self).terminal.received_lines,
    {
        let n = self.history.items().len();
        self.terminal.history_up(n, single_line)
    }

    /// The Down key in the send box: while browsing, moves to the next newer
    /// entry or leaves browsing from the newest; otherwise the key is left to
    /// the editor.
    pub fn history_down(&mut self) -> (r: NavDown)
        requires
            old(self).wf(),
        ensures
            final(self).wf(),
            r == nav_down(old(self).terminal.history_nav_index),
            r matches NavDown::Show(i) ==> i < final(self).history@.len(),
            final(self).terminal.history_nav_index == (match r {
                NavDown::Show(i) => Some(i),
                NavDown::Leave => None,
                NavDown::NotBrowsing => None::<usize>,
            }),
            final(self).same_apart_from_log(*old(self)),
            final(self).terminal.received_lines == old(self).terminal.received_lines,
    {
        self.terminal.history_down()
    }

    /// `text` was sent as `bytes` bytes at `time` (`HH:MM:SS`): the sent-byte
    /// count grows, the text joins the history, browsing ends, and the sent
    /// line is appended, stamped with `stamp` when there is one.
    pub fn message_sent_at(
        &mut self,
        text: String,
        hex_mode: bool,
        bytes: usize,
        time: String,
        stamp: Option<String>,
    )
        requires
            old(self).wf(),
            old(self).terminal.tx_count + bytes <= usize::MAX,
        ensures
            final(self).wf(),
            final(self).port == old(self).port,
            final(self).quick_commands == old(self).quick_commands,
            final(self).is_connected == old(self).is_connected,
            final(self).show_elevate_hint == old(self).show_elevate_hint,
            final(self).quick_cmd_editing == old(self).quick_cmd_editing,
            final(self).terminal.same_settings(old(self).terminal),
            final(self).terminal.rx_count == old(self).terminal.rx_count,
            final(self).ch341_fix_needed == old(self).ch341_fix_needed && final(self).ch341_fix_installing == old(self).ch341_fix_installing,
            final(self).terminal.tx_count == old(self).terminal.tx_count + bytes,
            final(self).terminal.history_nav_index is None,
            final(self).terminal.lines() == appended(
                old(self).terminal.lines(),
                tx_line(text@, hex_mode, stamp),
            ),
            is_blank(text@) ==> final(self).history@ == old(self).history@,
            !is_blank(text@) ==> final(self).history@ == with_newest(
                old(self).history@,
                (HistoryItem { text, is_hex: hex_mode, time }),
            ),
    {
        self.terminal.record_sent_at(text.as_str(), hex_mode, bytes, stamp);
        self.history.add_at(text, hex_mode, time);
    }

    /// `text` was sent as `bytes` bytes now; the history and the sent line
    /// are stamped with the current time (the line only when time stamps
    /// are shown, in `format`).
    pub fn message_sent(&mut self, text: String, hex_mode: bool, bytes: usize, format: TimestampFormat)
        requires
            old(self).wf(),
            old(self).terminal.tx_count + bytes <= usize::MAX,
        ensures
            final(self).wf(),
            final(self).port == old(self).port,
            final(self).quick_commands == old(self).quick_commands,
            final(self).is_connected == old(self).is_connected,
            final(self).show_elevate_hint == old(self).show_elevate_hint,
            final(self).quick_cmd_editing == old(self).quick_cmd_editing,
            final(self).terminal.same_settings(old(self).terminal),
            final(self).terminal.rx_count == old(self).terminal.rx_count,
            final(self).ch341_fix_needed == old(self).ch341_fix_needed && final(self).ch341_fix_installing == old(self).ch341_fix_installing,
            final(self).terminal.tx_count == old(self).terminal.tx_count + bytes,
            final(self).terminal.history_nav_index is None,
            exists|stamp: Option<String>|
                (stamp is Some <==> old(self).terminal.show_timestamp) && (stamp matches Some(ts)
                    ==> stamp_shape(format, ts@)) && final(self).terminal.lines() == appended(
                    old(self).terminal.lines(),
                    #[trigger] tx_line(text@, hex_mode, stamp),
                ),
            is_blank(text@) ==> final(self).history@ == old(self).history@,
            !is_blank(text@) ==> exists|time: String|
                #[trigger] is_clock_time(time@) && final(self).history@ == with_newest(
                    old(self).history@,
                    (HistoryItem { text, is_hex: hex_mode, time }),
                ),
    {
        let time = crate::clock::time_of_day();
        let ghost t = time;
        let stamp = if self.terminal.show_timestamp {
            Some(crate::clock::fmt_timestamp(format))
        } else {
            None
        };
        self.message_sent_at(text, hex_mode, bytes, time, stamp);
        proof {
            if !is_blank(text@) {
                assert(is_clock_time(t@));
            }
        }
    }

    /// Sending failed: the error is reported.
    pub fn send_failed(&mut self, error: &str)
        requires
            old(self).wf(),
        ensures
            final(self).wf(),
            final(self).same_apart_from_log(*old(self)),
            final(self).terminal.history_nav_index == old(self).terminal.history_nav_index,
            final(self).terminal.lines() == appended(old(self).terminal.lines(), "[错误] "@ + error@),
            final(self).history == old(self).history,
            final(self).terminal.tx_count == old(self).terminal.tx_count,
    {
        self.terminal.push_error(error);
    }

    /// A quick-command button: an empty or missing slot does nothing; with
    /// an open port the slot's text is to be sent in its own mode with the
    /// current line ending; without one an error line is appended.
    pub fn quick_send_request(&mut self, index: usize) -> (r: Option<SendRequest>)
        requires
            old(self).wf(),
        ensures
            final(self).wf(),
            final(self).same_apart_from_log(*old(self)),
            final(self).terminal.history_nav_index == old(self).terminal.history_nav_index,
            (index >= old(self).quick_commands@.len() || is_blank(old(self).quick_commands@[index as int].text@) || old(self).is_connected) ==> *final(self) == *old(self),
            (index >= old(self).quick_commands@.len() || is_blank(
                old(self).quick_commands@[index as int].text@,
            )) ==> r is None && final(self).terminal.lines() == old(self).terminal.lines(),
            (index < old(self).quick_commands@.len() && !is_blank(
                old(self).quick_commands@[index as int].text@,
            )) ==> if old(self).is_connected {
                &&& (r matches Some(q) && q.text == old(self).quick_commands@[index as int].text
                    && q.hex_mode == old(self).quick_commands@[index as int].is_hex
                    && q.line_ending == old(self).terminal.line_ending)
                &&& final(self).terminal.lines() == old(self).terminal.lines()
            } else {
                &&& r is None
                &&& final(self).terminal.lines() == appended(
                    old(self).terminal.lines(),
                    "[错误] 串口未打开"@,
                )
            },
            final(self).quick_commands == old(self).quick_commands,
            final(self).terminal.tx_count == old(self).terminal.tx_count,
    {
        let found = match self.quick_commands.send_at(index) {
            Some(c) => Some((c.text.clone(), c.is_hex)),
            None => None,
        };
        match found {
            None => None,
            Some((text, hex_mode)) => {
                if self.is_connected {
                    Some(SendRequest { text, hex_mode, line_ending: self.terminal.line_ending })
                } else {
                    self.terminal.push_line("[错误] 串口未打开".to_string());
                    None
                }
            },
        }
    }

    /// A quick command was sent as `bytes` bytes: only the count grows.
    pub fn quick_sent(&mut self, bytes: usize)
        requires
            old(self).wf(),
            old(self).terminal.tx_count + bytes <= usize::MAX,
        ensures
            final(self).wf(),
            final(self).same_panels(*old(self)),
            final(self).is_connected == old(self).is_connected,
            final(self).terminal.rx_count == old(self).terminal.rx_count,
            final(self).terminal.history_nav_index == old(self).terminal.history_nav_index,
            final(self).terminal.tx_count == old(self).terminal.tx_count + bytes,
            final(self).terminal.lines() == old(self).terminal.lines(),
    {
        self.terminal.tx_count = self.terminal.tx_count + bytes;
    }

    /// Saves the send box's content as a quick command in the first empty
    /// slot, in the current send mode, and reports where it went, that
    /// every slot is taken, or that there was nothing to save.  The result
    /// is `None` when there was nothing to save, else the slot used, if any.
    pub fn save_as_quick_command(&mut self, content: &str) -> (r: Option<Option<usize>>)
        requires
            old(self).wf(),
        ensures
            final(self).wf(),
            final(self).port == old(self).port,
            final(self).history == old(self).history,
            final(self).is_connected == old(self).is_connected,
            final(self).show_elevate_hint == old(self).show_elevate_hint,
            final(self).quick_cmd_editing == old(self).quick_cmd_editing,
            final(self).terminal.same_settings(old(self).terminal),
            final(self).terminal.rx_count == old(self).terminal.rx_count,
            final(self).terminal.tx_count == old(self).terminal.tx_count,
            final(self).terminal.history_nav_index == old(self).terminal.history_nav_index,
            final(self).ch341_fix_needed == old(self).ch341_fix_needed && final(self).ch341_fix_installing == old(self).ch341_fix_installing,
            outgoing(content@) is None ==> r is None && final(self).quick_commands
                == old(self).quick_commands && final(self).terminal.lines() == appended(
                old(self).terminal.lines(),
                "[提示] 发送内容为空"@,
            ),
            outgoing(content@) matches Some(t) ==> r matches Some(slot) && filled_first_empty(
                old(self).quick_commands@,
                final(self).quick_commands@,
                t,
                old(self).terminal.hex_send,
                slot,
            ) && final(self).terminal.lines() == appended(
                old(self).terminal.lines(),
                match slot {
                    Some(i) => "[快捷命令] 已保存到槽位 "@ + decimal((i + 1) as nat),
                    None => "[快捷命令] 所有槽位已满"@,
                },
            ),
    {
        match outgoing_text(content) {
            None => {
                self.terminal.push_line("[提示] 发送内容为空".to_string());
                None
            },
            Some(text) => {
                let slot = self.quick_commands.add_to_first_empty(
                    text.as_str(),
                    self.terminal.hex_send,
                );
                match slot {
                    Some(i) => {
                        let mut v: Vec<char> = Vec::new();
                        push_str(&mut v, "[快捷命令] 已保存到槽位 ");
                        let d = decimal_text(i + 1);
                        push_str(&mut v, d.as_str());
                        self.terminal.push_line(string_of(v.as_slice()));
                    },
                    None => {
                        self.terminal.push_line("[快捷命令] 所有槽位已满".to_string());
                    },
                }
                Some(slot)
            },
        }
    }

    /// Starts editing slot `index` with its current caption, text and mode;
    /// a missing slot changes nothing.
    pub fn start_quick_edit(&mut self, index: usize)
        requires
            old(self).wf(),
        ensures
            final(self).wf(),
            final(self).terminal == old(self).terminal,
            final(self).port == old(self).port,
            final(self).history == old(self).history,
            final(self).is_connected == old(self).is_connected,
            final(self).show_elevate_hint == old(self).show_elevate_hint,
            index < old(self).quick_commands@.len() ==> final(self).quick_cmd_editing == Some(
                (
                    index,
                    old(self).quick_commands@[index as int].name,
                    old(self).quick_commands@[index as int].text,
                    old(self).quick_commands@[index as int].is_hex,
                ),
            ),
            index >= old(self).quick_commands@.len() ==> final(self).quick_cmd_editing == old(
                self,
            ).quick_cmd_editing,
            final(self).quick_commands == old(self).quick_commands,
    {
        let items = self.quick_commands.items();
        if index < items.len() {
            let c = &items[index];
            let e = (index, c.name.clone(), c.text.clone(), c.is_hex);
            self.quick_cmd_editing = Some(e);
        }
    }

    /// Saves the slot being edited, if any, and ends editing.
    pub fn save_quick_edit(&mut self)
        requires
            old(self).wf(),
        ensures
            final(self).wf(),
            final(self).terminal == old(self).terminal,
            final(self).port == old(self).port,
            final(self).history == old(self).history,
            final(self).is_connected == old(self).is_connected,
            final(self).show_elevate_hint == old(self).show_elevate_hint,
            final(self).quick_cmd_editing is None,
            match old(self).quick_cmd_editing {
                Some((i, name, text, is_hex)) => if i < old(self).quick_commands@.len() {
                    final(self).quick_commands@ == old(self).quick_commands@.update(
                        i as int,
                        (QuickCommand { name, text, is_hex }),
                    )
                } else {
                    final(self).quick_commands@ == old(self).quick_commands@
                },
                None => final(self).quick_commands@ == old(self).quick_commands@,
            },
    {
        let editing = self.quick_cmd_editing.take();
        match editing {
            Some((index, name, text, is_hex)) => {
                self.quick_commands.edit(index, name, text, is_hex);
            },
            None => {},
        }
    }

    /// Deletes slot `index`, ending its edit when it is the one edited.
    pub fn delete_quick_command(&mut self, index: usize)
        requires
            old(self).wf(),
        ensures
            final(self).wf(),
            final(self).terminal == old(self).terminal,
            final(self).port == old(self).port,
            final(self).history == old(self).history,
            final(self).is_connected == old(self).is_connected,
            final(self).show_elevate_hint == old(self).show_elevate_hint,
            final(self).quick_cmd_editing == (match old(self).quick_cmd_editing {
                Some(e) => if e.0 == index {
                    None
                } else {
                    Some(e)
                },
                None => None,
            }),
            index < old(self).quick_commands@.len() ==> {
                &&& crate::backend::quick_commands::is_reset_slot(
                    final(self).quick_commands@[index as int],
                    index as nat,
                )
                &&& forall|j: int|
                    0 <= j < old(self).quick_commands@.len() && j != index
                        ==> #[trigger] final(self).quick_commands@[j] == old(
                        self,
                    ).quick_commands@[j]
            },
            index >= old(self).quick_commands@.len() ==> final(self).quick_commands@ == old(
                self,
            ).quick_commands@,
    {
        let same = match &self.quick_cmd_editing {
            Some(e) => e.0 == index,
            None => false,
        };
        if same {
            self.quick_cmd_editing = None;
        }
        self.quick_commands.delete(index);
    }

    /// Puts history entry `index` back into the send box: its text is
    /// returned, its mode becomes the send mode and browsing ends; a missing
    /// entry changes nothing.
    pub fn history_reuse(&mut self, index: usize) -> (r: Option<String>)
        requires
            old(self).wf(),
        ensures
            final(self).wf(),
            final(self).port == old(self).port,
            final(self).quick_commands == old(self).quick_commands,
            final(self).is_connected == old(self).is_connected,
            final(self).show_elevate_hint == old(self).show_elevate_hint,
            final(self).quick_cmd_editing == old(self).quick_cmd_editing,
            final(self).terminal.rx_count == old(self).terminal.rx_count,
            final(self).terminal.tx_count == old(self).terminal.tx_count,
            final(self).terminal.received_lines == old(self).terminal.received_lines,
            index < old(self).history@.len() ==> {
                &&& r == Some(old(self).history@[index as int].text)
                &&& final(self).terminal.hex_send == old(self).history@[index as int].is_hex
                &&& final(self).terminal.history_nav_index is None
            },
            index >= old(self).history@.len() ==> r is None && final(self).terminal.hex_send == old(
                self,
            ).terminal.hex_send && final(self).terminal.history_nav_index == old(
                self,
            ).terminal.history_nav_index,
            final(self).history == old(self).history,
    {
        let items = self.history.items();
        if index < items.len() {
            let text = items[index].text.clone();
            let is_hex = items[index].is_hex;
            self.terminal.hex_send = is_hex;
            self.terminal.history_nav_index = None;
            Some(text)
        } else {
            None
        }
    }

    /// Forgets the history and ends browsing.
    pub fn clear_history(&mut self)
        requires
            old(self).wf(),
        ensures
            final(self).wf(),
            final(self).port == old(self).port,
            final(self).quick_commands == old(self).quick_commands,
            final(self).is_connected == old(self).is_connected,
            final(self).show_elevate_hint == old(self).show_elevate_hint,
            final(self).quick_cmd_editing == old(self).quick_cmd_editing,
            final(self).terminal.same_settings(old(self).terminal),
            final(self).terminal.rx_count == old(self).terminal.rx_count,
            final(self).terminal.tx_count == old(self).terminal.tx_count,
            final(self).terminal.received_lines == old(self).terminal.received_lines,
            final(self).history@ == Seq::<HistoryItem>::empty(),
            final(self).terminal.history_nav_index is None,
    {
        self.history.clear();
        self.terminal.history_nav_index = None;
    }

    /// The driver fix was asked for and the build environment checked:
    /// with something missing, the install command is reported and nothing
    /// starts; otherwise installing starts (the result tells so) and its
    /// clock is zeroed.
    pub fn ch341_env_checked(&mut self, env: &BuildEnvReport) -> (start: bool)
        requires
            old(self).wf(),
        ensures
            final(self).wf(),
            final(self).port == old(self).port,
            final(self).history == old(self).history,
            final(self).quick_commands == old(self).quick_commands,
            final(self).is_connected == old(self).is_connected,
            final(self).show_elevate_hint == old(self).show_elevate_hint,
            final(self).quick_cmd_editing == old(self).quick_cmd_editing,
            final(self).terminal.same_settings(old(self).terminal),
            final(self).terminal.rx_count == old(self).terminal.rx_count,
            final(self).terminal.tx_count == old(self).terminal.tx_count,
            final(self).terminal.history_nav_index == old(self).terminal.history_nav_index,
            start == (env.missing@.len() == 0),
            !start ==> final(self).terminal.lines() == appended(
                old(self).terminal.lines(),
                "[提示] 缺少编译依赖，请先安装："@ + env.install_hint@,
            ) && final(self).ch341_fix_installing == old(self).ch341_fix_installing,
            start ==> final(self).terminal.lines() == old(self).terminal.lines()
                && final(self).ch341_fix_installing && final(self).ch341_install_elapsed == 0,
    {
        if env.missing.len() > 0 {
            let mut v: Vec<char> = Vec::new();
            push_str(&mut v, "[提示] 缺少编译依赖，请先安装：");
            push_str(&mut v, env.install_hint.as_str());
            self.terminal.push_line(string_of(v.as_slice()));
            false
        } else {
            self.ch341_fix_installing = true;
            self.ch341_install_elapsed = 0;
            true
        }
    }

    /// The driver install finished: installing stops, the fix stays needed
    /// unless it succeeded, and the outcome is reported.
    pub fn ch341_fix_result(&mut self, success: bool, message: &str)
        requires
            old(self).wf(),
        ensures
            final(self).wf(),
            final(self).port == old(self).port,
            final(self).history == old(self).history,
            final(self).quick_commands == old(self).quick_commands,
            final(self).is_connected == old(self).is_connected,
            final(self).show_elevate_hint == old(self).show_elevate_hint,
            final(self).quick_cmd_editing == old(self).quick_cmd_editing,
            final(self).terminal.same_settings(old(self).terminal),
            final(self).terminal.rx_count == old(self).terminal.rx_count,
            final(self).terminal.tx_count == old(self).terminal.tx_count,
            final(self).terminal.history_nav_index == old(self).terminal.history_nav_index,
            !final(self).ch341_fix_installing,
            final(self).ch341_fix_needed == !success,
            final(self).terminal.lines() == appended(
                old(self).terminal.lines(),
                if success {
                    "[成功] "@ + message@
                } else {
                    "[错误] CH341 驱动安装失败: "@ + message@
                },
            ),
    {
        self.ch341_fix_installing = false;
        self.ch341_fix_needed = !success;
        let mut v: Vec<char> = Vec::new();
        if success {
            push_str(&mut v, "[成功] ");
        } else {
            push_str(&mut v, "[错误] CH341 驱动安装失败: ");
        }
        push_str(&mut v, message);
        self.terminal.push_line(string_of(v.as_slice()));
    }

    /// Gaining access was asked for: the wait is reported, the offer is
    /// hidden until the outcome is known, and the port to name is returned
    /// (the chosen one, or `"未知端口"`).
    pub fn elevate_started(&mut self) -> (port: String)
        requires
            old(self).wf(),
        ensures
            final(self).wf(),
            final(self).port == old(self).port,
            final(self).history == old(self).history,
            final(self).quick_commands == old(self).quick_commands,
            final(self).is_connected == old(self).is_connected,
            final(self).quick_cmd_editing == old(self).quick_cmd_editing,
            final(self).terminal.same_settings(old(self).terminal),
            final(self).terminal.rx_count == old(self).terminal.rx_count,
            final(self).terminal.tx_count == old(self).terminal.tx_count,
            final(self).terminal.history_nav_index == old(self).terminal.history_nav_index,
            final(self).ch341_fix_needed == old(self).ch341_fix_needed && final(self).ch341_fix_installing == old(self).ch341_fix_installing,
            !final(self).show_elevate_hint,
            final(self).terminal.lines() == appended(
                old(self).terminal.lines(),
                "[提权] 正在弹出授权对话框，请在系统弹窗中确认…"@,
            ),
            port@ == (match old(self).port.selected_port {
                Some(p) => p@,
                None => "未知端口"@,
            }),
    {
        let port = match &self.port.selected_port {
            Some(p) => p.clone(),
            None => "未知端口".to_string(),
        };
        self.terminal.push_line("[提权] 正在弹出授权对话框，请在系统弹窗中确认…".to_string());
        self.show_elevate_hint = false;
        port
    }
}

} // verus!
