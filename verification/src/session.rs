//! The terminal's state and the decisions the user interface takes on it:
//! the bounded receive log, its search filter, what received and sent data
//! look like in it, history browsing from the send box, and what opening a
//! port asks for and reports.

use vstd::prelude::*;
use std::collections::VecDeque;
use crate::text::{append_chars, chars_of, contains, join, push_str, string_of, text_contains, views};
use crate::clock::stamp_shape;
use crate::types::{DataBits, FlowControl, LineEnding, Parity, SendMode, StopBits, TimestampFormat};
use crate::text::{decimal, decimal_text, parse_u32};
use crate::text::{is_blank, is_blank_text, nonempty_lines, split_nonempty_lines, trim, trim_chars, trim_end_newlines, strip_trailing_newlines, parse_u64, parse_unsigned};

verus! {

/// The most lines the receive log keeps; older lines are dropped first.
pub const MAX_LINES: usize = 2000;

/// The lines of `lines` that contain `search`, in order.
pub open spec fn lines_containing(lines: Seq<Seq<char>>, search: Seq<char>) -> Seq<Seq<char>>
    decreases lines.len(),
{
    if lines.len() == 0 {
        seq![]
    } else {
        let rest = lines_containing(lines.drop_last(), search);
        if contains(lines.last(), search) {
            rest.push(lines.last())
        } else {
            rest
        }
    }
}

/// The log after `line` is appended: the oldest line goes when there are
/// more than [`MAX_LINES`].
pub open spec fn appended(lines: Seq<Seq<char>>, line: Seq<char>) -> Seq<Seq<char>> {
    let s = lines.push(line);
    if s.len() > MAX_LINES {
        s.drop_first()
    } else {
        s
    }
}

/// The plain state of the terminal panel: the receive log and its view
/// settings, the send settings, the byte counters and the history cursor.
pub struct Terminal {
    /// The receive log, oldest line first.
    pub received_lines: VecDeque<String>,
    /// Only lines containing this text are shown; empty shows all.
    pub search_text: String,
    /// Received data is shown as hexadecimal rather than text.
    pub hex_display: bool,
    pub show_timestamp: bool,
    pub auto_scroll: bool,
    /// Received data is counted but not shown.
    pub pause_receive: bool,
    /// The send box holds hexadecimal text.
    pub hex_send: bool,
    pub line_ending: LineEnding,
    pub timed_send: bool,
    /// The period of timed sending in milliseconds, as typed.
    pub timed_send_interval: String,
    /// Bytes received since the log was last cleared, paused data included.
    pub rx_count: usize,
    /// Bytes sent.
    pub tx_count: usize,
    /// While browsing the history from the send box, the index of the entry
    /// shown (0 is the newest); `None` when not browsing.
    pub history_nav_index: Option<usize>,
}

impl Terminal {
    /// The receive log, oldest line first.
    pub open spec fn lines(&self) -> Seq<Seq<char>> {
        views(self.received_lines@)
    }

    /// The receive log never holds more than [`MAX_LINES`] lines.
    pub open spec fn wf(&self) -> bool {
        self.received_lines@.len() <= MAX_LINES
    }

    /// The view and send settings agree with `other`'s: everything but the
    /// log, the byte counters and history browsing.
    pub open spec fn same_settings(&self, other: Terminal) -> bool {
        &&& self.search_text == other.search_text
        &&& self.hex_display == other.hex_display
        &&& self.show_timestamp == other.show_timestamp
        &&& self.auto_scroll == other.auto_scroll
        &&& self.pause_receive == other.pause_receive
        &&& self.hex_send == other.hex_send
        &&& self.line_ending == other.line_ending
        &&& self.timed_send == other.timed_send
        &&& self.timed_send_interval == other.timed_send_interval
    }

    /// The state a terminal starts in: an empty log, automatic scrolling,
    /// CR LF line endings, a timed-send period of `"1000"` and everything
    /// else off or zero.
    pub open spec fn starts_fresh(&self) -> bool {
        &&& self.lines() == Seq::<Seq<char>>::empty()
        &&& self.search_text@ == Seq::<char>::empty()
        &&& !self.hex_display && !self.show_timestamp && self.auto_scroll && !self.pause_receive
        &&& !self.hex_send && self.line_ending == LineEnding::CrLf && !self.timed_send
        &&& self.timed_send_interval@ == "1000"@
        &&& self.rx_count == 0 && self.tx_count == 0
        &&& self.history_nav_index is None
    }

    /// The settings a new terminal starts with: an empty log, automatic
    /// scrolling, CR LF line endings, a timed-send period of `"1000"` and
    /// everything else off or zero.
    pub fn new() -> (t: Self)
        ensures
            t.wf(),
            t.starts_fresh(),
    {
        let t = Terminal {
            received_lines: VecDeque::new(),
            search_text: String::new(),
            hex_display: false,
            show_timestamp: false,
            auto_scroll: true,
            pause_receive: false,
            hex_send: false,
            line_ending: LineEnding::CrLf,
            timed_send: false,
            timed_send_interval: "1000".to_string(),
            rx_count: 0,
            tx_count: 0,
            history_nav_index: None,
        };
        assert(t.lines() =~= Seq::<Seq<char>>::empty());
        t
    }

    /// Appends a line to the receive log, dropping the oldest line beyond
    /// [`MAX_LINES`].
    pub fn push_line(&mut self, line: String)
        requires
            old(self).wf(),
        ensures
            final(self).same_settings(*old(self)),
            final(self).wf(),
            final(self).lines() == appended(old(self).lines(), line@),
            final(self).search_text == old(self).search_text,
            final(self).auto_scroll == old(self).auto_scroll,
            final(self).rx_count == old(self).rx_count,
            final(self).tx_count == old(self).tx_count,
            final(self).history_nav_index == old(self).history_nav_index,
    {
        let ghost l = line@;
        self.received_lines.push_back(line);
        if self.received_lines.len() > MAX_LINES {
            self.received_lines.pop_front();
        }
        proof {
            let s = old(self).lines().push(l);
            if s.len() > MAX_LINES {
                assert(self.lines() =~= s.drop_first());
            } else {
                assert(self.lines() =~= s);
            }
        }
    }

    /// Empties the receive log and zeroes the received-byte count.
    pub fn clear_received(&mut self)
        requires
            old(self).wf(),
        ensures
            final(self).same_settings(*old(self)),
            final(self).wf(),
            final(self).lines() == Seq::<Seq<char>>::empty(),
            final(self).rx_count == 0,
            final(self).tx_count == old(self).tx_count,
            final(self).search_text == old(self).search_text,
    {
        self.received_lines.clear();
        self.rx_count = 0;
        assert(self.lines() =~= Seq::<Seq<char>>::empty());
    }

    /// The text the receive area shows: the lines that contain the search
    /// text (all of them when it is empty), joined by line breaks.
    pub fn receive_text(&self) -> (s: String)
        ensures
            s@ == join(lines_containing(self.lines(), self.search_text@), seq!['\n']),
    {
        let needle = chars_of(self.search_text.as_str());
        let mut shown: Vec<String> = Vec::new();
        let n = self.received_lines.len();
        let mut i: usize = 0;
        while i < n
            invariant
                i <= n,
                n == self.received_lines@.len(),
                needle@ == self.search_text@,
                views(shown@) == lines_containing(self.lines().take(i as int), self.search_text@),
            decreases n - i,
        {
            let line = &self.received_lines[i];
            proof {
                assert(self.lines().take(i + 1).drop_last() =~= self.lines().take(i as int));
                assert(self.lines().take(i + 1).last() == line@);
            }
            let cs = chars_of(line.as_str());
            if crate::text::chars_contain(cs.as_slice(), needle.as_slice()) {
                let copy = string_of(cs.as_slice());
                let ghost before = shown@;
                shown.push(copy);
                assert(views(shown@) =~= views(before).push(line@));
            }
            i = i + 1;
        }
        assert(self.lines().take(n as int) =~= self.lines());
        crate::text::join_newline(shown.as_slice())
    }

    /// The whole receive log as saved to a file: every line, joined by line
    /// breaks.
    pub fn log_text(&self) -> (s: String)
        ensures
            s@ == join(self.lines(), seq!['\n']),
    {
        let n = self.received_lines.len();
        let mut all: Vec<String> = Vec::new();
        let mut i: usize = 0;
        while i < n
            invariant
                i <= n,
                n == self.received_lines@.len(),
                views(all@) == self.lines().take(i as int),
            decreases n - i,
        {
            let cs = chars_of(self.received_lines[i].as_str());
            let ghost before = all@;
            all.push(string_of(cs.as_slice()));
            assert(views(all@) =~= views(before).push(self.received_lines@[i as int]@));
            assert(self.lines().take(i + 1) =~= self.lines().take(i as int).push(
                self.received_lines@[i as int]@,
            ));
            i = i + 1;
        }
        assert(self.lines().take(n as int) =~= self.lines());
        crate::text::join_newline(all.as_slice())
    }

    /// How many log lines the search text selects.
    pub fn shown_line_count(&self) -> (n: usize)
        ensures
            n == lines_containing(self.lines(), self.search_text@).len(),
    {
        let needle = chars_of(self.search_text.as_str());
        let total = self.received_lines.len();
        let mut count: usize = 0;
        let mut i: usize = 0;
        while i < total
            invariant
                i <= total,
                total == self.received_lines@.len(),
                needle@ == self.search_text@,
                count == lines_containing(self.lines().take(i as int), self.search_text@).len(),
                count <= i,
            decreases total - i,
        {
            let cs = chars_of(self.received_lines[i].as_str());
            proof {
                assert(self.lines().take(i + 1).drop_last() =~= self.lines().take(i as int));
                assert(self.lines().take(i + 1).last() == self.received_lines@[i as int]@);
            }
            if crate::text::chars_contain(cs.as_slice(), needle.as_slice()) {
                count = count + 1;
            }
            i = i + 1;
        }
        assert(self.lines().take(total as int) =~= self.lines());
        count
    }

    /// Handles received data: the byte count grows by `len`; unless
    /// receiving is paused, each non-empty line of the shown form (`hex` in
    /// hexadecimal display, else `ascii`) is appended with the `[RX]` prefix,
    /// preceded by the time stamp `stamp` when there is one.  The result
    /// tells whether the receive area must be refreshed: when scrolling
    /// automatically or filtering by a search text.
    pub fn data_received_at(&mut self, ascii: String, hex: String, len: usize, stamp: Option<String>) -> (refresh: bool)
        requires
            old(self).wf(),
            old(self).rx_count + len <= usize::MAX,
        ensures
            final(self).same_settings(*old(self)),
            final(self).wf(),
            final(self).rx_count == old(self).rx_count + len,
            old(self).pause_receive ==> final(self).lines() == old(self).lines() && !refresh,
            !old(self).pause_receive ==> final(self).lines() == appended_all(
                old(self).lines(),
                rx_lines(if old(self).hex_display { hex@ } else { ascii@ }, rx_prefix(stamp)),
            ) && refresh == (old(self).auto_scroll || old(self).search_text@.len() > 0),
            final(self).tx_count == old(self).tx_count,
            final(self).search_text == old(self).search_text,
            final(self).history_nav_index == old(self).history_nav_index,
    {
        self.rx_count = self.rx_count + len;
        if self.pause_receive {
            return false;
        }
        let display = if self.hex_display { hex } else { ascii };
        let mut prefix: Vec<char> = Vec::new();
        match &stamp {
            Some(ts) => {
                push_str(&mut prefix, "[");
                push_str(&mut prefix, ts.as_str());
                push_str(&mut prefix, "] [RX] ");
            },
            None => push_str(&mut prefix, "[RX] "),
        }
        assert(prefix@ =~= rx_prefix(stamp));
        let cs = chars_of(display.as_str());
        let pieces = split_nonempty_lines(cs.as_slice());
        let ghost start = self.lines();
        let ghost all = rx_lines(display@, prefix@);
        let mut i: usize = 0;
        while i < pieces.len()
            invariant
                i <= pieces@.len(),
                self.wf(),
                cs@ == display@,
                pieces@.len() == nonempty_lines(cs@).len(),
                forall|k: int| 0 <= k < pieces@.len() ==> #[trigger] pieces@[k]@ == nonempty_lines(cs@)[k],
                all == rx_lines(display@, prefix@),
                self.lines() == appended_all(start, all.take(i as int)),
                self.rx_count == old(self).rx_count + len,
                self.tx_count == old(self).tx_count,
                self.search_text == old(self).search_text,
                self.auto_scroll == old(self).auto_scroll,
                self.same_settings(*old(self)),
                self.history_nav_index == old(self).history_nav_index,
            decreases pieces@.len() - i,
        {
            let mut line = prefix.clone();
            append_chars(&mut line, pieces[i].as_slice());
            proof {
                assert(line@ =~= prefix@ + pieces@[i as int]@);
                assert(all.take(i + 1).drop_last() =~= all.take(i as int));
                assert(all.take(i + 1).last() == line@);
            }
            self.push_line(string_of(line.as_slice()));
            i = i + 1;
        }
        assert(all.take(pieces@.len() as int) =~= all);
        self.auto_scroll || !self.search_text.as_str().is_empty()
    }

    /// Handles received data, stamping its lines with the current time in
    /// `format` when time stamps are shown.
    pub fn data_received(&mut self, ascii: String, hex: String, len: usize, format: TimestampFormat) -> (refresh: bool)
        requires
            old(self).wf(),
            old(self).rx_count + len <= usize::MAX,
        ensures
            final(self).same_settings(*old(self)),
            final(self).wf(),
            final(self).rx_count == old(self).rx_count + len,
            old(self).pause_receive ==> final(self).lines() == old(self).lines() && !refresh,
            !old(self).pause_receive ==> exists|stamp: Option<String>|
                (stamp is Some <==> old(self).show_timestamp) && (stamp matches Some(ts)
                    ==> stamp_shape(format, ts@)) && final(self).lines() == appended_all(
                    old(self).lines(),
                    rx_lines(
                        if old(self).hex_display { hex@ } else { ascii@ },
                        #[trigger] rx_prefix(stamp),
                    ),
                ),
            !old(self).pause_receive ==> refresh == (old(self).auto_scroll
                || old(self).search_text@.len() > 0),
    {
        let stamp = if self.show_timestamp && !self.pause_receive {
            Some(crate::clock::fmt_timestamp(format))
        } else {
            None
        };
        self.data_received_at(ascii, hex, len, stamp)
    }

    /// Records a successful send of `text` (`bytes` bytes): the sent-byte
    /// count grows, history browsing ends, and the `[TX]` line (`[TX HEX]`
    /// in hexadecimal mode) with the trimmed text is appended, preceded by
    /// the time stamp when there is one.
    pub fn record_sent_at(&mut self, text: &str, hex_mode: bool, bytes: usize, stamp: Option<String>)
        requires
            old(self).wf(),
            old(self).tx_count + bytes <= usize::MAX,
        ensures
            final(self).same_settings(*old(self)),
            final(self).wf(),
            final(self).tx_count == old(self).tx_count + bytes,
            final(self).rx_count == old(self).rx_count,
            final(self).history_nav_index is None,
            final(self).lines() == appended(old(self).lines(), tx_line(text@, hex_mode, stamp)),
    {
        self.tx_count = self.tx_count + bytes;
        self.history_nav_index = None;
        let line = tx_line_text(text, hex_mode, &stamp);
        self.push_line(line);
    }

    /// Appends an error line: `"[错误] "` and the message.
    pub fn push_error(&mut self, msg: &str)
        requires
            old(self).wf(),
        ensures
            final(self).same_settings(*old(self)),
            final(self).wf(),
            final(self).lines() == appended(old(self).lines(), "[错误] "@ + msg@),
            final(self).rx_count == old(self).rx_count,
            final(self).tx_count == old(self).tx_count,
            final(self).history_nav_index == old(self).history_nav_index,
    {
        let mut v: Vec<char> = Vec::new();
        push_str(&mut v, "[错误] ");
        push_str(&mut v, msg);
        self.push_line(string_of(v.as_slice()));
    }

    /// Zeroes both byte counters, as closing or losing the port does.
    pub fn reset_counters(&mut self)
        ensures
            final(self).same_settings(*old(self)),
            final(self).rx_count == 0,
            final(self).tx_count == 0,
            final(self).received_lines == old(self).received_lines,
            final(self).history_nav_index == old(self).history_nav_index,
    {
        self.rx_count = 0;
        self.tx_count = 0;
    }

    /// The Up key in the send box, with `history_len` history entries and
    /// `single_line` telling whether the send box holds a single line.  When
    /// the history is not empty and either browsing is under way or the box
    /// holds one line, browsing moves to the next older entry (the newest
    /// when starting, never past the oldest) and its index is returned;
    /// otherwise the key is left to the editor and nothing changes.
    pub fn history_up(&mut self, history_len: usize, single_line: bool) -> (r: Option<usize>)
        ensures
            final(self).rx_count == old(self).rx_count,
            final(self).tx_count == old(self).tx_count,
            final(self).same_settings(*old(self)),
            r == nav_up(old(self).history_nav_index, history_len, single_line),
            r is Some ==> final(self).history_nav_index == r,
            r is None ==> final(self).history_nav_index == old(self).history_nav_index,
            final(self).received_lines == old(self).received_lines,
    {
        if history_len > 0 && (self.history_nav_index.is_some() || single_line) {
            let next = match self.history_nav_index {
                Some(i) => {
                    if i < history_len - 1 {
                        i + 1
                    } else {
                        history_len - 1
                    }
                },
                None => 0,
            };
            self.history_nav_index = Some(next);
            Some(next)
        } else {
            None
        }
    }

    /// The Down key in the send box: while browsing, moves to the next newer
    /// entry, or leaves browsing (clearing the box) from the newest one;
    /// when not browsing, the key is left to the editor.
    pub fn history_down(&mut self) -> (r: NavDown)
        ensures
            final(self).rx_count == old(self).rx_count,
            final(self).tx_count == old(self).tx_count,
            final(self).same_settings(*old(self)),
            r == nav_down(old(self).history_nav_index),
            final(self).history_nav_index == (match r {
                NavDown::Show(i) => Some(i),
                NavDown::Leave => None,
                NavDown::NotBrowsing => None::<usize>,
            }),
            final(self).received_lines == old(self).received_lines,
    {
        match self.history_nav_index {
            None => NavDown::NotBrowsing,
            Some(i) => {
                if i == 0 {
                    self.history_nav_index = None;
                    NavDown::Leave
                } else {
                    self.history_nav_index = Some(i - 1);
                    NavDown::Show(i - 1)
                }
            },
        }
    }

    /// The period of timed sending in milliseconds: the typed number, 1000
    /// when it is not a number, and never below 100.
    pub fn timed_send_period_ms(&self) -> (ms: u64)
        ensures
            ms == timed_period(self.timed_send_interval@),
    {
        let v = match parse_u64(self.timed_send_interval.as_str()) {
            Some(v) => v,
            None => 1000,
        };
        if v < 100 {
            100
        } else {
            v
        }
    }
}

/// The log after each of `new` has been appended in turn.
pub open spec fn appended_all(lines: Seq<Seq<char>>, new: Seq<Seq<char>>) -> Seq<Seq<char>>
    decreases new.len(),
{
    if new.len() == 0 {
        lines
    } else {
        appended(appended_all(lines, new.drop_last()), new.last())
    }
}

/// The prefix of received lines: `"[RX] "`, after `"[stamp] "` when stamped.
pub open spec fn rx_prefix(stamp: Option<String>) -> Seq<char> {
    match stamp {
        Some(ts) => "["@ + ts@ + "] [RX] "@,
        None => "[RX] "@,
    }
}

/// The log lines for received text: each non-empty line behind `prefix`.
pub open spec fn rx_lines(display: Seq<char>, prefix: Seq<char>) -> Seq<Seq<char>> {
    nonempty_lines(display).map_values(|l: Seq<char>| prefix + l)
}

/// The log line for sent text.
pub open spec fn tx_line(text: Seq<char>, hex_mode: bool, stamp: Option<String>) -> Seq<char> {
    let label = if hex_mode { "[TX HEX]"@ } else { "[TX]"@ };
    match stamp {
        Some(ts) => "["@ + ts@ + "] "@ + label + " "@ + trim(text),
        None => label + " "@ + trim(text),
    }
}

/// The log line for sent text.
pub fn tx_line_text(text: &str, hex_mode: bool, stamp: &Option<String>) -> (s: String)
    ensures
        s@ == tx_line(text@, hex_mode, *stamp),
{
    let mut v: Vec<char> = Vec::new();
    match stamp {
        Some(ts) => {
            push_str(&mut v, "[");
            push_str(&mut v, ts.as_str());
            push_str(&mut v, "] ");
        },
        None => {},
    }
    if hex_mode {
        push_str(&mut v, "[TX HEX]");
    } else {
        push_str(&mut v, "[TX]");
    }
    push_str(&mut v, " ");
    let cs = chars_of(text);
    let t = trim_chars(cs.as_slice());
    append_chars(&mut v, t.as_slice());
    assert(v@ =~= tx_line(text@, hex_mode, *stamp));
    string_of(v.as_slice())
}

/// Where the Up key moves history browsing; `None` when it does not.
pub open spec fn nav_up(index: Option<usize>, history_len: usize, single_line: bool) -> Option<usize> {
    if history_len > 0 && (index is Some || single_line) {
        match index {
            Some(i) => Some(if i + 1 < history_len { (i + 1) as usize } else { (history_len - 1) as usize }),
            None => Some(0),
        }
    } else {
        None
    }
}

/// What the Down key does to history browsing.
#[derive(Debug, Clone, Copy, PartialEq, Eq, Structural)]
pub enum NavDown {
    /// Not browsing: the key goes to the editor.
    NotBrowsing,
    /// Browsing ends and the send box is cleared.
    Leave,
    /// The entry at this index is shown.
    Show(usize),
}

/// What the Down key does from browsing state `index`.
pub open spec fn nav_down(index: Option<usize>) -> NavDown {
    match index {
        None => NavDown::NotBrowsing,
        Some(i) => if i == 0 {
            NavDown::Leave
        } else {
            NavDown::Show((i - 1) as usize)
        },
    }
}

/// Whether Enter (with Ctrl held or not) sends in `mode`; otherwise it
/// breaks the line.
pub open spec fn enter_sends(mode: SendMode, ctrl_held: bool) -> bool {
    match mode {
        SendMode::EnterSend => !ctrl_held,
        SendMode::EnterNewline => ctrl_held,
    }
}

/// Whether Enter sends.
pub fn should_send(mode: SendMode, ctrl_held: bool) -> (b: bool)
    ensures
        b == enter_sends(mode, ctrl_held),
{
    match mode {
        SendMode::EnterSend => !ctrl_held,
        SendMode::EnterNewline => ctrl_held,
    }
}

/// The timed-send period for the typed interval.
pub open spec fn timed_period(typed: Seq<char>) -> u64 {
    let v: nat = match parse_unsigned(typed, u64::MAX as nat) {
        Some(v) => v,
        None => 1000,
    };
    if v < 100 {
        100
    } else {
        v as u64
    }
}

/// The text a send box holding `content` sends: the content without its
/// trailing line breaks, or nothing when that is blank.
pub open spec fn outgoing(content: Seq<char>) -> Option<Seq<char>> {
    let t = trim_end_newlines(content);
    if is_blank(t) {
        None
    } else {
        Some(t)
    }
}

/// The text to send for the send box's content, if any.
pub fn outgoing_text(content: &str) -> (r: Option<String>)
    ensures
        r matches Some(t) ==> outgoing(content@) == Some(t@),
        r is None ==> outgoing(content@) is None,
{
    let cs = chars_of(content);
    let t = strip_trailing_newlines(cs.as_slice());
    let s = string_of(t.as_slice());
    if is_blank_text(s.as_str()) {
        None
    } else {
        Some(s)
    }
}

/// The serial parameters chosen in the port panel.
pub struct PortSettings {
    /// The chosen port, such as `COM3` or `/dev/ttyUSB0`.
    pub selected_port: Option<String>,
    /// The baud rate as typed or picked; it is parsed when the port opens.
    pub selected_baud: String,
    pub selected_data_bits: Option<DataBits>,
    pub selected_stop_bits: Option<StopBits>,
    pub selected_parity: Option<Parity>,
    pub selected_flow_control: Option<FlowControl>,
    /// The DTR level, applied on open and while connected.
    pub dtr_enabled: bool,
    /// The RTS level, applied on open and while connected.
    pub rts_enabled: bool,
    /// Keep the adapter from resetting the device when the port opens.
    pub disable_modem_handshake: bool,
    /// The ports the system offers.
    pub port_list: Vec<String>,
}

/// What opening a port needs.
#[derive(Debug)]
pub struct OpenRequest {
    pub port_name: String,
    pub baud: u32,
    pub data_bits: DataBits,
    pub parity: Parity,
    pub stop_bits: StopBits,
    pub flow_control: FlowControl,
    pub disable_modem_handshake: bool,
}

/// Why the settings cannot open a port: no port chosen, or a baud rate
/// that is not a `u32`; `None` when they can.
pub open spec fn open_refusal(p: PortSettings) -> Option<Seq<char>> {
    if p.selected_port is None {
        Some("[错误] 未选择端口"@)
    } else if parse_unsigned(p.selected_baud@, u32::MAX as nat) is None {
        Some("[错误] 波特率格式错误"@)
    } else {
        None
    }
}

/// `q` opens the port chosen in `p` at its baud rate, unset choices falling
/// back to 8 data bits, no parity, 1 stop bit and no flow control.
pub open spec fn request_for(p: PortSettings, q: OpenRequest) -> bool {
    &&& p.selected_port matches Some(name) && q.port_name@ == name@
    &&& parse_unsigned(p.selected_baud@, u32::MAX as nat) == Some(q.baud as nat)
    &&& q.data_bits == (match p.selected_data_bits {
        Some(d) => d,
        None => DataBits::Eight,
    })
    &&& q.parity == (match p.selected_parity {
        Some(x) => x,
        None => Parity::Off,
    })
    &&& q.stop_bits == (match p.selected_stop_bits {
        Some(x) => x,
        None => StopBits::One,
    })
    &&& q.flow_control == (match p.selected_flow_control {
        Some(x) => x,
        None => FlowControl::Off,
    })
    &&& q.disable_modem_handshake == p.disable_modem_handshake
}

impl PortSettings {
    /// The panel as it starts, with `last_port` and `last_baud` chosen: 8
    /// data bits, 1 stop bit, no parity, no flow control, DTR and RTS low,
    /// the reset guard off and no ports listed yet.
    pub open spec fn at_start(&self, last_port: Option<String>, last_baud: String) -> bool {
        &&& self.selected_port == last_port
        &&& self.selected_baud == last_baud
        &&& self.selected_data_bits == Some(DataBits::Eight)
        &&& self.selected_stop_bits == Some(StopBits::One)
        &&& self.selected_parity == Some(Parity::Off)
        &&& self.selected_flow_control == Some(FlowControl::Off)
        &&& !self.dtr_enabled && !self.rts_enabled && !self.disable_modem_handshake
        &&& self.port_list@.len() == 0
    }

    /// The panel as it starts: the last port and baud rate used, 8 data
    /// bits, 1 stop bit, no parity, no flow control, DTR and RTS low, and no
    /// ports listed yet.
    pub fn new(last_port: Option<String>, last_baud: String) -> (p: Self)
        ensures
            p.at_start(last_port, last_baud),
    {
        PortSettings {
            selected_port: last_port,
            selected_baud: last_baud,
            selected_data_bits: Some(DataBits::Eight),
            selected_stop_bits: Some(StopBits::One),
            selected_parity: Some(Parity::Off),
            selected_flow_control: Some(FlowControl::Off),
            dtr_enabled: false,
            rts_enabled: false,
            disable_modem_handshake: false,
            port_list: Vec::new(),
        }
    }

    /// What opening the port asks for: an error line when no port is
    /// chosen or the baud rate is not a `u32`; otherwise the chosen port and
    /// parameters, unset choices falling back to 8 data bits, no parity,
    /// 1 stop bit and no flow control.
    pub fn open_request(&self) -> (r: Result<OpenRequest, String>)
        ensures
            r is Err <==> open_refusal(*self) is Some,
            r matches Err(m) ==> open_refusal(*self) == Some(m@),
            r matches Ok(q) ==> request_for(*self, q),
    {
        let port_name = match &self.selected_port {
            Some(p) => p.clone(),
            None => return Err("[错误] 未选择端口".to_string()),
        };
        let baud = match parse_u32(self.selected_baud.as_str()) {
            Some(b) => b,
            None => return Err("[错误] 波特率格式错误".to_string()),
        };
        let data_bits = match self.selected_data_bits {
            Some(d) => d,
            None => DataBits::Eight,
        };
        let parity = match self.selected_parity {
            Some(p) => p,
            None => Parity::Off,
        };
        let stop_bits = match self.selected_stop_bits {
            Some(s) => s,
            None => StopBits::One,
        };
        let flow_control = match self.selected_flow_control {
            Some(f) => f,
            None => FlowControl::Off,
        };
        Ok(OpenRequest {
            port_name,
            baud,
            data_bits,
            parity,
            stop_bits,
            flow_control,
            disable_modem_handshake: self.disable_modem_handshake,
        })
    }
}

/// The line that reports a port opened at a baud rate.
pub open spec fn connected_line(port: Seq<char>, baud: nat) -> Seq<char> {
    "[已连接] "@ + port + " @ "@ + decimal(baud)
}

/// The line that reports a port opened at a baud rate.
pub fn connected_line_text(port: &str, baud: u32) -> (s: String)
    ensures
        s@ == connected_line(port@, baud as nat),
{
    let mut v: Vec<char> = Vec::new();
    push_str(&mut v, "[已连接] ");
    push_str(&mut v, port);
    push_str(&mut v, " @ ");
    let d = decimal_text(baud as usize);
    push_str(&mut v, d.as_str());
    string_of(v.as_slice())
}

/// The caption of quick-command slot `index`: its name, or the slot's
/// default caption when the name is blank.
pub open spec fn quick_label(name: Seq<char>, index: nat) -> Seq<char> {
    if is_blank(name) {
        crate::backend::quick_commands::default_name(index)
    } else {
        name
    }
}

/// The caption of the quick-command button for `cmd` in slot `index`.
pub fn quick_command_label(cmd: &crate::types::QuickCommand, index: usize) -> (s: String)
    requires
        index < crate::backend::quick_commands::MAX_ITEMS,
    ensures
        s@ == quick_label(cmd.name@, index as nat),
{
    if is_blank_text(cmd.name.as_str()) {
        crate::backend::quick_commands::default_slot_name(index)
    } else {
        cmd.name.clone()
    }
}

/// The first `max` characters of `text`, with `…` after them when the text
/// is longer.
pub open spec fn preview(text: Seq<char>, max: nat) -> Seq<char> {
    if text.len() > max {
        text.take(max as int).push('…')
    } else {
        text
    }
}

/// The caption of a history entry: its time in brackets, then the first
/// `max_chars` characters of its text.
pub fn history_entry_label(item: &crate::types::HistoryItem, max_chars: usize) -> (s: String)
    ensures
        s@ == "["@ + item.time@ + "] "@ + preview(item.text@, max_chars as nat),
{
    let cs = chars_of(item.text.as_str());
    let mut v: Vec<char> = Vec::new();
    push_str(&mut v, "[");
    push_str(&mut v, item.time.as_str());
    push_str(&mut v, "] ");
    let ghost head = v@;
    let n = if cs.len() > max_chars { max_chars } else { cs.len() };
    let mut i: usize = 0;
    while i < n
        invariant
            i <= n <= cs@.len(),
            v@ == head + cs@.take(i as int),
        decreases n - i,
    {
        v.push(cs[i]);
        assert(cs@.take(i + 1) =~= cs@.take(i as int).push(cs@[i as int]));
        i = i + 1;
    }
    if cs.len() > max_chars {
        v.push('…');
    } else {
        assert(cs@.take(n as int) =~= cs@);
    }
    assert(v@ =~= "["@ + item.time@ + "] "@ + preview(item.text@, max_chars as nat));
    string_of(v.as_slice())
}

} // verus!
