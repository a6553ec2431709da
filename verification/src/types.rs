//! Serial-port parameters, application-level choices and the records the
//! library keeps.

use vstd::prelude::*;

verus! {

/// Data bits per frame.
#[derive(Debug, Clone, Copy, PartialEq, Eq, Structural)]
pub enum DataBits {
    Five,
    Six,
    Seven,
    Eight,
}

impl DataBits {
    /// The text shown for the choice.
    pub fn label(&self) -> (s: String)
        ensures
            s@ == match self {
                DataBits::Five => "5"@,
                DataBits::Six => "6"@,
                DataBits::Seven => "7"@,
                DataBits::Eight => "8"@,
            },
    {
        match self {
            DataBits::Five => "5".to_string(),
            DataBits::Six => "6".to_string(),
            DataBits::Seven => "7".to_string(),
            DataBits::Eight => "8".to_string(),
        }
    }
}

/// Stop bits per frame.
#[derive(Debug, Clone, Copy, PartialEq, Eq, Structural)]
pub enum StopBits {
    One,
    Two,
}

impl StopBits {
    /// The text shown for the choice.
    pub fn label(&self) -> (s: String)
        ensures
            s@ == match self {
                StopBits::One => "1"@,
                StopBits::Two => "2"@,
            },
    {
        match self {
            StopBits::One => "1".to_string(),
            StopBits::Two => "2".to_string(),
        }
    }
}

/// Parity checking mode.
#[derive(Debug, Clone, Copy, PartialEq, Eq, Structural)]
pub enum Parity {
    /// No parity bit.
    Off,
    Odd,
    Even,
}

impl Parity {
    /// The text shown for the choice.
    pub fn label(&self) -> (s: String)
        ensures
            s@ == match self {
                Parity::Off => "None"@,
                Parity::Odd => "Odd"@,
                Parity::Even => "Even"@,
            },
    {
        match self {
            Parity::Off => "None".to_string(),
            Parity::Odd => "Odd".to_string(),
            Parity::Even => "Even".to_string(),
        }
    }
}

/// Flow control: hardware is RTS/CTS, software is XON/XOFF.
#[derive(Debug, Clone, Copy, PartialEq, Eq, Structural)]
pub enum FlowControl {
    /// No flow control.
    Off,
    Hardware,
    Software,
}

impl FlowControl {
    /// The text shown for the choice.
    pub fn label(&self) -> (s: String)
        ensures
            s@ == match self {
                FlowControl::Off => "无"@,
                FlowControl::Hardware => "硬件"@,
                FlowControl::Software => "软件"@,
            },
    {
        match self {
            FlowControl::Off => "无".to_string(),
            FlowControl::Hardware => "硬件".to_string(),
            FlowControl::Software => "软件".to_string(),
        }
    }
}

/// Line ending appended to text sent in ASCII mode.
#[derive(Debug, Clone, Copy, PartialEq, Eq, Structural)]
pub enum LineEnding {
    /// Nothing is appended.
    Off,
    CrLf,
    Lf,
    Cr,
}

impl LineEnding {
    /// The text shown for the choice: the escape sequences, spelled out.
    pub fn label(&self) -> (s: String)
        ensures
            s@ == match self {
                LineEnding::Off => "无"@,
                LineEnding::CrLf => "\\r\\n"@,
                LineEnding::Lf => "\\n"@,
                LineEnding::Cr => "\\r"@,
            },
    {
        match self {
            LineEnding::Off => "无".to_string(),
            LineEnding::CrLf => "\\r\\n".to_string(),
            LineEnding::Lf => "\\n".to_string(),
            LineEnding::Cr => "\\r".to_string(),
        }
    }
}

/// Which splitter of the three-column layout is being dragged.
#[derive(Debug, Clone, Copy, PartialEq, Eq, Structural)]
pub enum DragTarget {
    Left,
    Right,
}

/// What the Enter key does in the send box.
#[derive(Debug, Clone, Copy, PartialEq, Eq, Structural)]
pub enum SendMode {
    /// Enter sends, Ctrl+Enter breaks the line.
    EnterSend,
    /// Enter breaks the line, Ctrl+Enter sends.
    EnterNewline,
}

impl Default for SendMode {
    fn default() -> (m: Self)
        ensures
            m == SendMode::EnterSend,
    {
        SendMode::EnterSend
    }
}

impl SendMode {
    /// The text shown for the choice.
    pub fn label(&self) -> (s: String)
        ensures
            s@ == match self {
                SendMode::EnterSend => "Enter 发送 / Ctrl+Enter 换行"@,
                SendMode::EnterNewline => "Enter 换行 / Ctrl+Enter 发送"@,
            },
    {
        match self {
            SendMode::EnterSend => "Enter 发送 / Ctrl+Enter 换行".to_string(),
            SendMode::EnterNewline => "Enter 换行 / Ctrl+Enter 发送".to_string(),
        }
    }
}

/// How time stamps in the terminal are written.
#[derive(Debug, Clone, Copy, PartialEq, Eq, Structural)]
pub enum TimestampFormat {
    /// `HH:MM:SS`
    TimeOnly,
    /// `HH:MM:SS.mmm`
    TimeMsec,
    /// `YYYY-MM-DD HH:MM:SS`
    DateTime,
}

impl Default for TimestampFormat {
    fn default() -> (f: Self)
        ensures
            f == TimestampFormat::TimeOnly,
    {
        TimestampFormat::TimeOnly
    }
}

impl TimestampFormat {
    /// The text shown for the choice.
    pub fn label(&self) -> (s: String)
        ensures
            s@ == match self {
                TimestampFormat::TimeOnly => "HH:MM:SS"@,
                TimestampFormat::TimeMsec => "HH:MM:SS.mmm"@,
                TimestampFormat::DateTime => "YYYY-MM-DD HH:MM:SS"@,
            },
    {
        match self {
            TimestampFormat::TimeOnly => "HH:MM:SS".to_string(),
            TimestampFormat::TimeMsec => "HH:MM:SS.mmm".to_string(),
            TimestampFormat::DateTime => "YYYY-MM-DD HH:MM:SS".to_string(),
        }
    }
}

/// What the left panel shows.
#[derive(Debug, Clone, Copy, PartialEq, Eq, Structural)]
pub enum LeftPanelView {
    PortConfig,
    AppSettings,
}

/// One entry of the send history.
#[derive(Debug, Clone)]
pub struct HistoryItem {
    pub text: String,
    pub is_hex: bool,
    /// The time of sending, as `HH:MM:SS`; shown only.
    pub time: String,
}

/// One quick-command slot; an empty `text` marks an empty slot.
#[derive(Debug, Clone)]
pub struct QuickCommand {
    /// The button's caption; when blank, the slot's default caption is shown.
    pub name: String,
    pub text: String,
    pub is_hex: bool,
}

impl Default for QuickCommand {
    fn default() -> (c: Self)
        ensures
            c.name@ == Seq::<char>::empty(),
            c.text@ == Seq::<char>::empty(),
            !c.is_hex,
    {
        QuickCommand { name: String::new(), text: String::new(), is_hex: false }
    }
}

} // verus!
