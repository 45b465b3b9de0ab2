//! The settings a port is opened with and data is sent with, and the
//! labels under which they are shown.
use vstd::prelude::*;
use vstd::string::StringExecFns;

verus! {

/// Bits per character.
#[derive(Clone, Copy, PartialEq, Eq, Structural, Debug)]
pub enum DataBits {
    Five,
    Six,
    Seven,
    Eight,
}

/// Stop bits after each character.
#[derive(Clone, Copy, PartialEq, Eq, Structural, Debug)]
pub enum StopBits {
    One,
    Two,
}

/// The parity check of each character.
#[derive(Clone, Copy, PartialEq, Eq, Structural, Debug)]
pub enum Parity {
    Off,
    Odd,
    Even,
}

/// Flow control.
#[derive(Clone, Copy, PartialEq, Eq, Structural, Debug)]
pub enum FlowCtrl {
    Off,
    Hardware,
    Software,
}

/// The line ending appended to each message sent.
#[derive(Clone, Copy, PartialEq, Eq, Structural, Debug)]
pub enum Newline {
    Off,
    CrLf,
    Cr,
    Lf,
}

/// Which rendering of the received data is shown.
#[derive(Clone, Copy, PartialEq, Eq, Structural, Debug)]
pub enum ViewMode {
    Ascii,
    Hex,
}

impl DataBits {
    /// The label of the setting: the number of bits.
    pub open spec fn label_text(self) -> Seq<char> {
        match self {
            DataBits::Five => "5"@,
            DataBits::Six => "6"@,
            DataBits::Seven => "7"@,
            DataBits::Eight => "8"@,
        }
    }

    /// The label of the setting: the number of bits.
    pub fn label(self) -> (r: String)
        ensures
            r@ == self.label_text(),
    {
        match self {
            DataBits::Five => String::from_str("5"),
            DataBits::Six => String::from_str("6"),
            DataBits::Seven => String::from_str("7"),
            DataBits::Eight => String::from_str("8"),
        }
    }
}

impl StopBits {
    /// The label of the setting: the number of stop bits.
    pub open spec fn label_text(self) -> Seq<char> {
        match self {
            StopBits::One => "1"@,
            StopBits::Two => "2"@,
        }
    }

    /// The label of the setting: the number of stop bits.
    pub fn label(self) -> (r: String)
        ensures
            r@ == self.label_text(),
    {
        match self {
            StopBits::One => String::from_str("1"),
            StopBits::Two => String::from_str("2"),
        }
    }
}

impl Parity {
    /// The label of the setting.
    pub open spec fn label_text(self) -> Seq<char> {
        match self {
            Parity::Off => "None"@,
            Parity::Odd => "Odd"@,
            Parity::Even => "Even"@,
        }
    }

    /// The label of the setting.
    pub fn label(self) -> (r: String)
        ensures
            r@ == self.label_text(),
    {
        match self {
            Parity::Off => String::from_str("None"),
            Parity::Odd => String::from_str("Odd"),
            Parity::Even => String::from_str("Even"),
        }
    }
}

impl FlowCtrl {
    /// The label of the setting.
    pub open spec fn label_text(self) -> Seq<char> {
        match self {
            FlowCtrl::Off => "无"@,
            FlowCtrl::Hardware => "RTS/CTS"@,
            FlowCtrl::Software => "XON/XOFF"@,
        }
    }

    /// The label of the setting.
    pub fn label(self) -> (r: String)
        ensures
            r@ == self.label_text(),
    {
        match self {
            FlowCtrl::Off => String::from_str("无"),
            FlowCtrl::Hardware => String::from_str("RTS/CTS"),
            FlowCtrl::Software => String::from_str("XON/XOFF"),
        }
    }
}

impl Newline {
    /// The label of the setting: the escape sequence of the line ending.
    pub open spec fn label_text(self) -> Seq<char> {
        match self {
            Newline::Off => "无"@,
            Newline::CrLf => "\\r\\n"@,
            Newline::Cr => "\\r"@,
            Newline::Lf => "\\n"@,
        }
    }

    /// The label of the setting: the escape sequence of the line ending.
    pub fn label(self) -> (r: String)
        ensures
            r@ == self.label_text(),
    {
        match self {
            Newline::Off => String::from_str("无"),
            Newline::CrLf => String::from_str("\\r\\n"),
            Newline::Cr => String::from_str("\\r"),
            Newline::Lf => String::from_str("\\n"),
        }
    }

    /// The bytes of the line ending.
    pub open spec fn bytes(self) -> Seq<u8> {
        match self {
            Newline::Off => seq![],
            Newline::CrLf => seq![13u8, 10u8],
            Newline::Cr => seq![13u8],
            Newline::Lf => seq![10u8],
        }
    }
}

} // verus!
