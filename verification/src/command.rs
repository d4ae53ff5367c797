//! The controller's command set and its wire encoding.

use vstd::prelude::*;

verus! {

/// Control byte that opens every command frame. Of the two values in use
/// for the SSD1327, 0x00 and 0x80, this driver sends 0x00 throughout.
pub const CMD_CONTROL_BYTE: u8 = 0x00;

/// Control byte that opens every frame of display data.
pub const DATA_CONTROL_BYTE: u8 = 0x40;

/// Commands to be sent to the SSD1327
#[derive(Clone, Copy)]
pub enum Commands {
    /// Setup Column start and end address (0x15)
    ColumnAddress {
        /// Start address 00-7f (RESET = 00)
        start: u8,
        /// End address 00-3f (RESET = 3F)
        end: u8,
    },
    /// Setup Row start and end address (0x75)
    RowAddress {
        /// Start address 00-7f (RESET = 00)
        start: u8,
        /// End address 00-7f (RESET = 7F)
        end: u8,
    },
    /// Double byte command to select 1 out of 256 contrast steps.
    /// Contrast increases as the value increases (RESET = 7F) (0x81)
    ContrastControl(u8),
    /// Re-map setting in Graphic Display Data RAM (GDDRAM) (0xA0).
    /// Bit 0 enables column address re-map, bit 1 nibble re-map, bit 2
    /// vertical address increment, bit 4 COM re-map, bit 6 COM split odd
    /// even; the other bits are reserved. All bits are 0 after RESET.
    Remap(u8),
    /// Vertical shift by setting the starting address of display RAM
    /// from 0 ~ 127 (RESET = 00) (0xA1)
    DisplayStartLine(u8),
    /// Set vertical offset by COM from 0 ~ 127 (RESET = 00) (0xA2)
    DisplayOffset(u8),
    /// Normal Display Mode (0xA4)
    DisplayModeNormal,
    /// All ON Display Mode (0xA5)
    DisplayModeAllON,
    /// All OFF Display Mode (0xA6)
    DisplayModeAllOFF,
    /// Inverse Display Mode (0xA7)
    DisplayModeInverseDisplay,
    /// Set MUX ratio from 16MUX ~ 128MUX (0xA8)
    MUXRatio(u8),
    /// Function Selection A (0 = external VDD; 1 = internal VDD (RESET)) (0xAB)
    FunctionSelectionA(u8),
    /// External VDD (0xAB 0x00)
    SelectExternalVDD,
    /// Internal VDD (RESET) (0xAB 0x01)
    SelectInternalVDD,
    /// Turn display ON (0xAF)
    DisplayON,
    /// Turn display OFF (0xAE)
    DisplayOFF,
    /// Phase Length (0xB1)
    PhaseLength(u8),
    /// Front Clock Divider / Oscillator Frequency (0xB3)
    FrontClockDividerOscFreq(u8),
    /// GPIO: 00 pin HiZ, input disabled (always read as low); 01 pin HiZ,
    /// input enabled; 10 pin output low (RESET); 11 pin output high (0xB5)
    GPIO(u8),
    /// Second Pre-charge period of 1~15 DCLK's (RESET = 0100) (0xB6)
    SecondPreChargePeriod(u8),
    /// The default Linear Gray Scale table (0xB9)
    LinearLUT,
    /// Set pre-charge voltage level (0xBC)
    PreChargeVoltage(u8),
    /// Set COM deselect voltage level (0xBE)
    VCOMH(u8),
    /// Function Selection B: bit 1 enables the second precharge, bit 0
    /// enables external VSL; both are 0 after RESET (0xD5)
    FunctionSelectionB(u8),
    /// MCU protection status: 0x16 = Lock; 0x12 = Unlock (RESET) (0xFD)
    SetCommandLock(u8),
    /// Unlock OLED driver IC MCU interface from entering commands (RESET) (0xFD 0x12)
    CommandUnlock,
    /// Lock OLED driver IC MCU interface from entering commands (0xFD 0x16)
    CommandLock,
}

impl Commands {
    /// The opcode byte that identifies the command to the controller.
    pub open spec fn opcode(self) -> u8 {
        match self {
            Commands::ColumnAddress { .. } => 0x15,
            Commands::RowAddress { .. } => 0x75,
            Commands::ContrastControl(_) => 0x81,
            Commands::Remap(_) => 0xA0,
            Commands::DisplayStartLine(_) => 0xA1,
            Commands::DisplayOffset(_) => 0xA2,
            Commands::DisplayModeNormal => 0xA4,
            Commands::DisplayModeAllON => 0xA5,
            Commands::DisplayModeAllOFF => 0xA6,
            Commands::DisplayModeInverseDisplay => 0xA7,
            Commands::MUXRatio(_) => 0xA8,
            Commands::FunctionSelectionA(_) => 0xAB,
            Commands::SelectExternalVDD => 0xAB,
            Commands::SelectInternalVDD => 0xAB,
            Commands::DisplayON => 0xAF,
            Commands::DisplayOFF => 0xAE,
            Commands::PhaseLength(_) => 0xB1,
            Commands::FrontClockDividerOscFreq(_) => 0xB3,
            Commands::GPIO(_) => 0xB5,
            Commands::SecondPreChargePeriod(_) => 0xB6,
            Commands::LinearLUT => 0xB9,
            Commands::PreChargeVoltage(_) => 0xBC,
            Commands::VCOMH(_) => 0xBE,
            Commands::FunctionSelectionB(_) => 0xD5,
            Commands::SetCommandLock(_) => 0xFD,
            Commands::CommandUnlock => 0xFD,
            Commands::CommandLock => 0xFD,
        }
    }

    /// The bytes that follow the opcode on the wire: none for a bare
    /// command, the value for a command that sets one, both ends for a
    /// window, and a fixed tail for the commands that imply their value.
    pub open spec fn arguments(self) -> Seq<u8> {
        match self {
            Commands::ColumnAddress { start, end } => seq![start, end],
            Commands::RowAddress { start, end } => seq![start, end],
            Commands::ContrastControl(value) => seq![value],
            Commands::Remap(value) => seq![value],
            Commands::DisplayStartLine(value) => seq![value],
            Commands::DisplayOffset(value) => seq![value],
            Commands::MUXRatio(value) => seq![value],
            Commands::FunctionSelectionA(value) => seq![value],
            Commands::PhaseLength(value) => seq![value],
            Commands::FrontClockDividerOscFreq(value) => seq![value],
            Commands::GPIO(value) => seq![value],
            Commands::SecondPreChargePeriod(value) => seq![value],
            Commands::PreChargeVoltage(value) => seq![value],
            Commands::VCOMH(value) => seq![value],
            Commands::FunctionSelectionB(value) => seq![value],
            Commands::SetCommandLock(value) => seq![value],
            Commands::SelectExternalVDD => seq![0x00u8],
            Commands::SelectInternalVDD => seq![0x01u8],
            Commands::CommandUnlock => seq![0x00u8, 0x12u8],
            Commands::CommandLock => seq![0x00u8, 0x16u8],
            Commands::DisplayModeNormal
            | Commands::DisplayModeAllON
            | Commands::DisplayModeAllOFF
            | Commands::DisplayModeInverseDisplay
            | Commands::DisplayON
            | Commands::DisplayOFF
            | Commands::LinearLUT => Seq::empty(),
        }
    }

    /// The frame that goes on the bus for this command: the command control
    /// byte, the opcode, then the arguments.
    pub open spec fn frame(self) -> Seq<u8> {
        seq![CMD_CONTROL_BYTE, self.opcode()] + self.arguments()
    }

    /// Encodes the command into a four-byte buffer and the number of leading
    /// bytes of it that make up the frame. Only those bytes are protocol
    /// content; the rest of the buffer is zero padding.
    pub fn encode(self) -> (encoded: ([u8; 4], usize))
        ensures
            encoded.1 == self.frame().len(),
            2 <= encoded.1 <= 4,
            encoded.0@.take(encoded.1 as int) == self.frame(),
            encoded.0@[0] == CMD_CONTROL_BYTE,
            encoded.0@[1] == self.opcode(),
            forall|i: int| encoded.1 <= i < 4 ==> encoded.0@[i] == 0,
    {
        let encoded: ([u8; 4], usize) = match self {
            Commands::ColumnAddress { start, end } => ([CMD_CONTROL_BYTE, 0x15, start, end], 4),
            Commands::RowAddress { start, end } => ([CMD_CONTROL_BYTE, 0x75, start, end], 4),
            Commands::ContrastControl(value) => ([CMD_CONTROL_BYTE, 0x81, value, 0], 3),
            Commands::Remap(value) => ([CMD_CONTROL_BYTE, 0xA0, value, 0], 3),
            Commands::DisplayStartLine(value) => ([CMD_CONTROL_BYTE, 0xA1, value, 0], 3),
            Commands::DisplayOffset(value) => ([CMD_CONTROL_BYTE, 0xA2, value, 0], 3),
            Commands::DisplayModeNormal => ([CMD_CONTROL_BYTE, 0xA4, 0, 0], 2),
            Commands::DisplayModeAllON => ([CMD_CONTROL_BYTE, 0xA5, 0, 0], 2),
            Commands::DisplayModeAllOFF => ([CMD_CONTROL_BYTE, 0xA6, 0, 0], 2),
            Commands::DisplayModeInverseDisplay => ([CMD_CONTROL_BYTE, 0xA7, 0, 0], 2),
            Commands::MUXRatio(value) => ([CMD_CONTROL_BYTE, 0xA8, value, 0], 3),
            Commands::FunctionSelectionA(value) => ([CMD_CONTROL_BYTE, 0xAB, value, 0], 3),
            Commands::SelectExternalVDD => ([CMD_CONTROL_BYTE, 0xAB, 0x00, 0], 3),
            Commands::SelectInternalVDD => ([CMD_CONTROL_BYTE, 0xAB, 0x01, 0], 3),
            Commands::DisplayON => ([CMD_CONTROL_BYTE, 0xAF, 0, 0], 2),
            Commands::DisplayOFF => ([CMD_CONTROL_BYTE, 0xAE, 0, 0], 2),
            Commands::PhaseLength(value) => ([CMD_CONTROL_BYTE, 0xB1, value, 0], 3),
            Commands::FrontClockDividerOscFreq(value) => ([CMD_CONTROL_BYTE, 0xB3, value, 0], 3),
            Commands::GPIO(value) => ([CMD_CONTROL_BYTE, 0xB5, value, 0], 3),
            Commands::SecondPreChargePeriod(value) => ([CMD_CONTROL_BYTE, 0xB6, value, 0], 3),
            Commands::LinearLUT => ([CMD_CONTROL_BYTE, 0xB9, 0, 0], 2),
            Commands::PreChargeVoltage(value) => ([CMD_CONTROL_BYTE, 0xBC, value, 0], 3),
            Commands::VCOMH(value) => ([CMD_CONTROL_BYTE, 0xBE, value, 0], 3),
            Commands::FunctionSelectionB(value) => ([CMD_CONTROL_BYTE, 0xD5, value, 0], 3),
            Commands::SetCommandLock(value) => ([CMD_CONTROL_BYTE, 0xFD, value, 0], 3),
            Commands::CommandUnlock => ([CMD_CONTROL_BYTE, 0xFD, 0x00, 0x12], 4),
            Commands::CommandLock => ([CMD_CONTROL_BYTE, 0xFD, 0x00, 0x16], 4),
        };
        assert(encoded.0@.take(encoded.1 as int) =~= self.frame());
        encoded
    }
}

} // verus!
