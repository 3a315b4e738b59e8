//! Korg Z1 system-exclusive message codec.
//!
//! Byte layouts follow the Z1's MIDI implementation tables. Nothing here does
//! I/O: callers hand in and receive complete SysEx byte strings.

use vstd::prelude::*;
use vstd::string::*;

use crate::packing::{
    all_seven_bit, lemma_pack_seven_bit, lemma_unpack_pack, pack_spec, unpack_spec, unpacked,
};
pub use crate::packing::{pack_7in8, unpack_7in8};
use crate::wire::{lemma_u14_of_split14, split14, split14_spec, u14, u14_spec};

verus! {

/// Korg's MIDI manufacturer ID (second byte of the exclusive header).
pub const KORG_ID: u8 = 0x42;

/// The Z1's family ID (fourth byte of the exclusive header).
pub const Z1_ID: u8 = 0x46;

/// Start of a system-exclusive message.
pub const SYSEX_START: u8 = 0xF0;

/// End of a system-exclusive message (EOX).
pub const SYSEX_END: u8 = 0xF7;

/// High nibble of the header's third byte (`3g`, g = global channel).
pub const FORMAT_HIGH: u8 = 0x30;

/// A MIDI channel, 0–15: the Z1's global channel.
#[derive(Debug, Clone, Copy, PartialEq, Eq, Hash)]
pub struct Channel(u8);

impl View for Channel {
    type V = u8;

    closed spec fn view(&self) -> u8 {
        self.0
    }
}

impl Channel {
    /// Two values with the same number are the same value.
    pub proof fn lemma_view_injective(a: Self, b: Self)
        ensures
            a@ == b@ <==> a == b,
    {
    }

    #[verifier::type_invariant]
    spec fn inv(self) -> bool {
        self.0 < 16
    }

    /// `None` unless `n` is 0–15.
    #[must_use]
    pub fn new(n: u8) -> (r: Option<Self>)
        ensures
            r is Some <==> n < 16,
            r matches Some(c) ==> c@ == n,
    {
        if n < 16 {
            Some(Channel(n))
        } else {
            None
        }
    }

    /// The channel number.
    #[must_use]
    pub fn get(self) -> (r: u8)
        ensures
            r == self@,
            r < 16,
    {
        proof {
            use_type_invariant(&self);
        }
        self.0
    }
}

/// Parameter group of a Parameter Change (function 41h).
#[derive(Debug, Clone, Copy, PartialEq, Eq, Hash)]
pub enum Group {
    GlobalMidi,
    Program,
    Pattern,
    Multi,
}

impl Group {
    /// The group's number on the wire.
    pub open spec fn spec_code(self) -> u8 {
        match self {
            Group::GlobalMidi => 0,
            Group::Program => 1,
            Group::Pattern => 2,
            Group::Multi => 3,
        }
    }

    /// The group a wire number names, if any.
    pub open spec fn spec_from_code(code: u8) -> Option<Group> {
        if code == 0 {
            Some(Group::GlobalMidi)
        } else if code == 1 {
            Some(Group::Program)
        } else if code == 2 {
            Some(Group::Pattern)
        } else if code == 3 {
            Some(Group::Multi)
        } else {
            None
        }
    }

    /// A wire number names a group exactly when it is 0–3, and a group's
    /// number names that group.
    pub proof fn lemma_code_round_trip(g: Group, code: u8)
        ensures
            Group::spec_from_code(code) is Some <==> code <= 3,
            Group::spec_from_code(code) matches Some(h) ==> h.spec_code() == code,
            Group::spec_from_code(g.spec_code()) == Some(g),
    {
    }

    fn code(self) -> (r: u8)
        ensures
            r == self.spec_code(),
    {
        match self {
            Group::GlobalMidi => 0,
            Group::Program => 1,
            Group::Pattern => 2,
            Group::Multi => 3,
        }
    }

    fn from_code(code: u8) -> (r: Option<Group>)
        ensures
            r == Group::spec_from_code(code),
    {
        match code {
            0 => Some(Group::GlobalMidi),
            1 => Some(Group::Program),
            2 => Some(Group::Pattern),
            3 => Some(Group::Multi),
            _ => None,
        }
    }
}

/// A 14-bit parameter ID (0–16383), sent as two 7-bit bytes LSB-first.
#[derive(Debug, Clone, Copy, PartialEq, Eq, Hash, PartialOrd, Ord)]
pub struct ParamId(u16);

impl View for ParamId {
    type V = u16;

    closed spec fn view(&self) -> u16 {
        self.0
    }
}

impl ParamId {
    /// Two values with the same number are the same value.
    pub proof fn lemma_view_injective(a: Self, b: Self)
        ensures
            a@ == b@ <==> a == b,
    {
    }

    #[verifier::type_invariant]
    spec fn inv(self) -> bool {
        self.0 < 0x4000
    }

    /// `None` unless `id` fits in 14 bits.
    #[must_use]
    pub fn new(id: u16) -> (r: Option<Self>)
        ensures
            r is Some <==> id < 0x4000,
            r matches Some(p) ==> p@ == id,
    {
        if id < 0x4000 {
            Some(ParamId(id))
        } else {
            None
        }
    }

    /// The ID.
    #[must_use]
    pub fn get(self) -> (r: u16)
        ensures
            r == self@,
            r < 0x4000,
    {
        proof {
            use_type_invariant(&self);
        }
        self.0
    }
}

/// The 14-bit two's complement pattern of `v`: `v` modulo 2^14.
pub open spec fn raw14_spec(v: i16) -> u16 {
    ((v as int) % 0x4000) as u16
}

/// The signed number that the low 14 bits of `raw` denote in two's complement.
pub open spec fn from_raw14_spec(raw: u16) -> i16 {
    let r = raw % 0x4000;
    if r >= 0x2000 {
        (r - 0x4000) as i16
    } else {
        r as i16
    }
}

/// A 14-bit signed parameter value (−8192–8191), sent as two 7-bit bytes
/// LSB-first in two's complement.
#[derive(Debug, Clone, Copy, PartialEq, Eq, Hash, PartialOrd, Ord)]
pub struct Value(i16);

impl View for Value {
    type V = i16;

    closed spec fn view(&self) -> i16 {
        self.0
    }
}

impl Value {
    /// Two values with the same number are the same value.
    pub proof fn lemma_view_injective(a: Self, b: Self)
        ensures
            a@ == b@ <==> a == b,
    {
    }

    /// The least value.
    pub const MIN: i16 = -0x2000;

    /// The greatest value.
    pub const MAX: i16 = 0x1FFF;

    #[verifier::type_invariant]
    spec fn inv(self) -> bool {
        -0x2000 <= self.0 <= 0x1FFF
    }

    /// `None` unless `v` fits in signed 14 bits.
    #[must_use]
    pub fn new(v: i16) -> (r: Option<Self>)
        ensures
            r is Some <==> -0x2000 <= v <= 0x1FFF,
            r matches Some(x) ==> x@ == v,
    {
        if v >= Self::MIN && v <= Self::MAX {
            Some(Value(v))
        } else {
            None
        }
    }

    /// The value.
    #[must_use]
    pub fn get(self) -> (r: i16)
        ensures
            r == self@,
            -0x2000 <= r <= 0x1FFF,
    {
        proof {
            use_type_invariant(&self);
        }
        self.0
    }

    /// The value's 14-bit two's complement wire pattern.
    pub fn to_raw14(self) -> (r: u16)
        ensures
            r == raw14_spec(self@),
            r < 0x4000,
    {
        proof {
            use_type_invariant(&self);
        }
        let x: i16 = self.0;
        let wide: i32 = x as i32;
        let masked: i32 = wide & 0x3FFF;
        assert(0 <= masked < 0x4000 && (x >= 0 ==> masked == x) && (x < 0 ==> masked == x + 0x4000)) by (bit_vector)
            requires
                wide == x as i32,
                masked == wide & 0x3FFF,
                -0x2000 <= x <= 0x1FFF,
        ;
        masked as u16
    }

    /// The value whose 14-bit two's complement pattern is the low 14 bits of
    /// `raw`.
    pub fn from_raw14(raw: u16) -> (r: Self)
        ensures
            r@ == from_raw14_spec(raw),
    {
        let low: u16 = raw & 0x3FFF;
        let flipped: i32 = (low as i32) ^ 0x2000;
        let signed: i32 = flipped.wrapping_sub(0x2000);
        assert(low == raw % 0x4000) by (bit_vector)
            requires
                low == raw & 0x3FFF,
        ;
        assert((low >= 0x2000 ==> signed == low - 0x4000) && (low < 0x2000 ==> signed == low)) by (bit_vector)
            requires
                low < 0x4000,
                flipped == (low as i32) ^ 0x2000,
                signed == flipped.wrapping_sub(0x2000),
        ;
        Value(signed as i16)
    }
}

/// A program slot number, 0–127.
#[derive(Debug, Clone, Copy, PartialEq, Eq, Hash, PartialOrd, Ord)]
pub struct ProgramNo(u8);

impl View for ProgramNo {
    type V = u8;

    closed spec fn view(&self) -> u8 {
        self.0
    }
}

impl ProgramNo {
    /// Two values with the same number are the same value.
    pub proof fn lemma_view_injective(a: Self, b: Self)
        ensures
            a@ == b@ <==> a == b,
    {
    }

    #[verifier::type_invariant]
    spec fn inv(self) -> bool {
        self.0 < 128
    }

    /// `None` unless `n` is 0–127.
    #[must_use]
    pub fn new(n: u8) -> (r: Option<Self>)
        ensures
            r is Some <==> n < 128,
            r matches Some(p) ==> p@ == n,
    {
        if n < 128 {
            Some(ProgramNo(n))
        } else {
            None
        }
    }

    /// The slot number.
    #[must_use]
    pub fn get(self) -> (r: u8)
        ensures
            r == self@,
            r < 128,
    {
        proof {
            use_type_invariant(&self);
        }
        self.0
    }
}

/// Program bank A or B.
#[derive(Debug, Clone, Copy, PartialEq, Eq, Hash)]
pub enum Bank {
    A,
    B,
}

impl Bank {
    /// The bank's number on the wire.
    pub open spec fn spec_code(self) -> u8 {
        match self {
            Bank::A => 0,
            Bank::B => 1,
        }
    }

    /// The bank a wire number names, if any.
    pub open spec fn spec_from_code(code: u8) -> Option<Bank> {
        if code == 0 {
            Some(Bank::A)
        } else if code == 1 {
            Some(Bank::B)
        } else {
            None
        }
    }

    /// A wire number names a bank exactly when it is 0 or 1, and a bank's
    /// number names that bank.
    pub proof fn lemma_code_round_trip(b: Bank, code: u8)
        ensures
            Bank::spec_from_code(code) is Some <==> code <= 1,
            Bank::spec_from_code(code) matches Some(c) ==> c.spec_code() == code,
            Bank::spec_from_code(b.spec_code()) == Some(b),
    {
    }

    fn code(self) -> (r: u8)
        ensures
            r == self.spec_code(),
    {
        match self {
            Bank::A => 0,
            Bank::B => 1,
        }
    }

    fn from_code(code: u8) -> (r: Option<Bank>)
        ensures
            r == Bank::spec_from_code(code),
    {
        match code {
            0 => Some(Bank::A),
            1 => Some(Bank::B),
            _ => None,
        }
    }
}

/// What a Program Data Dump Request (function 1Ch) asks for.
#[derive(Debug, Clone, Copy, PartialEq, Eq, Hash)]
pub enum DumpScope {
    /// One program.
    Single { bank: Bank, program: ProgramNo },
    /// One full bank.
    Bank(Bank),
    /// Both banks.
    All,
}

/// The mathematical value of a [`DumpScope`]: the program slot as a number.
pub enum DumpScopeModel {
    Single { bank: Bank, program: u8 },
    Bank(Bank),
    All,
}

impl View for DumpScope {
    type V = DumpScopeModel;

    open spec fn view(&self) -> DumpScopeModel {
        match self {
            DumpScope::Single { bank, program } => DumpScopeModel::Single {
                bank: *bank,
                program: program@,
            },
            DumpScope::Bank(bank) => DumpScopeModel::Bank(*bank),
            DumpScope::All => DumpScopeModel::All,
        }
    }
}

impl DumpScopeModel {
    /// Every program number in the scope is in range.
    pub open spec fn wf(self) -> bool {
        match self {
            DumpScopeModel::Single { program, .. } => program < 128,
            _ => true,
        }
    }

    /// The `00uu000b` unit/bank byte and the program byte of the request.
    pub open spec fn unit_and_program(self) -> (u8, u8) {
        match self {
            DumpScopeModel::Single { bank, program } => (bank.spec_code(), program),
            DumpScopeModel::Bank(bank) => ((0x10 + bank.spec_code()) as u8, 0),
            DumpScopeModel::All => (0x20, 0),
        }
    }

    /// The scope named by a unit/bank byte and a program byte. The byte must
    /// have the form `00uu000b` with unit `uu` 0 (one program), 1 (one bank)
    /// or 2 (both banks) and bank bit `b`; the program byte counts only for a
    /// single program, whose slot must be below 128.
    pub open spec fn decode(unit_bank: u8, program: u8) -> Option<DumpScopeModel> {
        let bank = if unit_bank % 2 == 0 {
            Bank::A
        } else {
            Bank::B
        };
        let unit = unit_bank / 16;
        if unit_bank % 16 > 1 {
            None
        } else if unit == 0 {
            if program < 128 {
                Some(DumpScopeModel::Single { bank, program })
            } else {
                None
            }
        } else if unit == 1 {
            Some(DumpScopeModel::Bank(bank))
        } else if unit == 2 {
            Some(DumpScopeModel::All)
        } else {
            None
        }
    }
}

impl DumpScope {
    fn unit_and_program(self) -> (r: (u8, u8))
        ensures
            r == self@.unit_and_program(),
    {
        match self {
            DumpScope::Single { bank, program } => (bank.code(), program.get()),
            DumpScope::Bank(bank) => {
                let code = bank.code();
                let unit: u8 = 0x10 | code;
                assert(unit == 0x10 + code) by (bit_vector)
                    requires
                        code < 2,
                        unit == 0x10 | code,
                ;
                (unit, 0)
            },
            DumpScope::All => (0x20, 0),
        }
    }

    fn decode(unit_bank: u8, program: u8) -> (r: Option<DumpScope>)
        ensures
            r is Some <==> DumpScopeModel::decode(unit_bank, program) is Some,
            r matches Some(scope) ==> DumpScopeModel::decode(unit_bank, program) == Some(scope@),
    {
        let stray: u8 = unit_bank & 0xCE;
        let bank_bit: u8 = unit_bank & 0x01;
        let unit: u8 = unit_bank & 0x30;
        assert((stray == 0) == (unit_bank % 16 <= 1 && unit_bank < 0x40) && bank_bit == unit_bank
            % 2 && unit == 16 * ((unit_bank / 16) % 4)) by (bit_vector)
            requires
                stray == unit_bank & 0xCE,
                bank_bit == unit_bank & 0x01,
                unit == unit_bank & 0x30,
        ;
        if stray != 0 {
            return None;
        }
        let bank = match Bank::from_code(bank_bit) {
            Some(b) => b,
            None => {
                return None;
            },
        };
        match unit {
            0x00 => match ProgramNo::new(program) {
                Some(p) => Some(DumpScope::Single { bank, program: p }),
                None => None,
            },
            0x10 => Some(DumpScope::Bank(bank)),
            0x20 => Some(DumpScope::All),
            _ => None,
        }
    }
}

/// Why a byte string failed to decode.
#[derive(Debug, Clone, Copy, PartialEq, Eq)]
pub enum DecodeError {
    /// Does not start with `F0` / end with `F7`.
    NotSysEx,
    /// Valid SysEx, but not a Korg Z1 exclusive header.
    NotKorgZ1,
    /// Z1 header without a complete function/EOX.
    Truncated,
    /// A function ID the Z1 does not define (or one not modeled here).
    UnknownFunction(u8),
    /// Known function, payload does not match its layout.
    Malformed,
    /// Dump data contained a byte with the top bit set.
    HighBitInData,
}

/// The lower-case hexadecimal digit for `n` (0–15).
pub open spec fn hex_digit(n: int) -> char {
    "0123456789abcdef"@[n]
}

impl DecodeError {
    /// The text that describes the error.
    pub open spec fn spec_message(self) -> Seq<char> {
        match self {
            DecodeError::NotSysEx => "not a SysEx message"@,
            DecodeError::NotKorgZ1 => "not a Korg Z1 exclusive message"@,
            DecodeError::Truncated => "truncated Z1 message"@,
            DecodeError::UnknownFunction(id) => "unknown Z1 function 0x"@ + seq![
                hex_digit((id / 16) as int),
                hex_digit((id % 16) as int),
            ],
            DecodeError::Malformed => "payload does not match the spec layout"@,
            DecodeError::HighBitInData => "dump data byte has the high bit set"@,
        }
    }

    /// A human-readable description of the error; an unknown function ID is
    /// shown as `0x` and two lower-case hex digits.
    pub fn message(&self) -> (r: String)
        ensures
            r@ == self.spec_message(),
    {
        match self {
            DecodeError::NotSysEx => String::from_str("not a SysEx message"),
            DecodeError::NotKorgZ1 => String::from_str("not a Korg Z1 exclusive message"),
            DecodeError::Truncated => String::from_str("truncated Z1 message"),
            DecodeError::UnknownFunction(id) => {
                let digits = "0123456789abcdef";
                proof {
                    reveal_strlit("0123456789abcdef");
                }
                let hi = (*id / 16) as usize;
                let lo = (*id % 16) as usize;
                let mut text = String::from_str("unknown Z1 function 0x");
                text.append(digits.substring_char(hi, hi + 1));
                text.append(digits.substring_char(lo, lo + 1));
                assert(digits@.subrange(hi as int, hi + 1) =~= seq![hex_digit(hi as int)]);
                assert(digits@.subrange(lo as int, lo + 1) =~= seq![hex_digit(lo as int)]);
                assert(text@ =~= self.spec_message());
                text
            },
            DecodeError::Malformed => String::from_str("payload does not match the spec layout"),
            DecodeError::HighBitInData => String::from_str("dump data byte has the high bit set"),
        }
    }
}

/// A Z1-exclusive SysEx message (`F0 42 3g 46 … F7`).
#[derive(Debug, Clone, PartialEq, Eq)]
pub enum Message {
    /// Function 41h: one parameter edit, in either direction.
    ParameterChange { group: Group, id: ParamId, value: Value },
    /// Function 10h: ask for the edit buffer; the Z1 answers with
    /// [`Message::CurrentProgramDump`].
    CurrentProgramDumpRequest,
    /// Function 1Ch: ask for stored programs; the Z1 answers with a
    /// Program Data Dump (function 4Ch, not modeled here).
    ProgramDumpRequest(DumpScope),
    /// Function 11h: write the edit buffer to a program slot.
    ProgramWriteRequest { bank: Bank, program: ProgramNo },
    /// Function 40h: the edit buffer. `data` is the unpacked payload
    /// (8-bit bytes; the 7-in-8 wire packing is handled by the codec).
    CurrentProgramDump(Vec<u8>),
    /// Function 26h.
    DataFormatError,
    /// Function 23h: ACK for received data.
    DataLoadCompleted,
    /// Function 24h: NAK for received data.
    DataLoadError,
    /// Function 21h: ACK for a write request.
    WriteCompleted,
    /// Function 22h: NAK for a write request.
    WriteError,
}

/// The mathematical value of a [`Message`]: the same variants, with numbers
/// in place of the range-checked types and the dump data as a sequence of
/// bytes.
pub enum MessageModel {
    ParameterChange { group: Group, id: u16, value: i16 },
    CurrentProgramDumpRequest,
    ProgramDumpRequest(DumpScopeModel),
    ProgramWriteRequest { bank: Bank, program: u8 },
    CurrentProgramDump(Seq<u8>),
    DataFormatError,
    DataLoadCompleted,
    DataLoadError,
    WriteCompleted,
    WriteError,
}

impl View for Message {
    type V = MessageModel;

    open spec fn view(&self) -> MessageModel {
        match self {
            Message::ParameterChange { group, id, value } => MessageModel::ParameterChange {
                group: *group,
                id: id@,
                value: value@,
            },
            Message::CurrentProgramDumpRequest => MessageModel::CurrentProgramDumpRequest,
            Message::ProgramDumpRequest(scope) => MessageModel::ProgramDumpRequest(scope@),
            Message::ProgramWriteRequest { bank, program } => MessageModel::ProgramWriteRequest {
                bank: *bank,
                program: program@,
            },
            Message::CurrentProgramDump(data) => MessageModel::CurrentProgramDump(data@),
            Message::DataFormatError => MessageModel::DataFormatError,
            Message::DataLoadCompleted => MessageModel::DataLoadCompleted,
            Message::DataLoadError => MessageModel::DataLoadError,
            Message::WriteCompleted => MessageModel::WriteCompleted,
            Message::WriteError => MessageModel::WriteError,
        }
    }
}

impl MessageModel {
    /// Every number in the message is in its range.
    pub open spec fn wf(self) -> bool {
        match self {
            MessageModel::ParameterChange { id, value, .. } => id < 0x4000 && -0x2000 <= value
                <= 0x1FFF,
            MessageModel::ProgramDumpRequest(scope) => scope.wf(),
            MessageModel::ProgramWriteRequest { program, .. } => program < 128,
            _ => true,
        }
    }

    /// The function ID and payload bytes of the message.
    pub open spec fn function_and_payload(self) -> Seq<u8> {
        match self {
            MessageModel::ParameterChange { group, id, value } => {
                let (id_l, id_m) = split14_spec(id);
                let (v_l, v_m) = split14_spec(raw14_spec(value));
                seq![0x41, group.spec_code(), id_l, id_m, v_l, v_m]
            },
            MessageModel::CurrentProgramDumpRequest => seq![0x10, 0x00],
            MessageModel::ProgramDumpRequest(scope) => {
                let (unit_bank, program) = scope.unit_and_program();
                seq![0x1C, unit_bank, program, 0x00]
            },
            MessageModel::ProgramWriteRequest { bank, program } => seq![
                0x11,
                bank.spec_code(),
                program,
            ],
            MessageModel::CurrentProgramDump(data) => seq![0x40u8, 0x01u8] + pack_spec(data),
            MessageModel::DataFormatError => seq![0x26],
            MessageModel::DataLoadCompleted => seq![0x23],
            MessageModel::DataLoadError => seq![0x24, 0x00],
            MessageModel::WriteCompleted => seq![0x21],
            MessageModel::WriteError => seq![0x22, 0x00],
        }
    }

    /// The complete SysEx byte string of the message on global channel
    /// `channel`: `F0 42 3g 46`, the function and payload, `F7`.
    pub open spec fn encode(self, channel: u8) -> Seq<u8> {
        seq![SYSEX_START, KORG_ID, (FORMAT_HIGH + channel) as u8, Z1_ID] + self.function_and_payload()
            + seq![SYSEX_END]
    }
}

/// Whether `function` is one of the function IDs modeled here.
pub open spec fn is_known_function(function: u8) -> bool {
    function == 0x41 || function == 0x10 || function == 0x1C || function == 0x11 || function
        == 0x40 || function == 0x26 || function == 0x23 || function == 0x24 || function == 0x21
        || function == 0x22
}

/// The message that a function ID and its payload denote, or why they denote
/// none.
pub open spec fn decode_function_spec(function: u8, p: Seq<u8>) -> Result<MessageModel, DecodeError> {
    if function == 0x41 && p.len() == 5 {
        match Group::spec_from_code(p[0]) {
            Some(group) => Ok(
                MessageModel::ParameterChange {
                    group,
                    id: u14_spec(p[1], p[2]),
                    value: from_raw14_spec(u14_spec(p[3], p[4])),
                },
            ),
            None => Err(DecodeError::Malformed),
        }
    } else if function == 0x10 && p.len() == 1 && p[0] == 0 {
        Ok(MessageModel::CurrentProgramDumpRequest)
    } else if function == 0x1C && p.len() == 3 && p[2] == 0 {
        match DumpScopeModel::decode(p[0], p[1]) {
            Some(scope) => Ok(MessageModel::ProgramDumpRequest(scope)),
            None => Err(DecodeError::Malformed),
        }
    } else if function == 0x11 && p.len() == 2 {
        match Bank::spec_from_code(p[0]) {
            Some(bank) => if p[1] < 128 {
                Ok(MessageModel::ProgramWriteRequest { bank, program: p[1] })
            } else {
                Err(DecodeError::Malformed)
            },
            None => Err(DecodeError::Malformed),
        }
    } else if function == 0x40 && p.len() >= 1 && p[0] == 0x01 {
        match unpack_spec(p.skip(1)) {
            Ok(data) => Ok(MessageModel::CurrentProgramDump(data)),
            Err(e) => Err(e),
        }
    } else if function == 0x26 && p.len() == 0 {
        Ok(MessageModel::DataFormatError)
    } else if function == 0x23 && p.len() == 0 {
        Ok(MessageModel::DataLoadCompleted)
    } else if function == 0x24 && p.len() == 1 && p[0] == 0 {
        Ok(MessageModel::DataLoadError)
    } else if function == 0x21 && p.len() == 0 {
        Ok(MessageModel::WriteCompleted)
    } else if function == 0x22 && p.len() == 1 && p[0] == 0 {
        Ok(MessageModel::WriteError)
    } else if is_known_function(function) {
        Err(DecodeError::Malformed)
    } else {
        Err(DecodeError::UnknownFunction(function))
    }
}

/// What a complete SysEx byte string decodes to: the global channel and the
/// message, or why it is not a Z1 message.
///
/// `F0 42 3g 46 <function> <payload…> F7` (at least six bytes, `g` the
/// channel) decodes by its function; with another high nibble than 3 in the
/// third byte it is no Z1 message; `F0 42 ? 46` without a function and EOX is
/// truncated; another string that starts with `F0` is no Z1 message; the
/// rest is no SysEx at all.
pub open spec fn decode_spec(s: Seq<u8>) -> Result<(u8, MessageModel), DecodeError> {
    let n = s.len();
    if n >= 4 && s[0] == SYSEX_START && s[1] == KORG_ID && s[3] == Z1_ID {
        if n >= 6 && s[n - 1] == SYSEX_END {
            if s[2] / 16 == 3 {
                match decode_function_spec(s[4], s.subrange(5, n - 1)) {
                    Ok(m) => Ok(((s[2] % 16) as u8, m)),
                    Err(e) => Err(e),
                }
            } else {
                Err(DecodeError::NotKorgZ1)
            }
        } else {
            Err(DecodeError::Truncated)
        }
    } else if n >= 2 && s[0] == SYSEX_START && s[n - 1] == SYSEX_END {
        Err(DecodeError::NotKorgZ1)
    } else {
        Err(DecodeError::NotSysEx)
    }
}

/// The view of a decoding result.
pub open spec fn decoded_view(r: Result<(Channel, Message), DecodeError>) -> Result<(u8, MessageModel), DecodeError> {
    match r {
        Ok((c, m)) => Ok((c@, m@)),
        Err(e) => Err(e),
    }
}

/// The view of a function decoding result.
pub open spec fn message_result_view(r: Result<Message, DecodeError>) -> Result<MessageModel, DecodeError> {
    match r {
        Ok(m) => Ok(m@),
        Err(e) => Err(e),
    }
}

impl Message {
    /// Encode to a complete SysEx byte string for the given global channel.
    ///
    /// Also states that the message's numbers are in range, which
    /// [`lemma_decode_encode`] asks for.
    #[must_use]
    pub fn encode(&self, channel: Channel) -> (r: Vec<u8>)
        ensures
            r@ == self@.encode(channel@),
            self@.wf(),
            channel@ < 16,
    {
        proof {
            match self {
                Message::ParameterChange { id, value, .. } => {
                    use_type_invariant(id);
                    use_type_invariant(value);
                },
                Message::ProgramDumpRequest(scope) => {
                    match scope {
                        DumpScope::Single { program, .. } => {
                            use_type_invariant(program);
                        },
                        _ => {},
                    }
                },
                Message::ProgramWriteRequest { program, .. } => {
                    use_type_invariant(program);
                },
                _ => {},
            }
        }
        let c = channel.get();
        let format: u8 = FORMAT_HIGH | c;
        assert(format == 0x30 + c) by (bit_vector)
            requires
                c < 16,
                format == 0x30 | c,
        ;
        let mut out: Vec<u8> = Vec::new();
        out.push(SYSEX_START);
        out.push(KORG_ID);
        out.push(format);
        out.push(Z1_ID);
        let mut body = self.function_and_payload();
        out.append(&mut body);
        out.push(SYSEX_END);
        assert(out@ =~= self@.encode(channel@));
        out
    }

    fn function_and_payload(&self) -> (r: Vec<u8>)
        ensures
            r@ == self@.function_and_payload(),
    {
        let mut out: Vec<u8> = Vec::new();
        match self {
            Message::ParameterChange { group, id, value } => {
                let (id_l, id_m) = split14(id.get());
                let (v_l, v_m) = split14(value.to_raw14());
                out.push(0x41);
                out.push(group.code());
                out.push(id_l);
                out.push(id_m);
                out.push(v_l);
                out.push(v_m);
            },
            Message::CurrentProgramDumpRequest => {
                out.push(0x10);
                out.push(0x00);
            },
            Message::ProgramDumpRequest(scope) => {
                let (unit_bank, program) = scope.unit_and_program();
                out.push(0x1C);
                out.push(unit_bank);
                out.push(program);
                out.push(0x00);
            },
            Message::ProgramWriteRequest { bank, program } => {
                out.push(0x11);
                out.push(bank.code());
                out.push(program.get());
            },
            Message::CurrentProgramDump(data) => {
                out.push(0x40);
                out.push(0x01);
                let mut packed = pack_7in8(data.as_slice());
                out.append(&mut packed);
            },
            Message::DataFormatError => {
                out.push(0x26);
            },
            Message::DataLoadCompleted => {
                out.push(0x23);
            },
            Message::DataLoadError => {
                out.push(0x24);
                out.push(0x00);
            },
            Message::WriteCompleted => {
                out.push(0x21);
            },
            Message::WriteError => {
                out.push(0x22);
                out.push(0x00);
            },
        }
        assert(out@ =~= self@.function_and_payload());
        out
    }

    /// Decode a complete SysEx byte string.
    ///
    /// Returns the global channel from the header alongside the message.
    /// [`DecodeError::NotSysEx`] when the string is not framed by `F0` …
    /// `F7`; [`DecodeError::NotKorgZ1`] when it is, but its header is not a
    /// Z1 header; [`DecodeError::Truncated`], [`DecodeError::UnknownFunction`]
    /// or [`DecodeError::Malformed`] when it is Z1-shaped but does not match
    /// the function's layout; [`DecodeError::HighBitInData`] when dump data
    /// contains bytes with the top bit set.
    pub fn decode(bytes: &[u8]) -> (r: Result<(Channel, Self), DecodeError>)
        ensures
            decoded_view(r) == decode_spec(bytes@),
    {
        let n = bytes.len();
        if n >= 4 && bytes[0] == SYSEX_START && bytes[1] == KORG_ID && bytes[3] == Z1_ID {
            if n >= 6 && bytes[n - 1] == SYSEX_END {
                let format = bytes[2];
                let low: u8 = format & 0x0F;
                let high: u8 = format & 0xF0;
                assert(low == format % 16 && (high == FORMAT_HIGH) == (format / 16 == 3)) by (bit_vector)
                    requires
                        low == format & 0x0F,
                        high == format & 0xF0,
                ;
                let channel = match Channel::new(low) {
                    Some(c) => c,
                    None => {
                        return Err(DecodeError::NotKorgZ1);
                    },
                };
                if high != FORMAT_HIGH {
                    return Err(DecodeError::NotKorgZ1);
                }
                let payload = &bytes[5..n - 1];
                match Self::decode_function(bytes[4], payload) {
                    Ok(m) => Ok((channel, m)),
                    Err(e) => Err(e),
                }
            } else {
                Err(DecodeError::Truncated)
            }
        } else if n >= 2 && bytes[0] == SYSEX_START && bytes[n - 1] == SYSEX_END {
            Err(DecodeError::NotKorgZ1)
        } else {
            Err(DecodeError::NotSysEx)
        }
    }

    fn decode_function(function: u8, payload: &[u8]) -> (r: Result<Self, DecodeError>)
        ensures
            message_result_view(r) == decode_function_spec(function, payload@),
    {
        let n = payload.len();
        if function == 0x41 && n == 5 {
            let group = match Group::from_code(payload[0]) {
                Some(g) => g,
                None => {
                    return Err(DecodeError::Malformed);
                },
            };
            let id = match ParamId::new(u14(payload[1], payload[2])) {
                Some(id) => id,
                None => {
                    return Err(DecodeError::Malformed);
                },
            };
            let value = Value::from_raw14(u14(payload[3], payload[4]));
            Ok(Message::ParameterChange { group, id, value })
        } else if function == 0x10 && n == 1 && payload[0] == 0 {
            Ok(Message::CurrentProgramDumpRequest)
        } else if function == 0x1C && n == 3 && payload[2] == 0 {
            match DumpScope::decode(payload[0], payload[1]) {
                Some(scope) => Ok(Message::ProgramDumpRequest(scope)),
                None => Err(DecodeError::Malformed),
            }
        } else if function == 0x11 && n == 2 {
            let bank = match Bank::from_code(payload[0]) {
                Some(b) => b,
                None => {
                    return Err(DecodeError::Malformed);
                },
            };
            let program = match ProgramNo::new(payload[1]) {
                Some(p) => p,
                None => {
                    return Err(DecodeError::Malformed);
                },
            };
            Ok(Message::ProgramWriteRequest { bank, program })
        } else if function == 0x40 && n >= 1 && payload[0] == 0x01 {
            let data = &payload[1..n];
            assert(data@ =~= payload@.skip(1));
            match unpack_7in8(data) {
                Ok(d) => Ok(Message::CurrentProgramDump(d)),
                Err(e) => Err(e),
            }
        } else if function == 0x26 && n == 0 {
            Ok(Message::DataFormatError)
        } else if function == 0x23 && n == 0 {
            Ok(Message::DataLoadCompleted)
        } else if function == 0x24 && n == 1 && payload[0] == 0 {
            Ok(Message::DataLoadError)
        } else if function == 0x21 && n == 0 {
            Ok(Message::WriteCompleted)
        } else if function == 0x22 && n == 1 && payload[0] == 0 {
            Ok(Message::WriteError)
        } else if function == 0x41 || function == 0x10 || function == 0x1C || function == 0x11
            || function == 0x40 || function == 0x26 || function == 0x23 || function == 0x24
            || function == 0x21 || function == 0x22 {
            Err(DecodeError::Malformed)
        } else {
            Err(DecodeError::UnknownFunction(function))
        }
    }
}

/// A 14-bit two's complement pattern read back gives the value it came from.
pub proof fn lemma_from_raw14_of_raw14(v: i16)
    requires
        -0x2000 <= v <= 0x1FFF,
    ensures
        raw14_spec(v) < 0x4000,
        from_raw14_spec(raw14_spec(v)) == v,
{
}

/// The request bytes of a dump scope name that scope again.
pub proof fn lemma_dump_scope_round_trip(scope: DumpScopeModel)
    requires
        scope.wf(),
    ensures
        ({
            let (unit_bank, program) = scope.unit_and_program();
            DumpScopeModel::decode(unit_bank, program) == Some(scope)
        }),
{
}

/// A dump payload `01` followed by wire bytes decodes as the unpacking of
/// those bytes.
pub proof fn lemma_decode_dump_payload(wire: Seq<u8>)
    ensures
        decode_function_spec(0x40, seq![0x01u8] + wire) == match unpack_spec(wire) {
            Ok(data) => Ok::<MessageModel, DecodeError>(MessageModel::CurrentProgramDump(data)),
            Err(e) => Err(e),
        },
{
    assert((seq![0x01u8] + wire).skip(1) =~= wire);
}

/// Decoding the function and payload of a message gives the message back.
proof fn lemma_decode_function_and_payload(m: MessageModel)
    requires
        m.wf(),
    ensures
        ({
            let fp = m.function_and_payload();
            &&& fp.len() >= 1
            &&& decode_function_spec(fp[0], fp.skip(1)) == Ok::<MessageModel, DecodeError>(m)
        }),
{
    let fp = m.function_and_payload();
    let p = fp.skip(1);
    match m {
        MessageModel::ParameterChange { group, id, value } => {
            lemma_u14_of_split14(id);
            lemma_from_raw14_of_raw14(value);
            lemma_u14_of_split14(raw14_spec(value));
            assert(p[0] == group.spec_code());
        },
        MessageModel::ProgramDumpRequest(scope) => {
            lemma_dump_scope_round_trip(scope);
        },
        MessageModel::CurrentProgramDump(data) => {
            lemma_unpack_pack(data);
            assert(p.skip(1) =~= pack_spec(data));
        },
        _ => {},
    }
}

/// Decoding the encoding of a message on a channel gives back that channel
/// and that message.
pub proof fn lemma_decode_encode(m: MessageModel, channel: u8)
    requires
        m.wf(),
        channel < 16,
    ensures
        decode_spec(m.encode(channel)) == Ok::<(u8, MessageModel), DecodeError>((channel, m)),
{
    let s = m.encode(channel);
    let fp = m.function_and_payload();
    lemma_decode_function_and_payload(m);
    let n = s.len();
    assert(s[4] == fp[0]);
    assert(s.subrange(5, n - 1) =~= fp.skip(1));
}

/// Between `F0` and `F7`, every byte of an encoded message is 7-bit, as
/// MIDI system-exclusive data must be.
pub proof fn lemma_encode_seven_bit(m: MessageModel, channel: u8)
    requires
        m.wf(),
        channel < 16,
    ensures
        m.encode(channel).len() >= 6,
        m.encode(channel)[0] == SYSEX_START,
        m.encode(channel).last() == SYSEX_END,
        all_seven_bit(m.encode(channel).subrange(1, m.encode(channel).len() - 1)),
{
    let s = m.encode(channel);
    let fp = m.function_and_payload();
    lemma_decode_function_and_payload(m);
    assert(all_seven_bit(fp)) by {
        match m {
            MessageModel::ParameterChange { group, id, value } => {},
            MessageModel::ProgramDumpRequest(scope) => {},
            MessageModel::ProgramWriteRequest { bank, program } => {},
            MessageModel::CurrentProgramDump(data) => {
                lemma_pack_seven_bit(data);
                assert forall|i: int| 0 <= i < fp.len() implies #[trigger] fp[i] < 0x80 by {
                    if i >= 2 {
                        assert(fp[i] == pack_spec(data)[i - 2]);
                    }
                }
            },
            _ => {},
        }
    }
    let inner = s.subrange(1, s.len() - 1);
    assert forall|i: int| 0 <= i < inner.len() implies #[trigger] inner[i] < 0x80 by {
        if i >= 3 {
            assert(inner[i] == fp[i - 3]);
        }
    }
}

/// The Z1's reply to a Universal Device Inquiry.
#[derive(Debug, Clone, Copy, PartialEq, Eq)]
pub struct DeviceInfo {
    /// The global channel the Z1 answered on: use it for all further
    /// [`Message::encode`] calls.
    pub channel: Channel,
    pub major_version: u16,
    pub minor_version: u16,
}

impl View for DeviceInfo {
    type V = (u8, u16, u16);

    open spec fn view(&self) -> (u8, u16, u16) {
        (self.channel@, self.major_version, self.minor_version)
    }
}

/// The Universal Device Inquiry request on `channel`: `F0 7E 0g 06 01 F7`.
pub open spec fn device_inquiry_request_spec(channel: u8) -> Seq<u8> {
    seq![SYSEX_START, 0x7E, channel, 0x06, 0x01, SYSEX_END]
}

/// What a Device Inquiry reply says, when it identifies a Korg Z1:
/// `F0 7E 0g 06 02 42 46 00 01 00 <minL> <minM> <majL> <majM> F7` with `g` a
/// channel gives (channel, major version, minor version).
pub open spec fn device_reply_spec(s: Seq<u8>) -> Option<(u8, u16, u16)> {
    if s.len() == 15 && s[0] == SYSEX_START && s[1] == 0x7E && s[3] == 0x06 && s[4] == 0x02 && s[5]
        == KORG_ID && s[6] == Z1_ID && s[7] == 0x00 && s[8] == 0x01 && s[9] == 0x00 && s[14]
        == SYSEX_END && s[2] < 16 {
        Some((s[2], u14_spec(s[12], s[13]), u14_spec(s[10], s[11])))
    } else {
        None
    }
}

/// Universal Device Inquiry request (`F0 7E 0g 06 01 F7`).
#[must_use]
pub fn device_inquiry_request(channel: Channel) -> (r: Vec<u8>)
    ensures
        r@ == device_inquiry_request_spec(channel@),
{
    let mut out: Vec<u8> = Vec::new();
    out.push(SYSEX_START);
    out.push(0x7E);
    out.push(channel.get());
    out.push(0x06);
    out.push(0x01);
    out.push(SYSEX_END);
    assert(out@ =~= device_inquiry_request_spec(channel@));
    out
}

/// Parse a Device Inquiry reply; `Some` only if it identifies a Korg Z1.
#[must_use]
pub fn parse_device_inquiry_reply(bytes: &[u8]) -> (r: Option<DeviceInfo>)
    ensures
        r is Some <==> device_reply_spec(bytes@) is Some,
        r matches Some(info) ==> device_reply_spec(bytes@) == Some(info@),
{
    if bytes.len() == 15 && bytes[0] == SYSEX_START && bytes[1] == 0x7E && bytes[3] == 0x06
        && bytes[4] == 0x02 && bytes[5] == KORG_ID && bytes[6] == Z1_ID && bytes[7] == 0x00
        && bytes[8] == 0x01 && bytes[9] == 0x00 && bytes[14] == SYSEX_END {
        let channel = match Channel::new(bytes[2]) {
            Some(c) => c,
            None => {
                return None;
            },
        };
        Some(
            DeviceInfo {
                channel,
                major_version: u14(bytes[12], bytes[13]),
                minor_version: u14(bytes[10], bytes[11]),
            },
        )
    } else {
        None
    }
}

} // verus!

verus! {

/// The wire number of each parameter group: Global/MIDI 0, Program 1,
/// Pattern 2, Multi 3.
pub open spec fn group_number(group: Group) -> u8 {
    match group {
        Group::GlobalMidi => 0,
        Group::Program => 1,
        Group::Pattern => 2,
        Group::Multi => 3,
    }
}

/// The wire number of each bank: A 0, B 1.
pub open spec fn bank_number(bank: Bank) -> u8 {
    match bank {
        Bank::A => 0,
        Bank::B => 1,
    }
}

/// Where every field of an encoded message stands: the header
/// `F0 42 (30h + channel) 46`, the function ID at byte 4, the payload from
/// byte 5 with each number at its place (14-bit numbers LSB first, values
/// in 14-bit two's complement, the group and bank by their wire numbers),
/// and `F7` last.
pub proof fn lemma_encode_layout(m: MessageModel, channel: u8)
    requires
        m.wf(),
        channel < 16,
    ensures
        ({
            let s = m.encode(channel);
            &&& s.len() >= 6
            &&& s[0] == 0xF0
            &&& s[1] == 0x42
            &&& s[2] == 0x30 + channel
            &&& s[3] == 0x46
            &&& s[s.len() - 1] == 0xF7
            &&& match m {
                MessageModel::ParameterChange { group, id, value } => {
                    &&& s.len() == 11
                    &&& s[4] == 0x41
                    &&& s[5] == group_number(group)
                    &&& s[6] < 128 && s[7] < 128 && s[6] + 128 * s[7] == id
                    &&& s[8] < 128 && s[9] < 128
                    &&& s[8] + 128 * s[9] == (if value >= 0 {
                        value as int
                    } else {
                        value + 0x4000
                    })
                },
                MessageModel::CurrentProgramDumpRequest => s.len() == 7 && s[4] == 0x10 && s[5]
                    == 0,
                MessageModel::ProgramDumpRequest(scope) => {
                    &&& s.len() == 9
                    &&& s[4] == 0x1C
                    &&& s[7] == 0
                    &&& match scope {
                        DumpScopeModel::Single { bank, program } => s[5] == bank_number(bank)
                            && s[6] == program,
                        DumpScopeModel::Bank(bank) => s[5] == 0x10 + bank_number(bank) && s[6]
                            == 0,
                        DumpScopeModel::All => s[5] == 0x20 && s[6] == 0,
                    }
                },
                MessageModel::ProgramWriteRequest { bank, program } => {
                    &&& s.len() == 8
                    &&& s[4] == 0x11
                    &&& s[5] == bank_number(bank)
                    &&& s[6] == program
                },
                MessageModel::CurrentProgramDump(data) => {
                    &&& s[4] == 0x40
                    &&& s[5] == 0x01
                    &&& s.subrange(6, s.len() - 1) == pack_spec(data)
                },
                MessageModel::DataFormatError => s.len() == 6 && s[4] == 0x26,
                MessageModel::DataLoadCompleted => s.len() == 6 && s[4] == 0x23,
                MessageModel::DataLoadError => s.len() == 7 && s[4] == 0x24 && s[5] == 0,
                MessageModel::WriteCompleted => s.len() == 6 && s[4] == 0x21,
                MessageModel::WriteError => s.len() == 7 && s[4] == 0x22 && s[5] == 0,
            }
        }),
{
    let s = m.encode(channel);
    lemma_decode_function_and_payload(m);
    match m {
        MessageModel::CurrentProgramDump(data) => {
            assert(s.subrange(6, s.len() - 1) =~= pack_spec(data));
        },
        _ => {},
    }
}

/// What a decoded message says is read from its bytes: the channel is the
/// low nibble of header byte 3g, and each field is read from its place in
/// the payload (14-bit numbers from their low seven bits, LSB first; values
/// as 14-bit two's complement; group and bank by their wire numbers; dump
/// data as the unpacking of the bytes after `40 01`).
pub proof fn lemma_decode_fields(s: Seq<u8>)
    ensures
        decode_spec(s) matches Ok((channel, m)) ==> {
            &&& s.len() >= 6
            &&& s[0] == 0xF0 && s[1] == 0x42 && s[3] == 0x46 && s[s.len() - 1] == 0xF7
            &&& channel < 16
            &&& s[2] == 0x30 + channel
            &&& match m {
                MessageModel::ParameterChange { group, id, value } => {
                    let raw = s[8] % 128 + 128 * (s[9] % 128);
                    &&& s.len() == 11 && s[4] == 0x41
                    &&& s[5] == group_number(group)
                    &&& id == s[6] % 128 + 128 * (s[7] % 128)
                    &&& value == (if raw >= 0x2000 {
                        raw - 0x4000
                    } else {
                        raw
                    })
                },
                MessageModel::CurrentProgramDumpRequest => s.len() == 7 && s[4] == 0x10 && s[5]
                    == 0,
                MessageModel::ProgramDumpRequest(scope) => {
                    &&& s.len() == 9 && s[4] == 0x1C && s[7] == 0
                    &&& match scope {
                        DumpScopeModel::Single { bank, program } => s[5] == bank_number(bank)
                            && s[6] == program,
                        DumpScopeModel::Bank(bank) => s[5] == 0x10 + bank_number(bank),
                        DumpScopeModel::All => s[5] == 0x20 || s[5] == 0x21,
                    }
                },
                MessageModel::ProgramWriteRequest { bank, program } => {
                    &&& s.len() == 8 && s[4] == 0x11
                    &&& s[5] == bank_number(bank)
                    &&& s[6] == program
                },
                MessageModel::CurrentProgramDump(data) => {
                    &&& s[4] == 0x40 && s[5] == 0x01
                    &&& all_seven_bit(s.subrange(6, s.len() - 1))
                    &&& data == unpacked(s.subrange(6, s.len() - 1))
                },
                MessageModel::DataFormatError => s.len() == 6 && s[4] == 0x26,
                MessageModel::DataLoadCompleted => s.len() == 6 && s[4] == 0x23,
                MessageModel::DataLoadError => s.len() == 7 && s[4] == 0x24 && s[5] == 0,
                MessageModel::WriteCompleted => s.len() == 6 && s[4] == 0x21,
                MessageModel::WriteError => s.len() == 7 && s[4] == 0x22 && s[5] == 0,
            }
        },
{
    if let Ok((channel, m)) = decode_spec(s) {
        let n = s.len();
        let p = s.subrange(5, n - 1);
        if let MessageModel::CurrentProgramDump(data) = m {
            assert(p.skip(1) =~= s.subrange(6, n - 1));
        }
    }
}

/// The Device Inquiry request addresses the given channel: it is
/// `F0 7E 0g 06 01 F7` with g the channel.
pub proof fn lemma_device_inquiry_request_layout(channel: u8)
    ensures
        ({
            let r = device_inquiry_request_spec(channel);
            &&& r.len() == 6
            &&& r[0] == 0xF0 && r[1] == 0x7E && r[3] == 0x06 && r[4] == 0x01 && r[5] == 0xF7
            &&& r[2] == channel
        }),
{
}

/// A reply is accepted only when it is a Korg (42h) Z1 (family 46h, member
/// 01) Device Inquiry reply, and what it says is read from its bytes: the
/// channel from byte 2, the minor version from bytes 10–11 and the major
/// version from bytes 12–13, 14-bit LSB first.
pub proof fn lemma_device_reply_fields(s: Seq<u8>)
    ensures
        device_reply_spec(s) matches Some((channel, major, minor)) ==> {
            &&& s.len() == 15
            &&& s[0] == 0xF0 && s[1] == 0x7E && s[3] == 0x06 && s[4] == 0x02
            &&& s[5] == 0x42 && s[6] == 0x46
            &&& s[7] == 0x00 && s[8] == 0x01 && s[9] == 0x00 && s[14] == 0xF7
            &&& channel < 16 && s[2] == channel
            &&& minor == s[10] % 128 + 128 * (s[11] % 128)
            &&& major == s[12] % 128 + 128 * (s[13] % 128)
        },
{
}

/// Every Z1 reply is accepted: the reply of a Z1 on channel g with versions
/// major.minor parses to exactly that.
pub proof fn lemma_device_reply_complete(channel: u8, major: u16, minor: u16)
    requires
        channel < 16,
        major < 0x4000,
        minor < 0x4000,
    ensures
        device_reply_spec(
            seq![
                0xF0u8,
                0x7E,
                channel,
                0x06,
                0x02,
                0x42,
                0x46,
                0x00,
                0x01,
                0x00,
                (minor % 128) as u8,
                (minor / 128) as u8,
                (major % 128) as u8,
                (major / 128) as u8,
                0xF7,
            ],
        ) == Some((channel, major, minor)),
{
}

} // verus!

verus! {

/// What the 14-bit two's complement helpers mean: the pattern of a value
/// is the number in 0..2^14 congruent to it modulo 2^14, and the value read
/// from a pattern is the number in −2^13..2^13 congruent to it.
pub proof fn lemma_raw14_meaning(v: i16, raw: u16)
    ensures
        0 <= raw14_spec(v) < 0x4000,
        (raw14_spec(v) - v) % 0x4000 == 0,
        -0x2000 <= from_raw14_spec(raw) < 0x2000,
        (from_raw14_spec(raw) - raw) % 0x4000 == 0,
{
}

/// Which error a string that is no Z1 message gets: not framed by `F0` …
/// `F7` and without a Z1 header, no SysEx; framed but without a Z1 header,
/// or with a format byte other than 3g, not a Z1 message; a Z1 header
/// without a function and EOX, truncated; a function ID other than 41h, 10h,
/// 1Ch, 11h, 40h, 26h, 23h, 24h, 21h, 22h, unknown; dump data with a top bit
/// set, the high-bit error.
pub proof fn lemma_decode_errors(s: Seq<u8>)
    ensures
        ({
            let n = s.len();
            let z1_header = n >= 4 && s[0] == 0xF0 && s[1] == 0x42 && s[3] == 0x46;
            let framed = n >= 2 && s[0] == 0xF0 && s[n - 1] == 0xF7;
            &&& !z1_header && !framed ==> decode_spec(s) == Err::<(u8, MessageModel), DecodeError>(
                DecodeError::NotSysEx,
            )
            &&& !z1_header && framed ==> decode_spec(s) == Err::<(u8, MessageModel), DecodeError>(
                DecodeError::NotKorgZ1,
            )
            &&& z1_header && (n < 6 || s[n - 1] != 0xF7) ==> decode_spec(s) == Err::<
                (u8, MessageModel),
                DecodeError,
            >(DecodeError::Truncated)
            &&& z1_header && n >= 6 && s[n - 1] == 0xF7 && !(0x30 <= s[2] < 0x40) ==> decode_spec(s)
                == Err::<(u8, MessageModel), DecodeError>(DecodeError::NotKorgZ1)
            &&& z1_header && n >= 6 && s[n - 1] == 0xF7 && 0x30 <= s[2] < 0x40 && s[4] != 0x41
                && s[4] != 0x10 && s[4] != 0x1C && s[4] != 0x11 && s[4] != 0x40 && s[4] != 0x26
                && s[4] != 0x23 && s[4] != 0x24 && s[4] != 0x21 && s[4] != 0x22 ==> decode_spec(s)
                == Err::<(u8, MessageModel), DecodeError>(DecodeError::UnknownFunction(s[4]))
            &&& z1_header && n >= 7 && s[n - 1] == 0xF7 && 0x30 <= s[2] < 0x40 && s[4] == 0x40
                && s[5] == 0x01 && (exists|i: int| 6 <= i < n - 1 && s[i] >= 0x80)
                ==> decode_spec(s) == Err::<(u8, MessageModel), DecodeError>(
                DecodeError::HighBitInData,
            )
        }),
{
    let n = s.len();
    if n >= 7 && s[0] == 0xF0 && s[1] == 0x42 && s[3] == 0x46 && s[n - 1] == 0xF7 && 0x30 <= s[2]
        < 0x40 && s[4] == 0x40 && s[5] == 0x01 {
        let p = s.subrange(5, n - 1);
        if exists|i: int| 6 <= i < n - 1 && s[i] >= 0x80 {
            let i = choose|i: int| 6 <= i < n - 1 && s[i] >= 0x80;
            assert(p.skip(1)[i - 6] == s[i]);
        }
    }
}

} // verus!

verus! {

/// The number a lower-case hexadecimal digit stands for.
pub open spec fn hex_value(c: char) -> int {
    if '0' <= c <= '9' {
        c as int - '0' as int
    } else {
        c as int - 'a' as int + 10
    }
}

/// The message for an unknown function ID ends in `0x` and two lower-case
/// hexadecimal digits, high digit first, that spell the ID.
pub proof fn lemma_unknown_function_message(id: u8)
    ensures
        ({
            let text = DecodeError::UnknownFunction(id).spec_message();
            let hi = text[text.len() - 2];
            let lo = text[text.len() - 1];
            &&& text.len() >= 4
            &&& text[text.len() - 4] == '0' && text[text.len() - 3] == 'x'
            &&& ('0' <= hi <= '9' || 'a' <= hi <= 'f')
            &&& ('0' <= lo <= '9' || 'a' <= lo <= 'f')
            &&& hex_value(hi) * 16 + hex_value(lo) == id
        }),
{
    reveal_strlit("0123456789abcdef");
    reveal_strlit("unknown Z1 function 0x");
    let text = DecodeError::UnknownFunction(id).spec_message();
    assert(text.len() == 24);
}

} // verus!
