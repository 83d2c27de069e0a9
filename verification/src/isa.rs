//! The instruction set: operand types, the field layout of an instruction
//! word, and the decoder.

use vstd::prelude::*;

verus! {

/// An eight-bit immediate operand.
pub type Immediate = u8;

/// The index of a general-purpose register, `0..=15` in every decoded
/// instruction.
#[derive(Debug, Clone, Copy, PartialEq, Eq, Structural)]
pub struct Register(pub usize);

/// A memory address operand, at most `0xFFF` in every decoded instruction.
#[derive(Debug, Clone, Copy, PartialEq, Eq, Structural)]
pub struct Address(pub usize);

/// The sixteen-bit instruction word made of two bytes, high byte first.
pub open spec fn word_of(b1: u8, b2: u8) -> u16 {
    (b1 as int * 256 + b2 as int) as u16
}

/// The high four bits of a byte.
pub open spec fn high_nibble(b: u8) -> u8 {
    b / 16
}

/// The low four bits of a byte.
pub open spec fn low_nibble(b: u8) -> u8 {
    b % 16
}

/// Joins the two bytes of an instruction word, high byte first.
pub fn word(b1: u8, b2: u8) -> (raw: u16)
    ensures
        raw == word_of(b1, b2),
        raw == (b1 as u16) << 8 | (b2 as u16),
{
    assert((b1 as u16) << 8 | (b2 as u16) == (b1 as u16) * 256 + (b2 as u16)) by (bit_vector);
    (b1 as u16) << 8 | (b2 as u16)
}

/// The opcode field: the top nibble of the first byte.
pub fn opcode(b1: u8) -> (op: u8)
    ensures
        op == high_nibble(b1),
        op == (b1 & 0xF0) >> 4,
        op < 16,
{
    assert((b1 & 0xF0) >> 4 == b1 / 16) by (bit_vector);
    (b1 & 0xF0) >> 4
}

/// The `x` register field: the low nibble of the first byte.
pub fn vx(b1: u8) -> (r: Register)
    ensures
        r.0 == low_nibble(b1),
        r.0 == b1 & 0x0F,
        r.0 < 16,
{
    assert(b1 & 0x0F == b1 % 16) by (bit_vector);
    Register((b1 & 0x0F) as usize)
}

/// The `y` register field: the high nibble of the second byte.
pub fn vy(b2: u8) -> (r: Register)
    ensures
        r.0 == high_nibble(b2),
        r.0 == (b2 & 0xF0) >> 4,
        r.0 < 16,
{
    assert((b2 & 0xF0) >> 4 == b2 / 16) by (bit_vector);
    Register(((b2 & 0xF0) >> 4) as usize)
}

/// The subcode field: the low nibble of the second byte.
pub fn variant(b2: u8) -> (sub: u8)
    ensures
        sub == low_nibble(b2),
        sub == b2 & 0x0F,
        sub < 16,
{
    assert(b2 & 0x0F == b2 % 16) by (bit_vector);
    b2 & 0x0F
}

/// The immediate field: the whole second byte.
pub fn imm(b2: u8) -> (k: Immediate)
    ensures
        k == b2,
{
    b2
}

/// The address field: the low twelve bits of the instruction word.
pub fn addr(raw: u16) -> (a: Address)
    ensures
        a.0 == raw % 4096,
        a.0 == raw & 0x0FFF,
        a.0 <= 0xFFF,
{
    assert(raw & 0x0FFF == raw % 4096) by (bit_vector);
    Address((raw & 0x0FFF) as usize)
}

/// One decoded instruction with its operands.
#[allow(clippy::upper_case_acronyms)]
#[derive(Debug, Clone, Copy, PartialEq, Eq, Structural)]
pub enum Instruction {
    SYS { addr: Address },
    CLS,
    RET,
    JP { addr: Address },
    CALL { addr: Address },
    SEI { vx: Register, imm: Immediate },
    SNEI { vx: Register, imm: Immediate },
    SE { vx: Register, vy: Register },
    LDI { vx: Register, imm: Immediate },
    ADDI { vx: Register, imm: Immediate },
    LD { vx: Register, vy: Register },
    OR { vx: Register, vy: Register },
    AND { vx: Register, vy: Register },
    XOR { vx: Register, vy: Register },
    ADD { vx: Register, vy: Register },
    SUB { vx: Register, vy: Register },
    SHR { vx: Register, vy: Register },
    SUBN { vx: Register, vy: Register },
    SHL { vx: Register, vy: Register },
    SNE { vx: Register, vy: Register },
    LDA { addr: Address },
    JPO { addr: Address },
    RND { vx: Register, imm: Immediate },
    DRW { vx: Register, vy: Register, size: usize },
    SKP { vx: Register },
    SKNP { vx: Register },
    LDDT { vx: Register },
    LDKEY { vx: Register },
    SETDT { vx: Register },
    LDST { vx: Register },
    ADDIR { vx: Register },
    LDSPR { vx: Register },
    LDBCD { vx: Register },
    STR { vx: Register },
    LDR { vx: Register },
}

impl Register {
    /// Whether this names one of the sixteen registers.
    pub open spec fn in_range(self) -> bool {
        self.0 < 16
    }
}

impl Address {
    /// Whether this fits the twelve bits of an address operand.
    pub open spec fn in_range(self) -> bool {
        self.0 <= 0xFFF
    }
}

impl Instruction {
    /// Whether every operand lies in the range that its field of an
    /// instruction word can hold. The decoder yields only such instructions.
    pub open spec fn well_formed(self) -> bool {
        match self {
            Instruction::CLS | Instruction::RET => true,
            Instruction::SYS { addr }
            | Instruction::JP { addr }
            | Instruction::CALL { addr }
            | Instruction::LDA { addr }
            | Instruction::JPO { addr } => addr.in_range(),
            Instruction::SEI { vx, .. }
            | Instruction::SNEI { vx, .. }
            | Instruction::LDI { vx, .. }
            | Instruction::ADDI { vx, .. }
            | Instruction::RND { vx, .. }
            | Instruction::SKP { vx }
            | Instruction::SKNP { vx }
            | Instruction::LDDT { vx }
            | Instruction::LDKEY { vx }
            | Instruction::SETDT { vx }
            | Instruction::LDST { vx }
            | Instruction::ADDIR { vx }
            | Instruction::LDSPR { vx }
            | Instruction::LDBCD { vx }
            | Instruction::STR { vx }
            | Instruction::LDR { vx } => vx.in_range(),
            Instruction::SE { vx, vy }
            | Instruction::LD { vx, vy }
            | Instruction::OR { vx, vy }
            | Instruction::AND { vx, vy }
            | Instruction::XOR { vx, vy }
            | Instruction::ADD { vx, vy }
            | Instruction::SUB { vx, vy }
            | Instruction::SHR { vx, vy }
            | Instruction::SUBN { vx, vy }
            | Instruction::SHL { vx, vy }
            | Instruction::SNE { vx, vy } => vx.in_range() && vy.in_range(),
            Instruction::DRW { vx, vy, size } => vx.in_range() && vy.in_range() && size < 16,
        }
    }
}

/// The register-to-register operation selected by a subcode under opcode
/// `0x8`, if the subcode names one.
pub open spec fn decode_arithmetic(sub: u8, x: Register, y: Register) -> Option<Instruction> {
    if sub == 0x0 {
        Some(Instruction::LD { vx: x, vy: y })
    } else if sub == 0x1 {
        Some(Instruction::OR { vx: x, vy: y })
    } else if sub == 0x2 {
        Some(Instruction::AND { vx: x, vy: y })
    } else if sub == 0x3 {
        Some(Instruction::XOR { vx: x, vy: y })
    } else if sub == 0x4 {
        Some(Instruction::ADD { vx: x, vy: y })
    } else if sub == 0x5 {
        Some(Instruction::SUB { vx: x, vy: y })
    } else if sub == 0x6 {
        Some(Instruction::SHR { vx: x, vy: y })
    } else if sub == 0x7 {
        Some(Instruction::SUBN { vx: x, vy: y })
    } else if sub == 0xE {
        Some(Instruction::SHL { vx: x, vy: y })
    } else {
        None
    }
}

/// The keypad operation selected by a low byte under opcode `0xE`, if the
/// byte names one.
pub open spec fn decode_keypad(low: u8, x: Register) -> Option<Instruction> {
    if low == 0x9E {
        Some(Instruction::SKP { vx: x })
    } else if low == 0xA1 {
        Some(Instruction::SKNP { vx: x })
    } else {
        None
    }
}

/// The timer or memory operation selected by a low byte under opcode `0xF`,
/// if the byte names one.
pub open spec fn decode_misc(low: u8, x: Register) -> Option<Instruction> {
    if low == 0x07 {
        Some(Instruction::LDDT { vx: x })
    } else if low == 0x0A {
        Some(Instruction::LDKEY { vx: x })
    } else if low == 0x15 {
        Some(Instruction::SETDT { vx: x })
    } else if low == 0x18 {
        Some(Instruction::LDST { vx: x })
    } else if low == 0x1E {
        Some(Instruction::ADDIR { vx: x })
    } else if low == 0x29 {
        Some(Instruction::LDSPR { vx: x })
    } else if low == 0x33 {
        Some(Instruction::LDBCD { vx: x })
    } else if low == 0x55 {
        Some(Instruction::STR { vx: x })
    } else if low == 0x65 {
        Some(Instruction::LDR { vx: x })
    } else {
        None
    }
}

/// The decode table: the instruction that the two bytes of a word stand
/// for, or `None` where the word matches no entry.
pub open spec fn decode(b1: u8, b2: u8) -> Option<Instruction> {
    let op = high_nibble(b1);
    let x = Register(low_nibble(b1) as usize);
    let y = Register(high_nibble(b2) as usize);
    let a = Address((word_of(b1, b2) % 4096) as usize);
    if b1 == 0x00 && b2 == 0xE0 {
        Some(Instruction::CLS)
    } else if b1 == 0x00 && b2 == 0xEE {
        Some(Instruction::RET)
    } else if op == 0x0 {
        Some(Instruction::SYS { addr: a })
    } else if op == 0x1 {
        Some(Instruction::JP { addr: a })
    } else if op == 0x2 {
        Some(Instruction::CALL { addr: a })
    } else if op == 0x3 {
        Some(Instruction::SEI { vx: x, imm: b2 })
    } else if op == 0x4 {
        Some(Instruction::SNEI { vx: x, imm: b2 })
    } else if op == 0x5 {
        Some(Instruction::SE { vx: x, vy: y })
    } else if op == 0x6 {
        Some(Instruction::LDI { vx: x, imm: b2 })
    } else if op == 0x7 {
        Some(Instruction::ADDI { vx: x, imm: b2 })
    } else if op == 0x8 {
        decode_arithmetic(low_nibble(b2), x, y)
    } else if op == 0x9 {
        Some(Instruction::SNE { vx: x, vy: y })
    } else if op == 0xA {
        Some(Instruction::LDA { addr: a })
    } else if op == 0xB {
        Some(Instruction::JPO { addr: a })
    } else if op == 0xC {
        Some(Instruction::RND { vx: x, imm: b2 })
    } else if op == 0xD {
        Some(Instruction::DRW { vx: x, vy: y, size: low_nibble(b2) as usize })
    } else if op == 0xE {
        decode_keypad(b2, x)
    } else {
        decode_misc(b2, x)
    }
}

/// Whether the fields of a word select an entry of the decode table: any
/// opcode but `0x8`, `0xE` and `0xF`, or one of those three with a subcode or
/// low byte that the table lists under it.
pub open spec fn listed(b1: u8, b2: u8) -> bool {
    let op = high_nibble(b1);
    let sub = low_nibble(b2);
    if op == 0x8 {
        sub <= 0x7 || sub == 0xE
    } else if op == 0xE {
        b2 == 0x9E || b2 == 0xA1
    } else if op == 0xF {
        b2 == 0x07 || b2 == 0x0A || b2 == 0x15 || b2 == 0x18 || b2 == 0x1E || b2 == 0x29 || b2
            == 0x33 || b2 == 0x55 || b2 == 0x65
    } else {
        true
    }
}

/// A word is decoded if and only if its fields select an entry of the
/// table: every word that matches no entry is a decode failure.
pub proof fn lemma_decode_some_iff_listed(b1: u8, b2: u8)
    ensures
        decode(b1, b2) is Some <==> listed(b1, b2),
        !listed(b1, b2) ==> decode(b1, b2) is None,
{
}

/// Every decoded instruction has its operands in range.
pub proof fn lemma_decode_well_formed(b1: u8, b2: u8)
    ensures
        decode(b1, b2) matches Some(ins) ==> ins.well_formed(),
{
}

/// The upper-case hexadecimal digit for a value below sixteen.
pub open spec fn hex_digit(d: int) -> char {
    if d == 0 {
        '0'
    } else if d == 1 {
        '1'
    } else if d == 2 {
        '2'
    } else if d == 3 {
        '3'
    } else if d == 4 {
        '4'
    } else if d == 5 {
        '5'
    } else if d == 6 {
        '6'
    } else if d == 7 {
        '7'
    } else if d == 8 {
        '8'
    } else if d == 9 {
        '9'
    } else if d == 10 {
        'A'
    } else if d == 11 {
        'B'
    } else if d == 12 {
        'C'
    } else if d == 13 {
        'D'
    } else if d == 14 {
        'E'
    } else {
        'F'
    }
}

/// A number written in upper-case hexadecimal, without leading zeros.
pub open spec fn upper_hex(n: nat) -> Seq<char>
    decreases n,
{
    if n < 16 {
        seq![hex_digit(n as int)]
    } else {
        upper_hex(n / 16).push(hex_digit((n % 16) as int))
    }
}

/// What a decode failure reports for an instruction word: a fixed prefix,
/// then the word in upper-case hexadecimal.
pub open spec fn invalid_instruction_text(raw: u16) -> Seq<char> {
    "Invalid Instruction: "@ + upper_hex(raw as nat)
}

fn hex_digit_str(d: u8) -> (s: &'static str)
    requires
        d < 16,
    ensures
        s@ == seq![hex_digit(d as int)],
{
    proof {
        reveal_strlit("0");
        reveal_strlit("1");
        reveal_strlit("2");
        reveal_strlit("3");
        reveal_strlit("4");
        reveal_strlit("5");
        reveal_strlit("6");
        reveal_strlit("7");
        reveal_strlit("8");
        reveal_strlit("9");
        reveal_strlit("A");
        reveal_strlit("B");
        reveal_strlit("C");
        reveal_strlit("D");
        reveal_strlit("E");
        reveal_strlit("F");
    }
    let s: &'static str = match d {
        0 => "0",
        1 => "1",
        2 => "2",
        3 => "3",
        4 => "4",
        5 => "5",
        6 => "6",
        7 => "7",
        8 => "8",
        9 => "9",
        10 => "A",
        11 => "B",
        12 => "C",
        13 => "D",
        14 => "E",
        _ => "F",
    };
    assert(s@ =~= seq![hex_digit(d as int)]);
    s
}

/// The text of a decode failure for `raw`.
pub fn invalid_instruction_message(raw: u16) -> (msg: String)
    ensures
        msg@ == invalid_instruction_text(raw),
{
    let mut msg = String::from_str("Invalid Instruction: ");
    let ghost prefix = msg@;
    if raw >= 0x1000 {
        msg.append(hex_digit_str((raw / 0x1000) as u8));
    }
    if raw >= 0x100 {
        msg.append(hex_digit_str(((raw / 0x100) % 16) as u8));
    }
    if raw >= 0x10 {
        msg.append(hex_digit_str(((raw / 0x10) % 16) as u8));
    }
    msg.append(hex_digit_str((raw % 16) as u8));
    proof {
        reveal_with_fuel(upper_hex, 5);
        assert(msg@ =~= prefix + upper_hex(raw as nat));
    }
    msg
}

impl Instruction {
    /// Decodes the two bytes of an instruction word, high byte first.
    ///
    /// Succeeds exactly on the words that the decode table lists, with the
    /// instruction that the table gives; every other word is an error that
    /// carries the word in its text.
    pub fn try_from(bytes: [u8; 2]) -> (res: Result<Instruction, String>)
        ensures
            match decode(bytes[0], bytes[1]) {
                Some(i) => res == Ok::<Instruction, String>(i),
                None => res is Err && res->Err_0@ == invalid_instruction_text(
                    word_of(bytes[0], bytes[1]),
                ),
            },
    {
        let b1: u8 = bytes[0];
        let b2: u8 = bytes[1];
        let raw: u16 = word(b1, b2);
        if raw == 0x00E0 {
            return Ok(Instruction::CLS);
        } else if raw == 0x00EE {
            return Ok(Instruction::RET);
        }
        let addr: Address = self::addr(raw);
        let vx: Register = self::vx(b1);
        let vy: Register = self::vy(b2);
        let imm: Immediate = self::imm(b2);
        let decoded: Option<Instruction> = match opcode(b1) {
            0x0 => Some(Instruction::SYS { addr }),
            0x1 => Some(Instruction::JP { addr }),
            0x2 => Some(Instruction::CALL { addr }),
            0x3 => Some(Instruction::SEI { vx, imm }),
            0x4 => Some(Instruction::SNEI { vx, imm }),
            0x5 => Some(Instruction::SE { vx, vy }),
            0x6 => Some(Instruction::LDI { vx, imm }),
            0x7 => Some(Instruction::ADDI { vx, imm }),
            0x8 => match variant(b2) {
                0x0 => Some(Instruction::LD { vx, vy }),
                0x1 => Some(Instruction::OR { vx, vy }),
                0x2 => Some(Instruction::AND { vx, vy }),
                0x3 => Some(Instruction::XOR { vx, vy }),
                0x4 => Some(Instruction::ADD { vx, vy }),
                0x5 => Some(Instruction::SUB { vx, vy }),
                0x6 => Some(Instruction::SHR { vx, vy }),
                0x7 => Some(Instruction::SUBN { vx, vy }),
                0xE => Some(Instruction::SHL { vx, vy }),
                _ => None,
            },
            0x9 => Some(Instruction::SNE { vx, vy }),
            0xA => Some(Instruction::LDA { addr }),
            0xB => Some(Instruction::JPO { addr }),
            0xC => Some(Instruction::RND { vx, imm }),
            0xD => Some(Instruction::DRW { vx, vy, size: variant(b2) as usize }),
            0xE => match b2 {
                0x9E => Some(Instruction::SKP { vx }),
                0xA1 => Some(Instruction::SKNP { vx }),
                _ => None,
            },
            0xF => match b2 {
                0x07 => Some(Instruction::LDDT { vx }),
                0x0A => Some(Instruction::LDKEY { vx }),
                0x15 => Some(Instruction::SETDT { vx }),
                0x18 => Some(Instruction::LDST { vx }),
                0x1E => Some(Instruction::ADDIR { vx }),
                0x29 => Some(Instruction::LDSPR { vx }),
                0x33 => Some(Instruction::LDBCD { vx }),
                0x55 => Some(Instruction::STR { vx }),
                0x65 => Some(Instruction::LDR { vx }),
                _ => None,
            },
            _ => None,
        };
        match decoded {
            Some(instruction) => Ok(instruction),
            None => Err(invalid_instruction_message(raw)),
        }
    }
}

} // verus!
