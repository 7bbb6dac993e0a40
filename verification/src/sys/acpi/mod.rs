//! ACPI: the interpreter's locks, MADT interrupt entries, device namespace
//! identifiers and resources, and EISA identifiers.
use vstd::prelude::*;
use crate::text::string_from_chars;

pub mod acpi_lock;
pub mod interrupts;
pub mod namespace;
pub mod resources;
pub mod tables;

verus! {

/// The character for a five-bit EISA letter code: '@' plus the code.
pub open spec fn eisa_letter(code: int) -> char {
    (0x40 + code) as char
}

/// The upper-case hexadecimal digit for a value below 16.
pub open spec fn hex_digit(v: int) -> char {
    if v < 10 { (0x30 + v) as char } else { (0x41 + v - 10) as char }
}

/// The seven characters of a compressed EISA identifier: three letters from
/// the manufacturer code and the two product bytes as upper-case hexadecimal.
pub open spec fn eisa_chars(id: u64) -> Seq<char> {
    let b0 = (id % 0x100) as int;
    let b1 = ((id / 0x100) % 0x100) as int;
    let b2 = ((id / 0x1_0000) % 0x100) as int;
    let b3 = ((id / 0x100_0000) % 0x100) as int;
    seq![
        eisa_letter((b0 / 4) % 32),
        eisa_letter((b0 % 4) * 8 + b1 / 32),
        eisa_letter(b1 % 32),
        hex_digit(b2 / 16),
        hex_digit(b2 % 16),
        hex_digit(b3 / 16),
        hex_digit(b3 % 16),
    ]
}

fn letter(code: u64) -> (c: char)
    requires
        code < 32,
    ensures
        c == eisa_letter(code as int),
{
    let v: u32 = 0x40 + code as u32;
    proof {
        assert(v as int == 0x40 + code);
    }
    char_from_u32_in_range(v)
}

fn hex(v: u64) -> (c: char)
    requires
        v < 16,
    ensures
        c == hex_digit(v as int),
{
    if v < 10 {
        char_from_u32_in_range(0x30 + v as u32)
    } else {
        char_from_u32_in_range(0x41 + (v as u32 - 10))
    }
}

/// The character with a code point below 0x80.
fn char_from_u32_in_range(v: u32) -> (c: char)
    requires
        v < 0x80,
    ensures
        c == v as char,
{
    (v as u8) as char
}

/// Decode a compressed EISA identifier, such as `PNP0A03`, from the 32-bit
/// value that ACPI stores.
pub fn eisa_id_to_string(eisa_id: u64) -> (s: String)
    ensures
        s@ == eisa_chars(eisa_id),
{
    proof {
        let id = eisa_id;
        assert((id & 0x7C) >> 2 == ((id % 0x100) / 4) % 32) by (bit_vector);
        assert(((id & 0x03) << 3) | ((id & 0xE000) >> 13)
            == (id % 4) * 8 + ((id / 0x100) % 0x100) / 32) by (bit_vector);
        assert((id & 0x1F00) >> 8 == ((id / 0x100) % 0x100) % 32) by (bit_vector);
        assert((id & 0x00FF_0000) >> 16 == (id / 0x1_0000) % 0x100) by (bit_vector);
        assert((id & 0xFF00_0000) >> 24 == (id / 0x100_0000) % 0x100) by (bit_vector);
        assert((id % 0x100) % 4 == id % 4) by (nonlinear_arith);
        assert((id % 4) * 8 + ((id / 0x100) % 0x100) / 32 < 32) by (nonlinear_arith);
    }
    let c1 = letter((eisa_id & 0x7C) >> 2);
    let c2 = letter(((eisa_id & 0x03) << 3) | ((eisa_id & 0xE000) >> 13));
    let c3 = letter((eisa_id & 0x1F00) >> 8);
    let b2 = (eisa_id & 0x00FF_0000) >> 16;
    let b3 = (eisa_id & 0xFF00_0000) >> 24;
    let mut v: Vec<char> = Vec::new();
    v.push(c1);
    v.push(c2);
    v.push(c3);
    v.push(hex(b2 / 16));
    v.push(hex(b2 % 16));
    v.push(hex(b3 / 16));
    v.push(hex(b3 % 16));
    assert(v@ =~= eisa_chars(eisa_id));
    string_from_chars(&v)
}

} // verus!
