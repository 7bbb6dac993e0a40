//! HID boot-protocol reports and the HID class descriptor.
use vstd::prelude::*;
use crate::le::{le16, read_u16};

verus! {

/// One class descriptor the HID descriptor lists: its type and length.
#[derive(Debug, Clone, Copy, PartialEq, Eq, Structural)]
pub struct HidDescriptorDescriptor {
    pub descriptor_type: u8,
    pub length: u16,
}

/// The HID class descriptor.
#[derive(Debug)]
pub struct HidDescriptor {
    pub version: u16,
    pub country_code: u8,
    pub descriptors: Vec<HidDescriptorDescriptor>,
}

impl HidDescriptor {
    /// An empty descriptor (version 0, no class descriptors).
    pub fn empty() -> (r: HidDescriptor)
        ensures
            r.version == 0,
            r.country_code == 0,
            r.descriptors@.len() == 0,
    {
        HidDescriptor { version: 0, country_code: 0, descriptors: Vec::new() }
    }
}

/// A key of a boot-protocol report.
#[derive(Debug, Clone, Copy, PartialEq, Eq, Structural)]
pub enum Key {
    AsciiKey(char),
    Unknown,
}

/// The key a boot-protocol usage code stands for: letters, digits, Enter,
/// space and punctuation of a US layout; anything else is unknown.
pub open spec fn key_of(code: u8) -> Key {
    match code {
        0x04u8 => Key::AsciiKey('a'),
        0x05u8 => Key::AsciiKey('b'),
        0x06u8 => Key::AsciiKey('c'),
        0x07u8 => Key::AsciiKey('d'),
        0x08u8 => Key::AsciiKey('e'),
        0x09u8 => Key::AsciiKey('f'),
        0x0Au8 => Key::AsciiKey('g'),
        0x0Bu8 => Key::AsciiKey('h'),
        0x0Cu8 => Key::AsciiKey('i'),
        0x0Du8 => Key::AsciiKey('j'),
        0x0Eu8 => Key::AsciiKey('k'),
        0x0Fu8 => Key::AsciiKey('l'),
        0x10u8 => Key::AsciiKey('m'),
        0x11u8 => Key::AsciiKey('n'),
        0x12u8 => Key::AsciiKey('o'),
        0x13u8 => Key::AsciiKey('p'),
        0x14u8 => Key::AsciiKey('q'),
        0x15u8 => Key::AsciiKey('r'),
        0x16u8 => Key::AsciiKey('s'),
        0x17u8 => Key::AsciiKey('t'),
        0x18u8 => Key::AsciiKey('u'),
        0x19u8 => Key::AsciiKey('v'),
        0x1Au8 => Key::AsciiKey('w'),
        0x1Bu8 => Key::AsciiKey('x'),
        0x1Cu8 => Key::AsciiKey('y'),
        0x1Du8 => Key::AsciiKey('z'),
        0x1Eu8 => Key::AsciiKey('1'),
        0x1Fu8 => Key::AsciiKey('2'),
        0x20u8 => Key::AsciiKey('3'),
        0x21u8 => Key::AsciiKey('4'),
        0x22u8 => Key::AsciiKey('5'),
        0x23u8 => Key::AsciiKey('6'),
        0x24u8 => Key::AsciiKey('7'),
        0x25u8 => Key::AsciiKey('8'),
        0x26u8 => Key::AsciiKey('9'),
        0x27u8 => Key::AsciiKey('0'),
        0x28u8 => Key::AsciiKey('\n'),
        0x2Cu8 => Key::AsciiKey(' '),
        0x2Du8 => Key::AsciiKey('-'),
        0x2Eu8 => Key::AsciiKey('='),
        0x2Fu8 => Key::AsciiKey('['),
        0x30u8 => Key::AsciiKey(']'),
        0x31u8 => Key::AsciiKey('\\'),
        0x33u8 => Key::AsciiKey(';'),
        0x34u8 => Key::AsciiKey('\''),
        0x35u8 => Key::AsciiKey('`'),
        0x36u8 => Key::AsciiKey(','),
        0x37u8 => Key::AsciiKey('.'),
        0x38u8 => Key::AsciiKey('/'),
        _ => Key::Unknown,
    }
}

/// The key for a usage code.
pub fn parse_key(code: u8) -> (k: Key)
    ensures
        k == key_of(code),
{
    match code {
        0x04u8 => Key::AsciiKey('a'),
        0x05u8 => Key::AsciiKey('b'),
        0x06u8 => Key::AsciiKey('c'),
        0x07u8 => Key::AsciiKey('d'),
        0x08u8 => Key::AsciiKey('e'),
        0x09u8 => Key::AsciiKey('f'),
        0x0Au8 => Key::AsciiKey('g'),
        0x0Bu8 => Key::AsciiKey('h'),
        0x0Cu8 => Key::AsciiKey('i'),
        0x0Du8 => Key::AsciiKey('j'),
        0x0Eu8 => Key::AsciiKey('k'),
        0x0Fu8 => Key::AsciiKey('l'),
        0x10u8 => Key::AsciiKey('m'),
        0x11u8 => Key::AsciiKey('n'),
        0x12u8 => Key::AsciiKey('o'),
        0x13u8 => Key::AsciiKey('p'),
        0x14u8 => Key::AsciiKey('q'),
        0x15u8 => Key::AsciiKey('r'),
        0x16u8 => Key::AsciiKey('s'),
        0x17u8 => Key::AsciiKey('t'),
        0x18u8 => Key::AsciiKey('u'),
        0x19u8 => Key::AsciiKey('v'),
        0x1Au8 => Key::AsciiKey('w'),
        0x1Bu8 => Key::AsciiKey('x'),
        0x1Cu8 => Key::AsciiKey('y'),
        0x1Du8 => Key::AsciiKey('z'),
        0x1Eu8 => Key::AsciiKey('1'),
        0x1Fu8 => Key::AsciiKey('2'),
        0x20u8 => Key::AsciiKey('3'),
        0x21u8 => Key::AsciiKey('4'),
        0x22u8 => Key::AsciiKey('5'),
        0x23u8 => Key::AsciiKey('6'),
        0x24u8 => Key::AsciiKey('7'),
        0x25u8 => Key::AsciiKey('8'),
        0x26u8 => Key::AsciiKey('9'),
        0x27u8 => Key::AsciiKey('0'),
        0x28u8 => Key::AsciiKey('\n'),
        0x2Cu8 => Key::AsciiKey(' '),
        0x2Du8 => Key::AsciiKey('-'),
        0x2Eu8 => Key::AsciiKey('='),
        0x2Fu8 => Key::AsciiKey('['),
        0x30u8 => Key::AsciiKey(']'),
        0x31u8 => Key::AsciiKey('\\'),
        0x33u8 => Key::AsciiKey(';'),
        0x34u8 => Key::AsciiKey('\''),
        0x35u8 => Key::AsciiKey('`'),
        0x36u8 => Key::AsciiKey(','),
        0x37u8 => Key::AsciiKey('.'),
        0x38u8 => Key::AsciiKey('/'),
        _ => Key::Unknown,
    }
}

/// The keys of a boot-protocol report: modifier state (not yet read) and the
/// six key slots.
#[derive(Debug)]
pub struct BootKeyPresses {
    pub lctl: bool,
    pub lshift: bool,
    pub lalt: bool,
    pub lsuper: bool,
    pub rctl: bool,
    pub rshift: bool,
    pub ralt: bool,
    pub rgui: bool,
    pub keys: Vec<Key>,
}

/// Read a boot-protocol report: the modifier byte and the reserved byte are
/// skipped, then six key codes are read. `None` when the report is shorter
/// than eight bytes. Gives the keys and the bytes used.
pub fn parse_boot_buffer(input: &[u8]) -> (r: Option<(BootKeyPresses, usize)>)
    ensures
        input@.len() < 8 <==> r is None,
        r matches Some((kp, used)) ==> used == 8 && !kp.lctl && !kp.lshift && !kp.lalt && !kp.lsuper
            && !kp.rctl && !kp.rshift && !kp.ralt && !kp.rgui
            && kp.keys@ == Seq::new(6, |i: int| key_of(input@[i + 2])),
{
    if input.len() < 8 {
        return None;
    }
    let mut keys: Vec<Key> = Vec::new();
    let mut i: usize = 0;
    while i < 6
        invariant
            input@.len() >= 8,
            i <= 6,
            keys@ == Seq::new(i as nat, |j: int| key_of(input@[j + 2])),
        decreases 6 - i,
    {
        keys.push(parse_key(input[i + 2]));
        assert(keys@ =~= Seq::new((i + 1) as nat, |j: int| key_of(input@[j + 2])));
        i = i + 1;
    }
    Some((BootKeyPresses {
        lctl: false, lshift: false, lalt: false, lsuper: false,
        rctl: false, rshift: false, ralt: false, rgui: false,
        keys,
    }, 8))
}

/// Read the HID class descriptor: version, country code, a count, and that
/// many (type, length) pairs. `None` when the bytes run out first. Gives the
/// descriptor and the bytes used.
pub fn parse_hid_descriptor(input: &[u8]) -> (r: Option<(HidDescriptor, usize)>)
    ensures
        (input@.len() >= 4 && input@.len() >= 4 + 3 * input@[3]) <==> r is Some,
        r matches Some((d, used)) ==> {
            &&& used == 4 + 3 * input@[3]
            &&& d.version == le16(input@, 0)
            &&& d.country_code == input@[2]
            &&& d.descriptors@ == Seq::new(input@[3] as nat, |j: int| HidDescriptorDescriptor {
                descriptor_type: input@[4 + 3 * j],
                length: le16(input@, 5 + 3 * j) as u16,
            })
        },
{
    let n = input.len();
    if n < 4 {
        return None;
    }
    let version = read_u16(input, 0);
    let country_code = input[2];
    let count = input[3] as usize;
    if n - 4 < 3 * count {
        return None;
    }
    let mut ds: Vec<HidDescriptorDescriptor> = Vec::new();
    let mut j: usize = 0;
    while j < count
        invariant
            n == input@.len(),
            count == input@[3],
            4 + 3 * count <= n,
            j <= count,
            ds@ == Seq::new(j as nat, |k: int| HidDescriptorDescriptor {
                descriptor_type: input@[4 + 3 * k],
                length: le16(input@, 5 + 3 * k) as u16,
            }),
        decreases count - j,
    {
        let d = HidDescriptorDescriptor { descriptor_type: input[4 + 3 * j], length: read_u16(input, 5 + 3 * j) };
        ds.push(d);
        assert(ds@ =~= Seq::new((j + 1) as nat, |k: int| HidDescriptorDescriptor {
            descriptor_type: input@[4 + 3 * k],
            length: le16(input@, 5 + 3 * k) as u16,
        }));
        j = j + 1;
    }
    Some((HidDescriptor { version, country_code, descriptors: ds }, 4 + 3 * count))
}

} // verus!
