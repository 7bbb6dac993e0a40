//! USB descriptors: the configuration descriptor and the interface,
//! endpoint and other descriptors that follow it, parsed from the bytes a
//! device returns.
use vstd::prelude::*;
use crate::le::{le16, read_u16};
use std::collections::BTreeMap;
use crate::utils::entry_of;

verus! {

#[derive(Debug, Clone, Copy, PartialEq, Eq, Structural)]
pub struct ConfigurationDescriptor {
    pub total_length: u16,
    pub num_interfaces: u8,
    pub configuration_value: u8,
    pub configuration_string: u8,
    pub self_powered: bool,
    pub remote_wakeup: bool,
    pub max_power: u8,
}

#[derive(Debug, Clone, Copy, PartialEq, Eq, Structural)]
pub enum EndpointDirection {
    Out,
    In,
}

#[derive(Debug, Clone, Copy, PartialEq, Eq, Structural)]
pub enum EndpointUsageType {
    Data,
    Feedback,
    ImplicitFeedbackData,
}

#[derive(Debug, Clone, Copy, PartialEq, Eq, Structural)]
pub enum EndpointSynchType {
    NoSynch,
    Async,
    Adaptive,
    Synchronous,
}

#[derive(Debug, Clone, Copy, PartialEq, Eq, Structural)]
pub enum EndpointTransferType {
    Control,
    Isochronous,
    Bulk,
    Interrupt,
}

#[derive(Debug, Clone, Copy, PartialEq, Eq, Structural)]
pub struct EndpointDescriptor {
    pub direction: EndpointDirection,
    pub endpoint_number: u8,
    pub usage_type: EndpointUsageType,
    pub synch_type: EndpointSynchType,
    pub transfer_type: EndpointTransferType,
    pub max_packet_size: u16,
    pub interval: u8,
}

/// A descriptor the driver does not interpret: its length, type and the
/// bytes after those two.
#[derive(Debug, Clone)]
pub struct GenericDescriptor {
    pub length: u8,
    pub descriptor_type: u8,
    pub remaining_bytes: Vec<u8>,
}

/// An interface, with its endpoints by number and the other descriptors
/// that follow it.
pub struct InterfaceDescriptor {
    pub interface_number: u8,
    pub alternate_setting: u8,
    pub class: u8,
    pub subclass: u8,
    pub protocol: u8,
    pub interface_string: u8,
    pub endpoints: BTreeMap<u8, EndpointDescriptor>,
    pub other_descriptors: Vec<GenericDescriptor>,
}

/// What a parser made of the input: a value and where parsing stopped; a
/// recoverable mismatch; input that ended too early for a bit-level field;
/// or a descriptor that cannot be taken apart (a length below two, a
/// reserved endpoint usage type).
pub enum Parsed<T> {
    Done(T, int),
    Error,
    Incomplete,
    Panic,
}

/// A descriptor after an interface, as parsed: an endpoint, or any other
/// descriptor as length, type and remaining bytes.
pub enum DescriptorModel {
    Endpoint(EndpointDescriptor),
    Generic(u8, u8, Seq<u8>),
}

pub open spec fn has_tag(b: Seq<u8>, off: int, t0: u8, t1: u8) -> bool {
    0 <= off && off + 2 <= b.len() && b[off] == t0 && b[off + 1] == t1
}

pub open spec fn bits_of(x: u8, shift: u8) -> u8 {
    ((x >> shift) & 3u8) as u8
}

/// The endpoint fields held in its two bit-packed bytes and the rest.
pub open spec fn endpoint_from(b: Seq<u8>, p: int) -> EndpointDescriptor {
    let a = b[p];
    let c = b[p + 1];
    EndpointDescriptor {
        direction: if a >= 128 { EndpointDirection::In } else { EndpointDirection::Out },
        endpoint_number: a % 16,
        usage_type: if bits_of(c, 4) == 0 { EndpointUsageType::Data }
            else if bits_of(c, 4) == 1 { EndpointUsageType::Feedback }
            else { EndpointUsageType::ImplicitFeedbackData },
        synch_type: if bits_of(c, 2) == 0 { EndpointSynchType::NoSynch }
            else if bits_of(c, 2) == 1 { EndpointSynchType::Async }
            else if bits_of(c, 2) == 2 { EndpointSynchType::Adaptive }
            else { EndpointSynchType::Synchronous },
        transfer_type: if bits_of(c, 0) == 0 { EndpointTransferType::Control }
            else if bits_of(c, 0) == 1 { EndpointTransferType::Isochronous }
            else if bits_of(c, 0) == 2 { EndpointTransferType::Bulk }
            else { EndpointTransferType::Interrupt },
        max_packet_size: le16(b, p + 2) as u16,
        interval: b[p + 4],
    }
}

/// An endpoint descriptor (tag 7, 5) at `off`. The two bit-packed bytes
/// need input to be there at all; the rest is an ordinary mismatch when
/// short. A reserved usage type cannot be taken apart.
pub open spec fn endpoint_at(b: Seq<u8>, off: int) -> Parsed<EndpointDescriptor> {
    let p = off + 2;
    if !has_tag(b, off, 7, 5) { Parsed::Error }
    else if p >= b.len() || p + 1 >= b.len() { Parsed::Incomplete }
    else if p + 5 > b.len() { Parsed::Error }
    else if bits_of(b[p + 1], 4) == 3 { Parsed::Panic }
    else { Parsed::Done(endpoint_from(b, p), p + 5) }
}

/// Any other descriptor at `off`: its length byte, type byte, and length
/// minus two more bytes. A length below two cannot be taken apart.
pub open spec fn other_at(b: Seq<u8>, off: int) -> Parsed<DescriptorModel> {
    if off < 0 || off + 2 > b.len() { Parsed::Error }
    else if b[off] < 2 { Parsed::Panic }
    else if off + b[off] > b.len() { Parsed::Error }
    else { Parsed::Done(DescriptorModel::Generic(b[off], b[off + 1], b.subrange(off + 2, off + b[off])), off + b[off]) }
}

/// One descriptor after an interface: not the start of the next interface
/// (tag 9, 4); an endpoint, or when that does not match, another descriptor.
pub open spec fn inner_at(b: Seq<u8>, off: int) -> Parsed<DescriptorModel> {
    if has_tag(b, off, 9, 4) {
        Parsed::Error
    } else {
        match endpoint_at(b, off) {
            Parsed::Done(e, o) => Parsed::Done(DescriptorModel::Endpoint(e), o),
            Parsed::Error => other_at(b, off),
            Parsed::Incomplete => Parsed::Incomplete,
            Parsed::Panic => Parsed::Panic,
        }
    }
}

/// Descriptors from `off` on, after those in `acc`, until one fails to
/// parse.
pub open spec fn descriptors_from(b: Seq<u8>, off: int, acc: Seq<DescriptorModel>) -> Parsed<Seq<DescriptorModel>>
    decreases b.len() - off,
{
    match inner_at(b, off) {
        Parsed::Done(d, o) => if off < o <= b.len() { descriptors_from(b, o, acc.push(d)) } else { Parsed::Error },
        Parsed::Error => Parsed::Done(acc, off),
        Parsed::Incomplete => Parsed::Incomplete,
        Parsed::Panic => Parsed::Panic,
    }
}

/// At least one descriptor after an interface, and as many as follow.
pub open spec fn descriptors_at(b: Seq<u8>, off: int) -> Parsed<Seq<DescriptorModel>> {
    match inner_at(b, off) {
        Parsed::Done(d, o) => if off < o <= b.len() { descriptors_from(b, o, seq![d]) } else { Parsed::Error },
        Parsed::Error => Parsed::Error,
        Parsed::Incomplete => Parsed::Incomplete,
        Parsed::Panic => Parsed::Panic,
    }
}

/// An interface header (tag 9, 4) at `off`: its fields and where its
/// descriptors start.
pub open spec fn interface_header_ok(b: Seq<u8>, off: int) -> bool {
    has_tag(b, off, 9, 4) && off + 9 <= b.len()
}

/// The last endpoint numbered `k` among some descriptors.
pub open spec fn last_endpoint(ds: Seq<DescriptorModel>, k: u8) -> Option<EndpointDescriptor>
    decreases ds.len(),
{
    if ds.len() == 0 {
        None
    } else {
        match ds.last() {
            DescriptorModel::Endpoint(e) => if e.endpoint_number == k { Some(e) } else { last_endpoint(ds.drop_last(), k) },
            DescriptorModel::Generic(..) => last_endpoint(ds.drop_last(), k),
        }
    }
}

/// The non-endpoint descriptors among some descriptors, in order.
pub open spec fn generics(ds: Seq<DescriptorModel>) -> Seq<(u8, u8, Seq<u8>)>
    decreases ds.len(),
{
    if ds.len() == 0 {
        Seq::empty()
    } else {
        match ds.last() {
            DescriptorModel::Endpoint(_) => generics(ds.drop_last()),
            DescriptorModel::Generic(l, t, r) => generics(ds.drop_last()).push((l, t, r)),
        }
    }
}

/// Whether an interface descriptor holds what was parsed at `off`: the
/// header fields, the endpoints by number (a later one replacing an earlier
/// one with the same number), and the other descriptors in order.
pub open spec fn interface_matches(b: Seq<u8>, off: int, ds: Seq<DescriptorModel>, i: InterfaceDescriptor) -> bool {
    &&& i.interface_number == b[off + 2]
    &&& i.alternate_setting == b[off + 3]
    &&& i.class == b[off + 5]
    &&& i.subclass == b[off + 6]
    &&& i.protocol == b[off + 7]
    &&& i.interface_string == b[off + 8]
    &&& forall|k: u8| #[trigger] entry_of(i.endpoints@, k) == last_endpoint(ds, k)
    &&& i.other_descriptors@.len() == generics(ds).len()
    &&& forall|j: int| 0 <= j < i.other_descriptors@.len() ==> {
        let g = #[trigger] i.other_descriptors@[j];
        (g.length, g.descriptor_type, g.remaining_bytes@) == generics(ds)[j]
    }
}

/// The configuration descriptor at the start of `b` (tag 9, 2).
pub open spec fn configuration_at(b: Seq<u8>) -> Parsed<ConfigurationDescriptor> {
    if !has_tag(b, 0, 9, 2) || b.len() < 7 { Parsed::Error }
    else if b.len() < 8 { Parsed::Incomplete }
    else if b.len() < 9 { Parsed::Error }
    else {
        Parsed::Done(ConfigurationDescriptor {
            total_length: le16(b, 2) as u16,
            num_interfaces: b[4],
            configuration_value: b[5],
            configuration_string: b[6],
            self_powered: (b[7] / 64) % 2 == 1,
            remote_wakeup: (b[7] / 32) % 2 == 1,
            max_power: b[8],
        }, 9)
    }
}

/// An interface at `off`: its header (tag 9, 4 and seven fields) and at
/// least one descriptor after it. Gives the header's offset and the
/// descriptors.
pub open spec fn interface_at(b: Seq<u8>, off: int) -> Parsed<(int, Seq<DescriptorModel>)> {
    if !interface_header_ok(b, off) {
        Parsed::Error
    } else {
        match descriptors_at(b, off + 9) {
            Parsed::Done(ds, o) => Parsed::Done((off, ds), o),
            Parsed::Error => Parsed::Error,
            Parsed::Incomplete => Parsed::Incomplete,
            Parsed::Panic => Parsed::Panic,
        }
    }
}

pub open spec fn interfaces_from(b: Seq<u8>, off: int, acc: Seq<(int, Seq<DescriptorModel>)>)
    -> Parsed<Seq<(int, Seq<DescriptorModel>)>>
    decreases b.len() - off,
{
    match interface_at(b, off) {
        Parsed::Done(x, o) => if off < o <= b.len() { interfaces_from(b, o, acc.push(x)) } else { Parsed::Error },
        Parsed::Error => Parsed::Done(acc, off),
        Parsed::Incomplete => Parsed::Incomplete,
        Parsed::Panic => Parsed::Panic,
    }
}

/// At least one interface, and as many as follow.
pub open spec fn interfaces_at(b: Seq<u8>, off: int) -> Parsed<Seq<(int, Seq<DescriptorModel>)>> {
    match interface_at(b, off) {
        Parsed::Done(x, o) => if off < o <= b.len() { interfaces_from(b, o, seq![x]) } else { Parsed::Error },
        Parsed::Error => Parsed::Error,
        Parsed::Incomplete => Parsed::Incomplete,
        Parsed::Panic => Parsed::Panic,
    }
}

/// The whole set of descriptors a device returns for a configuration: the
/// configuration descriptor and at least one interface.
pub open spec fn configuration_descriptors_at(b: Seq<u8>)
    -> Parsed<(ConfigurationDescriptor, Seq<(int, Seq<DescriptorModel>)>)> {
    match configuration_at(b) {
        Parsed::Done(c, o) => match interfaces_at(b, o) {
            Parsed::Done(is, o2) => Parsed::Done((c, is), o2),
            Parsed::Error => Parsed::Error,
            Parsed::Incomplete => Parsed::Incomplete,
            Parsed::Panic => Parsed::Panic,
        },
        Parsed::Error => Parsed::Error,
        Parsed::Incomplete => Parsed::Incomplete,
        Parsed::Panic => Parsed::Panic,
    }
}

/// A parsed descriptor after an interface.
pub enum DescriptorValue {
    Endpoint(EndpointDescriptor),
    Generic(GenericDescriptor),
}

pub open spec fn desc_view(d: DescriptorValue) -> DescriptorModel {
    match d {
        DescriptorValue::Endpoint(e) => DescriptorModel::Endpoint(e),
        DescriptorValue::Generic(g) => DescriptorModel::Generic(g.length, g.descriptor_type, g.remaining_bytes@),
    }
}

pub open spec fn descs_view(ds: Seq<DescriptorValue>) -> Seq<DescriptorModel> {
    ds.map_values(|d: DescriptorValue| desc_view(d))
}

fn two_bits(x: u8, shift: u8) -> (r: u8)
    requires
        shift <= 4,
    ensures
        r == bits_of(x, shift),
        r < 4,
{
    let r = (x >> shift) & 3;
    assert(((x >> shift) & 3u8) < 4) by (bit_vector);
    r
}

/// Parse an endpoint descriptor at `off`.
fn parse_endpoint_descriptor(b: &[u8], off: usize) -> (r: Result<(EndpointDescriptor, usize), ParseError>)
    ensures
        match endpoint_at(b@, off as int) {
            Parsed::Done(e, o) => r == Ok::<(EndpointDescriptor, usize), ParseError>((e, o as usize)),
            Parsed::Error => r == Err::<(EndpointDescriptor, usize), ParseError>(ParseError::Error),
            Parsed::Incomplete => r == Err::<(EndpointDescriptor, usize), ParseError>(ParseError::Incomplete),
            Parsed::Panic => r == Err::<(EndpointDescriptor, usize), ParseError>(ParseError::Malformed),
        },
{
    let n = b.len();
    if off >= n || n - off < 2 || b[off] != 7 || b[off + 1] != 5 {
        return Err(ParseError::Error);
    }
    let p = off + 2;
    if p >= n || p + 1 >= n {
        return Err(ParseError::Incomplete);
    }
    if n - p < 5 {
        return Err(ParseError::Error);
    }
    let a = b[p];
    let c = b[p + 1];
    let usage = two_bits(c, 4);
    if usage == 3 {
        return Err(ParseError::Malformed);
    }
    let synch = two_bits(c, 2);
    let transfer = two_bits(c, 0);
    proof {
        assert((a & 0x80 != 0) == (a >= 128)) by (bit_vector);
        assert(a & 0x0F == a % 16) by (bit_vector);
    }
    let e = EndpointDescriptor {
        direction: if a & 0x80 != 0 { EndpointDirection::In } else { EndpointDirection::Out },
        endpoint_number: a & 0x0F,
        usage_type: if usage == 0 { EndpointUsageType::Data }
            else if usage == 1 { EndpointUsageType::Feedback }
            else { EndpointUsageType::ImplicitFeedbackData },
        synch_type: if synch == 0 { EndpointSynchType::NoSynch }
            else if synch == 1 { EndpointSynchType::Async }
            else if synch == 2 { EndpointSynchType::Adaptive }
            else { EndpointSynchType::Synchronous },
        transfer_type: if transfer == 0 { EndpointTransferType::Control }
            else if transfer == 1 { EndpointTransferType::Isochronous }
            else if transfer == 2 { EndpointTransferType::Bulk }
            else { EndpointTransferType::Interrupt },
        max_packet_size: read_u16(b, p + 2),
        interval: b[p + 4],
    };
    Ok((e, p + 5))
}

/// Parse any other descriptor at `off`.
fn parse_other_descriptor(b: &[u8], off: usize) -> (r: Result<(GenericDescriptor, usize), ParseError>)
    ensures
        match other_at(b@, off as int) {
            Parsed::Done(DescriptorModel::Generic(l, t, rest), o) => r matches Ok((g, o2))
                && g.length == l && g.descriptor_type == t && g.remaining_bytes@ == rest && o2 == o,
            Parsed::Done(DescriptorModel::Endpoint(_), _) => false,
            Parsed::Error => r == Err::<(GenericDescriptor, usize), ParseError>(ParseError::Error),
            Parsed::Incomplete => false,
            Parsed::Panic => r == Err::<(GenericDescriptor, usize), ParseError>(ParseError::Malformed),
        },
{
    let n = b.len();
    if off >= n || n - off < 2 {
        return Err(ParseError::Error);
    }
    let length = b[off];
    let t = b[off + 1];
    if length < 2 {
        return Err(ParseError::Malformed);
    }
    if (length as usize) > n - off {
        return Err(ParseError::Error);
    }
    let mut rest: Vec<u8> = Vec::new();
    let mut i: usize = off + 2;
    let end = off + length as usize;
    while i < end
        invariant
            off + 2 <= i <= end,
            end <= b@.len(),
            rest@ == b@.subrange(off + 2, i as int),
        decreases end - i,
    {
        rest.push(b[i]);
        assert(b@.subrange(off + 2, i + 1) =~= b@.subrange(off + 2, i as int).push(b@[i as int]));
        i = i + 1;
    }
    Ok((GenericDescriptor { length, descriptor_type: t, remaining_bytes: rest }, end))
}

/// Parse one descriptor after an interface at `off`.
fn parse_inner(b: &[u8], off: usize) -> (r: Result<(DescriptorValue, usize), ParseError>)
    ensures
        match inner_at(b@, off as int) {
            Parsed::Done(d, o) => r matches Ok((v, o2)) && desc_view(v) == d && o2 == o,
            Parsed::Error => r == Err::<(DescriptorValue, usize), ParseError>(ParseError::Error),
            Parsed::Incomplete => r == Err::<(DescriptorValue, usize), ParseError>(ParseError::Incomplete),
            Parsed::Panic => r == Err::<(DescriptorValue, usize), ParseError>(ParseError::Malformed),
        },
{
    let n = b.len();
    if off < n && n - off >= 2 && b[off] == 9 && b[off + 1] == 4 {
        return Err(ParseError::Error);
    }
    match parse_endpoint_descriptor(b, off) {
        Ok((e, o)) => Ok((DescriptorValue::Endpoint(e), o)),
        Err(ParseError::Incomplete) => Err(ParseError::Incomplete),
        Err(ParseError::Malformed) => Err(ParseError::Malformed),
        Err(ParseError::Error) => match parse_other_descriptor(b, off) {
            Ok((g, o)) => Ok((DescriptorValue::Generic(g), o)),
            Err(e) => Err(e),
        },
    }
}

/// Parse at least one descriptor at `off`, and as many as follow.
fn parse_rest_of_interface(b: &[u8], off: usize) -> (r: Result<(Vec<DescriptorValue>, usize), ParseError>)
    ensures
        match descriptors_at(b@, off as int) {
            Parsed::Done(ds, o) => r matches Ok((v, o2)) && descs_view(v@) == ds && o2 == o,
            Parsed::Error => r == Err::<(Vec<DescriptorValue>, usize), ParseError>(ParseError::Error),
            Parsed::Incomplete => r == Err::<(Vec<DescriptorValue>, usize), ParseError>(ParseError::Incomplete),
            Parsed::Panic => r == Err::<(Vec<DescriptorValue>, usize), ParseError>(ParseError::Malformed),
        },
{
    let (first, o1) = match parse_inner(b, off) {
        Ok(x) => x,
        Err(e) => return Err(e),
    };
    if !(off < o1 && o1 <= b.len()) {
        return Err(ParseError::Error);
    }
    let mut acc: Vec<DescriptorValue> = Vec::new();
    acc.push(first);
    assert(descs_view(acc@) =~= seq![desc_view(first)]);
    let mut cur = o1;
    loop
        invariant
            cur <= b@.len(),
            descriptors_at(b@, off as int) == descriptors_from(b@, cur as int, descs_view(acc@)),
        decreases b@.len() - cur,
    {
        match parse_inner(b, cur) {
            Ok((d, o)) => {
                if !(cur < o && o <= b.len()) {
                    return Err(ParseError::Error);
                }
                let ghost before = acc@;
                acc.push(d);
                assert(descs_view(acc@) =~= descs_view(before).push(desc_view(d)));
                cur = o;
            },
            Err(ParseError::Error) => {
                return Ok((acc, cur));
            },
            Err(ParseError::Incomplete) => {
                return Err(ParseError::Incomplete);
            },
            Err(ParseError::Malformed) => {
                return Err(ParseError::Malformed);
            },
        }
    }
}

/// Gather an interface's endpoints by number and its other descriptors.
fn assemble_interface(b: &[u8], off: usize, ds: Vec<DescriptorValue>) -> (r: InterfaceDescriptor)
    requires
        interface_header_ok(b@, off as int),
    ensures
        interface_matches(b@, off as int, descs_view(ds@), r),
{
    let ghost dv = descs_view(ds@);
    let mut endpoints: BTreeMap<u8, EndpointDescriptor> = BTreeMap::new();
    let mut others: Vec<GenericDescriptor> = Vec::new();
    let mut i: usize = 0;
    assert(dv.take(0) =~= Seq::<DescriptorModel>::empty());
    while i < ds.len()
        invariant
            dv == descs_view(ds@),
            i <= ds@.len(),
            forall|k: u8| #[trigger] entry_of(endpoints@, k) == last_endpoint(dv.take(i as int), k),
            others@.len() == generics(dv.take(i as int)).len(),
            forall|j: int| 0 <= j < others@.len() ==> {
                let g = #[trigger] others@[j];
                (g.length, g.descriptor_type, g.remaining_bytes@) == generics(dv.take(i as int))[j]
            },
        decreases ds@.len() - i,
    {
        assert(dv.take(i + 1).drop_last() =~= dv.take(i as int));
        assert(dv.take(i + 1).last() == desc_view(ds@[i as int]));
        match &ds[i] {
            DescriptorValue::Endpoint(e) => {
                let ghost old_ep = endpoints@;
                endpoints.insert(e.endpoint_number, *e);
                proof {
                    assert forall|k: u8| #[trigger] entry_of(endpoints@, k) == last_endpoint(dv.take(i + 1), k) by {
                        if k != e.endpoint_number {
                            assert(entry_of(old_ep, k) == last_endpoint(dv.take(i as int), k));
                        }
                    }
                }
            },
            DescriptorValue::Generic(g) => {
                let ghost before = others@;
                others.push(GenericDescriptor {
                    length: g.length,
                    descriptor_type: g.descriptor_type,
                    remaining_bytes: g.remaining_bytes.clone(),
                });
                proof {
                    let last = others@.last();
                    assert(last.remaining_bytes@ =~= g.remaining_bytes@);
                    assert forall|j: int| 0 <= j < others@.len() implies {
                        let gg = #[trigger] others@[j];
                        (gg.length, gg.descriptor_type, gg.remaining_bytes@) == generics(dv.take(i + 1))[j]
                    } by {
                        if j < before.len() { assert(others@[j] == before[j]); }
                    }
                }
            },
        }
        i = i + 1;
    }
    assert(dv.take(ds@.len() as int) =~= dv);
    let n = b.len();
    assert(off + 9 <= n);
    InterfaceDescriptor {
        interface_number: b[off + 2],
        alternate_setting: b[off + 3],
        class: b[off + 5],
        subclass: b[off + 6],
        protocol: b[off + 7],
        interface_string: b[off + 8],
        endpoints,
        other_descriptors: others,
    }
}

/// Parse an interface descriptor and the descriptors after it.
fn parse_interface_descriptor(b: &[u8], off: usize) -> (r: Result<(InterfaceDescriptor, usize), ParseError>)
    ensures
        match interface_at(b@, off as int) {
            Parsed::Done((h, ds), o) => r matches Ok((i, o2)) && h == off && o2 == o && interface_matches(b@, off as int, ds, i),
            Parsed::Error => r is Err && r->Err_0 == ParseError::Error,
            Parsed::Incomplete => r is Err && r->Err_0 == ParseError::Incomplete,
            Parsed::Panic => r is Err && r->Err_0 == ParseError::Malformed,
        },
{
    let n = b.len();
    if off >= n || n - off < 9 || b[off] != 9 || b[off + 1] != 4 {
        return Err(ParseError::Error);
    }
    match parse_rest_of_interface(b, off + 9) {
        Ok((ds, o)) => Ok((assemble_interface(b, off, ds), o)),
        Err(e) => Err(e),
    }
}

/// Whether the interfaces parsed match their models.
pub open spec fn interfaces_match(b: Seq<u8>, is: Seq<(int, Seq<DescriptorModel>)>, v: Seq<InterfaceDescriptor>) -> bool {
    &&& v.len() == is.len()
    &&& forall|j: int| 0 <= j < v.len() ==> interface_matches(b, is[j].0, is[j].1, #[trigger] v[j])
}

/// Parse everything a device returns for its configuration: the
/// configuration descriptor, then the interfaces, each with its endpoints and
/// other descriptors. Gives them and the number of bytes used. Descriptors
/// the kernel cannot take apart (a length below two, a reserved endpoint
/// usage type) give `Malformed`, on which the kernel stops.
pub fn parse_configuration_descriptors(input: &[u8])
    -> (r: Result<(ConfigurationDescriptor, Vec<InterfaceDescriptor>, usize), ParseError>)
    ensures
        match configuration_descriptors_at(input@) {
            Parsed::Done((c, is), o) => r matches Ok((c2, v, o2)) && c2 == c && o2 == o && interfaces_match(input@, is, v@),
            Parsed::Error => r is Err && r->Err_0 == ParseError::Error,
            Parsed::Incomplete => r is Err && r->Err_0 == ParseError::Incomplete,
            Parsed::Panic => r is Err && r->Err_0 == ParseError::Malformed,
        },
{
    let (c, o) = match parse_configuration_descriptor(input) {
        Ok(x) => x,
        Err(e) => return Err(e),
    };
    let (first, o1) = match parse_interface_descriptor(input, o) {
        Ok(x) => x,
        Err(e) => return Err(e),
    };
    if !(o < o1 && o1 <= input.len()) {
        return Err(ParseError::Error);
    }
    let ghost first_model = match interface_at(input@, o as int) { Parsed::Done(x, _) => x, _ => arbitrary() };
    let mut acc: Vec<InterfaceDescriptor> = Vec::new();
    acc.push(first);
    let ghost mut models: Seq<(int, Seq<DescriptorModel>)> = seq![first_model];
    let mut cur = o1;
    loop
        invariant
            cur <= input@.len(),
            configuration_at(input@) == Parsed::Done(c, o as int),
            interfaces_at(input@, o as int) == interfaces_from(input@, cur as int, models),
            interfaces_match(input@, models, acc@),
        decreases input@.len() - cur,
    {
        match parse_interface_descriptor(input, cur) {
            Ok((i, o2)) => {
                if !(cur < o2 && o2 <= input.len()) {
                    return Err(ParseError::Error);
                }
                let ghost m = match interface_at(input@, cur as int) { Parsed::Done(x, _) => x, _ => arbitrary() };
                let ghost before = acc@;
                acc.push(i);
                proof {
                    let old_models = models;
                    models = models.push(m);
                    assert forall|j: int| 0 <= j < acc@.len() implies
                        interface_matches(input@, models[j].0, models[j].1, #[trigger] acc@[j]) by {
                        if j < before.len() { assert(acc@[j] == before[j]); assert(models[j] == old_models[j]); }
                    }
                }
                cur = o2;
            },
            Err(ParseError::Error) => {
                return Ok((c, acc, cur));
            },
            Err(ParseError::Incomplete) => {
                return Err(ParseError::Incomplete);
            },
            Err(ParseError::Malformed) => {
                return Err(ParseError::Malformed);
            },
        }
    }
}

/// Why parsing stopped without a result: the bytes do not match; they end
/// too early; or they hold a descriptor the kernel cannot take apart.
#[derive(Debug, Clone, Copy, PartialEq, Eq, Structural)]
pub enum ParseError {
    Error,
    Incomplete,
    Malformed,
}

/// Parse the configuration descriptor at the start of the bytes; gives it
/// and the number of bytes it took.
pub fn parse_configuration_descriptor(input: &[u8]) -> (r: Result<(ConfigurationDescriptor, usize), ParseError>)
    ensures
        match configuration_at(input@) {
            Parsed::Done(c, o) => r == Ok::<(ConfigurationDescriptor, usize), ParseError>((c, o as usize)),
            Parsed::Error => r == Err::<(ConfigurationDescriptor, usize), ParseError>(ParseError::Error),
            Parsed::Incomplete => r == Err::<(ConfigurationDescriptor, usize), ParseError>(ParseError::Incomplete),
            Parsed::Panic => false,
        },
{
    let n = input.len();
    if n < 2 || input[0] != 9 || input[1] != 2 || n < 7 {
        return Err(ParseError::Error);
    }
    if n < 8 {
        return Err(ParseError::Incomplete);
    }
    if n < 9 {
        return Err(ParseError::Error);
    }
    let attrs = input[7];
    proof {
        assert((attrs & 0x40 != 0) == ((attrs / 64) % 2 == 1)) by (bit_vector);
        assert((attrs & 0x20 != 0) == ((attrs / 32) % 2 == 1)) by (bit_vector);
    }
    Ok((ConfigurationDescriptor {
        total_length: read_u16(input, 2),
        num_interfaces: input[4],
        configuration_value: input[5],
        configuration_string: input[6],
        self_powered: attrs & 0x40 != 0,
        remote_wakeup: attrs & 0x20 != 0,
        max_power: input[8],
    }, 9))
}

} // verus!
