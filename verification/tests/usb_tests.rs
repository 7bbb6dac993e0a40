use venix::drivers::usb::protocol::{
    parse_configuration_descriptor, parse_configuration_descriptors, EndpointDirection, EndpointTransferType,
    ParseError,
};
use venix::drivers::usb::enumerate::{enumerate_step, EnumAction, EnumEvent, EnumState};
use venix::drivers::usb::usb::{
    Port, PortStatus, get_configuration_descriptor, make_request_type, set_address, standard_read_request_type,
    standard_write_request_type, PortSpeed, RequestCode, SetupPacket, SetupPacketRequestType,
    SetupPacketRequestTypeDirection, SetupPacketRequestTypeRecipient, SetupPacketRequestTypeRequestType,
    TransferType,
};
use venix::drivers::usbhid::protocol::{parse_boot_buffer, parse_hid_descriptor, parse_key, HidDescriptor, Key};
use venix::drivers::usbhid::{find_hid_descriptor, protocol_for_subclass, HidProtocol, Keyboard, SetupRequest};

fn configuration_blob() -> Vec<u8> {
    let mut b = vec![9, 2, 34, 0, 1, 1, 0, 0xA0, 50];
    b.extend_from_slice(&[9, 4, 0, 0, 1, 3, 1, 1, 0]);
    b.extend_from_slice(&[9, 0x21, 0x11, 0x01, 0, 1, 0x22, 0x3F, 0]);
    b.extend_from_slice(&[7, 5, 0x81, 0x03, 8, 0, 10]);
    b
}

#[test]
fn configuration_descriptor_alone() {
    let (c, used) = parse_configuration_descriptor(&configuration_blob()).unwrap();
    assert_eq!(used, 9);
    assert_eq!(c.total_length, 34);
    assert_eq!(c.num_interfaces, 1);
    assert!(!c.self_powered);
    assert!(c.remote_wakeup);
    assert_eq!(c.max_power, 50);
    assert_eq!(parse_configuration_descriptor(&[9, 4, 0, 0]), Err(ParseError::Error));
    assert_eq!(parse_configuration_descriptor(&[9, 2, 0, 0, 1, 1, 0]), Err(ParseError::Incomplete));
}

#[test]
fn configuration_with_its_interface() {
    let blob = configuration_blob();
    let (c, interfaces, used) = parse_configuration_descriptors(&blob).unwrap();
    assert_eq!(c.configuration_value, 1);
    assert_eq!(used, 34);
    assert_eq!(interfaces.len(), 1);
    let i = &interfaces[0];
    assert_eq!((i.interface_number, i.class, i.subclass, i.protocol), (0, 3, 1, 1));
    let e = i.endpoints.get(&1).unwrap();
    assert_eq!(e.direction, EndpointDirection::In);
    assert_eq!(e.transfer_type, EndpointTransferType::Interrupt);
    assert_eq!(e.max_packet_size, 8);
    assert_eq!(e.interval, 10);
    assert_eq!(i.other_descriptors.len(), 1);
    assert_eq!(i.other_descriptors[0].descriptor_type, 0x21);
    assert_eq!(find_hid_descriptor(&i.other_descriptors), Some(0));

    let (hid, n) = parse_hid_descriptor(&i.other_descriptors[0].remaining_bytes).unwrap();
    assert_eq!(n, 7);
    assert_eq!(hid.version, 0x0111);
    assert_eq!(hid.descriptors.len(), 1);
    assert_eq!(hid.descriptors[0].descriptor_type, 0x22);
    assert_eq!(hid.descriptors[0].length, 0x3F);

    let (mut kb, setup) = Keyboard::new(i, 3, PortSpeed::LowSpeed, protocol_for_subclass(i.subclass), hid);
    assert_eq!((kb.endpoint_num, kb.poll_interval, kb.address), (1, 10, 3));
    assert_eq!(setup.set_protocol, SetupRequest { request_type: 0x21, request: 0x0B, value: 0, index: 0, length: 0 });
    assert_eq!(setup.set_report, SetupRequest { request_type: 0x21, request: 0x09, value: 0x0200, index: 0, length: 1 });
    assert_eq!(setup.report, vec![0]);
    let t = kb.start_with_callback();
    assert_eq!((t.endpoint, t.frequency_in_ms, t.length), (1, 10, 8));

    let (kp, used) = parse_boot_buffer(&[0, 0, 0x0B, 0, 0, 0, 0, 0]).unwrap();
    assert_eq!(used, 8);
    assert_eq!(kb.keypresses(&kp), Some('h'));
    // the same key still held types nothing
    assert_eq!(kb.keypresses(&kp), None);
    let (kp2, _) = parse_boot_buffer(&[0, 0, 0x0B, 0x0C, 0, 0, 0, 0]).unwrap();
    assert_eq!(kb.keypresses(&kp2), Some('i'));
    let (none, _) = parse_boot_buffer(&[0; 8]).unwrap();
    assert_eq!(kb.keypresses(&none), None);
    assert_eq!(kb.current_active_key, None);
}

#[test]
fn boot_reports_and_keys() {
    assert!(parse_boot_buffer(&[0, 0, 4]).is_none());
    let (kp, _) = parse_boot_buffer(&[0xFF, 0, 0x04, 0x1E, 0x28, 0x2C, 0x39, 0x38]).unwrap();
    assert!(!kp.lshift);
    assert_eq!(kp.keys, vec![Key::AsciiKey('a'), Key::AsciiKey('1'), Key::AsciiKey('\n'), Key::AsciiKey(' '),
        Key::Unknown, Key::AsciiKey('/')]);
    assert_eq!(parse_key(0x1D), Key::AsciiKey('z'));
    assert_eq!(parse_key(0x27), Key::AsciiKey('0'));
    assert_eq!(parse_key(0x32), Key::Unknown);
    assert_eq!(protocol_for_subclass(0), HidProtocol::Report);
    assert!(parse_hid_descriptor(&[0x11, 0x01, 0, 2, 0x22, 0x3F, 0]).is_none());
    assert_eq!(HidDescriptor::empty().descriptors.len(), 0);
}

#[test]
fn setup_packets() {
    let rt = make_request_type(
        SetupPacketRequestTypeDirection::HostToDevice,
        SetupPacketRequestTypeRequestType::Class,
        SetupPacketRequestTypeRecipient::Interface,
    );
    assert_eq!(rt, SetupPacketRequestType(0x21));
    assert_eq!(standard_read_request_type(), SetupPacketRequestType(0x80));
    assert_eq!(standard_write_request_type(), SetupPacketRequestType(0x00));
    assert_eq!(RequestCode::SetConfiguration.value(), 9);
    let p = SetupPacket {
        request_type: SetupPacketRequestType(0x80),
        request: RequestCode::GetDescriptor,
        value: 0x0200,
        index: 0,
        length: 0x0109,
    };
    assert_eq!(p.to_bytes(), vec![0x80, 6, 0x00, 0x02, 0, 0, 0x09, 0x01]);
    match get_configuration_descriptor(9, PortSpeed::FullSpeed).transfer_type {
        TransferType::ControlRead(q) => assert_eq!(q.length, 9),
        _ => panic!("a configuration read is a control read"),
    }
    let t = set_address(5, PortSpeed::LowSpeed);
    assert!(t.poll);
    match t.transfer_type {
        TransferType::ControlNoData(q) => {
            assert_eq!(q.request, RequestCode::SetAddress);
            assert_eq!(q.value, 5);
        },
        _ => panic!("setting an address carries no data"),
    }
}

#[test]
fn descriptors_that_cannot_be_taken_apart() {
    let mut short = vec![9, 2, 20, 0, 1, 1, 0, 0x80, 50];
    short.extend_from_slice(&[9, 4, 0, 0, 1, 3, 1, 1, 0]);
    short.extend_from_slice(&[1, 0x21]);
    assert!(matches!(parse_configuration_descriptors(&short), Err(ParseError::Malformed)));
    let mut reserved = vec![9, 2, 25, 0, 1, 1, 0, 0x80, 50];
    reserved.extend_from_slice(&[9, 4, 0, 0, 1, 3, 1, 1, 0]);
    reserved.extend_from_slice(&[7, 5, 0x81, 0x33, 8, 0, 10]);
    assert!(matches!(parse_configuration_descriptors(&reserved), Err(ParseError::Malformed)));
    let mut cut = vec![9, 2, 20, 0, 1, 1, 0, 0x80, 50];
    cut.extend_from_slice(&[9, 4, 0, 0, 1, 3, 1, 1, 0]);
    cut.extend_from_slice(&[7, 5, 0x81]);
    assert!(matches!(parse_configuration_descriptors(&cut), Err(ParseError::Incomplete)));
}

fn connected_port() -> Port {
    Port { num: 1, status: PortStatus::Connected, speed: PortSpeed::FullSpeed }
}

fn read_setup(t: &TransferType) -> SetupPacket {
    match t {
        TransferType::ControlRead(p) => *p,
        _ => panic!("not a control read"),
    }
}

#[test]
fn enumeration_skips_disconnected_port() {
    let port = Port { num: 0, status: PortStatus::Disconnected, speed: PortSpeed::LowSpeed };
    let (s, a) = enumerate_step(EnumState::Start, port, EnumEvent::Begin);
    assert_eq!(s, EnumState::Done);
    assert!(matches!(a, EnumAction::Skip));
}

#[test]
fn enumeration_walks_a_device_through() {
    let port = connected_port();
    let (s, a) = enumerate_step(EnumState::Start, port, EnumEvent::Begin);
    assert_eq!(s, EnumState::AwaitHeader);
    match a {
        EnumAction::Transfer { address, transfer } => {
            assert_eq!(address, 0);
            let p = read_setup(&transfer.transfer_type);
            assert_eq!(p.request, RequestCode::GetDescriptor);
            assert_eq!(p.value, 0x0200);
            assert_eq!(p.length, 9);
            assert_eq!(p.request_type, SetupPacketRequestType(0x80));
            assert_eq!(transfer.speed, PortSpeed::FullSpeed);
            assert!(transfer.poll);
        }
        _ => panic!("expected a transfer"),
    }
    let header = configuration_blob()[..9].to_vec();
    let (s, a) = enumerate_step(s, port, EnumEvent::Read(header));
    assert_eq!(s, EnumState::AwaitAddress { total_length: 34 });
    assert!(matches!(a, EnumAction::GetAddress));
    let (s, a) = enumerate_step(s, port, EnumEvent::Address(3));
    assert_eq!(s, EnumState::AwaitAddressSet { address: 3, total_length: 34 });
    match a {
        EnumAction::Transfer { address, transfer } => {
            assert_eq!(address, 0);
            match transfer.transfer_type {
                TransferType::ControlNoData(p) => {
                    assert_eq!(p.request, RequestCode::SetAddress);
                    assert_eq!(p.value, 3);
                    assert_eq!(p.length, 0);
                }
                _ => panic!("expected a request without data"),
            }
        }
        _ => panic!("expected a transfer"),
    }
    let (s, a) = enumerate_step(s, port, EnumEvent::Sent);
    assert_eq!(s, EnumState::AwaitConfiguration { address: 3 });
    match a {
        EnumAction::Transfer { address, transfer } => {
            assert_eq!(address, 3);
            assert_eq!(read_setup(&transfer.transfer_type).length, 34);
        }
        _ => panic!("expected a transfer"),
    }
    let (s, a) = enumerate_step(s, port, EnumEvent::Read(configuration_blob()));
    assert_eq!(s, EnumState::Done);
    match a {
        EnumAction::Devices { address, configuration, interfaces } => {
            assert_eq!(address, 3);
            assert_eq!(configuration.total_length, 34);
            assert_eq!(interfaces.len(), 1);
            assert_eq!(interfaces[0].class, 3);
        }
        _ => panic!("expected devices"),
    }
}

#[test]
fn enumeration_fails_on_short_header_or_wrong_event() {
    let port = connected_port();
    let (s, a) = enumerate_step(EnumState::AwaitHeader, port, EnumEvent::Read(vec![9, 2, 34]));
    assert_eq!(s, EnumState::Done);
    assert!(matches!(a, EnumAction::Fail));
    let (s, a) = enumerate_step(EnumState::AwaitHeader, port, EnumEvent::Sent);
    assert_eq!(s, EnumState::Done);
    assert!(matches!(a, EnumAction::Fail));
}
