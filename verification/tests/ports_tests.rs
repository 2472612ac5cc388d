use roboctl::ports::{describe_port, hex4, PortKind};

#[test]
fn hex4_pads_to_four_digits() {
    assert_eq!(hex4(0x0000), "0000");
    assert_eq!(hex4(0x00ff), "00ff");
    assert_eq!(hex4(0x1a2b), "1a2b");
    assert_eq!(hex4(0xffff), "ffff");
}

#[test]
fn usb_port_label() {
    let kind = PortKind::Usb { vid: 0x1a2b, product: Some("Gadget".to_string()) };
    let info = describe_port("/dev/ttyUSB0", &kind);
    assert_eq!(info.id, "/dev/ttyUSB0");
    assert_eq!(info.display, "/dev/ttyUSB0 (USB VID:1a2b PID:Some(\"Gadget\"))");
}

#[test]
fn usb_port_label_without_product() {
    let kind = PortKind::Usb { vid: 0x0403, product: None };
    let info = describe_port("/dev/ttyUSB1", &kind);
    assert_eq!(info.display, "/dev/ttyUSB1 (USB VID:0403 PID:None)");
}

#[test]
fn other_port_labels() {
    assert_eq!(
        describe_port("/dev/rfcomm0", &PortKind::Bluetooth).display,
        "/dev/rfcomm0 (Bluetooth)"
    );
    assert_eq!(describe_port("/dev/ttyS0", &PortKind::Pci).display, "/dev/ttyS0 (PCI)");
    assert_eq!(describe_port("COM9", &PortKind::Unknown).display, "COM9 (Unknown)");
}
