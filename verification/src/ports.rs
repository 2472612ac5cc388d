//! Port descriptions for a picker UI.  Enumerating the hardware ports is the
//! boundary layer's concern; this module only turns a port's name and kind
//! into its identifier and human-readable label.

use vstd::prelude::*;
use vstd::string::StringExecFns;

use crate::codec::{hex_digit, hex_digit_exec};

verus! {

/// How a serial port is attached, reduced to what the label shows.
#[derive(Debug, PartialEq, Eq)]
pub enum PortKind {
    Usb { vid: u16, product: Option<String> },
    Bluetooth,
    Pci,
    Unknown,
}

/// One selectable port: its device identifier and its display label.
#[derive(Debug, PartialEq, Eq)]
pub struct PortInfo {
    pub id: String,
    pub display: String,
}

/// The four lowercase hexadecimal digits of a 16-bit value.
pub open spec fn spec_hex4(v: u16) -> Seq<char> {
    seq![
        hex_digit((v as nat / 4096) % 16),
        hex_digit((v as nat / 256) % 16),
        hex_digit((v as nat / 16) % 16),
        hex_digit((v as nat) % 16),
    ]
}

/// How a USB product name appears in the label.
pub open spec fn product_label(p: &Option<String>) -> Seq<char> {
    match p {
        Some(s) => "Some(\""@ + s@ + "\")"@,
        None => "None"@,
    }
}

/// The display label of a port: its name followed by how it is attached,
/// with vendor id and product name for USB ports.
pub open spec fn label_of(name: Seq<char>, kind: &PortKind) -> Seq<char> {
    match kind {
        PortKind::Usb { vid, product } => name + " (USB VID:"@ + spec_hex4(*vid) + " PID:"@
            + product_label(product) + ")"@,
        PortKind::Bluetooth => name + " (Bluetooth)"@,
        PortKind::Pci => name + " (PCI)"@,
        PortKind::Unknown => name + " (Unknown)"@,
    }
}

/// Renders a 16-bit value as four lowercase hexadecimal digits.
pub fn hex4(v: u16) -> (r: String)
    ensures
        r@ == spec_hex4(v),
{
    let mut cs: Vec<char> = Vec::new();
    cs.push(hex_digit_exec(((v / 4096) % 16) as u32));
    cs.push(hex_digit_exec(((v / 256) % 16) as u32));
    cs.push(hex_digit_exec(((v / 16) % 16) as u32));
    cs.push(hex_digit_exec((v % 16) as u32));
    proof {
        assert(cs@ =~= spec_hex4(v));
    }
    crate::text::string_of(&cs)
}

/// Describes one port for the picker: the identifier is the port's name and
/// the label is exactly `label_of`.
pub fn describe_port(name: &str, kind: &PortKind) -> (r: PortInfo)
    ensures
        r.id@ == name@,
        r.display@ == label_of(name@, kind),
{
    let mut d = name.to_owned();
    match kind {
        PortKind::Usb { vid, product } => {
            d.append(" (USB VID:");
            let h = hex4(*vid);
            d.append(h.as_str());
            d.append(" PID:");
            match product {
                Some(p) => {
                    d.append("Some(\"");
                    d.append(p.as_str());
                    d.append("\")");
                    proof {
                        assert(d@ =~= name@ + " (USB VID:"@ + spec_hex4(*vid) + " PID:"@ + (
                        "Some(\""@ + p@ + "\")"@));
                    }
                },
                None => {
                    d.append("None");
                    proof {
                        assert(d@ =~= name@ + " (USB VID:"@ + spec_hex4(*vid) + " PID:"@
                            + "None"@);
                    }
                },
            }
            d.append(")");
        },
        PortKind::Bluetooth => {
            d.append(" (Bluetooth)");
        },
        PortKind::Pci => {
            d.append(" (PCI)");
        },
        PortKind::Unknown => {
            d.append(" (Unknown)");
        },
    }
    proof {
        assert(d@ =~= label_of(name@, kind));
    }
    PortInfo { id: name.to_owned(), display: d }
}

} // verus!
