//! The serial byte link: the one place the library touches the outside
//! port.  The handle is opaque to the verified code — it is opened, written
//! through and dropped, never inspected — and nothing is promised of an
//! outcome that depends on the machine.

use vstd::prelude::*;

verus! {

/// An open serial connection, owned exclusively by the connection manager
/// while connected.
#[verifier::external_body]
pub struct SerialLink {
    port: Box<dyn serialport::SerialPort>,
}

/// Relies on `serialport::new`, `SerialPortBuilder::timeout` and
/// `SerialPortBuilder::open`: opens the named port at the given baud rate
/// with the given I/O timeout.  Whether opening succeeds depends on the
/// machine, so nothing is promised of the outcome.
#[verifier::external_body]
pub(crate) fn open_serial(port_name: &str, baud: u32, timeout_ms: u64) -> (r: Result<
    SerialLink,
    String,
>) {
    match serialport::new(port_name, baud).timeout(
        std::time::Duration::from_millis(timeout_ms),
    ).open() {
        Ok(port) => Ok(SerialLink { port }),
        Err(e) => Err(e.to_string()),
    }
}

/// Relies on `std::io::Write::write_all` through `serialport::SerialPort`:
/// writes the bytes of `text` to the link.  Whether the write succeeds
/// depends on the device, so nothing is promised of the outcome.
#[verifier::external_body]
pub(crate) fn write_text(link: &mut SerialLink, text: &str) -> (r: Result<(), String>) {
    std::io::Write::write_all(&mut link.port, text.as_bytes()).map_err(|e| e.to_string())
}

} // verus!
