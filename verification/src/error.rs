use vstd::prelude::*;

verus! {

/// Errors of the scanning engine.
///
/// Every per-port and per-probe error is absorbed locally by the scanner
/// (a failed port probe simply produces no event), so values of this type
/// never abort a scan; they only record why a probe or a protocol
/// detection failed.
#[derive(Debug)]
pub enum ScanError {
    /// A connection-level I/O failure, carrying a description of it.
    Io(String),
    /// A service-detection failure: probe timeout, empty read, or a
    /// response that does not match the probed protocol.
    ServiceDetection(String),
}

} // verus!
