//! Finalizers the record controllers put on the records they manage.

use vstd::prelude::*;

verus! {

/// Finalizer of `ARecord` resources.
pub const FINALIZER_A_RECORD: &'static str = "arecord.dns.firestoned.io/finalizer";

/// Finalizer of `AAAARecord` resources.
pub const FINALIZER_AAAA_RECORD: &'static str = "aaaarecord.dns.firestoned.io/finalizer";

/// Finalizer of `TXTRecord` resources.
pub const FINALIZER_TXT_RECORD: &'static str = "txtrecord.dns.firestoned.io/finalizer";

/// Finalizer of `CNAMERecord` resources.
pub const FINALIZER_CNAME_RECORD: &'static str = "cnamerecord.dns.firestoned.io/finalizer";

/// Finalizer of `MXRecord` resources.
pub const FINALIZER_MX_RECORD: &'static str = "mxrecord.dns.firestoned.io/finalizer";

/// Finalizer of `NSRecord` resources.
pub const FINALIZER_NS_RECORD: &'static str = "nsrecord.dns.firestoned.io/finalizer";

/// Finalizer of `SRVRecord` resources.
pub const FINALIZER_SRV_RECORD: &'static str = "srvrecord.dns.firestoned.io/finalizer";

/// Finalizer of `CAARecord` resources.
pub const FINALIZER_CAA_RECORD: &'static str = "caarecord.dns.firestoned.io/finalizer";

} // verus!
