//! Names and values shared by the reconcilers.

use vstd::prelude::*;

verus! {

/// API group and version of every custom resource of the operator.
pub const API_GROUP_VERSION: &'static str = "bindy.firestoned.io/v1beta1";

/// Kind of a DNS zone resource.
pub const KIND_DNS_ZONE: &'static str = "DNSZone";

/// Kind of a BIND9 instance resource.
pub const KIND_BIND9_INSTANCE: &'static str = "Bind9Instance";

/// Kind of an IPv4 address record.
pub const KIND_A_RECORD: &'static str = "ARecord";

/// Kind of an IPv6 address record.
pub const KIND_AAAA_RECORD: &'static str = "AAAARecord";

/// Kind of a text record.
pub const KIND_TXT_RECORD: &'static str = "TXTRecord";

/// Kind of a canonical name record.
pub const KIND_CNAME_RECORD: &'static str = "CNAMERecord";

/// Kind of a mail exchange record.
pub const KIND_MX_RECORD: &'static str = "MXRecord";

/// Kind of a name server record.
pub const KIND_NS_RECORD: &'static str = "NSRecord";

/// Kind of a service location record.
pub const KIND_SRV_RECORD: &'static str = "SRVRecord";

/// Kind of a certificate authority authorization record.
pub const KIND_CAA_RECORD: &'static str = "CAARecord";

/// Annotation on a `Bind9Instance` naming the namespaces whose zones may
/// target it across namespaces (comma-separated, or the wildcard).
pub const ANNOTATION_ALLOW_ZONE_NAMESPACES: &'static str = "bindy.firestoned.io/allow-zone-namespaces";

/// Entry of [`ANNOTATION_ALLOW_ZONE_NAMESPACES`] that admits every namespace.
pub const ALLOW_ZONE_NAMESPACES_WILDCARD: &'static str = "*";

/// Items asked for per page when listing resources.
pub const KUBE_LIST_PAGE_SIZE: u32 = 100;

/// Seconds before a record that is not ready is reconciled again.
pub const REQUEUE_WHEN_NOT_READY_SECS: u64 = 30;

} // verus!
