//! What each record kind brings to the generic record controller: its
//! resource kind, its finalizer, its DNS type name and the hickory record
//! type that DNS updates and deletions are sent with.

use vstd::prelude::*;
use std::str::FromStr;
use hickory_proto::rr::RecordType;
use crate::crd::{DNSRecordKind, kind_name};
use crate::labels::{
    FINALIZER_AAAA_RECORD, FINALIZER_A_RECORD, FINALIZER_CAA_RECORD, FINALIZER_CNAME_RECORD,
    FINALIZER_MX_RECORD, FINALIZER_NS_RECORD, FINALIZER_SRV_RECORD, FINALIZER_TXT_RECORD,
};
use crate::reconcilers::records::dns_type;

verus! {

/// Every record kind, in the order the controllers are started.
pub open spec fn all_kinds() -> Seq<DNSRecordKind> {
    seq![
        DNSRecordKind::A,
        DNSRecordKind::AAAA,
        DNSRecordKind::TXT,
        DNSRecordKind::CNAME,
        DNSRecordKind::MX,
        DNSRecordKind::NS,
        DNSRecordKind::SRV,
        DNSRecordKind::CAA,
    ]
}

/// The finalizer of each record kind.
pub open spec fn finalizer_of(k: DNSRecordKind) -> Seq<char> {
    match k {
        DNSRecordKind::A => FINALIZER_A_RECORD@,
        DNSRecordKind::AAAA => FINALIZER_AAAA_RECORD@,
        DNSRecordKind::TXT => FINALIZER_TXT_RECORD@,
        DNSRecordKind::CNAME => FINALIZER_CNAME_RECORD@,
        DNSRecordKind::MX => FINALIZER_MX_RECORD@,
        DNSRecordKind::NS => FINALIZER_NS_RECORD@,
        DNSRecordKind::SRV => FINALIZER_SRV_RECORD@,
        DNSRecordKind::CAA => FINALIZER_CAA_RECORD@,
    }
}

#[verifier::external_type_specification]
#[verifier::external_body]
pub struct ExRecordType(hickory_proto::rr::RecordType);

/// Whether `name` is the DNS type name of one of the record kinds.
pub open spec fn is_kind_dns_type(name: Seq<char>) -> bool {
    exists|k: DNSRecordKind| #[trigger] dns_type(k) == name
}

/// The record type hickory's `RecordType::from_str` gives for the type
/// mnemonic `name`.
pub uninterp spec fn record_type_named(name: Seq<char>) -> RecordType;

/// hickory's `RecordType::from_str`, with its error dropped.
///
/// hickory maps each standard type mnemonic, among them those of every
/// record kind, to its record type, so the parse succeeds on those names;
/// the type returned is the one hickory names by `name`.
#[verifier::external_body]
fn parse_record_type(name: &str) -> (r: Option<RecordType>)
    requires
        is_kind_dns_type(name@),
    ensures
        r == Some(record_type_named(name@)),
{
    RecordType::from_str(name).ok()
}

impl DNSRecordKind {
    /// The hickory record type of this kind: the one hickory names by the
    /// kind's DNS type name.
    pub fn hickory_record_type(&self) -> (r: RecordType)
        ensures
            r == record_type_named(dns_type(*self)),
    {
        let name = self.dns_type();
        assert(dns_type(*self) == name@);
        parse_record_type(name).unwrap()
    }

    /// The finalizer the controller of this kind puts on its records.
    pub fn finalizer(&self) -> (r: &'static str)
        ensures
            r@ == finalizer_of(*self),
    {
        match self {
            DNSRecordKind::A => FINALIZER_A_RECORD,
            DNSRecordKind::AAAA => FINALIZER_AAAA_RECORD,
            DNSRecordKind::TXT => FINALIZER_TXT_RECORD,
            DNSRecordKind::CNAME => FINALIZER_CNAME_RECORD,
            DNSRecordKind::MX => FINALIZER_MX_RECORD,
            DNSRecordKind::NS => FINALIZER_NS_RECORD,
            DNSRecordKind::SRV => FINALIZER_SRV_RECORD,
            DNSRecordKind::CAA => FINALIZER_CAA_RECORD,
        }
    }

    /// Every record kind.
    pub fn all() -> (r: Vec<DNSRecordKind>)
        ensures
            r@ == all_kinds(),
    {
        let r = vec![
            DNSRecordKind::A,
            DNSRecordKind::AAAA,
            DNSRecordKind::TXT,
            DNSRecordKind::CNAME,
            DNSRecordKind::MX,
            DNSRecordKind::NS,
            DNSRecordKind::SRV,
            DNSRecordKind::CAA,
        ];
        assert(r@ =~= all_kinds());
        r
    }
}

/// Distinct record kinds have distinct finalizers, resource kinds and DNS
/// type names, so no two controllers claim the same objects or keys.
pub proof fn lemma_kind_constants_distinct(a: DNSRecordKind, b: DNSRecordKind)
    requires
        a != b,
    ensures
        finalizer_of(a) != finalizer_of(b),
        kind_name(a) != kind_name(b),
        dns_type(a) != dns_type(b),
{
    reveal_strlit("arecord.dns.firestoned.io/finalizer");
    reveal_strlit("aaaarecord.dns.firestoned.io/finalizer");
    reveal_strlit("txtrecord.dns.firestoned.io/finalizer");
    reveal_strlit("cnamerecord.dns.firestoned.io/finalizer");
    reveal_strlit("mxrecord.dns.firestoned.io/finalizer");
    reveal_strlit("nsrecord.dns.firestoned.io/finalizer");
    reveal_strlit("srvrecord.dns.firestoned.io/finalizer");
    reveal_strlit("caarecord.dns.firestoned.io/finalizer");
    reveal_strlit("ARecord");
    reveal_strlit("AAAARecord");
    reveal_strlit("TXTRecord");
    reveal_strlit("CNAMERecord");
    reveal_strlit("MXRecord");
    reveal_strlit("NSRecord");
    reveal_strlit("SRVRecord");
    reveal_strlit("CAARecord");
    reveal_strlit("A");
    reveal_strlit("AAAA");
    reveal_strlit("TXT");
    reveal_strlit("CNAME");
    reveal_strlit("MX");
    reveal_strlit("NS");
    reveal_strlit("SRV");
    reveal_strlit("CAA");
    let fa = finalizer_of(a);
    let fb = finalizer_of(b);
    assert(fa.len() != fb.len() || fa[0] != fb[0] || fa[1] != fb[1]);
    let ka = kind_name(a);
    let kb = kind_name(b);
    assert(ka.len() != kb.len() || ka[0] != kb[0] || ka[1] != kb[1]);
    let ta = dns_type(a);
    let tb = dns_type(b);
    assert(ta.len() != tb.len() || ta[0] != tb[0] || ta[1] != tb[1]);
}

} // verus!
