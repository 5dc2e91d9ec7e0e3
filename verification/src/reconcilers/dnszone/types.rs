//! Values exchanged by the steps of zone reconciliation.

use vstd::prelude::*;

verus! {

/// Another zone that already claims the zone name of the zone at hand.
#[derive(Debug, PartialEq)]
pub struct ConflictingZone {
    /// Name of the conflicting `DNSZone` resource.
    pub name: String,
    /// Namespace of the conflicting `DNSZone` resource.
    pub namespace: String,
    /// `namespace/name` of each instance where the conflicting zone is live.
    pub instance_names: Vec<String>,
}

/// Contents of a [`ConflictingZone`].
pub struct ConflictingZoneView {
    pub name: Seq<char>,
    pub namespace: Seq<char>,
    pub instance_names: Seq<Seq<char>>,
}

impl View for ConflictingZone {
    type V = ConflictingZoneView;

    open spec fn view(&self) -> ConflictingZoneView {
        ConflictingZoneView {
            name: self.name@,
            namespace: self.namespace@,
            instance_names: self.instance_names.deep_view(),
        }
    }
}

impl DeepView for ConflictingZone {
    type V = ConflictingZoneView;

    open spec fn deep_view(&self) -> ConflictingZoneView {
        self@
    }
}

/// A zone name that older zones already claim.
#[derive(Debug, PartialEq)]
pub struct DuplicateZoneInfo {
    /// The contested zone name.
    pub zone_name: String,
    /// The zones that keep the name.
    pub conflicting_zones: Vec<ConflictingZone>,
}

/// Contents of a [`DuplicateZoneInfo`].
pub struct DuplicateZoneInfoView {
    pub zone_name: Seq<char>,
    pub conflicting_zones: Seq<ConflictingZoneView>,
}

impl View for DuplicateZoneInfo {
    type V = DuplicateZoneInfoView;

    open spec fn view(&self) -> DuplicateZoneInfoView {
        DuplicateZoneInfoView {
            zone_name: self.zone_name@,
            conflicting_zones: self.conflicting_zones.deep_view(),
        }
    }
}

/// A BIND9 pod found while reconciling a zone.
#[derive(Debug, PartialEq, Clone)]
pub struct PodInfo {
    pub name: String,
    pub ip: String,
    /// Name of the `Bind9Instance` the pod belongs to.
    pub instance_name: String,
    pub namespace: String,
}

/// Address (IP and port) of a BIND9 API endpoint.
#[derive(Debug, PartialEq, Clone)]
pub struct EndpointAddress {
    pub ip: String,
    pub port: i32,
}

/// Outcome of configuring a zone on a set of instances.
///
/// An instance counts as configured only when every one of its ready
/// endpoints accepted the zone.
#[derive(Debug, Clone, Copy, Default, PartialEq, Eq, Structural)]
pub struct ZoneConfigOutcome {
    /// Instances on which every ready endpoint accepted the zone.
    pub instances_configured: usize,
    /// Endpoints that accepted the zone (or already had it).
    pub endpoints_configured: usize,
}

} // verus!
