use vstd::prelude::*;
use vstd::string::*;

use crate::marker::json_str_field;
use crate::strutil::str_eq;

verus! {

/// The host's cloud instance identity. Empty strings mean "unknown or not
/// cloud-hosted", never absence or error.
pub struct InstanceIdentity {
    pub instance_type: String,
    pub instance_id: String,
}

/// The spec-level image of an `InstanceIdentity`.
pub ghost struct SpecIdentity {
    pub instance_type: Seq<char>,
    pub instance_id: Seq<char>,
}

impl View for InstanceIdentity {
    type V = SpecIdentity;

    open spec fn view(&self) -> SpecIdentity {
        SpecIdentity { instance_type: self.instance_type@, instance_id: self.instance_id@ }
    }
}

/// The identity of a host that is unknown or not cloud-hosted.
pub open spec fn spec_empty_identity() -> SpecIdentity {
    SpecIdentity { instance_type: Seq::empty(), instance_id: Seq::empty() }
}

/// The view of an optional owned string.
pub open spec fn opt_str_view(s: Option<String>) -> Option<Seq<char>> {
    match s {
        Some(v) => Some(v@),
        None => None,
    }
}

/// Whether a host-identity marker file identifies a recognized cloud host:
/// the file was readable and its content starts with `ec2`.
pub open spec fn spec_is_cloud_marker(marker: Option<Seq<char>>) -> bool {
    match marker {
        Some(s) => s.len() >= 3 && s.take(3) == "ec2"@,
        None => false,
    }
}

/// Decides from the marker file's content (absent when unreadable) whether
/// this host is a recognized cloud host, and so whether the metadata
/// endpoint is to be queried at all.
pub fn is_cloud_host(marker: &Option<String>) -> (r: bool)
    ensures
        r == spec_is_cloud_marker(opt_str_view(*marker)),
{
    match marker {
        None => false,
        Some(m) => {
            if m.as_str().unicode_len() < 3 {
                false
            } else {
                let prefix = m.as_str().substring_char(0, 3);
                proof {
                    assert(m@.subrange(0, 3) =~= m@.take(3));
                }
                str_eq(prefix, "ec2")
            }
        },
    }
}

/// The instance type and id held by a metadata document, when it is a JSON
/// object with string fields `instanceType` and `instanceId`.
pub open spec fn spec_instance_identity(body: Seq<char>) -> Option<(Seq<char>, Seq<char>)> {
    match (json_str_field(body, "instanceType"@), json_str_field(body, "instanceId"@)) {
        (Some(t), Some(i)) => Some((t, i)),
        _ => None,
    }
}

/// Parses a metadata document into an instance identity; nothing when the
/// document is not a JSON object with both string fields.
pub fn parse_instance_identity(body: &str) -> (r: Option<InstanceIdentity>)
    ensures
        match r {
            Some(id) => spec_instance_identity(body@) matches Some(p) && id.instance_type@ == p.0
                && id.instance_id@ == p.1,
            None => spec_instance_identity(body@) is None,
        },
{
    let instance_type = match crate::marker::json_get_str(body, "instanceType") {
        Some(t) => t,
        None => {
            return None;
        },
    };
    let instance_id = match crate::marker::json_get_str(body, "instanceId") {
        Some(i) => i,
        None => {
            return None;
        },
    };
    Some(InstanceIdentity { instance_type, instance_id })
}

/// The resolved host identity, as a function of the marker file's content
/// and of the metadata endpoint's answer (absent when no answer came):
/// the parsed identity when the marker names a cloud host and the answer
/// parses, and the empty identity in every other case.
pub open spec fn spec_host_identity(
    marker: Option<Seq<char>>,
    body: Option<Seq<char>>,
) -> SpecIdentity {
    if spec_is_cloud_marker(marker) {
        match body {
            Some(b) => match spec_instance_identity(b) {
                Some(p) => SpecIdentity { instance_type: p.0, instance_id: p.1 },
                None => spec_empty_identity(),
            },
            None => spec_empty_identity(),
        }
    } else {
        spec_empty_identity()
    }
}

/// Resolves the host identity from the marker file's content and the
/// metadata endpoint's answer. Never fails: every internal failure
/// degrades to the empty identity.
pub fn resolve_host_identity(marker: &Option<String>, body: &Option<String>) -> (r:
    InstanceIdentity)
    ensures
        r@ == spec_host_identity(opt_str_view(*marker), opt_str_view(*body)),
{
    if is_cloud_host(marker) {
        match body {
            Some(b) => match parse_instance_identity(b.as_str()) {
                Some(id) => id,
                None => empty_identity(),
            },
            None => empty_identity(),
        }
    } else {
        empty_identity()
    }
}

/// The empty identity value handed out whenever enrichment is unavailable.
pub fn empty_identity() -> (r: InstanceIdentity)
    ensures
        r@ == spec_empty_identity(),
{
    InstanceIdentity { instance_type: String::new(), instance_id: String::new() }
}

/// On a host without a matching cloud marker the resolved identity is
/// empty, whatever the metadata endpoint would have answered: no answer is
/// needed, so no network request is owed.
pub proof fn lemma_non_cloud_host_empty_identity(
    marker: Option<Seq<char>>,
    body: Option<Seq<char>>,
)
    requires
        !spec_is_cloud_marker(marker),
    ensures
        spec_host_identity(marker, body) == spec_empty_identity(),
{
}

} // verus!
