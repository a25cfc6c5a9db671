//! The metrics that the server exposes, and the label under which a client
//! is counted.

use vstd::prelude::*;
use vstd::string::StringExecFns;
use vstd::utf8::encode_utf8;

verus! {

/// The shape of a metric family.
#[derive(Debug, Clone, Copy, PartialEq, Eq, Structural)]
pub enum MetricKind {
    /// One integer gauge for each value of the family's label.
    IntGaugeVec,
    /// One integer gauge.
    IntGauge,
    /// A histogram over the family's buckets.
    Histogram,
}

/// One metric family: what the exporter is told when the family is registered.
#[derive(Debug, PartialEq, Eq)]
pub struct MetricFamily {
    pub name: String,
    pub help: String,
    pub kind: MetricKind,
    /// The label that tells the gauges of an `IntGaugeVec` apart.
    pub label: Option<String>,
    /// Upper bounds of a histogram's buckets, in seconds, ascending.
    pub buckets: Vec<u64>,
}

/// What a `MetricFamily` stands for in contracts.
pub struct MetricFamilyView {
    pub name: Seq<char>,
    pub help: Seq<char>,
    pub kind: MetricKind,
    pub label: Option<Seq<char>>,
    pub buckets: Seq<u64>,
}

impl View for MetricFamily {
    type V = MetricFamilyView;

    open spec fn view(&self) -> MetricFamilyView {
        MetricFamilyView {
            name: self.name@,
            help: self.help@,
            kind: self.kind,
            label: match self.label {
                Some(label) => Some(label@),
                None => None,
            },
            buckets: self.buckets@,
        }
    }
}

/// The clients connected, counted for each hashed address.
pub open spec fn connected_clients() -> MetricFamilyView {
    MetricFamilyView {
        name: "num_connected_clients"@,
        help: "Connected Clients"@,
        kind: MetricKind::IntGaugeVec,
        label: Some("hashed_ip"@),
        buckets: Seq::empty(),
    }
}

/// The rooms that are open.
pub open spec fn ongoing_sessions() -> MetricFamilyView {
    MetricFamilyView {
        name: "num_ongoing_sessions"@,
        help: "Ongoing Sessions"@,
        kind: MetricKind::IntGauge,
        label: None,
        buckets: Seq::empty(),
    }
}

/// How long the rooms that have closed were open, from one second to a day.
pub open spec fn session_duration() -> MetricFamilyView {
    MetricFamilyView {
        name: "session_duration_sec"@,
        help: "Session Duration Seconds"@,
        kind: MetricKind::Histogram,
        label: None,
        buckets: seq![
            1u64, 5, 10, 15, 20, 25, 30, 40, 50, 60, 90, 120, 180, 240, 300, 600, 900, 1800, 3600,
            7200, 14400, 28800, 43200, 86400,
        ],
    }
}

/// The families of the server, in the order in which they are registered.
pub open spec fn families() -> Seq<MetricFamilyView> {
    seq![connected_clients(), ongoing_sessions(), session_duration()]
}

/// The views of a list of families, in order.
pub open spec fn family_views(families: Seq<MetricFamily>) -> Seq<MetricFamilyView> {
    families.map_values(|f: MetricFamily| f@)
}

/// The metric families to register with the exporter, in order.
pub fn register() -> (registered: Vec<MetricFamily>)
    ensures
        family_views(registered@) == families(),
{
    let mut registered: Vec<MetricFamily> = Vec::new();
    registered.push(
        MetricFamily {
            name: String::from_str("num_connected_clients"),
            help: String::from_str("Connected Clients"),
            kind: MetricKind::IntGaugeVec,
            label: Some(String::from_str("hashed_ip")),
            buckets: Vec::new(),
        },
    );
    registered.push(
        MetricFamily {
            name: String::from_str("num_ongoing_sessions"),
            help: String::from_str("Ongoing Sessions"),
            kind: MetricKind::IntGauge,
            label: None,
            buckets: Vec::new(),
        },
    );
    let buckets: Vec<u64> = vec![
        1,
        5,
        10,
        15,
        20,
        25,
        30,
        40,
        50,
        60,
        90,
        120,
        180,
        240,
        300,
        600,
        900,
        1800,
        3600,
        7200,
        14400,
        28800,
        43200,
        86400,
    ];
    assert(buckets@ =~= session_duration().buckets);
    registered.push(
        MetricFamily {
            name: String::from_str("session_duration_sec"),
            help: String::from_str("Session Duration Seconds"),
            kind: MetricKind::Histogram,
            label: None,
            buckets,
        },
    );
    assert(registered@[0]@.buckets =~= connected_clients().buckets);
    assert(registered@[1]@.buckets =~= ongoing_sessions().buckets);
    assert(family_views(registered@) =~= families());
    registered
}

/// The text that the crate `argon2` makes of a password and a salt with its
/// default settings: the hash output in the crate's own base64. `None` where
/// the crate turns the salt or the password down.
pub uninterp spec fn argon2_output(password: Seq<u8>, salt: Seq<char>) -> Option<Seq<char>>;

#[verifier::external_type_specification]
#[verifier::external_body]
pub struct ExPasswordHashError(argon2::password_hash::Error);

/// `PasswordHasher::hash_password` of the crate `argon2`, on
/// `Argon2::default()`, with the salt read by `SaltString::from_b64`; the
/// hash output is turned into text. Trusted: what comes back is a function
/// of the password and the salt alone, here named `argon2_output`.
#[verifier::external_body]
fn argon2_hash(password: &[u8], salt: &str) -> (hashed: Result<
    Option<String>,
    argon2::password_hash::Error,
>)
    ensures
        match hashed {
            Ok(Some(text)) => argon2_output(password@, salt@) == Some(text@),
            _ => argon2_output(password@, salt@) is None,
        },
{
    let salt = argon2::password_hash::SaltString::from_b64(salt)?;
    let hash = argon2::password_hash::PasswordHasher::hash_password(
        &argon2::Argon2::default(),
        password,
        &salt,
    )?;
    Ok(hash.hash.map(|output| output.to_string()))
}

/// The hasher turned the address or the salt down.
#[derive(Debug, Clone, Copy, PartialEq, Eq, Structural)]
pub enum HashIpError {
    Rejected,
}

/// The label under which the client at `ip` is counted: the Argon2 hash of
/// the address, as text, under the base64 salt `salt`.
pub fn hash_ip(ip: &str, salt: &str) -> (label: Result<String, HashIpError>)
    ensures
        match label {
            Ok(text) => argon2_output(encode_utf8(ip@), salt@) == Some(text@),
            Err(e) => argon2_output(encode_utf8(ip@), salt@) is None && e == HashIpError::Rejected,
        },
{
    match argon2_hash(ip.as_bytes(), salt) {
        Ok(Some(text)) => Ok(text),
        _ => Err(HashIpError::Rejected),
    }
}

} // verus!
