//! What the node needs from its FaaS platform: the name under which a
//! function is deployed, the definition it is deployed with, the time
//! allowed for a function to come alive, and the offline backend used when
//! no platform is attached.
use vstd::prelude::*;
use vstd::arithmetic::power::pow;
use std::time::Duration;
use vstd::string::*;
use crate::concurrent_map::Resources;
use crate::records::Paid;
use crate::sla::SlaId;

verus! {

/// The lowercase hexadecimal digit of `n` (between 0 and 15).
pub open spec fn hex_digit(n: int) -> char {
    if n < 10 {
        ('0' as int + n) as char
    } else {
        ('a' as int + n - 10) as char
    }
}

/// The `k`-th hexadecimal digit of `id`, most significant first (`k`
/// between 0 and 31).
pub open spec fn nibble(id: u128, k: int) -> int {
    ((id as int) / pow(16, (31 - k) as nat)) % 16
}

/// Which digit of the UUID text stands at position `i` of its hyphenated
/// form: the groups are 8, 4, 4, 4 and 12 digits long.
pub open spec fn digit_at(i: int) -> int {
    if i < 8 {
        i
    } else if i < 13 {
        i - 1
    } else if i < 18 {
        i - 2
    } else if i < 23 {
        i - 3
    } else {
        i - 4
    }
}

/// The hyphenated lowercase text of the UUID whose 128-bit value is `id`:
/// its 32 hexadecimal digits, most significant first, in groups of 8, 4,
/// 4, 4 and 12 joined by hyphens.
pub open spec fn uuid_text(id: u128) -> Seq<char> {
    Seq::new(36, |i: int| if i == 8 || i == 13 || i == 18 || i == 23 { '-' } else { hex_digit(nibble(id, digit_at(i))) })
}

/// `Uuid::from_u128` then `to_string` (its `Display`): the hyphenated
/// lowercase text of the UUID.
#[verifier::external_body]
fn uuid_string(id: u128) -> (r: String)
    ensures
        r@ == uuid_text(id),
{
    uuid::Uuid::from_u128(id).to_string()
}

/// The deployment name for a function whose SLA's UUID reads `uuid_text`:
/// `fogfn-` then that text, so that the name starts with a letter as
/// DNS-1035 labels must.
pub fn function_name_for(uuid_text: &str) -> (r: String)
    ensures
        r@ == "fogfn-"@ + uuid_text@,
{
    let prefix = String::from_str("fogfn-");
    prefix.concat(uuid_text)
}

/// The name under which the function of SLA `id` is deployed: `fogfn-`
/// then the SLA's UUID.
pub fn faas_function_name(id: SlaId) -> (r: String)
    ensures
        r@ == "fogfn-"@ + uuid_text(id),
{
    let text = uuid_string(id);
    function_name_for(text.as_str())
}

/// Why a timeout was refused.
#[derive(Clone, Copy, Debug, PartialEq, Eq)]
pub enum FunctionTimeoutError {
    /// The timeout must not be negative.
    GreaterOrEqualViolated,
}

/// How long, in milliseconds, a provisioned function has to come alive.
#[derive(Clone, Debug, PartialEq, Eq)]
pub struct FunctionTimeout(u64);

impl FunctionTimeout {
    pub closed spec fn value(&self) -> u64 {
        self.0
    }

    /// The timeout `value`; every `u64` is a valid timeout.
    pub fn try_new(value: u64) -> (r: Result<FunctionTimeout, FunctionTimeoutError>)
        ensures
            r matches Ok(t) && t.value() == value,
    {
        Ok(FunctionTimeout(value))
    }

    pub fn into_inner(self) -> (r: u64)
        ensures
            r == self.value(),
    {
        self.0
    }
}

/// The FaaS backend used without a platform: functions are "deployed"
/// under their name and come alive after a fixed delay.
#[derive(Debug)]
pub struct FaaSBackendOfflineImpl {
    online_delay: Duration,
}

impl FaaSBackendOfflineImpl {
    pub closed spec fn delay(&self) -> Duration {
        self.online_delay
    }

    /// An offline backend whose functions come alive after `online_delay`.
    pub fn new(online_delay: Duration) -> (r: Self)
        ensures
            r.delay() == online_delay,
    {
        FaaSBackendOfflineImpl { online_delay }
    }

    /// How long a function takes to come alive.
    pub fn online_delay(&self) -> (r: Duration)
        ensures
            r == self.delay(),
    {
        self.online_delay
    }
}

/// Where the deployed functions report their metrics, and where they send
/// their traces (when configured).
#[derive(Clone, Debug, PartialEq, Eq)]
pub struct PlatformSettings {
    pub influx_bucket: String,
    pub influx_address: String,
    pub influx_org: String,
    pub influx_token: String,
    pub otel_endpoint: Option<String>,
}

/// What the FaaS platform is asked to deploy for a paid SLA.
///
/// `max_scale` is the value of the `com.openfaas.scale.max` label.
#[derive(Clone, Debug, PartialEq, Eq)]
pub struct FunctionDefinition {
    pub image: String,
    pub service: String,
    pub limits: Resources,
    pub requests: Resources,
    pub env_vars: Vec<(String, String)>,
    pub max_scale: u64,
}

/// The environment given to a deployed function, as pairs of texts.
pub open spec fn definition_env(id: SlaId, paid: Paid, sla_json: Seq<char>, settings: PlatformSettings) -> Seq<(Seq<char>, Seq<char>)> {
    seq![
        ("SLA"@, sla_json),
        ("INFLUX_BUCKET"@, settings.influx_bucket@),
        ("INFLUX_ADDRESS"@, settings.influx_address@),
        ("INFLUX_ORG"@, settings.influx_org@),
        ("INFLUX_TOKEN"@, settings.influx_token@),
        ("ID"@, uuid_text(id)),
        ("NAME"@, paid.sla.function_live_name@),
    ] + match settings.otel_endpoint {
        Some(e) => seq![("OTEL_EXPORTER_OTLP_ENDPOINT_FUNCTION"@, e@)],
        None => Seq::empty(),
    }
}

/// The pairs of a list of environment variables, as texts.
pub open spec fn env_view(v: Seq<(String, String)>) -> Seq<(Seq<char>, Seq<char>)> {
    v.map_values(|p: (String, String)| (p.0@, p.1@))
}

/// The definition a paid SLA is deployed with: its image, under the name
/// `faas_function_name` gives, with the SLA's memory and CPU both as limits
/// and as requests, the SLA's replica count as its maximum scale, and with an
/// environment that carries the SLA itself (`sla_json`, its JSON text), the
/// metrics settings, the SLA's id and live name, and the trace endpoint when
/// there is one.
pub fn function_definition(id: SlaId, paid: &Paid, sla_json: String, settings: PlatformSettings) -> (r: FunctionDefinition)
    ensures
        r.image == paid.sla.function_image,
        r.service@ == "fogfn-"@ + uuid_text(id),
        r.limits == (Resources { memory: paid.sla.memory, cpu: paid.sla.cpu }),
        r.requests == (Resources { memory: paid.sla.memory, cpu: paid.sla.cpu }),
        r.max_scale == paid.sla.max_replica,
        env_view(r.env_vars@) == definition_env(id, *paid, sla_json@, settings),
{
    let mut env_vars: Vec<(String, String)> = Vec::new();
    env_vars.push((String::from_str("SLA"), sla_json));
    env_vars.push((String::from_str("INFLUX_BUCKET"), settings.influx_bucket.clone()));
    env_vars.push((String::from_str("INFLUX_ADDRESS"), settings.influx_address.clone()));
    env_vars.push((String::from_str("INFLUX_ORG"), settings.influx_org.clone()));
    env_vars.push((String::from_str("INFLUX_TOKEN"), settings.influx_token.clone()));
    env_vars.push((String::from_str("ID"), uuid_string(id)));
    env_vars.push((String::from_str("NAME"), paid.sla.function_live_name.clone()));
    match &settings.otel_endpoint {
        Some(e) => env_vars.push((String::from_str("OTEL_EXPORTER_OTLP_ENDPOINT_FUNCTION"), e.clone())),
        None => {},
    }
    assert(env_view(env_vars@) =~= definition_env(id, *paid, sla_json@, settings));
    let resources = Resources { memory: paid.sla.memory, cpu: paid.sla.cpu };
    FunctionDefinition {
        image: paid.sla.function_image.clone(),
        service: faas_function_name(id),
        limits: resources,
        requests: resources,
        env_vars,
        max_scale: paid.sla.max_replica,
    }
}

} // verus!
