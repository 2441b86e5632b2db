//! A small typed model of a Docker Compose document, and its document tree.
//!
//! The tree that [`Document::to_value`] builds has the keys in the order the
//! fields are declared; empty lists, empty maps and absent options are left out.

use crate::kv::sorted_keys;
use crate::value::{
    Number, Value, Yaml, yv, yv_entries, yv_list, lemma_yv_entries_push, lemma_yv_list_push,
};
use vstd::prelude::*;

verus! {

/// A Compose document.
pub struct Document {
    /// Services, sorted by name.
    pub services: Vec<(String, Service)>,
    /// Networks, sorted by alias.
    pub networks: Vec<(String, Network)>,
    /// Named volumes, sorted by name.
    pub volumes: Vec<(String, Volume)>,
}

/// A named volume definition; it has no settings.
#[derive(Clone, Copy)]
pub struct Volume {}

/// A Compose service.
pub struct Service {
    /// Image reference.
    pub image: String,
    /// Fixed container name.
    pub container_name: Option<String>,
    /// Command arguments.
    pub command: Vec<String>,
    /// Restart policy.
    pub restart: Option<String>,
    /// Network mode.
    pub network_mode: Option<String>,
    /// Network aliases.
    pub networks: Vec<String>,
    /// Published ports.
    pub ports: Vec<String>,
    /// Volume mounts.
    pub volumes: Vec<String>,
    /// Environment variables, sorted by name.
    pub environment: Vec<(String, String)>,
    /// Environment files.
    pub env_file: Vec<String>,
    /// Container labels.
    pub labels: Vec<String>,
    /// Health check.
    pub healthcheck: Option<Healthcheck>,
    /// Logging driver.
    pub logging: Option<Logging>,
}

/// A Compose network definition.
pub struct Network {
    /// Docker network name.
    pub name: Option<String>,
    /// Whether the network is external.
    pub external: Option<bool>,
}

/// A Compose health check.
pub struct Healthcheck {
    /// Test command.
    pub test: Vec<String>,
    /// Interval between checks.
    pub interval: String,
    /// Timeout of one check.
    pub timeout: String,
    /// Start period.
    pub start_period: Option<String>,
    /// Retries.
    pub retries: u32,
}

/// A Compose logging configuration.
pub struct Logging {
    /// Driver name.
    pub driver: String,
    /// Driver options, sorted by name.
    pub options: Vec<(String, String)>,
}

// ---------------------------------------------------------------------------
// The document tree, as specifications
// ---------------------------------------------------------------------------

/// A text node.
pub open spec fn txt(s: Seq<char>) -> Yaml {
    Yaml::Text(s)
}

/// A list of text nodes.
pub open spec fn txt_list(v: Seq<String>) -> Seq<Yaml> {
    v.map_values(|s: String| Yaml::Text(s@))
}

/// Entries of a string-to-string map.
pub open spec fn txt_pairs(v: Seq<(String, String)>) -> Seq<(Yaml, Yaml)> {
    v.map_values(|e: (String, String)| (Yaml::Text(e.0@), Yaml::Text(e.1@)))
}

/// A field holding an optional string.
pub open spec fn opt_field(key: Seq<char>, v: Option<String>) -> Seq<(Yaml, Yaml)> {
    match v {
        Some(s) => seq![(txt(key), txt(s@))],
        None => Seq::empty(),
    }
}

/// A field holding a list of strings, left out when empty.
pub open spec fn list_field(key: Seq<char>, v: Seq<String>) -> Seq<(Yaml, Yaml)> {
    if v.len() == 0 {
        Seq::empty()
    } else {
        seq![(txt(key), Yaml::List(txt_list(v)))]
    }
}

/// A field holding a string map, left out when empty.
pub open spec fn pairs_field(key: Seq<char>, v: Seq<(String, String)>) -> Seq<(Yaml, Yaml)> {
    if v.len() == 0 {
        Seq::empty()
    } else {
        seq![(txt(key), Yaml::Dict(txt_pairs(v)))]
    }
}

/// The tree of a health check.
pub open spec fn healthcheck_yaml(h: Healthcheck) -> Yaml {
    Yaml::Dict(
        seq![(txt("test"@), Yaml::List(txt_list(h.test@))), (txt("interval"@), txt(h.interval@)), (txt("timeout"@), txt(h.timeout@))]
            + opt_field("start_period"@, h.start_period) + seq![(txt("retries"@), Yaml::Int(h.retries as int))],
    )
}

/// The tree of a logging configuration.
pub open spec fn logging_yaml(l: Logging) -> Yaml {
    Yaml::Dict(seq![(txt("driver"@), txt(l.driver@)), (txt("options"@), Yaml::Dict(txt_pairs(l.options@)))])
}

/// The entries of a service's tree.
pub open spec fn service_entries(s: Service) -> Seq<(Yaml, Yaml)> {
    seq![(txt("image"@), txt(s.image@))] + opt_field("container_name"@, s.container_name)
        + list_field("command"@, s.command@) + opt_field("restart"@, s.restart) + opt_field(
        "network_mode"@,
        s.network_mode,
    ) + list_field("networks"@, s.networks@) + list_field("ports"@, s.ports@) + list_field(
        "volumes"@,
        s.volumes@,
    ) + pairs_field("environment"@, s.environment@) + list_field("env_file"@, s.env_file@)
        + list_field("labels"@, s.labels@) + match s.healthcheck {
        Some(h) => seq![(txt("healthcheck"@), healthcheck_yaml(h))],
        None => Seq::empty(),
    } + match s.logging {
        Some(l) => seq![(txt("logging"@), logging_yaml(l))],
        None => Seq::empty(),
    }
}

/// The tree of a service.
pub open spec fn service_yaml(s: Service) -> Yaml {
    Yaml::Dict(service_entries(s))
}

/// The tree of a network definition.
pub open spec fn network_yaml(n: Network) -> Yaml {
    Yaml::Dict(
        opt_field("name"@, n.name) + match n.external {
            Some(b) => seq![(txt("external"@), Yaml::Bool(b))],
            None => Seq::empty(),
        },
    )
}

/// The tree of a document.
pub open spec fn document_yaml(d: Document) -> Yaml {
    Yaml::Dict(
        seq![(txt("services"@), Yaml::Dict(d.services@.map_values(|e: (String, Service)| (txt(e.0@), service_yaml(e.1)))))]
            + if d.networks@.len() == 0 {
            Seq::empty()
        } else {
            seq![(txt("networks"@), Yaml::Dict(d.networks@.map_values(|e: (String, Network)| (txt(e.0@), network_yaml(e.1)))))]
        } + if d.volumes@.len() == 0 {
            Seq::empty()
        } else {
            seq![(txt("volumes"@), Yaml::Dict(d.volumes@.map_values(|e: (String, Volume)| (txt(e.0@), Yaml::Dict(Seq::empty())))))]
        },
    )
}

impl Document {
    /// Maps are sorted by key with no key twice.
    pub open spec fn wf(&self) -> bool {
        &&& sorted_keys(self.services@)
        &&& sorted_keys(self.networks@)
        &&& sorted_keys(self.volumes@)
        &&& forall|i: int| 0 <= i < self.services@.len() ==> (#[trigger] self.services@[i]).1.wf()
    }
}

impl Service {
    /// Maps are sorted by key with no key twice.
    pub open spec fn wf(&self) -> bool {
        &&& sorted_keys(self.environment@)
        &&& match self.logging {
            Some(l) => sorted_keys(l.options@),
            None => true,
        }
    }
}

// ---------------------------------------------------------------------------
// Building the tree
// ---------------------------------------------------------------------------

pub fn text_list(v: &Vec<String>) -> (r: Vec<Value>)
    ensures
        yv_list(r@) == txt_list(v@),
{
    let mut out: Vec<Value> = Vec::new();
    let mut i: usize = 0;
    while i < v.len()
        invariant
            i <= v.len(),
            yv_list(out@) == txt_list(v@.take(i as int)),
        decreases v.len() - i,
    {
        let x = Value::String(v[i].clone());
        proof {
            lemma_yv_list_push(out@, x);
        }
        out.push(x);
        i = i + 1;
        assert(txt_list(v@.take(i as int)) =~= txt_list(v@.take(i - 1)).push(Yaml::Text(v@[i - 1]@)));
    }
    assert(v@.take(i as int) =~= v@);
    out
}

fn text_pairs(v: &Vec<(String, String)>) -> (r: Vec<(Value, Value)>)
    ensures
        yv_entries(r@) == txt_pairs(v@),
{
    let mut out: Vec<(Value, Value)> = Vec::new();
    let mut i: usize = 0;
    while i < v.len()
        invariant
            i <= v.len(),
            yv_entries(out@) == txt_pairs(v@.take(i as int)),
        decreases v.len() - i,
    {
        let x = (Value::String(v[i].0.clone()), Value::String(v[i].1.clone()));
        proof {
            lemma_yv_entries_push(out@, x);
        }
        out.push(x);
        i = i + 1;
        assert(txt_pairs(v@.take(i as int)) =~= txt_pairs(v@.take(i - 1)).push(
            (Yaml::Text(v@[i - 1].0@), Yaml::Text(v@[i - 1].1@)),
        ));
    }
    assert(v@.take(i as int) =~= v@);
    out
}

fn push_entry(es: &mut Vec<(Value, Value)>, key: &str, v: Value)
    ensures
        yv_entries(final(es)@) == yv_entries(old(es)@) + seq![(txt(key@), yv(v))],
{
    let k = Value::String(key.to_owned());
    proof {
        lemma_yv_entries_push(old(es)@, (k, v));
    }
    es.push((k, v));
    assert(yv_entries(old(es)@).push((txt(key@), yv(v))) =~= yv_entries(old(es)@) + seq![(txt(key@), yv(v))]);
}

fn push_opt(es: &mut Vec<(Value, Value)>, key: &str, v: &Option<String>)
    ensures
        yv_entries(final(es)@) == yv_entries(old(es)@) + opt_field(key@, *v),
{
    match v {
        Some(s) => push_entry(es, key, Value::String(s.clone())),
        None => {
            assert(yv_entries(old(es)@) + Seq::<(Yaml, Yaml)>::empty() =~= yv_entries(old(es)@));
        },
    }
}

fn push_list(es: &mut Vec<(Value, Value)>, key: &str, v: &Vec<String>)
    ensures
        yv_entries(final(es)@) == yv_entries(old(es)@) + list_field(key@, v@),
{
    if v.len() == 0 {
        assert(yv_entries(old(es)@) + Seq::<(Yaml, Yaml)>::empty() =~= yv_entries(old(es)@));
    } else {
        let items = text_list(v);
        push_entry(es, key, Value::Sequence(items));
    }
}

fn push_pairs(es: &mut Vec<(Value, Value)>, key: &str, v: &Vec<(String, String)>)
    ensures
        yv_entries(final(es)@) == yv_entries(old(es)@) + pairs_field(key@, v@),
{
    if v.len() == 0 {
        assert(yv_entries(old(es)@) + Seq::<(Yaml, Yaml)>::empty() =~= yv_entries(old(es)@));
    } else {
        let items = text_pairs(v);
        push_entry(es, key, Value::Mapping(items));
    }
}

impl Healthcheck {
    /// The document tree of this health check.
    pub fn to_value(&self) -> (r: Value)
        ensures
            yv(r) == healthcheck_yaml(*self),
    {
        let mut es: Vec<(Value, Value)> = Vec::new();
        push_entry(&mut es, "test", Value::Sequence(text_list(&self.test)));
        push_entry(&mut es, "interval", Value::String(self.interval.clone()));
        push_entry(&mut es, "timeout", Value::String(self.timeout.clone()));
        push_opt(&mut es, "start_period", &self.start_period);
        push_entry(&mut es, "retries", Value::Number(Number::PosInt(self.retries as u64)));
        assert(yv_entries(es@) =~= seq![(txt("test"@), Yaml::List(txt_list(self.test@))), (txt("interval"@), txt(self.interval@)), (txt("timeout"@), txt(self.timeout@))]
            + opt_field("start_period"@, self.start_period) + seq![(txt("retries"@), Yaml::Int(self.retries as int))]);
        Value::Mapping(es)
    }
}

impl Logging {
    /// The document tree of this logging configuration.
    pub fn to_value(&self) -> (r: Value)
        ensures
            yv(r) == logging_yaml(*self),
    {
        let mut es: Vec<(Value, Value)> = Vec::new();
        push_entry(&mut es, "driver", Value::String(self.driver.clone()));
        push_entry(&mut es, "options", Value::Mapping(text_pairs(&self.options)));
        assert(yv_entries(es@) =~= seq![(txt("driver"@), txt(self.driver@)), (txt("options"@), Yaml::Dict(txt_pairs(self.options@)))]);
        Value::Mapping(es)
    }
}

impl Service {
    /// The document tree of this service.
    pub fn to_value(&self) -> (r: Value)
        ensures
            yv(r) == service_yaml(*self),
    {
        let mut es: Vec<(Value, Value)> = Vec::new();
        push_entry(&mut es, "image", Value::String(self.image.clone()));
        assert(yv_entries(es@) =~= seq![(txt("image"@), txt(self.image@))]);
        push_opt(&mut es, "container_name", &self.container_name);
        push_list(&mut es, "command", &self.command);
        push_opt(&mut es, "restart", &self.restart);
        push_opt(&mut es, "network_mode", &self.network_mode);
        push_list(&mut es, "networks", &self.networks);
        push_list(&mut es, "ports", &self.ports);
        push_list(&mut es, "volumes", &self.volumes);
        push_pairs(&mut es, "environment", &self.environment);
        push_list(&mut es, "env_file", &self.env_file);
        push_list(&mut es, "labels", &self.labels);
        match &self.healthcheck {
            Some(h) => push_entry(&mut es, "healthcheck", h.to_value()),
            None => {
                assert(yv_entries(es@) + Seq::<(Yaml, Yaml)>::empty() =~= yv_entries(es@));
            },
        }
        match &self.logging {
            Some(l) => push_entry(&mut es, "logging", l.to_value()),
            None => {
                assert(yv_entries(es@) + Seq::<(Yaml, Yaml)>::empty() =~= yv_entries(es@));
            },
        }
        Value::Mapping(es)
    }
}

impl Network {
    /// The document tree of this network definition.
    pub fn to_value(&self) -> (r: Value)
        ensures
            yv(r) == network_yaml(*self),
    {
        let mut es: Vec<(Value, Value)> = Vec::new();
        assert(yv_entries(es@) =~= Seq::<(Yaml, Yaml)>::empty());
        push_opt(&mut es, "name", &self.name);
        match self.external {
            Some(b) => push_entry(&mut es, "external", Value::Bool(b)),
            None => {
                assert(yv_entries(es@) + Seq::<(Yaml, Yaml)>::empty() =~= yv_entries(es@));
            },
        }
        assert(yv_entries(es@) =~= Seq::<(Yaml, Yaml)>::empty() + opt_field("name"@, self.name) + match self.external {
            Some(b) => seq![(txt("external"@), Yaml::Bool(b))],
            None => Seq::empty(),
        });
        Value::Mapping(es)
    }
}

impl Document {
    /// The document tree, as it is written out.
    pub fn to_value(&self) -> (r: Value)
        ensures
            yv(r) == document_yaml(*self),
    {
        let mut services: Vec<(Value, Value)> = Vec::new();
        let mut i: usize = 0;
        while i < self.services.len()
            invariant
                i <= self.services.len(),
                yv_entries(services@) == self.services@.take(i as int).map_values(
                    |e: (String, Service)| (txt(e.0@), service_yaml(e.1)),
                ),
            decreases self.services.len() - i,
        {
            let x = (Value::String(self.services[i].0.clone()), self.services[i].1.to_value());
            proof {
                lemma_yv_entries_push(services@, x);
            }
            services.push(x);
            i = i + 1;
            assert(self.services@.take(i as int).map_values(|e: (String, Service)| (txt(e.0@), service_yaml(e.1)))
                =~= self.services@.take(i - 1).map_values(|e: (String, Service)| (txt(e.0@), service_yaml(e.1))).push(
                (txt(self.services@[i - 1].0@), service_yaml(self.services@[i - 1].1))));
        }
        assert(self.services@.take(i as int) =~= self.services@);
        let mut es: Vec<(Value, Value)> = Vec::new();
        push_entry(&mut es, "services", Value::Mapping(services));
        assert(yv_entries(es@) =~= seq![(txt("services"@), Yaml::Dict(self.services@.map_values(|e: (String, Service)| (txt(e.0@), service_yaml(e.1)))))]);
        if self.networks.len() > 0 {
            let mut nets: Vec<(Value, Value)> = Vec::new();
            let mut j: usize = 0;
            while j < self.networks.len()
                invariant
                    j <= self.networks.len(),
                    yv_entries(nets@) == self.networks@.take(j as int).map_values(
                        |e: (String, Network)| (txt(e.0@), network_yaml(e.1)),
                    ),
                decreases self.networks.len() - j,
            {
                let x = (Value::String(self.networks[j].0.clone()), self.networks[j].1.to_value());
                proof {
                    lemma_yv_entries_push(nets@, x);
                }
                nets.push(x);
                j = j + 1;
                assert(self.networks@.take(j as int).map_values(|e: (String, Network)| (txt(e.0@), network_yaml(e.1)))
                    =~= self.networks@.take(j - 1).map_values(|e: (String, Network)| (txt(e.0@), network_yaml(e.1))).push(
                    (txt(self.networks@[j - 1].0@), network_yaml(self.networks@[j - 1].1))));
            }
            assert(self.networks@.take(j as int) =~= self.networks@);
            push_entry(&mut es, "networks", Value::Mapping(nets));
        } else {
            assert(yv_entries(es@) + Seq::<(Yaml, Yaml)>::empty() =~= yv_entries(es@));
        }
        if self.volumes.len() > 0 {
            let mut vols: Vec<(Value, Value)> = Vec::new();
            let mut j: usize = 0;
            while j < self.volumes.len()
                invariant
                    j <= self.volumes.len(),
                    yv_entries(vols@) == self.volumes@.take(j as int).map_values(
                        |e: (String, Volume)| (txt(e.0@), Yaml::Dict(Seq::empty())),
                    ),
                decreases self.volumes.len() - j,
            {
                let empty: Vec<(Value, Value)> = Vec::new();
                let x = (Value::String(self.volumes[j].0.clone()), Value::Mapping(empty));
                proof {
                    assert(yv_entries(empty@) =~= Seq::<(Yaml, Yaml)>::empty());
                    lemma_yv_entries_push(vols@, x);
                }
                vols.push(x);
                j = j + 1;
                assert(self.volumes@.take(j as int).map_values(|e: (String, Volume)| (txt(e.0@), Yaml::Dict(Seq::empty())))
                    =~= self.volumes@.take(j - 1).map_values(|e: (String, Volume)| (txt(e.0@), Yaml::Dict(Seq::empty()))).push(
                    (txt(self.volumes@[j - 1].0@), Yaml::Dict(Seq::empty()))));
            }
            assert(self.volumes@.take(j as int) =~= self.volumes@);
            push_entry(&mut es, "volumes", Value::Mapping(vols));
        } else {
            assert(yv_entries(es@) + Seq::<(Yaml, Yaml)>::empty() =~= yv_entries(es@));
        }
        Value::Mapping(es)
    }
}

} // verus!
