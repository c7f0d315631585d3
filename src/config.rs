//! Collection and exemption rules and the worker configuration that holds them.

use vstd::prelude::*;
use crate::text::{string_views};

verus! {

/// Server-side collection: the request path pattern, empty when unused.
#[derive(Debug, Clone)]
pub struct ServerConfig {
    pub path: String,
}

/// Client-side collection: a host pattern and optional path patterns.
#[derive(Debug, Clone)]
pub struct ClientConfig {
    pub host: String,
    pub paths: Vec<String>,
}

/// The HTTP part of a collection rule.
#[derive(Debug, Clone)]
pub struct HttpCollectionRule {
    pub server: ServerConfig,
    pub client: Vec<ClientConfig>,
}

/// A direction-scoped rule that decides whether an exchange is captured.
#[derive(Debug, Clone)]
pub struct CollectionRule {
    pub http: HttpCollectionRule,
}

/// A rule that excludes matching exchanges from capture; an empty pattern
/// list matches anything.
#[derive(Debug, Clone)]
pub struct ExemptionRule {
    pub host_patterns: Vec<String>,
    pub path_patterns: Vec<String>,
}

/// The telemetry-ingestion paths that the default exemption rule lists.
pub open spec fn default_exempt_paths() -> Seq<Seq<char>> {
    seq![
        "/v1/traces"@,
        "/api/traces"@,
        "/v1/metrics"@,
        "/api/metrics"@,
        "/v1/logs"@,
        "/api/logs"@,
        "/otlp/v1/traces"@,
        "/otlp/v1/metrics"@,
        "/otlp/v1/logs"@,
    ]
}

/// The default exemption path patterns.
pub fn default_exempt_path_patterns() -> (r: Vec<String>)
    ensures
        string_views(r@) == default_exempt_paths(),
{
    let mut r: Vec<String> = Vec::new();
    r.push(String::from_str("/v1/traces"));
    r.push(String::from_str("/api/traces"));
    r.push(String::from_str("/v1/metrics"));
    r.push(String::from_str("/api/metrics"));
    r.push(String::from_str("/v1/logs"));
    r.push(String::from_str("/api/logs"));
    r.push(String::from_str("/otlp/v1/traces"));
    r.push(String::from_str("/otlp/v1/metrics"));
    r.push(String::from_str("/otlp/v1/logs"));
    proof {
        assert(string_views(r@) =~= default_exempt_paths());
    }
    r
}

impl Default for ExemptionRule {
    /// The built-in rule: any host, the telemetry-ingestion paths.
    fn default() -> (r: ExemptionRule)
        ensures
            r.host_patterns@.len() == 0,
            string_views(r.path_patterns@) == default_exempt_paths(),
    {
        ExemptionRule { host_patterns: Vec::new(), path_patterns: default_exempt_path_patterns() }
    }
}

/// The configuration of a worker, loaded once and shared read-only.
#[derive(Debug, Clone)]
pub struct Config {
    pub sp_backend_url: String,
    pub service_name: String,
    pub traffic_direction: Option<String>,
    pub collection_rules: Vec<CollectionRule>,
    pub exemption_rules: Vec<ExemptionRule>,
    pub api_key: String,
}

impl Default for Config {
    /// The default backend and service name, no direction, rules or key.
    fn default() -> (r: Config)
        ensures
            r.sp_backend_url@ == "https://o.softprobe.ai"@,
            r.service_name@ == "default-service"@,
            r.traffic_direction.is_none(),
            r.collection_rules@.len() == 0,
            r.exemption_rules@.len() == 0,
            r.api_key@.len() == 0,
    {
        Config {
            sp_backend_url: String::from_str("https://o.softprobe.ai"),
            traffic_direction: None,
            service_name: String::from_str("default-service"),
            collection_rules: Vec::new(),
            exemption_rules: Vec::new(),
            api_key: String::new(),
        }
    }
}

/// A server rule for `path`.
pub open spec fn is_server_rule(r: CollectionRule, path: Seq<char>) -> bool {
    r.http.server.path@ == path && r.http.client@.len() == 0
}

/// A client rule for `host` and `paths`.
pub open spec fn is_client_rule(r: CollectionRule, host: Seq<char>, paths: Seq<Seq<char>>) -> bool {
    &&& r.http.server.path@.len() == 0
    &&& r.http.client@.len() == 1
    &&& r.http.client@[0].host@ == host
    &&& string_views(r.http.client@[0].paths@) == paths
}

impl Config {
    /// Appends one server rule for each server path, then one client rule for
    /// each client host and its paths.
    pub fn create_collection_rules(
        &mut self,
        server_paths: Vec<String>,
        client_configs: Vec<(String, Vec<String>)>,
    )
        ensures
            final(self).collection_rules@.len() == old(self).collection_rules@.len()
                + server_paths@.len() + client_configs@.len(),
            forall|i: int|
                0 <= i < old(self).collection_rules@.len() ==> final(self).collection_rules@[i]
                    == old(self).collection_rules@[i],
            forall|i: int|
                0 <= i < server_paths@.len() ==> is_server_rule(
                    #[trigger] final(self).collection_rules@[old(self).collection_rules@.len() + i],
                    server_paths@[i]@,
                ),
            forall|i: int|
                0 <= i < client_configs@.len() ==> is_client_rule(
                    #[trigger] final(self).collection_rules@[old(self).collection_rules@.len()
                        + server_paths@.len() + i],
                    client_configs@[i].0@,
                    string_views(client_configs@[i].1@),
                ),
            final(self).sp_backend_url == old(self).sp_backend_url,
            final(self).service_name == old(self).service_name,
            final(self).traffic_direction == old(self).traffic_direction,
            final(self).exemption_rules == old(self).exemption_rules,
            final(self).api_key == old(self).api_key,
    {
        let n0 = self.collection_rules.len();
        let mut i: usize = 0;
        while i < server_paths.len()
            invariant
                i <= server_paths@.len(),
                n0 == old(self).collection_rules@.len(),
                self.collection_rules@.len() == n0 + i,
                forall|j: int|
                    0 <= j < n0 ==> self.collection_rules@[j] == old(self).collection_rules@[j],
                forall|j: int|
                    0 <= j < i ==> is_server_rule(#[trigger] self.collection_rules@[n0 + j], server_paths@[j]@),
                self.sp_backend_url == old(self).sp_backend_url,
                self.service_name == old(self).service_name,
                self.traffic_direction == old(self).traffic_direction,
                self.exemption_rules == old(self).exemption_rules,
                self.api_key == old(self).api_key,
            decreases server_paths@.len() - i,
        {
            let path = server_paths[i].clone();
            self.collection_rules.push(
                CollectionRule {
                    http: HttpCollectionRule { server: ServerConfig { path }, client: Vec::new() },
                },
            );
            i = i + 1;
        }
        let n1 = self.collection_rules.len();
        let mut k: usize = 0;
        while k < client_configs.len()
            invariant
                k <= client_configs@.len(),
                n0 == old(self).collection_rules@.len(),
                n1 == n0 + server_paths@.len(),
                self.collection_rules@.len() == n1 + k,
                forall|j: int|
                    0 <= j < n0 ==> self.collection_rules@[j] == old(self).collection_rules@[j],
                forall|j: int|
                    0 <= j < server_paths@.len() ==> is_server_rule(
                        #[trigger] self.collection_rules@[n0 + j],
                        server_paths@[j]@,
                    ),
                forall|j: int|
                    0 <= j < k ==> is_client_rule(
                        #[trigger] self.collection_rules@[n1 + j],
                        client_configs@[j].0@,
                        string_views(client_configs@[j].1@),
                    ),
                self.sp_backend_url == old(self).sp_backend_url,
                self.service_name == old(self).service_name,
                self.traffic_direction == old(self).traffic_direction,
                self.exemption_rules == old(self).exemption_rules,
                self.api_key == old(self).api_key,
            decreases client_configs@.len() - k,
        {
            let host = client_configs[k].0.clone();
            let paths = clone_strings(&client_configs[k].1);
            let mut client: Vec<ClientConfig> = Vec::new();
            client.push(ClientConfig { host, paths });
            self.collection_rules.push(
                CollectionRule {
                    http: HttpCollectionRule { server: ServerConfig { path: String::new() }, client },
                },
            );
            k = k + 1;
        }
    }
}

/// A copy of a list of strings.
pub fn clone_strings(v: &Vec<String>) -> (r: Vec<String>)
    ensures
        r@ == v@,
{
    let mut r: Vec<String> = Vec::new();
    let mut i: usize = 0;
    while i < v.len()
        invariant
            i <= v@.len(),
            r@ == v@.take(i as int),
        decreases v@.len() - i,
    {
        r.push(v[i].clone());
        i = i + 1;
        proof {
            assert(r@ =~= v@.take(i as int));
        }
    }
    proof {
        assert(v@.take(v@.len() as int) =~= v@);
    }
    r
}

} // verus!
