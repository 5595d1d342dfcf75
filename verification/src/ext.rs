//! The library's window on the outside crates it leans on: each function
//! here wraps exactly one outside capability, and everything the rest of
//! the crate knows about those capabilities is what these contracts state.
use vstd::prelude::*;

verus! {

/// What decoding a string as standard base64 (with padding) yields is a
/// function of the characters alone; this names whether it succeeds.
pub uninterp spec fn base64_decodable(s: Seq<char>) -> bool;

/// Whether a string parses as a full semantic version is a function of the
/// characters alone; this names the answer.
pub uninterp spec fn semver_valid(s: Seq<char>) -> bool;

/// The secret value a vault read-response body carries, if any: the
/// `value` entry of its `data` map, integers coerced to decimal strings.
pub uninterp spec fn secret_value_of(body: Seq<char>) -> Option<Seq<char>>;

/// The key list a vault list-response body carries, if any: the `keys`
/// entry of its `data` map.
pub uninterp spec fn secret_keys_of(body: Seq<char>) -> Option<Seq<Seq<char>>>;

/// There is an edge from `a` to `b` in an edge list.
pub open spec fn has_edge(edges: Seq<(u32, u32)>, a: u32, b: u32) -> bool {
    exists|i: int| 0 <= i < edges.len() && edges[i] == (a, b)
}

/// A walk of exactly `n` steps from `a` to `b` along the edges.
pub open spec fn reaches_in(edges: Seq<(u32, u32)>, a: u32, b: u32, n: nat) -> bool
    decreases n,
{
    if n == 0 {
        a == b
    } else {
        exists|m: u32| #[trigger] has_edge(edges, a, m) && reaches_in(edges, m, b, (n - 1) as nat)
    }
}

/// A directed graph given as an edge list holds a directed cycle: some
/// node walks back to itself in at least one step.
pub open spec fn digraph_cyclic(edges: Seq<(u32, u32)>) -> bool {
    exists|v: u32, n: nat| n >= 1 && #[trigger] reaches_in(edges, v, v, n)
}

/// The view of an optional string.
pub(crate) open spec fn opt_str_view(r: Option<String>) -> Option<Seq<char>> {
    match r {
        Some(s) => Some(s@),
        None => None,
    }
}

/// The views of an optional vector of strings.
pub(crate) open spec fn opt_strs_view(r: Option<Vec<String>>) -> Option<Seq<Seq<char>>> {
    match r {
        Some(v) => Some(crate::strutil::strs_view(v@)),
        None => None,
    }
}

/// Relies on base64's standard engine: decides whether the string decodes
/// under the standard alphabet with padding.
#[verifier::external_body]
pub(crate) fn base64_check(s: &String) -> (r: bool)
    ensures
        r == base64_decodable(s@),
{
    base64::Engine::decode(&base64::engine::general_purpose::STANDARD, s.as_bytes()).is_ok()
}

/// Relies on semver::Version::parse: decides whether the string is a full
/// semantic version.
#[verifier::external_body]
pub(crate) fn semver_check(s: &String) -> (r: bool)
    ensures
        r == semver_valid(s@),
{
    semver::Version::parse(s.as_str()).is_ok()
}

/// Relies on serde_json::from_str: reads a vault read-response body and
/// picks the `value` entry out of its `data` map, coercing an integer
/// value to its decimal string form.
#[verifier::external_body]
pub(crate) fn json_secret_value(body: &String) -> (r: Option<String>)
    ensures
        opt_str_view(r) == secret_value_of(body@),
{
    let v: serde_json::Value = match serde_json::from_str(body.as_str()) {
        Ok(v) => v,
        Err(_) => return None,
    };
    match v.get("data").and_then(|d| d.get("value")) {
        Some(serde_json::Value::String(s)) => Some(s.clone()),
        Some(serde_json::Value::Number(n)) => n.as_i64().map(|i| i.to_string()),
        _ => None,
    }
}

/// Relies on serde_json::from_str: reads a vault list-response body and
/// hands out the strings under `data.keys`.
#[verifier::external_body]
pub(crate) fn json_secret_keys(body: &String) -> (r: Option<Vec<String>>)
    ensures
        opt_strs_view(r) == secret_keys_of(body@),
{
    let v: serde_json::Value = serde_json::from_str(body.as_str()).ok()?;
    let arr = v.get("data")?.get("keys")?.as_array()?;
    let mut out: Vec<String> = Vec::new();
    for e in arr {
        out.push(e.as_str()?.to_string());
    }
    Some(out)
}

/// Relies on petgraph: `Graph::from_edges` builds a directed graph over
/// the mentioned node indices and `algo::is_cyclic_directed`, a
/// depth-first search, decides whether it holds a directed cycle — a
/// back edge exists exactly when some node reaches itself, which is
/// `digraph_cyclic`. `from_edges` creates one node per index up to the
/// largest endpoint and panics when the node count reaches the index
/// limit, and `add_edge` panics when the edge count reaches it, so
/// every endpoint and the edge count must stay below that limit.
#[verifier::external_body]
pub(crate) fn edges_cyclic(edges: &Vec<(u32, u32)>) -> (r: bool)
    requires
        edges@.len() <= 0xFFFF_FFFF,
        forall|i: int|
            0 <= i < edges@.len() ==> (#[trigger] edges@[i]).0 < 0xFFFF_FFFFu32 && edges@[i].1
                < 0xFFFF_FFFFu32,
    ensures
        r == digraph_cyclic(edges@),
{
    let g: petgraph::graph::DiGraph<(), (), u32> =
        petgraph::graph::DiGraph::from_edges(edges.iter().copied());
    petgraph::algo::is_cyclic_directed(&g)
}

/// Status and body of an HTTP response.
#[derive(Clone, Debug)]
pub struct HttpReply {
    pub status: u16,
    pub body: String,
}

/// Relies on reqwest's blocking client: a GET of the URL with the vault
/// token header. What comes back depends on the network, so nothing is
/// promised of it.
#[verifier::external_body]
pub(crate) fn http_get(url: &String, token: &String) -> (r: Result<HttpReply, String>)
{
    let client = reqwest::blocking::Client::builder().build().map_err(|e| e.to_string())?;
    match client.get(url.as_str()).header("X-Vault-Token", token.as_str()).send() {
        Ok(resp) => {
            let status = resp.status().as_u16();
            match resp.text() {
                Ok(body) => Ok(HttpReply { status, body }),
                Err(e) => Err(e.to_string()),
            }
        },
        Err(e) => Err(e.to_string()),
    }
}

/// Relies on chrono::Utc::now for the current wall-clock time in
/// milliseconds since the epoch; the value depends on the moment of the
/// call, so nothing is promised of it.
#[verifier::external_body]
pub(crate) fn now_millis() -> u64 {
    chrono::Utc::now().timestamp_millis() as u64
}

} // verus!
