//! Resolving the key under which a request is counted.
use vstd::prelude::*;

verus! {

/// Key shared by every caller whose identity cannot be resolved.
pub open spec fn unknown_key() -> Seq<char> {
    "unknown"@
}

/// Header setting that selects the peer address as identity.
pub open spec fn by_peer_address() -> Seq<char> {
    "ip"@
}

pub open spec fn value_or_unknown(v: Option<String>) -> Seq<char> {
    match v {
        Some(s) => s@,
        None => unknown_key(),
    }
}

/// The client key: the peer address when the configured header is `ip`,
/// the configured header's value otherwise, and `unknown` when that is
/// missing.
pub open spec fn client_key(
    client_id_header: Seq<char>,
    peer_addr: Option<String>,
    header_value: Option<String>,
) -> Seq<char> {
    if client_id_header == by_peer_address() {
        value_or_unknown(peer_addr)
    } else {
        value_or_unknown(header_value)
    }
}

/// Resolves the key of a request from its peer address and the value of
/// the configured header (`None` where absent or not valid text).
pub fn resolve_client_key(
    client_id_header: &String,
    peer_addr: Option<String>,
    header_value: Option<String>,
) -> (r: String)
    ensures
        r@ == client_key(client_id_header@, peer_addr, header_value),
{
    let ip = "ip".to_owned();
    let chosen = if *client_id_header == ip {
        peer_addr
    } else {
        header_value
    };
    match chosen {
        Some(s) => s,
        None => "unknown".to_owned(),
    }
}

} // verus!
