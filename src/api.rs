use vstd::prelude::*;
use crate::error::SynkError;
use crate::node::SynkNode;

verus! {

/// What `GET /status` reports of a node.
pub struct Status {
    pub node_id: String,
    pub tcp_port: u16,
    pub http_port: u16,
    pub keys: Vec<String>,
}

/// The status of a node: its id, its two ports and every key it holds, once each.
pub fn status_of(node: &SynkNode) -> (r: Status)
    ensures
        r.node_id == node.config.node_id,
        r.tcp_port == node.config.tcp_port,
        r.http_port == node.config.http_port,
        r.keys@.map_values(|k: String| k@).no_duplicates(),
        r.keys@.map_values(|k: String| k@).to_set() == node.storage@.dom(),
{
    Status {
        node_id: node.config.node_id.clone(),
        tcp_port: node.config.tcp_port,
        http_port: node.config.http_port,
        keys: node.storage.keys(),
    }
}

/// HTTP status of `GET /data/{key}`: 200 where the key is held, else 404.
pub fn data_status(value: &Option<String>) -> (r: u16)
    ensures
        r == (if value is Some {
            200u16
        } else {
            404u16
        }),
{
    match value {
        Some(_) => 200,
        None => 404,
    }
}

/// HTTP status of `POST /store`: 201 once stored and saved, else 500.
pub fn store_status(saved: &Result<(), SynkError>) -> (r: u16)
    ensures
        r == (if saved is Ok {
            201u16
        } else {
            500u16
        }),
{
    match saved {
        Ok(_) => 201,
        Err(_) => 500,
    }
}

} // verus!
