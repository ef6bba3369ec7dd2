use vstd::prelude::*;
use vstd::string::{StrSliceExecFns, StringExecFns};
use crate::protocol::{trim_text, trimmed_text};

verus! {

/// TCP port used where none is configured.
pub const DEFAULT_TCP_PORT: u16 = 7000;

/// HTTP port used where none is configured.
pub const DEFAULT_HTTP_PORT: u16 = 8080;

/// A decimal digit.
pub open spec fn is_digit(c: char) -> bool {
    '0' <= c <= '9'
}

/// The number that a string of decimal digits denotes.
pub open spec fn decimal_value(s: Seq<char>) -> int
    decreases s.len(),
{
    if s.len() == 0 {
        0
    } else {
        decimal_value(s.drop_last()) * 10 + (s.last() as int - '0' as int)
    }
}

/// A port number as written: an optional `+`, then at least one decimal
/// digit, denoting at most 65535.
pub open spec fn port_of(s: Seq<char>) -> Option<u16> {
    let d = if s.len() > 0 && s[0] == '+' {
        s.drop_first()
    } else {
        s
    };
    if d.len() > 0 && (forall|i: int| 0 <= i < d.len() ==> is_digit(#[trigger] d[i]))
        && decimal_value(d) <= 65535 {
        Some(decimal_value(d) as u16)
    } else {
        None
    }
}

/// The pieces of `s` between the occurrences of `c`; there is always one more
/// piece than there are occurrences.
pub open spec fn split_on(s: Seq<char>, c: char) -> Seq<Seq<char>>
    decreases s.len(),
{
    if s.len() == 0 {
        seq![Seq::empty()]
    } else {
        let p = split_on(s.drop_last(), c);
        if s.last() == c {
            p.push(Seq::empty())
        } else {
            p.update(p.len() - 1, p.last().push(s.last()))
        }
    }
}

/// The peers named by a comma-separated list: each piece trimmed, empty ones dropped.
pub open spec fn peer_list(s: Seq<char>) -> Seq<Seq<char>> {
    split_on(s, ',').map_values(|p: Seq<char>| trimmed_text(p)).filter(|p: Seq<char>| p.len() > 0)
}

/// Relies on `str::parse::<u16>`, which takes an optional `+` and decimal digits.
#[verifier::external_body]
fn parse_u16(s: &str) -> (r: Option<u16>)
    ensures
        r == port_of(s@),
{
    s.parse::<u16>().ok()
}

/// Relies on `uuid::Uuid::new_v4`, rendered in its hyphenated form of 36 characters.
#[verifier::external_body]
fn fresh_node_id() -> (r: String)
    ensures
        r@.len() == 36,
{
    uuid::Uuid::new_v4().to_string()
}

/// The list of peers in a comma-separated text.
pub fn parse_peers(s: &str) -> (r: Vec<String>)
    ensures
        r@.map_values(|p: String| p@) == peer_list(s@),
{
    let n = s.unicode_len();
    let mut peers: Vec<String> = Vec::new();
    let mut start: usize = 0;
    let mut i: usize = 0;
    let ghost mut done: Seq<Seq<char>> = Seq::empty();
    assert(s@.subrange(0, 0) =~= Seq::<char>::empty());
    while i < n
        invariant
            n == s@.len(),
            start <= i <= n,
            split_on(s@.subrange(0, i as int), ',') == done.push(s@.subrange(start as int, i as int)),
            peers@.map_values(|p: String| p@) == done.map_values(|p: Seq<char>| trimmed_text(p)).filter(
                |p: Seq<char>| p.len() > 0,
            ),
        decreases n - i,
    {
        let ghost prefix = s@.subrange(0, i + 1);
        assert(prefix.drop_last() =~= s@.subrange(0, i as int));
        if s.get_char(i) == ',' {
            let piece = trim_text(s.substring_char(start, i));
            proof {
                let f = |p: Seq<char>| trimmed_text(p);
                let keep = |p: Seq<char>| p.len() > 0;
                let old_done = done;
                done = done.push(s@.subrange(start as int, i as int));
                assert(done.map_values(f) =~= old_done.map_values(f).push(piece@));
                old_done.map_values(f).lemma_filter_push(piece@, keep);
            }
            if !piece.as_str().is_empty() {
                peers.push(piece);
                assert(peers@.map_values(|p: String| p@) =~= done.map_values(
                    |p: Seq<char>| trimmed_text(p),
                ).filter(|p: Seq<char>| p.len() > 0));
            }
            start = i + 1;
            assert(s@.subrange(start as int, i + 1) =~= Seq::<char>::empty());
        } else {
            assert(s@.subrange(start as int, i + 1) =~= s@.subrange(start as int, i as int).push(
                s@[i as int],
            ));
        }
        i = i + 1;
    }
    assert(s@.subrange(0, n as int) =~= s@);
    let last = trim_text(s.substring_char(start, n));
    proof {
        let f = |p: Seq<char>| trimmed_text(p);
        let keep = |p: Seq<char>| p.len() > 0;
        let all = done.push(s@.subrange(start as int, n as int));
        assert(all.map_values(f) =~= done.map_values(f).push(last@));
        done.map_values(f).lemma_filter_push(last@, keep);
    }
    if !last.as_str().is_empty() {
        peers.push(last);
        assert(peers@.map_values(|p: String| p@) =~= peer_list(s@));
    }
    peers
}

/// The settings of one node.
pub struct Config {
    pub node_id: String,
    pub host: String,
    pub tcp_port: u16,
    pub http_port: u16,
    pub data_dir: String,
    /// Accepted and kept, but used for nothing: the node does not replicate.
    pub peers: Vec<String>,
}

/// The settings other than the node id, as the configured texts give them:
/// host `127.0.0.1`, ports 7000 and 8080 and data directory `./data` by
/// default; a port that does not parse falls back to its default.
pub open spec fn settings_from(
    r: Config,
    host: Option<String>,
    tcp_port: Option<String>,
    http_port: Option<String>,
    data_dir: Option<String>,
    peers: Option<String>,
) -> bool {
    &&& r.host@ == (match host {
        Some(h) => h@,
        None => "127.0.0.1"@,
    })
    &&& r.tcp_port == (match tcp_port {
        Some(t) => match port_of(t@) {
            Some(p) => p,
            None => DEFAULT_TCP_PORT,
        },
        None => DEFAULT_TCP_PORT,
    })
    &&& r.http_port == (match http_port {
        Some(t) => match port_of(t@) {
            Some(p) => p,
            None => DEFAULT_HTTP_PORT,
        },
        None => DEFAULT_HTTP_PORT,
    })
    &&& r.data_dir@ == (match data_dir {
        Some(d) => d@,
        None => "./data"@,
    })
    &&& r.peers@.map_values(|p: String| p@) == (match peers {
        Some(s) => peer_list(s@),
        None => Seq::empty(),
    })
}

impl Config {
    /// Settings from the configured texts, each `None` where it is not set;
    /// without a configured node id, a fresh random UUID (v4, hyphenated).
    pub fn from_values(
        node_id: Option<String>,
        host: Option<String>,
        tcp_port: Option<String>,
        http_port: Option<String>,
        data_dir: Option<String>,
        peers: Option<String>,
    ) -> (r: Config)
        ensures
            node_id matches Some(id) ==> r.node_id == id,
            node_id is None ==> r.node_id@.len() == 36,
            settings_from(r, host, tcp_port, http_port, data_dir, peers),
    {
        let node_id = match node_id {
            Some(id) => id,
            None => fresh_node_id(),
        };
        Config::with_node_id(node_id, host, tcp_port, http_port, data_dir, peers)
    }

    /// Settings with the given node id, the rest from the configured texts.
    pub fn with_node_id(
        node_id: String,
        host: Option<String>,
        tcp_port: Option<String>,
        http_port: Option<String>,
        data_dir: Option<String>,
        peers: Option<String>,
    ) -> (r: Config)
        ensures
            r.node_id == node_id,
            settings_from(r, host, tcp_port, http_port, data_dir, peers),
    {
        let host = match host {
            Some(h) => h,
            None => String::from_str("127.0.0.1"),
        };
        let tcp_port = match tcp_port {
            Some(t) => match parse_u16(t.as_str()) {
                Some(p) => p,
                None => DEFAULT_TCP_PORT,
            },
            None => DEFAULT_TCP_PORT,
        };
        let http_port = match http_port {
            Some(t) => match parse_u16(t.as_str()) {
                Some(p) => p,
                None => DEFAULT_HTTP_PORT,
            },
            None => DEFAULT_HTTP_PORT,
        };
        let data_dir = match data_dir {
            Some(d) => d,
            None => String::from_str("./data"),
        };
        let peers = match peers {
            Some(s) => parse_peers(s.as_str()),
            None => {
                let v: Vec<String> = Vec::new();
                assert(v@.map_values(|p: String| p@) =~= Seq::<Seq<char>>::empty());
                v
            },
        };
        Config { node_id, host, tcp_port, http_port, data_dir, peers }
    }
}

} // verus!
