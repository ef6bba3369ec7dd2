use vstd::prelude::*;
use vstd::string::{StrSliceExecFns, StringExecFns};
use crate::error::{error_text, SynkError};
use crate::model::{find_char, first_index};
use crate::snapshot::{json_text, parsed_snapshot};
use crate::storage::Storage;

verus! {

/// Largest number of bytes read from a connection; the rest of a longer
/// request is not seen.
pub const READ_BUFFER_SIZE: usize = 1024;

/// The text that `String::from_utf8_lossy` makes of some bytes.
pub uninterp spec fn lossy_text(b: Seq<u8>) -> Seq<char>;

/// The text that `str::trim` leaves of a text.
pub uninterp spec fn trimmed_text(s: Seq<char>) -> Seq<char>;

/// Relies on `String::from_utf8_lossy`: the text depends on the bytes alone.
#[verifier::external_body]
fn utf8_lossy(b: &[u8]) -> (r: String)
    ensures
        r@ == lossy_text(b@),
{
    String::from_utf8_lossy(b).into_owned()
}

/// Relies on `str::trim`: the text depends on its argument alone.
#[verifier::external_body]
pub(crate) fn trim_text(s: &str) -> (r: String)
    ensures
        r@ == trimmed_text(s@),
{
    s.trim().to_string()
}

/// The pieces of `s` when split on spaces into at most three pieces, the last
/// piece keeping any further spaces.
pub open spec fn split3(s: Seq<char>) -> Seq<Seq<char>> {
    let i = first_index(s, ' ');
    if i == s.len() {
        seq![s]
    } else {
        let rest = s.subrange(i + 1, s.len() as int);
        let j = first_index(rest, ' ');
        if j == rest.len() {
            seq![s.subrange(0, i), rest]
        } else {
            seq![s.subrange(0, i), rest.subrange(0, j), rest.subrange(j + 1, rest.len() as int)]
        }
    }
}

/// A request line, as a mathematical value.
pub enum RequestSpec {
    Put(Seq<char>, Seq<char>),
    Get(Seq<char>),
    Invalid,
}

/// What a request line asks for: `PUT <key> <value>`, `GET <key>`, or nothing valid.
pub open spec fn request_of(s: Seq<char>) -> RequestSpec {
    let p = split3(s);
    if p.len() == 3 && p[0] == "PUT"@ {
        RequestSpec::Put(p[1], p[2])
    } else if p.len() == 2 && p[0] == "GET"@ {
        RequestSpec::Get(p[1])
    } else {
        RequestSpec::Invalid
    }
}

/// A parsed request.
#[derive(Debug)]
pub enum Command {
    Put { key: String, value: String },
    Get { key: String },
    Invalid,
}

impl View for Command {
    type V = RequestSpec;

    open spec fn view(&self) -> RequestSpec {
        match self {
            Command::Put { key, value } => RequestSpec::Put(key@, value@),
            Command::Get { key } => RequestSpec::Get(key@),
            Command::Invalid => RequestSpec::Invalid,
        }
    }
}

/// What the handler does next with a connection.
#[derive(Debug)]
pub enum Step {
    /// Write this reply and close.
    Reply(String),
    /// Write this snapshot text to the snapshot file, then reply with
    /// `save_reply` of the outcome.
    Save(String),
}

/// The reply to `GET <key>` on a store.
pub open spec fn get_reply(m: Map<Seq<char>, Seq<char>>, k: Seq<char>) -> Seq<char> {
    if m.contains_key(k) {
        "VALUE "@ + m[k] + "\n"@
    } else {
        "NOTFOUND\n"@
    }
}

/// The reply to a `PUT` once its snapshot write has finished.
pub open spec fn save_reply_text(saved: Result<(), SynkError>) -> Seq<char> {
    match saved {
        Ok(_) => "OK\n"@,
        Err(e) => "ERR "@ + error_text(e) + "\n"@,
    }
}

/// Parses one request line (already trimmed).
pub fn parse_command(msg: &str) -> (c: Command)
    ensures
        c@ == request_of(msg@),
{
    let n = msg.unicode_len();
    let i = find_char(msg, ' ', 0, n);
    assert(msg@.subrange(0, n as int) =~= msg@);
    if i == n {
        return Command::Invalid;
    }
    let j = find_char(msg, ' ', i + 1, n);
    let head = msg.substring_char(0, i).to_owned();
    let rest: Ghost<Seq<char>> = Ghost(msg@.subrange(i + 1, n as int));
    if j == n {
        if head == String::from_str("GET") {
            Command::Get { key: msg.substring_char(i + 1, n).to_owned() }
        } else {
            Command::Invalid
        }
    } else {
        assert(rest@.subrange(0, j - i - 1) =~= msg@.subrange(i + 1, j as int));
        assert(rest@.subrange(j - i, rest@.len() as int) =~= msg@.subrange(j + 1, n as int));
        if head == String::from_str("PUT") {
            Command::Put {
                key: msg.substring_char(i + 1, j).to_owned(),
                value: msg.substring_char(j + 1, n).to_owned(),
            }
        } else {
            Command::Invalid
        }
    }
}

/// Reads a request from the bytes of one read: decoded leniently as UTF-8,
/// trimmed, then parsed.
pub fn decode_request(bytes: &[u8]) -> (c: Command)
    ensures
        c@ == request_of(trimmed_text(lossy_text(bytes@))),
{
    let text = utf8_lossy(bytes);
    let msg = trim_text(text.as_str());
    parse_command(msg.as_str())
}

/// The reply to `GET <key>`: the value where the key is held, else `NOTFOUND`.
pub fn handle_get(storage: &Storage, key: &str) -> (r: String)
    ensures
        r@ == get_reply(storage@, key@),
{
    match storage.get(key) {
        Some(v) => String::from_str("VALUE ").concat(v.as_str()).concat("\n"),
        None => String::from_str("NOTFOUND\n"),
    }
}

/// Carries out a request on the store. A `PUT` changes the store at once and
/// asks for its snapshot to be written.
pub fn handle_command(storage: &mut Storage, cmd: Command) -> (step: Step)
    ensures
        final(storage).spec_file_path() == old(storage).spec_file_path(),
        match cmd@ {
            RequestSpec::Put(k, v) => {
                &&& final(storage)@ == old(storage)@.insert(k, v)
                &&& step is Save
                &&& step matches Step::Save(t) ==> t@ == json_text(final(storage)@) && t@.len() > 0
                    && parsed_snapshot(t@) == Some(final(storage)@)
            },
            RequestSpec::Get(k) => {
                &&& final(storage)@ == old(storage)@
                &&& step matches Step::Reply(t) && t@ == get_reply(old(storage)@, k)
            },
            RequestSpec::Invalid => {
                &&& final(storage)@ == old(storage)@
                &&& step matches Step::Reply(t) && t@ == "ERR invalid\n"@
            },
        },
{
    match cmd {
        Command::Put { key, value } => match storage.set(key, value) {
            Ok(t) => Step::Save(t),
            Err(e) => Step::Reply(save_reply(&Err(e))),
        },
        Command::Get { key } => Step::Reply(handle_get(storage, key.as_str())),
        Command::Invalid => Step::Reply(String::from_str("ERR invalid\n")),
    }
}

/// The reply to a `PUT` once its snapshot write has finished.
pub fn save_reply(saved: &Result<(), SynkError>) -> (r: String)
    ensures
        r@ == save_reply_text(*saved),
{
    match saved {
        Ok(_) => String::from_str("OK\n"),
        Err(e) => String::from_str("ERR ").concat(e.message().as_str()).concat("\n"),
    }
}

} // verus!
