//! The peer discovery exchange: the request a node sends to its own RPC
//! endpoint to learn which peers it is connected to, and the reading of the
//! answer. Sending the request is left to the caller; everything that is
//! decided about the request and the answer is decided here.

use vstd::prelude::*;
use vstd::utf8::*;

verus! {

/// Milliseconds a node waits for its RPC endpoint to answer.
pub const PEER_QUERY_DEADLINE_MS: u64 = 2_000;

/// HTTP status code of a successful answer.
pub const HTTP_OK: u16 = 200;

/// A JSON-RPC request.
#[derive(Debug, PartialEq, Eq)]
pub struct RpcCall {
    pub id: u32,
    pub jsonrpc: String,
    pub method: String,
}

/// One connected peer as the RPC endpoint reports it.
#[derive(Debug, PartialEq, Eq)]
pub struct PeerInfo {
    /// Base-58 text of the peer's identity.
    pub peer_id: String,
    pub roles: String,
    pub best_hash: String,
    pub best_number: u32,
}

/// The JSON-RPC answer to a peer query.
#[derive(Debug, PartialEq, Eq)]
pub struct RpcResult {
    pub jsonrpc: String,
    pub result: Vec<PeerInfo>,
    pub id: u32,
}

/// Why a peer query produced no usable answer.
#[derive(Clone, Copy, Debug, PartialEq, Eq, Structural)]
pub enum HttpError {
    /// The deadline passed before the answer arrived.
    DeadlineReached,
    /// The request could not be sent or the connection broke.
    IoError,
    /// The answer arrived but cannot be used.
    Unknown,
}

/// How an attempt to query the RPC endpoint ended.
#[derive(Debug, PartialEq, Eq)]
pub enum Exchange {
    /// The request could not be started.
    NotSent,
    /// No answer arrived before the deadline.
    TimedOut,
    /// The transport reported an error while waiting.
    Failed(HttpError),
    /// An answer arrived, with its status code and raw body.
    Answered { code: u16, body: Vec<u8> },
}

/// The ten decimal digits in order.
pub open spec fn digits() -> Seq<char> {
    seq!['0', '1', '2', '3', '4', '5', '6', '7', '8', '9']
}

/// Decimal notation of `n` without leading zeros; zero has no digits at all.
pub open spec fn decimal(n: nat) -> Seq<char>
    decreases n,
{
    if n == 0 {
        Seq::empty()
    } else {
        decimal(n / 10).push(digits()[(n % 10) as int])
    }
}

/// The text of a single decimal digit.
fn digit_text(d: u16) -> (text: &'static str)
    requires
        d < 10,
    ensures
        text@ == seq![digits()[d as int]],
{
    proof {
        reveal_strlit("0");
        reveal_strlit("1");
        reveal_strlit("2");
        reveal_strlit("3");
        reveal_strlit("4");
        reveal_strlit("5");
        reveal_strlit("6");
        reveal_strlit("7");
        reveal_strlit("8");
        reveal_strlit("9");
    }
    let text = match d {
        0 => "0",
        1 => "1",
        2 => "2",
        3 => "3",
        4 => "4",
        5 => "5",
        6 => "6",
        7 => "7",
        8 => "8",
        _ => "9",
    };
    assert(text@ =~= seq![digits()[d as int]]);
    text
}

/// Writes a port number in decimal, most significant digit first and without
/// leading zeros. Port 0 yields the empty string.
pub fn get_port(port: u16) -> (text: String)
    ensures
        text@ == decimal(port as nat),
{
    let mut rest: u16 = port;
    let mut started = false;
    let mut text = String::new();
    let mut unit: u16 = 10000;
    let ghost mut done: nat = 0;
    while unit > 0
        invariant
            unit == 10000 || unit == 1000 || unit == 100 || unit == 10 || unit == 1 || unit == 0,
            unit > 0 ==> port as nat == done * (10 * unit as nat) + rest as nat,
            unit > 0 ==> rest < 10 * unit,
            unit == 0 ==> done == port as nat,
            started == (done > 0),
            text@ == decimal(done),
        decreases unit,
    {
        let digit: u16 = rest / unit;
        let ghost before: nat = rest as nat;
        rest = rest - digit * unit;
        if digit == 0 && started {
            text.append(digit_text(digit));
        }
        if digit > 0 {
            started = true;
            text.append(digit_text(digit));
        }
        proof {
            let next: nat = done * 10 + digit as nat;
            assert(decimal(next) == if next == 0 {
                Seq::<char>::empty()
            } else {
                decimal(done).push(digits()[digit as int])
            });
            assert(decimal(done).push(digits()[digit as int]) =~= decimal(done) + seq![
                digits()[digit as int],
            ]);
            assert(port as nat == next * (unit as nat) + rest as nat) by (nonlinear_arith)
                requires
                    port as nat == done * (10 * unit as nat) + before,
                    rest as nat == before - digit as nat * unit as nat,
                    next == done * 10 + digit as nat,
            ;
            done = next;
        }
        unit = unit / 10;
    }
    text
}

/// Address of the RPC endpoint a node serves on its own machine at `port`.
pub open spec fn local_url(port: u16) -> Seq<char> {
    "http://127.0.0.1:"@ + decimal(port as nat)
}

/// Builds the address the peer query is sent to.
pub fn peers_url(rpc_http_port: u16) -> (url: String)
    ensures
        url@ == local_url(rpc_http_port),
{
    let port = get_port(rpc_http_port);
    String::from_str("http://127.0.0.1:").concat(port.as_str())
}

/// The request that asks the RPC endpoint for its connected peers.
pub fn peers_request() -> (call: RpcCall)
    ensures
        call.id == 1,
        call.jsonrpc@ == "2.0"@,
        call.method@ == "system_peers"@,
{
    RpcCall {
        id: 1,
        jsonrpc: String::from_str("2.0"),
        method: String::from_str("system_peers"),
    }
}

/// `core::str::from_utf8`, which accepts a byte string exactly when it is
/// well-formed UTF-8 and then hands back the same bytes as a string slice.
#[verifier::external_body]
fn utf8_text(bytes: &[u8]) -> (text: Option<&str>)
    ensures
        text.is_some() == valid_utf8(bytes@),
        text matches Some(t) ==> encode_utf8(t@) == bytes@,
{
    core::str::from_utf8(bytes).ok()
}

/// What an exchange yields: the text of the answer, or the reason there is none.
///
/// Only an answer with status 200 and a UTF-8 body counts. A request that
/// could not be sent is an I/O error, a missed deadline is reported as such,
/// and a transport error is passed on unchanged.
pub open spec fn reply_of(exchange: Exchange) -> Result<Seq<char>, HttpError> {
    match exchange {
        Exchange::NotSent => Err(HttpError::IoError),
        Exchange::TimedOut => Err(HttpError::DeadlineReached),
        Exchange::Failed(e) => Err(e),
        Exchange::Answered { code, body } => if code != HTTP_OK || !valid_utf8(body@) {
            Err(HttpError::Unknown)
        } else {
            Ok(decode_utf8(body@))
        },
    }
}

/// Reads the outcome of a peer query: the answer's text if it can be used,
/// the error otherwise.
pub fn reply_text(exchange: &Exchange) -> (reply: Result<&str, HttpError>)
    ensures
        match reply {
            Ok(text) => reply_of(*exchange) == Ok::<Seq<char>, HttpError>(text@),
            Err(e) => reply_of(*exchange) == Err::<Seq<char>, HttpError>(e),
        },
{
    match exchange {
        Exchange::NotSent => Err(HttpError::IoError),
        Exchange::TimedOut => Err(HttpError::DeadlineReached),
        Exchange::Failed(e) => Err(*e),
        Exchange::Answered { code, body } => {
            if *code != HTTP_OK {
                return Err(HttpError::Unknown);
            }
            match utf8_text(body.as_slice()) {
                Some(text) => {
                    proof {
                        encode_utf8_decode_utf8(text@);
                    }
                    Ok(text)
                },
                None => Err(HttpError::Unknown),
            }
        },
    }
}

/// What a parsed answer yields: the peers it lists. An answer that could not
/// be parsed is malformed, and a malformed answer is a failed query, not a
/// query that found nobody.
pub open spec fn peers_of(parsed: Option<RpcResult>) -> Result<Vec<PeerInfo>, HttpError> {
    match parsed {
        Some(answer) => Ok(answer.result),
        None => Err(HttpError::Unknown),
    }
}

/// The peers an answer lists, or the error that the answer could not be parsed.
pub fn reply_peers(parsed: Option<RpcResult>) -> (peers: Result<Vec<PeerInfo>, HttpError>)
    ensures
        match parsed {
            Some(answer) => peers == Ok::<Vec<PeerInfo>, HttpError>(answer.result),
            None => peers == Err::<Vec<PeerInfo>, HttpError>(HttpError::Unknown),
        },
        peers == peers_of(parsed),
{
    match parsed {
        Some(answer) => Ok(answer.result),
        None => Err(HttpError::Unknown),
    }
}

/// Reads the connected peers from the outcome of a peer query.
///
/// `parse` reads the answer's text as JSON; it yields nothing if the text is
/// not an answer of the expected shape. The query has failed, and no peers
/// are reported, if the exchange failed, if the answer's status is not 200,
/// if its body is not UTF-8, or if its text does not parse. The text is
/// parsed only if everything before it went well.
pub fn get_peers<P>(exchange: &Exchange, parse: P) -> (peers: Result<Vec<PeerInfo>, HttpError>) where
    P: Fn(&str) -> Option<RpcResult>,

    requires
        forall|text: &str| call_requires(parse, (text,)),
    ensures
        match reply_of(*exchange) {
            Err(e) => peers == Err::<Vec<PeerInfo>, HttpError>(e),
            Ok(answer) => exists|text: &str, parsed: Option<RpcResult>|
                {
                    &&& text@ == answer
                    &&& call_ensures(parse, (text,), parsed)
                    &&& peers == peers_of(parsed)
                },
        },
{
    match reply_text(exchange) {
        Ok(text) => {
            let parsed = parse(text);
            reply_peers(parsed)
        },
        Err(e) => Err(e),
    }
}

} // verus!
