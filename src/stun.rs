//! STUN Binding requests and responses (RFC 5389) used as a UDP loss and
//! round-trip probe, and the choice of the server to probe.

use crate::latency::{is_tally_summary, record_spec, ProbeTally, TallyView};
use crate::model::{ExperimentalUdpSummary, IceServer, TurnInfo};
use crate::stats::MAX_SAMPLES;
use crate::text::{
    after_first, before_first, chars_of, find_char_from, first_index, has_prefix, is_prefix,
    lemma_first_index_take, parse_u16, parse_u16_spec, string_of_range,
};
use vstd::prelude::*;

verus! {

/// Port of a STUN server whose URL names none.
pub const DEFAULT_STUN_PORT: u16 = 3478;

/// Binding requests sent by one loss probe.
pub const STUN_ATTEMPTS: u64 = 50;

/// Time between two requests, in milliseconds.
pub const STUN_INTERVAL_MS: u64 = 80;

/// Time to wait for each response, in milliseconds.
pub const STUN_TIMEOUT_MS: u64 = 600;

/// Binding request: type 0x0001, length 0, the magic cookie 0x2112A442, then the
/// 12-byte transaction id.
pub open spec fn stun_request_spec(txid: Seq<u8>) -> Seq<u8> {
    seq![0x00u8, 0x01u8, 0x00u8, 0x00u8, 0x21u8, 0x12u8, 0xA4u8, 0x42u8] + txid
}

/// `buf` is a Binding Success Response (type 0x0101) with the magic cookie and
/// the transaction id `txid`.
pub open spec fn is_stun_success_for(buf: Seq<u8>, txid: Seq<u8>) -> bool {
    &&& buf.len() >= 20
    &&& buf[0] == 0x01 && buf[1] == 0x01
    &&& buf[4] == 0x21 && buf[5] == 0x12 && buf[6] == 0xA4 && buf[7] == 0x42
    &&& buf.subrange(8, 20) == txid
}

/// Binding request carrying the transaction id `txid`.
pub fn build_stun_binding_request(txid: [u8; 12]) -> (r: [u8; 20])
    ensures
        r@ == stun_request_spec(txid@),
{
    let r: [u8; 20] = [
        0x00,
        0x01,
        0x00,
        0x00,
        0x21,
        0x12,
        0xA4,
        0x42,
        txid[0],
        txid[1],
        txid[2],
        txid[3],
        txid[4],
        txid[5],
        txid[6],
        txid[7],
        txid[8],
        txid[9],
        txid[10],
        txid[11],
    ];
    assert(r@ =~= stun_request_spec(txid@));
    r
}

/// Whether `buf` answers the request with transaction id `txid`.
pub fn is_stun_binding_response(buf: &[u8], txid: [u8; 12]) -> (r: bool)
    ensures
        r == is_stun_success_for(buf@, txid@),
{
    if buf.len() < 20 {
        return false;
    }
    if buf[0] != 0x01 || buf[1] != 0x01 {
        return false;
    }
    if buf[4] != 0x21 || buf[5] != 0x12 || buf[6] != 0xA4 || buf[7] != 0x42 {
        return false;
    }
    let mut i: usize = 0;
    while i < 12
        invariant
            buf@.len() >= 20,
            i <= 12,
            forall|j: int| 0 <= j < i ==> buf@[8 + j] == txid@[j],
        decreases 12 - i,
    {
        if buf[8 + i] != txid[i] {
            assert(buf@.subrange(8, 20)[i as int] != txid@[i as int]);
            return false;
        }
        i = i + 1;
    }
    assert(buf@.subrange(8, 20) =~= txid@);
    true
}

/// Relies on `rand::random`: twelve bytes from the thread-local generator.
#[verifier::external_body]
fn random_txid() -> (r: [u8; 12]) {
    rand::random::<[u8; 12]>()
}

/// A Binding request with a fresh random transaction id.
pub struct StunTransaction {
    pub txid: [u8; 12],
    pub request: [u8; 20],
}

impl StunTransaction {
    pub fn new() -> (r: StunTransaction)
        ensures
            r.request@ == stun_request_spec(r.txid@),
    {
        let txid = random_txid();
        let request = build_stun_binding_request(txid);
        StunTransaction { txid, request }
    }
}

/// What a probe attempt counts: a round trip of `rtt_us` when the reply answers
/// `txid`, a loss otherwise (no reply, a malformed one, or another transaction's).
pub open spec fn stun_outcome_spec(reply: Option<Seq<u8>>, txid: Seq<u8>, rtt_us: u64) -> Option<u64> {
    match reply {
        Some(b) => if is_stun_success_for(b, txid) {
            Some(rtt_us)
        } else {
            None
        },
        None => None,
    }
}

/// Counts one Binding request: answered by `reply` after `rtt_us`, or lost.
pub fn record_stun_reply(tally: &mut ProbeTally, reply: Option<&[u8]>, txid: [u8; 12], rtt_us: u64)
    requires
        old(tally).wf(),
        old(tally)@.sent < MAX_SAMPLES,
    ensures
        final(tally).wf(),
        final(tally)@ == record_spec(
            old(tally)@,
            stun_outcome_spec(
                match reply {
                    Some(b) => Some(b@),
                    None => None,
                },
                txid@,
                rtt_us,
            ),
        ),
{
    let outcome = match reply {
        Some(b) => if is_stun_binding_response(b, txid) {
            Some(rtt_us)
        } else {
            None
        },
        None => None,
    };
    tally.record(outcome);
}

/// A reply whose transaction id differs from the request's counts as a loss, even
/// when it is otherwise a well-formed success response.
pub proof fn lemma_mismatched_txid_is_loss(t: TallyView, reply: Seq<u8>, txid: Seq<u8>, rtt_us: u64)
    requires
        reply.len() >= 20,
        reply.subrange(8, 20) != txid,
    ensures
        record_spec(t, stun_outcome_spec(Some(reply), txid, rtt_us)).sent == t.sent + 1,
        record_spec(t, stun_outcome_spec(Some(reply), txid, rtt_us)).received == t.received,
        record_spec(t, stun_outcome_spec(Some(reply), txid, rtt_us)).samples == t.samples,
{
}

/// `i` is the first URL that starts with `p`.
pub open spec fn is_first_with_prefix(urls: Seq<String>, p: Seq<char>, i: int) -> bool {
    &&& 0 <= i < urls.len()
    &&& is_prefix(p, urls[i]@)
    &&& forall|j: int| 0 <= j < i ==> !is_prefix(p, #[trigger] urls[j]@)
}

pub open spec fn first_with_prefix(urls: Seq<String>, p: Seq<char>) -> Option<int> {
    if exists|i: int| is_first_with_prefix(urls, p, i) {
        Some(choose|i: int| is_first_with_prefix(urls, p, i))
    } else {
        None
    }
}

/// The server to probe: the first `stun:` URL, else the first `turn:` URL.
pub open spec fn stun_target_spec(urls: Seq<String>) -> Option<Seq<char>> {
    match first_with_prefix(urls, "stun:"@) {
        Some(i) => Some(urls[i]@),
        None => match first_with_prefix(urls, "turn:"@) {
            Some(i) => Some(urls[i]@),
            None => None,
        },
    }
}

fn first_url_with_prefix(urls: &Vec<String>, p: &str) -> (r: Option<usize>)
    ensures
        match r {
            Some(i) => first_with_prefix(urls@, p@) == Some(i as int),
            None => first_with_prefix(urls@, p@) is None,
        },
{
    let pc = chars_of(p);
    let mut i: usize = 0;
    while i < urls.len()
        invariant
            i <= urls@.len(),
            pc@ == p@,
            forall|j: int| 0 <= j < i ==> !is_prefix(p@, #[trigger] urls@[j]@),
        decreases urls@.len() - i,
    {
        let uc = chars_of(urls[i].as_str());
        if has_prefix(&uc, &pc) {
            proof {
                assert(is_first_with_prefix(urls@, p@, i as int));
                assert forall|m: int| is_first_with_prefix(urls@, p@, m) implies m == i by {
                    if m < i {
                        assert(!is_prefix(p@, urls@[m]@));
                    } else if m > i {
                        assert(is_prefix(p@, urls@[i as int]@));
                    }
                }
            }
            return Some(i);
        }
        i = i + 1;
    }
    assert forall|m: int| !is_first_with_prefix(urls@, p@, m) by {
        if 0 <= m < urls@.len() {
            assert(!is_prefix(p@, urls@[m]@));
        }
    }
    None
}

/// The URL of the server to probe, preferring `stun:` over `turn:` URLs.
pub fn pick_stun_target(turn: &TurnInfo) -> (r: Option<String>)
    ensures
        match r {
            Some(s) => stun_target_spec(turn.urls@) == Some(s@),
            None => stun_target_spec(turn.urls@) is None,
        },
{
    match first_url_with_prefix(&turn.urls, "stun:") {
        Some(i) => Some(turn.urls[i].clone()),
        None => match first_url_with_prefix(&turn.urls, "turn:") {
            Some(i) => Some(turn.urls[i].clone()),
            None => None,
        },
    }
}

/// Why a STUN or TURN URL gives no server address.
#[derive(Debug, Clone, Copy, PartialEq, Eq, Structural)]
pub enum StunUrlError {
    /// No `:` after the scheme.
    MissingScheme,
    /// Nothing between the scheme and the port or query.
    EmptyHost,
    /// The port is not a decimal number up to 65535.
    InvalidPort,
}

/// Host and port of `scheme:host[:port][?query]`; the port defaults to 3478.
pub open spec fn host_port_spec(u: Seq<char>) -> Result<(Seq<char>, u16), StunUrlError> {
    match first_index(u, ':') {
        None => Err(StunUrlError::MissingScheme),
        Some(i) => {
            let hostport = before_first(u.skip(i + 1), '?');
            let host = before_first(hostport, ':');
            let port = after_first(hostport, ':');
            if host.len() == 0 {
                Err(StunUrlError::EmptyHost)
            } else if port.len() == 0 {
                Ok((host, DEFAULT_STUN_PORT))
            } else {
                match parse_u16_spec(port) {
                    Some(n) => Ok((host, n)),
                    None => Err(StunUrlError::InvalidPort),
                }
            }
        },
    }
}

/// Host and port of a `stun:` or `turn:` URL.
pub fn parse_host_port(url: &str) -> (r: Result<(String, u16), StunUrlError>)
    ensures
        match r {
            Ok((h, p)) => host_port_spec(url@) == Ok::<(Seq<char>, u16), StunUrlError>((h@, p)),
            Err(e) => host_port_spec(url@) == Err::<(Seq<char>, u16), StunUrlError>(e),
        },
{
    let cs = chars_of(url);
    let n = cs.len();
    let ghost u = url@;
    let i1 = match find_char_from(&cs, ':', 0) {
        Some(i) => i,
        None => {
            assert(u.skip(0) =~= u);
            return Err(StunUrlError::MissingScheme);
        },
    };
    assert(u.skip(0) =~= u);
    let a = i1 + 1;
    let ghost rest = u.skip(a as int);
    let b: usize = match find_char_from(&cs, '?', a) {
        Some(q) => q,
        None => n,
    };
    let ghost hostport = before_first(rest, '?');
    assert(hostport =~= u.subrange(a as int, b as int));
    let colon = find_char_from(&cs, ':', a);
    proof {
        lemma_first_index_take(rest, ':', b - a);
        assert(rest.take(b - a) =~= hostport);
    }
    let (host_end, port_start) = match colon {
        Some(k) => if k < b {
            (k, k + 1)
        } else {
            (b, b)
        },
        None => (b, b),
    };
    assert(before_first(hostport, ':') =~= u.subrange(a as int, host_end as int));
    assert(after_first(hostport, ':') =~= u.subrange(port_start as int, b as int));
    if host_end == a {
        return Err(StunUrlError::EmptyHost);
    }
    let host = string_of_range(url, a, host_end);
    if port_start == b {
        return Ok((host, DEFAULT_STUN_PORT));
    }
    match parse_u16(&cs, port_start, b) {
        Some(p) => Ok((host, p)),
        None => Err(StunUrlError::InvalidPort),
    }
}


/// A STUN loss probe: a fixed number of Binding requests, each answered in time
/// by a matching response or counted as lost.
pub struct StunLossProbe {
    pub target: String,
    pub tally: ProbeTally,
}

impl StunLossProbe {
    pub open spec fn wf(&self) -> bool {
        &&& self.tally.wf()
        &&& self.tally@.sent <= STUN_ATTEMPTS
    }

    pub open spec fn tally_view(&self) -> TallyView {
        self.tally@
    }

    pub fn new(target: String) -> (r: StunLossProbe)
        ensures
            r.wf(),
            r.target == target,
            r.tally_view() == (TallyView { sent: 0, received: 0, samples: Seq::empty() }),
    {
        StunLossProbe { target, tally: ProbeTally::new() }
    }

    /// Whether another request is due.
    pub fn has_next(&self) -> (r: bool)
        requires
            self.wf(),
        ensures
            r == (self.tally_view().sent < STUN_ATTEMPTS),
    {
        self.tally.sent() < STUN_ATTEMPTS
    }

    /// Counts the request with transaction id `txid`: answered by `reply` after
    /// `rtt_us`, or lost.
    pub fn record(&mut self, reply: Option<&[u8]>, txid: [u8; 12], rtt_us: u64)
        requires
            old(self).wf(),
            old(self).tally_view().sent < STUN_ATTEMPTS,
        ensures
            final(self).wf(),
            final(self).target == old(self).target,
            final(self).tally_view() == record_spec(
                old(self).tally_view(),
                stun_outcome_spec(
                    match reply {
                        Some(b) => Some(b@),
                        None => None,
                    },
                    txid@,
                    rtt_us,
                ),
            ),
    {
        record_stun_reply(&mut self.tally, reply, txid, rtt_us);
    }

    /// Summary of the probe.
    pub fn summary(&self) -> (r: ExperimentalUdpSummary)
        requires
            self.wf(),
        ensures
            r.target matches Some(t) && t == self.target,
            is_tally_summary(self.tally_view(), r.latency),
            r.latency.received <= r.latency.sent,
    {
        ExperimentalUdpSummary { target: Some(self.target.clone()), latency: self.tally.summary() }
    }
}


/// URLs of all servers, in order.
pub open spec fn all_urls(servers: Seq<IceServer>) -> Seq<String>
    decreases servers.len(),
{
    if servers.len() == 0 {
        Seq::empty()
    } else {
        all_urls(servers.drop_last()) + servers.last().urls@
    }
}

/// First value that is present, in server order.
pub open spec fn first_present(vals: Seq<Option<String>>) -> Option<String>
    decreases vals.len(),
{
    if vals.len() == 0 {
        None
    } else if vals[0] is Some {
        vals[0]
    } else {
        first_present(vals.drop_first())
    }
}

/// TURN descriptor of a list of ICE servers: all their URLs, and the first
/// username and first credential given.
pub fn turn_info_from_servers(servers: Vec<IceServer>) -> (r: TurnInfo)
    ensures
        r.urls@ == all_urls(servers@),
        r.username == first_present(servers@.map_values(|s: IceServer| s.username)),
        r.credential == first_present(servers@.map_values(|s: IceServer| s.credential)),
{
    let mut urls: Vec<String> = Vec::new();
    let mut username: Option<String> = None;
    let mut credential: Option<String> = None;
    let mut i: usize = 0;
    let ghost us = servers@.map_values(|s: IceServer| s.username);
    let ghost cs = servers@.map_values(|s: IceServer| s.credential);
    assert(us.skip(0) =~= us);
    assert(cs.skip(0) =~= cs);
    assert(servers@.take(0) =~= Seq::<IceServer>::empty());
    while i < servers.len()
        invariant
            i <= servers@.len(),
            us == servers@.map_values(|s: IceServer| s.username),
            cs == servers@.map_values(|s: IceServer| s.credential),
            urls@ == all_urls(servers@.take(i as int)),
            first_present(us) == if username is Some {
                username
            } else {
                first_present(us.skip(i as int))
            },
            first_present(cs) == if credential is Some {
                credential
            } else {
                first_present(cs.skip(i as int))
            },
        decreases servers@.len() - i,
    {
        let s = &servers[i];
        assert(us.skip(i as int).drop_first() =~= us.skip(i + 1));
        assert(cs.skip(i as int).drop_first() =~= cs.skip(i + 1));
        assert(us.skip(i as int)[0] == s.username);
        assert(cs.skip(i as int)[0] == s.credential);
        if username.is_none() {
            username = match &s.username {
                Some(u) => Some(u.clone()),
                None => None,
            };
        }
        if credential.is_none() {
            credential = match &s.credential {
                Some(c) => Some(c.clone()),
                None => None,
            };
        }
        let ghost before = urls@;
        let mut k: usize = 0;
        while k < s.urls.len()
            invariant
                k <= s.urls@.len(),
                urls@ == before + s.urls@.take(k as int),
            decreases s.urls@.len() - k,
        {
            urls.push(s.urls[k].clone());
            k = k + 1;
            assert(urls@ =~= before + s.urls@.take(k as int));
        }
        assert(s.urls@.take(k as int) =~= s.urls@);
        assert(servers@.take(i + 1).drop_last() =~= servers@.take(i as int));
        i = i + 1;
    }
    assert(servers@.take(i as int) =~= servers@);
    assert(us.skip(i as int) =~= Seq::<Option<String>>::empty());
    assert(cs.skip(i as int) =~= Seq::<Option<String>>::empty());
    TurnInfo { urls, username, credential }
}

} // verus!
