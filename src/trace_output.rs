//! Reading the output of the system `traceroute` / `tracert` command into hops.

use crate::model::TracerouteHop;
use crate::text::{
    chars_of, decimal_ms_to_us, decimal_ms_to_us_spec, find_char_from, first_index, has_prefix,
    is_digit, is_prefix, parse_u8, parse_u8_spec, split_whitespace, string_of_range, strings_view,
    ws_tokens,
};
use crate::traceroute::{hop_view, HopView};
use vstd::prelude::*;

verus! {

pub open spec fn is_ms_token(t: Seq<char>) -> bool {
    t.len() == 2 && t[0] == 'm' && t[1] == 's'
}

pub open spec fn is_star_token(t: Seq<char>) -> bool {
    t.len() == 1 && t[0] == '*'
}

/// `t` without every trailing `ms`.
pub open spec fn trim_ms_suffix(t: Seq<char>) -> Seq<char>
    decreases t.len(),
{
    if t.len() >= 2 && t[t.len() - 2] == 'm' && t[t.len() - 1] == 's' {
        trim_ms_suffix(t.subrange(0, t.len() - 2))
    } else {
        t
    }
}

/// `t` without every leading `<`.
pub open spec fn trim_lt_prefix(t: Seq<char>) -> Seq<char>
    decreases t.len(),
{
    if t.len() >= 1 && t[0] == '<' {
        trim_lt_prefix(t.drop_first())
    } else {
        t
    }
}

pub open spec fn contains_char(t: Seq<char>, c: char) -> bool {
    exists|i: int| 0 <= i < t.len() && t[i] == c
}

pub open spec fn contains_ms(t: Seq<char>) -> bool {
    exists|i: int| 0 <= i < t.len() - 1 && #[trigger] t[i] == 'm' && t[i + 1] == 's'
}

pub open spec fn is_address_char(c: char) -> bool {
    is_digit(c) || ('a' <= c && c <= 'f') || ('A' <= c && c <= 'F') || c == ':' || c == '.'
}

/// A token that names a hop: a dotted name or address without `ms` in it, or a
/// colon-separated IPv6 address.
pub open spec fn looks_like_address(t: Seq<char>) -> bool {
    (contains_char(t, '.') && !contains_ms(t)) || (contains_char(t, ':') && forall|i: int|
        0 <= i < t.len() ==> is_address_char(#[trigger] t[i]))
}

/// What a token after the hop number stands for.
pub enum TokenKind {
    Skip,
    Rtt(u64),
    Address,
}

/// A round-trip time such as `0.123`, `12ms` or (Windows) `<1`; else an address;
/// else nothing.
pub open spec fn token_kind(t: Seq<char>) -> TokenKind {
    if is_ms_token(t) {
        TokenKind::Skip
    } else {
        match decimal_ms_to_us_spec(trim_ms_suffix(t)) {
            Some(us) => TokenKind::Rtt(us),
            None => {
                let lt = if t.len() > 0 && t[0] == '<' {
                    decimal_ms_to_us_spec(trim_ms_suffix(trim_lt_prefix(t)))
                } else {
                    None
                };
                match lt {
                    Some(us) => TokenKind::Rtt(us),
                    None => if looks_like_address(t) {
                        TokenKind::Address
                    } else {
                        TokenKind::Skip
                    },
                }
            },
        }
    }
}

/// Last address and all round-trip times among the tokens, in order.
pub open spec fn scan_tokens(ts: Seq<Seq<char>>) -> (Option<Seq<char>>, Seq<u64>)
    decreases ts.len(),
{
    if ts.len() == 0 {
        (None, Seq::empty())
    } else {
        let (ip, rtts) = scan_tokens(ts.drop_last());
        match token_kind(ts.last()) {
            TokenKind::Skip => (ip, rtts),
            TokenKind::Rtt(us) => (ip, rtts.push(us)),
            TokenKind::Address => (Some(ts.last()), rtts),
        }
    }
}

/// The hop that a line's tokens describe: a hop number, then either only `*`s (a
/// timeout) or addresses and round-trip times; none when the first token is no
/// hop number or nothing else was recognised.
pub open spec fn hop_line_spec(ts: Seq<Seq<char>>) -> Option<HopView> {
    if ts.len() == 0 {
        None
    } else {
        match parse_u8_spec(ts[0]) {
            None => None,
            Some(n) => if forall|i: int| 1 <= i < ts.len() ==> is_star_token(#[trigger] ts[i]) {
                Some(HopView { hop_number: n, ip: None, hostname: None, rtts: Seq::empty(), timeout: true })
            } else {
                let (ip, rtts) = scan_tokens(ts.skip(1));
                if ip is None && rtts.len() == 0 {
                    None
                } else {
                    Some(HopView { hop_number: n, ip, hostname: None, rtts, timeout: false })
                }
            },
        }
    }
}

pub open spec fn opt_hop_view(h: Option<TracerouteHop>) -> Option<HopView> {
    match h {
        Some(h) => Some(hop_view(h)),
        None => None,
    }
}

/// End of `s[from..to]` once every trailing `ms` is removed.
fn trim_ms_end(s: &Vec<char>, from: usize, to: usize) -> (e: usize)
    requires
        from <= to <= s@.len(),
    ensures
        from <= e <= to,
        s@.subrange(from as int, e as int) == trim_ms_suffix(s@.subrange(from as int, to as int)),
{
    let mut e = to;
    while e - from >= 2 && s[e - 2] == 'm' && s[e - 1] == 's'
        invariant
            from <= e <= to <= s@.len(),
            trim_ms_suffix(s@.subrange(from as int, e as int)) == trim_ms_suffix(
                s@.subrange(from as int, to as int),
            ),
        decreases e,
    {
        assert(s@.subrange(from as int, e as int).subrange(0, e - from - 2) =~= s@.subrange(
            from as int,
            e - 2,
        ));
        e = e - 2;
    }
    e
}

/// Start of `s[from..to]` once every leading `<` is removed.
fn trim_lt_start(s: &Vec<char>, from: usize, to: usize) -> (b: usize)
    requires
        from <= to <= s@.len(),
    ensures
        from <= b <= to,
        s@.subrange(b as int, to as int) == trim_lt_prefix(s@.subrange(from as int, to as int)),
{
    let mut b = from;
    while b < to && s[b] == '<'
        invariant
            from <= b <= to <= s@.len(),
            trim_lt_prefix(s@.subrange(b as int, to as int)) == trim_lt_prefix(
                s@.subrange(from as int, to as int),
            ),
        decreases to - b,
    {
        assert(s@.subrange(b as int, to as int).drop_first() =~= s@.subrange(b + 1, to as int));
        b = b + 1;
    }
    b
}

fn has_char(t: &Vec<char>, c: char) -> (r: bool)
    ensures
        r == contains_char(t@, c),
{
    let mut i: usize = 0;
    while i < t.len()
        invariant
            i <= t@.len(),
            forall|j: int| 0 <= j < i ==> t@[j] != c,
        decreases t@.len() - i,
    {
        if t[i] == c {
            return true;
        }
        i = i + 1;
    }
    false
}

fn has_ms(t: &Vec<char>) -> (r: bool)
    ensures
        r == contains_ms(t@),
{
    let mut i: usize = 0;
    while t.len() >= 2 && i < t.len() - 1
        invariant
            i <= t@.len(),
            forall|j: int| 0 <= j < i && j < t@.len() - 1 ==> !(#[trigger] t@[j] == 'm' && t@[j + 1] == 's'),
        decreases t@.len() - i,
    {
        if t[i] == 'm' && t[i + 1] == 's' {
            return true;
        }
        i = i + 1;
    }
    false
}

fn all_address_chars(t: &Vec<char>) -> (r: bool)
    ensures
        r == forall|i: int| 0 <= i < t@.len() ==> is_address_char(#[trigger] t@[i]),
{
    let mut i: usize = 0;
    while i < t.len()
        invariant
            i <= t@.len(),
            forall|j: int| 0 <= j < i ==> is_address_char(#[trigger] t@[j]),
        decreases t@.len() - i,
    {
        let c = t[i];
        let ok = ('0' <= c && c <= '9') || ('a' <= c && c <= 'f') || ('A' <= c && c <= 'F') || c == ':' || c
            == '.';
        if !ok {
            return false;
        }
        i = i + 1;
    }
    true
}

/// What a token stands for.
pub fn classify_token(t: &Vec<char>) -> (r: TokenKind)
    ensures
        r == token_kind(t@),
{
    let n = t.len();
    assert(t@.subrange(0, n as int) =~= t@);
    if n == 2 && t[0] == 'm' && t[1] == 's' {
        return TokenKind::Skip;
    }
    let e = trim_ms_end(t, 0, n);
    match decimal_ms_to_us(t, 0, e) {
        Some(us) => {
            return TokenKind::Rtt(us);
        },
        None => {},
    }
    if n > 0 && t[0] == '<' {
        let b = trim_lt_start(t, 0, n);
        let e2 = trim_ms_end(t, b, n);
        match decimal_ms_to_us(t, b, e2) {
            Some(us) => {
                return TokenKind::Rtt(us);
            },
            None => {},
        }
    }
    let addr = (has_char(t, '.') && !has_ms(t)) || (has_char(t, ':') && all_address_chars(t));
    if addr {
        TokenKind::Address
    } else {
        TokenKind::Skip
    }
}

/// The hop that a line's tokens describe.
pub fn parse_hop_tokens(tokens: &Vec<String>) -> (r: Option<TracerouteHop>)
    ensures
        opt_hop_view(r) == hop_line_spec(strings_view(tokens@)),
{
    let ghost ts = strings_view(tokens@);
    let n = tokens.len();
    if n == 0 {
        return None;
    }
    let first = chars_of(tokens[0].as_str());
    assert(first@.subrange(0, first@.len() as int) =~= first@);
    let hop_number = match parse_u8(&first, 0, first.len()) {
        Some(h) => h,
        None => {
            return None;
        },
    };
    let mut all_stars = true;
    let mut k: usize = 1;
    while k < n
        invariant
            1 <= k <= n,
            n == tokens@.len(),
            ts == strings_view(tokens@),
            all_stars == forall|i: int| 1 <= i < k ==> is_star_token(#[trigger] ts[i]),
        decreases n - k,
    {
        let tk = chars_of(tokens[k].as_str());
        assert(ts[k as int] == tk@);
        if !(tk.len() == 1 && tk[0] == '*') {
            all_stars = false;
        }
        k = k + 1;
    }
    if all_stars {
        return Some(
            TracerouteHop {
                hop_number,
                ip_address: None,
                hostname: None,
                rtt_us: Vec::new(),
                timeout: true,
            },
        );
    }
    let ghost rest = ts.skip(1);
    let mut ip: Option<String> = None;
    let mut rtts: Vec<u64> = Vec::new();
    let mut i: usize = 1;
    while i < n
        invariant
            1 <= i <= n,
            n == tokens@.len(),
            ts == strings_view(tokens@),
            rest == ts.skip(1),
            (match ip {
                Some(s) => Some(s@),
                None => None,
            }, rtts@) == scan_tokens(rest.take(i - 1)),
        decreases n - i,
    {
        let tk = chars_of(tokens[i].as_str());
        let kind = classify_token(&tk);
        assert(rest.take(i as int).drop_last() =~= rest.take(i - 1));
        assert(rest.take(i as int).last() == tokens@[i as int]@);
        match kind {
            TokenKind::Skip => {},
            TokenKind::Rtt(us) => {
                rtts.push(us);
            },
            TokenKind::Address => {
                ip = Some(tokens[i].clone());
            },
        }
        i = i + 1;
    }
    assert(rest.take(n - 1) =~= rest);
    if ip.is_none() && rtts.len() == 0 {
        return None;
    }
    Some(TracerouteHop { hop_number, ip_address: ip, hostname: None, rtt_us: rtts, timeout: false })
}

/// The hop that one line of traceroute output describes.
pub fn parse_hop_line(line: &str) -> (r: Option<TracerouteHop>)
    ensures
        opt_hop_view(r) == hop_line_spec(ws_tokens(line@)),
{
    let tokens = split_whitespace(line);
    parse_hop_tokens(&tokens)
}


/// `p` occurs in `s`.
pub open spec fn contains_seq(s: Seq<char>, p: Seq<char>) -> bool {
    exists|i: int| 0 <= i && i + p.len() <= s.len() && #[trigger] s.subrange(i, i + p.len()) == p
}

/// A header line of traceroute or tracert output.
pub open spec fn is_header_line(line: Seq<char>) -> bool {
    let ts = ws_tokens(line);
    ||| ts.len() > 0 && (is_prefix("traceroute"@, ts[0]) || is_prefix("Tracing"@, ts[0]))
    ||| contains_seq(line, "hops max"@)
}

/// The hop of one line of output, if it is no header and describes one.
pub open spec fn line_hops(line: Seq<char>) -> Seq<HopView> {
    if is_header_line(line) {
        Seq::empty()
    } else {
        match hop_line_spec(ws_tokens(line)) {
            Some(h) => seq![h],
            None => Seq::empty(),
        }
    }
}

/// The hops of a whole output, line by line.
pub open spec fn output_hops(s: Seq<char>) -> Seq<HopView>
    decreases s.len(),
{
    match first_index(s, '\n') {
        Some(i) => if 0 <= i < s.len() {
            line_hops(s.take(i)) + output_hops(s.skip(i + 1))
        } else {
            Seq::empty()
        },
        None => line_hops(s),
    }
}

fn contains_text(s: &Vec<char>, p: &Vec<char>) -> (r: bool)
    ensures
        r == contains_seq(s@, p@),
{
    if p.len() > s.len() {
        return false;
    }
    let mut i: usize = 0;
    while i <= s.len() - p.len()
        invariant
            p@.len() <= s@.len(),
            i <= s@.len() - p@.len() + 1,
            forall|j: int| 0 <= j < i ==> #[trigger] s@.subrange(j, j + p@.len()) != p@,
        decreases s@.len() - p@.len() + 1 - i,
    {
        let mut k: usize = 0;
        let mut same = true;
        while k < p.len()
            invariant
                p@.len() <= s@.len(),
                i + p@.len() <= s@.len(),
                s@.len() <= usize::MAX,
                k <= p@.len(),
                same == forall|m: int| 0 <= m < k ==> #[trigger] s@[i + m] == p@[m],
            decreases p@.len() - k,
        {
            if s[i + k] != p[k] {
                same = false;
            }
            k = k + 1;
        }
        if same {
            assert forall|m: int| 0 <= m < p@.len() implies s@.subrange(i as int, i + p@.len())[m] == p@[m] by {
                assert(s@[i + m] == p@[m]);
            }
            assert(s@.subrange(i as int, i + p@.len()) =~= p@);
            return true;
        }
        proof {
            if s@.subrange(i as int, i + p@.len()) == p@ {
                assert forall|m: int| 0 <= m < p@.len() implies #[trigger] s@[i + m] == p@[m] by {
                    assert(s@.subrange(i as int, i + p@.len())[m] == p@[m]);
                }
            }
        }
        i = i + 1;
    }
    false
}

/// Whether a line of output is a header.
pub fn is_header(line: &str) -> (r: bool)
    ensures
        r == is_header_line(line@),
{
    let tokens = split_whitespace(line);
    if tokens.len() > 0 {
        let first = chars_of(tokens[0].as_str());
        assert(strings_view(tokens@)[0] == first@);
        if has_prefix(&first, &chars_of("traceroute")) || has_prefix(&first, &chars_of("Tracing")) {
            return true;
        }
    }
    contains_text(&chars_of(line), &chars_of("hops max"))
}

/// The hops that one line gives.
fn hops_of_line(line: &str) -> (r: Option<TracerouteHop>)
    ensures
        match r {
            Some(h) => line_hops(line@) == seq![hop_view(h)],
            None => line_hops(line@) == Seq::<HopView>::empty(),
        },
{
    if is_header(line) {
        return None;
    }
    parse_hop_line(line)
}

/// The hops described by the output of the system traceroute command.
pub fn parse_traceroute_output(output: &str) -> (r: Vec<TracerouteHop>)
    ensures
        r@.map_values(|h: TracerouteHop| hop_view(h)) == output_hops(output@),
{
    let cs = chars_of(output);
    let n = cs.len();
    let mut hops: Vec<TracerouteHop> = Vec::new();
    let mut pos: usize = 0;
    assert(cs@.skip(0) =~= cs@);
    while pos < n
        invariant
            n == cs@.len(),
            cs@ == output@,
            pos <= n,
            hops@.map_values(|h: TracerouteHop| hop_view(h)) + output_hops(cs@.skip(pos as int))
                == output_hops(cs@),
        decreases n - pos,
    {
        let ghost rest = cs@.skip(pos as int);
        let ghost before = hops@;
        let (end, next) = match find_char_from(&cs, '\n', pos) {
            Some(k) => (k, k + 1),
            None => (n, n),
        };
        let line = string_of_range(output, pos, end);
        assert(line@ =~= rest.take(end - pos));
        let h = hops_of_line(line.as_str());
        match h {
            Some(hop) => {
                hops.push(hop);
            },
            None => {},
        }
        proof {
            let f = |h: TracerouteHop| hop_view(h);
            if next == end {
                assert(rest.take(end - pos) =~= rest);
                assert(cs@.skip(next as int) =~= Seq::<char>::empty());
                assert(first_index(Seq::<char>::empty(), '\n') is None);
                assert(output_hops(cs@.skip(next as int)) == line_hops(Seq::<char>::empty()));
            } else {
                assert(rest.skip(end - pos + 1) =~= cs@.skip(next as int));
            }
            assert(hops@.map_values(f) =~= before.map_values(f) + line_hops(line@));
        }
        pos = next;
        if next == end {
            assert(cs@.skip(pos as int) =~= Seq::<char>::empty());
            assert(output_hops(cs@.skip(pos as int)) == line_hops(Seq::<char>::empty()));
        }
    }
    hops
}

/// Whether the fallback path reached the destination: its last hop answered from
/// the destination's address.
pub fn system_trace_completed(hops: &Vec<TracerouteHop>, destination_ip: &String) -> (r: bool)
    ensures
        r == (hops@.len() > 0 && (hops@.last().ip_address matches Some(ip) && ip@ == destination_ip@)),
{
    if hops.len() == 0 {
        return false;
    }
    match &hops[hops.len() - 1].ip_address {
        Some(ip) => ip.eq(destination_ip),
        None => false,
    }
}

} // verus!
