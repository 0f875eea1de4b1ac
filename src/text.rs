//! Character-level helpers for the small text formats the engine reads.

use vstd::prelude::*;

verus! {

/// `p` is a prefix of `s`.
pub open spec fn is_prefix(p: Seq<char>, s: Seq<char>) -> bool {
    p.len() <= s.len() && s.subrange(0, p.len() as int) == p
}

/// `i` is the first position of `c` in `s`.
pub open spec fn is_first_char(s: Seq<char>, c: char, i: int) -> bool {
    &&& 0 <= i < s.len()
    &&& s[i] == c
    &&& forall|j: int| 0 <= j < i ==> s[j] != c
}

/// First position of `c` in `s`, if any.
pub open spec fn first_index(s: Seq<char>, c: char) -> Option<int> {
    if exists|i: int| is_first_char(s, c, i) {
        Some(choose|i: int| is_first_char(s, c, i))
    } else {
        None
    }
}

/// The characters of a string.
pub fn chars_of(s: &str) -> (r: Vec<char>)
    ensures
        r@ == s@,
{
    let n = s.unicode_len();
    let mut r: Vec<char> = Vec::new();
    let mut i: usize = 0;
    while i < n
        invariant
            n == s@.len(),
            i <= n,
            r@ == s@.take(i as int),
        decreases n - i,
    {
        r.push(s.get_char(i));
        i = i + 1;
        assert(r@ =~= s@.take(i as int));
    }
    assert(s@.take(n as int) =~= s@);
    r
}

/// Whether `p` is a prefix of `s`.
pub fn has_prefix(s: &Vec<char>, p: &Vec<char>) -> (r: bool)
    ensures
        r == is_prefix(p@, s@),
{
    if p.len() > s.len() {
        return false;
    }
    let mut i: usize = 0;
    while i < p.len()
        invariant
            p@.len() <= s@.len(),
            i <= p@.len(),
            forall|j: int| 0 <= j < i ==> s@[j] == p@[j],
        decreases p@.len() - i,
    {
        if s[i] != p[i] {
            assert(s@.subrange(0, p@.len() as int)[i as int] != p@[i as int]);
            return false;
        }
        i = i + 1;
    }
    assert(s@.subrange(0, p@.len() as int) =~= p@);
    true
}

/// Position of the first `c` in `s[from..]`, if any.
pub fn find_char_from(s: &Vec<char>, c: char, from: usize) -> (r: Option<usize>)
    requires
        from <= s@.len(),
    ensures
        match r {
            Some(i) => from <= i < s@.len() && s@[i as int] == c && first_index(s@.skip(from as int), c)
                == Some(i - from),
            None => first_index(s@.skip(from as int), c) is None,
        },
{
    let ghost t = s@.skip(from as int);
    let mut i: usize = from;
    while i < s.len()
        invariant
            from <= i <= s@.len(),
            t == s@.skip(from as int),
            forall|j: int| 0 <= j < i - from ==> t[j] != c,
        decreases s@.len() - i,
    {
        if s[i] == c {
            proof {
                let k = (i - from) as int;
                assert(is_first_char(t, c, k));
                assert forall|m: int| is_first_char(t, c, m) implies m == k by {
                    if m < k {
                        assert(t[m] != c);
                    } else if m > k {
                        assert(t[k] == c);
                    }
                }
            }
            return Some(i);
        }
        i = i + 1;
    }
    assert forall|m: int| !is_first_char(t, c, m) by {
        if 0 <= m < t.len() {
            assert(t[m] != c);
        }
    }
    None
}


pub open spec fn is_digit(c: char) -> bool {
    '0' <= c && c <= '9'
}

pub open spec fn all_digits(s: Seq<char>) -> bool {
    forall|i: int| 0 <= i < s.len() ==> is_digit(#[trigger] s[i])
}

/// Decimal value of a string of digits.
pub open spec fn digits_value(s: Seq<char>) -> nat
    decreases s.len(),
{
    if s.len() == 0 {
        0
    } else {
        digits_value(s.drop_last()) * 10 + ((s.last() as u32 - '0' as u32) as nat)
    }
}

/// The digits of an unsigned decimal, after an optional leading `+`.
pub open spec fn unsigned_digits(s: Seq<char>) -> Seq<char> {
    if s.len() > 0 && s[0] == '+' {
        s.drop_first()
    } else {
        s
    }
}

/// A decimal `u16` as std's `u16::from_str` reads it: an optional `+`, then at
/// least one digit, and a value of at most 65535.
pub open spec fn parse_u16_spec(s: Seq<char>) -> Option<u16> {
    let d = unsigned_digits(s);
    if d.len() > 0 && all_digits(d) && digits_value(d) <= 0xFFFF {
        Some(digits_value(d) as u16)
    } else {
        None
    }
}

proof fn lemma_digits_value_step(d: Seq<char>, k: int)
    requires
        0 <= k < d.len(),
    ensures
        digits_value(d.take(k + 1)) == digits_value(d.take(k)) * 10 + ((d[k] as u32 - '0' as u32) as nat),
{
    assert(d.take(k + 1).drop_last() =~= d.take(k));
}

/// Reads `s[from..to]` as a decimal `u16`.
pub fn parse_u16(s: &Vec<char>, from: usize, to: usize) -> (r: Option<u16>)
    requires
        from <= to <= s@.len(),
    ensures
        r == parse_u16_spec(s@.subrange(from as int, to as int)),
{
    let ghost w = s@.subrange(from as int, to as int);
    let start: usize = if from < to && s[from] == '+' {
        from + 1
    } else {
        from
    };
    let ghost d = s@.subrange(start as int, to as int);
    assert(unsigned_digits(w) =~= d);
    if start == to {
        return None;
    }
    let mut v: u32 = 0;
    let mut over = false;
    let mut i: usize = start;
    while i < to
        invariant
            start <= i <= to <= s@.len(),
            d == s@.subrange(start as int, to as int),
            w == s@.subrange(from as int, to as int),
            unsigned_digits(w) == d,
            all_digits(d.take(i - start)),
            !over ==> v as nat == digits_value(d.take(i - start)) && v <= 0xFFFF,
            over ==> digits_value(d.take(i - start)) > 0xFFFF,
        decreases to - i,
    {
        let c = s[i];
        if !('0' <= c && c <= '9') {
            assert(d[i - start] == c);
            assert(!is_digit(d[i - start]));
            assert(!all_digits(unsigned_digits(w)));
            return None;
        }
        proof {
            lemma_digits_value_step(d, i - start);
            assert(d.take(i - start + 1).drop_last() =~= d.take(i - start));
        }
        if !over {
            let nv: u32 = v * 10 + (c as u32 - '0' as u32);
            if nv > 0xFFFF {
                over = true;
            } else {
                v = nv;
            }
        }
        i = i + 1;
    }
    assert(d.take(to - start) =~= d);
    if over {
        None
    } else {
        Some(v as u16)
    }
}

/// Builds a `String` from `s[from..to]`.
pub fn string_of_range(s: &str, from: usize, to: usize) -> (r: String)
    requires
        from <= to <= s@.len(),
    ensures
        r@ == s@.subrange(from as int, to as int),
{
    s.substring_char(from, to).to_owned()
}


/// `s` before its first `c`, or all of `s`.
pub open spec fn before_first(s: Seq<char>, c: char) -> Seq<char> {
    match first_index(s, c) {
        Some(i) => s.take(i),
        None => s,
    }
}

/// `s` after its first `c`, or nothing.
pub open spec fn after_first(s: Seq<char>, c: char) -> Seq<char> {
    match first_index(s, c) {
        Some(i) => s.skip(i + 1),
        None => Seq::empty(),
    }
}

/// The first `c` of a prefix is the first `c` of the whole, if it lies in the prefix.
pub proof fn lemma_first_index_take(s: Seq<char>, c: char, n: int)
    requires
        0 <= n <= s.len(),
    ensures
        first_index(s.take(n), c) == (match first_index(s, c) {
            Some(k) => if k < n {
                Some(k)
            } else {
                None
            },
            None => None,
        }),
{
    let t = s.take(n);
    if exists|i: int| is_first_char(s, c, i) {
        let k = choose|i: int| is_first_char(s, c, i);
        if k < n {
            assert(is_first_char(t, c, k));
            assert forall|m: int| is_first_char(t, c, m) implies m == k by {
                if m < k {
                    assert(t[m] == s[m]);
                } else if m > k {
                    assert(t[k] == c);
                }
            }
        } else {
            assert forall|m: int| !is_first_char(t, c, m) by {
                if 0 <= m < t.len() && t[m] == c {
                    assert(s[m] == c);
                    if forall|j: int| 0 <= j < m ==> t[j] != c {
                        assert forall|j: int| 0 <= j < m implies s[j] != c by {
                            assert(t[j] == s[j]);
                        }
                        assert(is_first_char(s, c, m));
                    }
                }
            }
        }
    } else {
        assert forall|m: int| !is_first_char(t, c, m) by {
            if is_first_char(t, c, m) {
                assert forall|j: int| 0 <= j < m implies s[j] != c by {
                    assert(t[j] == s[j]);
                }
                assert(is_first_char(s, c, m));
            }
        }
    }
}


/// A decimal `u8` as std's `u8::from_str` reads it.
pub open spec fn parse_u8_spec(s: Seq<char>) -> Option<u8> {
    match parse_u16_spec(s) {
        Some(v) => if v <= 255 {
            Some(v as u8)
        } else {
            None
        },
        None => None,
    }
}

/// Reads `s[from..to]` as a decimal `u8`.
pub fn parse_u8(s: &Vec<char>, from: usize, to: usize) -> (r: Option<u8>)
    requires
        from <= to <= s@.len(),
    ensures
        r == parse_u8_spec(s@.subrange(from as int, to as int)),
{
    match parse_u16(s, from, to) {
        Some(v) => if v <= 255 {
            Some(v as u8)
        } else {
            None
        },
        None => None,
    }
}

/// Value of the first three digits of a fraction, in thousandths.
pub open spec fn thousandths(f: Seq<char>) -> nat {
    if f.len() == 0 {
        0
    } else if f.len() == 1 {
        digits_value(f) * 100
    } else if f.len() == 2 {
        digits_value(f) * 10
    } else {
        digits_value(f.take(3))
    }
}

/// A decimal number of milliseconds, `digits[.digits]` with at least one digit,
/// in whole microseconds (further fraction digits are dropped); none when it does
/// not fit a `u64`.
pub open spec fn decimal_ms_to_us_spec(s: Seq<char>) -> Option<u64> {
    let int_part = before_first(s, '.');
    let frac = after_first(s, '.');
    if all_digits(int_part) && all_digits(frac) && int_part.len() + frac.len() > 0 {
        let v = digits_value(int_part) * 1000 + thousandths(frac);
        if v <= u64::MAX {
            Some(v as u64)
        } else {
            None
        }
    } else {
        None
    }
}

/// Bound under which ten times a value plus a digit still fits a `u64`.
const DECIMAL_LIMIT: u64 = 0xFFFF_FFFF_FFFF_FFFF / 1000;

/// Decimal value of `s[from..to]`, all digits, or none when it exceeds `limit`.
fn digits_up_to(s: &Vec<char>, from: usize, to: usize, limit: u64) -> (r: Option<u64>)
    requires
        from <= to <= s@.len(),
        limit <= DECIMAL_LIMIT,
    ensures
        all_digits(s@.subrange(from as int, to as int)) && digits_value(s@.subrange(from as int, to as int))
            <= limit ==> r == Some(digits_value(s@.subrange(from as int, to as int)) as u64),
        !all_digits(s@.subrange(from as int, to as int)) || digits_value(s@.subrange(from as int, to as int))
            > limit ==> r is None,
{
    let ghost d = s@.subrange(from as int, to as int);
    let mut v: u64 = 0;
    let mut over = false;
    let mut i: usize = from;
    while i < to
        invariant
            from <= i <= to <= s@.len(),
            d == s@.subrange(from as int, to as int),
            limit <= DECIMAL_LIMIT,
            all_digits(d.take(i - from)),
            !over ==> v as nat == digits_value(d.take(i - from)) && v <= limit,
            over ==> digits_value(d.take(i - from)) > limit,
        decreases to - i,
    {
        let c = s[i];
        if !('0' <= c && c <= '9') {
            assert(d[i - from] == c);
            assert(!is_digit(d[i - from]));
            return None;
        }
        proof {
            lemma_digits_value_step(d, i - from);
            assert(d.take(i - from + 1).drop_last() =~= d.take(i - from));
        }
        if !over {
            let nv: u64 = v * 10 + (c as u32 - '0' as u32) as u64;
            if nv > limit {
                over = true;
            } else {
                v = nv;
            }
        }
        i = i + 1;
    }
    assert(d.take(to - from) =~= d);
    if over {
        None
    } else {
        Some(v)
    }
}

/// Whether `s[from..to]` holds only digits.
pub fn all_digits_in(s: &Vec<char>, from: usize, to: usize) -> (r: bool)
    requires
        from <= to <= s@.len(),
    ensures
        r == all_digits(s@.subrange(from as int, to as int)),
{
    let ghost d = s@.subrange(from as int, to as int);
    let mut i: usize = from;
    while i < to
        invariant
            from <= i <= to <= s@.len(),
            d == s@.subrange(from as int, to as int),
            forall|j: int| 0 <= j < i - from ==> is_digit(#[trigger] d[j]),
        decreases to - i,
    {
        let c = s[i];
        if !('0' <= c && c <= '9') {
            assert(d[i - from] == c);
            return false;
        }
        i = i + 1;
    }
    true
}

fn digit_value(c: char) -> (r: u64)
    requires
        is_digit(c),
    ensures
        r == (c as u32 - '0' as u32) as nat,
        r <= 9,
{
    (c as u32 - '0' as u32) as u64
}

pub open spec fn dv(c: char) -> nat {
    (c as u32 - '0' as u32) as nat
}

proof fn lemma_thousandths(f: Seq<char>)
    ensures
        f.len() == 1 ==> thousandths(f) == dv(f[0]) * 100,
        f.len() == 2 ==> thousandths(f) == (dv(f[0]) * 10 + dv(f[1])) * 10,
        f.len() >= 3 ==> thousandths(f) == dv(f[0]) * 100 + dv(f[1]) * 10 + dv(f[2]),
{
    if f.len() == 1 {
        assert(f.drop_last() =~= Seq::<char>::empty());
        assert(digits_value(f.drop_last()) == 0);
    } else if f.len() == 2 {
        let g = f.drop_last();
        assert(g.drop_last() =~= Seq::<char>::empty());
        assert(g.last() == f[0]);
        assert(digits_value(g.drop_last()) == 0);
        assert(digits_value(g) == dv(f[0]));
    } else if f.len() >= 3 {
        let f3 = f.take(3);
        let g1 = f3.drop_last().drop_last();
        assert(g1.drop_last() =~= Seq::<char>::empty());
        assert(g1.last() == f[0]);
        assert(digits_value(g1.drop_last()) == 0);
        assert(digits_value(g1) == dv(f[0]));
        assert(f3.drop_last().last() == f[1]);
        assert(digits_value(f3.drop_last()) == dv(f[0]) * 10 + dv(f[1]));
    }
}

/// Reads `s[from..to]` as a decimal number of milliseconds, in microseconds.
pub fn decimal_ms_to_us(s: &Vec<char>, from: usize, to: usize) -> (r: Option<u64>)
    requires
        from <= to <= s@.len(),
    ensures
        r == decimal_ms_to_us_spec(s@.subrange(from as int, to as int)),
{
    let ghost w = s@.subrange(from as int, to as int);
    let dot = find_char_from(s, '.', from);
    let (int_end, frac_start) = match dot {
        Some(k) => if k < to {
            (k, k + 1)
        } else {
            (to, to)
        },
        None => (to, to),
    };
    proof {
        lemma_first_index_take(s@.skip(from as int), '.', to - from);
        assert(s@.skip(from as int).take(to - from) =~= w);
    }
    let ghost int_part = before_first(w, '.');
    let ghost frac = after_first(w, '.');
    assert(int_part =~= s@.subrange(from as int, int_end as int));
    assert(frac =~= s@.subrange(frac_start as int, to as int));
    if !all_digits_in(s, from, int_end) || !all_digits_in(s, frac_start, to) {
        return None;
    }
    if int_end == from && frac_start == to {
        return None;
    }
    let iv = match digits_up_to(s, from, int_end, DECIMAL_LIMIT) {
        Some(v) => v,
        None => {
            assert(digits_value(int_part) * 1000 > u64::MAX) by (nonlinear_arith)
                requires
                    digits_value(int_part) > DECIMAL_LIMIT,
            ;
            return None;
        },
    };
    let flen = to - frac_start;
    let fv: u64 = if flen == 0 {
        0
    } else if flen == 1 {
        assert(is_digit(frac[0]));
        digit_value(s[frac_start]) * 100
    } else if flen == 2 {
        assert(is_digit(frac[0]) && is_digit(frac[1]));
        (digit_value(s[frac_start]) * 10 + digit_value(s[frac_start + 1])) * 10
    } else {
        assert(is_digit(frac[0]) && is_digit(frac[1]) && is_digit(frac[2]));
        digit_value(s[frac_start]) * 100 + digit_value(s[frac_start + 1]) * 10 + digit_value(s[frac_start + 2])
    };
    proof {
        lemma_thousandths(frac);
    }
    assert(fv as nat == thousandths(frac));
    let v: u128 = (iv as u128) * 1000 + fv as u128;
    if v > u64::MAX as u128 {
        None
    } else {
        Some(v as u64)
    }
}


/// Unicode's White_Space property, which `char::is_whitespace` tests: tab to
/// carriage return, space, NEL, no-break space, ogham space mark, the spaces
/// U+2000 to U+200A, line and paragraph separators, narrow no-break space,
/// medium mathematical space and ideographic space.
pub open spec fn is_ws(c: char) -> bool {
    let u = c as u32;
    ||| 0x09 <= u && u <= 0x0D
    ||| u == 0x20 || u == 0x85 || u == 0xA0 || u == 0x1680
    ||| 0x2000 <= u && u <= 0x200A
    ||| u == 0x2028 || u == 0x2029 || u == 0x202F || u == 0x205F || u == 0x3000
}

/// Whether `c` is white space.
pub fn is_whitespace(c: char) -> (r: bool)
    ensures
        r == is_ws(c),
{
    let u = c as u32;
    (0x09 <= u && u <= 0x0D) || u == 0x20 || u == 0x85 || u == 0xA0 || u == 0x1680 || (0x2000 <= u && u
        <= 0x200A) || u == 0x2028 || u == 0x2029 || u == 0x202F || u == 0x205F || u == 0x3000
}

/// The maximal runs of non-whitespace characters of `s`, in order.
pub open spec fn ws_tokens(s: Seq<char>) -> Seq<Seq<char>>
    decreases s.len(),
{
    if s.len() == 0 {
        Seq::empty()
    } else {
        let prev = ws_tokens(s.drop_last());
        let c = s.last();
        if is_ws(c) {
            prev
        } else if s.len() >= 2 && !is_ws(s[s.len() - 2]) && prev.len() > 0 {
            prev.update(prev.len() - 1, prev.last().push(c))
        } else {
            prev.push(seq![c])
        }
    }
}

pub open spec fn strings_view(v: Seq<String>) -> Seq<Seq<char>> {
    v.map_values(|t: String| t@)
}

proof fn lemma_ws_tokens_nonempty(s: Seq<char>)
    requires
        s.len() > 0,
        !is_ws(s.last()),
    ensures
        ws_tokens(s).len() > 0,
{
}

/// Splits `s` into its whitespace-separated tokens.
pub fn split_whitespace(s: &str) -> (r: Vec<String>)
    ensures
        strings_view(r@) == ws_tokens(s@),
{
    let cs = chars_of(s);
    let n = cs.len();
    let mut toks: Vec<String> = Vec::new();
    let mut start: usize = 0;
    let mut in_tok = false;
    let mut i: usize = 0;
    while i < n
        invariant
            n == cs@.len(),
            cs@ == s@,
            i <= n,
            !in_tok ==> strings_view(toks@) == ws_tokens(cs@.take(i as int)),
            !in_tok && i > 0 ==> is_ws(cs@[i - 1]),
            in_tok ==> start < i && strings_view(toks@).push(cs@.subrange(start as int, i as int))
                == ws_tokens(cs@.take(i as int)),
            in_tok ==> !is_ws(cs@[i - 1]),
        decreases n - i,
    {
        let c = cs[i];
        let w = is_whitespace(c);
        let ghost t = cs@.take(i + 1);
        assert(t.drop_last() =~= cs@.take(i as int));
        assert(t.last() == c);
        if w {
            if in_tok {
                let tok = string_of_range(s, start, i);
                let ghost before = toks@;
                toks.push(tok);
                in_tok = false;
                assert(strings_view(toks@) =~= strings_view(before).push(tok@));
            }
        } else {
            if in_tok {
                proof {
                    lemma_ws_tokens_nonempty(cs@.take(i as int));
                    let prev = ws_tokens(cs@.take(i as int));
                    assert(t[i - 1] == cs@[i - 1]);
                    assert(prev == strings_view(toks@).push(cs@.subrange(start as int, i as int)));
                    assert(prev.last() == cs@.subrange(start as int, i as int));
                    assert(cs@.subrange(start as int, i as int).push(c) =~= cs@.subrange(start as int, i + 1));
                    assert(prev.update(prev.len() - 1, prev.last().push(c)) =~= strings_view(toks@).push(
                        cs@.subrange(start as int, i + 1),
                    ));
                }
            } else {
                start = i;
                in_tok = true;
                assert(cs@.subrange(start as int, i + 1) =~= seq![c]);
                if i > 0 {
                    assert(t[i - 1] == cs@[i - 1]);
                }
            }
        }
        i = i + 1;
    }
    assert(cs@.take(n as int) =~= cs@);
    if in_tok {
        let tok = string_of_range(s, start, n);
        let ghost before = toks@;
        toks.push(tok);
        assert(strings_view(toks@) =~= strings_view(before).push(tok@));
    }
    toks
}

} // verus!
