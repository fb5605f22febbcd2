//! The textual point representation that sensor locations round-trip
//! through: `POINT(lon lat)` with coordinates as plain decimal text.
//!
//! Writing puts longitude first (x = longitude, y = latitude); reading keeps
//! that convention, so a written point reads back to the same coordinates.
//! Reading is tolerant: a missing wrapper is ignored, a malformed coordinate
//! token degrades to zero, and fewer than two tokens degrade the whole point
//! to (0, 0) — a damaged row never fails a query. A token is plain decimal
//! (optional sign, digits, at most one dot): exponent notation or an integer
//! part beyond nine digits counts as malformed.
use crate::text::all_digits;
use crate::text::dec_digits;
use crate::text::digit_val;
use crate::text::digits_val;
use crate::text::fixed_digits;
use crate::text::is_digit_char;
use crate::text::is_ws;
use crate::text::lemma_dec_digits_len;
use crate::text::lemma_dec_digits_val;
use crate::text::lemma_fixed_digits_val;
use crate::text::lemma_pow10_pos;
use crate::text::pow10;
use crate::text::pow10_u64;
use crate::text::str_chars;
use crate::text::u64_to_dec_string;
use crate::text::u64_to_fixed_string;
use crate::geo::abs_spec;
use vstd::prelude::*;

verus! {

/// Prefix of the characters before the first occurrence of `stop`.
pub open spec fn take_before(s: Seq<char>, stop: char) -> Seq<char>
    decreases s.len(),
{
    if s.len() == 0 {
        s
    } else if s[0] == stop {
        Seq::empty()
    } else {
        seq![s[0]] + take_before(s.drop_first(), stop)
    }
}

/// Suffix of the characters after the first occurrence of `stop`; empty when
/// `stop` does not occur.
pub open spec fn after_char(s: Seq<char>, stop: char) -> Seq<char>
    decreases s.len(),
{
    if s.len() == 0 {
        s
    } else if s[0] == stop {
        s.drop_first()
    } else {
        after_char(s.drop_first(), stop)
    }
}

/// Characterises `take_before` / `after_char` by the index of the first stop.
pub proof fn lemma_split_at_char(s: Seq<char>, stop: char, j: int)
    requires
        0 <= j <= s.len(),
        forall|k: int| 0 <= k < j ==> s[k] != stop,
        j == s.len() || s[j] == stop,
    ensures
        take_before(s, stop) =~= s.subrange(0, j),
        after_char(s, stop) =~= if j == s.len() {
            Seq::<char>::empty()
        } else {
            s.skip(j + 1)
        },
    decreases s.len(),
{
    if s.len() == 0 {
    } else if j == 0 {
        if s[0] == stop {
            assert(s.drop_first() =~= s.skip(1));
        } else {
            lemma_split_at_char(s.drop_first(), stop, 0);
        }
    } else {
        assert(s[0] != stop);
        lemma_split_at_char(s.drop_first(), stop, j - 1);
        assert(seq![s[0]] + s.drop_first().subrange(0, j - 1) =~= s.subrange(0, j));
        if j < s.len() {
            assert(s.drop_first().skip(j) =~= s.skip(j + 1));
        }
    }
}

/// Drops leading whitespace.
pub open spec fn drop_ws(s: Seq<char>) -> Seq<char>
    decreases s.len(),
{
    if s.len() > 0 && is_ws(s[0]) {
        drop_ws(s.drop_first())
    } else {
        s
    }
}

/// The leading run of non-whitespace characters.
pub open spec fn take_token(s: Seq<char>) -> Seq<char>
    decreases s.len(),
{
    if s.len() == 0 || is_ws(s[0]) {
        Seq::empty()
    } else {
        seq![s[0]] + take_token(s.drop_first())
    }
}

/// What remains after the leading run of non-whitespace characters.
pub open spec fn after_token(s: Seq<char>) -> Seq<char>
    decreases s.len(),
{
    if s.len() == 0 {
        s
    } else if is_ws(s[0]) {
        s
    } else {
        after_token(s.drop_first())
    }
}

/// Characterises `drop_ws` by the index of the first non-whitespace.
pub proof fn lemma_drop_ws_at(s: Seq<char>, j: int)
    requires
        0 <= j <= s.len(),
        forall|k: int| 0 <= k < j ==> is_ws(#[trigger] s[k]),
        j == s.len() || !is_ws(s[j]),
    ensures
        drop_ws(s) =~= s.skip(j),
    decreases s.len(),
{
    if j == 0 {
        assert(s.skip(0) =~= s);
    } else {
        assert(is_ws(s[0]));
        lemma_drop_ws_at(s.drop_first(), j - 1);
        assert(s.drop_first().skip(j - 1) =~= s.skip(j));
    }
}

/// Characterises `take_token` / `after_token` by the index of the first
/// whitespace.
pub proof fn lemma_token_at(s: Seq<char>, j: int)
    requires
        0 <= j <= s.len(),
        forall|k: int| 0 <= k < j ==> !is_ws(#[trigger] s[k]),
        j == s.len() || is_ws(s[j]),
    ensures
        take_token(s) =~= s.subrange(0, j),
        after_token(s) =~= s.skip(j),
    decreases s.len(),
{
    if s.len() == 0 {
        assert(s.skip(0) =~= s);
    } else if j == 0 {
        assert(s.skip(0) =~= s);
    } else {
        assert(!is_ws(s[0]));
        lemma_token_at(s.drop_first(), j - 1);
        assert(seq![s[0]] + s.drop_first().subrange(0, j - 1) =~= s.subrange(0, j));
        assert(s.drop_first().skip(j - 1) =~= s.skip(j));
    }
}

/// Fractional digits scaled to six places: the first six digits, or fewer
/// digits padded with trailing zeros.
pub open spec fn frac_scaled(fp: Seq<char>) -> int {
    if fp.len() >= 6 {
        digits_val(fp.take(6))
    } else {
        digits_val(fp) * pow10((6 - fp.len()) as nat)
    }
}

/// Value of one coordinate token in microdegrees; zero for a malformed
/// token.
pub open spec fn parse_decimal_udeg(t: Seq<char>) -> int {
    let neg = t.len() > 0 && t[0] == '-';
    let body = if t.len() > 0 && (t[0] == '-' || t[0] == '+') {
        t.drop_first()
    } else {
        t
    };
    let ip = take_before(body, '.');
    let fp = after_char(body, '.');
    if !all_digits(ip) || !all_digits(fp) {
        0
    } else if ip.len() + fp.len() == 0 {
        0
    } else if ip.len() > 9 {
        0
    } else {
        let v = digits_val(ip) * 1_000_000 + frac_scaled(fp);
        if neg {
            -v
        } else {
            v
        }
    }
}

/// Decimal text of a coordinate: optional sign, whole degrees, a dot, six
/// fractional digits.
pub open spec fn coord_chars(v: int) -> Seq<char> {
    let a = abs_spec(v);
    let sign: Seq<char> = if v < 0 {
        seq!['-']
    } else {
        Seq::empty()
    };
    sign + dec_digits((a / 1_000_000) as nat) + seq!['.'] + fixed_digits((a % 1_000_000) as nat, 6)
}

/// The characters `POINT(`.
pub open spec fn point_prefix() -> Seq<char> {
    seq!['P', 'O', 'I', 'N', 'T', '(']
}

/// The full textual point: `POINT(` lon, a space, lat, `)`. Longitude is
/// written first.
pub open spec fn point_wkt_chars(lon: int, lat: int) -> Seq<char> {
    point_prefix() + coord_chars(lon) + seq![' '] + coord_chars(lat) + seq![')']
}

/// The text between the wrapper: prefix `POINT(` dropped when present, one
/// trailing `)` dropped when present.
pub open spec fn strip_point_wrapper(s: Seq<char>) -> Seq<char> {
    let p = if s.len() >= 6 && s.subrange(0, 6) == point_prefix() {
        s.skip(6)
    } else {
        s
    };
    if p.len() >= 1 && p[p.len() - 1] == ')' {
        p.drop_last()
    } else {
        p
    }
}

/// The (x = longitude, y = latitude) microdegree pair read from point text;
/// (0, 0) when fewer than two coordinate tokens are present.
pub open spec fn parse_point_udeg(s: Seq<char>) -> (int, int) {
    let core = strip_point_wrapper(s);
    let b1 = drop_ws(core);
    let t1 = take_token(b1);
    let b2 = drop_ws(after_token(b1));
    let t2 = take_token(b2);
    if t1.len() > 0 && t2.len() > 0 {
        (parse_decimal_udeg(t1), parse_decimal_udeg(t2))
    } else {
        (0, 0)
    }
}

pub proof fn lemma_pow10_adds(a: nat, b: nat)
    ensures
        pow10(a) * pow10(b) == pow10(a + b),
    decreases b,
{
    if b == 0 {
    } else {
        lemma_pow10_adds(a, (b - 1) as nat);
        assert(pow10(a) * (10 * pow10((b - 1) as nat)) == 10 * (pow10(a) * pow10(
            (b - 1) as nat,
        ))) by (nonlinear_arith);
    }
}

/// Tests whether every character in the range is a decimal digit.
pub fn all_digits_range(v: &Vec<char>, a: usize, b: usize) -> (r: bool)
    requires
        a <= b <= v@.len(),
    ensures
        r == all_digits(v@.subrange(a as int, b as int)),
{
    let ghost w = v@.subrange(a as int, b as int);
    let mut k: usize = a;
    while k < b
        invariant
            a <= k <= b <= v@.len(),
            w == v@.subrange(a as int, b as int),
            forall|q: int| a <= q < k ==> is_digit_char(#[trigger] v@[q]),
        decreases b - k,
    {
        let u = v[k] as u32;
        if u < 48 || u > 57 {
            proof {
                assert(w[k - a] == v@[k as int]);
                assert(!is_digit_char(w[k - a]));
            }
            return false;
        }
        k = k + 1;
    }
    proof {
        assert forall|q: int| 0 <= q < w.len() implies is_digit_char(#[trigger] w[q]) by {
            assert(w[q] == v@[q + a]);
        }
    }
    true
}

/// Value of a range of at most nine digit characters.
pub fn digits_value_range(v: &Vec<char>, a: usize, b: usize) -> (r: u64)
    requires
        a <= b <= v@.len(),
        b - a <= 9,
        all_digits(v@.subrange(a as int, b as int)),
    ensures
        r == digits_val(v@.subrange(a as int, b as int)),
        r < pow10((b - a) as nat),
{
    let ghost w = v@.subrange(a as int, b as int);
    let mut acc: u64 = 0;
    let mut k: usize = a;
    proof {
        assert(v@.subrange(a as int, a as int) =~= Seq::<char>::empty());
    }
    while k < b
        invariant
            a <= k <= b <= v@.len(),
            b - a <= 9,
            w == v@.subrange(a as int, b as int),
            all_digits(w),
            acc == digits_val(v@.subrange(a as int, k as int)),
            0 <= acc < pow10((k - a) as nat),
        decreases b - k,
    {
        proof {
            assert(w[k - a] == v@[k as int]);
            assert(is_digit_char(v@[k as int]));
        }
        let d: u64 = (v[k] as u32 - 48) as u64;
        proof {
            crate::text::lemma_pow10_le_bound((k - a) as nat, 8nat);
            reveal_with_fuel(pow10, 10);
            let pre = v@.subrange(a as int, k as int);
            let post = v@.subrange(a as int, k + 1);
            assert(post.drop_last() =~= pre);
            assert(post.last() == v@[k as int]);
            assert(digit_val(v@[k as int]) == d);
        }
        acc = acc * 10 + d;
        k = k + 1;
    }
    acc
}

/// Parses one coordinate token; mirrors `parse_decimal_udeg`.
#[verifier::rlimit(100)]
#[verifier::spinoff_prover]
pub fn parse_decimal_token(t: &Vec<char>) -> (v: i64)
    ensures
        v as int == parse_decimal_udeg(t@),
{
    let n = t.len();
    let mut start: usize = 0;
    let mut neg = false;
    if n > 0 {
        let c0 = t[0];
        if c0 == '-' {
            neg = true;
            start = 1;
        } else if c0 == '+' {
            start = 1;
        }
    }
    let ghost body = if t@.len() > 0 && (t@[0] == '-' || t@[0] == '+') {
        t@.drop_first()
    } else {
        t@
    };
    proof {
        assert(body =~= t@.skip(start as int));
    }
    let mut j: usize = start;
    while j < n && t[j] != '.'
        invariant
            start <= j <= n,
            n == t@.len(),
            forall|k: int| start <= k < j ==> t@[k] != '.',
        decreases n - j,
    {
        j = j + 1;
    }
    let ghost ip = take_before(body, '.');
    let ghost fp = after_char(body, '.');
    proof {
        assert forall|k: int| 0 <= k < j - start implies body[k] != '.' by {
            assert(body[k] == t@[k + start]);
        }
        lemma_split_at_char(body, '.', j - start);
        assert(ip =~= t@.subrange(start as int, j as int));
    }
    let fstart: usize = if j < n {
        j + 1
    } else {
        n
    };
    proof {
        assert(fp =~= t@.skip(fstart as int));
        assert(fp =~= t@.subrange(fstart as int, n as int));
    }
    let ip_ok = all_digits_range(t, start, j);
    let fp_ok = all_digits_range(t, fstart, n);
    if !ip_ok || !fp_ok {
        return 0;
    }
    let ip_len: usize = j - start;
    let fp_len: usize = n - fstart;
    if ip_len + fp_len == 0 {
        return 0;
    }
    if ip_len > 9 {
        return 0;
    }
    let ival: u64 = digits_value_range(t, start, j);
    let m: usize = if fp_len >= 6 {
        6
    } else {
        fp_len
    };
    proof {
        let sub = t@.subrange(fstart as int, fstart + m);
        assert forall|q: int| 0 <= q < sub.len() implies is_digit_char(#[trigger] sub[q]) by {
            assert(sub[q] == t@[q + fstart]);
            assert(fp[q] == t@[q + fstart]);
            assert(is_digit_char(fp[q]));
        }
    }
    let fval: u64 = digits_value_range(t, fstart, fstart + m);
    let scale: u64 = pow10_u64(6 - m);
    proof {
        lemma_pow10_pos((6 - m) as nat);
        lemma_pow10_adds(m as nat, (6 - m) as nat);
        assert(fval * scale < pow10(6nat)) by (nonlinear_arith)
            requires
                fval < pow10(m as nat),
                scale == pow10((6 - m) as nat),
                scale >= 1,
                pow10(m as nat) * pow10((6 - m) as nat) == pow10(6nat),
        ;
        reveal_with_fuel(pow10, 10);
        assert(pow10(6nat) == 1_000_000);
        assert(pow10(9nat) == 1_000_000_000);
        if fp_len >= 6 {
            assert(fp.take(6) =~= t@.subrange(fstart as int, fstart + 6));
        } else {
            assert(fp =~= t@.subrange(fstart as int, fstart + fp_len));
        }
    }
    let fscaled: u64 = fval * scale;
    proof {
        assert(fscaled == frac_scaled(fp));
    }
    let res: u64 = ival * 1_000_000 + fscaled;
    proof {
        assert(ival * 1_000_000 <= 999_999_999 * 1_000_000) by (nonlinear_arith)
            requires
                ival <= 999_999_999,
        ;
    }
    if neg {
        -(res as i64)
    } else {
        res as i64
    }
}

/// Copies a range of characters.
pub fn copy_range(v: &Vec<char>, a: usize, b: usize) -> (r: Vec<char>)
    requires
        a <= b <= v@.len(),
    ensures
        r@ =~= v@.subrange(a as int, b as int),
{
    let mut r: Vec<char> = Vec::new();
    let mut i: usize = a;
    while i < b
        invariant
            a <= i <= b <= v@.len(),
            r@ =~= v@.subrange(a as int, i as int),
        decreases b - i,
    {
        r.push(v[i]);
        proof {
            assert(r@ =~= v@.subrange(a as int, i + 1));
        }
        i = i + 1;
    }
    r
}

/// Renders one coordinate as decimal text; mirrors `coord_chars`.
pub fn format_coord(v: i64) -> (s: String)
    requires
        -999_999_999_000_000 <= v <= 999_999_999_000_000,
    ensures
        s@ =~= coord_chars(v as int),
{
    proof {
        reveal_strlit("-");
        reveal_strlit(".");
    }
    let neg = v < 0;
    let a: u64 = if neg {
        (-v) as u64
    } else {
        v as u64
    };
    let mut s: String = if neg {
        "-".to_owned()
    } else {
        String::new()
    };
    let whole = u64_to_dec_string(a / 1_000_000);
    s.append(whole.as_str());
    s.append(".");
    let frac = u64_to_fixed_string(a % 1_000_000, 6);
    s.append(frac.as_str());
    s
}

/// Renders a point as `POINT(lon lat)`; longitude first.
pub fn format_point_wkt(lon: i64, lat: i64) -> (s: String)
    requires
        -999_999_999_000_000 <= lon <= 999_999_999_000_000,
        -999_999_999_000_000 <= lat <= 999_999_999_000_000,
    ensures
        s@ =~= point_wkt_chars(lon as int, lat as int),
{
    proof {
        reveal_strlit("POINT(");
        reveal_strlit(" ");
        reveal_strlit(")");
        assert("POINT("@ =~= point_prefix());
    }
    let mut s: String = "POINT(".to_owned();
    let c_lon = format_coord(lon);
    s.append(c_lon.as_str());
    s.append(" ");
    let c_lat = format_coord(lat);
    s.append(c_lat.as_str());
    s.append(")");
    s
}

/// Parses point text; mirrors `parse_point_udeg`.
#[verifier::rlimit(100)]
pub fn parse_point_wkt(s: &str) -> (r: (i64, i64))
    ensures
        r.0 as int == parse_point_udeg(s@).0,
        r.1 as int == parse_point_udeg(s@).1,
{
    let v = str_chars(s);
    let n = v.len();
    // strip the wrapper
    let has_prefix = n >= 6 && {
        let p0 = v[0];
        let p1 = v[1];
        let p2 = v[2];
        let p3 = v[3];
        let p4 = v[4];
        let p5 = v[5];
        p0 == 'P' && p1 == 'O' && p2 == 'I' && p3 == 'N' && p4 == 'T' && p5 == '('
    };
    proof {
        if n >= 6 {
            if v@.subrange(0, 6) == point_prefix() {
                assert(v@[0] == 'P' && v@[1] == 'O' && v@[2] == 'I' && v@[3] == 'N' && v@[4] == 'T'
                    && v@[5] == '(');
            }
            if v@[0] == 'P' && v@[1] == 'O' && v@[2] == 'I' && v@[3] == 'N' && v@[4] == 'T'
                && v@[5] == '(' {
                assert(v@.subrange(0, 6) =~= point_prefix());
            }
        }
    }
    let cstart: usize = if has_prefix {
        6
    } else {
        0
    };
    let ghost p = if v@.len() >= 6 && v@.subrange(0, 6) == point_prefix() {
        v@.skip(6)
    } else {
        v@
    };
    proof {
        assert(p =~= v@.skip(cstart as int));
    }
    let cend: usize = if n > cstart && v[n - 1] == ')' {
        n - 1
    } else {
        n
    };
    let ghost core = strip_point_wrapper(v@);
    proof {
        if p.len() >= 1 && p[p.len() - 1] == ')' {
            assert(core =~= p.drop_last());
        }
        assert(core =~= v@.subrange(cstart as int, cend as int));
    }
    // first token
    let mut i1: usize = cstart;
    while i1 < cend && is_ws_exec(v[i1])
        invariant
            cstart <= i1 <= cend <= n,
            n == v@.len(),
            forall|k: int| cstart <= k < i1 ==> is_ws(#[trigger] v@[k]),
        decreases cend - i1,
    {
        i1 = i1 + 1;
    }
    let mut j1: usize = i1;
    while j1 < cend && !is_ws_exec(v[j1])
        invariant
            i1 <= j1 <= cend <= n,
            n == v@.len(),
            forall|k: int| i1 <= k < j1 ==> !is_ws(#[trigger] v@[k]),
        decreases cend - j1,
    {
        j1 = j1 + 1;
    }
    // second token
    let mut i2: usize = j1;
    while i2 < cend && is_ws_exec(v[i2])
        invariant
            j1 <= i2 <= cend <= n,
            n == v@.len(),
            forall|k: int| j1 <= k < i2 ==> is_ws(#[trigger] v@[k]),
        decreases cend - i2,
    {
        i2 = i2 + 1;
    }
    let mut j2: usize = i2;
    while j2 < cend && !is_ws_exec(v[j2])
        invariant
            i2 <= j2 <= cend <= n,
            n == v@.len(),
            forall|k: int| i2 <= k < j2 ==> !is_ws(#[trigger] v@[k]),
        decreases cend - j2,
    {
        j2 = j2 + 1;
    }
    let ghost b1 = drop_ws(core);
    let ghost t1 = take_token(b1);
    let ghost b2 = drop_ws(after_token(b1));
    let ghost t2 = take_token(b2);
    proof {
        lemma_two_tokens(
            v@,
            cstart as int,
            cend as int,
            i1 as int,
            j1 as int,
            i2 as int,
            j2 as int,
        );
    }
    if j1 > i1 && j2 > i2 {
        let tok1 = copy_range(&v, i1, j1);
        let tok2 = copy_range(&v, i2, j2);
        let x = parse_decimal_token(&tok1);
        let y = parse_decimal_token(&tok2);
        (x, y)
    } else {
        (0, 0)
    }
}

/// Places the two leading whitespace-separated tokens of
/// `v.subrange(cstart, cend)` at their index ranges in `v`.
pub proof fn lemma_two_tokens(
    v: Seq<char>,
    cstart: int,
    cend: int,
    i1: int,
    j1: int,
    i2: int,
    j2: int,
)
    requires
        0 <= cstart <= i1 <= j1 <= i2 <= j2 <= cend <= v.len(),
        forall|k: int| cstart <= k < i1 ==> is_ws(#[trigger] v[k]),
        i1 == cend || !is_ws(v[i1]),
        forall|k: int| i1 <= k < j1 ==> !is_ws(#[trigger] v[k]),
        j1 == cend || is_ws(v[j1]),
        forall|k: int| j1 <= k < i2 ==> is_ws(#[trigger] v[k]),
        i2 == cend || !is_ws(v[i2]),
        forall|k: int| i2 <= k < j2 ==> !is_ws(#[trigger] v[k]),
        j2 == cend || is_ws(v[j2]),
    ensures
        take_token(drop_ws(v.subrange(cstart, cend))) == v.subrange(i1, j1),
        take_token(drop_ws(after_token(drop_ws(v.subrange(cstart, cend))))) == v.subrange(i2, j2),
{
    let core = v.subrange(cstart, cend);
    assert forall|k: int| 0 <= k < i1 - cstart implies is_ws(#[trigger] core[k]) by {
        assert(core[k] == v[k + cstart]);
    }
    if i1 < cend {
        assert(core[i1 - cstart] == v[i1]);
    }
    lemma_drop_ws_at(core, i1 - cstart);
    let b1 = drop_ws(core);
    assert(b1 =~= v.subrange(i1, cend));
    assert forall|k: int| 0 <= k < j1 - i1 implies !is_ws(#[trigger] b1[k]) by {
        assert(b1[k] == v[k + i1]);
    }
    if j1 < cend {
        assert(b1[j1 - i1] == v[j1]);
    }
    lemma_token_at(b1, j1 - i1);
    assert(take_token(b1) =~= v.subrange(i1, j1));
    let r1 = after_token(b1);
    assert(r1 =~= v.subrange(j1, cend));
    assert forall|k: int| 0 <= k < i2 - j1 implies is_ws(#[trigger] r1[k]) by {
        assert(r1[k] == v[k + j1]);
    }
    if i2 < cend {
        assert(r1[i2 - j1] == v[i2]);
    }
    lemma_drop_ws_at(r1, i2 - j1);
    let b2 = drop_ws(r1);
    assert(b2 =~= v.subrange(i2, cend));
    assert forall|k: int| 0 <= k < j2 - i2 implies !is_ws(#[trigger] b2[k]) by {
        assert(b2[k] == v[k + i2]);
    }
    if j2 < cend {
        assert(b2[j2 - i2] == v[j2]);
    }
    lemma_token_at(b2, j2 - i2);
    assert(take_token(b2) =~= v.subrange(i2, j2));
}

/// Coordinate text is never empty and contains neither whitespace nor the
/// closing wrapper character.
pub proof fn lemma_coord_chars_shape(v: int)
    ensures
        forall|i: int| 0 <= i < coord_chars(v).len() ==> !is_ws(#[trigger] coord_chars(v)[i]),
        coord_chars(v).len() >= 1,
{
    let a = abs_spec(v);
    let d = dec_digits((a / 1_000_000) as nat);
    let f = fixed_digits((a % 1_000_000) as nat, 6);
    lemma_dec_digits_val((a / 1_000_000) as nat);
    reveal_with_fuel(pow10, 10);
    assert(pow10(6nat) == 1_000_000);
    lemma_fixed_digits_val((a % 1_000_000) as nat, 6nat);
    let s = coord_chars(v);
    let sign: Seq<char> = if v < 0 {
        seq!['-']
    } else {
        Seq::empty()
    };
    assert forall|i: int| 0 <= i < s.len() implies !is_ws(#[trigger] s[i]) by {
        if i < sign.len() {
            assert(s[i] == '-');
        } else if i < sign.len() + d.len() {
            assert(s[i] == d[i - sign.len()]);
            assert(is_digit_char(d[i - sign.len()]));
        } else if i == sign.len() + d.len() {
            assert(s[i] == '.');
        } else {
            assert(s[i] == f[i - (sign.len() + d.len() + 1)]);
            assert(is_digit_char(f[i - (sign.len() + d.len() + 1)]));
        }
    }
}

/// A written coordinate token reads back to the same microdegree value.
pub proof fn lemma_coord_roundtrip(v: int)
    requires
        -999_999_999_000_000 <= v <= 999_999_999_000_000,
    ensures
        parse_decimal_udeg(coord_chars(v)) == v,
{
    let a = abs_spec(v);
    let d = dec_digits((a / 1_000_000) as nat);
    let f = fixed_digits((a % 1_000_000) as nat, 6);
    lemma_dec_digits_val((a / 1_000_000) as nat);
    reveal_with_fuel(pow10, 10);
    assert(pow10(6nat) == 1_000_000);
    assert(pow10(9nat) == 1_000_000_000);
    lemma_fixed_digits_val((a % 1_000_000) as nat, 6nat);
    lemma_dec_digits_len((a / 1_000_000) as nat, 9nat);
    let t = coord_chars(v);
    let body0 = d + seq!['.'] + f;
    if v < 0 {
        assert(t[0] == '-');
        assert(t.drop_first() =~= body0);
    } else {
        assert(t[0] == d[0]);
        assert(is_digit_char(d[0]));
        assert(t =~= body0);
    }
    assert forall|k: int| 0 <= k < d.len() implies body0[k] != '.' by {
        assert(body0[k] == d[k]);
        assert(is_digit_char(d[k]));
    }
    assert(body0[d.len() as int] == '.');
    lemma_split_at_char(body0, '.', d.len() as int);
    assert(take_before(body0, '.') =~= d);
    assert(after_char(body0, '.') =~= f);
    assert(f.take(6) =~= f);
    vstd::arithmetic::div_mod::lemma_fundamental_div_mod(a, 1_000_000);
    assert(digits_val(d) * 1_000_000 + frac_scaled(f) == a);
}

/// A written point reads back to the same pair, longitude first: the
/// round-trip law of the textual location representation.
pub proof fn lemma_wkt_roundtrip(lon: i64, lat: i64)
    requires
        crate::valid_lon_udeg(lon),
        crate::valid_lat_udeg(lat),
    ensures
        parse_point_udeg(point_wkt_chars(lon as int, lat as int)).0 == lon as int,
        parse_point_udeg(point_wkt_chars(lon as int, lat as int)).1 == lat as int,
{
    let cl = coord_chars(lon as int);
    let ct = coord_chars(lat as int);
    let s = point_wkt_chars(lon as int, lat as int);
    lemma_coord_chars_shape(lon as int);
    lemma_coord_chars_shape(lat as int);
    assert(s.subrange(0, 6) =~= point_prefix());
    let p = s.skip(6);
    assert(p =~= cl + seq![' '] + ct + seq![')']);
    assert(p[p.len() - 1] == ')');
    let core = strip_point_wrapper(s);
    assert(core =~= cl + seq![' '] + ct);
    let n = core.len() as int;
    let j1 = cl.len() as int;
    assert forall|k: int| 0 <= k < j1 implies !is_ws(#[trigger] core[k]) by {
        assert(core[k] == cl[k]);
    }
    assert(is_ws(core[j1]));
    assert forall|k: int| j1 + 1 <= k < n implies !is_ws(#[trigger] core[k]) by {
        assert(core[k] == ct[k - (j1 + 1)]);
    }
    lemma_two_tokens(core, 0, n, 0, j1, j1 + 1, n);
    assert(take_token(drop_ws(core.subrange(0, n))) == core.subrange(0, j1));
    assert(core.subrange(0, n) =~= core);
    assert(core.subrange(0, j1) =~= cl);
    assert(core.subrange(j1 + 1, n) =~= ct);
    lemma_coord_roundtrip(lon as int);
    lemma_coord_roundtrip(lat as int);
}

/// Whitespace test; mirrors `is_ws`.
pub fn is_ws_exec(c: char) -> (r: bool)
    ensures
        r == is_ws(c),
{
    c == ' ' || c == '\t' || c == '\n' || c == '\r'
}

} // verus!
