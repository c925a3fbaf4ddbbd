//! Character-level text utilities. Every function here is stated over the
//! `Seq<char>` view of its arguments.
use vstd::prelude::*;

verus! {

// ---------------------------------------------------------------------------
// Conversions between strings and character vectors
// ---------------------------------------------------------------------------

/// The characters of a string slice, in order.
pub fn chars_of(s: &str) -> (v: Vec<char>)
    ensures
        v@ == s@,
{
    let mut v: Vec<char> = Vec::new();
    for c in it: s.chars()
        invariant
            v@ == it.seq().take(it.index()),
    {
        v.push(c);
    }
    v
}

/// `String::from_iter` over `&char` items (std): the string made of the
/// given characters, in order.
#[verifier::external_body]
pub(crate) fn string_from_chars(v: &[char]) -> (s: String)
    ensures
        s@ == v@,
{
    String::from_iter(v)
}

// ---------------------------------------------------------------------------
// Whitespace and trimming (`str::trim`)
// ---------------------------------------------------------------------------

/// Unicode `White_Space`, the property behind `char::is_whitespace`.
pub open spec fn is_ws(c: char) -> bool {
    let u = c as u32;
    ||| 0x09 <= u <= 0x0D
    ||| u == 0x20
    ||| u == 0x85
    ||| u == 0xA0
    ||| u == 0x1680
    ||| 0x2000 <= u <= 0x200A
    ||| u == 0x2028
    ||| u == 0x2029
    ||| u == 0x202F
    ||| u == 0x205F
    ||| u == 0x3000
}

pub fn is_whitespace(c: char) -> (b: bool)
    ensures
        b == is_ws(c),
{
    let u = c as u32;
    (0x09 <= u && u <= 0x0D) || u == 0x20 || u == 0x85 || u == 0xA0 || u == 0x1680
        || (0x2000 <= u && u <= 0x200A) || u == 0x2028 || u == 0x2029 || u == 0x202F
        || u == 0x205F || u == 0x3000
}

pub open spec fn trim_start(s: Seq<char>) -> Seq<char>
    decreases s.len(),
{
    if s.len() > 0 && is_ws(s[0]) {
        trim_start(s.drop_first())
    } else {
        s
    }
}

pub open spec fn trim_end(s: Seq<char>) -> Seq<char>
    decreases s.len(),
{
    if s.len() > 0 && is_ws(s.last()) {
        trim_end(s.drop_last())
    } else {
        s
    }
}

/// What `str::trim` leaves of `s`.
pub open spec fn trim(s: Seq<char>) -> Seq<char> {
    trim_end(trim_start(s))
}

proof fn lemma_trim_start_skip(s: Seq<char>, i: int)
    requires
        0 <= i <= s.len(),
        forall|j: int| 0 <= j < i ==> is_ws(#[trigger] s[j]),
    ensures
        trim_start(s) == trim_start(s.skip(i)),
    decreases i,
{
    if i > 0 {
        assert(s.drop_first().skip(i - 1) =~= s.skip(i));
        lemma_trim_start_skip(s.drop_first(), i - 1);
    } else {
        assert(s.skip(0) =~= s);
    }
}

proof fn lemma_trim_end_take(s: Seq<char>, k: int)
    requires
        0 <= k <= s.len(),
        forall|j: int| k <= j < s.len() ==> is_ws(#[trigger] s[j]),
    ensures
        trim_end(s) == trim_end(s.take(k)),
    decreases s.len() - k,
{
    if k < s.len() {
        assert(s.drop_last().take(k) =~= s.take(k));
        lemma_trim_end_take(s.drop_last(), k);
    } else {
        assert(s.take(k) =~= s);
    }
}

/// The bounds of `trim(v@)` inside `v`.
pub fn trim_bounds(v: &Vec<char>) -> (r: (usize, usize))
    ensures
        r.0 <= r.1 <= v.len(),
        v@.subrange(r.0 as int, r.1 as int) == trim(v@),
{
    let n = v.len();
    let mut a: usize = 0;
    while a < n && is_whitespace(v[a])
        invariant
            a <= n == v.len(),
            forall|j: int| 0 <= j < a ==> is_ws(#[trigger] v@[j]),
        decreases n - a,
    {
        a = a + 1;
    }
    let mut b: usize = n;
    while b > a && is_whitespace(v[b - 1])
        invariant
            a <= b <= n == v.len(),
            forall|j: int| b <= j < n ==> is_ws(#[trigger] v@[j]),
        decreases b - a,
    {
        b = b - 1;
    }
    proof {
        let s = v@;
        lemma_trim_start_skip(s, a as int);
        let t = s.skip(a as int);
        if a < n {
            assert(t[0] == s[a as int]);
        }
        assert(trim_start(t) == t);
        assert forall|j: int| (b - a) <= j < t.len() implies is_ws(#[trigger] t[j]) by {
            assert(t[j] == s[j + a]);
        }
        lemma_trim_end_take(t, (b - a) as int);
        let u = t.take((b - a) as int);
        if b > a {
            assert(u.last() == s[b - 1]);
        }
        assert(trim_end(u) == u);
        assert(u =~= s.subrange(a as int, b as int));
    }
    (a, b)
}

/// `str::trim` on a character vector.
pub fn trim_chars(v: &Vec<char>) -> (r: Vec<char>)
    ensures
        r@ == trim(v@),
{
    let (a, b) = trim_bounds(v);
    slice_chars(v, a, b)
}

/// The characters of `v` in `[a, b)`.
pub fn slice_chars(v: &Vec<char>, a: usize, b: usize) -> (r: Vec<char>)
    requires
        a <= b <= v.len(),
    ensures
        r@ == v@.subrange(a as int, b as int),
{
    let mut r: Vec<char> = Vec::new();
    let mut i = a;
    while i < b
        invariant
            a <= i <= b <= v.len(),
            r@ == v@.subrange(a as int, i as int),
        decreases b - i,
    {
        r.push(v[i]);
        i = i + 1;
    }
    r
}


// ---------------------------------------------------------------------------
// Decimal numbers (`FromStr` for unsigned integers, and `Display`)
// ---------------------------------------------------------------------------

pub open spec fn is_digit(c: char) -> bool {
    '0' <= c <= '9'
}

pub open spec fn digit_val(c: char) -> nat {
    ((c as u32) - ('0' as u32)) as nat
}

pub open spec fn all_digits(s: Seq<char>) -> bool {
    forall|i: int| 0 <= i < s.len() ==> is_digit(#[trigger] s[i])
}

/// The number that a string of decimal digits denotes.
pub open spec fn digits_value(s: Seq<char>) -> nat
    decreases s.len(),
{
    if s.len() == 0 {
        0
    } else {
        digits_value(s.drop_last()) * 10 + digit_val(s.last())
    }
}

/// What `str::parse` gives for an unsigned integer type whose largest value is
/// `max`: an optional `+`, then one or more decimal digits, whose value fits.
pub open spec fn parse_uint(s: Seq<char>, max: nat) -> Option<nat> {
    let body = if s.len() > 0 && s[0] == '+' {
        s.drop_first()
    } else {
        s
    };
    if body.len() > 0 && all_digits(body) && digits_value(body) <= max {
        Some(digits_value(body))
    } else {
        None
    }
}

pub fn is_ascii_digit(c: char) -> (b: bool)
    ensures
        b == is_digit(c),
{
    '0' <= c && c <= '9'
}

proof fn lemma_digits_value_grows(s: Seq<char>, k: int)
    requires
        0 <= k <= s.len(),
        all_digits(s),
    ensures
        digits_value(s.take(k)) <= digits_value(s),
    decreases s.len() - k,
{
    if k < s.len() {
        assert(s.drop_last().take(k) =~= s.take(k));
        lemma_digits_value_grows(s.drop_last(), k);
    } else {
        assert(s.take(k) =~= s);
    }
}

/// Parses `v[a..b]` as an unsigned decimal number no larger than `max`,
/// with an optional leading `+`.
pub fn parse_uint_chars(v: &Vec<char>, a: usize, b: usize, max: u64) -> (r: Option<u64>)
    requires
        a <= b <= v.len(),
    ensures
        r == (match parse_uint(v@.subrange(a as int, b as int), max as nat) {
            Some(n) => Some(n as u64),
            None => None,
        }),
{
    let ghost s = v@.subrange(a as int, b as int);
    let mut start = a;
    if a < b && v[a] == '+' {
        start = a + 1;
    }
    let ghost body = v@.subrange(start as int, b as int);
    proof {
        if a < b && v@[a as int] == '+' {
            assert(s[0] == v@[a as int]);
            assert(body =~= s.drop_first());
        } else {
            if s.len() > 0 {
                assert(s[0] == v@[a as int]);
            }
            assert(body =~= s);
        }
    }
    if start == b {
        return None;
    }
    let mut acc: u64 = 0;
    let mut i = start;
    while i < b
        invariant
            a <= start <= i <= b <= v.len(),
            body == v@.subrange(start as int, b as int),
            s == v@.subrange(a as int, b as int),
            body == (if s.len() > 0 && s[0] == '+' { s.drop_first() } else { s }),
            all_digits(v@.subrange(start as int, i as int)),
            acc as nat == digits_value(v@.subrange(start as int, i as int)),
            acc <= max,
        decreases b - i,
    {
        let c = v[i];
        if !is_ascii_digit(c) {
            proof {
                assert(body[i - start] == c);
                assert(!is_digit(body[i - start]));
                assert(!all_digits(body));
            }
            return None;
        }
        let d = (c as u32 - '0' as u32) as u64;
        let ghost pre = v@.subrange(start as int, i as int);
        let ghost next = v@.subrange(start as int, i + 1);
        proof {
            assert(next.drop_last() =~= pre);
            assert(next.last() == c);
        }
        if d > max || acc > (max - d) / 10 {
            proof {
                if d <= max {
                    assert(acc * 10 + d > max) by (nonlinear_arith)
                        requires acc > (max - d) / 10, d <= max;
                }
                assert forall|j: int| 0 <= j < next.len() implies is_digit(#[trigger] next[j]) by {
                    if j < pre.len() {
                        assert(next[j] == pre[j]);
                    }
                }
                if all_digits(body) {
                    assert(body.take((i + 1 - start) as int) =~= next);
                    lemma_digits_value_grows(body, (i + 1 - start) as int);
                }
            }
            return None;
        }
        proof {
            assert(acc * 10 + d <= max) by (nonlinear_arith)
                requires acc <= (max - d) / 10, d <= max, acc >= 0;
            assert forall|j: int| 0 <= j < next.len() implies is_digit(#[trigger] next[j]) by {
                if j < pre.len() {
                    assert(next[j] == pre[j]);
                }
            }
        }
        acc = acc * 10 + d;
        i = i + 1;
    }
    Some(acc)
}


/// The digit character for `d < 10`.
pub open spec fn digit_char(d: nat) -> char {
    ((48 + d) as u8) as char
}

/// The decimal rendering of `n` (`Display` for unsigned integers).
pub open spec fn decimal(n: nat) -> Seq<char>
    decreases n,
{
    if n < 10 {
        seq![digit_char(n)]
    } else {
        decimal(n / 10).push(digit_char(n % 10))
    }
}

pub proof fn lemma_digit_char(d: nat)
    requires
        d < 10,
    ensures
        is_digit(digit_char(d)),
        digit_val(digit_char(d)) == d,
        digit_char(d) != '+',
{
    let b = (48 + d) as u8;
    assert(b as char as u32 == b as u32);
}

/// Different numbers have different decimal renderings.
pub proof fn lemma_decimal_unique(m: nat, n: nat)
    ensures
        decimal(m) == decimal(n) ==> m == n,
{
    lemma_decimal(m);
    lemma_decimal(n);
}

/// The rendering of a single digit is that digit.
pub proof fn lemma_decimal_digit(d: nat)
    requires
        d < 10,
    ensures
        decimal(d) == seq![digit_char(d)],
        digit_char(d) as u32 == 48 + d,
{
    lemma_digit_char(d);
    assert(decimal(d) =~= seq![digit_char(d)]);
}

/// A decimal rendering has no surrounding whitespace, so trimming keeps it.
pub proof fn lemma_decimal_trim(n: nat)
    ensures
        trim(decimal(n)) == decimal(n),
{
    lemma_decimal(n);
    let d = decimal(n);
    assert(is_digit(d[0]) && is_digit(d[d.len() - 1]));
    assert(trim_start(d) == d);
    assert(trim_end(d) == d);
}

/// Decimal renderings are nonempty digit strings that denote the number.
pub proof fn lemma_decimal(n: nat)
    ensures
        decimal(n).len() > 0,
        all_digits(decimal(n)),
        digits_value(decimal(n)) == n,
        decimal(n)[0] != '+',
    decreases n,
{
    if n < 10 {
        lemma_digit_char(n);
        let d = decimal(n);
        assert(d.drop_last() =~= Seq::<char>::empty());
        assert(digits_value(d.drop_last()) == 0);
        assert(d.last() == digit_char(n));
        assert(digits_value(d) == digits_value(d.drop_last()) * 10 + digit_val(d.last()));
    } else {
        lemma_decimal(n / 10);
        lemma_digit_char(n % 10);
        let d = decimal(n);
        assert(d.drop_last() =~= decimal(n / 10));
        assert(d[0] == decimal(n / 10)[0]);
        assert forall|i: int| 0 <= i < d.len() implies is_digit(#[trigger] d[i]) by {
            if i < d.len() - 1 {
                assert(d[i] == decimal(n / 10)[i]);
            }
        }
        assert(digits_value(d) == digits_value(decimal(n / 10)) * 10 + digit_val(d.last()));
        assert((n / 10) * 10 + n % 10 == n);
    }
}

/// Reading back what `decimal` wrote gives the number again.
pub proof fn lemma_parse_decimal(n: nat, max: nat)
    requires
        n <= max,
    ensures
        parse_uint(decimal(n), max) == Some(n),
{
    lemma_decimal(n);
}

pub fn digit_to_char(d: u64) -> (c: char)
    requires
        d < 10,
    ensures
        c == digit_char(d as nat),
{
    let b: u8 = 48 + d as u8;
    b as char
}

/// `n.to_string()` for an unsigned integer, as characters.
pub fn decimal_chars(n: u64) -> (r: Vec<char>)
    ensures
        r@ == decimal(n as nat),
    decreases n,
{
    if n < 10 {
        let mut r: Vec<char> = Vec::new();
        r.push(digit_to_char(n));
        r
    } else {
        let mut r = decimal_chars(n / 10);
        r.push(digit_to_char(n % 10));
        r
    }
}


// ---------------------------------------------------------------------------
// Prefix scans (`take_while`, `find`)
// ---------------------------------------------------------------------------

/// How many leading characters of `s` satisfy `p` (`chars().take_while(p)`).
pub open spec fn span_len(s: Seq<char>, p: spec_fn(char) -> bool) -> nat
    decreases s.len(),
{
    if s.len() > 0 && p(s[0]) {
        1 + span_len(s.drop_first(), p)
    } else {
        0
    }
}

/// The span is the first position whose character fails `p`.
pub proof fn lemma_span_len(s: Seq<char>, p: spec_fn(char) -> bool, k: int)
    requires
        0 <= k <= s.len(),
        forall|j: int| 0 <= j < k ==> p(#[trigger] s[j]),
        k == s.len() || !p(s[k]),
    ensures
        span_len(s, p) == k,
    decreases k,
{
    if k > 0 {
        let t = s.drop_first();
        assert forall|j: int| 0 <= j < k - 1 implies p(#[trigger] t[j]) by {
            assert(t[j] == s[j + 1]);
        }
        if k < s.len() {
            assert(t[k - 1] == s[k]);
        }
        lemma_span_len(t, p, k - 1);
    }
}

/// The first index of `c` in `s` (`str::find` / `split_once` on a character).
pub open spec fn find_char(s: Seq<char>, c: char) -> Option<nat>
    decreases s.len(),
{
    if s.len() == 0 {
        None
    } else if s[0] == c {
        Some(0)
    } else {
        match find_char(s.drop_first(), c) {
            Some(k) => Some(k + 1),
            None => None,
        }
    }
}

pub proof fn lemma_find_char_some(s: Seq<char>, c: char, k: int)
    requires
        0 <= k < s.len(),
        s[k] == c,
        forall|j: int| 0 <= j < k ==> #[trigger] s[j] != c,
    ensures
        find_char(s, c) == Some(k as nat),
    decreases k,
{
    if k > 0 {
        let t = s.drop_first();
        assert forall|j: int| 0 <= j < k - 1 implies #[trigger] t[j] != c by {
            assert(t[j] == s[j + 1]);
        }
        assert(t[k - 1] == s[k]);
        lemma_find_char_some(t, c, k - 1);
    }
}

pub proof fn lemma_find_char_none(s: Seq<char>, c: char)
    requires
        forall|j: int| 0 <= j < s.len() ==> #[trigger] s[j] != c,
    ensures
        find_char(s, c) == None::<nat>,
    decreases s.len(),
{
    if s.len() > 0 {
        let t = s.drop_first();
        assert forall|j: int| 0 <= j < t.len() implies #[trigger] t[j] != c by {
            assert(t[j] == s[j + 1]);
        }
        lemma_find_char_none(t, c);
    }
}

/// Position of the first `c` in `v[a..b]`, relative to `a`.
pub fn find_char_in(v: &Vec<char>, a: usize, b: usize, c: char) -> (r: Option<usize>)
    requires
        a <= b <= v.len(),
    ensures
        find_char(v@.subrange(a as int, b as int), c) == (match r {
            Some(k) => Some(k as nat),
            None => None,
        }),
        r matches Some(k) ==> a + k < b,
{
    let ghost s = v@.subrange(a as int, b as int);
    let mut i = a;
    while i < b
        invariant
            a <= i <= b <= v.len(),
            s == v@.subrange(a as int, b as int),
            forall|j: int| 0 <= j < i - a ==> #[trigger] s[j] != c,
        decreases b - i,
    {
        if v[i] == c {
            proof {
                assert(s[i - a] == c);
                lemma_find_char_some(s, c, i - a);
            }
            return Some(i - a);
        }
        proof {
            assert(s[i - a] == v@[i as int]);
        }
        i = i + 1;
    }
    proof {
        lemma_find_char_none(s, c);
    }
    None
}


pub proof fn lemma_span_len_bound(s: Seq<char>, p: spec_fn(char) -> bool)
    ensures
        span_len(s, p) <= s.len(),
    decreases s.len(),
{
    if s.len() > 0 && p(s[0]) {
        lemma_span_len_bound(s.drop_first(), p);
    }
}

// ---------------------------------------------------------------------------
// Lines (`str::lines`)
// ---------------------------------------------------------------------------

pub open spec fn not_newline() -> spec_fn(char) -> bool {
    |c: char| c != '\n'
}

/// A line ended by `\n` loses a `\r` just before it.
pub open spec fn strip_cr(l: Seq<char>) -> Seq<char> {
    if l.len() > 0 && l.last() == '\r' {
        l.drop_last()
    } else {
        l
    }
}

/// What `str::lines` yields: the text split at each `\n`, a `\r` right
/// before a `\n` dropped, and no empty line after a final `\n`.
pub open spec fn split_lines(s: Seq<char>) -> Seq<Seq<char>>
    decreases s.len(),
{
    if s.len() == 0 {
        Seq::empty()
    } else {
        let k = span_len(s, not_newline());
        proof {
            lemma_span_len_bound(s, not_newline());
        }
        if k == s.len() {
            seq![s]
        } else {
            seq![strip_cr(s.take(k as int))] + split_lines(s.skip(k as int + 1))
        }
    }
}

/// `str::lines`, each line as a character vector.
pub fn lines_of(v: &Vec<char>) -> (r: Vec<Vec<char>>)
    ensures
        r@.map_values(|l: Vec<char>| l@) == split_lines(v@),
{
    let n = v.len();
    let mut out: Vec<Vec<char>> = Vec::new();
    let mut pos: usize = 0;
    proof {
        assert(v@.skip(0) =~= v@);
        assert(out@.map_values(|l: Vec<char>| l@) =~= Seq::<Seq<char>>::empty());
        assert(Seq::<Seq<char>>::empty() + split_lines(v@) =~= split_lines(v@));
    }
    while pos < n
        invariant
            pos <= n == v.len(),
            out@.map_values(|l: Vec<char>| l@) + split_lines(v@.skip(pos as int)) == split_lines(v@),
        decreases n - pos,
    {
        let ghost rest = v@.skip(pos as int);
        let mut e = pos;
        while e < n && v[e] != '\n'
            invariant
                pos <= e <= n == v.len(),
                rest == v@.skip(pos as int),
                forall|j: int| 0 <= j < e - pos ==> (not_newline())(#[trigger] rest[j]),
            decreases n - e,
        {
            proof {
                assert(rest[e - pos] == v@[e as int]);
            }
            e = e + 1;
        }
        proof {
            if e < n {
                assert(rest[e - pos] == v@[e as int]);
            }
            lemma_span_len(rest, not_newline(), e - pos);
        }
        let ghost old_out = out@.map_values(|l: Vec<char>| l@);
        if e == n {
            let line = slice_chars(v, pos, n);
            out.push(line);
            proof {
                assert(rest =~= v@.subrange(pos as int, n as int));
                assert(split_lines(rest) == seq![rest]);
                assert(v@.skip(n as int) =~= Seq::<char>::empty());
                assert(out@.map_values(|l: Vec<char>| l@) =~= old_out.push(rest));
                assert(old_out + split_lines(rest) =~= old_out.push(rest) + split_lines(v@.skip(n as int)));
            }
            pos = n;
        } else {
            let mut end = e;
            if end > pos && v[end - 1] == '\r' {
                end = end - 1;
            }
            let line = slice_chars(v, pos, end);
            out.push(line);
            proof {
                let l = rest.take(e - pos);
                assert(l =~= v@.subrange(pos as int, e as int));
                if e > pos && v@[e - 1] == '\r' {
                    assert(l.last() == v@[e - 1]);
                    assert(strip_cr(l) =~= v@.subrange(pos as int, end as int));
                } else {
                    if e > pos {
                        assert(l.last() == v@[e - 1]);
                    }
                    assert(strip_cr(l) =~= v@.subrange(pos as int, end as int));
                }
                assert(rest.skip(e - pos + 1) =~= v@.skip(e + 1));
                assert(split_lines(rest) == seq![strip_cr(l)] + split_lines(v@.skip(e + 1)));
                assert(out@.map_values(|l: Vec<char>| l@) =~= old_out.push(strip_cr(l)));
                assert(old_out + split_lines(rest) =~= old_out.push(strip_cr(l)) + split_lines(v@.skip(e + 1)));
            }
            pos = e + 1;
        }
    }
    proof {
        assert(v@.skip(n as int) =~= Seq::<char>::empty());
        assert(split_lines(Seq::<char>::empty()) =~= Seq::<Seq<char>>::empty());
        assert(out@.map_values(|l: Vec<char>| l@) + Seq::<Seq<char>>::empty() =~= out@.map_values(|l: Vec<char>| l@));
    }
    out
}


// ---------------------------------------------------------------------------
// Prefixes, suffixes, concatenation
// ---------------------------------------------------------------------------

pub open spec fn starts_with(s: Seq<char>, p: Seq<char>) -> bool {
    p.len() <= s.len() && s.take(p.len() as int) == p
}

pub open spec fn ends_with(s: Seq<char>, p: Seq<char>) -> bool {
    p.len() <= s.len() && s.skip(s.len() - p.len()) == p
}

pub fn starts_with_chars(v: &Vec<char>, p: &Vec<char>) -> (b: bool)
    ensures
        b == starts_with(v@, p@),
{
    if p.len() > v.len() {
        return false;
    }
    let mut i: usize = 0;
    while i < p.len()
        invariant
            i <= p.len() <= v.len(),
            v@.take(i as int) == p@.take(i as int),
        decreases p.len() - i,
    {
        if v[i] != p[i] {
            proof {
                assert(v@.take(p.len() as int)[i as int] == v@[i as int]);
            }
            return false;
        }
        proof {
            assert(v@.take(i + 1) =~= v@.take(i as int).push(v@[i as int]));
            assert(p@.take(i + 1) =~= p@.take(i as int).push(p@[i as int]));
        }
        i = i + 1;
    }
    proof {
        assert(p@.take(p.len() as int) =~= p@);
    }
    true
}

pub fn ends_with_chars(v: &Vec<char>, p: &Vec<char>) -> (b: bool)
    ensures
        b == ends_with(v@, p@),
{
    if p.len() > v.len() {
        return false;
    }
    let off = v.len() - p.len();
    let mut i: usize = 0;
    while i < p.len()
        invariant
            i <= p.len() <= v.len(),
            off == v.len() - p.len(),
            forall|j: int| 0 <= j < i ==> v@[off + j] == p@[j],
        decreases p.len() - i,
    {
        if v[off + i] != p[i] {
            proof {
                assert(v@.skip(off as int)[i as int] == v@[off + i]);
            }
            return false;
        }
        i = i + 1;
    }
    proof {
        assert(v@.skip(off as int) =~= p@);
    }
    true
}

/// The characters of `a` followed by those of `b`.
pub fn concat_chars(a: &Vec<char>, b: &Vec<char>) -> (r: Vec<char>)
    ensures
        r@ == a@ + b@,
{
    let mut r: Vec<char> = Vec::new();
    let mut i: usize = 0;
    while i < a.len()
        invariant
            i <= a.len(),
            r@ == a@.take(i as int),
        decreases a.len() - i,
    {
        r.push(a[i]);
        i = i + 1;
        proof {
            assert(a@.take(i as int) =~= a@.take(i - 1).push(a@[i - 1]));
        }
    }
    let mut j: usize = 0;
    while j < b.len()
        invariant
            j <= b.len(),
            i == a.len(),
            r@ == a@ + b@.take(j as int),
        decreases b.len() - j,
    {
        r.push(b[j]);
        j = j + 1;
        proof {
            assert(b@.take(j as int) =~= b@.take(j - 1).push(b@[j - 1]));
        }
    }
    proof {
        assert(a@.take(a.len() as int) =~= a@);
        assert(b@.take(b.len() as int) =~= b@);
    }
    r
}

/// Strings made from character vectors.
pub fn strings_of(v: &Vec<Vec<char>>) -> (r: Vec<String>)
    ensures
        r@.map_values(|s: String| s@) == v@.map_values(|l: Vec<char>| l@),
{
    let mut r: Vec<String> = Vec::new();
    let mut i: usize = 0;
    while i < v.len()
        invariant
            i <= v.len(),
            r.len() == i,
            forall|j: int| 0 <= j < i ==> (#[trigger] r@[j])@ == v@[j]@,
        decreases v.len() - i,
    {
        r.push(string_from_chars(v[i].as_slice()));
        i = i + 1;
    }
    proof {
        assert(r@.map_values(|s: String| s@) =~= v@.map_values(|l: Vec<char>| l@));
    }
    r
}


// ---------------------------------------------------------------------------
// Substitution (`str::replace`)
// ---------------------------------------------------------------------------

/// `str::replace(from, to)` for a nonempty `from`: scanning left to right,
/// each occurrence of `from` that does not overlap an earlier replaced one
/// becomes `to`.
pub open spec fn replace_all(s: Seq<char>, from: Seq<char>, to: Seq<char>) -> Seq<char>
    decreases s.len(),
{
    if from.len() == 0 || s.len() < from.len() {
        s
    } else if s.take(from.len() as int) == from {
        to + replace_all(s.skip(from.len() as int), from, to)
    } else {
        seq![s[0]] + replace_all(s.drop_first(), from, to)
    }
}

/// Whether `from` occurs in `s`.
pub open spec fn occurs(s: Seq<char>, from: Seq<char>) -> bool {
    exists|i: int| 0 <= i && i + from.len() <= s.len() && #[trigger] s.subrange(i, i + from.len()) == from
}

/// Text without the pattern comes back unchanged.
pub proof fn lemma_replace_absent(s: Seq<char>, from: Seq<char>, to: Seq<char>)
    requires
        !occurs(s, from),
    ensures
        replace_all(s, from, to) == s,
    decreases s.len(),
{
    if from.len() > 0 && s.len() >= from.len() {
        assert(s.subrange(0int, 0int + from.len()) != from);
        assert(s.subrange(0int, 0int + from.len()) =~= s.take(from.len() as int));
        let t = s.drop_first();
        assert forall|i: int| 0 <= i && i + from.len() <= t.len() implies #[trigger] t.subrange(i, i + from.len()) != from by {
            assert(t.subrange(i, i + from.len()) =~= s.subrange(i + 1, i + 1 + from.len()));
        }
        lemma_replace_absent(t, from, to);
        assert(seq![s[0]] + t =~= s);
    }
}

/// Whether `from` occurs in `v` at position `i`.
fn matches_at(v: &Vec<char>, i: usize, from: &Vec<char>) -> (r: bool)
    requires
        i <= v.len(),
    ensures
        r == (i + from.len() <= v.len() && v@.skip(i as int).take(from.len() as int) == from@),
{
    let m = from.len();
    if m > v.len() - i {
        return false;
    }
    let mut j: usize = 0;
    while j < m
        invariant
            j <= m == from.len(),
            i + m <= v.len(),
            forall|k: int| 0 <= k < j ==> v@[i + k] == from@[k],
        decreases m - j,
    {
        if v[i + j] != from[j] {
            proof {
                assert(v@.skip(i as int).take(m as int)[j as int] == v@[i + j]);
            }
            return false;
        }
        j = j + 1;
    }
    proof {
        assert(v@.skip(i as int).take(m as int) =~= from@);
    }
    true
}

/// `str::replace` on character vectors, for a nonempty pattern.
pub fn replace_chars(v: &Vec<char>, from: &Vec<char>, to: &Vec<char>) -> (r: Vec<char>)
    requires
        from.len() > 0,
    ensures
        r@ == replace_all(v@, from@, to@),
{
    let n = v.len();
    let mut out: Vec<char> = Vec::new();
    let mut i: usize = 0;
    proof {
        assert(v@.skip(0) =~= v@);
        assert(Seq::<char>::empty() + replace_all(v@, from@, to@) =~= replace_all(v@, from@, to@));
    }
    while i < n
        invariant
            i <= n == v.len(),
            from.len() > 0,
            out@ + replace_all(v@.skip(i as int), from@, to@) == replace_all(v@, from@, to@),
        decreases n - i,
    {
        let ghost rest = v@.skip(i as int);
        let ghost before = out@;
        if matches_at(v, i, from) {
            let mut j: usize = 0;
            while j < to.len()
                invariant
                    j <= to.len(),
                    out@ == before + to@.take(j as int),
                decreases to.len() - j,
            {
                out.push(to[j]);
                j = j + 1;
                proof {
                    assert(to@.take(j as int) =~= to@.take(j - 1).push(to@[j - 1]));
                }
            }
            proof {
                assert(to@.take(to.len() as int) =~= to@);
                assert(rest.skip(from.len() as int) =~= v@.skip(i + from.len()));
                assert(before + replace_all(rest, from@, to@) =~= out@ + replace_all(v@.skip(i + from.len()), from@, to@));
            }
            i = i + from.len();
        } else {
            out.push(v[i]);
            proof {
                if rest.len() >= from.len() {
                    assert(rest.take(from.len() as int) != from@);
                }
                assert(rest[0] == v@[i as int]);
                assert(rest.drop_first() =~= v@.skip(i + 1));
                if rest.len() < from.len() {
                    assert(replace_all(rest, from@, to@) == rest);
                    assert(v@.skip(i + 1).len() < from.len());
                    assert(replace_all(v@.skip(i + 1), from@, to@) == v@.skip(i + 1));
                    assert(rest =~= seq![rest[0]] + rest.drop_first());
                }
                assert(before + replace_all(rest, from@, to@) =~= out@ + replace_all(v@.skip(i + 1), from@, to@));
            }
            i = i + 1;
        }
    }
    proof {
        assert(v@.skip(n as int) =~= Seq::<char>::empty());
        assert(out@ + Seq::<char>::empty() =~= out@);
    }
    out
}


/// Appends the characters of `s` to `out`.
pub fn push_all(out: &mut Vec<char>, s: &Vec<char>)
    ensures
        final(out)@ == old(out)@ + s@,
{
    let ghost before = out@;
    let mut j: usize = 0;
    while j < s.len()
        invariant
            j <= s.len(),
            out@ == before + s@.take(j as int),
        decreases s.len() - j,
    {
        out.push(s[j]);
        j = j + 1;
        proof {
            assert(s@.take(j as int) =~= s@.take(j - 1).push(s@[j - 1]));
        }
    }
    proof {
        assert(s@.take(s.len() as int) =~= s@);
    }
}

/// Appends the characters of a string slice to `out`.
pub fn push_str(out: &mut Vec<char>, s: &str)
    ensures
        final(out)@ == old(out)@ + s@,
{
    let cs = chars_of(s);
    push_all(out, &cs);
}

// ---------------------------------------------------------------------------
// Words (`str::split_whitespace`)
// ---------------------------------------------------------------------------

pub open spec fn not_ws() -> spec_fn(char) -> bool {
    |c: char| !is_ws(c)
}

/// What `str::split_whitespace` yields: the maximal runs of non-whitespace.
pub open spec fn words(s: Seq<char>) -> Seq<Seq<char>>
    decreases s.len(),
{
    let t = trim_start(s);
    proof {
        lemma_trim_start_len(s);
    }
    if t.len() == 0 {
        Seq::empty()
    } else {
        let k = span_len(t, not_ws());
        proof {
            lemma_span_len_bound(t, not_ws());
            lemma_trim_start_len(s);
            assert(k > 0);
        }
        seq![t.take(k as int)] + words(t.skip(k as int))
    }
}

pub proof fn lemma_trim_start_len(s: Seq<char>)
    ensures
        trim_start(s).len() <= s.len(),
        trim_start(s).len() > 0 ==> !is_ws(trim_start(s)[0]),
    decreases s.len(),
{
    if s.len() > 0 && is_ws(s[0]) {
        lemma_trim_start_len(s.drop_first());
    }
}

/// `str::split_whitespace` on a character vector.
pub fn words_of(v: &Vec<char>) -> (r: Vec<Vec<char>>)
    ensures
        r@.map_values(|l: Vec<char>| l@) == words(v@),
{
    let n = v.len();
    let mut out: Vec<Vec<char>> = Vec::new();
    let mut pos: usize = 0;
    proof {
        assert(v@.skip(0) =~= v@);
        assert(out@.map_values(|l: Vec<char>| l@) =~= Seq::<Seq<char>>::empty());
        assert(Seq::<Seq<char>>::empty() + words(v@) =~= words(v@));
    }
    loop
        invariant
            pos <= n == v.len(),
            out@.map_values(|l: Vec<char>| l@) + words(v@.skip(pos as int)) == words(v@),
        decreases n - pos,
    {
        let ghost rest = v@.skip(pos as int);
        let mut a = pos;
        while a < n && is_whitespace(v[a])
            invariant
                pos <= a <= n == v.len(),
                rest == v@.skip(pos as int),
                forall|j: int| 0 <= j < a - pos ==> is_ws(#[trigger] rest[j]),
            decreases n - a,
        {
            proof {
                assert(rest[a - pos] == v@[a as int]);
            }
            a = a + 1;
        }
        proof {
            lemma_trim_start_skip(rest, a - pos);
            let t0 = rest.skip(a - pos);
            assert(t0 =~= v@.skip(a as int));
            if a < n {
                assert(t0[0] == v@[a as int]);
            }
            assert(trim_start(t0) == t0);
        }
        if a == n {
            proof {
                assert(v@.skip(a as int).len() == 0);
                assert(words(rest) =~= Seq::<Seq<char>>::empty());
                assert(out@.map_values(|l: Vec<char>| l@) + Seq::<Seq<char>>::empty() =~= out@.map_values(|l: Vec<char>| l@));
            }
            return out;
        }
        let ghost t = v@.skip(a as int);
        let mut e = a;
        while e < n && !is_whitespace(v[e])
            invariant
                a <= e <= n == v.len(),
                t == v@.skip(a as int),
                forall|j: int| 0 <= j < e - a ==> (not_ws())(#[trigger] t[j]),
            decreases n - e,
        {
            proof {
                assert(t[e - a] == v@[e as int]);
            }
            e = e + 1;
        }
        proof {
            if e < n {
                assert(t[e - a] == v@[e as int]);
            }
            lemma_span_len(t, not_ws(), e - a);
        }
        let ghost before = out@.map_values(|l: Vec<char>| l@);
        let w = slice_chars(v, a, e);
        out.push(w);
        proof {
            assert(t.take(e - a) =~= w@);
            assert(t.skip(e - a) =~= v@.skip(e as int));
            assert(words(rest) == seq![w@] + words(v@.skip(e as int)));
            assert(out@.map_values(|l: Vec<char>| l@) =~= before.push(w@));
            assert(before + words(rest) =~= out@.map_values(|l: Vec<char>| l@) + words(v@.skip(e as int)));
        }
        pos = e;
    }
}

// ---------------------------------------------------------------------------
// Searching
// ---------------------------------------------------------------------------

/// The first position at which `p` occurs in `s` (`str::find`).
pub open spec fn find_sub(s: Seq<char>, p: Seq<char>) -> Option<nat>
    decreases s.len(),
{
    if p.len() <= s.len() && s.take(p.len() as int) == p {
        Some(0)
    } else if s.len() == 0 {
        None
    } else {
        match find_sub(s.drop_first(), p) {
            Some(k) => Some(k + 1),
            None => None,
        }
    }
}

/// `str::find` on character vectors.
pub fn find_sub_chars(v: &Vec<char>, p: &Vec<char>) -> (r: Option<usize>)
    ensures
        find_sub(v@, p@) == (match r {
            Some(k) => Some(k as nat),
            None => None,
        }),
        r matches Some(k) ==> k + p.len() <= v.len() && v@.subrange(k as int, k + p.len()) == p@,
{
    let n = v.len();
    let mut i: usize = 0;
    proof {
        assert(v@.skip(0) =~= v@);
    }
    loop
        invariant
            i <= n,
            n == v.len(),
            find_sub(v@, p@) == (match find_sub(v@.skip(i as int), p@) {
                Some(k) => Some((k + i) as nat),
                None => None,
            }),
        decreases n + 1 - i,
    {
        let ghost rest = v@.skip(i as int);
        if matches_at(v, i, p) {
            proof {
                assert(rest.take(p.len() as int) == p@);
                assert(v@.subrange(i as int, i + p.len()) =~= rest.take(p.len() as int));
            }
            return Some(i);
        }
        if i == n {
            proof {
                assert(rest.len() == 0);
            }
            return None;
        }
        proof {
            assert(rest.drop_first() =~= v@.skip(i + 1));
        }
        i = i + 1;
    }
}

/// Whether `p` occurs in `s` (`str::contains`).
pub open spec fn contains_sub(s: Seq<char>, p: Seq<char>) -> bool {
    find_sub(s, p) is Some
}

/// The ASCII lowercase of a character (`char::to_ascii_lowercase`).
pub open spec fn ascii_lower(c: char) -> char {
    if 'A' <= c <= 'Z' {
        ((c as u32) + 32) as char
    } else {
        c
    }
}

pub fn to_ascii_lower(c: char) -> (r: char)
    ensures
        r == ascii_lower(c),
{
    if 'A' <= c && c <= 'Z' {
        let b: u8 = c as u8 + 32;
        proof {
            assert(c as u32 + 32 == b as u32);
        }
        b as char
    } else {
        c
    }
}

/// Whether `s` starts with the lowercase ASCII word `w`, ignoring case.
pub open spec fn starts_with_ci(s: Seq<char>, w: Seq<char>) -> bool {
    w.len() <= s.len() && forall|i: int| 0 <= i < w.len() ==> ascii_lower(#[trigger] s[i]) == w[i]
}

pub fn starts_with_ci_chars(v: &Vec<char>, w: &Vec<char>) -> (r: bool)
    ensures
        r == starts_with_ci(v@, w@),
{
    if w.len() > v.len() {
        return false;
    }
    let mut i: usize = 0;
    while i < w.len()
        invariant
            i <= w.len() <= v.len(),
            forall|j: int| 0 <= j < i ==> ascii_lower(#[trigger] v@[j]) == w@[j],
        decreases w.len() - i,
    {
        if to_ascii_lower(v[i]) != w[i] {
            return false;
        }
        i = i + 1;
    }
    true
}

/// Whether `s` equals the lowercase ASCII word `w`, ignoring case.
pub open spec fn eq_ci(s: Seq<char>, w: Seq<char>) -> bool {
    s.len() == w.len() && starts_with_ci(s, w)
}


/// Whether the characters spell the given text.
pub fn is_text(v: &Vec<char>, s: &str) -> (r: bool)
    ensures
        r == (v@ == s@),
{
    let w = chars_of(s);
    if v.len() != w.len() {
        return false;
    }
    let mut i: usize = 0;
    while i < v.len()
        invariant
            i <= v.len() == w.len(),
            w@ == s@,
            forall|j: int| 0 <= j < i ==> v@[j] == w@[j],
        decreases v.len() - i,
    {
        if v[i] != w[i] {
            return false;
        }
        i = i + 1;
    }
    proof {
        assert(v@ =~= w@);
    }
    true
}

/// Whether the characters equal, ignoring ASCII case, the given lowercase
/// ASCII word.
pub fn is_text_ci(v: &Vec<char>, s: &str) -> (r: bool)
    ensures
        r == eq_ci(v@, s@),
{
    let w = chars_of(s);
    if v.len() != w.len() {
        return false;
    }
    starts_with_ci_chars(v, &w)
}

} // verus!
