//! PHP version discovery: which `phpX.Y` versions a list of package or file
//! names mentions, as a sorted list without repetitions.
use vstd::prelude::*;
use crate::text::{words, words_of, is_text, push_str, find_sub_chars, contains_sub, split_lines, lines_of, strings_of, starts_with, starts_with_chars, concat_chars, is_ws, trim_start, trim_end, lemma_decimal, lemma_parse_decimal, lemma_find_char_some, all_digits, chars_of, string_from_chars, decimal, decimal_chars, trim, trim_bounds, is_digit, span_len, lemma_span_len, find_char, find_char_in, parse_uint, parse_uint_chars, is_ascii_digit};

verus! {

pub open spec fn digit_or_dot() -> spec_fn(char) -> bool {
    |c: char| is_digit(c) || c == '.'
}

pub open spec fn digit_only() -> spec_fn(char) -> bool {
    |c: char| is_digit(c)
}

/// The `(major, minor)` version that a package name such as `php8.1-cli`
/// names: after trimming, `php`, then a digit; the longest run of digits and
/// dots after `php` is split at its first dot; the major part and the leading
/// digits of the minor part must both parse as `u32`.
pub open spec fn version_of(pkg: Seq<char>) -> Option<(u32, u32)> {
    let t = trim(pkg);
    if t.len() > 3 && t[0] == 'p' && t[1] == 'h' && t[2] == 'p' && is_digit(t[3]) {
        let rest = t.skip(3);
        let vs = rest.take(span_len(rest, digit_or_dot()) as int);
        match find_char(vs, '.') {
            Some(k) => {
                let minor_str = vs.skip(k as int + 1);
                let minor = minor_str.take(span_len(minor_str, digit_only()) as int);
                match (
                    parse_uint(vs.take(k as int), u32::MAX as nat),
                    parse_uint(minor, u32::MAX as nat),
                ) {
                    (Some(x), Some(y)) => Some((x as u32, y as u32)),
                    _ => None,
                }
            },
            None => None,
        }
    } else {
        None
    }
}

/// The version named by `v@`, computed.
pub fn version_of_chars(v: &Vec<char>) -> (r: Option<(u32, u32)>)
    ensures
        r == version_of(v@),
{
    let (a, b) = trim_bounds(v);
    let ghost t = v@.subrange(a as int, b as int);
    if b - a <= 3 || v[a] != 'p' || v[a + 1] != 'h' || v[a + 2] != 'p' || !is_ascii_digit(v[a + 3]) {
        proof {
            if b - a > 3 {
                assert(t[0] == v@[a as int] && t[1] == v@[a + 1] && t[2] == v@[a + 2]);
                assert(t[3] == v@[a + 3]);
            }
        }
        return None;
    }
    proof {
        assert(t[0] == v@[a as int] && t[1] == v@[a + 1] && t[2] == v@[a + 2]);
        assert(t[3] == v@[a + 3]);
    }
    let r0 = a + 3;
    let ghost rest = t.skip(3);
    assert(rest =~= v@.subrange(r0 as int, b as int));
    let mut e = r0;
    while e < b && (is_ascii_digit(v[e]) || v[e] == '.')
        invariant
            r0 <= e <= b <= v.len(),
            rest == v@.subrange(r0 as int, b as int),
            forall|j: int| 0 <= j < e - r0 ==> (digit_or_dot())(#[trigger] rest[j]),
        decreases b - e,
    {
        proof {
            assert(rest[e - r0] == v@[e as int]);
        }
        e = e + 1;
    }
    proof {
        if e < b {
            assert(rest[e - r0] == v@[e as int]);
        }
        lemma_span_len(rest, digit_or_dot(), e - r0);
    }
    let ghost vs = rest.take(e - r0);
    assert(vs =~= v@.subrange(r0 as int, e as int));
    match find_char_in(v, r0, e, '.') {
        None => {
            proof {
                assert(trim(v@) == t);
            }
            None
        },
        Some(k) => {
            let m0 = r0 + k + 1;
            let ghost minor_str = vs.skip(k + 1);
            assert(minor_str =~= v@.subrange(m0 as int, e as int));
            let mut m1 = m0;
            while m1 < e && is_ascii_digit(v[m1])
                invariant
                    m0 <= m1 <= e <= v.len(),
                    minor_str == v@.subrange(m0 as int, e as int),
                    forall|j: int| 0 <= j < m1 - m0 ==> (digit_only())(#[trigger] minor_str[j]),
                decreases e - m1,
            {
                proof {
                    assert(minor_str[m1 - m0] == v@[m1 as int]);
                }
                m1 = m1 + 1;
            }
            proof {
                if m1 < e {
                    assert(minor_str[m1 - m0] == v@[m1 as int]);
                }
                lemma_span_len(minor_str, digit_only(), m1 - m0);
                assert(vs.take(k as int) =~= v@.subrange(r0 as int, r0 + k));
                assert(minor_str.take(m1 - m0) =~= v@.subrange(m0 as int, m1 as int));
            }
            let major = parse_uint_chars(v, r0, r0 + k, 0xffff_ffffu64);
            let minor = parse_uint_chars(v, m0, m1, 0xffff_ffffu64);
            proof {
                assert(trim(v@) == t);
                assert(find_char(vs, '.') == Some(k as nat));
                let ms = minor_str.take(span_len(minor_str, digit_only()) as int);
                assert(ms == v@.subrange(m0 as int, m1 as int));
                assert(vs.take(k as int) == v@.subrange(r0 as int, r0 + k));
            }
            match (major, minor) {
                (Some(x), Some(y)) => Some((x as u32, y as u32)),
                _ => None,
            }
        },
    }
}


// ---------------------------------------------------------------------------
// Sorted sets of versions
// ---------------------------------------------------------------------------

/// The order of `(major, minor)` pairs: by major, then by minor.
pub open spec fn pair_lt(a: (u32, u32), b: (u32, u32)) -> bool {
    a.0 < b.0 || (a.0 == b.0 && a.1 < b.1)
}

/// Each element is smaller than every later one: sorted, without repetitions.
pub open spec fn strictly_sorted(vs: Seq<(u32, u32)>) -> bool {
    forall|i: int, j: int| 0 <= i < j < vs.len() ==> pair_lt(#[trigger] vs[i], #[trigger] vs[j])
}

/// The character sequences of a list of strings.
pub open spec fn views(v: Seq<String>) -> Seq<Seq<char>> {
    v.map_values(|s: String| s@)
}

/// Every version that some name of `pkgs` names.
pub open spec fn version_set(pkgs: Seq<Seq<char>>) -> Set<(u32, u32)> {
    Set::new(|x: (u32, u32)| exists|i: int| 0 <= i < pkgs.len() && version_of(pkgs[i]) == Some(x))
}

/// How many elements of `s` are smaller than `x`.
pub open spec fn count_lt(s: Seq<(u32, u32)>, x: (u32, u32)) -> nat
    decreases s.len(),
{
    if s.len() == 0 {
        0
    } else {
        count_lt(s.drop_last(), x) + (if pair_lt(s.last(), x) { 1nat } else { 0nat })
    }
}

/// `BTreeSet::insert` on the sorted sequence of a set.
pub open spec fn insert_version(s: Seq<(u32, u32)>, x: (u32, u32)) -> Seq<(u32, u32)> {
    if s.contains(x) {
        s
    } else {
        s.insert(count_lt(s, x) as int, x)
    }
}

/// The versions named in `pkgs`, each once, in increasing order: the contents
/// of a `BTreeSet` into which the version of each name is inserted in turn.
pub open spec fn sorted_versions(pkgs: Seq<Seq<char>>) -> Seq<(u32, u32)>
    decreases pkgs.len(),
{
    if pkgs.len() == 0 {
        Seq::empty()
    } else {
        match version_of(pkgs.last()) {
            Some(x) => insert_version(sorted_versions(pkgs.drop_last()), x),
            None => sorted_versions(pkgs.drop_last()),
        }
    }
}

/// `format!("{}.{}", major, minor)`.
pub open spec fn render_version(v: (u32, u32)) -> Seq<char> {
    decimal(v.0 as nat) + seq!['.'] + decimal(v.1 as nat)
}

proof fn lemma_count_lt(s: Seq<(u32, u32)>, x: (u32, u32), p: int)
    requires
        0 <= p <= s.len(),
        forall|j: int| 0 <= j < p ==> pair_lt(#[trigger] s[j], x),
        forall|j: int| p <= j < s.len() ==> !pair_lt(#[trigger] s[j], x),
    ensures
        count_lt(s, x) == p,
    decreases s.len(),
{
    if s.len() > 0 {
        let t = s.drop_last();
        if p == s.len() {
            assert forall|j: int| 0 <= j < p - 1 implies pair_lt(#[trigger] t[j], x) by {
                assert(t[j] == s[j]);
            }
            lemma_count_lt(t, x, p - 1);
        } else {
            assert forall|j: int| 0 <= j < p implies pair_lt(#[trigger] t[j], x) by {
                assert(t[j] == s[j]);
            }
            assert forall|j: int| p <= j < t.len() implies !pair_lt(#[trigger] t[j], x) by {
                assert(t[j] == s[j]);
            }
            lemma_count_lt(t, x, p);
        }
    }
}

/// The first position of a strictly sorted `s` whose element is not smaller
/// than `x` is `count_lt(s, x)`.
proof fn lemma_insert_position(s: Seq<(u32, u32)>, x: (u32, u32), p: int)
    requires
        strictly_sorted(s),
        0 <= p <= s.len(),
        forall|j: int| 0 <= j < p ==> pair_lt(#[trigger] s[j], x),
        p == s.len() || !pair_lt(s[p], x),
    ensures
        count_lt(s, x) == p,
        forall|j: int| p <= j < s.len() ==> !pair_lt(#[trigger] s[j], x),
{
    assert forall|j: int| p <= j < s.len() implies !pair_lt(#[trigger] s[j], x) by {
        if j > p {
            assert(pair_lt(s[p], s[j]));
        }
    }
    lemma_count_lt(s, x, p);
}

/// Inserting keeps the sequence strictly sorted and adds exactly `x`.
pub proof fn lemma_insert_version(s: Seq<(u32, u32)>, x: (u32, u32))
    requires
        strictly_sorted(s),
    ensures
        strictly_sorted(insert_version(s, x)),
        forall|y: (u32, u32)| insert_version(s, x).contains(y) <==> (s.contains(y) || y == x),
{
    if !s.contains(x) {
        let p = count_lt(s, x) as int;
        let q = first_not_less(s, x);
        lemma_insert_position(s, x, q);
        let r = s.insert(p, x);
        assert forall|i: int, j: int| 0 <= i < j < r.len() implies pair_lt(#[trigger] r[i], #[trigger] r[j]) by {
            if j < p {
                assert(r[i] == s[i] && r[j] == s[j]);
            } else if j == p {
                assert(r[i] == s[i]);
            } else if i == p {
                assert(r[j] == s[j - 1]);
                assert(!pair_lt(s[j - 1], x));
                assert(s[j - 1] != x);
            } else if i < p {
                assert(r[i] == s[i] && r[j] == s[j - 1]);
                assert(!pair_lt(s[j - 1], x));
                assert(s[j - 1] != x);
            } else {
                assert(r[i] == s[i - 1] && r[j] == s[j - 1]);
            }
        }
        assert forall|y: (u32, u32)| r.contains(y) <==> (s.contains(y) || y == x) by {
            if r.contains(y) {
                let k = choose|k: int| 0 <= k < r.len() && r[k] == y;
                if k < p {
                    assert(s[k] == y);
                } else if k > p {
                    assert(s[k - 1] == y);
                }
            }
            if s.contains(y) {
                let k = choose|k: int| 0 <= k < s.len() && s[k] == y;
                if k < p {
                    assert(r[k] == y);
                } else {
                    assert(r[k + 1] == y);
                }
            }
            if y == x {
                assert(r[p] == x);
            }
        }
    }
}

/// Every sequence has a first position whose element is not smaller than `x`.
proof fn first_not_less(s: Seq<(u32, u32)>, x: (u32, u32)) -> (q: int)
    ensures
        0 <= q <= s.len(),
        forall|j: int| 0 <= j < q ==> pair_lt(#[trigger] s[j], x),
        q == s.len() || !pair_lt(s[q], x),
    decreases s.len(),
{
    if s.len() == 0 {
        0
    } else {
        let t = s.drop_last();
        let q = first_not_less(t, x);
        assert forall|j: int| 0 <= j < q implies pair_lt(#[trigger] s[j], x) by {
            assert(s[j] == t[j]);
        }
        if q < t.len() {
            assert(s[q] == t[q]);
            q
        } else if pair_lt(s.last(), x) {
            assert forall|j: int| 0 <= j < s.len() implies pair_lt(#[trigger] s[j], x) by {
                if j < t.len() {
                    assert(s[j] == t[j]);
                }
            }
            s.len() as int
        } else {
            q
        }
    }
}

/// The listing is strictly increasing and holds exactly the versions named.
pub proof fn lemma_sorted_versions(pkgs: Seq<Seq<char>>)
    ensures
        strictly_sorted(sorted_versions(pkgs)),
        forall|y: (u32, u32)| sorted_versions(pkgs).contains(y) <==> version_set(pkgs).contains(y),
        sorted_versions(pkgs).to_set() == version_set(pkgs),
    decreases pkgs.len(),
{
    if pkgs.len() > 0 {
        let t = pkgs.drop_last();
        lemma_sorted_versions(t);
        if let Some(x) = version_of(pkgs.last()) {
            lemma_insert_version(sorted_versions(t), x);
        }
        assert forall|y: (u32, u32)| sorted_versions(pkgs).contains(y) <==> version_set(pkgs).contains(y) by {
            if version_set(t).contains(y) {
                let j = choose|j: int| 0 <= j < t.len() && version_of(t[j]) == Some(y);
                assert(pkgs[j] == t[j]);
            }
            if version_set(pkgs).contains(y) {
                let j = choose|j: int| 0 <= j < pkgs.len() && version_of(pkgs[j]) == Some(y);
                if j < t.len() {
                    assert(pkgs[j] == t[j]);
                    assert(version_set(t).contains(y));
                }
            }
            if version_of(pkgs.last()) == Some(y) {
                assert(version_of(pkgs[pkgs.len() - 1]) == Some(y));
            }
        }
    }
    assert(sorted_versions(pkgs).to_set() =~= version_set(pkgs));
}

/// Two strictly sorted sequences with the same elements are equal.
#[verifier::spinoff_prover]
pub proof fn lemma_sorted_unique(a: Seq<(u32, u32)>, b: Seq<(u32, u32)>)
    requires
        strictly_sorted(a),
        strictly_sorted(b),
        a.to_set() == b.to_set(),
    ensures
        a == b,
    decreases a.len(),
{
    if a.len() == 0 {
        if b.len() > 0 {
            assert(b.to_set().contains(b[0]));
        }
        assert(a =~= b);
    } else {
        assert(a.to_set().contains(a[0]));
        if b.len() == 0 {
            assert(false);
        }
        assert(b.to_set().contains(b[0]));
        let j = choose|j: int| 0 <= j < b.len() && b[j] == a[0];
        let k = choose|k: int| 0 <= k < a.len() && a[k] == b[0];
        if j > 0 {
            assert(pair_lt(b[0], b[j]));
            if k > 0 {
                assert(pair_lt(a[0], a[k]));
            }
            assert(false);
        }
        let a1 = a.drop_first();
        let b1 = b.drop_first();
        assert forall|x: (u32, u32)| a1.to_set().contains(x) implies b1.to_set().contains(x) by {
            let i = choose|i: int| 0 <= i < a1.len() && a1[i] == x;
            assert(a[i + 1] == x);
            assert(pair_lt(a[0], a[i + 1]));
            assert(b.to_set().contains(x));
            let m = choose|m: int| 0 <= m < b.len() && b[m] == x;
            assert(m != 0);
            assert(b1[m - 1] == x);
        }
        assert forall|x: (u32, u32)| b1.to_set().contains(x) implies a1.to_set().contains(x) by {
            let i = choose|i: int| 0 <= i < b1.len() && b1[i] == x;
            assert(b[i + 1] == x);
            assert(pair_lt(b[0], b[i + 1]));
            assert(a.to_set().contains(x));
            let m = choose|m: int| 0 <= m < a.len() && a[m] == x;
            assert(m != 0);
            assert(a1[m - 1] == x);
        }
        assert(a1.to_set() =~= b1.to_set());
        lemma_sorted_unique(a1, b1);
        assert(b[j] == a[0]);
        assert(a1.len() == b1.len());
        assert(a.len() == b.len());
        assert forall|i: int| 0 <= i < a.len() implies a[i] == b[i] by {
            if i > 0 {
                assert(a[i] == a1[i - 1]);
                assert(b[i] == b1[i - 1]);
            }
        }
        assert(a =~= b);
    }
}

/// The text of a version, `major.minor`.
pub fn render_version_string(v: (u32, u32)) -> (s: String)
    ensures
        s@ == render_version(v),
{
    let mut cs = decimal_chars(v.0 as u64);
    cs.push('.');
    let minor = decimal_chars(v.1 as u64);
    let mut i: usize = 0;
    let ghost head = cs@;
    while i < minor.len()
        invariant
            i <= minor.len(),
            cs@ == head + minor@.take(i as int),
        decreases minor.len() - i,
    {
        cs.push(minor[i]);
        i = i + 1;
    }
    proof {
        assert(minor@.take(minor.len() as int) =~= minor@);
        assert(head =~= decimal(v.0 as nat) + seq!['.']);
    }
    string_from_chars(cs.as_slice())
}

/// The PHP versions named in `pkg_list` (such as `php8.1`, `php8.1-cli`), each
/// once and in increasing order, written `major.minor`.
pub fn sort_versions(pkg_list: Vec<String>) -> (r: Vec<String>)
    ensures
        strictly_sorted(sorted_versions(views(pkg_list@))),
        sorted_versions(views(pkg_list@)).to_set() == version_set(views(pkg_list@)),
        views(r@) == sorted_versions(views(pkg_list@)).map_values(|v: (u32, u32)| render_version(v)),
{
    let ghost pkgs = views(pkg_list@);
    let acc = crate::orden::versiones_ordenadas(&pkg_list);
    proof {
        lemma_sorted_versions(pkgs);
    }
    let mut out: Vec<String> = Vec::new();
    let m = acc.len();
    let mut k: usize = 0;
    while k < m
        invariant
            k <= m == acc.len(),
            out.len() == k,
            forall|j: int| 0 <= j < k ==> (#[trigger] out@[j])@ == render_version(acc@[j]),
        decreases m - k,
    {
        out.push(render_version_string(acc[k]));
        k = k + 1;
    }
    proof {
        assert(views(out@) =~= acc@.map_values(|v: (u32, u32)| render_version(v)));
    }
    out
}


/// The package name `php<major>.<minor>` of a version.
pub open spec fn php_name(v: (u32, u32)) -> Seq<char> {
    seq!['p', 'h', 'p'] + render_version(v)
}

/// Listing the versions of two lists joined in either order gives the same
/// list.
pub proof fn lemma_sorted_versions_join(a: Seq<Seq<char>>, b: Seq<Seq<char>>)
    ensures
        sorted_versions(a + b) == sorted_versions(b + a),
{
    lemma_sorted_versions(a + b);
    lemma_sorted_versions(b + a);
    assert forall|y: (u32, u32)| version_set(a + b).contains(y) <==> version_set(b + a).contains(y) by {
        if version_set(a + b).contains(y) {
            let i = choose|i: int| 0 <= i < (a + b).len() && version_of((a + b)[i]) == Some(y);
            if i < a.len() {
                assert((b + a)[b.len() + i] == a[i]);
            } else {
                assert((b + a)[i - a.len()] == b[i - a.len()]);
            }
        }
        if version_set(b + a).contains(y) {
            let i = choose|i: int| 0 <= i < (b + a).len() && version_of((b + a)[i]) == Some(y);
            if i < b.len() {
                assert((a + b)[a.len() + i] == b[i]);
            } else {
                assert((a + b)[i - b.len()] == a[i - b.len()]);
            }
        }
    }
    assert(version_set(a + b) =~= version_set(b + a));
    lemma_sorted_unique(sorted_versions(a + b), sorted_versions(b + a));
}

/// A version's package name names that version again.
#[verifier::spinoff_prover]
#[verifier::rlimit(40)]
pub proof fn lemma_version_of_php_name(v: (u32, u32))
    ensures
        version_of(php_name(v)) == Some(v),
{
    let da = decimal(v.0 as nat);
    let db = decimal(v.1 as nat);
    lemma_decimal(v.0 as nat);
    lemma_decimal(v.1 as nat);
    lemma_parse_decimal(v.0 as nat, u32::MAX as nat);
    lemma_parse_decimal(v.1 as nat, u32::MAX as nat);
    let name = php_name(v);
    let rest = da + seq!['.'] + db;
    assert(name =~= seq!['p', 'h', 'p'] + rest);
    assert(name[0] == 'p');
    assert(!is_ws(name[0]));
    assert(trim_start(name) == name);
    assert(name.last() == db.last());
    assert(is_digit(db[db.len() - 1]));
    assert(trim_end(name) == name);
    assert(name[3] == da[0]);
    assert(name.skip(3) =~= rest);
    assert forall|j: int| 0 <= j < rest.len() implies (digit_or_dot())(#[trigger] rest[j]) by {
        if j < da.len() {
            assert(rest[j] == da[j]);
        } else if j > da.len() {
            assert(rest[j] == db[j - da.len() - 1]);
        }
    }
    lemma_span_len(rest, digit_or_dot(), rest.len() as int);
    assert(rest.take(rest.len() as int) =~= rest);
    assert forall|j: int| 0 <= j < da.len() implies #[trigger] rest[j] != '.' by {
        assert(rest[j] == da[j]);
    }
    assert(rest[da.len() as int] == '.');
    lemma_find_char_some(rest, '.', da.len() as int);
    assert(rest.take(da.len() as int) =~= da);
    assert(rest.skip(da.len() as int + 1) =~= db);
    assert forall|j: int| 0 <= j < db.len() implies (digit_only())(#[trigger] db[j]) by {}
    lemma_span_len(db, digit_only(), db.len() as int);
    assert(db.take(db.len() as int) =~= db);
}

/// Renaming each listed version `php<major>.<minor>` and listing again gives
/// the same list: the listing is a fixed point of renaming and relisting.
pub proof fn lemma_versions_relist(pkgs: Seq<Seq<char>>)
    ensures
        sorted_versions(sorted_versions(pkgs).map_values(|v: (u32, u32)| php_name(v)))
            == sorted_versions(pkgs),
{
    let vs = sorted_versions(pkgs);
    let names = vs.map_values(|v: (u32, u32)| php_name(v));
    lemma_sorted_versions(pkgs);
    lemma_sorted_versions(names);
    assert forall|y: (u32, u32)| sorted_versions(names).contains(y) <==> vs.contains(y) by {
        if version_set(names).contains(y) {
            let j = choose|j: int| 0 <= j < names.len() && version_of(names[j]) == Some(y);
            lemma_version_of_php_name(vs[j]);
        }
        if vs.contains(y) {
            let j = choose|j: int| 0 <= j < vs.len() && vs[j] == y;
            lemma_version_of_php_name(vs[j]);
            assert(version_of(names[j]) == Some(y));
            assert(version_set(names).contains(y));
        }
    }
    assert(sorted_versions(names).to_set() =~= vs.to_set());
    lemma_sorted_unique(sorted_versions(names), vs);
}


// ---------------------------------------------------------------------------
// Where the names come from
// ---------------------------------------------------------------------------

pub open spec fn php_prefix() -> Seq<char> {
    seq!['p', 'h', 'p']
}

/// The versions listed by `apt-cache pkgnames php`: nothing when the command
/// failed, else the versions named by the lines of its output.
pub open spec fn installable_php(listing: Seq<char>, exito: bool) -> Seq<(u32, u32)> {
    if exito {
        sorted_versions(split_lines(listing))
    } else {
        Seq::empty()
    }
}

/// PHP versions that apt can install, from the output of
/// `apt-cache pkgnames php` and whether that command succeeded.
pub fn get_installable_php(listing: &str, exito: bool) -> (r: Vec<String>)
    ensures
        views(r@) == installable_php(listing@, exito).map_values(|v: (u32, u32)| render_version(v)),
{
    if !exito {
        let r: Vec<String> = Vec::new();
        proof {
            assert(views(r@) =~= Seq::<(u32, u32)>::empty().map_values(|v: (u32, u32)| render_version(v)));
        }
        return r;
    }
    let cs = chars_of(listing);
    let lines = lines_of(&cs);
    let paquetes = strings_of(&lines);
    proof {
        assert(views(paquetes@) == split_lines(listing@));
    }
    sort_versions(paquetes)
}

/// The installed packages that `dpkg -l` lists: on each line whose first
/// word is `ii` (desired: install, status: installed), the second word.
pub open spec fn dpkg_installed(ls: Seq<Seq<char>>) -> Seq<Seq<char>>
    decreases ls.len(),
{
    if ls.len() == 0 {
        Seq::empty()
    } else {
        let w = words(ls.last());
        let before = dpkg_installed(ls.drop_last());
        if w.len() >= 2 && w[0] == "ii"@ {
            before.push(w[1])
        } else {
            before
        }
    }
}

/// The names of the installed packages, from the output of `dpkg -l`.
pub fn paquetes_instalados(listado: &str) -> (r: Vec<String>)
    ensures
        views(r@) == dpkg_installed(split_lines(listado@)),
{
    let v = chars_of(listado);
    let lines = lines_of(&v);
    let ghost ls = split_lines(listado@);
    let mut r: Vec<String> = Vec::new();
    let mut i: usize = 0;
    while i < lines.len()
        invariant
            i <= lines.len(),
            lines@.map_values(|l: Vec<char>| l@) == ls,
            views(r@) == dpkg_installed(ls.take(i as int)),
        decreases lines.len() - i,
    {
        proof {
            assert(ls.take(i + 1).drop_last() =~= ls.take(i as int));
            assert(ls.take(i + 1).last() == lines@[i as int]@);
        }
        let parts = words_of(&lines[i]);
        proof {
            assert(words(lines@[i as int]@).len() == parts@.len());
        }
        if parts.len() >= 2 && is_text(&parts[0], "ii") {
            let ghost before = views(r@);
            r.push(string_from_chars(parts[1].as_slice()));
            proof {
                assert(words(lines@[i as int]@)[0] == parts@[0]@);
                assert(words(lines@[i as int]@)[1] == parts@[1]@);
                assert(views(r@) =~= before.push(parts@[1]@));
            }
        } else {
            proof {
                if parts.len() >= 2 {
                    assert(words(lines@[i as int]@)[0] == parts@[0]@);
                }
            }
        }
        i = i + 1;
    }
    proof {
        assert(ls.take(lines.len() as int) =~= ls);
    }
    r
}

/// The names that start with `php`, in order.
pub open spec fn php_named(names: Seq<Seq<char>>) -> Seq<Seq<char>> {
    names.filter(|n: Seq<char>| starts_with(n, php_prefix()))
}

/// PHP versions installed, from the names of the installed packages
/// (`paquetes_instalados`): the versions named by the names that start
/// with `php`.
pub fn get_installed_php(entries: Vec<String>) -> (r: Vec<String>)
    ensures
        views(r@) == sorted_versions(php_named(views(entries@))).map_values(|v: (u32, u32)| render_version(v)),
{
    let php = chars_of("php");
    proof {
        reveal_strlit("php");
        assert(php@ =~= php_prefix());
    }
    let ghost names = views(entries@);
    let mut paquetes: Vec<String> = Vec::new();
    let mut i: usize = 0;
    while i < entries.len()
        invariant
            i <= entries.len(),
            names == views(entries@),
            php@ == php_prefix(),
            views(paquetes@) == php_named(names.take(i as int)),
        decreases entries.len() - i,
    {
        let cs = chars_of(entries[i].as_str());
        let keep = starts_with_chars(&cs, &php);
        proof {
            reveal_with_fuel(Seq::<_>::filter, 1);
            assert(names.take(i + 1).drop_last() =~= names.take(i as int));
            assert(names[i as int] == cs@);
        }
        if keep {
            let ghost before = views(paquetes@);
            paquetes.push(entries[i].clone());
            proof {
                assert(views(paquetes@) =~= before.push(cs@));
            }
        }
        i = i + 1;
    }
    proof {
        assert(names.take(entries.len() as int) =~= names);
    }
    sort_versions(paquetes)
}

/// The package names `php<dir>` of the directories of `/etc/php` that hold
/// an `fpm` directory.
pub open spec fn fpm_names(dirs: Seq<Seq<char>>) -> Seq<Seq<char>> {
    dirs.map_values(|d: Seq<char>| php_prefix() + d)
}

/// PHP versions that have PHP-FPM configured, from the names of the
/// directories of `/etc/php` that hold an `fpm` directory.
pub fn get_installed_php_fpm(fpm_dirs: Vec<String>) -> (r: Vec<String>)
    ensures
        views(r@) == sorted_versions(fpm_names(views(fpm_dirs@))).map_values(|v: (u32, u32)| render_version(v)),
{
    let php = chars_of("php");
    proof {
        reveal_strlit("php");
        assert(php@ =~= php_prefix());
    }
    let mut paquetes: Vec<String> = Vec::new();
    let mut i: usize = 0;
    while i < fpm_dirs.len()
        invariant
            i <= fpm_dirs.len(),
            php@ == php_prefix(),
            paquetes.len() == i,
            forall|j: int| 0 <= j < i ==> (#[trigger] paquetes@[j])@ == php_prefix() + fpm_dirs@[j]@,
        decreases fpm_dirs.len() - i,
    {
        let cs = chars_of(fpm_dirs[i].as_str());
        let name = concat_chars(&php, &cs);
        paquetes.push(string_from_chars(name.as_slice()));
        i = i + 1;
    }
    proof {
        assert(views(paquetes@) =~= fpm_names(views(fpm_dirs@)));
    }
    sort_versions(paquetes)
}


/// The package of a PHP version's module, `php<version>-<modulo>`.
pub fn module_package(version: &str, modulo: &str) -> (r: String)
    ensures
        r@ == "php"@ + version@ + "-"@ + modulo@,
{
    let mut out: Vec<char> = Vec::new();
    push_str(&mut out, "php");
    push_str(&mut out, version);
    push_str(&mut out, "-");
    push_str(&mut out, modulo);
    string_from_chars(out.as_slice())
}

/// Whether the status printed by `dpkg-query -W -f='${db:Status-Status}'`
/// says `installed` (anywhere in the text).
pub fn search_module(status: &str) -> (r: bool)
    ensures
        r == contains_sub(status@, "installed"@),
{
    let v = chars_of(status);
    let p = chars_of("installed");
    find_sub_chars(&v, &p).is_some()
}

} // verus!
