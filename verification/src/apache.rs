//! Apache site and PHP-FPM management: which PHP-FPM versions the Apache
//! configuration offers, site files, and the site editor's substitutions.
use vstd::prelude::*;
use crate::text::{decimal, lemma_decimal_trim, lemma_decimal_unique, lemma_decimal_digit, is_text, is_text_ci, eq_ci, push_all, push_str, words, words_of, find_sub, find_sub_chars, is_ws, is_whitespace, not_ws, trim, trim_chars, split_lines, lines_of, starts_with_ci, starts_with_ci_chars, replace_all, replace_chars, chars_of, string_from_chars, span_len, lemma_span_len, lemma_span_len_bound, parse_uint, parse_uint_chars, is_digit, is_ascii_digit, starts_with, ends_with, starts_with_chars, ends_with_chars, slice_chars, strings_of};
use crate::data::{views, php_prefix};
use crate::public::{chars_eq};

verus! {

// ---------------------------------------------------------------------------
// Version keys: `s.split('.').map(|x| x.parse::<u32>().unwrap_or(0))`
// ---------------------------------------------------------------------------

pub open spec fn not_dot() -> spec_fn(char) -> bool {
    |c: char| c != '.'
}

/// `str::split('.')`: the pieces between dots, empty ones included.
pub open spec fn split_dots(s: Seq<char>) -> Seq<Seq<char>>
    decreases s.len(),
{
    let k = span_len(s, not_dot());
    proof {
        lemma_span_len_bound(s, not_dot());
    }
    if k == s.len() {
        seq![s]
    } else {
        seq![s.take(k as int)] + split_dots(s.skip(k as int + 1))
    }
}

/// `x.parse::<u32>().unwrap_or(0)`.
pub open spec fn component(x: Seq<char>) -> u32 {
    match parse_uint(x, u32::MAX as nat) {
        Some(n) => n as u32,
        None => 0,
    }
}

/// The sort key of a version string.
pub open spec fn version_key(s: Seq<char>) -> Seq<u32> {
    split_dots(s).map_values(|x: Seq<char>| component(x))
}

/// Lexicographic order of `Vec<u32>` (`Ord for Vec`).
pub open spec fn key_lt(a: Seq<u32>, b: Seq<u32>) -> bool
    decreases a.len(),
{
    if a.len() == 0 {
        b.len() > 0
    } else if b.len() == 0 {
        false
    } else if a[0] != b[0] {
        a[0] < b[0]
    } else {
        key_lt(a.drop_first(), b.drop_first())
    }
}

pub proof fn lemma_key_lt_irreflexive(a: Seq<u32>)
    ensures
        !key_lt(a, a),
    decreases a.len(),
{
    if a.len() > 0 {
        lemma_key_lt_irreflexive(a.drop_first());
    }
}

pub proof fn lemma_key_lt_transitive(a: Seq<u32>, b: Seq<u32>, c: Seq<u32>)
    requires
        key_lt(a, b),
        key_lt(b, c),
    ensures
        key_lt(a, c),
    decreases a.len(),
{
    if a.len() > 0 && b.len() > 0 && c.len() > 0 && a[0] == b[0] && b[0] == c[0] {
        lemma_key_lt_transitive(a.drop_first(), b.drop_first(), c.drop_first());
    }
}

#[verifier::spinoff_prover]
pub proof fn lemma_key_lt_total(a: Seq<u32>, b: Seq<u32>)
    ensures
        key_lt(a, b) || key_lt(b, a) || a == b,
    decreases a.len(),
{
    if a.len() > 0 && b.len() > 0 && a[0] == b[0] {
        lemma_key_lt_total(a.drop_first(), b.drop_first());
        if a.drop_first() == b.drop_first() {
            assert(a.drop_first().len() == b.drop_first().len());
            assert(a.len() == b.len());
            assert forall|i: int| 0 <= i < a.len() implies a[i] == b[i] by {
                if i > 0 {
                    assert(a[i] == a.drop_first()[i - 1]);
                    assert(b[i] == b.drop_first()[i - 1]);
                }
            }
            assert(a =~= b);
        }
    } else if a.len() == 0 && b.len() == 0 {
        assert(a =~= b);
    }
}

/// `Ord::cmp(a, b) == Less` for two keys.
pub fn key_less(a: &Vec<u32>, b: &Vec<u32>) -> (r: bool)
    ensures
        r == key_lt(a@, b@),
{
    let mut i: usize = 0;
    proof {
        assert(a@.skip(0) =~= a@);
        assert(b@.skip(0) =~= b@);
    }
    while i < a.len() && i < b.len()
        invariant
            i <= a.len(),
            i <= b.len(),
            key_lt(a@, b@) == key_lt(a@.skip(i as int), b@.skip(i as int)),
        decreases a.len() - i,
    {
        if a[i] != b[i] {
            proof {
                assert(a@.skip(i as int)[0] == a@[i as int]);
                assert(b@.skip(i as int)[0] == b@[i as int]);
            }
            return a[i] < b[i];
        }
        proof {
            assert(a@.skip(i as int)[0] == a@[i as int]);
            assert(b@.skip(i as int)[0] == b@[i as int]);
            assert(a@.skip(i as int).drop_first() =~= a@.skip(i + 1));
            assert(b@.skip(i as int).drop_first() =~= b@.skip(i + 1));
        }
        i = i + 1;
    }
    proof {
        assert(a@.skip(i as int).len() == a.len() - i);
        assert(b@.skip(i as int).len() == b.len() - i);
    }
    i < b.len()
}

/// The sort key of `v@`, computed.
pub fn version_key_of(v: &Vec<char>) -> (r: Vec<u32>)
    ensures
        r@ == version_key(v@),
{
    let n = v.len();
    let mut out: Vec<u32> = Vec::new();
    let mut pos: usize = 0;
    let ghost pieces = split_dots(v@);
    proof {
        assert(v@.skip(0) =~= v@);
        assert(Seq::<u32>::empty() + version_key(v@) =~= version_key(v@));
    }
    loop
        invariant
            pos <= n == v.len(),
            out@ + version_key(v@.skip(pos as int)) == version_key(v@),
        decreases n - pos,
    {
        let ghost rest = v@.skip(pos as int);
        let mut e = pos;
        while e < n && v[e] != '.'
            invariant
                pos <= e <= n == v.len(),
                rest == v@.skip(pos as int),
                forall|j: int| 0 <= j < e - pos ==> (not_dot())(#[trigger] rest[j]),
            decreases n - e,
        {
            proof {
                assert(rest[e - pos] == v@[e as int]);
            }
            e = e + 1;
        }
        proof {
            if e < n {
                assert(rest[e - pos] == v@[e as int]);
            }
            lemma_span_len(rest, not_dot(), e - pos);
        }
        let comp = match parse_uint_chars(v, pos, e, 0xffff_ffffu64) {
            Some(x) => x as u32,
            None => 0u32,
        };
        let ghost before = out@;
        out.push(comp);
        proof {
            let piece = rest.take(e - pos);
            assert(piece =~= v@.subrange(pos as int, e as int));
            assert(comp == component(piece));
        }
        if e == n {
            proof {
                assert(split_dots(rest) == seq![rest]);
                assert(rest.take(e - pos) =~= rest);
                assert(version_key(rest) =~= seq![comp]);
                assert(out@ =~= before + version_key(rest));
            }
            return out;
        }
        proof {
            let piece = rest.take(e - pos);
            assert(rest.skip(e - pos + 1) =~= v@.skip(e + 1));
            assert(split_dots(rest) == seq![piece] + split_dots(v@.skip(e + 1)));
            assert(version_key(rest) =~= seq![comp] + version_key(v@.skip(e + 1)));
            assert(out@ + version_key(v@.skip(e + 1)) =~= before + version_key(rest));
        }
        pos = e + 1;
    }
}


// ---------------------------------------------------------------------------
// PHP-FPM configuration names: `php<version>-fpm.conf`
// ---------------------------------------------------------------------------

pub open spec fn fpm_conf_suffix() -> Seq<char> {
    seq!['-', 'f', 'p', 'm', '.', 'c', 'o', 'n', 'f']
}

/// The version in a configuration file name `php<version>-fpm.conf`, when
/// the version is nonempty and made of digits and dots only.
pub open spec fn fpm_conf_version(name: Seq<char>) -> Option<Seq<char>> {
    if name.len() > 12 && starts_with(name, php_prefix()) && ends_with(name, fpm_conf_suffix()) {
        let v = name.subrange(3, name.len() - 9);
        if forall|i: int| 0 <= i < v.len() ==> is_digit(#[trigger] v[i]) || v[i] == '.' {
            Some(v)
        } else {
            None
        }
    } else {
        None
    }
}

/// Distinct configuration file names name distinct versions, so each
/// version found comes from one file.
pub proof fn lemma_fpm_conf_version_injective(n1: Seq<char>, n2: Seq<char>)
    requires
        fpm_conf_version(n1) is Some,
        fpm_conf_version(n1) == fpm_conf_version(n2),
    ensures
        n1 == n2,
{
    let v = fpm_conf_version(n1)->0;
    assert(n1 =~= php_prefix() + v + fpm_conf_suffix());
    assert(n2 =~= php_prefix() + v + fpm_conf_suffix());
}

/// The versions of the configuration names, in directory order.
pub open spec fn fpm_versions_found(names: Seq<Seq<char>>) -> Seq<Seq<char>>
    decreases names.len(),
{
    if names.len() == 0 {
        Seq::empty()
    } else {
        match fpm_conf_version(names.last()) {
            Some(v) => fpm_versions_found(names.drop_last()).push(v),
            None => fpm_versions_found(names.drop_last()),
        }
    }
}

/// Keys never decrease along `s`.
pub open spec fn key_sorted(s: Seq<Seq<char>>) -> bool {
    forall|i: int, j: int| 0 <= i < j < s.len() ==> !key_lt(version_key(#[trigger] s[j]), version_key(#[trigger] s[i]))
}

/// How many elements of `s` have a key not greater than the key of `x`.
pub open spec fn count_key_le(s: Seq<Seq<char>>, x: Seq<char>) -> nat
    decreases s.len(),
{
    if s.len() == 0 {
        0
    } else {
        count_key_le(s.drop_last(), x) + (if !key_lt(version_key(x), version_key(s.last())) { 1nat } else { 0nat })
    }
}

/// Inserts `x` after every element whose key is not greater.
pub open spec fn insert_stable(s: Seq<Seq<char>>, x: Seq<char>) -> Seq<Seq<char>> {
    s.insert(count_key_le(s, x) as int, x)
}

/// The stable sort by version key (`slice::sort_by` with the key order).
pub open spec fn stable_sort(vs: Seq<Seq<char>>) -> Seq<Seq<char>>
    decreases vs.len(),
{
    if vs.len() == 0 {
        Seq::empty()
    } else {
        insert_stable(stable_sort(vs.drop_last()), vs.last())
    }
}

/// `Vec::dedup`: each run of equal neighbours kept once.
pub open spec fn dedup(s: Seq<Seq<char>>) -> Seq<Seq<char>>
    decreases s.len(),
{
    if s.len() <= 1 {
        s
    } else if s.last() == s[s.len() - 2] {
        dedup(s.drop_last())
    } else {
        dedup(s.drop_last()).push(s.last())
    }
}

/// The PHP-FPM versions that a directory of configuration files offers.
pub open spec fn fpm_versions(names: Seq<Seq<char>>) -> Seq<Seq<char>> {
    dedup(stable_sort(fpm_versions_found(names)))
}

proof fn lemma_count_key_le(s: Seq<Seq<char>>, x: Seq<char>, p: int)
    requires
        0 <= p <= s.len(),
        forall|j: int| 0 <= j < p ==> !key_lt(version_key(x), version_key(#[trigger] s[j])),
        forall|j: int| p <= j < s.len() ==> key_lt(version_key(x), version_key(#[trigger] s[j])),
    ensures
        count_key_le(s, x) == p,
    decreases s.len(),
{
    if s.len() > 0 {
        let t = s.drop_last();
        assert forall|j: int| 0 <= j < t.len() && j < p implies !key_lt(version_key(x), version_key(#[trigger] t[j])) by {
            assert(t[j] == s[j]);
        }
        assert forall|j: int| p <= j < t.len() implies key_lt(version_key(x), version_key(#[trigger] t[j])) by {
            assert(t[j] == s[j]);
        }
        if p == s.len() {
            lemma_count_key_le(t, x, p - 1);
        } else {
            lemma_count_key_le(t, x, p);
        }
    }
}

/// In a key-sorted sequence, the first element with a greater key than `x`
/// sits at `count_key_le(s, x)`, and so do all later ones.
proof fn lemma_stable_position(s: Seq<Seq<char>>, x: Seq<char>, p: int)
    requires
        key_sorted(s),
        0 <= p <= s.len(),
        forall|j: int| 0 <= j < p ==> !key_lt(version_key(x), version_key(#[trigger] s[j])),
        p == s.len() || key_lt(version_key(x), version_key(s[p])),
    ensures
        count_key_le(s, x) == p,
        forall|j: int| p <= j < s.len() ==> key_lt(version_key(x), version_key(#[trigger] s[j])),
{
    assert forall|j: int| p <= j < s.len() implies key_lt(version_key(x), version_key(#[trigger] s[j])) by {
        if j > p {
            assert(!key_lt(version_key(s[j]), version_key(s[p])));
            lemma_key_lt_total(version_key(s[j]), version_key(s[p]));
            if version_key(s[j]) != version_key(s[p]) {
                lemma_key_lt_transitive(version_key(x), version_key(s[p]), version_key(s[j]));
            }
        }
    }
    lemma_count_key_le(s, x, p);
}

proof fn first_greater(s: Seq<Seq<char>>, x: Seq<char>) -> (q: int)
    ensures
        0 <= q <= s.len(),
        forall|j: int| 0 <= j < q ==> !key_lt(version_key(x), version_key(#[trigger] s[j])),
        q == s.len() || key_lt(version_key(x), version_key(s[q])),
    decreases s.len(),
{
    if s.len() == 0 {
        0
    } else {
        let t = s.drop_last();
        let q = first_greater(t, x);
        assert forall|j: int| 0 <= j < q implies !key_lt(version_key(x), version_key(#[trigger] s[j])) by {
            assert(s[j] == t[j]);
        }
        if q < t.len() {
            assert(s[q] == t[q]);
            q
        } else {
            q + if key_lt(version_key(x), version_key(s.last())) { 0int } else { 1int }
        }
    }
}

/// Stable insertion keeps the sequence key-sorted and adds `x`.
pub proof fn lemma_insert_stable(s: Seq<Seq<char>>, x: Seq<char>)
    requires
        key_sorted(s),
    ensures
        key_sorted(insert_stable(s, x)),
        insert_stable(s, x).len() == s.len() + 1,
        forall|y: Seq<char>| insert_stable(s, x).contains(y) <==> (s.contains(y) || y == x),
{
    let q = first_greater(s, x);
    lemma_stable_position(s, x, q);
    let r = insert_stable(s, x);
    assert forall|i: int, j: int| 0 <= i < j < r.len() implies !key_lt(version_key(#[trigger] r[j]), version_key(#[trigger] r[i])) by {
        if j < q {
            assert(r[i] == s[i] && r[j] == s[j]);
        } else if j == q {
            assert(r[i] == s[i]);
            assert(r[j] == x);
        } else if i == q {
            assert(r[j] == s[j - 1]);
            assert(r[i] == x);
            assert(key_lt(version_key(x), version_key(s[j - 1])));
            if key_lt(version_key(s[j - 1]), version_key(x)) {
                lemma_key_lt_transitive(version_key(x), version_key(s[j - 1]), version_key(x));
                lemma_key_lt_irreflexive(version_key(x));
            }
        } else if i < q {
            assert(r[i] == s[i] && r[j] == s[j - 1]);
            assert(!key_lt(version_key(x), version_key(s[i])));
            assert(key_lt(version_key(x), version_key(s[j - 1])));
            lemma_key_lt_total(version_key(x), version_key(s[i]));
            if key_lt(version_key(s[j - 1]), version_key(s[i])) {
                if version_key(x) == version_key(s[i]) {
                    lemma_key_lt_transitive(version_key(x), version_key(s[j - 1]), version_key(s[i]));
                    lemma_key_lt_irreflexive(version_key(x));
                } else {
                    lemma_key_lt_transitive(version_key(s[i]), version_key(x), version_key(s[j - 1]));
                    lemma_key_lt_transitive(version_key(s[i]), version_key(s[j - 1]), version_key(s[i]));
                    lemma_key_lt_irreflexive(version_key(s[i]));
                }
            }
        } else {
            assert(r[i] == s[i - 1] && r[j] == s[j - 1]);
        }
    }
    assert forall|y: Seq<char>| r.contains(y) <==> (s.contains(y) || y == x) by {
        if r.contains(y) {
            let k = choose|k: int| 0 <= k < r.len() && r[k] == y;
            if k < q {
                assert(s[k] == y);
            } else if k > q {
                assert(s[k - 1] == y);
            }
        }
        if s.contains(y) {
            let k = choose|k: int| 0 <= k < s.len() && s[k] == y;
            if k < q {
                assert(r[k] == y);
            } else {
                assert(r[k + 1] == y);
            }
        }
        if y == x {
            assert(r[q] == x);
        }
    }
}

/// The stable sort is key-sorted and holds the same versions.
pub proof fn lemma_stable_sort(vs: Seq<Seq<char>>)
    ensures
        key_sorted(stable_sort(vs)),
        stable_sort(vs).len() == vs.len(),
        forall|y: Seq<char>| stable_sort(vs).contains(y) <==> vs.contains(y),
    decreases vs.len(),
{
    if vs.len() > 0 {
        let t = vs.drop_last();
        lemma_stable_sort(t);
        lemma_insert_stable(stable_sort(t), vs.last());
        assert forall|y: Seq<char>| stable_sort(vs).contains(y) <==> vs.contains(y) by {
            if t.contains(y) {
                let k = choose|k: int| 0 <= k < t.len() && t[k] == y;
                assert(vs[k] == y);
            }
            if vs.contains(y) {
                let k = choose|k: int| 0 <= k < vs.len() && vs[k] == y;
                if k < t.len() {
                    assert(t[k] == y);
                }
            }
        }
    }
}

/// Deduplication keeps a key-sorted sequence key-sorted, leaves no two equal
/// neighbours, and drops no value.
pub proof fn lemma_dedup(s: Seq<Seq<char>>)
    requires
        key_sorted(s),
    ensures
        key_sorted(dedup(s)),
        forall|i: int| 0 <= i < dedup(s).len() - 1 ==> #[trigger] dedup(s)[i] != dedup(s)[i + 1],
        forall|y: Seq<char>| dedup(s).contains(y) <==> s.contains(y),
        dedup(s).len() > 0 ==> dedup(s).last() == s.last(),
    decreases s.len(),
{
    if s.len() > 1 {
        let t = s.drop_last();
        assert forall|i: int, j: int| 0 <= i < j < t.len() implies !key_lt(version_key(#[trigger] t[j]), version_key(#[trigger] t[i])) by {
            assert(t[i] == s[i] && t[j] == s[j]);
        }
        lemma_dedup(t);
        let d = dedup(t);
        assert(t.last() == s[s.len() - 2]);
        if s.last() != s[s.len() - 2] {
            let r = d.push(s.last());
            assert forall|i: int, j: int| 0 <= i < j < r.len() implies !key_lt(version_key(#[trigger] r[j]), version_key(#[trigger] r[i])) by {
                if j == r.len() - 1 {
                    assert(r[i] == d[i]);
                    assert(d.contains(d[i]));
                    assert(t.contains(r[i]));
                    let k = choose|k: int| 0 <= k < t.len() && t[k] == r[i];
                    assert(s[k] == r[i]);
                    assert(r[j] == s[s.len() - 1]);
                } else {
                    assert(r[i] == d[i] && r[j] == d[j]);
                }
            }
            assert forall|i: int| 0 <= i < r.len() - 1 implies #[trigger] r[i] != r[i + 1] by {
                if i == r.len() - 2 {
                    assert(r[i] == d.last());
                } else {
                    assert(r[i] == d[i] && r[i + 1] == d[i + 1]);
                }
            }
            assert forall|y: Seq<char>| r.contains(y) <==> s.contains(y) by {
                if t.contains(y) {
                    let k = choose|k: int| 0 <= k < t.len() && t[k] == y;
                    assert(s[k] == y);
                }
                if s.contains(y) {
                    let k = choose|k: int| 0 <= k < s.len() && s[k] == y;
                    if k < t.len() {
                        assert(t[k] == y);
                    } else {
                        assert(r[r.len() - 1] == y);
                    }
                }
                if d.contains(y) {
                    let k = choose|k: int| 0 <= k < d.len() && d[k] == y;
                    assert(r[k] == y);
                }
                if r.contains(y) {
                    let k = choose|k: int| 0 <= k < r.len() && r[k] == y;
                    if k < d.len() {
                        assert(d[k] == y);
                    }
                }
            }
        } else {
            assert forall|y: Seq<char>| d.contains(y) <==> s.contains(y) by {
                if t.contains(y) {
                    let k = choose|k: int| 0 <= k < t.len() && t[k] == y;
                    assert(s[k] == y);
                }
                if s.contains(y) {
                    let k = choose|k: int| 0 <= k < s.len() && s[k] == y;
                    if k < t.len() {
                        assert(t[k] == y);
                    } else {
                        assert(t[t.len() - 1] == y);
                    }
                }
            }
        }
    }
}


pub open spec fn cviews(v: Seq<Vec<char>>) -> Seq<Seq<char>> {
    v.map_values(|l: Vec<char>| l@)
}

/// The version in a configuration file name, computed.
fn fpm_conf_version_of(name: &Vec<char>, php: &Vec<char>, suffix: &Vec<char>) -> (r: Option<Vec<char>>)
    requires
        php@ == php_prefix(),
        suffix@ == fpm_conf_suffix(),
    ensures
        fpm_conf_version(name@) == (match r {
            Some(v) => Some(v@),
            None => None,
        }),
{
    let n = name.len();
    if n <= 12 || !starts_with_chars(name, php) || !ends_with_chars(name, suffix) {
        return None;
    }
    let ghost v = name@.subrange(3, n - 9);
    let mut i: usize = 3;
    while i < n - 9
        invariant
            3 <= i <= n - 9,
            n == name.len(),
            n > 12,
            v == name@.subrange(3, n - 9),
            forall|j: int| 0 <= j < i - 3 ==> is_digit(#[trigger] v[j]) || v[j] == '.',
        decreases n - 9 - i,
    {
        let c = name[i];
        proof {
            assert(v[i - 3] == c);
        }
        if !is_ascii_digit(c) && c != '.' {
            return None;
        }
        i = i + 1;
    }
    Some(slice_chars(name, 3, n - 9))
}

/// The PHP-FPM versions offered by a configuration directory, from the names
/// of its files: the versions of the names `php<version>-fpm.conf` (digits
/// and dots), sorted by their dot-separated numbers (a stable sort, so
/// `8.10` comes after `8.2`), with repeated neighbours dropped.
pub fn obtener_versiones_fpm_nativas(nombres: Vec<String>) -> (r: Vec<String>)
    ensures
        views(r@) == fpm_versions(views(nombres@)),
{
    let php = chars_of("php");
    let suffix = chars_of("-fpm.conf");
    proof {
        reveal_strlit("php");
        reveal_strlit("-fpm.conf");
        assert(php@ =~= php_prefix());
        assert(suffix@ =~= fpm_conf_suffix());
    }
    let ghost names = views(nombres@);
    // The versions named, in directory order.
    let mut found: Vec<Vec<char>> = Vec::new();
    let mut i: usize = 0;
    while i < nombres.len()
        invariant
            i <= nombres.len(),
            names == views(nombres@),
            php@ == php_prefix(),
            suffix@ == fpm_conf_suffix(),
            cviews(found@) == fpm_versions_found(names.take(i as int)),
        decreases nombres.len() - i,
    {
        let cs = chars_of(nombres[i].as_str());
        let ver = fpm_conf_version_of(&cs, &php, &suffix);
        proof {
            assert(names.take(i + 1).drop_last() =~= names.take(i as int));
            assert(names.take(i + 1).last() == cs@);
        }
        match ver {
            Some(v) => {
                let ghost before = cviews(found@);
                found.push(v);
                proof {
                    assert(cviews(found@) =~= before.push(v@));
                }
            },
            None => {},
        }
        i = i + 1;
    }
    proof {
        assert(names.take(nombres.len() as int) =~= names);
    }
    let ghost fs = cviews(found@);
    // Stable insertion sort by version key.
    let mut acc: Vec<Vec<char>> = Vec::new();
    let mut keys: Vec<Vec<u32>> = Vec::new();
    let mut k: usize = 0;
    while k < found.len()
        invariant
            k <= found.len(),
            fs == cviews(found@),
            cviews(acc@) == stable_sort(fs.take(k as int)),
            keys.len() == acc.len(),
            forall|j: int| 0 <= j < keys.len() ==> (#[trigger] keys@[j])@ == version_key(acc@[j]@),
        decreases found.len() - k,
    {
        let x = found[k].clone();
        let kx = version_key_of(&x);
        proof {
            assert(fs.take(k + 1).drop_last() =~= fs.take(k as int));
            assert(fs.take(k + 1).last() == x@);
            lemma_stable_sort(fs.take(k as int));
        }
        let ghost s = cviews(acc@);
        let n = acc.len();
        let mut p: usize = 0;
        while p < n && !key_less(&kx, &keys[p])
            invariant
                p <= n == acc.len() == keys.len(),
                s == cviews(acc@),
                forall|j: int| 0 <= j < keys.len() ==> (#[trigger] keys@[j])@ == version_key(acc@[j]@),
                kx@ == version_key(x@),
                forall|j: int| 0 <= j < p ==> !key_lt(version_key(x@), version_key(#[trigger] s[j])),
            decreases n - p,
        {
            proof {
                assert(s[p as int] == acc@[p as int]@);
                assert(keys@[p as int]@ == version_key(acc@[p as int]@));
            }
            p = p + 1;
        }
        proof {
            if p < n {
                assert(s[p as int] == acc@[p as int]@);
                assert(keys@[p as int]@ == version_key(acc@[p as int]@));
            }
            lemma_stable_position(s, x@, p as int);
        }
        acc.insert(p, x);
        keys.insert(p, kx);
        proof {
            assert(cviews(acc@) =~= s.insert(p as int, x@));
            assert forall|j: int| 0 <= j < keys.len() implies (#[trigger] keys@[j])@ == version_key(acc@[j]@) by {
                if j < p {
                } else if j > p {
                }
            }
        }
        k = k + 1;
    }
    proof {
        assert(fs.take(found.len() as int) =~= fs);
    }
    let ghost sorted = cviews(acc@);
    // Drop repeated neighbours.
    let mut out: Vec<Vec<char>> = Vec::new();
    let mut m: usize = 0;
    while m < acc.len()
        invariant
            m <= acc.len(),
            sorted == cviews(acc@),
            cviews(out@) == dedup(sorted.take(m as int)),
        decreases acc.len() - m,
    {
        proof {
            assert(sorted.take(m + 1).drop_last() =~= sorted.take(m as int));
            assert(sorted.take(m + 1).last() == acc@[m as int]@);
            if m > 0 {
                assert(sorted.take(m + 1)[m - 1] == acc@[m - 1]@);
            }
        }
        if m == 0 || !chars_eq(&acc[m], &acc[m - 1]) {
            let ghost before = cviews(out@);
            out.push(acc[m].clone());
            proof {
                assert(cviews(out@) =~= before.push(acc@[m as int]@));
                if m == 0 {
                    assert(sorted.take(1) =~= seq![acc@[0]@]);
                    assert(before =~= Seq::<Seq<char>>::empty());
                }
            }
        }
        m = m + 1;
    }
    proof {
        assert(sorted.take(acc.len() as int) =~= sorted);
    }
    let r = strings_of(&out);
    proof {
        assert(views(r@) == cviews(out@));
    }
    r
}


proof fn lemma_found_contains(names: Seq<Seq<char>>, v: Seq<char>)
    ensures
        fpm_versions_found(names).contains(v) <==> (exists|i: int| 0 <= i < names.len() && fpm_conf_version(#[trigger] names[i]) == Some(v)),
    decreases names.len(),
{
    if names.len() > 0 {
        let t = names.drop_last();
        lemma_found_contains(t, v);
        let f = fpm_versions_found(t);
        if fpm_versions_found(names).contains(v) {
            if let Some(w) = fpm_conf_version(names.last()) {
                let k = choose|k: int| 0 <= k < f.push(w).len() && f.push(w)[k] == v;
                if k < f.len() {
                    assert(f[k] == v);
                    let i = choose|i: int| 0 <= i < t.len() && fpm_conf_version(#[trigger] t[i]) == Some(v);
                    assert(names[i] == t[i]);
                } else {
                    assert(fpm_conf_version(names[names.len() - 1]) == Some(v));
                }
            } else {
                let i = choose|i: int| 0 <= i < t.len() && fpm_conf_version(#[trigger] t[i]) == Some(v);
                assert(names[i] == t[i]);
            }
        }
        if exists|i: int| 0 <= i < names.len() && fpm_conf_version(#[trigger] names[i]) == Some(v) {
            let i = choose|i: int| 0 <= i < names.len() && fpm_conf_version(#[trigger] names[i]) == Some(v);
            if i < t.len() {
                assert(t[i] == names[i]);
                assert(f.contains(v));
                let k = choose|k: int| 0 <= k < f.len() && f[k] == v;
                if let Some(w) = fpm_conf_version(names.last()) {
                    assert(f.push(w)[k] == v);
                }
            } else {
                assert(fpm_versions_found(names) == f.push(v));
                assert(f.push(v)[f.len() as int] == v);
            }
        }
    }
}

/// The offered versions are ordered by their dot-separated numbers, hold no
/// two equal neighbours, and are exactly the versions that some
/// configuration name carries.
pub proof fn lemma_fpm_versions(names: Seq<Seq<char>>)
    ensures
        key_sorted(fpm_versions(names)),
        forall|i: int| 0 <= i < fpm_versions(names).len() - 1 ==> #[trigger] fpm_versions(names)[i] != fpm_versions(names)[i + 1],
        forall|v: Seq<char>| fpm_versions(names).contains(v) <==> (exists|i: int| 0 <= i < names.len() && fpm_conf_version(#[trigger] names[i]) == Some(v)),
{
    let f = fpm_versions_found(names);
    lemma_stable_sort(f);
    lemma_dedup(stable_sort(f));
    assert forall|v: Seq<char>| fpm_versions(names).contains(v) <==> (exists|i: int| 0 <= i < names.len() && fpm_conf_version(#[trigger] names[i]) == Some(v)) by {
        lemma_found_contains(names, v);
    }
}


// ---------------------------------------------------------------------------
// `apache2 -v`
// ---------------------------------------------------------------------------

/// The version word of `apache2 -v` output: from the first `Apache/` up to
/// the next whitespace (such as `Apache/2.4.58`), if `Apache/` occurs.
pub open spec fn apache_version_word(salida: Seq<char>) -> Option<Seq<char>> {
    match find_sub(salida, "Apache/"@) {
        Some(k) => {
            let sub = salida.skip(k as int);
            Some(sub.take(span_len(sub, not_ws()) as int))
        },
        None => None,
    }
}

/// The Apache version reported by `apache2 -v`, if the output names one.
pub fn apache_version(salida: &str) -> (r: Option<String>)
    ensures
        apache_version_word(salida@) == (match r {
            Some(w) => Some(w@),
            None => None,
        }),
{
    let v = chars_of(salida);
    let pat = chars_of("Apache/");
    match find_sub_chars(&v, &pat) {
        None => None,
        Some(k) => {
            let ghost sub = v@.skip(k as int);
            let n = v.len();
            let mut e = k;
            while e < n && !is_whitespace(v[e])
                invariant
                    k <= e <= n == v.len(),
                    sub == v@.skip(k as int),
                    forall|j: int| 0 <= j < e - k ==> (not_ws())(#[trigger] sub[j]),
                decreases n - e,
            {
                proof {
                    assert(sub[e - k] == v@[e as int]);
                }
                e = e + 1;
            }
            proof {
                if e < n {
                    assert(sub[e - k] == v@[e as int]);
                }
                lemma_span_len(sub, not_ws(), e - k);
                assert(sub.take(e - k) =~= v@.subrange(k as int, e as int));
            }
            let w = slice_chars(&v, k, e);
            Some(string_from_chars(w.as_slice()))
        },
    }
}

// ---------------------------------------------------------------------------
// New sites
// ---------------------------------------------------------------------------

/// `char::is_alphanumeric`: Unicode `Alphabetic` or `Numeric`.
pub uninterp spec fn unicode_alphanumeric(c: char) -> bool;

/// `char::is_alphanumeric` (std): whether the character is Unicode
/// alphabetic or numeric; the tables behind it are not restated here.
#[verifier::external_body]
fn is_alphanumeric(c: char) -> (r: bool)
    ensures
        r == unicode_alphanumeric(c),
{
    c.is_alphanumeric()
}

/// A site name the site wizard accepts: nonempty, and only alphanumeric
/// characters, `.`, `_` and `-`.
pub open spec fn is_valid_site_name(sitio: Seq<char>) -> bool {
    sitio.len() > 0 && forall|i: int| 0 <= i < sitio.len() ==> {
        let c = #[trigger] sitio[i];
        unicode_alphanumeric(c) || c == '.' || c == '_' || c == '-'
    }
}

/// Checks the (already trimmed) name typed for a new site.
pub fn valid_site_name(sitio: &str) -> (b: bool)
    ensures
        b == is_valid_site_name(sitio@),
{
    let v = chars_of(sitio);
    if v.len() == 0 {
        return false;
    }
    let mut i: usize = 0;
    while i < v.len()
        invariant
            i <= v.len(),
            v@ == sitio@,
            forall|j: int| 0 <= j < i ==> {
                let c = #[trigger] v@[j];
                unicode_alphanumeric(c) || c == '.' || c == '_' || c == '-'
            },
        decreases v.len() - i,
    {
        let c = v[i];
        if !(is_alphanumeric(c) || c == '.' || c == '_' || c == '-') {
            return false;
        }
        i = i + 1;
    }
    true
}

/// The configuration file and the web directory of a new site.
pub fn site_paths(sitio: &str) -> (r: (String, String))
    ensures
        r.0@ == "/etc/apache2/sites-available"@ + "/"@ + sitio@ + ".conf"@,
        r.1@ == "/var/www/"@ + sitio@,
{
    let mut conf: Vec<char> = Vec::new();
    push_str(&mut conf, "/etc/apache2/sites-available");
    push_str(&mut conf, "/");
    push_str(&mut conf, sitio);
    push_str(&mut conf, ".conf");
    let mut web: Vec<char> = Vec::new();
    push_str(&mut web, "/var/www/");
    push_str(&mut web, sitio);
    proof {
        assert(conf@ =~= "/etc/apache2/sites-available"@ + "/"@ + sitio@ + ".conf"@);
        assert(web@ =~= "/var/www/"@ + sitio@);
    }
    (string_from_chars(conf.as_slice()), string_from_chars(web.as_slice()))
}

/// The text of a new site's virtual host: served as `<sitio>.lan` from
/// `web_dir`, with `.php` files handed to the PHP-FPM socket of `ver`.
pub open spec fn vhost_text(sitio: Seq<char>, web_dir: Seq<char>, ver: Seq<char>) -> Seq<char> {
    "<VirtualHost *:80>\n\tServerName "@ + sitio + ".lan\n\tDocumentRoot "@ + web_dir
        + "\n\n\t<Directory "@ + web_dir
        + ">\n\t\tAllowOverride All\n\t\tRequire all granted\n\t</Directory>\n\n\t<FilesMatch \"\\.php$\">\n\t\t<IfModule mod_proxy_fcgi.c>\n\t\t\tSetHandler \"proxy:unix:/run/php/php"@
        + ver + "-fpm.sock|fcgi://localhost\"\n\t\t</IfModule>\n\t</FilesMatch>\n</VirtualHost>"@
}

pub fn vhost_content(sitio: &str, web_dir: &str, ver: &str) -> (r: String)
    ensures
        r@ == vhost_text(sitio@, web_dir@, ver@),
{
    let mut out: Vec<char> = Vec::new();
    push_str(&mut out, "<VirtualHost *:80>\n\tServerName ");
    push_str(&mut out, sitio);
    push_str(&mut out, ".lan\n\tDocumentRoot ");
    push_str(&mut out, web_dir);
    push_str(&mut out, "\n\n\t<Directory ");
    push_str(&mut out, web_dir);
    push_str(&mut out, ">\n\t\tAllowOverride All\n\t\tRequire all granted\n\t</Directory>\n\n\t<FilesMatch \"\\.php$\">\n\t\t<IfModule mod_proxy_fcgi.c>\n\t\t\tSetHandler \"proxy:unix:/run/php/php");
    push_str(&mut out, ver);
    push_str(&mut out, "-fpm.sock|fcgi://localhost\"\n\t\t</IfModule>\n\t</FilesMatch>\n</VirtualHost>");
    string_from_chars(out.as_slice())
}

/// The `/etc/hosts` line of a new site (without its line break).
pub fn hosts_line(ip: &str, sitio: &str) -> (r: String)
    ensures
        r@ == ip@ + "   "@ + sitio@ + ".lan"@,
{
    let mut out: Vec<char> = Vec::new();
    push_str(&mut out, ip);
    push_str(&mut out, "   ");
    push_str(&mut out, sitio);
    push_str(&mut out, ".lan");
    string_from_chars(out.as_slice())
}

/// The systemd unit and Apache configuration name of a PHP-FPM version.
pub fn fpm_service_name(ver: &str) -> (r: String)
    ensures
        r@ == "php"@ + ver@ + "-fpm"@,
{
    let mut out: Vec<char> = Vec::new();
    push_str(&mut out, "php");
    push_str(&mut out, ver);
    push_str(&mut out, "-fpm");
    string_from_chars(out.as_slice())
}

// ---------------------------------------------------------------------------
// Active sites: `DocumentRoot` of a site file
// ---------------------------------------------------------------------------

/// The line that decides a site's document root: the first whose trimmed
/// text starts, ignoring case, with `documentroot`. (Unicode lowercasing
/// maps no character but the ASCII letters to a text starting with one of
/// these letters, so this is `to_lowercase().starts_with("documentroot")`.)
pub open spec fn is_docroot_line(l: Seq<char>) -> bool {
    starts_with_ci(trim(l), "documentroot"@)
}

/// The index of the first document-root line, if any.
pub open spec fn first_docroot(ls: Seq<Seq<char>>) -> Option<nat>
    decreases ls.len(),
{
    if ls.len() == 0 {
        None
    } else if is_docroot_line(ls[0]) {
        Some(0)
    } else {
        match first_docroot(ls.drop_first()) {
            Some(k) => Some(k + 1),
            None => None,
        }
    }
}

/// `s` without its double and single quotes.
pub open spec fn unquote(s: Seq<char>) -> Seq<char> {
    s.filter(not_quote())
}

pub open spec fn not_quote() -> spec_fn(char) -> bool {
    |c: char| c != '"' && c != '\''
}

/// The document root a site file declares: on its first document-root line,
/// the second word without quotes; none if that line has fewer than two
/// words or there is no such line.
pub open spec fn site_document_root(conf: Seq<char>) -> Option<Seq<char>> {
    let ls = split_lines(conf);
    match first_docroot(ls) {
        Some(k) => {
            let ws = words(trim(ls[k as int]));
            if ws.len() >= 2 {
                Some(unquote(ws[1]))
            } else {
                None
            }
        },
        None => None,
    }
}

/// Reads the document root out of the text of a site's configuration file.
pub fn document_root(conf: &str) -> (r: Option<String>)
    ensures
        site_document_root(conf@) == (match r {
            Some(s) => Some(s@),
            None => None,
        }),
{
    let v = chars_of(conf);
    let lines = lines_of(&v);
    let ghost ls = split_lines(conf@);
    let key = chars_of("documentroot");
    let mut i: usize = 0;
    proof {
        assert(ls.skip(0) =~= ls);
    }
    while i < lines.len()
        invariant
            i <= lines.len(),
            key@ == "documentroot"@,
            ls == split_lines(conf@),
            cviews(lines@) == ls,
            first_docroot(ls) == (match first_docroot(ls.skip(i as int)) {
                Some(k) => Some((k + i) as nat),
                None => None,
            }),
        decreases lines.len() - i,
    {
        let t = trim_chars(&lines[i]);
        proof {
            assert(ls[i as int] == lines@[i as int]@);
            assert(ls.skip(i as int)[0] == ls[i as int]);
        }
        if starts_with_ci_chars(&t, &key) {
            let ws = words_of(&t);
            proof {
                assert(is_docroot_line(ls.skip(i as int)[0]));
                assert(first_docroot(ls.skip(i as int)) == Some(0nat));
                assert(first_docroot(ls) == Some(i as nat));
                assert(words(trim(ls[i as int])) == cviews(ws@));
                assert(ls == split_lines(conf@));
                assert(cviews(ws@).len() == ws.len());
            }
            if ws.len() < 2 {
                return None;
            }
            let w = &ws[1];
            let mut out: Vec<char> = Vec::new();
            let mut j: usize = 0;
            while j < w.len()
                invariant
                    j <= w.len(),
                    out@ == w@.take(j as int).filter(not_quote()),
                decreases w.len() - j,
            {
                proof {
                    reveal_with_fuel(Seq::<_>::filter, 1);
                    assert(w@.take(j + 1).drop_last() =~= w@.take(j as int));
                }
                let c = w[j];
                if c != '"' && c != '\'' {
                    out.push(c);
                }
                j = j + 1;
            }
            proof {
                assert(w@.take(w.len() as int) =~= w@);
                assert(cviews(ws@)[1] == w@);
            }
            return Some(string_from_chars(out.as_slice()));
        }
        proof {
            assert(ls.skip(i as int).drop_first() =~= ls.skip(i + 1));
        }
        i = i + 1;
    }
    proof {
        assert(ls.skip(i as int).len() == 0);
    }
    None
}

// ---------------------------------------------------------------------------
// Site editor: regular-expression substitutions
// ---------------------------------------------------------------------------

/// What `Regex::new(pattern).replace(haystack, rep)` gives: the leftmost-first
/// match of `pattern` replaced by `rep`, with `$name` in `rep` expanded.
pub uninterp spec fn regex_replace_first(pattern: Seq<char>, haystack: Seq<char>, rep: Seq<char>) -> Seq<char>;

/// The patterns the site editor uses.
pub open spec fn is_site_pattern(p: Seq<char>) -> bool {
    ||| p == "DocumentRoot\\s+(?P<path>[\\S]+)"@
    ||| p == "<Directory\\s+(?P<path>[\\S]+)>"@
    ||| p == "php(?P<ver>\\d+\\.\\d+)-fpm\\.sock"@
    ||| p == "ServerName\\s+(?P<name>[\\S]+)"@
}

/// `regex::Regex::new` then `Regex::replace` (regex crate): replaces the
/// leftmost-first match of `pattern` in `haystack` by `rep`, expanding
/// `$name` references in `rep`, and returns the haystack unchanged when there
/// is no match. Only the editor's patterns are given, all of which compile.
/// What the match is, is left to the name `regex_replace_first`.
#[verifier::external_body]
fn regex_replace(pattern: &str, haystack: &str, rep: &str) -> (r: String)
    requires
        is_site_pattern(pattern@),
    ensures
        r@ == regex_replace_first(pattern@, haystack@, rep@),
{
    regex::Regex::new(pattern).unwrap().replace(haystack, rep).into_owned()
}

/// The edited text of a site file: each nonempty answer replaces, in order,
/// the document root (in `DocumentRoot` and `<Directory>`), the PHP-FPM
/// version of the socket, and the server name.
pub open spec fn edited_site(contenido: Seq<char>, nuevo_root: Seq<char>, nueva_ver: Seq<char>, nuevo_name: Seq<char>) -> Seq<char> {
    let c1 = if nuevo_root.len() > 0 {
        let a = regex_replace_first("DocumentRoot\\s+(?P<path>[\\S]+)"@, contenido, "DocumentRoot "@ + nuevo_root);
        regex_replace_first("<Directory\\s+(?P<path>[\\S]+)>"@, a, "<Directory "@ + nuevo_root + ">"@)
    } else {
        contenido
    };
    let c2 = if nueva_ver.len() > 0 {
        regex_replace_first("php(?P<ver>\\d+\\.\\d+)-fpm\\.sock"@, c1, "php"@ + nueva_ver + "-fpm.sock"@)
    } else {
        c1
    };
    if nuevo_name.len() > 0 {
        regex_replace_first("ServerName\\s+(?P<name>[\\S]+)"@, c2, "ServerName "@ + nuevo_name)
    } else {
        c2
    }
}

/// Leaving every answer of the site editor empty keeps the file as it was.
pub proof fn lemma_edit_nothing(contenido: Seq<char>)
    ensures
        edited_site(contenido, Seq::empty(), Seq::empty(), Seq::empty()) == contenido,
{
}

/// Each answer of the site editor acts on its own, in a fixed order, and
/// none depends on another being given: a nonempty document root `r`
/// rewrites the first `DocumentRoot` and then the first `<Directory>` of the
/// file; a nonempty version `v` then rewrites the first PHP-FPM socket to
/// `php<v>-fpm.sock`, whatever the root answer; a nonempty server name `n`
/// finally rewrites the first `ServerName`, whatever the other answers.
pub proof fn lemma_edit_answers(c: Seq<char>, r: Seq<char>, v: Seq<char>, n: Seq<char>)
    ensures
        r.len() > 0 ==> edited_site(c, r, Seq::empty(), Seq::empty()) == regex_replace_first(
            "<Directory\\s+(?P<path>[\\S]+)>"@,
            regex_replace_first("DocumentRoot\\s+(?P<path>[\\S]+)"@, c, "DocumentRoot "@ + r),
            "<Directory "@ + r + ">"@,
        ),
        v.len() > 0 ==> edited_site(c, r, v, Seq::empty()) == regex_replace_first(
            "php(?P<ver>\\d+\\.\\d+)-fpm\\.sock"@,
            edited_site(c, r, Seq::empty(), Seq::empty()),
            "php"@ + v + "-fpm.sock"@,
        ),
        n.len() > 0 ==> edited_site(c, r, v, n) == regex_replace_first(
            "ServerName\\s+(?P<name>[\\S]+)"@,
            edited_site(c, r, v, Seq::empty()),
            "ServerName "@ + n,
        ),
{
}

fn text_of(parts: &Vec<char>) -> (r: String)
    ensures
        r@ == parts@,
{
    string_from_chars(parts.as_slice())
}

/// Applies the site editor's answers to the text of a site file.
pub fn edit_site(contenido: &str, nuevo_root: &str, nueva_ver: &str, nuevo_name: &str) -> (r: String)
    ensures
        r@ == edited_site(contenido@, nuevo_root@, nueva_ver@, nuevo_name@),
{
    let mut c = text_of(&chars_of(contenido));
    if !nuevo_root.is_empty() {
        let mut rep: Vec<char> = Vec::new();
        push_str(&mut rep, "DocumentRoot ");
        push_str(&mut rep, nuevo_root);
        c = regex_replace("DocumentRoot\\s+(?P<path>[\\S]+)", c.as_str(), text_of(&rep).as_str());
        let mut rep2: Vec<char> = Vec::new();
        push_str(&mut rep2, "<Directory ");
        push_str(&mut rep2, nuevo_root);
        push_str(&mut rep2, ">");
        c = regex_replace("<Directory\\s+(?P<path>[\\S]+)>", c.as_str(), text_of(&rep2).as_str());
    }
    if !nueva_ver.is_empty() {
        let mut rep: Vec<char> = Vec::new();
        push_str(&mut rep, "php");
        push_str(&mut rep, nueva_ver);
        push_str(&mut rep, "-fpm.sock");
        c = regex_replace("php(?P<ver>\\d+\\.\\d+)-fpm\\.sock", c.as_str(), text_of(&rep).as_str());
    }
    if !nuevo_name.is_empty() {
        let mut rep: Vec<char> = Vec::new();
        push_str(&mut rep, "ServerName ");
        push_str(&mut rep, nuevo_name);
        c = regex_replace("ServerName\\s+(?P<name>[\\S]+)", c.as_str(), text_of(&rep).as_str());
    }
    c
}


// ---------------------------------------------------------------------------
// CMS installer
// ---------------------------------------------------------------------------

/// The CMS packages the installer offers.
#[derive(PartialEq, Eq, Structural, Debug, Clone, Copy)]
pub enum Cms {
    WordPress,
    Joomla,
    Drupal,
    Moodle,
}

impl Cms {
    pub fn nombre(&self) -> (r: &'static str)
        ensures
            r@ == (match self {
                Cms::WordPress => "WordPress"@,
                Cms::Joomla => "Joomla"@,
                Cms::Drupal => "Drupal"@,
                Cms::Moodle => "Moodle"@,
            }),
    {
        match self {
            Cms::WordPress => "WordPress",
            Cms::Joomla => "Joomla",
            Cms::Drupal => "Drupal",
            Cms::Moodle => "Moodle",
        }
    }

    /// Where the archive is downloaded from.
    pub fn url(&self) -> (r: &'static str)
        ensures
            r@ == (match self {
                Cms::WordPress => "https://wordpress.org/latest.tar.gz"@,
                Cms::Joomla => "https://downloads.joomla.org/cms/joomla6/6-1-1/Joomla_6.1.1-Stable-Full_Package.zip"@,
                Cms::Drupal => "https://www.drupal.org/download-latest/tar.gz"@,
                Cms::Moodle => "https://download.moodle.org/download.php/direct/stable404/moodle-latest-404.tgz"@,
            }),
    {
        match self {
            Cms::WordPress => "https://wordpress.org/latest.tar.gz",
            Cms::Joomla => "https://downloads.joomla.org/cms/joomla6/6-1-1/Joomla_6.1.1-Stable-Full_Package.zip",
            Cms::Drupal => "https://www.drupal.org/download-latest/tar.gz",
            Cms::Moodle => "https://download.moodle.org/download.php/direct/stable404/moodle-latest-404.tgz",
        }
    }

    /// The archive's file name in the local cache.
    pub fn archivo_cache(&self) -> (r: &'static str)
        ensures
            r@ == (match self {
                Cms::WordPress => "wordpress_latest.tar.gz"@,
                Cms::Joomla => "joomla_6.1.1.zip"@,
                Cms::Drupal => "drupal_latest.tar.gz"@,
                Cms::Moodle => "moodle_4.x.tgz"@,
            }),
    {
        match self {
            Cms::WordPress => "wordpress_latest.tar.gz",
            Cms::Joomla => "joomla_6.1.1.zip",
            Cms::Drupal => "drupal_latest.tar.gz",
            Cms::Moodle => "moodle_4.x.tgz",
        }
    }

    /// Whether the archive is a zip file (else a gzipped tarball).
    pub fn es_zip(&self) -> (r: bool)
        ensures
            r == (*self == Cms::Joomla),
    {
        match self {
            Cms::Joomla => true,
            _ => false,
        }
    }
}

/// What the CMS menu's answer asks for.
#[derive(PartialEq, Eq, Structural, Debug, Clone, Copy)]
pub enum OpcionCms {
    Instalar(Cms),
    InfoPhp,
    Vaciar,
    Invalida,
}

/// `1`-`4` install a CMS, `5` adds `info.php`, `6` empties the site; any
/// other answer (`0` included) is refused.
pub open spec fn opcion_cms_de(input: Seq<char>) -> OpcionCms {
    let t = trim(input);
    if t == "1"@ {
        OpcionCms::Instalar(Cms::WordPress)
    } else if t == "2"@ {
        OpcionCms::Instalar(Cms::Joomla)
    } else if t == "3"@ {
        OpcionCms::Instalar(Cms::Drupal)
    } else if t == "4"@ {
        OpcionCms::Instalar(Cms::Moodle)
    } else if t == "5"@ {
        OpcionCms::InfoPhp
    } else if t == "6"@ {
        OpcionCms::Vaciar
    } else {
        OpcionCms::Invalida
    }
}

/// The CMS menu as printed: `1` WordPress, `2` Joomla, `3` Drupal, `4`
/// Moodle, `5` the PHP test page, `6` emptying the site.
pub open spec fn opciones_cms_impresas() -> Seq<OpcionCms> {
    seq![
        OpcionCms::Instalar(Cms::WordPress),
        OpcionCms::Instalar(Cms::Joomla),
        OpcionCms::Instalar(Cms::Drupal),
        OpcionCms::Instalar(Cms::Moodle),
        OpcionCms::InfoPhp,
        OpcionCms::Vaciar,
    ]
}

/// Typing the number of a printed CMS option picks that option; `0`
/// (cancel) and every other number pick nothing.
pub proof fn lemma_opciones_cms(k: nat)
    ensures
        1 <= k <= 6 ==> opcion_cms_de(decimal(k)) == opciones_cms_impresas()[k - 1],
        k == 0 || k > 6 ==> opcion_cms_de(decimal(k)) == OpcionCms::Invalida,
{
    reveal_strlit("1");
    reveal_strlit("2");
    reveal_strlit("3");
    reveal_strlit("4");
    reveal_strlit("5");
    reveal_strlit("6");
    lemma_decimal_trim(k);
    lemma_decimal_digit(1);
    lemma_decimal_digit(2);
    lemma_decimal_digit(3);
    lemma_decimal_digit(4);
    lemma_decimal_digit(5);
    lemma_decimal_digit(6);
    assert(decimal(1) =~= "1"@);
    assert(decimal(2) =~= "2"@);
    assert(decimal(3) =~= "3"@);
    assert(decimal(4) =~= "4"@);
    assert(decimal(5) =~= "5"@);
    assert(decimal(6) =~= "6"@);
    lemma_decimal_unique(k, 1);
    lemma_decimal_unique(k, 2);
    lemma_decimal_unique(k, 3);
    lemma_decimal_unique(k, 4);
    lemma_decimal_unique(k, 5);
    lemma_decimal_unique(k, 6);
}

/// The action the CMS menu's answer picks.
pub fn instalar_cms(opcion: &str) -> (r: OpcionCms)
    ensures
        r == opcion_cms_de(opcion@),
{
    let t = trim_chars(&chars_of(opcion));
    if is_text(&t, "1") {
        OpcionCms::Instalar(Cms::WordPress)
    } else if is_text(&t, "2") {
        OpcionCms::Instalar(Cms::Joomla)
    } else if is_text(&t, "3") {
        OpcionCms::Instalar(Cms::Drupal)
    } else if is_text(&t, "4") {
        OpcionCms::Instalar(Cms::Moodle)
    } else if is_text(&t, "5") {
        OpcionCms::InfoPhp
    } else if is_text(&t, "6") {
        OpcionCms::Vaciar
    } else {
        OpcionCms::Invalida
    }
}

/// What to do with a site directory that is not empty.
#[derive(PartialEq, Eq, Structural, Debug, Clone, Copy)]
pub enum AccionDirectorio {
    Limpiar,
    Conservar,
    Cancelar,
}

/// `1` cleans the directory first, `2` keeps its files, anything else
/// cancels (after trimming).
pub fn accion_directorio(accion: &str) -> (r: AccionDirectorio)
    ensures
        r == (if trim(accion@) == "1"@ {
            AccionDirectorio::Limpiar
        } else if trim(accion@) == "2"@ {
            AccionDirectorio::Conservar
        } else {
            AccionDirectorio::Cancelar
        }),
{
    let t = trim_chars(&chars_of(accion));
    if is_text(&t, "1") {
        AccionDirectorio::Limpiar
    } else if is_text(&t, "2") {
        AccionDirectorio::Conservar
    } else {
        AccionDirectorio::Cancelar
    }
}

/// A yes to "empty the site?": `s` in either case, after trimming.
pub fn confirma_vaciar(respuesta: &str) -> (r: bool)
    ensures
        r == eq_ci(trim(respuesta@), "s"@),
{
    let t = trim_chars(&chars_of(respuesta));
    is_text_ci(&t, "s")
}

fn joined(a: &str, b: &str, c: &str) -> (r: String)
    ensures
        r@ == a@ + b@ + c@,
{
    let mut out: Vec<char> = Vec::new();
    push_str(&mut out, a);
    push_str(&mut out, b);
    push_str(&mut out, c);
    string_from_chars(out.as_slice())
}

fn joined2(a: &str, b: &str) -> (r: String)
    ensures
        r@ == a@ + b@,
{
    let mut out: Vec<char> = Vec::new();
    push_str(&mut out, a);
    push_str(&mut out, b);
    string_from_chars(out.as_slice())
}

/// The PHP test page of a site.
pub fn info_php_path(ruta: &str) -> (r: String)
    ensures
        r@ == ruta@ + "/info.php"@,
{
    joined2(ruta, "/info.php")
}

/// What the PHP test page holds.
pub fn info_php_content() -> (r: &'static str)
    ensures
        r@ == "<?php phpinfo(); ?>\n"@,
{
    "<?php phpinfo(); ?>\n"
}

/// The command that deletes everything inside a site directory.
pub fn clean_command(ruta: &str) -> (r: String)
    ensures
        r@ == "find "@ + ruta@ + " -mindepth 1 -delete"@,
{
    joined("find ", ruta, " -mindepth 1 -delete")
}

/// The local cache of downloaded CMS archives, under the home directory.
pub fn cache_dir(home: &str) -> (r: String)
    ensures
        r@ == home@ + "/Documentos/cms_cache"@,
{
    joined2(home, "/Documentos/cms_cache")
}

/// A cached archive's path.
pub fn cache_file(dir: &str, archivo: &str) -> (r: String)
    ensures
        r@ == dir@ + "/"@ + archivo@,
{
    joined(dir, "/", archivo)
}

/// The domain of a site: its name with every `.conf` removed.
pub fn site_domain(nombre: &str) -> (r: String)
    ensures
        r@ == replace_all(nombre@, ".conf"@, Seq::empty()),
{
    let pat = chars_of(".conf");
    proof {
        reveal_strlit(".conf");
    }
    let empty: Vec<char> = Vec::new();
    let out = replace_chars(&chars_of(nombre), &pat, &empty);
    string_from_chars(out.as_slice())
}

/// The backup copy made before editing a site file.
pub fn backup_path(path: &str) -> (r: String)
    ensures
        r@ == path@ + ".bak"@,
{
    joined2(path, ".bak")
}


/// An enabled site: its name and its document root.
pub struct SitioActivo {
    nombre: String,
    ruta: String,
}

impl SitioActivo {
    pub fn new(nombre: String, ruta: String) -> (s: SitioActivo)
        ensures
            s.nombre_view() == nombre@,
            s.ruta_view() == ruta@,
    {
        SitioActivo { nombre, ruta }
    }

    pub closed spec fn nombre_view(&self) -> Seq<char> {
        self.nombre@
    }

    pub closed spec fn ruta_view(&self) -> Seq<char> {
        self.ruta@
    }

    pub fn nombre(&self) -> (r: &str)
        ensures
            r@ == self.nombre_view(),
    {
        self.nombre.as_str()
    }

    pub fn ruta(&self) -> (r: &str)
        ensures
            r@ == self.ruta_view(),
    {
        self.ruta.as_str()
    }
}

} // verus!
