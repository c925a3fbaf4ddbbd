//! The set of PHP versions that a list of names mentions, collected in a
//! `BTreeSet` and read back in increasing order.
use vstd::prelude::*;
use std::collections::BTreeSet;
use vstd::std_specs::cmp::OrdSpec;
use vstd::std_specs::iter::IteratorSpec;
use crate::data::{views, version_of_chars, sorted_versions, strictly_sorted, pair_lt, insert_version, lemma_sorted_versions, lemma_insert_version, lemma_sorted_unique};
use crate::text::chars_of;

verus! {

broadcast use {vstd::std_specs::btree::group_btree_axioms, vstd::laws_cmp::group_laws_cmp};

/// Keys read from a `BTreeSet` in increasing order are strictly sorted.
proof fn lemma_read_in_order(s: Seq<(u32, u32)>, t: Seq<&(u32, u32)>)
    requires
        s.len() == t.len(),
        forall|j: int| 0 <= j < s.len() ==> s[j] == *t[j],
        vstd::std_specs::btree::increasing_seq(t),
    ensures
        strictly_sorted(s),
{
    assert(vstd::laws_cmp::obeys_cmp::<u32>());
    assert(vstd::laws_cmp::obeys_cmp::<(u32, u32)>());
    assert(vstd::laws_cmp::obeys_cmp::<&(u32, u32)>());
    assert forall|a: int, b: int| 0 <= a < b < s.len() implies pair_lt(#[trigger] s[a], #[trigger] s[b]) by {
        assert(OrdSpec::cmp_spec(&t[a], &t[b]) is Less);
        assert(s[a] == *t[a] && s[b] == *t[b]);
    }
}

/// The versions that `pkgs` names, each once, in increasing order.
pub fn versiones_ordenadas(pkg_list: &Vec<String>) -> (r: Vec<(u32, u32)>)
    ensures
        r@ == sorted_versions(views(pkg_list@)),
{
    let ghost pkgs = views(pkg_list@);
    let mut versiones: BTreeSet<(u32, u32)> = BTreeSet::new();
    let n = pkg_list.len();
    let mut i: usize = 0;
    proof {
        assert(versiones@ =~= sorted_versions(pkgs.take(0)).to_set());
    }
    while i < n
        invariant
            i <= n == pkg_list.len(),
            pkgs == views(pkg_list@),
            versiones@ == sorted_versions(pkgs.take(i as int)).to_set(),
        decreases n - i,
    {
        let cs = chars_of(pkg_list[i].as_str());
        let ver = version_of_chars(&cs);
        let ghost before = sorted_versions(pkgs.take(i as int));
        proof {
            assert(pkgs[i as int] == cs@);
            assert(pkgs.take(i + 1).drop_last() =~= pkgs.take(i as int));
            assert(pkgs.take(i + 1).last() == cs@);
            lemma_sorted_versions(pkgs.take(i as int));
        }
        match ver {
            Some(x) => {
                versiones.insert(x);
                proof {
                    lemma_insert_version(before, x);
                    assert(sorted_versions(pkgs.take(i + 1)) == insert_version(before, x));
                    assert(versiones@ =~= sorted_versions(pkgs.take(i + 1)).to_set());
                }
            },
            None => {
                proof {
                    assert(sorted_versions(pkgs.take(i + 1)) == before);
                }
            },
        }
        i = i + 1;
    }
    proof {
        assert(pkgs.take(n as int) =~= pkgs);
        lemma_sorted_versions(pkgs);
    }
    let ghost keys = vstd::std_specs::btree::spec_btree_keys_iter(&versiones).remaining();
    let mut out: Vec<(u32, u32)> = Vec::new();
    for v in it: versiones.iter()
        invariant
            it.seq() == keys,
            out.len() == it.index(),
            forall|j: int| 0 <= j < it.index() ==> out@[j] == *keys[j],
    {
        out.push(*v);
    }
    proof {
        let s = out@;
        assert(s.len() == keys.len());
        lemma_read_in_order(s, keys);
        assert forall|y: (u32, u32)| s.contains(y) <==> versiones@.contains(y) by {
            if s.contains(y) {
                let k = choose|k: int| 0 <= k < s.len() && s[k] == y;
                assert(keys.unref()[k] == y);
            }
            if versiones@.contains(y) {
                assert(keys.unref().to_set().contains(y));
                let k = choose|k: int| 0 <= k < keys.unref().len() && keys.unref()[k] == y;
                assert(s[k] == y);
            }
        }
        assert(s.to_set() =~= sorted_versions(pkgs).to_set());
        lemma_sorted_unique(s, sorted_versions(pkgs));
    }
    out
}

} // verus!
