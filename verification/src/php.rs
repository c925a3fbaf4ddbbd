//! PHP management: the packages to install or purge, the modules of a
//! version, and what the status screen shows.
use vstd::prelude::*;
use crate::text::{chars_of, string_from_chars, push_str, push_all, trim, trim_chars, split_lines, lines_of, words, words_of, contains_sub, find_sub, find_sub_chars, starts_with, ends_with, starts_with_chars, ends_with_chars, parse_uint, parse_uint_chars, slice_chars};
use crate::data::{views, php_prefix, get_installed_php, sorted_versions, php_named, render_version};
use crate::public::{list_version};
use crate::apache::{cviews, fpm_conf_suffix};

verus! {

/// The lines listing the PHP versions of a list of package names (those
/// that apt-cache knows), numbered from 1.
pub fn versiones_instaladas_php(entries: Vec<String>) -> (r: Vec<String>)
    ensures
        r.len() == sorted_versions(php_named(views(entries@))).len(),
        forall|i: int| 0 <= i < r.len() ==> (#[trigger] r@[i])@
            == crate::text::decimal((i + 1) as nat) + ") PHP"@ + render_version(sorted_versions(php_named(views(entries@)))[i]),
{
    let ghost sv = sorted_versions(php_named(views(entries@)));
    let ver = get_installed_php(entries);
    proof {
        assert(views(ver@).len() == ver@.len());
        assert forall|i: int| 0 <= i < ver@.len() implies (#[trigger] ver@[i])@ == render_version(sv[i]) by {
            assert(views(ver@)[i] == ver@[i]@);
        }
    }
    list_version(ver.as_slice())
}

/// The packages `php<version>-<sufijo>` for the nonempty suffixes, in order.
pub open spec fn module_package_names(version: Seq<char>, sufijos: Seq<Seq<char>>) -> Seq<Seq<char>> {
    sufijos.filter(|s: Seq<char>| s.len() > 0).map_values(|s: Seq<char>| "php"@ + version + "-"@ + s)
}

/// The packages of a PHP version's modules, from the module suffixes listed
/// in `php_modules.json`.
pub fn module_packages(version: &str, sufijos: &Vec<String>) -> (r: Vec<String>)
    ensures
        views(r@) == module_package_names(version@, views(sufijos@)),
{
    let ghost suf = views(sufijos@);
    let mut r: Vec<String> = Vec::new();
    let mut i: usize = 0;
    while i < sufijos.len()
        invariant
            i <= sufijos.len(),
            suf == views(sufijos@),
            views(r@) == module_package_names(version@, suf.take(i as int)),
        decreases sufijos.len() - i,
    {
        proof {
            reveal_with_fuel(Seq::<_>::filter, 1);
            assert(suf.take(i + 1).drop_last() =~= suf.take(i as int));
            assert(suf.take(i + 1).last() == sufijos@[i as int]@);
        }
        if !sufijos[i].as_str().is_empty() {
            let mut name: Vec<char> = Vec::new();
            push_str(&mut name, "php");
            push_str(&mut name, version);
            push_str(&mut name, "-");
            push_str(&mut name, sufijos[i].as_str());
            let ghost before = views(r@);
            r.push(string_from_chars(name.as_slice()));
            proof {
                let f = suf.take(i as int).filter(|s: Seq<char>| s.len() > 0);
                assert(suf.take(i + 1).filter(|s: Seq<char>| s.len() > 0) == f.push(sufijos@[i as int]@));
                assert(views(r@) =~= before.push(name@));
                assert(f.push(sufijos@[i as int]@).map_values(|s: Seq<char>| "php"@ + version@ + "-"@ + s)
                    =~= f.map_values(|s: Seq<char>| "php"@ + version@ + "-"@ + s).push("php"@ + version@ + "-"@ + sufijos@[i as int]@));
            }
        }
        i = i + 1;
    }
    proof {
        assert(suf.take(sufijos.len() as int) =~= suf);
    }
    r
}

/// `str::trim_end_matches(p)`: every trailing repetition of `p` removed.
pub open spec fn trim_end_matches(s: Seq<char>, p: Seq<char>) -> Seq<char>
    decreases s.len(),
{
    if p.len() > 0 && ends_with(s, p) {
        trim_end_matches(s.take(s.len() - p.len()), p)
    } else {
        s
    }
}

/// The Apache configurations to disable: the enabled names that start with
/// `php` and end with `-fpm.conf`, without their trailing `.conf`.
pub open spec fn fpm_confs(names: Seq<Seq<char>>) -> Seq<Seq<char>> {
    names.filter(|n: Seq<char>| starts_with(n, php_prefix()) && ends_with(n, fpm_conf_suffix()))
        .map_values(|n: Seq<char>| trim_end_matches(n, ".conf"@))
}

fn trim_end_matches_chars(v: &Vec<char>, p: &Vec<char>) -> (r: Vec<char>)
    requires
        p.len() > 0,
    ensures
        r@ == trim_end_matches(v@, p@),
{
    let mut cur = slice_chars(v, 0, v.len());
    proof {
        assert(cur@ =~= v@);
    }
    while ends_with_chars(&cur, p)
        invariant
            p.len() > 0,
            trim_end_matches(cur@, p@) == trim_end_matches(v@, p@),
        decreases cur.len(),
    {
        let n = cur.len() - p.len();
        cur = slice_chars(&cur, 0, n);
        proof {
            assert(cur@ =~= cur@.take(n as int));
        }
    }
    cur
}

/// The PHP-FPM configurations enabled in Apache, from the file names in
/// `/etc/apache2/conf-enabled`.
pub fn disable_all_fpm_apache(nombres: &Vec<String>) -> (r: Vec<String>)
    ensures
        views(r@) == fpm_confs(views(nombres@)),
{
    let php = chars_of("php");
    let suffix = chars_of("-fpm.conf");
    let conf = chars_of(".conf");
    proof {
        reveal_strlit("php");
        reveal_strlit("-fpm.conf");
        reveal_strlit(".conf");
        assert(php@ =~= php_prefix());
        assert(suffix@ =~= fpm_conf_suffix());
    }
    let ghost ns = views(nombres@);
    let mut r: Vec<String> = Vec::new();
    let mut i: usize = 0;
    while i < nombres.len()
        invariant
            i <= nombres.len(),
            ns == views(nombres@),
            php@ == php_prefix(),
            suffix@ == fpm_conf_suffix(),
            conf@ == ".conf"@,
            conf@.len() > 0,
            views(r@) == fpm_confs(ns.take(i as int)),
        decreases nombres.len() - i,
    {
        let name = chars_of(nombres[i].as_str());
        proof {
            reveal_with_fuel(Seq::<_>::filter, 1);
            assert(ns.take(i + 1).drop_last() =~= ns.take(i as int));
            assert(ns.take(i + 1).last() == name@);
        }
        if starts_with_chars(&name, &php) && ends_with_chars(&name, &suffix) {
            let t = trim_end_matches_chars(&name, &conf);
            let ghost before = views(r@);
            r.push(string_from_chars(t.as_slice()));
            proof {
                let f = ns.take(i as int).filter(|n: Seq<char>| starts_with(n, php_prefix()) && ends_with(n, fpm_conf_suffix()));
                assert(views(r@) =~= before.push(t@));
                assert(f.push(name@).map_values(|n: Seq<char>| trim_end_matches(n, ".conf"@))
                    =~= f.map_values(|n: Seq<char>| trim_end_matches(n, ".conf"@)).push(trim_end_matches(name@, ".conf"@)));
            }
        }
        i = i + 1;
    }
    proof {
        assert(ns.take(nombres.len() as int) =~= ns);
    }
    r
}

/// What `apt-get purge` removes for a PHP version: every package
/// `php<version>*` and Apache's module package for it.
pub fn desinstalacion_php(version: &str) -> (r: (String, String))
    ensures
        r.0@ == "php"@ + version@ + "*"@,
        r.1@ == "libapache2-mod-php"@ + version@,
{
    let mut a: Vec<char> = Vec::new();
    push_str(&mut a, "php");
    push_str(&mut a, version);
    push_str(&mut a, "*");
    let mut b: Vec<char> = Vec::new();
    push_str(&mut b, "libapache2-mod-php");
    push_str(&mut b, version);
    (string_from_chars(a.as_slice()), string_from_chars(b.as_slice()))
}

/// The module packages of a version that `dpkg -l` lists: on each line that
/// contains `php<version>-`, the second word, if there is one.
pub open spec fn listed_modules(listado: Seq<Seq<char>>, filtro: Seq<char>) -> Seq<Seq<char>>
    decreases listado.len(),
{
    if listado.len() == 0 {
        Seq::empty()
    } else {
        let l = listado.last();
        let before = listed_modules(listado.drop_last(), filtro);
        if contains_sub(l, filtro) && words(l).len() >= 2 {
            before.push(words(l)[1])
        } else {
            before
        }
    }
}

/// The installed module packages of a PHP version, from `dpkg -l` output.
pub fn modulos_instalados(listado: &str, version: &str) -> (r: Vec<String>)
    ensures
        views(r@) == listed_modules(split_lines(listado@), "php"@ + version@ + "-"@),
{
    let mut filtro: Vec<char> = Vec::new();
    push_str(&mut filtro, "php");
    push_str(&mut filtro, version);
    push_str(&mut filtro, "-");
    let v = chars_of(listado);
    let lines = lines_of(&v);
    let ghost ls = split_lines(listado@);
    let mut r: Vec<String> = Vec::new();
    let mut i: usize = 0;
    while i < lines.len()
        invariant
            i <= lines.len(),
            cviews(lines@) == ls,
            views(r@) == listed_modules(ls.take(i as int), filtro@),
        decreases lines.len() - i,
    {
        proof {
            assert(ls.take(i + 1).drop_last() =~= ls.take(i as int));
            assert(ls.take(i + 1).last() == lines@[i as int]@);
        }
        let found = find_sub_chars(&lines[i], &filtro);
        if found.is_some() {
            let parts = words_of(&lines[i]);
            if parts.len() >= 2 {
                let ghost before = views(r@);
                r.push(string_from_chars(parts[1].as_slice()));
                proof {
                    assert(cviews(parts@)[1] == parts@[1]@);
                    assert(views(r@) =~= before.push(parts@[1]@));
                }
            }
        }
        i = i + 1;
    }
    proof {
        assert(ls.take(lines.len() as int) =~= ls);
    }
    r
}

/// A word of the module selection that picks nothing.
pub enum Descartado {
    /// A number outside `1..=len`.
    FueraDeRango(usize),
    /// Not a number.
    NoNumero(String),
}

/// What a word of the selection picks: `Ok` with a position counted from 1,
/// or a reason to ignore it.
pub open spec fn module_pick(w: Seq<char>, len: nat) -> Option<nat> {
    match parse_uint(w, usize::MAX as nat) {
        Some(n) => if 0 < n <= len { Some(n) } else { None },
        None => None,
    }
}

/// The modules that the selection picks, in the order typed (repeats kept).
pub open spec fn picked_modules(ws: Seq<Seq<char>>, modulos: Seq<Seq<char>>) -> Seq<Seq<char>>
    decreases ws.len(),
{
    if ws.len() == 0 {
        Seq::empty()
    } else {
        let before = picked_modules(ws.drop_last(), modulos);
        match module_pick(ws.last(), modulos.len()) {
            Some(n) => before.push(modulos[n - 1]),
            None => before,
        }
    }
}

/// The words of the selection that pick nothing, in the order typed.
pub open spec fn ignored_words(ws: Seq<Seq<char>>, len: nat) -> Seq<Seq<char>> {
    ws.filter(|w: Seq<char>| module_pick(w, len) is None)
}

/// How an ignored word is reported: the number when it is one (outside the
/// range), else the word itself.
pub open spec fn reports(d: Descartado, w: Seq<char>) -> bool {
    match d {
        Descartado::FueraDeRango(k) => parse_uint(w, usize::MAX as nat) == Some(k as nat),
        Descartado::NoNumero(t) => parse_uint(w, usize::MAX as nat) is None && t@ == w,
    }
}

/// Every word of the module selection is either picked or reported as
/// ignored, never both.
pub proof fn lemma_selection_partition(ws: Seq<Seq<char>>, modulos: Seq<Seq<char>>)
    ensures
        picked_modules(ws, modulos).len() + ignored_words(ws, modulos.len()).len() == ws.len(),
    decreases ws.len(),
{
    reveal_with_fuel(Seq::<_>::filter, 1);
    if ws.len() > 0 {
        lemma_selection_partition(ws.drop_last(), modulos);
    }
}

/// The module packages to purge, from the numbers typed (separated by
/// whitespace) and the listed modules; every word that picks nothing is
/// reported, in order.
pub fn modulos_php(input: &str, modulos: &Vec<String>) -> (r: (Vec<String>, Vec<Descartado>))
    ensures
        views(r.0@) == picked_modules(words(input@), views(modulos@)),
        r.1.len() == ignored_words(words(input@), modulos@.len()).len(),
        forall|i: int| 0 <= i < r.1.len() ==> reports(#[trigger] r.1@[i], ignored_words(words(input@), modulos@.len())[i]),
{
    let v = chars_of(input);
    let ws = words_of(&v);
    let ghost wv = words(input@);
    let ghost mv = views(modulos@);
    let mut picked: Vec<String> = Vec::new();
    let mut ignored: Vec<Descartado> = Vec::new();
    let mut i: usize = 0;
    while i < ws.len()
        invariant
            i <= ws.len(),
            cviews(ws@) == wv,
            mv == views(modulos@),
            views(picked@) == picked_modules(wv.take(i as int), mv),
            ignored.len() == ignored_words(wv.take(i as int), mv.len()).len(),
            forall|j: int| 0 <= j < ignored.len() ==> reports(#[trigger] ignored@[j], ignored_words(wv.take(i as int), mv.len())[j]),
        decreases ws.len() - i,
    {
        proof {
            reveal_with_fuel(Seq::<_>::filter, 1);
            assert(wv.take(i + 1).drop_last() =~= wv.take(i as int));
            assert(wv.take(i + 1).last() == ws@[i as int]@);
        }
        let ghost prev = ignored_words(wv.take(i as int), mv.len());
        let w = &ws[i];
        match parse_uint_chars(w, 0, w.len(), usize::MAX as u64) {
            Some(n) => {
                proof {
                    assert(w@.subrange(0, w.len() as int) =~= w@);
                }
                let idx = n as usize;
                if idx > 0 && idx <= modulos.len() {
                    let ghost before = views(picked@);
                    picked.push(modulos[idx - 1].clone());
                    proof {
                        assert(views(picked@) =~= before.push(mv[idx - 1]));
                    }
                } else {
                    ignored.push(Descartado::FueraDeRango(idx));
                }
            },
            None => {
                proof {
                    assert(w@.subrange(0, w.len() as int) =~= w@);
                }
                ignored.push(Descartado::NoNumero(string_from_chars(w.as_slice())));
            },
        }
        i = i + 1;
    }
    proof {
        assert(wv.take(ws.len() as int) =~= wv);
    }
    (picked, ignored)
}

/// What the PHP status screen shows: the CLI version printed by `php -r`
/// (as printed) when that command succeeded, and the trimmed versions
/// listed by the Apache query when it succeeded with some output.
pub open spec fn php_status(cli: Option<Seq<char>>, apache: Option<Seq<char>>) -> (Seq<char>, Seq<char>) {
    (
        match cli {
            Some(t) => t,
            None => "No instalado o no disponible"@,
        },
        match apache {
            Some(t) => if t.len() > 0 { trim(t) } else { "Ningún módulo de PHP activo"@ },
            None => "Ningún módulo de PHP activo"@,
        },
    )
}

/// The two lines of the PHP status screen, from the output of each query
/// (`None` when the query failed).
pub fn php_activo(cli: Option<&str>, apache: Option<&str>) -> (r: (String, String))
    ensures
        (r.0@, r.1@) == php_status(
            match cli { Some(t) => Some(t@), None => None },
            match apache { Some(t) => Some(t@), None => None },
        ),
{
    let a = match cli {
        Some(t) => string_from_chars(chars_of(t).as_slice()),
        None => string_from_chars(chars_of("No instalado o no disponible").as_slice()),
    };
    let b = match apache {
        Some(t) => {
            if !t.is_empty() {
                string_from_chars(trim_chars(&chars_of(t)).as_slice())
            } else {
                string_from_chars(chars_of("Ningún módulo de PHP activo").as_slice())
            }
        },
        None => string_from_chars(chars_of("Ningún módulo de PHP activo").as_slice()),
    };
    (a, b)
}

} // verus!
