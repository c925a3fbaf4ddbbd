//! Shared helpers: name and menu-input validation, the packages that are
//! missing from a system, and the text blocks the menus print.
use vstd::prelude::*;
use crate::text::{push_str, push_all, replace_all, occurs, lemma_replace_absent, replace_chars, decimal, decimal_chars, chars_of, string_from_chars, trim, trim_chars, trim_bounds, parse_uint, parse_uint_chars, split_lines, lines_of};
use crate::data::views;
use serde_json::Value;

verus! {

// ---------------------------------------------------------------------------
// Names
// ---------------------------------------------------------------------------

pub open spec fn is_ascii_alnum(c: char) -> bool {
    ||| '0' <= c <= '9'
    ||| 'a' <= c <= 'z'
    ||| 'A' <= c <= 'Z'
}

/// A character allowed in a site or database name.
pub open spec fn name_char(c: char) -> bool {
    is_ascii_alnum(c) || c == '-' || c == '_'
}

/// A valid name: 1 to 64 bytes, only ASCII letters, digits, `-` and `_`,
/// and neither starting nor ending with `-` or `_`.
pub open spec fn is_valid_name(s: Seq<char>) -> bool {
    &&& s.len() > 0
    &&& s.len() <= 64
    &&& s[0] != '-' && s[0] != '_'
    &&& s.last() != '-' && s.last() != '_'
    &&& forall|i: int| 0 <= i < s.len() ==> name_char(#[trigger] s[i])
}

pub fn is_name_char(c: char) -> (b: bool)
    ensures
        b == name_char(c),
{
    ('0' <= c && c <= '9') || ('a' <= c && c <= 'z') || ('A' <= c && c <= 'Z') || c == '-' || c == '_'
}

/// Checks a site or database name (see `is_valid_name`).
pub fn valid_name(nombre: &str) -> (b: bool)
    ensures
        b == is_valid_name(nombre@),
{
    let cs = chars_of(nombre);
    if cs.len() == 0 || nombre.len() > 64 {
        proof {
            if cs.len() > 0 && is_valid_name(nombre@) {
                assert(vstd::utf8::is_ascii_chars(nombre@));
                vstd::utf8::is_ascii_chars_encode_utf8(nombre@);
            }
        }
        return false;
    }
    let n = cs.len();
    if cs[0] == '-' || cs[0] == '_' || cs[n - 1] == '-' || cs[n - 1] == '_' {
        return false;
    }
    let mut i: usize = 0;
    while i < n
        invariant
            i <= n == cs.len(),
            cs@ == nombre@,
            forall|j: int| 0 <= j < i ==> name_char(#[trigger] cs@[j]),
        decreases n - i,
    {
        if !is_name_char(cs[i]) {
            return false;
        }
        i = i + 1;
    }
    proof {
        assert(vstd::utf8::is_ascii_chars(nombre@));
        vstd::utf8::is_ascii_chars_encode_utf8(nombre@);
    }
    true
}

// ---------------------------------------------------------------------------
// Menu input
// ---------------------------------------------------------------------------

/// The number typed at a prompt: `input.trim().parse::<usize>()`.
pub open spec fn typed_number(input: Seq<char>) -> Option<nat> {
    parse_uint(trim(input), usize::MAX as nat)
}

/// The number typed at a prompt, if the trimmed input is one.
pub fn parse_option(input: &str) -> (r: Option<usize>)
    ensures
        r == (match typed_number(input@) {
            Some(n) => Some(n as usize),
            None => None,
        }),
{
    let cs = chars_of(input);
    let (a, b) = trim_bounds(&cs);
    match parse_uint_chars(&cs, a, b, usize::MAX as u64) {
        Some(n) => Some(n as usize),
        None => None,
    }
}

/// Whether the input is one of the options `1..=lista_len`.
pub open spec fn is_valid_option(input: Seq<char>, lista_len: nat) -> bool {
    match typed_number(input) {
        Some(n) => 1 <= n <= lista_len,
        None => false,
    }
}

/// Checks that the input picks one of `lista_len` listed options, counted
/// from 1.
pub fn valid_input(input: &str, lista_len: usize) -> (b: bool)
    ensures
        b == is_valid_option(input@, lista_len as nat),
{
    match parse_option(input) {
        Some(idx) => idx >= 1 && idx <= lista_len,
        None => false,
    }
}

/// An input that picks one of `len` options picks a position of the list:
/// the number typed, less one, is below `len`.
pub proof fn lemma_selected_option_in_range(input: Seq<char>, len: nat)
    requires
        is_valid_option(input, len),
    ensures
        0 <= typed_number(input)->0 - 1 < len,
{
}

/// The position, counted from 0, of the option that the input picks among
/// `len` options listed from 1; `None` when the input is no such number
/// (what `parse().unwrap_or(0)` and a range check reject).
pub fn select_index(input: &str, len: usize) -> (r: Option<usize>)
    ensures
        r == (if is_valid_option(input@, len as nat) {
            Some((typed_number(input@)->0 - 1) as usize)
        } else {
            None::<usize>
        }),
{
    let seleccion: usize = match parse_option(input) {
        Some(n) => n,
        None => 0,
    };
    if seleccion < 1 || seleccion > len {
        None
    } else {
        Some(seleccion - 1)
    }
}

// ---------------------------------------------------------------------------
// Installed and missing packages
// ---------------------------------------------------------------------------

pub open spec fn trim_all(ls: Seq<Seq<char>>) -> Seq<Seq<char>> {
    ls.map_values(|l: Seq<char>| trim(l))
}

/// The package names that `dpkg-query -W -f='${Package}\n'` printed: its
/// lines, trimmed, without the empty ones.
pub open spec fn installed_lines(salida: Seq<char>) -> Seq<Seq<char>> {
    trim_all(split_lines(salida)).filter(|l: Seq<char>| l.len() > 0)
}

/// The requested programs that are not among the installed ones, in order.
pub open spec fn missing(programas: Seq<Seq<char>>, instalados: Seq<Seq<char>>) -> Seq<Seq<char>> {
    programas.filter(|p: Seq<char>| !instalados.contains(p))
}

pub fn chars_eq(a: &Vec<char>, b: &Vec<char>) -> (r: bool)
    ensures
        r == (a@ == b@),
{
    if a.len() != b.len() {
        return false;
    }
    let mut i: usize = 0;
    while i < a.len()
        invariant
            i <= a.len() == b.len(),
            forall|j: int| 0 <= j < i ==> a@[j] == b@[j],
        decreases a.len() - i,
    {
        if a[i] != b[i] {
            return false;
        }
        i = i + 1;
    }
    proof {
        assert(a@ =~= b@);
    }
    true
}

/// Whether `x` is one of the sequences of `v`.
pub fn contains_chars(v: &Vec<Vec<char>>, x: &Vec<char>) -> (r: bool)
    ensures
        r == v@.map_values(|l: Vec<char>| l@).contains(x@),
{
    let ghost vs = v@.map_values(|l: Vec<char>| l@);
    let mut i: usize = 0;
    while i < v.len()
        invariant
            i <= v.len(),
            vs == v@.map_values(|l: Vec<char>| l@),
            forall|j: int| 0 <= j < i ==> vs[j] != x@,
        decreases v.len() - i,
    {
        if chars_eq(&v[i], x) {
            proof {
                assert(vs[i as int] == x@);
            }
            return true;
        }
        i = i + 1;
    }
    false
}

/// The trimmed nonempty lines of a text, as character vectors.
pub fn trimmed_lines(salida: &str) -> (inst: Vec<Vec<char>>)
    ensures
        inst@.map_values(|l: Vec<char>| l@) == installed_lines(salida@),
{
    let cs = chars_of(salida);
    let lines = lines_of(&cs);
    let ghost ls = split_lines(salida@);
    let mut inst: Vec<Vec<char>> = Vec::new();
    let mut i: usize = 0;
    while i < lines.len()
        invariant
            i <= lines.len(),
            lines@.map_values(|l: Vec<char>| l@) == ls,
            inst@.map_values(|l: Vec<char>| l@) == trim_all(ls.take(i as int)).filter(|l: Seq<char>| l.len() > 0),
        decreases lines.len() - i,
    {
        let t = trim_chars(&lines[i]);
        proof {
            reveal_with_fuel(Seq::<_>::filter, 1);
            assert(ls[i as int] == lines@[i as int]@);
            assert(trim_all(ls.take(i + 1)).drop_last() =~= trim_all(ls.take(i as int)));
            assert(trim_all(ls.take(i + 1)).last() == t@);
        }
        if t.len() > 0 {
            let ghost before = inst@.map_values(|l: Vec<char>| l@);
            inst.push(t);
            proof {
                assert(inst@.map_values(|l: Vec<char>| l@) =~= before.push(t@));
            }
        }
        i = i + 1;
    }
    proof {
        assert(ls.take(lines.len() as int) =~= ls);
    }
    inst
}

/// The trimmed nonempty lines of a command's output, in order.
pub fn nonempty_lines(salida: &str) -> (r: Vec<String>)
    ensures
        views(r@) == installed_lines(salida@),
{
    let inst = trimmed_lines(salida);
    crate::text::strings_of(&inst)
}

/// Every requested program is reported either missing or installed, never
/// both, and nothing else is reported missing.
pub proof fn lemma_missing_partition(programas: Seq<Seq<char>>, instalados: Seq<Seq<char>>)
    ensures
        forall|p: Seq<char>| programas.contains(p) ==> (missing(programas, instalados).contains(p) <==> !instalados.contains(p)),
        forall|p: Seq<char>| missing(programas, instalados).contains(p) ==> programas.contains(p) && !instalados.contains(p),
{
    let f = |p: Seq<char>| !instalados.contains(p);
    assert(missing(programas, instalados) == programas.filter(f));
    assert forall|p: Seq<char>| missing(programas, instalados).contains(p) implies programas.contains(p) && !instalados.contains(p) by {
        programas.lemma_filter_contains_rev(f, p);
        let k = choose|k: int| 0 <= k < programas.filter(f).len() && programas.filter(f)[k] == p;
        programas.lemma_filter_pred(f, k);
    }
    assert forall|p: Seq<char>| programas.contains(p) && !instalados.contains(p) implies missing(programas, instalados).contains(p) by {
        let k = choose|k: int| 0 <= k < programas.len() && programas[k] == p;
        programas.lemma_filter_contains(f, k);
    }
}

/// Which of `programas` are missing and which are installed, from the output
/// of `dpkg-query -W -f='${Package}\n' <programas...>` (empty when the command
/// could not run). Without programs the query is not made and both lists are
/// empty.
pub fn findout_software(programas: &[String], salida: &str) -> (r: (Vec<String>, Vec<String>))
    ensures
        programas@.len() == 0 ==> r.0@.len() == 0 && r.1@.len() == 0,
        programas@.len() > 0 ==> views(r.1@) == installed_lines(salida@),
        programas@.len() > 0 ==> views(r.0@) == missing(views(programas@), installed_lines(salida@)),
{
    if programas.len() == 0 {
        return (Vec::new(), Vec::new());
    }
    let inst = trimmed_lines(salida);
    let ghost installed = installed_lines(salida@);
    let ghost progs = views(programas@);
    let mut faltantes: Vec<String> = Vec::new();
    let mut k: usize = 0;
    while k < programas.len()
        invariant
            k <= programas.len(),
            progs == views(programas@),
            inst@.map_values(|l: Vec<char>| l@) == installed,
            views(faltantes@) == missing(progs.take(k as int), installed),
        decreases programas.len() - k,
    {
        let p = chars_of(programas[k].as_str());
        let found = contains_chars(&inst, &p);
        proof {
            reveal_with_fuel(Seq::<_>::filter, 1);
            assert(progs.take(k + 1).drop_last() =~= progs.take(k as int));
            assert(progs[k as int] == p@);
        }
        if !found {
            let ghost before = views(faltantes@);
            faltantes.push(programas[k].clone());
            proof {
                assert(views(faltantes@) =~= before.push(p@));
            }
        }
        k = k + 1;
    }
    proof {
        assert(progs.take(programas.len() as int) =~= progs);
    }
    let instalados = crate::text::strings_of(&inst);
    (faltantes, instalados)
}


// ---------------------------------------------------------------------------
// Screen blocks
// ---------------------------------------------------------------------------

/// `c` repeated `n` times (`str::repeat`).
pub open spec fn repeated(c: char, n: nat) -> Seq<char> {
    Seq::new(n, |i: int| c)
}

pub fn repeat_char(c: char, n: usize) -> (r: Vec<char>)
    ensures
        r@ == repeated(c, n as nat),
{
    let mut r: Vec<char> = Vec::new();
    let mut i: usize = 0;
    while i < n
        invariant
            i <= n,
            r@ == repeated(c, i as nat),
        decreases n - i,
    {
        r.push(c);
        i = i + 1;
        proof {
            assert(r@ =~= repeated(c, i as nat));
        }
    }
    r
}

/// A rule of `=` as wide as the terminal.
pub fn line(ancho: usize) -> (r: String)
    ensures
        r@ == repeated('=', ancho as nat),
{
    string_from_chars(repeat_char('=', ancho).as_slice())
}

/// `str::to_uppercase`: Unicode uppercase mapping of each character.
pub uninterp spec fn unicode_uppercase(s: Seq<char>) -> Seq<char>;

/// `str::to_uppercase` (std): the Unicode uppercase of the text; the mapping
/// tables are not restated here.
#[verifier::external_body]
fn to_uppercase(s: &str) -> (r: String)
    ensures
        r@ == unicode_uppercase(s@),
{
    s.to_uppercase()
}

/// How many spaces put a title of `largo` bytes in the middle of `ancho`
/// columns.
pub open spec fn left_padding(ancho: nat, largo: nat) -> nat {
    if ancho > largo {
        ((ancho - largo) / 2) as nat
    } else {
        0
    }
}

/// The three lines of a screen header: a rule, the uppercased title
/// centred by its length in bytes, and a rule.
pub fn print_header(titulo: &str, ancho: usize) -> (r: Vec<String>)
    ensures
        r.len() == 3,
        r@[0]@ == repeated('=', ancho as nat),
        r@[1]@ == repeated(' ', left_padding(ancho as nat, (vstd::utf8::encode_utf8(unicode_uppercase(titulo@)).len() as usize) as nat))
            + unicode_uppercase(titulo@),
        r@[2]@ == repeated('=', ancho as nat),
{
    let upper = to_uppercase(titulo);
    let largo = upper.as_str().len();
    let espacios = if ancho > largo { (ancho - largo) / 2 } else { 0 };
    let mut title = repeat_char(' ', espacios);
    push_str(&mut title, upper.as_str());
    let mut r: Vec<String> = Vec::new();
    r.push(line(ancho));
    r.push(string_from_chars(title.as_slice()));
    r.push(line(ancho));
    r
}

/// The lines of a numbered list of PHP versions: `1) PHP8.1`, ...
pub fn list_version(list: &[String]) -> (r: Vec<String>)
    ensures
        r.len() == list.len(),
        forall|i: int| 0 <= i < list.len() ==> (#[trigger] r@[i])@ == decimal((i + 1) as nat) + ") PHP"@ + list@[i]@,
{
    let mut r: Vec<String> = Vec::new();
    let mut i: usize = 0;
    while i < list.len()
        invariant
            i <= list.len(),
            r.len() == i,
            forall|j: int| 0 <= j < i ==> (#[trigger] r@[j])@ == decimal((j + 1) as nat) + ") PHP"@ + list@[j]@,
        decreases list.len() - i,
    {
        let mut l = decimal_chars(i as u64 + 1);
        push_str(&mut l, ") PHP");
        push_str(&mut l, list[i].as_str());
        r.push(string_from_chars(l.as_slice()));
        i = i + 1;
    }
    r
}

// ---------------------------------------------------------------------------
// Command results
// ---------------------------------------------------------------------------

/// How a command ended: it ran and exited (successfully or not, with an exit
/// code unless a signal ended it), or it could not be started.
pub enum CommandStatus {
    Exited { success: bool, code: Option<i32> },
    NotStarted,
}

/// Whether the command ran and succeeded; the other outcomes are reported
/// as a warning with the exit code, or as an error.
pub fn evaluate(status: &CommandStatus) -> (b: bool)
    ensures
        b == (status matches CommandStatus::Exited { success: true, .. }),
{
    match status {
        CommandStatus::Exited { success, .. } => *success,
        CommandStatus::NotStarted => false,
    }
}

/// `i32::to_string`.
pub open spec fn signed_decimal(n: int) -> Seq<char> {
    if n < 0 {
        seq!['-'] + decimal((-n) as nat)
    } else {
        decimal(n as nat)
    }
}

/// The exit code as reported: its number, or `?` when a signal ended the
/// command.
pub fn exit_code_text(code: Option<i32>) -> (r: String)
    ensures
        r@ == (match code {
            Some(c) => signed_decimal(c as int),
            None => seq!['?'],
        }),
{
    match code {
        Some(c) => {
            let mut out: Vec<char> = Vec::new();
            if c < 0 {
                out.push('-');
                let m: u64 = (0i64 - c as i64) as u64;
                let d = decimal_chars(m);
                push_all(&mut out, &d);
            } else {
                out = decimal_chars(c as u64);
            }
            string_from_chars(out.as_slice())
        },
        None => {
            let mut out: Vec<char> = Vec::new();
            out.push('?');
            string_from_chars(out.as_slice())
        },
    }
}

// ---------------------------------------------------------------------------
// Virtual host template
// ---------------------------------------------------------------------------

/// The virtual host rendered from the template: `{sitio}`, `{web_dir}` and
/// `{ver}` replaced, in that order.
pub open spec fn rendered_vhost(plantilla: Seq<char>, sitio: Seq<char>, web_dir: Seq<char>, ver: Seq<char>) -> Seq<char> {
    replace_all(replace_all(replace_all(plantilla, "{sitio}"@, sitio), "{web_dir}"@, web_dir), "{ver}"@, ver)
}

/// A template without any of the placeholders is written as it is.
pub proof fn lemma_vhost_plain_template(plantilla: Seq<char>, sitio: Seq<char>, web_dir: Seq<char>, ver: Seq<char>)
    requires
        !occurs(plantilla, "{sitio}"@),
        !occurs(plantilla, "{web_dir}"@),
        !occurs(plantilla, "{ver}"@),
    ensures
        rendered_vhost(plantilla, sitio, web_dir, ver) == plantilla,
{
    lemma_replace_absent(plantilla, "{sitio}"@, sitio);
    lemma_replace_absent(plantilla, "{web_dir}"@, web_dir);
    lemma_replace_absent(plantilla, "{ver}"@, ver);
}

/// Where a site's configuration file goes and what it holds, from the
/// `vhost.conf` template.
pub fn generate_vhost(plantilla: &str, sitio: &str, web_dir: &str, ver: &str) -> (r: (String, String))
    ensures
        r.0@ == "/etc/apache2/sites-available/"@ + sitio@ + ".conf"@,
        r.1@ == rendered_vhost(plantilla@, sitio@, web_dir@, ver@),
{
    let t = chars_of(plantilla);
    let p1 = chars_of("{sitio}");
    let p2 = chars_of("{web_dir}");
    let p3 = chars_of("{ver}");
    proof {
        reveal_strlit("{sitio}");
        reveal_strlit("{web_dir}");
        reveal_strlit("{ver}");
    }
    let c1 = replace_chars(&t, &p1, &chars_of(sitio));
    let c2 = replace_chars(&c1, &p2, &chars_of(web_dir));
    let c3 = replace_chars(&c2, &p3, &chars_of(ver));
    let mut ruta: Vec<char> = Vec::new();
    push_str(&mut ruta, "/etc/apache2/sites-available/");
    push_str(&mut ruta, sitio);
    push_str(&mut ruta, ".conf");
    (string_from_chars(ruta.as_slice()), string_from_chars(c3.as_slice()))
}

// ---------------------------------------------------------------------------
// Settings
// ---------------------------------------------------------------------------

/// The program's settings (stored as `settings.toml`).
pub struct Settings {
    pub admin_mode: bool,
}

impl Settings {
    /// The settings written when none exist yet.
    pub fn new() -> (s: Settings)
        ensures
            !s.admin_mode,
    {
        Settings { admin_mode: false }
    }

    /// Turns the administrator mode on or off (the caller then saves).
    pub fn set_admin_mode(&mut self, mode: bool)
        ensures
            final(self).admin_mode == mode,
    {
        self.admin_mode = mode;
    }
}


// ---------------------------------------------------------------------------
// Lists in the embedded JSON files
// ---------------------------------------------------------------------------

/// A JSON value inside a top-level field, as the lists read it: scalars
/// keep their text (a number as `serde_json` prints it); arrays and objects
/// nested there are only marked.
pub enum JsonScalar {
    Null,
    Bool(bool),
    Number(String),
    Str(String),
    Nested,
}

/// The value of a top-level field: an array of values, or one value.
pub enum JsonField {
    List(Vec<JsonScalar>),
    Single(JsonScalar),
}

/// The top-level fields of a JSON text, as `serde_json` parses it: `None`
/// for text that is not JSON, no fields for a document that is not an
/// object.
pub uninterp spec fn json_fields(text: Seq<char>) -> Option<Vec<(String, JsonField)>>;

/// `serde_json::from_str::<serde_json::Value>` (serde_json crate): parses the
/// text; the fields of a top-level object are handed back in the map's
/// order, each value converted variant by variant (numbers through their
/// `Display`). What parsing yields is left to the name `json_fields`.
#[verifier::external_body]
fn parse_json_fields(text: &str) -> (r: Option<Vec<(String, JsonField)>>)
    ensures
        r == json_fields(text@),
{
    let Value::Object(fields) = serde_json::from_str::<Value>(text).ok()? else {
        return Some(Vec::new());
    };
    let scalar = |x: Value| match x {
        Value::Null => JsonScalar::Null,
        Value::Bool(b) => JsonScalar::Bool(b),
        Value::Number(n) => JsonScalar::Number(n.to_string()),
        Value::String(s) => JsonScalar::Str(s),
        _ => JsonScalar::Nested,
    };
    let field = |x: Value| match x {
        Value::Array(a) => JsonField::List(a.into_iter().map(scalar).collect()),
        other => JsonField::Single(scalar(other)),
    };
    Some(fields.into_iter().map(|(k, x)| (k, field(x))).collect())
}

/// The text of a scalar in a list (`String`, `Number` and `Bool` only).
pub open spec fn scalar_text(x: JsonScalar) -> Option<Seq<char>> {
    match x {
        JsonScalar::Bool(b) => Some(if b { "true"@ } else { "false"@ }),
        JsonScalar::Number(n) => Some(n@),
        JsonScalar::Str(s) => Some(s@),
        _ => None,
    }
}

/// The texts of the scalars of an array, skipping the others.
pub open spec fn scalar_texts(xs: Seq<JsonScalar>) -> Seq<Seq<char>>
    decreases xs.len(),
{
    if xs.len() == 0 {
        Seq::empty()
    } else {
        match scalar_text(xs.last()) {
            Some(t) => scalar_texts(xs.drop_last()).push(t),
            None => scalar_texts(xs.drop_last()),
        }
    }
}

/// The list a field holds: the texts of an array's scalars, or the text of
/// a single scalar.
pub open spec fn field_texts(f: JsonField) -> Seq<Seq<char>> {
    match f {
        JsonField::List(xs) => scalar_texts(xs@),
        JsonField::Single(x) => match scalar_text(x) {
            Some(t) => seq![t],
            None => Seq::empty(),
        },
    }
}

/// The position of the first field named `clave`.
pub open spec fn field_index(fields: Seq<(String, JsonField)>, clave: Seq<char>) -> Option<nat>
    decreases fields.len(),
{
    if fields.len() == 0 {
        None
    } else if fields[0].0@ == clave {
        Some(0)
    } else {
        match field_index(fields.drop_first(), clave) {
            Some(k) => Some(k + 1),
            None => None,
        }
    }
}

/// The list stored under `clave` among parsed fields: empty when there is
/// no such field.
pub open spec fn fields_list(fields: Seq<(String, JsonField)>, clave: Seq<char>) -> Seq<Seq<char>> {
    match field_index(fields, clave) {
        Some(k) => field_texts(fields[k as int].1),
        None => Seq::empty(),
    }
}

/// The list stored under `clave` in a JSON text: empty when the text is not
/// JSON or has no such field.
pub open spec fn json_list(contenido: Seq<char>, clave: Seq<char>) -> Seq<Seq<char>> {
    match json_fields(contenido) {
        Some(fields) => fields_list(fields@, clave),
        None => Seq::empty(),
    }
}

fn scalar_string(x: &JsonScalar) -> (r: Option<String>)
    ensures
        scalar_text(*x) == (match r {
            Some(s) => Some(s@),
            None => None,
        }),
{
    match x {
        JsonScalar::Bool(b) => {
            if *b {
                Some(string_from_chars(chars_of("true").as_slice()))
            } else {
                Some(string_from_chars(chars_of("false").as_slice()))
            }
        },
        JsonScalar::Number(n) => Some(string_from_chars(chars_of(n.as_str()).as_slice())),
        JsonScalar::Str(t) => Some(string_from_chars(chars_of(t.as_str()).as_slice())),
        _ => None,
    }
}

/// The list under `clave` in the embedded file `archivo`, whose text is
/// `contenido` (`None` when the file is not embedded). Nothing is read when
/// the file or key name is empty.
pub fn search_json(archivo: &str, clave: &str, contenido: Option<&str>) -> (r: Vec<String>)
    ensures
        views(r@) == (if archivo@.len() == 0 || clave@.len() == 0 {
            Seq::empty()
        } else {
            match contenido {
                Some(t) => json_list(t@, clave@),
                None => Seq::empty(),
            }
        }),
{
    if clave.is_empty() || archivo.is_empty() {
        let r: Vec<String> = Vec::new();
        proof {
            assert(views(r@) =~= Seq::<Seq<char>>::empty());
        }
        return r;
    }
    let text = match contenido {
        Some(t) => t,
        None => {
            let r: Vec<String> = Vec::new();
            proof {
                assert(views(r@) =~= Seq::<Seq<char>>::empty());
            }
            return r;
        },
    };
    match parse_json_fields(text) {
        Some(fields) => list_in_fields(&fields, clave),
        None => {
            let r: Vec<String> = Vec::new();
            proof {
                assert(views(r@) =~= Seq::<Seq<char>>::empty());
            }
            r
        },
    }
}

/// The list under `clave` among the fields of a parsed JSON document: the
/// texts of the first such field's scalars.
pub fn list_in_fields(fields: &Vec<(String, JsonField)>, clave: &str) -> (r: Vec<String>)
    ensures
        views(r@) == fields_list(fields@, clave@),
{
    let key = chars_of(clave);
    let mut i: usize = 0;
    proof {
        assert(fields@.skip(0) =~= fields@);
    }
    while i < fields.len()
        invariant
            i <= fields.len(),
            key@ == clave@,
            field_index(fields@, clave@) == (match field_index(fields@.skip(i as int), clave@) {
                Some(k) => Some((k + i) as nat),
                None => None,
            }),
        decreases fields.len() - i,
    {
        let name = chars_of(fields[i].0.as_str());
        proof {
            assert(fields@.skip(i as int)[0] == fields@[i as int]);
        }
        if chars_eq(&name, &key) {
            proof {
                assert(field_index(fields@.skip(i as int), clave@) == Some(0nat));
                assert(field_index(fields@, clave@) == Some(i as nat));
            }
            let mut out: Vec<String> = Vec::new();
            match &fields[i].1 {
                JsonField::List(xs) => {
                    let mut j: usize = 0;
                    while j < xs.len()
                        invariant
                            j <= xs.len(),
                            views(out@) == scalar_texts(xs@.take(j as int)),
                        decreases xs.len() - j,
                    {
                        proof {
                            assert(xs@.take(j + 1).drop_last() =~= xs@.take(j as int));
                            assert(xs@.take(j + 1).last() == xs@[j as int]);
                        }
                        match scalar_string(&xs[j]) {
                            Some(t) => {
                                let ghost before = views(out@);
                                out.push(t);
                                proof {
                                    assert(views(out@) =~= before.push(t@));
                                }
                            },
                            None => {},
                        }
                        j = j + 1;
                    }
                    proof {
                        assert(xs@.take(xs.len() as int) =~= xs@);
                        assert(views(out@) == field_texts(fields@[i as int].1));
                    }
                },
                JsonField::Single(x) => {
                    match scalar_string(x) {
                        Some(t) => {
                            out.push(t);
                            proof {
                                assert(views(out@) =~= seq![out@[0]@]);
                            }
                        },
                        None => {
                            proof {
                                assert(views(out@) =~= Seq::<Seq<char>>::empty());
                            }
                        },
                    }
                },
            }
            return out;
        }
        proof {
            assert(fields@.skip(i as int).drop_first() =~= fields@.skip(i + 1));
        }
        i = i + 1;
    }
    let r: Vec<String> = Vec::new();
    proof {
        assert(fields@.skip(i as int).len() == 0);
        assert(views(r@) =~= Seq::<Seq<char>>::empty());
    }
    r
}

} // verus!
