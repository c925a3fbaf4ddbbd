//! Server services: the language, driver and reboot prompts, and the
//! launcher installed for running the tool from anywhere.
use vstd::prelude::*;
use crate::text::{decimal, lemma_decimal_trim, lemma_decimal_unique, lemma_decimal_digit, lemma_parse_decimal, chars_of, string_from_chars, push_str, trim, trim_chars, parse_uint, parse_uint_chars, is_text, is_text_ci, eq_ci};

verus! {

/// Where the tool installs its own binary.
pub const TARGET_BIN: &'static str = "/usr/local/bin/runaserver-bin";

/// Where the tool installs the launcher that elevates privileges.
pub const TARGET_WRAPPER: &'static str = "/usr/local/bin/runaserver";

/// The interface language picked at the language prompt.
#[derive(PartialEq, Eq, Structural, Debug, Clone, Copy)]
pub enum Idioma {
    Ingles,
    Espanol,
    Invalido,
}

/// `1` or nothing picks English, `2` Spanish (after trimming).
pub open spec fn idioma_de(input: Seq<char>) -> Idioma {
    let t = trim(input);
    if t == "1"@ || t.len() == 0 {
        Idioma::Ingles
    } else if t == "2"@ {
        Idioma::Espanol
    } else {
        Idioma::Invalido
    }
}

/// The language that the answer to the language prompt picks.
pub fn select_language(opcion: &str) -> (r: Idioma)
    ensures
        r == idioma_de(opcion@),
{
    let t = trim_chars(&chars_of(opcion));
    if is_text(&t, "1") || t.len() == 0 {
        Idioma::Ingles
    } else if is_text(&t, "2") {
        Idioma::Espanol
    } else {
        Idioma::Invalido
    }
}

/// The kind of machine picked at the drivers prompt.
#[derive(PartialEq, Eq, Structural, Debug, Clone, Copy)]
pub enum Maquina {
    VirtualBox,
    VMWare,
    SinVm,
}

/// `1`, `2` or `3` (as a `u32`, after trimming) pick a machine.
pub open spec fn maquina_de(input: Seq<char>) -> Option<Maquina> {
    match parse_uint(trim(input), u32::MAX as nat) {
        Some(n) => if n == 1 {
            Some(Maquina::VirtualBox)
        } else if n == 2 {
            Some(Maquina::VMWare)
        } else if n == 3 {
            Some(Maquina::SinVm)
        } else {
            None
        },
        None => None,
    }
}

/// The drivers prompt lists `1` VirtualBox, `2` VMWare and `3` no virtual
/// machine: typing one of these numbers picks that machine, and any other
/// number (that fits a `u32`) picks nothing.
pub proof fn lemma_maquinas(k: nat)
    requires
        k <= u32::MAX,
    ensures
        k == 1 ==> maquina_de(decimal(k)) == Some(Maquina::VirtualBox),
        k == 2 ==> maquina_de(decimal(k)) == Some(Maquina::VMWare),
        k == 3 ==> maquina_de(decimal(k)) == Some(Maquina::SinVm),
        k == 0 || k > 3 ==> maquina_de(decimal(k)) is None,
{
    lemma_decimal_trim(k);
    lemma_parse_decimal(k, u32::MAX as nat);
}

/// The language prompt lists `1` English and `2` Spanish: `1`, or no
/// answer at all, picks English, `2` picks Spanish, and any other number
/// picks neither.
pub proof fn lemma_idiomas(k: nat)
    ensures
        k == 1 ==> idioma_de(decimal(k)) == Idioma::Ingles,
        k == 2 ==> idioma_de(decimal(k)) == Idioma::Espanol,
        k != 1 && k != 2 ==> idioma_de(decimal(k)) == Idioma::Invalido,
        idioma_de(Seq::empty()) == Idioma::Ingles,
{
    reveal_strlit("1");
    reveal_strlit("2");
    lemma_decimal_trim(k);
    lemma_decimal_digit(1);
    lemma_decimal_digit(2);
    assert(decimal(1) =~= "1"@);
    assert(decimal(2) =~= "2"@);
    lemma_decimal_unique(k, 1);
    lemma_decimal_unique(k, 2);
    crate::text::lemma_decimal(k);
    assert(trim(Seq::<char>::empty()) =~= Seq::<char>::empty());
}

/// The machine that the answer to the drivers prompt picks, if any.
pub fn drivers_needed(vm: &str) -> (r: Option<Maquina>)
    ensures
        r == maquina_de(vm@),
{
    let v = chars_of(vm);
    let t = trim_chars(&v);
    let seleccion: u64 = match parse_uint_chars(&t, 0, t.len(), 0xffff_ffffu64) {
        Some(n) => n,
        None => 0,
    };
    proof {
        assert(t@.subrange(0, t@.len() as int) =~= t@);
    }
    if seleccion == 1 {
        Some(Maquina::VirtualBox)
    } else if seleccion == 2 {
        Some(Maquina::VMWare)
    } else if seleccion == 3 {
        Some(Maquina::SinVm)
    } else {
        None
    }
}

impl Maquina {
    /// The key of `packages.json` that lists the packages for the machine.
    pub fn package_key(&self) -> (r: &'static str)
        ensures
            r@ == (match self {
                Maquina::VirtualBox => "pkg_virtualbox"@,
                Maquina::VMWare => "pkg_vmware"@,
                Maquina::SinVm => "pkg_no_vm"@,
            }),
    {
        match self {
            Maquina::VirtualBox => "pkg_virtualbox",
            Maquina::VMWare => "pkg_vmware",
            Maquina::SinVm => "pkg_no_vm",
        }
    }
}

/// A yes to the reboot prompt: `s`, `si`, `y` or `yes` in any case, after
/// trimming. (No character but the ASCII letters lowercases to these
/// letters, so this is `to_lowercase()` compared with them.)
pub open spec fn confirma(input: Seq<char>) -> bool {
    let t = trim(input);
    eq_ci(t, "s"@) || eq_ci(t, "si"@) || eq_ci(t, "y"@) || eq_ci(t, "yes"@)
}

/// Whether the answer to the reboot prompt confirms the reboot.
pub fn reboot(confirmacion: &str) -> (r: bool)
    ensures
        r == confirma(confirmacion@),
{
    let t = trim_chars(&chars_of(confirmacion));
    is_text_ci(&t, "s") || is_text_ci(&t, "si") || is_text_ci(&t, "y") || is_text_ci(&t, "yes")
}

/// The launcher script: runs `bin` directly as root, else through `pkexec`.
pub open spec fn launcher_script(bin: Seq<char>) -> Seq<char> {
    "#!/bin/sh\nif [ \"$EUID\" -eq 0 ]; then\n\texec \""@ + bin + "\" \"$@\"\nelse\n\texec pkexec \""@ + bin
        + "\" \"$@\"\nfi\n"@
}

/// The text of the launcher that `auto_start` installs for `bin`.
pub fn auto_start(bin: &str) -> (r: String)
    ensures
        r@ == launcher_script(bin@),
{
    let mut out: Vec<char> = Vec::new();
    push_str(&mut out, "#!/bin/sh\nif [ \"$EUID\" -eq 0 ]; then\n\texec \"");
    push_str(&mut out, bin);
    push_str(&mut out, "\" \"$@\"\nelse\n\texec pkexec \"");
    push_str(&mut out, bin);
    push_str(&mut out, "\" \"$@\"\nfi\n");
    string_from_chars(out.as_slice())
}

} // verus!
