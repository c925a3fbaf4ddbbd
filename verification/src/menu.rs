//! The main menu and its submenus: which entry an answer picks.
use vstd::prelude::*;
use crate::text::{chars_of, trim, trim_start, trim_end, is_ws, trim_chars, is_text, decimal, digit_char, lemma_digit_char, lemma_decimal_trim};

verus! {

/// The entries of the main menu.
#[derive(PartialEq, Eq, Structural, Debug, Clone, Copy)]
pub enum MenuPrincipal {
    ActualizarServidor,
    CambiarPasswdRoot,
    InstalarNecesario,
    Drivers,
    PermisosWww,
    InstalarCms,
    AutoInicio,
    Php,
    Apache,
    Mysql,
    ConocerIp,
    Idioma,
    Salir,
    Reiniciar,
    Ninguna,
}

/// The main-menu entry the trimmed answer names: its number, or for the
/// submenus also their name, `0`/`exit` to leave, `?`/`reboot`/`00` to
/// reboot.
pub open spec fn principal_de(input: Seq<char>) -> MenuPrincipal {
    let t = trim(input);
    if t == "1"@ {
        MenuPrincipal::ActualizarServidor
    } else if t == "2"@ {
        MenuPrincipal::CambiarPasswdRoot
    } else if t == "3"@ {
        MenuPrincipal::InstalarNecesario
    } else if t == "4"@ {
        MenuPrincipal::Drivers
    } else if t == "5"@ {
        MenuPrincipal::PermisosWww
    } else if t == "6"@ {
        MenuPrincipal::InstalarCms
    } else if t == "7"@ {
        MenuPrincipal::AutoInicio
    } else if t == "8"@ || t == "PHP"@ || t == "php"@ {
        MenuPrincipal::Php
    } else if t == "9"@ || t == "Apache"@ || t == "APACHE"@ || t == "apache"@ {
        MenuPrincipal::Apache
    } else if t == "10"@ || t == "MySQL"@ || t == "mysql"@ || t == "MYSQL"@ {
        MenuPrincipal::Mysql
    } else if t == "11"@ {
        MenuPrincipal::ConocerIp
    } else if t == "12"@ {
        MenuPrincipal::Idioma
    } else if t == "0"@ || t == "exit"@ {
        MenuPrincipal::Salir
    } else if t == "?"@ || t == "reboot"@ || t == "00"@ {
        MenuPrincipal::Reiniciar
    } else {
        MenuPrincipal::Ninguna
    }
}

/// The entries the main menu prints as `[1]` to `[12]`, in that order.
pub open spec fn entradas_impresas() -> Seq<MenuPrincipal> {
    seq![
        MenuPrincipal::ActualizarServidor,
        MenuPrincipal::CambiarPasswdRoot,
        MenuPrincipal::InstalarNecesario,
        MenuPrincipal::Drivers,
        MenuPrincipal::PermisosWww,
        MenuPrincipal::InstalarCms,
        MenuPrincipal::AutoInicio,
        MenuPrincipal::Php,
        MenuPrincipal::Apache,
        MenuPrincipal::Mysql,
        MenuPrincipal::ConocerIp,
        MenuPrincipal::Idioma,
    ]
}

/// Every number the main menu prints picks the entry printed beside it:
/// typing `n` (for `n` from 1 to 12) gives the `n`-th listed entry, never
/// nothing; `0` leaves and `00` reboots.
pub proof fn lemma_numeros_del_menu(n: nat)
    requires
        1 <= n <= 12,
    ensures
        principal_de(decimal(n)) == entradas_impresas()[n - 1],
        principal_de(decimal(n)) != MenuPrincipal::Ninguna,
        principal_de("0"@) == MenuPrincipal::Salir,
        principal_de("00"@) == MenuPrincipal::Reiniciar,
{
    reveal_strlit("1");
    reveal_strlit("2");
    reveal_strlit("3");
    reveal_strlit("4");
    reveal_strlit("5");
    reveal_strlit("6");
    reveal_strlit("7");
    reveal_strlit("8");
    reveal_strlit("9");
    reveal_strlit("10");
    reveal_strlit("11");
    reveal_strlit("12");
    reveal_strlit("0");
    reveal_strlit("00");
    reveal_strlit("PHP");
    reveal_strlit("php");
    reveal_strlit("Apache");
    reveal_strlit("APACHE");
    reveal_strlit("apache");
    reveal_strlit("MySQL");
    reveal_strlit("mysql");
    reveal_strlit("MYSQL");
    reveal_strlit("exit");
    reveal_strlit("?");
    reveal_strlit("reboot");
    reveal_with_fuel(decimal, 2);
    let d = decimal(n);
    lemma_digit_char(1);
    lemma_digit_char(n % 10);
    if n < 10 {
        lemma_digit_char(n);
        assert(d =~= seq![digit_char(n)]);
    } else {
        assert(decimal(n / 10) =~= seq![digit_char(1)]);
        assert(d =~= seq![digit_char(1), digit_char((n % 10) as nat)]);
    }
    if n == 1 { assert(d =~= "1"@); }
    else if n == 2 { assert(d =~= "2"@); }
    else if n == 3 { assert(d =~= "3"@); }
    else if n == 4 { assert(d =~= "4"@); }
    else if n == 5 { assert(d =~= "5"@); }
    else if n == 6 { assert(d =~= "6"@); }
    else if n == 7 { assert(d =~= "7"@); }
    else if n == 8 { assert(d =~= "8"@); }
    else if n == 9 { assert(d =~= "9"@); }
    else if n == 10 { assert(d =~= "10"@); }
    else if n == 11 { assert(d =~= "11"@); }
    else { assert(d =~= "12"@); }
    assert(!is_ws(d[0]) && !is_ws(d.last()));
    assert(trim_start(d) == d);
    assert(trim_end(d) == d);
    assert(trim(d) == d);
    assert(trim("0"@) == "0"@) by {
        assert(trim_start("0"@) == "0"@);
        assert(trim_end("0"@) == "0"@);
    }
    assert(trim("00"@) == "00"@) by {
        assert(trim_start("00"@) == "00"@);
        assert(trim_end("00"@) == "00"@);
    }
}

/// Different printed numbers pick different entries of the main menu.
pub proof fn lemma_numeros_distintos(m: nat, n: nat)
    requires
        1 <= m <= 12,
        1 <= n <= 12,
        m != n,
    ensures
        principal_de(decimal(m)) != principal_de(decimal(n)),
{
    lemma_numeros_del_menu(m);
    lemma_numeros_del_menu(n);
}

/// The main-menu entry an answer picks.
pub fn opcion_principal(opcion: &str) -> (r: MenuPrincipal)
    ensures
        r == principal_de(opcion@),
{
    let t = trim_chars(&chars_of(opcion));
    if is_text(&t, "1") {
        MenuPrincipal::ActualizarServidor
    } else if is_text(&t, "2") {
        MenuPrincipal::CambiarPasswdRoot
    } else if is_text(&t, "3") {
        MenuPrincipal::InstalarNecesario
    } else if is_text(&t, "4") {
        MenuPrincipal::Drivers
    } else if is_text(&t, "5") {
        MenuPrincipal::PermisosWww
    } else if is_text(&t, "6") {
        MenuPrincipal::InstalarCms
    } else if is_text(&t, "7") {
        MenuPrincipal::AutoInicio
    } else if is_text(&t, "8") || is_text(&t, "PHP") || is_text(&t, "php") {
        MenuPrincipal::Php
    } else if is_text(&t, "9") || is_text(&t, "Apache") || is_text(&t, "APACHE") || is_text(&t, "apache") {
        MenuPrincipal::Apache
    } else if is_text(&t, "10") || is_text(&t, "MySQL") || is_text(&t, "mysql") || is_text(&t, "MYSQL") {
        MenuPrincipal::Mysql
    } else if is_text(&t, "11") {
        MenuPrincipal::ConocerIp
    } else if is_text(&t, "12") {
        MenuPrincipal::Idioma
    } else if is_text(&t, "0") || is_text(&t, "exit") {
        MenuPrincipal::Salir
    } else if is_text(&t, "?") || is_text(&t, "reboot") || is_text(&t, "00") {
        MenuPrincipal::Reiniciar
    } else {
        MenuPrincipal::Ninguna
    }
}

/// An entry of a submenu: a numbered action, going back, or nothing.
#[derive(PartialEq, Eq, Structural, Debug, Clone, Copy)]
pub enum Submenu {
    Accion(u8),
    Volver,
    Ninguna,
}

/// The submenu entry the trimmed answer names, among actions `1..=n`
/// (a single digit); an empty answer, `0` or `exit` goes back.
pub open spec fn submenu_de(input: Seq<char>, n: u8) -> Submenu {
    let t = trim(input);
    if t.len() == 0 || t == "0"@ || t == "exit"@ {
        Submenu::Volver
    } else if t.len() == 1 && '1' <= t[0] <= '9' && (t[0] as u32 - '0' as u32) <= n {
        Submenu::Accion((t[0] as u32 - '0' as u32) as u8)
    } else {
        Submenu::Ninguna
    }
}

/// In a submenu of `n` actions, typing the number `k` of a listed action
/// (`1 <= k <= n`) picks that action, a digit beyond `n` picks nothing,
/// and an empty answer or `0` goes back.
pub proof fn lemma_submenu_numeros(k: nat, n: u8)
    requires
        1 <= k <= 9,
    ensures
        k <= n ==> submenu_de(decimal(k), n) == Submenu::Accion(k as u8),
        k > n ==> submenu_de(decimal(k), n) == Submenu::Ninguna,
        submenu_de(Seq::empty(), n) == Submenu::Volver,
        submenu_de(decimal(0), n) == Submenu::Volver,
{
    reveal_strlit("0");
    reveal_strlit("exit");
    lemma_digit_char(k);
    lemma_digit_char(0);
    lemma_decimal_trim(k);
    lemma_decimal_trim(0);
    assert(decimal(k) =~= seq![digit_char(k)]);
    assert(decimal(0) =~= seq![digit_char(0)]);
    assert(decimal(0) =~= "0"@);
    assert(decimal(k) != "0"@);
    assert(trim(Seq::<char>::empty()) =~= Seq::<char>::empty());
}

/// The submenu entry an answer picks, among actions `1..=n`.
pub fn opcion_submenu(opcion: &str, n: u8) -> (r: Submenu)
    ensures
        r == submenu_de(opcion@, n),
{
    let t = trim_chars(&chars_of(opcion));
    if t.len() == 0 || is_text(&t, "0") || is_text(&t, "exit") {
        Submenu::Volver
    } else if t.len() == 1 && '1' <= t[0] && t[0] <= '9' && (t[0] as u32 - '0' as u32) <= n as u32 {
        Submenu::Accion((t[0] as u32 - '0' as u32) as u8)
    } else {
        Submenu::Ninguna
    }
}

} // verus!
