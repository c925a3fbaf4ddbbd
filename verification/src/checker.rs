//! The checks the interactive menus share (the same rules as in `public`).
use vstd::prelude::*;
use crate::public::{is_valid_name, is_valid_option, CommandStatus};

verus! {

/// Checks a site or database name (see `public::is_valid_name`).
pub fn valid_name(nombre: &str) -> (b: bool)
    ensures
        b == is_valid_name(nombre@),
{
    crate::public::valid_name(nombre)
}

/// Checks that the input picks one of `lista_len` listed options.
pub fn valid_input(input: &str, lista_len: usize) -> (b: bool)
    ensures
        b == is_valid_option(input@, lista_len as nat),
{
    crate::public::valid_input(input, lista_len)
}

/// Whether a command ran and succeeded (see `public::evaluate`).
pub fn evaluate(status: &CommandStatus) -> (b: bool)
    ensures
        b == (status matches CommandStatus::Exited { success: true, .. }),
{
    crate::public::evaluate(status)
}

} // verus!
