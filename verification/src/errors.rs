//! Classified storage errors and the mapping from raw engine messages
//! to the user-facing strings.

use vstd::prelude::*;
use vstd::string::*;
use crate::text::contains_seq;
use crate::text::str_contains;

verus! {

/// Why a store operation failed.
///
/// `ForeignKey` and `Unique` are constraint violations decided by the
/// data itself; `Storage` stands for any connectivity, disk or
/// corruption fault reported by the engine.
#[derive(Clone, Copy, PartialEq, Eq, Structural, Debug)]
pub enum StoreError {
    ForeignKey,
    Unique,
    Storage,
}

/// Turns a raw engine error message into the user-facing string:
/// foreign-key and uniqueness violations get a fixed message, anything
/// else is wrapped together with the operation's context.
pub fn map_db_error(err_msg: &str, context: &str) -> (r: String)
    ensures
        contains_seq(err_msg@, "FOREIGN KEY constraint failed"@) ==> r@
            == "Impossible de supprimer cet élément car il est utilisé ailleurs."@,
        !contains_seq(err_msg@, "FOREIGN KEY constraint failed"@) && contains_seq(
            err_msg@,
            "UNIQUE constraint failed"@,
        ) ==> r@ == "Un élément avec cet identifiant existe déjà."@,
        !contains_seq(err_msg@, "FOREIGN KEY constraint failed"@) && !contains_seq(
            err_msg@,
            "UNIQUE constraint failed"@,
        ) ==> r@ == "Erreur BDD ("@ + context@ + "): "@ + err_msg@,
{
    if str_contains(err_msg, "FOREIGN KEY constraint failed") {
        return String::from_str("Impossible de supprimer cet élément car il est utilisé ailleurs.");
    }
    if str_contains(err_msg, "UNIQUE constraint failed") {
        return String::from_str("Un élément avec cet identifiant existe déjà.");
    }
    let mut r = String::from_str("Erreur BDD (");
    r.append(context);
    r.append("): ");
    r.append(err_msg);
    r
}

} // verus!
