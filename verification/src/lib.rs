//! Catalogue d'écrits en cours de critique : cycle de vie des entrées,
//! réservations de relecture, moteur de recherche multicritère et
//! classification du flux de soumissions.

pub mod alea;
pub mod base;
pub mod ecrit;
pub mod erreur;
pub mod flux;
pub mod lien;
pub mod recherche;
pub mod texte;
pub mod titre;
pub mod valeur;

use vstd::prelude::*;

verus! {

} // verus!
