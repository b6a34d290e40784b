//! Erreurs du catalogue : jeton d'énumération inconnu, champ de
//! sérialisation manquant ou mal formé, lien sans identifiant, critère
//! d'auteur sans correspondance ou ambigu.

use vstd::prelude::*;

verus! {

#[derive(Debug)]
pub enum Erreur {
    /// Jeton de statut qui ne correspond à aucun statut connu.
    StatutInconnu(String),
    /// Jeton de type qui ne correspond à aucun type connu.
    TypeInconnu(String),
    /// Champ manquant ou mal formé dans un enregistrement sérialisé.
    ChampInvalide(String),
    /// Lien dont aucun identifiant ne peut être extrait.
    LienInvalide(String),
    /// Critère d'auteur sans aucune correspondance dans le catalogue.
    AuteurInconnu(String),
    /// Critère d'auteur correspondant à plus d'un auteur du catalogue.
    AuteurAmbigu(String),
}

impl Erreur {
    /// Message affichable pour l'utilisateur.
    pub fn message(&self) -> (r: String)
        ensures
            r@ == self.message_spec(),
    {
        match self {
            Erreur::StatutInconnu(t) => String::from_str("Statut ").concat(t.as_str()).concat(
                " inexistant.",
            ),
            Erreur::TypeInconnu(t) => String::from_str("Type ").concat(t.as_str()).concat(
                " inexistant.",
            ),
            Erreur::ChampInvalide(c) => String::from_str("Erreur de yaml dans un champ ").concat(
                c.as_str(),
            ).concat("."),
            Erreur::LienInvalide(l) => String::from_str(
                "Impossible d'extraire un identifiant du lien ",
            ).concat(l.as_str()).concat("."),
            Erreur::AuteurInconnu(c) => String::from_str(
                "Aucun auteur correspondant au critère ",
            ).concat(c.as_str()).concat(" trouvé dans la base de données."),
            Erreur::AuteurAmbigu(c) => String::from_str(
                "Plus d'un auteur de la base de donnée correspond au critère ",
            ).concat(c.as_str()).concat("."),
        }
    }

    pub open spec fn message_spec(&self) -> Seq<char> {
        match self {
            Erreur::StatutInconnu(t) => "Statut "@ + t@ + " inexistant."@,
            Erreur::TypeInconnu(t) => "Type "@ + t@ + " inexistant."@,
            Erreur::ChampInvalide(c) => "Erreur de yaml dans un champ "@ + c@ + "."@,
            Erreur::LienInvalide(l) => "Impossible d'extraire un identifiant du lien "@ + l@
                + "."@,
            Erreur::AuteurInconnu(c) => "Aucun auteur correspondant au critère "@ + c@
                + " trouvé dans la base de données."@,
            Erreur::AuteurAmbigu(c) => "Plus d'un auteur de la base de donnée correspond au critère "@
                + c@ + "."@,
        }
    }
}

} // verus!
