//! Champs énumérés d'un écrit : statut et type, avec leur table de noms
//! et l'analyse d'un nom en valeur par comparaison normalisée, ainsi que
//! la marque d'intérêt d'un relecteur.

use vstd::prelude::*;

use crate::ecrit::Ecrit;
use crate::erreur::Erreur;
use crate::texte;

verus! {

/// Statut d'un écrit dans le circuit de critique.
#[derive(Clone, Copy, PartialEq, Eq, Structural, Debug)]
pub enum Status {
    Ouvert,
    EnAttente,
    Abandonne,
    EnPause,
    SansNouvelles,
    Inconnu,
    Publie,
    Valide,
    Refuse,
    Infraction,
    OuvertPlus,
}

impl Status {
    /// Nom affiché du statut.
    pub open spec fn etiquette_spec(self) -> Seq<char> {
        match self {
            Status::Ouvert => "Ouvert"@,
            Status::EnAttente => "En attente"@,
            Status::Abandonne => "Abandonné"@,
            Status::EnPause => "En pause"@,
            Status::SansNouvelles => "Sans nouvelles"@,
            Status::Inconnu => "Inconnu"@,
            Status::Publie => "Publié"@,
            Status::Valide => "Validé"@,
            Status::Refuse => "Refusé"@,
            Status::Infraction => "Infraction"@,
            Status::OuvertPlus => "Ouvert*"@,
        }
    }

    /// Nom affiché du statut.
    pub fn etiquette(&self) -> (r: String)
        ensures
            r@ == self.etiquette_spec(),
    {
        match self {
            Status::Ouvert => String::from_str("Ouvert"),
            Status::EnAttente => String::from_str("En attente"),
            Status::Abandonne => String::from_str("Abandonné"),
            Status::EnPause => String::from_str("En pause"),
            Status::SansNouvelles => String::from_str("Sans nouvelles"),
            Status::Inconnu => String::from_str("Inconnu"),
            Status::Publie => String::from_str("Publié"),
            Status::Valide => String::from_str("Validé"),
            Status::Refuse => String::from_str("Refusé"),
            Status::Infraction => String::from_str("Infraction"),
            Status::OuvertPlus => String::from_str("Ouvert*"),
        }
    }

    /// Statut dont le nom normalisé est `b`, s'il existe.
    pub open spec fn depuis_nom_spec(b: Seq<char>) -> Option<Status> {
        if b == "ouvert"@ {
            Some(Status::Ouvert)
        } else if b == "en attente"@ {
            Some(Status::EnAttente)
        } else if b == "abandonne"@ {
            Some(Status::Abandonne)
        } else if b == "en pause"@ {
            Some(Status::EnPause)
        } else if b == "sans nouvelles"@ {
            Some(Status::SansNouvelles)
        } else if b == "inconnu"@ {
            Some(Status::Inconnu)
        } else if b == "publie"@ {
            Some(Status::Publie)
        } else if b == "valide"@ {
            Some(Status::Valide)
        } else if b == "refuse"@ {
            Some(Status::Refuse)
        } else if b == "infraction"@ {
            Some(Status::Infraction)
        } else if b == "ouvert*"@ {
            Some(Status::OuvertPlus)
        } else {
            None
        }
    }

    /// Analyse un nom de statut, par comparaison normalisée.
    pub fn from_str(s: &str) -> (r: Result<Status, Erreur>)
        ensures
            match r {
                Ok(st) => Status::depuis_nom_spec(texte::basicize_spec(s@)) == Some(st),
                Err(e) => Status::depuis_nom_spec(texte::basicize_spec(s@)) is None && (match e {
                    Erreur::StatutInconnu(t) => t@ == s@,
                    _ => false,
                }),
            },
    {
        let b = texte::basicize(s);
        if texte::texte_egal(b.as_str(), "ouvert") {
            Ok(Status::Ouvert)
        } else if texte::texte_egal(b.as_str(), "en attente") {
            Ok(Status::EnAttente)
        } else if texte::texte_egal(b.as_str(), "abandonne") {
            Ok(Status::Abandonne)
        } else if texte::texte_egal(b.as_str(), "en pause") {
            Ok(Status::EnPause)
        } else if texte::texte_egal(b.as_str(), "sans nouvelles") {
            Ok(Status::SansNouvelles)
        } else if texte::texte_egal(b.as_str(), "inconnu") {
            Ok(Status::Inconnu)
        } else if texte::texte_egal(b.as_str(), "publie") {
            Ok(Status::Publie)
        } else if texte::texte_egal(b.as_str(), "valide") {
            Ok(Status::Valide)
        } else if texte::texte_egal(b.as_str(), "refuse") {
            Ok(Status::Refuse)
        } else if texte::texte_egal(b.as_str(), "infraction") {
            Ok(Status::Infraction)
        } else if texte::texte_egal(b.as_str(), "ouvert*") {
            Ok(Status::OuvertPlus)
        } else {
            Err(Erreur::StatutInconnu(String::from_str(s)))
        }
    }

    /// Nom du champ pour l'affichage.
    pub fn field_name() -> (r: &'static str)
        ensures
            r@ == "Statut"@,
    {
        "Statut"
    }

    /// L'écrit a le statut demandé ; aucun statut demandé accepte tout.
    pub fn comply_with(obj: &Ecrit, field: &Option<Status>) -> (r: bool)
        ensures
            r == match field {
                Some(f) => obj.status == f,
                None => true,
            },
    {
        match field {
            Some(f) => obj.status == *f,
            None => true,
        }
    }

    /// Change le statut de l'écrit et marque l'entrée à sauvegarder.
    pub fn set_for(obj: &mut Ecrit, field: &Status)
        ensures
            final(obj).status == field,
            final(obj).modified,
            final(obj).last_update == old(obj).last_update,
            final(obj).interets_spec() == old(obj).interets_spec(),
            Ecrit::meme_identite(*old(obj), *final(obj)),
    {
        obj.status = *field;
        obj.modified = true;
    }
}

/// Type d'un écrit.
#[derive(Clone, Copy, PartialEq, Eq, Structural, Debug)]
pub enum Type {
    Conte,
    Idee,
    Rapport,
    FormatGdi,
    Autre,
}

impl Type {
    /// Nom affiché du type.
    pub open spec fn etiquette_spec(self) -> Seq<char> {
        match self {
            Type::Conte => "Conte"@,
            Type::Idee => "Idée"@,
            Type::Rapport => "Rapport"@,
            Type::FormatGdi => "Format GdI"@,
            Type::Autre => "Autre"@,
        }
    }

    /// Nom affiché du type.
    pub fn etiquette(&self) -> (r: String)
        ensures
            r@ == self.etiquette_spec(),
    {
        match self {
            Type::Conte => String::from_str("Conte"),
            Type::Idee => String::from_str("Idée"),
            Type::Rapport => String::from_str("Rapport"),
            Type::FormatGdi => String::from_str("Format GdI"),
            Type::Autre => String::from_str("Autre"),
        }
    }

    /// Type dont le nom normalisé est `b`, s'il existe.
    pub open spec fn depuis_nom_spec(b: Seq<char>) -> Option<Type> {
        if b == "conte"@ {
            Some(Type::Conte)
        } else if b == "idee"@ {
            Some(Type::Idee)
        } else if b == "rapport"@ {
            Some(Type::Rapport)
        } else if b == "format gdi"@ {
            Some(Type::FormatGdi)
        } else if b == "autre"@ {
            Some(Type::Autre)
        } else {
            None
        }
    }

    /// Analyse un nom de type, par comparaison normalisée.
    pub fn from_str(s: &str) -> (r: Result<Type, Erreur>)
        ensures
            match r {
                Ok(t) => Type::depuis_nom_spec(texte::basicize_spec(s@)) == Some(t),
                Err(e) => Type::depuis_nom_spec(texte::basicize_spec(s@)) is None && (match e {
                    Erreur::TypeInconnu(t) => t@ == s@,
                    _ => false,
                }),
            },
    {
        let b = texte::basicize(s);
        if texte::texte_egal(b.as_str(), "conte") {
            Ok(Type::Conte)
        } else if texte::texte_egal(b.as_str(), "idee") {
            Ok(Type::Idee)
        } else if texte::texte_egal(b.as_str(), "rapport") {
            Ok(Type::Rapport)
        } else if texte::texte_egal(b.as_str(), "format gdi") {
            Ok(Type::FormatGdi)
        } else if texte::texte_egal(b.as_str(), "autre") {
            Ok(Type::Autre)
        } else {
            Err(Erreur::TypeInconnu(String::from_str(s)))
        }
    }

    /// Nom du champ pour l'affichage.
    pub fn field_name() -> (r: &'static str)
        ensures
            r@ == "Type"@,
    {
        "Type"
    }

    /// L'écrit a le type demandé ; aucun type demandé accepte tout.
    pub fn comply_with(obj: &Ecrit, field: &Option<Type>) -> (r: bool)
        ensures
            r == match field {
                Some(f) => obj.type_ == f,
                None => true,
            },
    {
        match field {
            Some(f) => obj.type_ == *f,
            None => true,
        }
    }

    /// Change le type de l'écrit et marque l'entrée à sauvegarder.
    pub fn set_for(obj: &mut Ecrit, field: &Type)
        ensures
            final(obj).type_ == field,
            final(obj).modified,
            final(obj).status == old(obj).status,
            final(obj).nom == old(obj).nom,
            final(obj).lien == old(obj).lien,
            final(obj).auteur == old(obj).auteur,
            final(obj).tags == old(obj).tags,
            final(obj).last_update == old(obj).last_update,
            final(obj).interets_spec() == old(obj).interets_spec(),
            final(obj).id_spec() == old(obj).id_spec(),
    {
        obj.type_ = *field;
        obj.modified = true;
    }

    /// Couleur d'affichage associée au type.
    pub fn get_color(&self) -> (r: i32)
        ensures
            r == match self {
                Type::Conte => 0x008000i32,
                Type::Idee => 0xDF7401i32,
                Type::Rapport => 0x01A9DBi32,
                Type::FormatGdi => 0xAE1FF1i32,
                Type::Autre => 0xFFFFFFi32,
            },
    {
        match self {
            Type::Conte => 0x008000,
            Type::Idee => 0xDF7401,
            Type::Rapport => 0x01A9DB,
            Type::FormatGdi => 0xAE1FF1,
            Type::Autre => 0xFFFFFF,
        }
    }
}

/// Marque d'intérêt d'un relecteur sur un écrit.
#[derive(Clone, Debug)]
pub struct Interet {
    /// Nom affiché du relecteur au moment de la marque.
    pub name: String,
    /// Date de la marque, en secondes d'époque.
    pub date: i64,
    /// Style de la marque (texte affiché, sans effet sur le comportement).
    pub type_: String,
    /// Identité numérique du relecteur ; 0 pour une marque par procuration.
    pub member: u64,
}

impl Interet {
    /// Texte affiché pour un code de style de marque.
    pub fn get_type(type_str: &str) -> (r: &str)
        ensures
            r@ == Interet::type_spec(type_str@),
    {
        if texte::texte_egal(type_str, "seul") {
            "⊙ Exclusif"
        } else if texte::texte_egal(type_str, "instant") {
            "⊟ Immédiat"
        } else if texte::texte_egal(type_str, "ouvert") {
            "⋄ Ouvert"
        } else if texte::texte_egal(type_str, "longterme") {
            "∙ Intérêt simple"
        } else if texte::texte_egal(type_str, "collab") {
            "⋇ Collab recherchée"
        } else {
            "Inconnu?"
        }
    }

    /// Texte affiché pour un code de style de marque.
    pub open spec fn type_spec(code: Seq<char>) -> Seq<char> {
        if code == "seul"@ {
            "⊙ Exclusif"@
        } else if code == "instant"@ {
            "⊟ Immédiat"@
        } else if code == "ouvert"@ {
            "⋄ Ouvert"@
        } else if code == "longterme"@ {
            "∙ Intérêt simple"@
        } else if code == "collab"@ {
            "⋇ Collab recherchée"@
        } else {
            "Inconnu?"@
        }
    }
}


/// Le nom affiché d'un statut, une fois normalisé, se relit comme le
/// même statut : la table des noms fait l'aller-retour.
pub proof fn lemme_nom_statut(st: Status)
    ensures
        Status::depuis_nom_spec(texte::basicize_spec(st.etiquette_spec())) == Some(st),
{
    reveal_strlit("Ouvert");
    reveal_strlit("ouvert");
    reveal_strlit("En attente");
    reveal_strlit("en attente");
    reveal_strlit("Abandonné");
    reveal_strlit("abandonne");
    reveal_strlit("En pause");
    reveal_strlit("en pause");
    reveal_strlit("Sans nouvelles");
    reveal_strlit("sans nouvelles");
    reveal_strlit("Inconnu");
    reveal_strlit("inconnu");
    reveal_strlit("Publié");
    reveal_strlit("publie");
    reveal_strlit("Validé");
    reveal_strlit("valide");
    reveal_strlit("Refusé");
    reveal_strlit("refuse");
    reveal_strlit("Infraction");
    reveal_strlit("infraction");
    reveal_strlit("Ouvert*");
    reveal_strlit("ouvert*");
    match st {
        Status::Ouvert => {
            assert(st.etiquette_spec() == "Ouvert"@);
            assert(texte::basicize_spec("Ouvert"@) =~= "ouvert"@);
            assert(Status::depuis_nom_spec("ouvert"@) == Some(Status::Ouvert));
        },
        Status::EnAttente => {
            assert(st.etiquette_spec() == "En attente"@);
            assert(texte::basicize_spec("En attente"@) =~= "en attente"@);
            assert(Status::depuis_nom_spec("en attente"@) == Some(Status::EnAttente));
        },
        Status::Abandonne => {
            assert(st.etiquette_spec() == "Abandonné"@);
            assert(texte::basicize_spec("Abandonné"@) =~= "abandonne"@);
            assert(Status::depuis_nom_spec("abandonne"@) == Some(Status::Abandonne));
        },
        Status::EnPause => {
            assert(st.etiquette_spec() == "En pause"@);
            assert(texte::basicize_spec("En pause"@) =~= "en pause"@);
            assert(Status::depuis_nom_spec("en pause"@) == Some(Status::EnPause));
        },
        Status::SansNouvelles => {
            assert(st.etiquette_spec() == "Sans nouvelles"@);
            assert(texte::basicize_spec("Sans nouvelles"@) =~= "sans nouvelles"@);
            assert(Status::depuis_nom_spec("sans nouvelles"@) == Some(Status::SansNouvelles));
        },
        Status::Inconnu => {
            assert(st.etiquette_spec() == "Inconnu"@);
            assert(texte::basicize_spec("Inconnu"@) =~= "inconnu"@);
            assert(Status::depuis_nom_spec("inconnu"@) == Some(Status::Inconnu));
        },
        Status::Publie => {
            assert(st.etiquette_spec() == "Publié"@);
            assert(texte::basicize_spec("Publié"@) =~= "publie"@);
            assert("publie"@ != "ouvert"@) by {
                if "publie"@ == "ouvert"@ {
                    assert("publie"@[0] == "ouvert"@[0]);
                }
            }
            assert(Status::depuis_nom_spec("publie"@) == Some(Status::Publie));
        },
        Status::Valide => {
            assert(st.etiquette_spec() == "Validé"@);
            assert(texte::basicize_spec("Validé"@) =~= "valide"@);
            assert("valide"@ != "ouvert"@) by {
                if "valide"@ == "ouvert"@ {
                    assert("valide"@[0] == "ouvert"@[0]);
                }
            }
            assert("valide"@ != "publie"@) by {
                if "valide"@ == "publie"@ {
                    assert("valide"@[0] == "publie"@[0]);
                }
            }
            assert(Status::depuis_nom_spec("valide"@) == Some(Status::Valide));
        },
        Status::Refuse => {
            assert(st.etiquette_spec() == "Refusé"@);
            assert(texte::basicize_spec("Refusé"@) =~= "refuse"@);
            assert("refuse"@ != "ouvert"@) by {
                if "refuse"@ == "ouvert"@ {
                    assert("refuse"@[0] == "ouvert"@[0]);
                }
            }
            assert("refuse"@ != "publie"@) by {
                if "refuse"@ == "publie"@ {
                    assert("refuse"@[0] == "publie"@[0]);
                }
            }
            assert("refuse"@ != "valide"@) by {
                if "refuse"@ == "valide"@ {
                    assert("refuse"@[0] == "valide"@[0]);
                }
            }
            assert(Status::depuis_nom_spec("refuse"@) == Some(Status::Refuse));
        },
        Status::Infraction => {
            assert(st.etiquette_spec() == "Infraction"@);
            assert(texte::basicize_spec("Infraction"@) =~= "infraction"@);
            assert("infraction"@ != "en attente"@) by {
                if "infraction"@ == "en attente"@ {
                    assert("infraction"@[0] == "en attente"@[0]);
                }
            }
            assert(Status::depuis_nom_spec("infraction"@) == Some(Status::Infraction));
        },
        Status::OuvertPlus => {
            assert(st.etiquette_spec() == "Ouvert*"@);
            assert(texte::basicize_spec("Ouvert*"@) =~= "ouvert*"@);
            assert("ouvert*"@ != "inconnu"@) by {
                if "ouvert*"@ == "inconnu"@ {
                    assert("ouvert*"@[0] == "inconnu"@[0]);
                }
            }
            assert(Status::depuis_nom_spec("ouvert*"@) == Some(Status::OuvertPlus));
        },
    }
}

/// Le nom affiché d'un type, une fois normalisé, se relit comme le même
/// type : la table des noms fait l'aller-retour.
pub proof fn lemme_nom_type(t: Type)
    ensures
        Type::depuis_nom_spec(texte::basicize_spec(t.etiquette_spec())) == Some(t),
{
    reveal_strlit("Conte");
    reveal_strlit("conte");
    reveal_strlit("Idée");
    reveal_strlit("idee");
    reveal_strlit("Rapport");
    reveal_strlit("rapport");
    reveal_strlit("Format GdI");
    reveal_strlit("format gdi");
    reveal_strlit("Autre");
    reveal_strlit("autre");
    match t {
        Type::Conte => {
            assert(t.etiquette_spec() == "Conte"@);
            assert(texte::basicize_spec("Conte"@) =~= "conte"@);
            assert(Type::depuis_nom_spec("conte"@) == Some(Type::Conte));
        },
        Type::Idee => {
            assert(t.etiquette_spec() == "Idée"@);
            assert(texte::basicize_spec("Idée"@) =~= "idee"@);
            assert(Type::depuis_nom_spec("idee"@) == Some(Type::Idee));
        },
        Type::Rapport => {
            assert(t.etiquette_spec() == "Rapport"@);
            assert(texte::basicize_spec("Rapport"@) =~= "rapport"@);
            assert(Type::depuis_nom_spec("rapport"@) == Some(Type::Rapport));
        },
        Type::FormatGdi => {
            assert(t.etiquette_spec() == "Format GdI"@);
            assert(texte::basicize_spec("Format GdI"@) =~= "format gdi"@);
            assert(Type::depuis_nom_spec("format gdi"@) == Some(Type::FormatGdi));
        },
        Type::Autre => {
            assert(t.etiquette_spec() == "Autre"@);
            assert(texte::basicize_spec("Autre"@) =~= "autre"@);
            assert("autre"@ != "conte"@) by {
                if "autre"@ == "conte"@ {
                    assert("autre"@[0] == "conte"@[0]);
                }
            }
            assert(Type::depuis_nom_spec("autre"@) == Some(Type::Autre));
        },
    }
}

} // verus!
