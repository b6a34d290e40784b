//! L'enregistrement sérialisable d'un écrit : un arbre de valeurs
//! simples (textes, entiers, booléens, listes, tables) que la couche de
//! persistance traduit vers son format de stockage. L'identifiant n'est
//! jamais stocké : il est re-dérivé du lien au chargement, et un lien
//! sans identifiant rend l'enregistrement fatalement invalide.

use vstd::prelude::*;

use crate::ecrit::fields::{Interet, Status, Type};
use crate::ecrit::Ecrit;
use crate::erreur::Erreur;
use crate::lien;
use crate::texte;

verus! {

/// Une valeur simple d'un enregistrement sérialisé.
#[derive(Debug)]
pub enum Valeur {
    Texte(String),
    Entier(i64),
    Booleen(bool),
    Liste(Vec<Valeur>),
    Table(Vec<(String, Valeur)>),
}

/// Première valeur de la table sous la clé donnée.
pub open spec fn cherche_spec(t: Seq<(String, Valeur)>, cle: Seq<char>, de: int) -> Option<Valeur>
    decreases t.len() - de,
{
    if de < 0 || de >= t.len() {
        None
    } else if t[de].0@ == cle {
        Some(t[de].1)
    } else {
        cherche_spec(t, cle, de + 1)
    }
}

fn chercher<'a>(t: &'a Vec<(String, Valeur)>, cle: &str) -> (r: Option<&'a Valeur>)
    ensures
        match r {
            Some(v) => cherche_spec(t@, cle@, 0) == Some(*v),
            None => cherche_spec(t@, cle@, 0) is None,
        },
{
    let n = t.len();
    let mut i: usize = 0;
    while i < n
        invariant
            n == t@.len(),
            i <= n,
            forall|k: int| 0 <= k < i ==> (#[trigger] t@[k].0)@ != cle@,
            cherche_spec(t@, cle@, i as int) == cherche_spec(t@, cle@, 0),
        decreases n - i,
    {
        if texte::texte_egal(t[i].0.as_str(), cle) {
            return Some(&t[i].1);
        }
        i = i + 1;
    }
    None
}

/// La forme sérialisée d'une marque d'intérêt : nom, date, style et
/// identité (l'identité est stockée comme entier signé).
pub open spec fn interet_forme(it: Interet, v: Valeur) -> bool {
    &&& v matches Valeur::Table(t)
    &&& (v matches Valeur::Table(t) ==> {
        &&& t@.len() == 4
        &&& t@[0].0@ == "name"@ && t@[0].1 == Valeur::Texte(it.name)
        &&& t@[1].0@ == "date"@ && t@[1].1 == Valeur::Entier(it.date)
        &&& t@[2].0@ == "type"@ && t@[2].1 == Valeur::Texte(it.type_)
        &&& t@[3].0@ == "member"@ && t@[3].1 == Valeur::Entier(it.member as i64)
    })
}

/// La forme sérialisée d'un écrit : ses champs dans un ordre fixe,
/// statut et type sous leur nom affiché, marques et tags en listes
/// ordonnées, sans l'identifiant.
pub open spec fn serialize_forme(e: Ecrit, v: Valeur) -> bool {
    &&& v matches Valeur::Table(t)
    &&& (v matches Valeur::Table(t) ==> {
        &&& t@.len() == 9
        &&& t@[0].0@ == "nom"@ && t@[0].1 == Valeur::Texte(e.nom)
        &&& t@[1].0@ == "lien"@ && t@[1].1 == Valeur::Texte(e.lien)
        &&& t@[2].0@ == "type"@ && (t@[2].1 matches Valeur::Texte(x) && x@
            == e.type_.etiquette_spec())
        &&& t@[3].0@ == "status"@ && (t@[3].1 matches Valeur::Texte(x) && x@
            == e.status.etiquette_spec())
        &&& t@[4].0@ == "lastUpdate"@ && t@[4].1 == Valeur::Entier(e.last_update)
        &&& t@[5].0@ == "auteur"@ && t@[5].1 == Valeur::Texte(e.auteur)
        &&& t@[6].0@ == "edited"@ && t@[6].1 == Valeur::Booleen(e.modified)
        &&& t@[7].0@ == "interesses"@ && (t@[7].1 matches Valeur::Liste(li) && li@.len()
            == e.interets_spec().len() && forall|k: int|
            0 <= k < li@.len() ==> interet_forme(e.interets_spec()[k], #[trigger] li@[k]))
        &&& t@[8].0@ == "tags"@ && (t@[8].1 matches Valeur::Liste(lt) && lt@.len() == e.tags@.len()
            && forall|k: int|
            0 <= k < lt@.len() ==> #[trigger] lt@[k] == Valeur::Texte(e.tags@[k]))
    })
}

/// Texte rangé sous la clé, s'il y en a un.
pub open spec fn champ_texte(t: Seq<(String, Valeur)>, cle: Seq<char>) -> Option<String> {
    match cherche_spec(t, cle, 0) {
        Some(Valeur::Texte(x)) => Some(x),
        _ => None,
    }
}

/// Entier rangé sous la clé, s'il y en a un.
pub open spec fn champ_entier(t: Seq<(String, Valeur)>, cle: Seq<char>) -> Option<i64> {
    match cherche_spec(t, cle, 0) {
        Some(Valeur::Entier(d)) => Some(d),
        _ => None,
    }
}

/// Booléen rangé sous la clé, s'il y en a un.
pub open spec fn champ_booleen(t: Seq<(String, Valeur)>, cle: Seq<char>) -> Option<bool> {
    match cherche_spec(t, cle, 0) {
        Some(Valeur::Booleen(b)) => Some(b),
        _ => None,
    }
}

/// Liste rangée sous la clé, s'il y en a une.
pub open spec fn champ_liste(t: Seq<(String, Valeur)>, cle: Seq<char>) -> Option<Seq<Valeur>> {
    match cherche_spec(t, cle, 0) {
        Some(Valeur::Liste(l)) => Some(l@),
        _ => None,
    }
}

/// Table de l'enregistrement, s'il en est une.
pub open spec fn table_de(v: Valeur) -> Option<Seq<(String, Valeur)>> {
    match v {
        Valeur::Table(t) => Some(t@),
        _ => None,
    }
}

/// Les champs relus d'un enregistrement correspondent à l'écrit `e` :
/// la relation que `from_yaml` garantit de son résultat.
pub open spec fn lecture_forme(v: Valeur, e: Ecrit) -> bool {
    &&& table_de(v) is Some
    &&& ({
        let t = table_de(v).unwrap();
        &&& champ_texte(t, "lien"@) == Some(e.lien)
        &&& champ_texte(t, "nom"@) == Some(e.nom)
        &&& (champ_texte(t, "status"@) matches Some(x) && Status::depuis_nom_spec(
            texte::basicize_spec(x@),
        ) == Some(e.status))
        &&& (champ_texte(t, "type"@) matches Some(x) && Type::depuis_nom_spec(
            texte::basicize_spec(x@),
        ) == Some(e.type_))
        &&& champ_texte(t, "auteur"@) == Some(e.auteur)
        &&& (champ_liste(t, "interesses"@) matches Some(li) && li.len()
            == e.interets_spec().len() && forall|k: int|
            0 <= k < li.len() ==> interet_lu(#[trigger] li[k], e.interets_spec()[k]))
        &&& champ_booleen(t, "edited"@) == Some(e.modified)
        &&& (champ_liste(t, "tags"@) matches Some(lt) && lt.len() == e.tags@.len() && forall|
            k: int,
        |
            0 <= k < lt.len() ==> #[trigger] lt[k] == Valeur::Texte(e.tags@[k]))
        &&& champ_entier(t, "lastUpdate"@) == Some(e.last_update)
        &&& lien::extraire_id_spec(e.lien@) == Some(e.id_spec())
    })
}

/// Une marque relue : mêmes champs, identité rendue non signée.
pub open spec fn interet_lu(v: Valeur, it: Interet) -> bool {
    &&& table_de(v) is Some
    &&& ({
        let t = table_de(v).unwrap();
        &&& champ_texte(t, "name"@) == Some(it.name)
        &&& champ_entier(t, "date"@) == Some(it.date)
        &&& champ_texte(t, "type"@) == Some(it.type_)
        &&& (champ_entier(t, "member"@) matches Some(m) && m >= 0 && it.member == m as u64)
    })
}

/// L'enregistrement est bien formé : chaque champ présent et du bon
/// type, statut et type reconnus, identité de marque non négative, et
/// identifiant extractible du lien. C'est exactement la condition de
/// succès de `from_yaml`.
pub open spec fn enregistrement_bien_forme(v: Valeur) -> bool {
    &&& table_de(v) is Some
    &&& ({
        let t = table_de(v).unwrap();
        &&& (champ_texte(t, "lien"@) matches Some(l) && lien::extraire_id_spec(l@) is Some)
        &&& champ_texte(t, "nom"@) is Some
        &&& (champ_texte(t, "status"@) matches Some(x) && Status::depuis_nom_spec(
            texte::basicize_spec(x@),
        ) is Some)
        &&& (champ_texte(t, "type"@) matches Some(x) && Type::depuis_nom_spec(
            texte::basicize_spec(x@),
        ) is Some)
        &&& champ_texte(t, "auteur"@) is Some
        &&& (champ_liste(t, "interesses"@) matches Some(li) && forall|k: int|
            0 <= k < li.len() ==> marque_bien_formee(#[trigger] li[k]))
        &&& champ_booleen(t, "edited"@) is Some
        &&& (champ_liste(t, "tags"@) matches Some(lt) && forall|k: int|
            0 <= k < lt.len() ==> (#[trigger] lt[k]) matches Valeur::Texte(_x))
        &&& champ_entier(t, "lastUpdate"@) is Some
    })
}

/// Une marque sérialisée bien formée.
pub open spec fn marque_bien_formee(v: Valeur) -> bool {
    &&& table_de(v) is Some
    &&& ({
        let t = table_de(v).unwrap();
        &&& champ_texte(t, "name"@) is Some
        &&& champ_entier(t, "date"@) is Some
        &&& champ_texte(t, "type"@) is Some
        &&& (champ_entier(t, "member"@) matches Some(m) && m >= 0)
    })
}

/// Le champ nommé par un diagnostic est réellement fautif : absent, du
/// mauvais type, ou — pour les marques — porteur d'un élément mal formé.
pub open spec fn champ_fautif(v: Valeur, nom_champ: Seq<char>) -> bool {
    if table_de(v) is None {
        nom_champ == "enregistrement"@
    } else {
        let t = table_de(v).unwrap();
        ||| (nom_champ == "lien"@ && champ_texte(t, "lien"@) is None)
        ||| (nom_champ == "nom"@ && champ_texte(t, "nom"@) is None)
        ||| (nom_champ == "status"@ && champ_texte(t, "status"@) is None)
        ||| (nom_champ == "type"@ && champ_texte(t, "type"@) is None)
        ||| (nom_champ == "auteur"@ && champ_texte(t, "auteur"@) is None)
        ||| (nom_champ == "edited"@ && champ_booleen(t, "edited"@) is None)
        ||| (nom_champ == "lastUpdate"@ && champ_entier(t, "lastUpdate"@) is None)
        ||| (nom_champ == "interesses"@ && champ_liste(t, "interesses"@) is None)
        ||| (nom_champ == "interesses"@ && champ_liste(t, "interesses"@) is Some && exists|k: int|
            0 <= k < champ_liste(t, "interesses"@).unwrap().len() && !marque_bien_formee(
                #[trigger] champ_liste(t, "interesses"@).unwrap()[k],
            ))
        ||| (nom_champ == "tags"@ && champ_liste(t, "tags"@) is None)
        ||| (nom_champ == "tags"@ && champ_liste(t, "tags"@) is Some && exists|k: int|
            0 <= k < champ_liste(t, "tags"@).unwrap().len() && !((#[trigger] champ_liste(
                t,
                "tags"@,
            ).unwrap()[k]) matches Valeur::Texte(_x)))
    }
}

/// Relit une marque d'intérêt sérialisée ; échoue si un champ manque ou
/// est mal formé, ou si l'identité est négative.
fn lire_marque(v: &Valeur) -> (r: Result<Interet, Erreur>)
    ensures
        match r {
            Ok(it) => interet_lu(*v, it) && marque_bien_formee(*v),
            Err(er) => !marque_bien_formee(*v) && (er matches Erreur::ChampInvalide(c) && c@
                == "interesses"@),
        },
{
    let ti = match v {
        Valeur::Table(ti) => ti,
        _ => {
            return Err(Erreur::ChampInvalide(String::from_str("interesses")));
        },
    };
    let name: String = match chercher(ti, "name") {
        Some(Valeur::Texte(x)) => x.clone(),
        _ => {
            return Err(Erreur::ChampInvalide(String::from_str("interesses")));
        },
    };
    let date: i64 = match chercher(ti, "date") {
        Some(Valeur::Entier(d)) => *d,
        _ => {
            return Err(Erreur::ChampInvalide(String::from_str("interesses")));
        },
    };
    let type_i: String = match chercher(ti, "type") {
        Some(Valeur::Texte(x)) => x.clone(),
        _ => {
            return Err(Erreur::ChampInvalide(String::from_str("interesses")));
        },
    };
    let member: u64 = match chercher(ti, "member") {
        Some(Valeur::Entier(m)) => {
            if *m >= 0 {
                *m as u64
            } else {
                return Err(Erreur::ChampInvalide(String::from_str("interesses")));
            }
        },
        _ => {
            return Err(Erreur::ChampInvalide(String::from_str("interesses")));
        },
    };
    Ok(Interet { name, date, type_: type_i, member })
}

impl Ecrit {
    /// L'enregistrement sérialisable de l'écrit, champs dans un ordre
    /// fixe ; l'identifiant n'est pas stocké.
    pub fn serialize(&self) -> (r: Valeur)
        ensures
            serialize_forme(*self, r),
    {
        let mut t: Vec<(String, Valeur)> = Vec::new();
        t.push((String::from_str("nom"), Valeur::Texte(self.nom.clone())));
        t.push((String::from_str("lien"), Valeur::Texte(self.lien.clone())));
        t.push((String::from_str("type"), Valeur::Texte(self.type_.etiquette())));
        t.push((String::from_str("status"), Valeur::Texte(self.status.etiquette())));
        t.push((String::from_str("lastUpdate"), Valeur::Entier(self.last_update)));
        t.push((String::from_str("auteur"), Valeur::Texte(self.auteur.clone())));
        t.push((String::from_str("edited"), Valeur::Booleen(self.modified)));
        let mut li: Vec<Valeur> = Vec::new();
        let ni = self.interesses.len();
        let mut i: usize = 0;
        while i < ni
            invariant
                ni == self.interets_spec().len(),
                i <= ni,
                li@.len() == i,
                forall|k: int|
                    0 <= k < i ==> interet_forme(self.interets_spec()[k], #[trigger] li@[k]),
            decreases ni - i,
        {
            let it = &self.interesses[i];
            let mut ti: Vec<(String, Valeur)> = Vec::new();
            ti.push((String::from_str("name"), Valeur::Texte(it.name.clone())));
            ti.push((String::from_str("date"), Valeur::Entier(it.date)));
            ti.push((String::from_str("type"), Valeur::Texte(it.type_.clone())));
            ti.push((String::from_str("member"), Valeur::Entier(it.member as i64)));
            li.push(Valeur::Table(ti));
            i = i + 1;
        }
        t.push((String::from_str("interesses"), Valeur::Liste(li)));
        let mut lt: Vec<Valeur> = Vec::new();
        let nt = self.tags.len();
        let mut j: usize = 0;
        while j < nt
            invariant
                nt == self.tags@.len(),
                j <= nt,
                lt@.len() == j,
                forall|k: int| 0 <= k < j ==> #[trigger] lt@[k] == Valeur::Texte(self.tags@[k]),
            decreases nt - j,
        {
            lt.push(Valeur::Texte(self.tags[j].clone()));
            j = j + 1;
        }
        t.push((String::from_str("tags"), Valeur::Liste(lt)));
        Valeur::Table(t)
    }

    /// Relit un écrit depuis son enregistrement sérialisé. Chaque champ
    /// manquant ou mal formé échoue distinctement ; l'identifiant est
    /// re-dérivé du lien, et un lien sans identifiant est une erreur
    /// fatale de l'enregistrement. La lecture réussit si et seulement si
    /// l'enregistrement est bien formé.
    pub fn from_yaml(data: &Valeur) -> (r: Result<Ecrit, Erreur>)
        ensures
            match r {
                Ok(e) => lecture_forme(*data, e) && enregistrement_bien_forme(*data),
                Err(er) => !enregistrement_bien_forme(*data) && match er {
                    Erreur::ChampInvalide(c) => champ_fautif(*data, c@),
                    Erreur::StatutInconnu(j) => table_de(*data) matches Some(t) && champ_texte(
                        t,
                        "status"@,
                    ) matches Some(x) && x@ == j@ && Status::depuis_nom_spec(
                        texte::basicize_spec(x@),
                    ) is None,
                    Erreur::TypeInconnu(j) => table_de(*data) matches Some(t) && champ_texte(
                        t,
                        "type"@,
                    ) matches Some(x) && x@ == j@ && Type::depuis_nom_spec(
                        texte::basicize_spec(x@),
                    ) is None,
                    Erreur::LienInvalide(l) => table_de(*data) matches Some(t) && champ_texte(
                        t,
                        "lien"@,
                    ) == Some(l) && lien::extraire_id_spec(l@) is None,
                    _ => false,
                },
            },
    {
        let t = match data {
            Valeur::Table(t) => t,
            _ => {
                return Err(Erreur::ChampInvalide(String::from_str("enregistrement")));
            },
        };
        let lien_s: String = match chercher(t, "lien") {
            Some(Valeur::Texte(l)) => l.clone(),
            _ => {
                proof {
                    assert(champ_texte(t@, "lien"@) is None);
                }
                return Err(Erreur::ChampInvalide(String::from_str("lien")));
            },
        };
        let nom: String = match chercher(t, "nom") {
            Some(Valeur::Texte(x)) => x.clone(),
            _ => {
                proof {
                    assert(champ_texte(t@, "nom"@) is None);
                }
                return Err(Erreur::ChampInvalide(String::from_str("nom")));
            },
        };
        let status: Status = match chercher(t, "status") {
            Some(Valeur::Texte(x)) => {
                match Status::from_str(x.as_str()) {
                    Ok(st) => st,
                    Err(e) => {
                        proof {
                            assert(champ_texte(t@, "status"@) matches Some(x2) && x2@ == x@);
                        }
                        return Err(e);
                    },
                }
            },
            _ => {
                proof {
                    assert(champ_texte(t@, "status"@) is None);
                }
                return Err(Erreur::ChampInvalide(String::from_str("status")));
            },
        };
        let type_: Type = match chercher(t, "type") {
            Some(Valeur::Texte(x)) => {
                match Type::from_str(x.as_str()) {
                    Ok(ty) => ty,
                    Err(e) => {
                        proof {
                            assert(champ_texte(t@, "type"@) matches Some(x2) && x2@ == x@);
                        }
                        return Err(e);
                    },
                }
            },
            _ => {
                proof {
                    assert(champ_texte(t@, "type"@) is None);
                }
                return Err(Erreur::ChampInvalide(String::from_str("type")));
            },
        };
        let auteur: String = match chercher(t, "auteur") {
            Some(Valeur::Texte(x)) => x.clone(),
            _ => {
                proof {
                    assert(champ_texte(t@, "auteur"@) is None);
                }
                return Err(Erreur::ChampInvalide(String::from_str("auteur")));
            },
        };
        let li: &Vec<Valeur> = match chercher(t, "interesses") {
            Some(Valeur::Liste(li)) => li,
            _ => {
                proof {
                    assert(champ_liste(t@, "interesses"@) is None);
                    assert(champ_fautif(*data, "interesses"@));
                    assert(!enregistrement_bien_forme(*data));
                }
                return Err(Erreur::ChampInvalide(String::from_str("interesses")));
            },
        };
        let mut interesses: Vec<Interet> = Vec::new();
        let ni = li.len();
        let mut i: usize = 0;
        while i < ni
            invariant
                *data == Valeur::Table(*t),
                champ_liste(t@, "interesses"@) == Some(li@),
                ni == li@.len(),
                i <= ni,
                interesses@.len() == i,
                forall|k: int|
                    0 <= k < i ==> interet_lu(#[trigger] li@[k], interesses@[k])
                        && marque_bien_formee(li@[k]),
            decreases ni - i,
        {
            match lire_marque(&li[i]) {
                Ok(it) => {
                    interesses.push(it);
                },
                Err(e) => {
                    proof {
                        if enregistrement_bien_forme(*data) {
                            assert(table_de(*data) == Some(t@));
                            assert(champ_liste(t@, "interesses"@) matches Some(li2) && forall|
                                k: int,
                            | 0 <= k < li2.len() ==> marque_bien_formee(#[trigger] li2[k]));
                            assert(marque_bien_formee(li@[i as int]));
                        }
                        assert(!marque_bien_formee(li@[i as int]));
                        assert(champ_liste(t@, "interesses"@).unwrap() == li@);
                        assert(!marque_bien_formee(
                            champ_liste(t@, "interesses"@).unwrap()[i as int],
                        ));
                        assert(champ_fautif(*data, "interesses"@));
                    }
                    return Err(e);
                },
            }
            i = i + 1;
        }
        let modified: bool = match chercher(t, "edited") {
            Some(Valeur::Booleen(b)) => *b,
            _ => {
                proof {
                    assert(champ_booleen(t@, "edited"@) is None);
                    assert(champ_fautif(*data, "edited"@));
                    assert(!enregistrement_bien_forme(*data));
                }
                return Err(Erreur::ChampInvalide(String::from_str("edited")));
            },
        };
        let lt: &Vec<Valeur> = match chercher(t, "tags") {
            Some(Valeur::Liste(lt)) => lt,
            _ => {
                proof {
                    assert(champ_liste(t@, "tags"@) is None);
                }
                return Err(Erreur::ChampInvalide(String::from_str("tags")));
            },
        };
        let mut tags: Vec<String> = Vec::new();
        let nt = lt.len();
        let mut j: usize = 0;
        while j < nt
            invariant
                *data == Valeur::Table(*t),
                champ_liste(t@, "tags"@) == Some(lt@),
                nt == lt@.len(),
                j <= nt,
                tags@.len() == j,
                forall|k: int| 0 <= k < j ==> #[trigger] lt@[k] == Valeur::Texte(tags@[k]),
            decreases nt - j,
        {
            match &lt[j] {
                Valeur::Texte(x) => {
                    tags.push(x.clone());
                },
                _ => {
                    proof {
                        if enregistrement_bien_forme(*data) {
                            assert((lt@[j as int]) matches Valeur::Texte(_x));
                        }
                        assert(!((lt@[j as int]) matches Valeur::Texte(_x2)));
                        assert(champ_fautif(*data, "tags"@));
                    }
                    return Err(Erreur::ChampInvalide(String::from_str("tags")));
                },
            }
            j = j + 1;
        }
        let last_update: i64 = match chercher(t, "lastUpdate") {
            Some(Valeur::Entier(d)) => *d,
            _ => {
                proof {
                    assert(champ_entier(t@, "lastUpdate"@) is None);
                }
                return Err(Erreur::ChampInvalide(String::from_str("lastUpdate")));
            },
        };
        let id: u64 = match Ecrit::find_id(&lien_s) {
            Some(id) => id,
            None => {
                proof {
                    assert(champ_texte(t@, "lien"@) == Some(lien_s));
                }
                return Err(Erreur::LienInvalide(lien_s));
            },
        };
        Ok(
            Ecrit {
                status,
                type_,
                nom,
                lien: lien_s,
                last_update,
                auteur,
                interesses,
                modified,
                tags,
                id,
            },
        )
    }
}


/// Les champs que `serialize` a rangés se relisent sous leurs clés.
proof fn lemme_champs_serialises(e: Ecrit, v: Valeur)
    requires
        serialize_forme(e, v),
    ensures
        table_de(v) is Some,
        ({
            let t = table_de(v).unwrap();
            &&& champ_texte(t, "nom"@) == Some(e.nom)
            &&& champ_texte(t, "lien"@) == Some(e.lien)
            &&& (champ_texte(t, "type"@) matches Some(x) && x@ == e.type_.etiquette_spec())
            &&& (champ_texte(t, "status"@) matches Some(x) && x@ == e.status.etiquette_spec())
            &&& champ_entier(t, "lastUpdate"@) == Some(e.last_update)
            &&& champ_texte(t, "auteur"@) == Some(e.auteur)
            &&& champ_booleen(t, "edited"@) == Some(e.modified)
            &&& (champ_liste(t, "interesses"@) matches Some(li) && li.len()
                == e.interets_spec().len() && forall|k: int|
                0 <= k < li.len() ==> interet_forme(e.interets_spec()[k], #[trigger] li[k]))
            &&& (champ_liste(t, "tags"@) matches Some(lt) && lt.len() == e.tags@.len() && forall|
                k: int,
            | 0 <= k < lt.len() ==> #[trigger] lt[k] == Valeur::Texte(e.tags@[k]))
        }),
{
    reveal_strlit("nom");
    reveal_strlit("lien");
    reveal_strlit("type");
    reveal_strlit("status");
    reveal_strlit("lastUpdate");
    reveal_strlit("auteur");
    reveal_strlit("edited");
    reveal_strlit("interesses");
    reveal_strlit("tags");
    assert("nom"@ != "lien"@) by {
        if "nom"@ == "lien"@ {
            assert("nom"@.len() == "lien"@.len());
        }
    }
    assert("nom"@ != "type"@) by {
        if "nom"@ == "type"@ {
            assert("nom"@.len() == "type"@.len());
        }
    }
    assert("nom"@ != "status"@) by {
        if "nom"@ == "status"@ {
            assert("nom"@.len() == "status"@.len());
        }
    }
    assert("nom"@ != "lastUpdate"@) by {
        if "nom"@ == "lastUpdate"@ {
            assert("nom"@.len() == "lastUpdate"@.len());
        }
    }
    assert("nom"@ != "auteur"@) by {
        if "nom"@ == "auteur"@ {
            assert("nom"@.len() == "auteur"@.len());
        }
    }
    assert("nom"@ != "edited"@) by {
        if "nom"@ == "edited"@ {
            assert("nom"@.len() == "edited"@.len());
        }
    }
    assert("nom"@ != "interesses"@) by {
        if "nom"@ == "interesses"@ {
            assert("nom"@.len() == "interesses"@.len());
        }
    }
    assert("nom"@ != "tags"@) by {
        if "nom"@ == "tags"@ {
            assert("nom"@.len() == "tags"@.len());
        }
    }
    assert("lien"@ != "type"@) by {
        if "lien"@ == "type"@ {
            assert("lien"@[0] == "type"@[0]);
        }
    }
    assert("lien"@ != "status"@) by {
        if "lien"@ == "status"@ {
            assert("lien"@.len() == "status"@.len());
        }
    }
    assert("lien"@ != "lastUpdate"@) by {
        if "lien"@ == "lastUpdate"@ {
            assert("lien"@.len() == "lastUpdate"@.len());
        }
    }
    assert("lien"@ != "auteur"@) by {
        if "lien"@ == "auteur"@ {
            assert("lien"@.len() == "auteur"@.len());
        }
    }
    assert("lien"@ != "edited"@) by {
        if "lien"@ == "edited"@ {
            assert("lien"@.len() == "edited"@.len());
        }
    }
    assert("lien"@ != "interesses"@) by {
        if "lien"@ == "interesses"@ {
            assert("lien"@.len() == "interesses"@.len());
        }
    }
    assert("lien"@ != "tags"@) by {
        if "lien"@ == "tags"@ {
            assert("lien"@[0] == "tags"@[0]);
        }
    }
    assert("type"@ != "status"@) by {
        if "type"@ == "status"@ {
            assert("type"@.len() == "status"@.len());
        }
    }
    assert("type"@ != "lastUpdate"@) by {
        if "type"@ == "lastUpdate"@ {
            assert("type"@.len() == "lastUpdate"@.len());
        }
    }
    assert("type"@ != "auteur"@) by {
        if "type"@ == "auteur"@ {
            assert("type"@.len() == "auteur"@.len());
        }
    }
    assert("type"@ != "edited"@) by {
        if "type"@ == "edited"@ {
            assert("type"@.len() == "edited"@.len());
        }
    }
    assert("type"@ != "interesses"@) by {
        if "type"@ == "interesses"@ {
            assert("type"@.len() == "interesses"@.len());
        }
    }
    assert("type"@ != "tags"@) by {
        if "type"@ == "tags"@ {
            assert("type"@[1] == "tags"@[1]);
        }
    }
    assert("status"@ != "lastUpdate"@) by {
        if "status"@ == "lastUpdate"@ {
            assert("status"@.len() == "lastUpdate"@.len());
        }
    }
    assert("status"@ != "auteur"@) by {
        if "status"@ == "auteur"@ {
            assert("status"@[0] == "auteur"@[0]);
        }
    }
    assert("status"@ != "edited"@) by {
        if "status"@ == "edited"@ {
            assert("status"@[0] == "edited"@[0]);
        }
    }
    assert("status"@ != "interesses"@) by {
        if "status"@ == "interesses"@ {
            assert("status"@.len() == "interesses"@.len());
        }
    }
    assert("status"@ != "tags"@) by {
        if "status"@ == "tags"@ {
            assert("status"@.len() == "tags"@.len());
        }
    }
    assert("lastUpdate"@ != "auteur"@) by {
        if "lastUpdate"@ == "auteur"@ {
            assert("lastUpdate"@.len() == "auteur"@.len());
        }
    }
    assert("lastUpdate"@ != "edited"@) by {
        if "lastUpdate"@ == "edited"@ {
            assert("lastUpdate"@.len() == "edited"@.len());
        }
    }
    assert("lastUpdate"@ != "interesses"@) by {
        if "lastUpdate"@ == "interesses"@ {
            assert("lastUpdate"@[0] == "interesses"@[0]);
        }
    }
    assert("lastUpdate"@ != "tags"@) by {
        if "lastUpdate"@ == "tags"@ {
            assert("lastUpdate"@.len() == "tags"@.len());
        }
    }
    assert("auteur"@ != "edited"@) by {
        if "auteur"@ == "edited"@ {
            assert("auteur"@[0] == "edited"@[0]);
        }
    }
    assert("auteur"@ != "interesses"@) by {
        if "auteur"@ == "interesses"@ {
            assert("auteur"@.len() == "interesses"@.len());
        }
    }
    assert("auteur"@ != "tags"@) by {
        if "auteur"@ == "tags"@ {
            assert("auteur"@.len() == "tags"@.len());
        }
    }
    assert("edited"@ != "interesses"@) by {
        if "edited"@ == "interesses"@ {
            assert("edited"@.len() == "interesses"@.len());
        }
    }
    assert("edited"@ != "tags"@) by {
        if "edited"@ == "tags"@ {
            assert("edited"@.len() == "tags"@.len());
        }
    }
    assert("interesses"@ != "tags"@) by {
        if "interesses"@ == "tags"@ {
            assert("interesses"@.len() == "tags"@.len());
        }
    }
    reveal_with_fuel(cherche_spec, 12);
    let t = table_de(v).unwrap();
    assert(cherche_spec(t, "nom"@, 0) == Some(Valeur::Texte(e.nom)));
    assert(cherche_spec(t, "lien"@, 0) == Some(Valeur::Texte(e.lien)));
    assert(cherche_spec(t, "type"@, 0) == Some(t[2].1));
    assert(cherche_spec(t, "status"@, 0) == Some(t[3].1));
    assert(cherche_spec(t, "lastUpdate"@, 0) == Some(Valeur::Entier(e.last_update)));
    assert(cherche_spec(t, "auteur"@, 0) == Some(Valeur::Texte(e.auteur)));
    assert(cherche_spec(t, "edited"@, 0) == Some(Valeur::Booleen(e.modified)));
    assert(cherche_spec(t, "interesses"@, 0) == Some(t[7].1));
    assert(cherche_spec(t, "tags"@, 0) == Some(t[8].1));
}

/// Les champs d'une marque sérialisée se relisent sous leurs clés.
proof fn lemme_champs_marque(it: Interet, v: Valeur)
    requires
        interet_forme(it, v),
    ensures
        table_de(v) is Some,
        ({
            let t = table_de(v).unwrap();
            &&& champ_texte(t, "name"@) == Some(it.name)
            &&& champ_entier(t, "date"@) == Some(it.date)
            &&& champ_texte(t, "type"@) == Some(it.type_)
            &&& champ_entier(t, "member"@) == Some(it.member as i64)
        }),
{
    reveal_strlit("name");
    reveal_strlit("date");
    reveal_strlit("type");
    reveal_strlit("member");
    assert("name"@ != "date"@) by {
        if "name"@ == "date"@ {
            assert("name"@[0] == "date"@[0]);
        }
    }
    assert("name"@ != "type"@) by {
        if "name"@ == "type"@ {
            assert("name"@[0] == "type"@[0]);
        }
    }
    assert("name"@ != "member"@) by {
        if "name"@ == "member"@ {
            assert("name"@.len() == "member"@.len());
        }
    }
    assert("date"@ != "type"@) by {
        if "date"@ == "type"@ {
            assert("date"@[0] == "type"@[0]);
        }
    }
    assert("date"@ != "member"@) by {
        if "date"@ == "member"@ {
            assert("date"@.len() == "member"@.len());
        }
    }
    assert("type"@ != "member"@) by {
        if "type"@ == "member"@ {
            assert("type"@.len() == "member"@.len());
        }
    }
    reveal_with_fuel(cherche_spec, 8);
    let t = table_de(v).unwrap();
    assert(cherche_spec(t, "name"@, 0) == Some(Valeur::Texte(it.name)));
    assert(cherche_spec(t, "date"@, 0) == Some(Valeur::Entier(it.date)));
    assert(cherche_spec(t, "type"@, 0) == Some(Valeur::Texte(it.type_)));
    assert(cherche_spec(t, "member"@, 0) == Some(Valeur::Entier(it.member as i64)));
}

/// L'aller-retour de la persistance : sérialiser un écrit dont
/// l'identifiant se dérive du lien, puis relire l'enregistrement, rend
/// un écrit aux champs identiques — statut, type, nom, lien, auteur,
/// drapeau de sauvegarde, date, identifiant re-dérivé, tags dans
/// l'ordre, et marques dans l'ordre avec leurs champs.
pub proof fn lemme_aller_retour(e: Ecrit, v: Valeur, e2: Ecrit)
    requires
        serialize_forme(e, v),
        lecture_forme(v, e2),
        lien::extraire_id_spec(e.lien@) == Some(e.id_spec()),
    ensures
        e2.status == e.status,
        e2.type_ == e.type_,
        e2.nom == e.nom,
        e2.lien == e.lien,
        e2.auteur == e.auteur,
        e2.modified == e.modified,
        e2.last_update == e.last_update,
        e2.id_spec() == e.id_spec(),
        e2.tags@ == e.tags@,
        e2.interets_spec().len() == e.interets_spec().len(),
        forall|k: int|
            0 <= k < e.interets_spec().len() ==> {
                let a = #[trigger] e.interets_spec()[k];
                let b = e2.interets_spec()[k];
                a.name == b.name && a.date == b.date && a.type_ == b.type_ && a.member == b.member
            },
{
    lemme_champs_serialises(e, v);
    let t = table_de(v).unwrap();
    crate::ecrit::fields::lemme_nom_statut(e.status);
    crate::ecrit::fields::lemme_nom_type(e.type_);
    let li = champ_liste(t, "interesses"@).unwrap();
    assert forall|k: int| 0 <= k < e.interets_spec().len() implies {
        let a = #[trigger] e.interets_spec()[k];
        let b = e2.interets_spec()[k];
        a.name == b.name && a.date == b.date && a.type_ == b.type_ && a.member == b.member
    } by {
        lemme_champs_marque(e.interets_spec()[k], li[k]);
        assert(interet_lu(li[k], e2.interets_spec()[k]));
        let m = champ_entier(table_de(li[k]).unwrap(), "member"@).unwrap();
        assert(m == e.interets_spec()[k].member as i64);
        assert(m >= 0 && e2.interets_spec()[k].member == m as u64);
        let mm = e.interets_spec()[k].member;
        assert(mm as i64 as u64 == mm) by (bit_vector);
    }
    let lt = champ_liste(t, "tags"@).unwrap();
    assert(e2.tags@ =~= e.tags@) by {
        assert forall|k: int| 0 <= k < e.tags@.len() implies e2.tags@[k] == e.tags@[k] by {
            assert(lt[k] == Valeur::Texte(e.tags@[k]));
            assert(lt[k] == Valeur::Texte(e2.tags@[k]));
        }
    }
}

/// Un enregistrement issu de `serialize` est bien formé, donc se relit,
/// dès lors que l'identifiant se dérive du lien et que chaque identité
/// de marque tient dans un entier signé.
pub proof fn lemme_serialisation_lisible(e: Ecrit, v: Valeur)
    requires
        serialize_forme(e, v),
        lien::extraire_id_spec(e.lien@) is Some,
        forall|k: int|
            0 <= k < e.interets_spec().len() ==> (#[trigger] e.interets_spec()[k]).member
                <= i64::MAX,
    ensures
        enregistrement_bien_forme(v),
{
    lemme_champs_serialises(e, v);
    let t = table_de(v).unwrap();
    crate::ecrit::fields::lemme_nom_statut(e.status);
    crate::ecrit::fields::lemme_nom_type(e.type_);
    let li = champ_liste(t, "interesses"@).unwrap();
    assert forall|k: int| 0 <= k < li.len() implies marque_bien_formee(#[trigger] li[k]) by {
        lemme_champs_marque(e.interets_spec()[k], li[k]);
        let mm = e.interets_spec()[k].member;
        assert(mm <= i64::MAX);
        assert(mm <= i64::MAX ==> mm as i64 >= 0) by (bit_vector);
    }
    let lt = champ_liste(t, "tags"@).unwrap();
    assert forall|k: int| 0 <= k < lt.len() implies (#[trigger] lt[k]) matches Valeur::Texte(
        _x,
    ) by {
        assert(lt[k] == Valeur::Texte(e.tags@[k]));
    }
}

} // verus!
