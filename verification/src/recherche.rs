//! La couche de requête du moteur de recherche : analyse des listes de
//! statuts et de types séparées par des virgules, résolution des
//! critères d'auteur vers exactement un auteur du catalogue, puis
//! recherche et tri par date. Les jetons fautifs d'une requête sont
//! collectés ensemble, jamais un seul à la fois.

use vstd::prelude::*;

use crate::base;
use crate::base::Base;
use crate::ecrit::fields::{Status, Type};
use crate::ecrit::Ecrit;
use crate::erreur::Erreur;
use crate::texte;

verus! {

/// Jetons de la liste dont l'analyse en statut échoue, dans l'ordre.
pub open spec fn statuts_en_echec(morceaux: Seq<Seq<char>>) -> Seq<Seq<char>>
    decreases morceaux.len(),
{
    if morceaux.len() == 0 {
        Seq::empty()
    } else {
        let avant = statuts_en_echec(morceaux.drop_last());
        if Status::depuis_nom_spec(texte::basicize_spec(morceaux.last())) is None {
            avant.push(morceaux.last())
        } else {
            avant
        }
    }
}

/// Statuts analysés, pour les jetons valides, dans l'ordre.
pub open spec fn statuts_analyses(morceaux: Seq<Seq<char>>) -> Seq<Status>
    decreases morceaux.len(),
{
    if morceaux.len() == 0 {
        Seq::empty()
    } else {
        let avant = statuts_analyses(morceaux.drop_last());
        match Status::depuis_nom_spec(texte::basicize_spec(morceaux.last())) {
            Some(st) => avant.push(st),
            None => avant,
        }
    }
}

/// Analyse une liste de statuts séparés par des virgules ; les jetons
/// fautifs sont tous signalés ensemble.
pub fn parse_statuts(s: &str) -> (r: Result<Vec<Status>, Vec<Erreur>>)
    ensures
        ({
            let morceaux = texte::decoupe_spec(s@, ',');
            match r {
                Ok(v) => statuts_en_echec(morceaux).len() == 0 && v@ == statuts_analyses(morceaux),
                Err(es) => {
                    &&& es@.len() == statuts_en_echec(morceaux).len()
                    &&& es@.len() >= 1
                    &&& forall|i: int|
                        0 <= i < es@.len() ==> match #[trigger] es@[i] {
                            Erreur::StatutInconnu(t) => t@ == statuts_en_echec(morceaux)[i],
                            _ => false,
                        }
                },
            }
        }),
{
    let morceaux = texte::decouper(s, ',');
    let ghost sm = texte::decoupe_spec(s@, ',');
    let n = morceaux.len();
    let mut statuts: Vec<Status> = Vec::new();
    let mut erreurs: Vec<Erreur> = Vec::new();
    let mut i: usize = 0;
    proof {
        assert(sm.subrange(0, 0) =~= Seq::<Seq<char>>::empty());
    }
    while i < n
        invariant
            sm == texte::decoupe_spec(s@, ','),
            n == morceaux@.len(),
            morceaux@.len() == sm.len(),
            forall|k: int| 0 <= k < n ==> (#[trigger] morceaux@[k])@ == sm[k],
            i <= n,
            statuts@ == statuts_analyses(sm.subrange(0, i as int)),
            erreurs@.len() == statuts_en_echec(sm.subrange(0, i as int)).len(),
            forall|k: int|
                0 <= k < erreurs@.len() ==> match #[trigger] erreurs@[k] {
                    Erreur::StatutInconnu(t) => t@ == statuts_en_echec(sm.subrange(0, i as int))[k],
                    _ => false,
                },
        decreases n - i,
    {
        proof {
            assert(sm.subrange(0, i + 1).drop_last() =~= sm.subrange(0, i as int));
            assert(sm.subrange(0, i + 1).last() == sm[i as int]);
        }
        match Status::from_str(morceaux[i].as_str()) {
            Ok(st) => {
                statuts.push(st);
            },
            Err(e) => {
                erreurs.push(e);
            },
        }
        i = i + 1;
    }
    proof {
        assert(sm.subrange(0, n as int) =~= sm);
    }
    if erreurs.len() == 0 {
        Ok(statuts)
    } else {
        Err(erreurs)
    }
}

/// Jetons de la liste dont l'analyse en type échoue, dans l'ordre.
pub open spec fn types_en_echec(morceaux: Seq<Seq<char>>) -> Seq<Seq<char>>
    decreases morceaux.len(),
{
    if morceaux.len() == 0 {
        Seq::empty()
    } else {
        let avant = types_en_echec(morceaux.drop_last());
        if Type::depuis_nom_spec(texte::basicize_spec(morceaux.last())) is None {
            avant.push(morceaux.last())
        } else {
            avant
        }
    }
}

/// Types analysés, pour les jetons valides, dans l'ordre.
pub open spec fn types_analyses(morceaux: Seq<Seq<char>>) -> Seq<Type>
    decreases morceaux.len(),
{
    if morceaux.len() == 0 {
        Seq::empty()
    } else {
        let avant = types_analyses(morceaux.drop_last());
        match Type::depuis_nom_spec(texte::basicize_spec(morceaux.last())) {
            Some(t) => avant.push(t),
            None => avant,
        }
    }
}

/// Analyse une liste de types séparés par des virgules ; les jetons
/// fautifs sont tous signalés ensemble.
pub fn parse_types(s: &str) -> (r: Result<Vec<Type>, Vec<Erreur>>)
    ensures
        ({
            let morceaux = texte::decoupe_spec(s@, ',');
            match r {
                Ok(v) => types_en_echec(morceaux).len() == 0 && v@ == types_analyses(morceaux),
                Err(es) => {
                    &&& es@.len() == types_en_echec(morceaux).len()
                    &&& es@.len() >= 1
                    &&& forall|i: int|
                        0 <= i < es@.len() ==> match #[trigger] es@[i] {
                            Erreur::TypeInconnu(t) => t@ == types_en_echec(morceaux)[i],
                            _ => false,
                        }
                },
            }
        }),
{
    let morceaux = texte::decouper(s, ',');
    let ghost sm = texte::decoupe_spec(s@, ',');
    let n = morceaux.len();
    let mut types: Vec<Type> = Vec::new();
    let mut erreurs: Vec<Erreur> = Vec::new();
    let mut i: usize = 0;
    proof {
        assert(sm.subrange(0, 0) =~= Seq::<Seq<char>>::empty());
    }
    while i < n
        invariant
            sm == texte::decoupe_spec(s@, ','),
            n == morceaux@.len(),
            morceaux@.len() == sm.len(),
            forall|k: int| 0 <= k < n ==> (#[trigger] morceaux@[k])@ == sm[k],
            i <= n,
            types@ == types_analyses(sm.subrange(0, i as int)),
            erreurs@.len() == types_en_echec(sm.subrange(0, i as int)).len(),
            forall|k: int|
                0 <= k < erreurs@.len() ==> match #[trigger] erreurs@[k] {
                    Erreur::TypeInconnu(t) => t@ == types_en_echec(sm.subrange(0, i as int))[k],
                    _ => false,
                },
        decreases n - i,
    {
        proof {
            assert(sm.subrange(0, i + 1).drop_last() =~= sm.subrange(0, i as int));
            assert(sm.subrange(0, i + 1).last() == sm[i as int]);
        }
        match Type::from_str(morceaux[i].as_str()) {
            Ok(t) => {
                types.push(t);
            },
            Err(e) => {
                erreurs.push(e);
            },
        }
        i = i + 1;
    }
    proof {
        assert(sm.subrange(0, n as int) =~= sm);
    }
    if erreurs.len() == 0 {
        Ok(types)
    } else {
        Err(erreurs)
    }
}

/// Nombre d'auteurs distincts du catalogue qui correspondent au critère
/// normalisé.
pub open spec fn nb_correspondants(vue: Seq<Ecrit>, critere_norm: Seq<char>) -> int {
    base::filtre_auteurs(base::auteurs_distincts(vue), critere_norm).len() as int
}

/// Critères (normalisés) qui ne se résolvent pas vers exactement un
/// auteur, dans l'ordre.
pub open spec fn criteres_en_echec(vue: Seq<Ecrit>, criteres: Seq<Seq<char>>) -> Seq<Seq<char>>
    decreases criteres.len(),
{
    if criteres.len() == 0 {
        Seq::empty()
    } else {
        let avant = criteres_en_echec(vue, criteres.drop_last());
        if nb_correspondants(vue, texte::basicize_spec(criteres.last())) != 1 {
            avant.push(texte::basicize_spec(criteres.last()))
        } else {
            avant
        }
    }
}

/// Auteurs résolus, pour les critères qui se résolvent, dans l'ordre.
pub open spec fn auteurs_resolus(vue: Seq<Ecrit>, criteres: Seq<Seq<char>>) -> Seq<String>
    decreases criteres.len(),
{
    if criteres.len() == 0 {
        Seq::empty()
    } else {
        let avant = auteurs_resolus(vue, criteres.drop_last());
        let cn = texte::basicize_spec(criteres.last());
        if nb_correspondants(vue, cn) == 1 {
            avant.push(base::filtre_auteurs(base::auteurs_distincts(vue), cn)[0])
        } else {
            avant
        }
    }
}

/// Résout chaque critère d'auteur vers exactement un auteur du
/// catalogue, par comparaison normalisée mot à mot ; un critère sans
/// correspondance ou ambigu est une erreur, et toutes les erreurs de la
/// requête sont rendues ensemble.
pub fn resoudre_auteurs(base_: &Base, criteres: &Vec<String>) -> (r: Result<
    Vec<String>,
    Vec<Erreur>,
>)
    ensures
        ({
            let cs = base::vues_chaines(criteres@);
            match r {
                Ok(v) => criteres_en_echec(base_.vue(), cs).len() == 0 && v@ == auteurs_resolus(
                    base_.vue(),
                    cs,
                ),
                Err(es) => {
                    &&& es@.len() == criteres_en_echec(base_.vue(), cs).len()
                    &&& es@.len() >= 1
                    &&& forall|i: int|
                        0 <= i < es@.len() ==> match #[trigger] es@[i] {
                            Erreur::AuteurInconnu(t) => t@ == criteres_en_echec(base_.vue(), cs)[i]
                                && nb_correspondants(base_.vue(), t@) == 0,
                            Erreur::AuteurAmbigu(t) => t@ == criteres_en_echec(base_.vue(), cs)[i]
                                && nb_correspondants(base_.vue(), t@) > 1,
                            _ => false,
                        }
                },
            }
        }),
{
    let ghost cs = base::vues_chaines(criteres@);
    let n = criteres.len();
    let mut resolus: Vec<String> = Vec::new();
    let mut erreurs: Vec<Erreur> = Vec::new();
    let mut i: usize = 0;
    proof {
        assert(cs.subrange(0, 0) =~= Seq::<Seq<char>>::empty());
    }
    while i < n
        invariant
            cs == base::vues_chaines(criteres@),
            n == criteres@.len(),
            cs.len() == n,
            i <= n,
            resolus@ == auteurs_resolus(base_.vue(), cs.subrange(0, i as int)),
            erreurs@.len() == criteres_en_echec(base_.vue(), cs.subrange(0, i as int)).len(),
            forall|k: int|
                0 <= k < erreurs@.len() ==> match #[trigger] erreurs@[k] {
                    Erreur::AuteurInconnu(t) => t@ == criteres_en_echec(
                        base_.vue(),
                        cs.subrange(0, i as int),
                    )[k] && nb_correspondants(base_.vue(), t@) == 0,
                    Erreur::AuteurAmbigu(t) => t@ == criteres_en_echec(
                        base_.vue(),
                        cs.subrange(0, i as int),
                    )[k] && nb_correspondants(base_.vue(), t@) > 1,
                    _ => false,
                },
        decreases n - i,
    {
        proof {
            assert(cs.subrange(0, i + 1).drop_last() =~= cs.subrange(0, i as int));
            assert(cs.subrange(0, i + 1).last() == cs[i as int]);
            assert(cs[i as int] == (criteres@[i as int])@);
        }
        let cn = texte::basicize(criteres[i].as_str());
        let correspondants = Ecrit::recherche_auteur(&cn, base_);
        if correspondants.len() == 0 {
            erreurs.push(Erreur::AuteurInconnu(cn));
        } else if correspondants.len() > 1 {
            erreurs.push(Erreur::AuteurAmbigu(cn));
        } else {
            proof {
                assert(correspondants@[0] == base::filtre_auteurs(
                    base::auteurs_distincts(base_.vue()),
                    texte::basicize_spec(cs[i as int]),
                )[0]);
            }
            resolus.push(correspondants[0].clone());
        }
        i = i + 1;
    }
    proof {
        assert(cs.subrange(0, n as int) =~= cs);
    }
    if erreurs.len() == 0 {
        Ok(resolus)
    } else {
        Err(erreurs)
    }
}


/// Morceaux d'une liste optionnelle séparée par des virgules.
pub open spec fn morceaux_opt(s: Option<&String>) -> Seq<Seq<char>> {
    match s {
        Some(x) => texte::decoupe_spec(x@, ','),
        None => Seq::empty(),
    }
}

/// Une requête complète : analyse les listes de statuts et de types (en
/// collectant ensemble tous les jetons fautifs), résout les critères
/// d'auteur (en collectant ensemble les critères sans correspondance ou
/// ambigus), filtre le catalogue puis trie les résultats par date de
/// dernière modification croissante.
pub fn requete(
    base_: &Base,
    candidats: Option<&Vec<u64>>,
    statuts: Option<&String>,
    types: Option<&String>,
    auteurs: Option<&String>,
    tags: Option<&String>,
    tags_et: bool,
    modifie_avant: Option<i64>,
    modifie_apres: Option<i64>,
) -> (r: Result<Vec<u64>, Vec<Erreur>>)
    ensures
        ({
            let ms = morceaux_opt(statuts);
            let mt = morceaux_opt(types);
            let mc = morceaux_opt(auteurs);
            let mg = morceaux_opt(tags);
            let echecs_st = statuts_en_echec(ms);
            let echecs_ty = types_en_echec(mt);
            let echecs_au = criteres_en_echec(base_.vue(), mc);
            match r {
                Err(es) => {
                    &&& es@.len() >= 1
                    &&& (echecs_st.len() + echecs_ty.len() > 0 ==> {
                        &&& es@.len() == echecs_st.len() + echecs_ty.len()
                        &&& forall|i: int|
                            0 <= i < echecs_st.len() ==> match #[trigger] es@[i] {
                                Erreur::StatutInconnu(t) => t@ == echecs_st[i],
                                _ => false,
                            }
                        &&& forall|i: int|
                            echecs_st.len() <= i < es@.len() ==> match #[trigger] es@[i] {
                                Erreur::TypeInconnu(t) => t@ == echecs_ty[i - echecs_st.len()],
                                _ => false,
                            }
                    })
                    &&& (echecs_st.len() + echecs_ty.len() == 0 ==> {
                        &&& es@.len() == echecs_au.len()
                        &&& forall|i: int|
                            0 <= i < es@.len() ==> match #[trigger] es@[i] {
                                Erreur::AuteurInconnu(t) => t@ == echecs_au[i]
                                    && nb_correspondants(base_.vue(), t@) == 0,
                                Erreur::AuteurAmbigu(t) => t@ == echecs_au[i]
                                    && nb_correspondants(base_.vue(), t@) > 1,
                                _ => false,
                            }
                    })
                },
                Ok(v) => {
                    &&& echecs_st.len() == 0
                    &&& echecs_ty.len() == 0
                    &&& echecs_au.len() == 0
                    &&& ({
                        let ids = base::ids_filtres(
                            base_.vue(),
                            base::vue_candidats(candidats),
                            statuts_analyses(ms),
                            types_analyses(mt),
                            auteurs_resolus(base_.vue(), mc),
                            mg,
                            tags_et,
                            modifie_avant,
                            modifie_apres,
                        );
                        &&& v@.to_multiset() == ids.to_multiset()
                        &&& v@.len() == ids.len()
                        &&& forall|a: int, b: int|
                            0 <= a < b < v@.len() ==> base::date_id(base_.vue(), #[trigger] v@[a])
                                <= base::date_id(base_.vue(), #[trigger] v@[b])
                    })
                },
            }
        }),
{
    let mut erreurs: Vec<Erreur> = Vec::new();
    let statuts_v: Vec<Status> = match statuts {
        Some(sx) => {
            match parse_statuts(sx.as_str()) {
                Ok(v) => v,
                Err(mut es) => {
                    erreurs.append(&mut es);
                    Vec::new()
                },
            }
        },
        None => {
            proof {
                assert(statuts_en_echec(morceaux_opt(statuts)) =~= Seq::<Seq<char>>::empty());
                assert(statuts_analyses(morceaux_opt(statuts)) =~= Seq::<Status>::empty());
            }
            Vec::new()
        },
    };
    let ghost n_st = statuts_en_echec(morceaux_opt(statuts)).len();
    let types_v: Vec<Type> = match types {
        Some(sx) => {
            match parse_types(sx.as_str()) {
                Ok(v) => v,
                Err(mut es) => {
                    erreurs.append(&mut es);
                    Vec::new()
                },
            }
        },
        None => {
            proof {
                assert(types_en_echec(morceaux_opt(types)) =~= Seq::<Seq<char>>::empty());
                assert(types_analyses(morceaux_opt(types)) =~= Seq::<Type>::empty());
            }
            Vec::new()
        },
    };
    if erreurs.len() > 0 {
        return Err(erreurs);
    }
    let auteurs_v: Vec<String> = match auteurs {
        Some(sx) => {
            let crits = texte::decouper(sx.as_str(), ',');
            proof {
                assert(base::vues_chaines(crits@) =~= morceaux_opt(auteurs));
            }
            match resoudre_auteurs(base_, &crits) {
                Ok(v) => v,
                Err(es) => {
                    return Err(es);
                },
            }
        },
        None => {
            proof {
                assert(criteres_en_echec(base_.vue(), morceaux_opt(auteurs))
                    =~= Seq::<Seq<char>>::empty());
                assert(auteurs_resolus(base_.vue(), morceaux_opt(auteurs))
                    =~= Seq::<String>::empty());
            }
            Vec::new()
        },
    };
    let tags_v: Vec<String> = match tags {
        Some(sx) => texte::decouper(sx.as_str(), ','),
        None => Vec::new(),
    };
    proof {
        assert(base::vues_chaines(tags_v@) =~= morceaux_opt(tags));
    }
    let ids = Ecrit::ulister(
        base_,
        candidats,
        &statuts_v,
        &types_v,
        &auteurs_v,
        &tags_v,
        tags_et,
        modifie_avant,
        modifie_apres,
    );
    proof {
        assert forall|k: int|
            0 <= k < ids@.len() implies base::indice_id(base_.vue(), #[trigger] ids@[k], 0)
            < base_.vue().len() by {
            assert(ids@.contains(ids@[k]));
            base::lemme_ids_filtres(
                base_.vue(),
                base::vue_candidats(candidats),
                statuts_v@,
                types_v@,
                auteurs_v@,
                base::vues_chaines(tags_v@),
                tags_et,
                modifie_avant,
                modifie_apres,
                ids@[k],
            );
            base::lemme_presence(base_.vue(), ids@[k]);
        }
    }
    let tries = base::trier_par_date(base_, &ids);
    Ok(tries)
}

} // verus!
