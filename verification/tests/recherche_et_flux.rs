//! Le moteur de recherche multicritère, les titres du flux et une passe
//! complète d'ingestion avec son filigrane.

use critibot::base::{aleatoire, ancien, archiver_avant, lister_tags, nettoyer, trier_par_date, Base};
use critibot::ecrit::fields::{Status, Type};
use critibot::ecrit::Ecrit;
use critibot::erreur::Erreur;
use critibot::flux::{Classement, ElementFlux};
use critibot::recherche::{parse_statuts, parse_types, requete, resoudre_auteurs};
use critibot::titre::{titre_net, type_du_titre};

fn entree(id: u64, nom: &str, auteur: &str, type_: Type, status: Status, date: i64) -> Ecrit {
    Ecrit::new(
        String::from(nom),
        format!("https://exemple.test/forum/t-{id}/f"),
        type_,
        status,
        String::from(auteur),
        date,
    )
    .unwrap()
}

fn catalogue() -> Base {
    let mut base = Base::new();
    let mut a = entree(1, "Le puits", "Alice Smith", Type::Conte, Status::Ouvert, 300);
    a.atag(String::from("horreur"));
    a.atag(String::from("puits"));
    base.inserer(a);
    let mut b = entree(2, "Rapport du site", "Alice Jones", Type::Rapport, Status::Ouvert, 100);
    b.atag(String::from("site"));
    base.inserer(b);
    base.inserer(entree(3, "Une idée", "Bob", Type::Idee, Status::EnAttente, 200));
    base.inserer(entree(4, "Vieille chose", "Bob", Type::Conte, Status::Publie, 50));
    base
}

#[test]
fn catalogue_acces() {
    let mut base = catalogue();
    assert_eq!(base.len(), 4);
    assert!(base.contains_key(3));
    assert!(!base.contains_key(99));
    assert_eq!(base.get(2).unwrap().auteur, "Alice Jones");
    let retire = base.retirer(2).unwrap();
    assert_eq!(retire.get_id(), 2);
    assert!(!base.contains_key(2));
    assert!(base.retirer(2).is_none());
}

#[test]
fn filtres_conjonctifs() {
    let base = catalogue();
    let vides: Vec<String> = Vec::new();
    // Statut seul.
    let r = Ecrit::ulister(
        &base,
        None,
        &vec![Status::Ouvert],
        &Vec::new(),
        &vides,
        &vides,
        false,
        None,
        None,
    );
    assert_eq!(r, vec![1, 2]);
    // Statut et type à la fois : la conjonction.
    let r = Ecrit::ulister(
        &base,
        None,
        &vec![Status::Ouvert],
        &vec![Type::Conte],
        &vides,
        &vides,
        false,
        None,
        None,
    );
    assert_eq!(r, vec![1]);
    // Aucune dimension : tout le catalogue.
    let r = Ecrit::ulister(
        &base,
        None,
        &Vec::new(),
        &Vec::new(),
        &vides,
        &vides,
        false,
        None,
        None,
    );
    assert_eq!(r, vec![1, 2, 3, 4]);
    // Candidats de la recherche floue.
    let r = Ecrit::ulister(
        &base,
        Some(&vec![2, 3]),
        &Vec::new(),
        &Vec::new(),
        &vides,
        &vides,
        false,
        None,
        None,
    );
    assert_eq!(r, vec![2, 3]);
    // Bornes de date strictes.
    let r = Ecrit::ulister(
        &base,
        None,
        &Vec::new(),
        &Vec::new(),
        &vides,
        &vides,
        false,
        Some(200),
        Some(50),
    );
    assert_eq!(r, vec![2]);
}

#[test]
fn tags_et_ou() {
    let base = catalogue();
    let vides: Vec<String> = Vec::new();
    let demande = vec![String::from("horreur"), String::from("catacombes")];
    // « et » : l'écrit devrait porter chaque tag demandé — exclu.
    let r = Ecrit::ulister(
        &base,
        None,
        &Vec::new(),
        &Vec::new(),
        &vides,
        &demande,
        true,
        None,
        None,
    );
    assert_eq!(r, Vec::<u64>::new());
    // « ou » : un seul suffit — inclus.
    let r = Ecrit::ulister(
        &base,
        None,
        &Vec::new(),
        &Vec::new(),
        &vides,
        &demande,
        false,
        None,
        None,
    );
    assert_eq!(r, vec![1]);
    // La comparaison est normalisée.
    let r = Ecrit::ulister(
        &base,
        None,
        &Vec::new(),
        &Vec::new(),
        &vides,
        &vec![String::from("HORREUR")],
        false,
        None,
        None,
    );
    assert_eq!(r, vec![1]);
}

#[test]
fn auteurs_resolus_ou_ambigus() {
    let base = catalogue();
    let liste = Ecrit::liste_auteurs(&base);
    assert_eq!(
        liste,
        vec![
            String::from("Alice Smith"),
            String::from("Alice Jones"),
            String::from("Bob")
        ]
    );
    let uniques = Ecrit::recherche_auteur(&String::from("smith"), &base);
    assert_eq!(uniques, vec![String::from("Alice Smith")]);
    // « alice » correspond à deux auteurs distincts : ambigu.
    match resoudre_auteurs(&base, &vec![String::from("Alice")]) {
        Err(es) => {
            assert_eq!(es.len(), 1);
            match &es[0] {
                Erreur::AuteurAmbigu(c) => assert_eq!(c, "alice"),
                autre => panic!("erreur inattendue: {autre:?}"),
            }
        }
        Ok(_) => panic!("le critère devrait être ambigu"),
    }
    // Toutes les erreurs d'une requête sont rendues ensemble.
    match resoudre_auteurs(
        &base,
        &vec![String::from("Alice"), String::from("personne")],
    ) {
        Err(es) => {
            assert_eq!(es.len(), 2);
            assert!(matches!(es[0], Erreur::AuteurAmbigu(_)));
            assert!(matches!(es[1], Erreur::AuteurInconnu(_)));
        }
        Ok(_) => panic!("les deux critères devraient échouer"),
    }
}

#[test]
fn listes_de_statuts_et_de_types() {
    assert_eq!(
        parse_statuts("ouvert,Validé").unwrap(),
        vec![Status::Ouvert, Status::Valide]
    );
    match parse_statuts("ouvert,bidon,refusé") {
        Err(es) => {
            assert_eq!(es.len(), 1);
            assert!(matches!(&es[0], Erreur::StatutInconnu(j) if j == "bidon"));
        }
        Ok(_) => panic!("le jeton bidon devrait échouer"),
    }
    assert_eq!(parse_types("conte,idée").unwrap(), vec![Type::Conte, Type::Idee]);
    assert!(parse_types("conte,roman").is_err());
}

#[test]
fn requete_complete_triee_par_date() {
    let base = catalogue();
    let r = requete(
        &base,
        None,
        Some(&String::from("ouvert,en attente")),
        None,
        None,
        None,
        false,
        None,
        None,
    )
    .unwrap();
    // Dates 300, 100, 200 : tri croissant.
    assert_eq!(r, vec![2, 3, 1]);
    // Une requête par auteur ambigu échoue en nommant le critère.
    let e = requete(
        &base,
        None,
        None,
        None,
        Some(&String::from("Alice")),
        None,
        false,
        None,
        None,
    );
    assert!(matches!(e, Err(ref es) if matches!(es[0], Erreur::AuteurAmbigu(_))));
}

#[test]
fn choix_d_ecrits() {
    let base = catalogue();
    // Le plus ancien écrit ouvert, tous types : id 2 (date 100).
    assert_eq!(ancien(&base, None), Some(2));
    assert_eq!(ancien(&base, Some(Type::Conte)), Some(1));
    assert_eq!(ancien(&base, Some(Type::FormatGdi)), None);
    // Un seul candidat : le tirage ne peut rendre que lui.
    assert_eq!(aleatoire(&base, Some(Type::Conte)), Some(1));
    assert_eq!(aleatoire(&base, Some(Type::FormatGdi)), None);
    let ids = vec![1, 2, 3];
    assert_eq!(trier_par_date(&base, &ids), vec![2, 3, 1]);
}

#[test]
fn entretien_du_catalogue() {
    let mut base = catalogue();
    let marques = archiver_avant(&mut base, 150);
    assert_eq!(marques, vec![2]);
    assert_eq!(base.get(2).unwrap().status, Status::SansNouvelles);
    assert!(base.get(2).unwrap().modified);
    assert_eq!(base.get(1).unwrap().status, Status::Ouvert);
    let supprimes = nettoyer(&mut base);
    assert_eq!(supprimes, vec![4]);
    assert_eq!(base.len(), 3);
}

#[test]
fn comptage_des_tags() {
    let mut base = catalogue();
    let mut e = entree(5, "Autre puits", "Eve", Type::Conte, Status::Ouvert, 400);
    e.atag(String::from("horreur"));
    base.inserer(e);
    let comptes = lister_tags(&base);
    assert_eq!(
        comptes,
        vec![
            (String::from("horreur"), 2),
            (String::from("puits"), 1),
            (String::from("site"), 1)
        ]
    );
}

#[test]
fn titres_du_flux() {
    assert_eq!(type_du_titre("[Idée] Mon histoire"), Type::Idee);
    assert_eq!(type_du_titre("[Conte] Le puits"), Type::Conte);
    assert_eq!(type_du_titre("[Série] Saison deux"), Type::Conte);
    assert_eq!(type_du_titre("[Format GdI] Gabarit"), Type::FormatGdi);
    assert_eq!(type_du_titre("[Relecture] Divers"), Type::Rapport);
    // Le dernier marqueur reconnu l'emporte.
    assert_eq!(type_du_titre("[Conte] [Idée] Hybride"), Type::Idee);
    assert_eq!(titre_net("[Conte] Le puits"), "Le puits");
    assert_eq!(titre_net("[Idée] - \"Mon histoire\"."), "Mon histoire");
    assert_eq!(
        titre_net("SCP-173-FR : La statue (version temporaire)"),
        "La statue"
    );
    assert_eq!(titre_net("[Conte] (brouillon) Titre"), "Titre");
    assert_eq!(titre_net("[Conte]   "), "");
}

#[test]
fn scenario_ingestion_et_filigrane() {
    let mut base = Base::new();
    let element = ElementFlux {
        titre: Some(String::from("[Idée] My Story\"")),
        date: Some(String::from("Tue, 01 Jul 2003 10:52:37 +0200")),
        lien: Some(String::from("https://exemple.test/forum/t-42/my-story")),
        auteur: Some(String::from("Alice")),
    };
    let malforme = ElementFlux {
        titre: Some(String::from("[Conte] Sans lien")),
        date: Some(String::from("Tue, 01 Jul 2003 11:00:00 +0200")),
        lien: None,
        auteur: Some(String::from("Bob")),
    };
    let sans_date = ElementFlux {
        titre: Some(String::from("[Conte] Sans date")),
        date: None,
        lien: Some(String::from("https://exemple.test/forum/t-50/")),
        auteur: Some(String::from("Bob")),
    };
    let items = vec![element, malforme, sans_date];
    let (filigrane, classements) = Ecrit::maj_rss(&mut base, &items, 0, 9_000);
    assert_eq!(classements[0], Classement::Ajoute(42));
    assert_eq!(classements[1], Classement::Incomplet);
    assert_eq!(classements[2], Classement::DateInvalide);
    assert!(filigrane > 0);
    let ajoute = base.get(42).expect("l'écrit doit être versé");
    assert_eq!(ajoute.type_, Type::Idee);
    assert_eq!(ajoute.status, Status::Ouvert);
    assert_eq!(ajoute.auteur, "Alice");
    assert_eq!(ajoute.nom, "My Story");
    assert_eq!(ajoute.last_update, 9_000);
    // Rejouer la même passe avec le filigrane avancé n'ajoute rien.
    let taille = base.len();
    let (filigrane2, classements2) = Ecrit::maj_rss(&mut base, &items, filigrane, 9_100);
    assert_eq!(filigrane2, filigrane);
    assert_eq!(classements2[0], Classement::TropAncien);
    assert_eq!(base.len(), taille);
    // Un doublon au bord du filigrane est signalé, pas réécrit.
    let (_f3, classements3) = Ecrit::maj_rss(&mut base, &items, 0, 9_200);
    assert_eq!(classements3[0], Classement::DejaPresent(42));
    assert_eq!(base.get(42).unwrap().last_update, 9_000);
}

#[test]
fn titre_vide_recoit_un_nom_de_remplacement() {
    let mut base = Base::new();
    let item = ElementFlux {
        titre: Some(String::from("[Conte]  .")),
        date: Some(String::from("Tue, 01 Jul 2003 10:52:37 +0200")),
        lien: Some(String::from("https://exemple.test/forum/t-77/")),
        auteur: Some(String::from("Eve")),
    };
    let (_f, cl) = Ecrit::maj_rss(&mut base, &vec![item], 0, 1_000);
    assert_eq!(cl[0], Classement::Ajoute(77));
    assert_eq!(base.get(77).unwrap().nom, "sans-nom-0");
}

#[test]
fn titres_avec_prefixes_et_marqueurs() {
    assert_eq!(titre_net("(clin d'œil) [Conte] - Le retour"), "Le retour");
    assert_eq!(titre_net("scp 049 fr variante"), "variante");
    assert_eq!(titre_net("Aucun marqueur"), "Aucun marqueur");
    assert_eq!(type_du_titre("Sans marqueur du tout"), Type::Rapport);
    assert_eq!(type_du_titre("[IDÉE] majuscules"), Type::Idee);
}

#[test]
fn decoupage_en_morceaux() {
    let m = critibot::texte::decouper("a,,b", ',');
    assert_eq!(m, vec![String::from("a"), String::from(""), String::from("b")]);
    let seul = critibot::texte::decouper("abc", ',');
    assert_eq!(seul, vec![String::from("abc")]);
}

#[test]
fn jetons_fautifs_collectes_ensemble() {
    let base = catalogue();
    // Un statut et un type inconnus dans la même requête : les deux
    // jetons sont rendus, statuts d'abord.
    let r = requete(
        &base,
        None,
        Some(&String::from("ouvert,bidon")),
        Some(&String::from("roman")),
        None,
        None,
        false,
        None,
        None,
    );
    match r {
        Err(es) => {
            assert_eq!(es.len(), 2);
            assert!(matches!(&es[0], Erreur::StatutInconnu(j) if j == "bidon"));
            assert!(matches!(&es[1], Erreur::TypeInconnu(j) if j == "roman"));
        }
        Ok(_) => panic!("les deux jetons devraient échouer"),
    }
}

#[test]
fn requete_par_tags() {
    let base = catalogue();
    let r = requete(
        &base,
        None,
        None,
        None,
        None,
        Some(&String::from("horreur,puits")),
        true,
        None,
        None,
    )
    .unwrap();
    assert_eq!(r, vec![1]);
    let r = requete(
        &base,
        None,
        None,
        None,
        None,
        Some(&String::from("site,puits")),
        true,
        None,
        None,
    )
    .unwrap();
    assert_eq!(r, Vec::<u64>::new());
}
