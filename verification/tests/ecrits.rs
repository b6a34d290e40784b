//! Cycle de vie d'un écrit : construction, marques d'intérêt,
//! transitions, tags, sérialisation.

use critibot::ecrit::fields::{Interet, Status, Type};
use critibot::ecrit::{ActionBouton, Bouton, CommandeBouton, Ecrit};
use critibot::erreur::Erreur;
use critibot::valeur::Valeur;

fn ecrit_ouvert(id: u64) -> Ecrit {
    Ecrit::new(
        String::from("Essai"),
        format!("https://exemple.test/forum/t-{id}/essai"),
        Type::Conte,
        Status::Ouvert,
        String::from("Aria"),
        1_000,
    )
    .unwrap()
}

fn marque(nom: &str, membre: u64) -> Interet {
    Interet {
        name: String::from(nom),
        date: 1_100,
        type_: String::from("⊙ Exclusif"),
        member: membre,
    }
}

#[test]
fn extraction_identifiant() {
    assert_eq!(
        Ecrit::find_id(&String::from("https://exemple.test/forum/t-42/mon-ecrit")),
        Some(42)
    );
    assert_eq!(Ecrit::find_id(&String::from("https://exemple.test/forum/")), None);
    assert_eq!(Ecrit::find_id(&String::from("t-")), None);
    // Le motif doit ouvrir un segment de chemin : pas en plein jeton.
    assert_eq!(Ecrit::find_id(&String::from("xt-42")), None);
    assert_eq!(Ecrit::find_id(&String::from("avant t-7 puis t-9")), None);
    assert_eq!(Ecrit::find_id(&String::from("a/ct-1/t-42/")), Some(42));
    assert_eq!(Ecrit::find_id(&String::from("/t-7/puis/t-9/")), Some(7));
    assert_eq!(
        Ecrit::find_id(&String::from("t-99999999999999999999999999/")),
        None
    );
}

#[test]
fn construction_refuse_lien_sans_id() {
    let r = Ecrit::new(
        String::from("X"),
        String::from("https://exemple.test/pas-de-motif"),
        Type::Autre,
        Status::Ouvert,
        String::from("A"),
        0,
    );
    assert!(matches!(r, Err(Erreur::LienInvalide(_))));
}

#[test]
fn scenario_marque_puis_liberation() {
    let mut e = ecrit_ouvert(1);
    assert_eq!(e.status, Status::Ouvert);
    e.marquer(marque("K1", 7), 1_100);
    assert_eq!(e.status, Status::OuvertPlus);
    assert_eq!(e.nb_interets(), 1);
    assert_eq!(e.interet(0).name, "K1");
    let libere = e.liberer_id(7, 1_200);
    assert!(libere);
    assert_eq!(e.status, Status::Ouvert);
    assert_eq!(e.nb_interets(), 0);
}

#[test]
fn une_seule_marque_par_identite() {
    let mut e = ecrit_ouvert(2);
    e.marquer(marque("K1", 7), 1_100);
    e.marquer(marque("K1 bis", 7), 1_200);
    e.marquer(marque("K1 ter", 7), 1_300);
    assert_eq!(e.nb_interets(), 1);
    assert_eq!(e.interet(0).name, "K1 ter");
    e.marquer(marque("K2", 8), 1_400);
    assert_eq!(e.nb_interets(), 2);
    assert_eq!(e.status, Status::OuvertPlus);
}

#[test]
fn sentinelle_procuration_ne_libere_rien() {
    let mut e = ecrit_ouvert(3);
    e.marquer(marque("Proxy", 0), 1_100);
    assert!(!e.liberer_id(0, 1_200));
    assert_eq!(e.nb_interets(), 1);
    assert!(e.liberer_name(&String::from("Proxy"), 1_300));
    assert_eq!(e.nb_interets(), 0);
    assert_eq!(e.status, Status::Ouvert);
}

#[test]
fn critique_leve_toutes_les_marques() {
    let mut e = ecrit_ouvert(4);
    e.marquer(marque("K1", 7), 1_100);
    e.marquer(marque("K2", 8), 1_200);
    assert_eq!(e.nb_interets(), 2);
    e.critique(1_300);
    assert_eq!(e.nb_interets(), 0);
    assert_eq!(e.status, Status::EnAttente);
    assert!(e.modified);
    assert_eq!(e.get_date(), 1_300);
}

#[test]
fn liberation_sans_marque_est_un_resultat_normal() {
    let mut e = ecrit_ouvert(5);
    assert!(!e.liberer_id(99, 1_100));
    assert!(!e.liberer_name(&String::from("Personne"), 1_100));
    assert_eq!(e.status, Status::Ouvert);
    assert!(!e.modified);
}

#[test]
fn valider_idee_devient_rapport() {
    let mut e = Ecrit::new(
        String::from("Une idée"),
        String::from("https://exemple.test/forum/t-6/"),
        Type::Idee,
        Status::Ouvert,
        String::from("A"),
        0,
    )
    .unwrap();
    e.valider();
    assert_eq!(e.type_, Type::Rapport);
    assert_eq!(e.status, Status::EnAttente);
    let mut c = ecrit_ouvert(7);
    c.valider();
    assert_eq!(c.type_, Type::Conte);
    assert_eq!(c.status, Status::Valide);
}

#[test]
fn transitions_simples() {
    let mut e = ecrit_ouvert(8);
    e.refuser();
    assert_eq!(e.status, Status::Refuse);
    e.publier();
    assert_eq!(e.status, Status::Publie);
    e.up();
    assert_eq!(e.status, Status::Ouvert);
    e.marquer(marque("K", 9), 1_100);
    e.up();
    assert_eq!(e.status, Status::OuvertPlus);
}

#[test]
fn tags_ajout_et_retrait() {
    let mut e = ecrit_ouvert(9);
    assert!(e.atag(String::from("horreur")));
    assert!(!e.atag(String::from("horreur")));
    assert!(e.atag(String::from("comique")));
    assert_eq!(e.tags, vec![String::from("horreur"), String::from("comique")]);
    // rtag retire les tags correspondant au critère et garde les autres.
    assert!(e.rtag(&String::from("horreur")));
    assert_eq!(e.tags, vec![String::from("comique")]);
    assert!(!e.rtag(&String::from("horreur")));
    // La correspondance passe par les sous-chaînes normalisées.
    assert!(e.rtag(&String::from("COM")));
    assert_eq!(e.tags, Vec::<String>::new());
}

#[test]
fn boutons_selon_statut_et_type() {
    let e = ecrit_ouvert(10);
    assert_eq!(
        e.get_buttons(),
        vec![Bouton::Marquer, Bouton::Critiquer, Bouton::RetirerMarque]
    );
    let mut v = ecrit_ouvert(11);
    v.status = Status::Valide;
    v.type_ = Type::Rapport;
    // Un écrit déjà validé ne peut plus être refusé.
    assert_eq!(v.get_buttons(), vec![Bouton::Publier]);
    let mut p = ecrit_ouvert(12);
    p.status = Status::Publie;
    assert_eq!(p.get_buttons(), vec![Bouton::Aucun]);
    let mut a = ecrit_ouvert(13);
    a.status = Status::EnPause;
    a.type_ = Type::Idee;
    assert_eq!(a.get_buttons(), vec![Bouton::Up, Bouton::Refuser]);
}

#[test]
fn analyse_des_identifiants_de_bouton() {
    match critibot::ecrit::parse_bouton("e-12-c") {
        Some(CommandeBouton::Action(id, a)) => {
            assert_eq!(id, 12);
            assert_eq!(a, ActionBouton::Critique);
        }
        autre => panic!("commande inattendue: {autre:?}"),
    }
    match critibot::ecrit::parse_bouton("tm-3-seul") {
        Some(CommandeBouton::Marque(id, code)) => {
            assert_eq!(id, 3);
            assert_eq!(code, "seul");
        }
        autre => panic!("commande inattendue: {autre:?}"),
    }
    assert!(matches!(
        critibot::ecrit::parse_bouton("autre-1-2"),
        Some(CommandeBouton::Rien)
    ));
    assert!(critibot::ecrit::parse_bouton("e-abc-m").is_none());
    assert!(critibot::ecrit::parse_bouton("e-5").is_none());
}

#[test]
fn aller_retour_serialisation() {
    let mut e = ecrit_ouvert(42);
    e.marquer(marque("K1", 7), 1_100);
    e.marquer(marque("Proxy", 0), 1_150);
    assert!(e.atag(String::from("fantastique")));
    assert!(e.atag(String::from("État brouillon")));
    e.set_modified(true);
    let v = e.serialize();
    let relu = Ecrit::from_yaml(&v).expect("l'enregistrement doit se relire");
    assert_eq!(relu.status, e.status);
    assert_eq!(relu.type_, e.type_);
    assert_eq!(relu.nom, e.nom);
    assert_eq!(relu.lien, e.lien);
    assert_eq!(relu.auteur, e.auteur);
    assert_eq!(relu.modified, e.modified);
    assert_eq!(relu.last_update, e.last_update);
    assert_eq!(relu.get_id(), e.get_id());
    assert_eq!(relu.tags, e.tags);
    assert_eq!(relu.nb_interets(), e.nb_interets());
    for k in 0..e.nb_interets() {
        assert_eq!(relu.interet(k).name, e.interet(k).name);
        assert_eq!(relu.interet(k).date, e.interet(k).date);
        assert_eq!(relu.interet(k).type_, e.interet(k).type_);
        assert_eq!(relu.interet(k).member, e.interet(k).member);
    }
}

#[test]
fn relecture_signale_chaque_champ() {
    let e = ecrit_ouvert(50);
    // Champ retiré : erreur distincte sur ce champ.
    let v = e.serialize();
    if let Valeur::Table(mut t) = v {
        t.retain(|(cle, _)| cle != "nom");
        let r = Ecrit::from_yaml(&Valeur::Table(t));
        match r {
            Err(Erreur::ChampInvalide(c)) => assert_eq!(c, "nom"),
            autre => panic!("erreur inattendue: {autre:?}"),
        }
    } else {
        panic!("l'enregistrement doit être une table");
    }
    // Statut inconnu : l'erreur porte le jeton.
    let v = e.serialize();
    if let Valeur::Table(mut t) = v {
        for paire in t.iter_mut() {
            if paire.0 == "status" {
                paire.1 = Valeur::Texte(String::from("bidon"));
            }
        }
        let r = Ecrit::from_yaml(&Valeur::Table(t));
        match r {
            Err(Erreur::StatutInconnu(j)) => assert_eq!(j, "bidon"),
            autre => panic!("erreur inattendue: {autre:?}"),
        }
    }
    // Lien sans identifiant : erreur fatale de l'enregistrement.
    let v = e.serialize();
    if let Valeur::Table(mut t) = v {
        for paire in t.iter_mut() {
            if paire.0 == "lien" {
                paire.1 = Valeur::Texte(String::from("https://exemple.test/rien"));
            }
        }
        let r = Ecrit::from_yaml(&Valeur::Table(t));
        assert!(matches!(r, Err(Erreur::LienInvalide(_))));
    }
}

#[test]
fn noms_de_statuts_et_de_types() {
    assert_eq!(Status::from_str("Ouvert").unwrap(), Status::Ouvert);
    assert_eq!(Status::from_str("OUVERT").unwrap(), Status::Ouvert);
    assert_eq!(Status::from_str("abandonné").unwrap(), Status::Abandonne);
    assert_eq!(Status::from_str("En attente").unwrap(), Status::EnAttente);
    assert_eq!(Status::from_str("ouvert*").unwrap(), Status::OuvertPlus);
    match Status::from_str("inexistant") {
        Err(Erreur::StatutInconnu(j)) => assert_eq!(j, "inexistant"),
        autre => panic!("erreur inattendue: {autre:?}"),
    }
    assert_eq!(Type::from_str("Idée").unwrap(), Type::Idee);
    assert_eq!(Type::from_str("idee").unwrap(), Type::Idee);
    assert_eq!(Type::from_str("format gdi").unwrap(), Type::FormatGdi);
    assert!(matches!(Type::from_str("roman"), Err(Erreur::TypeInconnu(_))));
    assert_eq!(Status::Publie.etiquette(), "Publié");
    assert_eq!(Type::FormatGdi.etiquette(), "Format GdI");
}

#[test]
fn couleurs_des_types() {
    assert_eq!(Type::Conte.get_color(), 0x008000);
    assert_eq!(Type::Idee.get_color(), 0xDF7401);
    assert_eq!(Type::Rapport.get_color(), 0x01A9DB);
    assert_eq!(Type::FormatGdi.get_color(), 0xAE1FF1);
    assert_eq!(Type::Autre.get_color(), 0xFFFFFF);
}

#[test]
fn styles_de_marque() {
    assert_eq!(Interet::get_type("seul"), "⊙ Exclusif");
    assert_eq!(Interet::get_type("instant"), "⊟ Immédiat");
    assert_eq!(Interet::get_type("ouvert"), "⋄ Ouvert");
    assert_eq!(Interet::get_type("longterme"), "∙ Intérêt simple");
    assert_eq!(Interet::get_type("collab"), "⋇ Collab recherchée");
    assert_eq!(Interet::get_type("autre"), "Inconnu?");
}

#[test]
fn ligne_de_resume() {
    let e = ecrit_ouvert(60);
    let ligne = e.get_list_entry();
    assert!(ligne.contains("[**Essai**]"));
    assert!(ligne.contains("Aria"));
    assert!(ligne.contains("Ouvert"));
    assert!(ligne.contains("Conte"));
}

#[test]
fn messages_d_erreur() {
    let e = Erreur::AuteurAmbigu(String::from("alice"));
    assert!(e.message().contains("alice"));
    assert!(e.message().contains("Plus d'un auteur"));
    let e2 = Erreur::StatutInconnu(String::from("bidon"));
    assert_eq!(e2.message(), "Statut bidon inexistant.");
}

#[test]
fn normalisation_du_texte() {
    assert_eq!(critibot::texte::basicize("Écrit Étrange"), "ecrit etrange");
    assert_eq!(critibot::texte::basicize("Déjà-vu"), "deja-vu");
    assert!(critibot::texte::contient("abricot", "rico"));
    assert!(!critibot::texte::contient("abricot", "z"));
    assert!(critibot::texte::contient("quelconque", ""));
    assert!(critibot::texte::critere_correspond("alice", "Alice Smith"));
    assert!(!critibot::texte::critere_correspond("bob", "Alice Smith"));
}

#[test]
fn garde_d_eligibilite() {
    let mut e = ecrit_ouvert(70);
    assert!(e.est_ouvert_a_critique());
    e.marquer(marque("K", 1), 1_100);
    assert!(e.est_ouvert_a_critique());
    e.critique(1_200);
    assert!(!e.est_ouvert_a_critique());
}

#[test]
fn bornes_de_l_identifiant() {
    assert_eq!(
        Ecrit::find_id(&String::from("t-18446744073709551615")),
        Some(u64::MAX)
    );
    assert_eq!(Ecrit::find_id(&String::from("t-18446744073709551616")), None);
    assert_eq!(Ecrit::find_id(&String::from("t-0/")), Some(0));
}

#[test]
fn action_de_bouton_inconnue() {
    match critibot::ecrit::parse_bouton("e-1-z") {
        Some(CommandeBouton::Action(id, a)) => {
            assert_eq!(id, 1);
            assert_eq!(a, ActionBouton::Inconnue);
        }
        autre => panic!("commande inattendue: {autre:?}"),
    }
}

#[test]
fn couplage_statut_reservations() {
    // Après toute suite de marques et de libérations, le statut vaut
    // OuvertPlus exactement quand une marque au moins est posée.
    let mut e = ecrit_ouvert(80);
    let coupler = |e: &Ecrit| {
        assert_eq!(e.status == Status::OuvertPlus, e.nb_interets() > 0);
    };
    coupler(&e);
    e.marquer(marque("A", 1), 1_100);
    coupler(&e);
    e.marquer(marque("B", 2), 1_200);
    coupler(&e);
    e.liberer_id(1, 1_300);
    coupler(&e);
    e.liberer_name(&String::from("B"), 1_400);
    coupler(&e);
    e.marquer(marque("C", 3), 1_500);
    coupler(&e);
    e.critique(1_600);
    assert_eq!(e.nb_interets(), 0);
    assert_ne!(e.status, Status::OuvertPlus);
}

#[test]
fn vue_de_detail() {
    // Sans marque ni tag : le type et le statut seulement.
    let e = ecrit_ouvert(90);
    let champs = e.champs_detail();
    assert_eq!(
        champs,
        vec![
            (String::from("Type"), String::from("Conte")),
            (String::from("Statut"), String::from("Ouvert"))
        ]
    );
    // Avec des marques et des tags : l'historique puis les tags.
    let mut e = ecrit_ouvert(91);
    e.marquer(marque("K1", 7), 1_100);
    e.atag(String::from("horreur"));
    e.atag(String::from("puits"));
    let champs = e.champs_detail();
    assert_eq!(champs.len(), 4);
    assert_eq!(champs[1], (String::from("Statut"), String::from("Ouvert*")));
    assert_eq!(
        champs[2],
        (
            String::from("Marques d'intérêt"),
            String::from("⊙ Exclusif par K1\n")
        )
    );
    assert_eq!(
        champs[3],
        (String::from("Tags"), String::from("horreur\npuits\n"))
    );
}
