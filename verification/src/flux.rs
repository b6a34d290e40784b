//! Classification du flux syndiqué : chaque élément est daté, classé,
//! nettoyé puis versé au catalogue s'il est nouveau ; le filigrane
//! d'ingestion avance au plus grand horodatage rencontré et ne recule
//! jamais, si bien qu'une même passe rejouée n'ajoute rien.

use vstd::prelude::*;

use crate::base;
use crate::base::Base;
use crate::ecrit::fields::{Status, Type};
use crate::ecrit::Ecrit;
use crate::lien;
use crate::titre;

verus! {

/// Un élément brut du flux syndiqué, tel que la couche d'entrée le
/// remet : titre, date de publication, lien et auteur, chacun pouvant
/// manquer.
#[derive(Debug, Clone)]
pub struct ElementFlux {
    pub titre: Option<String>,
    pub date: Option<String>,
    pub lien: Option<String>,
    pub auteur: Option<String>,
}

/// Ce que l'ingestion a fait d'un élément du flux.
#[derive(Clone, Copy, PartialEq, Eq, Structural, Debug)]
pub enum Classement {
    /// Date absente ou que l'analyse RFC 2822 refuse.
    DateInvalide,
    /// Publié avant ou au filigrane : déjà traité.
    TropAncien,
    /// Titre sans marqueur `]` : pas une soumission du catalogue.
    SansBalise,
    /// Titre, lien ou auteur manquant.
    Incomplet,
    /// Lien sans identifiant extractible.
    LienInvalide,
    /// Identifiant déjà suivi : l'entrée existante est préservée.
    DejaPresent(u64),
    /// Nouvel écrit versé au catalogue sous cet identifiant.
    Ajoute(u64),
}

/// Ce que `chrono::DateTime::parse_from_rfc2822` puis `timestamp`
/// rendent d'un texte : l'époque en secondes, fonction du texte seul.
pub uninterp spec fn rfc2822_epoch(s: Seq<char>) -> Option<i64>;

/// S'appuie sur `chrono::DateTime::parse_from_rfc2822` pour lire une
/// date RFC 2822, et sur `timestamp` pour l'époque en secondes.
#[verifier::external_body]
fn parse_rfc2822(s: &str) -> (r: Option<i64>)
    ensures
        r == rfc2822_epoch(s@),
{
    match chrono::DateTime::parse_from_rfc2822(s) {
        Ok(d) => Some(d.timestamp()),
        Err(_) => None,
    }
}

/// Époque de publication d'un élément, si sa date se lit.
pub open spec fn epoch_de(item: ElementFlux) -> Option<i64> {
    match item.date {
        Some(d) => rfc2822_epoch(d@),
        None => None,
    }
}

/// Filigrane après une passe : le plus grand horodatage lisible du
/// flux, ou l'ancien filigrane s'il est plus grand.
pub open spec fn nouvelle_maj(items: Seq<ElementFlux>, d: i64) -> i64
    decreases items.len(),
{
    if items.len() == 0 {
        d
    } else {
        let avant = nouvelle_maj(items.drop_last(), d);
        match epoch_de(items.last()) {
            Some(ep) => if ep > avant {
                ep
            } else {
                avant
            },
            None => avant,
        }
    }
}

/// Le filigrane d'une passe ne recule jamais et borne chaque horodatage
/// lisible du flux.
pub proof fn lemme_maj_bornes(items: Seq<ElementFlux>, d: i64, k: int)
    requires
        0 <= k < items.len(),
    ensures
        nouvelle_maj(items, d) >= d,
        match epoch_de(items[k]) {
            Some(ep) => ep <= nouvelle_maj(items, d),
            None => true,
        },
    decreases items.len(),
{
    lemme_maj_min(items, d);
    if k < items.len() - 1 {
        lemme_maj_bornes(items.drop_last(), d, k);
        lemme_maj_min(items.drop_last(), d);
        assert(items.drop_last()[k] == items[k]);
        assert(nouvelle_maj(items, d) >= nouvelle_maj(items.drop_last(), d));
    }
}

pub proof fn lemme_maj_min(items: Seq<ElementFlux>, d: i64)
    ensures
        nouvelle_maj(items, d) >= d,
    decreases items.len(),
{
    if items.len() > 0 {
        lemme_maj_min(items.drop_last(), d);
    }
}

/// Le texte porte ce caractère.
pub open spec fn porte_car(t: Seq<char>, c: char) -> bool {
    exists|k: int| 0 <= k < t.len() && t[k] == c
}

fn porte_car_exec(t: &str, c: char) -> (r: bool)
    ensures
        r == porte_car(t@, c),
{
    let n = t.unicode_len();
    let mut i: usize = 0;
    while i < n && t.get_char(i) != c
        invariant
            n == t@.len(),
            i <= n,
            forall|k: int| 0 <= k < i ==> t@[k] != c,
        decreases n - i,
    {
        i = i + 1;
    }
    if i < n {
        assert(t@[i as int] == c);
        true
    } else {
        false
    }
}

pub open spec fn chiffre_car(d: int) -> char {
    if d == 0 {
        '0'
    } else if d == 1 {
        '1'
    } else if d == 2 {
        '2'
    } else if d == 3 {
        '3'
    } else if d == 4 {
        '4'
    } else if d == 5 {
        '5'
    } else if d == 6 {
        '6'
    } else if d == 7 {
        '7'
    } else if d == 8 {
        '8'
    } else {
        '9'
    }
}

/// Écriture décimale d'un entier.
pub open spec fn decimales(n: int) -> Seq<char>
    decreases n,
{
    if n < 10 {
        seq![chiffre_car(n)]
    } else {
        decimales(n / 10).push(chiffre_car(n % 10))
    }
}

fn chiffre_exec(d: u64) -> (c: char)
    requires
        d < 10,
    ensures
        c == chiffre_car(d as int),
{
    if d == 0 {
        '0'
    } else if d == 1 {
        '1'
    } else if d == 2 {
        '2'
    } else if d == 3 {
        '3'
    } else if d == 4 {
        '4'
    } else if d == 5 {
        '5'
    } else if d == 6 {
        '6'
    } else if d == 7 {
        '7'
    } else if d == 8 {
        '8'
    } else {
        '9'
    }
}

/// Écriture décimale d'un entier, pour les noms de remplacement.
pub fn u64_vers_chaine(n: u64) -> (r: String)
    ensures
        r@ == decimales(n as int),
{
    let mut chiffres: Vec<char> = Vec::new();
    let mut m = n;
    proof {
        assert(chiffres@.reverse() =~= Seq::<char>::empty());
        assert(decimales(n as int) =~= decimales(n as int) + chiffres@.reverse());
    }
    while m >= 10
        invariant
            decimales(n as int) == decimales(m as int) + chiffres@.reverse(),
        decreases m,
    {
        let d = m % 10;
        let ghost avant = chiffres@;
        chiffres.push(chiffre_exec(d));
        m = m / 10;
        proof {
            assert(chiffres@ == avant.push(chiffre_car(d as int)));
            assert(chiffres@.reverse() =~= seq![chiffre_car(d as int)] + avant.reverse());
            assert(decimales((m * 10 + d) as int) == decimales(m as int).push(
                chiffre_car(d as int),
            ));
            assert(decimales(n as int) =~= decimales(m as int) + chiffres@.reverse());
        }
    }
    let mut r = String::new();
    crate::texte::pousser_car(&mut r, chiffre_exec(m));
    proof {
        assert(decimales(m as int) =~= seq![chiffre_car(m as int)]);
        assert(r@ =~= decimales(n as int).subrange(0, 1));
    }
    let nb = chiffres.len();
    let mut j: usize = nb;
    while j > 0
        invariant
            nb == chiffres@.len(),
            j <= nb,
            decimales(n as int) == decimales(m as int) + chiffres@.reverse(),
            decimales(m as int).len() == 1,
            r@ == decimales(n as int).subrange(0, 1 + (nb - j)),
        decreases j,
    {
        crate::texte::pousser_car(&mut r, chiffres[j - 1]);
        j = j - 1;
        proof {
            assert(chiffres@.reverse()[nb - j - 1] == chiffres@[j as int]);
            assert(r@ =~= decimales(n as int).subrange(0, 1 + (nb - j)));
        }
    }
    proof {
        assert(decimales(n as int).subrange(0, 1 + nb as int) =~= decimales(n as int));
    }
    r
}

/// Nom affiché d'un élément accepté : le titre nettoyé, ou un nom de
/// remplacement numéroté par la position quand il ne reste rien.
pub open spec fn nom_affiche(titre_brut: Seq<char>, k: int) -> Seq<char> {
    let net = titre::titre_net_spec(titre_brut);
    if net.len() == 0 {
        "sans-nom-"@ + decimales(k)
    } else {
        net
    }
}

/// Décision d'ingestion pour un élément, face au filigrane et aux
/// identifiants déjà suivis à cet instant de la passe.
pub open spec fn classement_spec(item: ElementFlux, filigrane: i64, presents: Set<u64>) -> Classement {
    match epoch_de(item) {
        None => Classement::DateInvalide,
        Some(ep) => if ep <= filigrane {
            Classement::TropAncien
        } else {
            match item.titre {
                None => Classement::Incomplet,
                Some(t) => if !porte_car(t@, ']') {
                    Classement::SansBalise
                } else {
                    match (item.lien, item.auteur) {
                        (Some(l), Some(_a)) => match lien::extraire_id_spec(l@) {
                            None => Classement::LienInvalide,
                            Some(id) => if presents.contains(id) {
                                Classement::DejaPresent(id)
                            } else {
                                Classement::Ajoute(id)
                            },
                        },
                        _ => Classement::Incomplet,
                    }
                },
            }
        },
    }
}

/// Identifiants portés par les écrits d'un catalogue.
pub open spec fn ids_de(s: Seq<Ecrit>) -> Set<u64> {
    Set::new(|id: u64| exists|j: int| 0 <= j < s.len() && (#[trigger] s[j]).id == id)
}

/// Identifiants suivis après le traitement des `k` premiers éléments.
pub open spec fn ids_apres(p0: Set<u64>, items: Seq<ElementFlux>, filigrane: i64, k: int) -> Set<
    u64,
>
    decreases k,
{
    if k <= 0 {
        p0
    } else {
        let avant = ids_apres(p0, items, filigrane, k - 1);
        match classement_spec(items[k - 1], filigrane, avant) {
            Classement::Ajoute(id) => avant.insert(id),
            _ => avant,
        }
    }
}

/// L'écrit versé pour un élément accepté : ouvert, du type lu dans les
/// marqueurs, nommé par le titre nettoyé, daté de l'instant de la passe,
/// sans tag ni marque, non encore sauvegardé.
pub open spec fn entree_correspond(e: Ecrit, item: ElementFlux, k: int, maintenant: i64) -> bool {
    match (item.titre, item.lien, item.auteur) {
        (Some(t), Some(l), Some(a)) => {
            &&& e.status == Status::Ouvert
            &&& e.type_ == titre::type_du_titre_spec(t@)
            &&& e.nom@ == nom_affiche(t@, k)
            &&& e.lien@ == l@
            &&& e.auteur@ == a@
            &&& e.last_update == maintenant
            &&& e.modified == false
            &&& e.tags@.len() == 0
            &&& e.interets_spec().len() == 0
            &&& lien::extraire_id_spec(l@) == Some(e.id_spec())
        },
        _ => false,
    }
}

/// L'entrée ajoutée `e` est justifiée par un élément du flux : un
/// classement `Ajoute` porte son identifiant et l'élément correspond.
pub open spec fn ajout_justifie(
    cls: Seq<Classement>,
    items: Seq<ElementFlux>,
    e: Ecrit,
    maintenant: i64,
) -> bool {
    exists|kk: int|
        0 <= kk < cls.len() && kk < items.len() && #[trigger] cls[kk] == Classement::Ajoute(
            e.id_spec(),
        ) && entree_correspond(e, items[kk], kk, maintenant)
}

proof fn lemme_ajout_pousse(
    cls: Seq<Classement>,
    x: Classement,
    items: Seq<ElementFlux>,
    e: Ecrit,
    maintenant: i64,
)
    requires
        ajout_justifie(cls, items, e, maintenant),
    ensures
        ajout_justifie(cls.push(x), items, e, maintenant),
{
    let kk = choose|kk: int|
        0 <= kk < cls.len() && kk < items.len() && #[trigger] cls[kk] == Classement::Ajoute(
            e.id_spec(),
        ) && entree_correspond(e, items[kk], kk, maintenant);
    assert(cls.push(x)[kk] == cls[kk]);
}

proof fn lemme_ids_push(s: Seq<Ecrit>, e: Ecrit)
    ensures
        ids_de(s.push(e)) =~= ids_de(s).insert(e.id),
{
    assert forall|id: u64| ids_de(s.push(e)).contains(id) implies ids_de(s).insert(
        e.id,
    ).contains(id) by {
        let j = choose|j: int| 0 <= j < s.push(e).len() && (#[trigger] s.push(e)[j]).id == id;
        if j < s.len() {
            assert(s[j].id == id);
        }
    }
    assert forall|id: u64| ids_de(s).insert(e.id).contains(id) implies ids_de(
        s.push(e),
    ).contains(id) by {
        if id == e.id {
            assert(s.push(e)[s.len() as int].id == id);
        } else {
            let j = choose|j: int| 0 <= j < s.len() && (#[trigger] s[j]).id == id;
            assert(s.push(e)[j].id == id);
        }
    }
}

proof fn lemme_ids_contient(s: Seq<Ecrit>, id: u64)
    ensures
        ids_de(s).contains(id) <==> base::indice_id(s, id, 0) < s.len(),
{
    base::lemme_presence(s, id);
}

/// La loi du filigrane : une fois le filigrane avancé par une passe,
/// rejouer le même flux ne verse plus rien au catalogue, quel que soit
/// l'état des identifiants suivis ; chaque élément est trop ancien ou
/// sans date lisible.
pub proof fn lemme_flux_idempotent(
    items: Seq<ElementFlux>,
    d: i64,
    presents: Set<u64>,
    k: int,
)
    requires
        0 <= k < items.len(),
    ensures
        classement_spec(items[k], nouvelle_maj(items, d), presents) == Classement::DateInvalide
            || classement_spec(items[k], nouvelle_maj(items, d), presents)
            == Classement::TropAncien,
{
    lemme_maj_bornes(items, d, k);
}

impl Ecrit {
    /// Une passe d'ingestion du flux : classe chaque élément (dates,
    /// marqueurs, lien, auteur, doublons), verse les nouveaux écrits au
    /// catalogue sans toucher aux entrées déjà suivies, et rend le
    /// filigrane avancé avec le classement de chaque élément.
    pub fn maj_rss(
        base_: &mut Base,
        items: &Vec<ElementFlux>,
        derniere_maj: i64,
        maintenant: i64,
    ) -> (r: (i64, Vec<Classement>))
        requires
            old(base_).bien_formee(),
        ensures
            r.0 == nouvelle_maj(items@, derniere_maj),
            r.0 >= derniere_maj,
            r.1@.len() == items@.len(),
            forall|k: int|
                0 <= k < items@.len() ==> r.1@[k] == classement_spec(
                    items@[k],
                    derniere_maj,
                    ids_apres(ids_de(old(base_).vue()), items@, derniere_maj, k),
                ),
            final(base_).bien_formee(),
            final(base_).vue().len() >= old(base_).vue().len(),
            forall|j: int|
                0 <= j < old(base_).vue().len() ==> #[trigger] final(base_).vue()[j] == old(
                    base_,
                ).vue()[j],
            forall|j: int|
                old(base_).vue().len() <= j < final(base_).vue().len() ==> ajout_justifie(
                    r.1@,
                    items@,
                    #[trigger] final(base_).vue()[j],
                    maintenant,
                ),
    {
        let n = items.len();
        let mut classements: Vec<Classement> = Vec::new();
        let mut maj = derniere_maj;
        let mut k: usize = 0;
        let ghost p0 = ids_de(old(base_).vue());
        proof {
            assert(items@.subrange(0, 0) =~= Seq::<ElementFlux>::empty());
        }
        while k < n
            invariant
                old(base_).bien_formee(),
                base_.bien_formee(),
                n == items@.len(),
                k <= n,
                p0 == ids_de(old(base_).vue()),
                maj == nouvelle_maj(items@.subrange(0, k as int), derniere_maj),
                classements@.len() == k,
                forall|j: int|
                    0 <= j < k ==> classements@[j] == classement_spec(
                        items@[j],
                        derniere_maj,
                        ids_apres(p0, items@, derniere_maj, j),
                    ),
                ids_de(base_.vue()) =~= ids_apres(p0, items@, derniere_maj, k as int),
                base_.vue().len() >= old(base_).vue().len(),
                forall|j: int|
                    0 <= j < old(base_).vue().len() ==> #[trigger] base_.vue()[j] == old(
                        base_,
                    ).vue()[j],
                forall|j: int|
                    old(base_).vue().len() <= j < base_.vue().len() ==> ajout_justifie(
                        classements@,
                        items@,
                        #[trigger] base_.vue()[j],
                        maintenant,
                    ),
            decreases n - k,
        {
            proof {
                assert(items@.subrange(0, k + 1).drop_last() =~= items@.subrange(0, k as int));
                assert(items@.subrange(0, k + 1).last() == items@[k as int]);
            }
            let ghost presents = ids_apres(p0, items@, derniere_maj, k as int);
            let ghost vue_iter0 = base_.vue();
            let item = &items[k];
            let mut cl = Classement::DateInvalide;
            let epoch: Option<i64> = match &item.date {
                Some(d) => parse_rfc2822(d.as_str()),
                None => None,
            };
            proof {
                assert(epoch == epoch_de(items@[k as int]));
            }
            match epoch {
                None => {
                    cl = Classement::DateInvalide;
                },
                Some(ep) => {
                    if ep > maj {
                        maj = ep;
                    }
                    if ep <= derniere_maj {
                        cl = Classement::TropAncien;
                    } else {
                        match &item.titre {
                            Some(t) => {
                                if !porte_car_exec(t.as_str(), ']') {
                                    cl = Classement::SansBalise;
                                } else {
                                    match (&item.lien, &item.auteur) {
                                        (Some(l), Some(a)) => {
                                            match Ecrit::find_id(l) {
                                        None => {
                                            cl = Classement::LienInvalide;
                                        },
                                        Some(id) => {
                                            if base_.contains_key(id) {
                                                proof {
                                                    lemme_ids_contient(base_.vue(), id);
                                                    assert(presents.contains(id));
                                                }
                                                cl = Classement::DejaPresent(id);
                                            } else {
                                                proof {
                                                    lemme_ids_contient(base_.vue(), id);
                                                    assert(!presents.contains(id));
                                                }
                                                let net = titre::titre_net(t.as_str());
                                                let nom = if net.unicode_len() == 0 {
                                                    let num = u64_vers_chaine(k as u64);
                                                    String::from_str("sans-nom-").concat(
                                                        num.as_str(),
                                                    )
                                                } else {
                                                    net
                                                };
                                                proof {
                                                    assert(nom@ == nom_affiche(t@, k as int));
                                                }
                                                let nouveau = Ecrit::new(
                                                    nom,
                                                    l.clone(),
                                                    titre::type_du_titre(t.as_str()),
                                                    Status::Ouvert,
                                                    a.clone(),
                                                    maintenant,
                                                );
                                                match nouveau {
                                                    Ok(e) => {
                                                        let ghost avant_vue = base_.vue();
                                                        proof {
                                                            base::lemme_indice_id(
                                                                base_.vue(),
                                                                e.id_spec(),
                                                                0,
                                                            );
                                                        }
                                                        base_.inserer(e);
                                                        proof {
                                                            assert(base_.vue() == avant_vue.push(
                                                                e,
                                                            ));
                                                            lemme_ids_push(avant_vue, e);
                                                            assert(e.id_spec() == id);
                                                            assert(entree_correspond(
                                                                e,
                                                                items@[k as int],
                                                                k as int,
                                                                maintenant,
                                                            ));
                                                        }
                                                        cl = Classement::Ajoute(id);
                                                    },
                                                    Err(_) => {
                                                        proof {
                                                            assert(false);
                                                        }
                                                    },
                                                }
                                            }
                                        },
                                    }
                                        },
                                        _ => {
                                            cl = Classement::Incomplet;
                                        },
                                    }
                                }
                            },
                            None => {
                                cl = Classement::Incomplet;
                            },
                        }
                    }
                },
            }
            proof {
                assert(cl == classement_spec(items@[k as int], derniere_maj, presents));
                assert(maj == nouvelle_maj(items@.subrange(0, k + 1), derniere_maj));
                assert(ids_de(base_.vue()) =~= ids_apres(p0, items@, derniere_maj, k + 1));
            }
            let ghost cls_avant = classements@;
            classements.push(cl);
            proof {
                assert forall|j: int|
                    old(base_).vue().len() <= j < base_.vue().len() implies ajout_justifie(
                    classements@,
                    items@,
                    #[trigger] base_.vue()[j],
                    maintenant,
                ) by {
                    if j < vue_iter0.len() {
                        assert(base_.vue()[j] == vue_iter0[j]);
                        assert(ajout_justifie(cls_avant, items@, vue_iter0[j], maintenant));
                        lemme_ajout_pousse(cls_avant, cl, items@, vue_iter0[j], maintenant);
                    } else {
                        assert(classements@[k as int] == cl);
                        let ki = k as int;
                        assert(0 <= ki < classements@.len() && ki < items@.len() && classements@[ki]
                            == Classement::Ajoute(base_.vue()[j].id_spec()) && entree_correspond(
                            base_.vue()[j],
                            items@[ki],
                            ki,
                            maintenant,
                        ));
                    }
                }
            }
            k = k + 1;
        }
        proof {
            assert(items@.subrange(0, n as int) =~= items@);
            lemme_maj_min(items@, derniere_maj);
        }
        (maj, classements)
    }
}

} // verus!
