//! Le catalogue : l'ensemble des écrits suivis, indexé par identifiant
//! canonique, et le moteur de recherche multicritère qui le parcourt.
//! Les filtres sont conjonctifs entre dimensions et disjonctifs au sein
//! d'une dimension ; une dimension vide n'impose aucune restriction.

use vstd::multiset::Multiset;
use vstd::prelude::*;

use crate::ecrit::fields::{Status, Type};
use crate::ecrit::Ecrit;
use crate::texte;

verus! {

/// Premier indice `>= de` d'un écrit portant l'identifiant `id`, ou la
/// longueur de `s`.
pub open spec fn indice_id(s: Seq<Ecrit>, id: u64, de: int) -> int
    decreases s.len() - de,
{
    if de < 0 || de >= s.len() {
        s.len() as int
    } else if s[de].id == id {
        de
    } else {
        indice_id(s, id, de + 1)
    }
}

pub proof fn lemme_indice_id(s: Seq<Ecrit>, id: u64, de: int)
    requires
        0 <= de <= s.len(),
    ensures
        de <= indice_id(s, id, de) <= s.len(),
        indice_id(s, id, de) < s.len() ==> s[indice_id(s, id, de)].id == id,
        forall|k: int| de <= k < indice_id(s, id, de) ==> s[k].id != id,
    decreases s.len() - de,
{
    if de < s.len() && s[de].id != id {
        lemme_indice_id(s, id, de + 1);
    }
}

/// Chaque identifiant n'apparaît qu'une fois.
pub open spec fn ids_uniques(s: Seq<Ecrit>) -> bool {
    forall|i: int, j: int| 0 <= i < j < s.len() ==> (#[trigger] s[i]).id != (#[trigger] s[j]).id
}

/// Le catalogue des écrits suivis. L'ordre interne est l'ordre
/// d'insertion ; les identifiants sont uniques.
#[derive(Debug)]
pub struct Base {
    /// Les écrits, dans l'ordre d'insertion.
    pub ecrits: Vec<Ecrit>,
}

impl Base {
    /// Les écrits du catalogue, dans l'ordre interne.
    pub open spec fn vue(&self) -> Seq<Ecrit> {
        self.ecrits@
    }

    /// Unicité des identifiants : l'invariant du catalogue, établi par
    /// `new` et préservé par `inserer` et `retirer`.
    pub open spec fn bien_formee(&self) -> bool {
        ids_uniques(self.vue())
    }

    /// L'identifiant est présent dans le catalogue.
    pub open spec fn contient_id(&self, id: u64) -> bool {
        indice_id(self.vue(), id, 0) < self.vue().len()
    }

    /// Catalogue vide.
    pub fn new() -> (r: Base)
        ensures
            r.vue().len() == 0,
            r.bien_formee(),
    {
        Base { ecrits: Vec::new() }
    }

    /// Nombre d'écrits suivis.
    pub fn len(&self) -> (r: usize)
        ensures
            r == self.vue().len(),
    {
        self.ecrits.len()
    }

    /// Écrit à l'indice `i` de l'ordre interne.
    pub fn ecrit(&self, i: usize) -> (r: &Ecrit)
        requires
            i < self.vue().len(),
        ensures
            *r == self.vue()[i as int],
    {
        &self.ecrits[i]
    }

    /// Cherche l'indice interne de l'identifiant `id`, ou la longueur du
    /// catalogue s'il est absent.
    fn chercher(&self, id: u64) -> (i: usize)
        ensures
            i as int == indice_id(self.vue(), id, 0),
    {
        let n = self.ecrits.len();
        let mut i: usize = 0;
        while i < n && self.ecrits[i].id != id
            invariant
                n == self.vue().len(),
                i <= n,
                forall|k: int| 0 <= k < i ==> self.vue()[k].id != id,
            decreases n - i,
        {
            i = i + 1;
        }
        proof {
            lemme_indice_id(self.vue(), id, 0);
            assert(indice_id(self.vue(), id, 0) == i as int) by {
                if indice_id(self.vue(), id, 0) < i as int {
                    assert(self.vue()[indice_id(self.vue(), id, 0)].id == id);
                }
            }
        }
        i
    }

    /// L'identifiant est-il suivi ?
    pub fn contains_key(&self, id: u64) -> (r: bool)
        ensures
            r == self.contient_id(id),
    {
        self.chercher(id) < self.ecrits.len()
    }

    /// L'écrit portant l'identifiant `id`, s'il est suivi.
    pub fn get(&self, id: u64) -> (r: Option<&Ecrit>)
        ensures
            match r {
                Some(e) => self.contient_id(id) && *e == self.vue()[indice_id(
                    self.vue(),
                    id,
                    0,
                )] && e.id == id,
                None => !self.contient_id(id),
            },
    {
        let i = self.chercher(id);
        if i < self.ecrits.len() {
            proof {
                lemme_indice_id(self.vue(), id, 0);
            }
            Some(&self.ecrits[i])
        } else {
            None
        }
    }

    /// Insère un écrit ; un écrit déjà suivi sous le même identifiant est
    /// remplacé.
    pub fn inserer(&mut self, e: Ecrit)
        ensures
            ({
                let i = indice_id(old(self).vue(), e.id, 0);
                if i < old(self).vue().len() {
                    final(self).vue() == old(self).vue().update(i, e)
                } else {
                    final(self).vue() == old(self).vue().push(e)
                }
            }),
            old(self).bien_formee() ==> final(self).bien_formee(),
            final(self).contient_id(e.id) || !old(self).bien_formee(),
    {
        let i = self.chercher(e.id);
        let ghost avant = self.vue();
        let ghost eid = e.id;
        if i < self.ecrits.len() {
            self.ecrits[i] = e;
        } else {
            self.ecrits.push(e);
        }
        proof {
            lemme_indice_id(avant, eid, 0);
            if old(self).bien_formee() {
                assert forall|a: int, b: int| 0 <= a < b < self.vue().len() implies (
                #[trigger] self.vue()[a]).id != (#[trigger] self.vue()[b]).id by {
                    if indice_id(avant, eid, 0) < avant.len() {
                        assert(avant[indice_id(avant, eid, 0)].id == eid);
                    }
                }
                lemme_indice_id(self.vue(), eid, 0);
                assert(self.contient_id(eid)) by {
                    if indice_id(avant, eid, 0) < avant.len() {
                        assert(self.vue()[indice_id(avant, eid, 0)].id == eid);
                        if indice_id(self.vue(), eid, 0) >= self.vue().len() {
                            assert(self.vue()[indice_id(avant, eid, 0)].id != eid);
                        }
                    } else {
                        assert(self.vue()[avant.len() as int].id == eid);
                        if indice_id(self.vue(), eid, 0) >= self.vue().len() {
                            assert(self.vue()[avant.len() as int].id != eid);
                        }
                    }
                }
            }
        }
    }

    /// Retire l'écrit portant l'identifiant `id` et le renvoie ; absent,
    /// le catalogue est inchangé.
    pub fn retirer(&mut self, id: u64) -> (r: Option<Ecrit>)
        ensures
            ({
                let i = indice_id(old(self).vue(), id, 0);
                match r {
                    Some(e) => i < old(self).vue().len() && e == old(self).vue()[i] && final(self).vue() == old(self).vue().remove(i),
                    None => i == old(self).vue().len() && *final(self) == *old(self),
                }
            }),
            old(self).bien_formee() ==> final(self).bien_formee(),
    {
        let i = self.chercher(id);
        let ghost avant = self.vue();
        if i < self.ecrits.len() {
            let e = self.ecrits.remove(i);
            proof {
                if old(self).bien_formee() {
                    avant.remove_ensures(i as int);
                    assert forall|a: int, b: int| 0 <= a < b < self.vue().len() implies (
                    #[trigger] self.vue()[a]).id != (#[trigger] self.vue()[b]).id by {
                        let a0 = if a < i as int {
                            a
                        } else {
                            a + 1
                        };
                        let b0 = if b < i as int {
                            b
                        } else {
                            b + 1
                        };
                        assert(self.vue()[a] == avant[a0]);
                        assert(self.vue()[b] == avant[b0]);
                    }
                }
            }
            Some(e)
        } else {
            proof {
                lemme_indice_id(self.vue(), id, 0);
            }
            None
        }
    }
}

/// Vues des chaînes d'une liste, élément par élément.
pub open spec fn vues_chaines(v: Seq<String>) -> Seq<Seq<char>> {
    v.map_values(|t: String| t@)
}

/// Vue d'un ensemble de candidats optionnel.
pub open spec fn vue_candidats(c: Option<&Vec<u64>>) -> Option<Seq<u64>> {
    match c {
        Some(v) => Some(v@),
        None => None,
    }
}

/// Un des textes de `auteurs` est exactement `a`.
pub open spec fn auteur_dans(auteurs: Seq<String>, a: Seq<char>) -> bool {
    exists|k: int| 0 <= k < auteurs.len() && (#[trigger] auteurs[k])@ == a
}

/// Un des tags de l'écrit égale `t` à la normalisation près.
pub open spec fn tag_porte(etags: Seq<String>, t: Seq<char>) -> bool {
    exists|k: int|
        0 <= k < etags.len() && texte::basicize_spec((#[trigger] etags[k])@)
            == texte::basicize_spec(t)
}

/// Le i-ième tag demandé est porté par l'écrit.
pub open spec fn tag_demande_porte(e: Ecrit, tags: Seq<Seq<char>>, i: int) -> bool {
    tag_porte(e.tags@, tags[i])
}

/// Filtre de tags : aucune restriction si la liste est vide ; sinon tous
/// les tags demandés (`et`) ou au moins un (`ou`), à la normalisation près.
pub open spec fn passe_tags(e: Ecrit, tags: Seq<Seq<char>>, tags_et: bool) -> bool {
    if tags.len() == 0 {
        true
    } else if tags_et {
        forall|i: int| 0 <= i < tags.len() ==> #[trigger] tag_demande_porte(e, tags, i)
    } else {
        exists|i: int| 0 <= i < tags.len() && #[trigger] tag_demande_porte(e, tags, i)
    }
}

/// L'écrit passe toutes les dimensions du filtre : candidats de la
/// recherche floue, statuts, types, auteurs, tags et bornes de date
/// (strictes). Chaque dimension vide n'impose rien.
pub open spec fn passe_filtres(
    e: Ecrit,
    candidats: Option<Seq<u64>>,
    status: Seq<Status>,
    types: Seq<Type>,
    auteurs: Seq<String>,
    tags: Seq<Seq<char>>,
    tags_et: bool,
    modifie_avant: Option<i64>,
    modifie_apres: Option<i64>,
) -> bool {
    &&& match candidats {
        Some(c) => c.contains(e.id),
        None => true,
    }
    &&& (status.len() == 0 || status.contains(e.status))
    &&& (types.len() == 0 || types.contains(e.type_))
    &&& (auteurs.len() == 0 || auteur_dans(auteurs, e.auteur@))
    &&& passe_tags(e, tags, tags_et)
    &&& match modifie_avant {
        Some(d) => e.last_update < d,
        None => true,
    }
    &&& match modifie_apres {
        Some(d) => e.last_update > d,
        None => true,
    }
}

/// Identifiants des écrits de `s` qui passent le filtre, dans l'ordre
/// du catalogue.
pub open spec fn ids_filtres(
    s: Seq<Ecrit>,
    candidats: Option<Seq<u64>>,
    status: Seq<Status>,
    types: Seq<Type>,
    auteurs: Seq<String>,
    tags: Seq<Seq<char>>,
    tags_et: bool,
    modifie_avant: Option<i64>,
    modifie_apres: Option<i64>,
) -> Seq<u64>
    decreases s.len(),
{
    if s.len() == 0 {
        Seq::empty()
    } else {
        let avant = ids_filtres(
            s.drop_last(),
            candidats,
            status,
            types,
            auteurs,
            tags,
            tags_et,
            modifie_avant,
            modifie_apres,
        );
        if passe_filtres(
            s.last(),
            candidats,
            status,
            types,
            auteurs,
            tags,
            tags_et,
            modifie_avant,
            modifie_apres,
        ) {
            avant.push(s.last().id)
        } else {
            avant
        }
    }
}

/// Loi de conjonction de la recherche : un identifiant sort de
/// `ids_filtres` si et seulement si un écrit du catalogue le porte et
/// passe toutes les dimensions du filtre à la fois.
pub proof fn lemme_ids_filtres(
    s: Seq<Ecrit>,
    candidats: Option<Seq<u64>>,
    status: Seq<Status>,
    types: Seq<Type>,
    auteurs: Seq<String>,
    tags: Seq<Seq<char>>,
    tags_et: bool,
    modifie_avant: Option<i64>,
    modifie_apres: Option<i64>,
    id: u64,
)
    ensures
        ids_filtres(
            s,
            candidats,
            status,
            types,
            auteurs,
            tags,
            tags_et,
            modifie_avant,
            modifie_apres,
        ).contains(id) <==> exists|k: int|
            0 <= k < s.len() && (#[trigger] s[k]).id == id && passe_filtres(
                s[k],
                candidats,
                status,
                types,
                auteurs,
                tags,
                tags_et,
                modifie_avant,
                modifie_apres,
            ),
    decreases s.len(),
{
    let r = ids_filtres(s, candidats, status, types, auteurs, tags, tags_et, modifie_avant, modifie_apres);
    if s.len() > 0 {
        let n = s.len() as int;
        let dl = s.drop_last();
        lemme_ids_filtres(dl, candidats, status, types, auteurs, tags, tags_et, modifie_avant, modifie_apres, id);
        let r0 = ids_filtres(dl, candidats, status, types, auteurs, tags, tags_et, modifie_avant, modifie_apres);
        let passe_dernier = passe_filtres(s.last(), candidats, status, types, auteurs, tags, tags_et, modifie_avant, modifie_apres);
        assert(forall|k: int| 0 <= k < n - 1 ==> #[trigger] dl[k] == s[k]);
        if r.contains(id) {
            let w = choose|w: int| 0 <= w < r.len() && r[w] == id;
            if passe_dernier && w == r0.len() {
                assert(s[n - 1].id == id && passe_filtres(s[n - 1], candidats, status, types, auteurs, tags, tags_et, modifie_avant, modifie_apres));
            } else {
                assert(r0[w] == id);
                assert(r0.contains(id));
                let k = choose|k: int|
                    0 <= k < dl.len() && (#[trigger] dl[k]).id == id && passe_filtres(dl[k], candidats, status, types, auteurs, tags, tags_et, modifie_avant, modifie_apres);
                assert(s[k].id == id && passe_filtres(s[k], candidats, status, types, auteurs, tags, tags_et, modifie_avant, modifie_apres));
            }
        }
        if exists|k: int|
            0 <= k < s.len() && (#[trigger] s[k]).id == id && passe_filtres(s[k], candidats, status, types, auteurs, tags, tags_et, modifie_avant, modifie_apres) {
            let k = choose|k: int|
                0 <= k < s.len() && (#[trigger] s[k]).id == id && passe_filtres(s[k], candidats, status, types, auteurs, tags, tags_et, modifie_avant, modifie_apres);
            if k < n - 1 {
                assert(dl[k].id == id && passe_filtres(dl[k], candidats, status, types, auteurs, tags, tags_et, modifie_avant, modifie_apres));
                assert(r0.contains(id));
                let w = choose|w: int| 0 <= w < r0.len() && r0[w] == id;
                assert(r[w] == id);
                assert(r.contains(id));
            } else {
                assert(passe_dernier);
                assert(r[r0.len() as int] == id);
                assert(r.contains(id));
            }
        }
    }
}

fn statut_dans(v: &Vec<Status>, s: Status) -> (r: bool)
    ensures
        r == v@.contains(s),
{
    let n = v.len();
    let mut i: usize = 0;
    while i < n && v[i] != s
        invariant
            n == v@.len(),
            i <= n,
            forall|k: int| 0 <= k < i ==> v@[k] != s,
        decreases n - i,
    {
        i = i + 1;
    }
    if i < n {
        assert(v@[i as int] == s);
        true
    } else {
        false
    }
}

fn type_dans(v: &Vec<Type>, t: Type) -> (r: bool)
    ensures
        r == v@.contains(t),
{
    let n = v.len();
    let mut i: usize = 0;
    while i < n && v[i] != t
        invariant
            n == v@.len(),
            i <= n,
            forall|k: int| 0 <= k < i ==> v@[k] != t,
        decreases n - i,
    {
        i = i + 1;
    }
    if i < n {
        assert(v@[i as int] == t);
        true
    } else {
        false
    }
}

fn id_dans(v: &Vec<u64>, id: u64) -> (r: bool)
    ensures
        r == v@.contains(id),
{
    let n = v.len();
    let mut i: usize = 0;
    while i < n && v[i] != id
        invariant
            n == v@.len(),
            i <= n,
            forall|k: int| 0 <= k < i ==> v@[k] != id,
        decreases n - i,
    {
        i = i + 1;
    }
    if i < n {
        assert(v@[i as int] == id);
        true
    } else {
        false
    }
}

fn auteur_dans_exec(v: &Vec<String>, a: &String) -> (r: bool)
    ensures
        r == auteur_dans(v@, a@),
{
    let n = v.len();
    let mut i: usize = 0;
    while i < n && v[i] != *a
        invariant
            n == v@.len(),
            i <= n,
            forall|k: int| 0 <= k < i ==> (#[trigger] v@[k])@ != a@,
        decreases n - i,
    {
        i = i + 1;
    }
    if i < n {
        assert((v@[i as int])@ == a@);
        true
    } else {
        false
    }
}

/// Un des tags de l'écrit égale `t` à la normalisation près.
fn tag_porte_exec(etags: &Vec<String>, t: &String) -> (r: bool)
    ensures
        r == tag_porte(etags@, t@),
{
    let bt = texte::basicize(t.as_str());
    let n = etags.len();
    let mut i: usize = 0;
    let mut trouve = false;
    while i < n
        invariant
            n == etags@.len(),
            i <= n,
            bt@ == texte::basicize_spec(t@),
            trouve ==> tag_porte(etags@, t@),
            !trouve ==> forall|k: int|
                0 <= k < i ==> texte::basicize_spec((#[trigger] etags@[k])@)
                    != texte::basicize_spec(t@),
        decreases n - i,
    {
        let be = texte::basicize(etags[i].as_str());
        if be == bt {
            proof {
                assert(texte::basicize_spec((etags@[i as int])@) == texte::basicize_spec(t@));
            }
            trouve = true;
        }
        i = i + 1;
    }
    trouve
}

fn passe_tags_exec(e: &Ecrit, tags: &Vec<String>, tags_et: bool) -> (r: bool)
    ensures
        r == passe_tags(*e, vues_chaines(tags@), tags_et),
{
    let n = tags.len();
    if n == 0 {
        return true;
    }
    if tags_et {
        let mut i: usize = 0;
        while i < n
            invariant
                tags_et,
                n == tags@.len(),
                1 <= n,
                i <= n,
                forall|k: int|
                    0 <= k < i ==> #[trigger] tag_demande_porte(*e, vues_chaines(tags@), k),
            decreases n - i,
        {
            if !tag_porte_exec(&e.tags, &tags[i]) {
                proof {
                    let ii = i as int;
                    assert(vues_chaines(tags@)[ii] == (tags@[ii])@);
                    assert(!tag_demande_porte(*e, vues_chaines(tags@), ii));
                }
                return false;
            }
            i = i + 1;
        }
        true
    } else {
        let mut i: usize = 0;
        while i < n
            invariant
                !tags_et,
                n == tags@.len(),
                1 <= n,
                i <= n,
                forall|k: int|
                    0 <= k < i ==> !(#[trigger] tag_demande_porte(*e, vues_chaines(tags@), k)),
            decreases n - i,
        {
            if tag_porte_exec(&e.tags, &tags[i]) {
                proof {
                    let ii = i as int;
                    assert(vues_chaines(tags@)[ii] == (tags@[ii])@);
                    assert(0 <= ii < vues_chaines(tags@).len() && tag_demande_porte(
                        *e,
                        vues_chaines(tags@),
                        ii,
                    ));
                }
                return true;
            }
            i = i + 1;
        }
        false
    }
}

fn passe_filtres_exec(
    e: &Ecrit,
    candidats: Option<&Vec<u64>>,
    status: &Vec<Status>,
    types: &Vec<Type>,
    auteurs: &Vec<String>,
    tags: &Vec<String>,
    tags_et: bool,
    modifie_avant: Option<i64>,
    modifie_apres: Option<i64>,
) -> (r: bool)
    ensures
        r == passe_filtres(
            *e,
            vue_candidats(candidats),
            status@,
            types@,
            auteurs@,
            vues_chaines(tags@),
            tags_et,
            modifie_avant,
            modifie_apres,
        ),
{
    let c_ok = match candidats {
        Some(c) => id_dans(c, e.id),
        None => true,
    };
    let s_ok = status.len() == 0 || statut_dans(status, e.status);
    let t_ok = types.len() == 0 || type_dans(types, e.type_);
    let a_ok = auteurs.len() == 0 || auteur_dans_exec(auteurs, &e.auteur);
    let tg_ok = passe_tags_exec(e, tags, tags_et);
    let av_ok = match modifie_avant {
        Some(d) => e.last_update < d,
        None => true,
    };
    let ap_ok = match modifie_apres {
        Some(d) => e.last_update > d,
        None => true,
    };
    c_ok && s_ok && t_ok && a_ok && tg_ok && av_ok && ap_ok
}

/// Auteurs distincts du catalogue, à la première occurrence.
pub open spec fn auteurs_distincts(s: Seq<Ecrit>) -> Seq<String>
    decreases s.len(),
{
    if s.len() == 0 {
        Seq::empty()
    } else {
        let avant = auteurs_distincts(s.drop_last());
        if auteur_dans(avant, s.last().auteur@) {
            avant
        } else {
            avant.push(s.last().auteur)
        }
    }
}

/// Auteurs de la liste dont chaque mot du critère (normalisé) apparaît.
pub open spec fn filtre_auteurs(auteurs: Seq<String>, critere: Seq<char>) -> Seq<String>
    decreases auteurs.len(),
{
    if auteurs.len() == 0 {
        Seq::empty()
    } else {
        let avant = filtre_auteurs(auteurs.drop_last(), critere);
        if texte::critere_correspond_spec(critere, auteurs.last()@) {
            avant.push(auteurs.last())
        } else {
            avant
        }
    }
}

impl Ecrit {
    /// Les auteurs du catalogue, sans doublon, dans l'ordre de première
    /// apparition.
    pub fn liste_auteurs(base: &Base) -> (r: Vec<String>)
        ensures
            r@ == auteurs_distincts(base.vue()),
    {
        let n = base.ecrits.len();
        let mut r: Vec<String> = Vec::new();
        let mut i: usize = 0;
        proof {
            assert(base.vue().subrange(0, 0) =~= Seq::<Ecrit>::empty());
        }
        while i < n
            invariant
                n == base.vue().len(),
                i <= n,
                r@ == auteurs_distincts(base.vue().subrange(0, i as int)),
            decreases n - i,
        {
            proof {
                assert(base.vue().subrange(0, i + 1).drop_last() =~= base.vue().subrange(
                    0,
                    i as int,
                ));
            }
            if !auteur_dans_exec(&r, &base.ecrits[i].auteur) {
                r.push(base.ecrits[i].auteur.clone());
            }
            i = i + 1;
        }
        proof {
            assert(base.vue().subrange(0, n as int) =~= base.vue());
        }
        r
    }

    /// Les auteurs distincts du catalogue dont chaque mot du critère
    /// (déjà normalisé) apparaît dans le nom.
    pub fn recherche_auteur(critere: &String, base: &Base) -> (r: Vec<String>)
        ensures
            r@ == filtre_auteurs(auteurs_distincts(base.vue()), critere@),
    {
        let tous = Ecrit::liste_auteurs(base);
        let n = tous.len();
        let mut r: Vec<String> = Vec::new();
        let mut i: usize = 0;
        proof {
            assert(tous@.subrange(0, 0) =~= Seq::<String>::empty());
        }
        while i < n
            invariant
                n == tous@.len(),
                tous@ == auteurs_distincts(base.vue()),
                i <= n,
                r@ == filtre_auteurs(tous@.subrange(0, i as int), critere@),
            decreases n - i,
        {
            proof {
                assert(tous@.subrange(0, i + 1).drop_last() =~= tous@.subrange(0, i as int));
            }
            if texte::critere_correspond(critere.as_str(), tous[i].as_str()) {
                r.push(tous[i].clone());
            }
            i = i + 1;
        }
        proof {
            assert(tous@.subrange(0, n as int) =~= tous@);
        }
        r
    }

    /// La recherche multicritère : les identifiants des écrits qui
    /// passent toutes les dimensions à la fois, dans l'ordre du
    /// catalogue. `candidats` porte le résultat du collaborateur de
    /// recherche floue sur le texte libre ; absent, tout le catalogue
    /// est candidat.
    pub fn ulister(
        base: &Base,
        candidats: Option<&Vec<u64>>,
        status: &Vec<Status>,
        types: &Vec<Type>,
        auteurs: &Vec<String>,
        tags: &Vec<String>,
        tags_et: bool,
        modifie_avant: Option<i64>,
        modifie_apres: Option<i64>,
    ) -> (r: Vec<u64>)
        ensures
            r@ == ids_filtres(
                base.vue(),
                vue_candidats(candidats),
                status@,
                types@,
                auteurs@,
                vues_chaines(tags@),
                tags_et,
                modifie_avant,
                modifie_apres,
            ),
    {
        let n = base.ecrits.len();
        let mut r: Vec<u64> = Vec::new();
        let mut i: usize = 0;
        proof {
            assert(base.vue().subrange(0, 0) =~= Seq::<Ecrit>::empty());
        }
        while i < n
            invariant
                n == base.vue().len(),
                i <= n,
                r@ == ids_filtres(
                    base.vue().subrange(0, i as int),
                    vue_candidats(candidats),
                    status@,
                    types@,
                    auteurs@,
                    vues_chaines(tags@),
                    tags_et,
                    modifie_avant,
                    modifie_apres,
                ),
            decreases n - i,
        {
            proof {
                assert(base.vue().subrange(0, i + 1).drop_last() =~= base.vue().subrange(
                    0,
                    i as int,
                ));
            }
            if passe_filtres_exec(
                &base.ecrits[i],
                candidats,
                status,
                types,
                auteurs,
                tags,
                tags_et,
                modifie_avant,
                modifie_apres,
            ) {
                r.push(base.ecrits[i].get_id());
            }
            i = i + 1;
        }
        proof {
            assert(base.vue().subrange(0, n as int) =~= base.vue());
        }
        r
    }
}

/// L'écrit est à retirer au nettoyage : clos sans suite possible.
pub open spec fn a_nettoyer(e: Ecrit) -> bool {
    e.status == Status::Abandonne || e.status == Status::Publie || e.status == Status::Refuse
}

/// Écrits restants après nettoyage, dans l'ordre du catalogue.
pub open spec fn garde_nettoyage(s: Seq<Ecrit>) -> Seq<Ecrit>
    decreases s.len(),
{
    if s.len() == 0 {
        Seq::empty()
    } else {
        let avant = garde_nettoyage(s.drop_last());
        if a_nettoyer(s.last()) {
            avant
        } else {
            avant.push(s.last())
        }
    }
}

/// Identifiants retirés au nettoyage, dans l'ordre du catalogue.
pub open spec fn vires_nettoyage(s: Seq<Ecrit>) -> Seq<u64>
    decreases s.len(),
{
    if s.len() == 0 {
        Seq::empty()
    } else {
        let avant = vires_nettoyage(s.drop_last());
        if a_nettoyer(s.last()) {
            avant.push(s.last().id)
        } else {
            avant
        }
    }
}

proof fn lemme_garde_origine(s: Seq<Ecrit>, k: int)
    requires
        0 <= k < garde_nettoyage(s).len(),
    ensures
        exists|k0: int| 0 <= k0 < s.len() && garde_nettoyage(s)[k] == #[trigger] s[k0],
    decreases s.len(),
{
    if s.len() > 0 {
        let avant = garde_nettoyage(s.drop_last());
        if k < avant.len() {
            lemme_garde_origine(s.drop_last(), k);
            let k0 = choose|k0: int|
                0 <= k0 < s.drop_last().len() && avant[k] == #[trigger] s.drop_last()[k0];
            assert(garde_nettoyage(s)[k] == s[k0]);
        } else {
            assert(garde_nettoyage(s)[k] == s[s.len() - 1]);
        }
    }
}

proof fn lemme_garde_uniques(s: Seq<Ecrit>)
    requires
        ids_uniques(s),
    ensures
        ids_uniques(garde_nettoyage(s)),
    decreases s.len(),
{
    if s.len() > 0 {
        let dl = s.drop_last();
        assert(forall|k: int| 0 <= k < dl.len() ==> #[trigger] dl[k] == s[k]);
        assert(ids_uniques(dl));
        lemme_garde_uniques(dl);
        let avant = garde_nettoyage(dl);
        if !a_nettoyer(s.last()) {
            assert forall|k: int| 0 <= k < avant.len() implies (#[trigger] avant[k]).id != s[
                s.len() - 1].id by {
                lemme_garde_origine(dl, k);
                let k0 = choose|k0: int| 0 <= k0 < dl.len() && avant[k] == #[trigger] dl[k0];
                assert(avant[k] == s[k0] && k0 < s.len() - 1);
            }
            assert forall|a: int, b: int|
                0 <= a < b < garde_nettoyage(s).len() implies (#[trigger] garde_nettoyage(
                s,
            )[a]).id != (#[trigger] garde_nettoyage(s)[b]).id by {
                if b < avant.len() {
                    assert(garde_nettoyage(s)[a] == avant[a]);
                    assert(garde_nettoyage(s)[b] == avant[b]);
                } else {
                    assert(garde_nettoyage(s)[a] == avant[a]);
                    assert(garde_nettoyage(s)[b] == s[s.len() - 1]);
                }
            }
        }
    }
}

/// Retire du catalogue les écrits abandonnés, publiés et refusés ;
/// renvoie leurs identifiants dans l'ordre du catalogue.
pub fn nettoyer(base: &mut Base) -> (supprimes: Vec<u64>)
    ensures
        final(base).vue() == garde_nettoyage(old(base).vue()),
        supprimes@ == vires_nettoyage(old(base).vue()),
        old(base).bien_formee() ==> final(base).bien_formee(),
{
    let ghost origine = base.vue();
    let mut reste: Vec<Ecrit> = Vec::new();
    let mut supprimes: Vec<u64> = Vec::new();
    let ghost mut p: int = 0;
    proof {
        assert(origine.subrange(0, 0) =~= Seq::<Ecrit>::empty());
        assert(origine.subrange(0, origine.len() as int) =~= origine);
    }
    while base.ecrits.len() > 0
        invariant
            0 <= p <= origine.len(),
            base.vue() == origine.subrange(p, origine.len() as int),
            reste@ == garde_nettoyage(origine.subrange(0, p)),
            supprimes@ == vires_nettoyage(origine.subrange(0, p)),
        decreases base.vue().len(),
    {
        let e = base.ecrits.remove(0);
        proof {
            assert(e == origine[p]);
            assert(base.vue() =~= origine.subrange(p + 1, origine.len() as int));
            assert(origine.subrange(0, p + 1).drop_last() =~= origine.subrange(0, p));
            assert(origine.subrange(0, p + 1).last() == origine[p]);
        }
        if e.status == Status::Abandonne || e.status == Status::Publie || e.status
            == Status::Refuse {
            let id = e.get_id();
            supprimes.push(id);
        } else {
            reste.push(e);
        }
        proof {
            p = p + 1;
        }
    }
    base.ecrits = reste;
    proof {
        assert(origine.subrange(p, origine.len() as int).len() == 0);
        assert(origine.subrange(0, origine.len() as int) =~= origine);
        if ids_uniques(origine) {
            lemme_garde_uniques(origine);
        }
    }
    supprimes
}

/// L'écrit est à marquer « sans nouvelles » : ouvert et plus ancien que
/// la date de coupure.
pub open spec fn a_archiver(e: Ecrit, date: i64) -> bool {
    e.last_update < date && (e.status == Status::Ouvert || e.status == Status::OuvertPlus)
}

/// Relation entre un écrit avant et après l'archivage : marqué « sans
/// nouvelles » et à sauvegarder s'il était visé, inchangé sinon.
pub open spec fn archive_un(e0: Ecrit, e1: Ecrit, date: i64) -> bool {
    if a_archiver(e0, date) {
        &&& e1.status == Status::SansNouvelles
        &&& e1.modified
        &&& e1.last_update == e0.last_update
        &&& e1.interets_spec() == e0.interets_spec()
        &&& Ecrit::meme_identite(e0, e1)
    } else {
        e1 == e0
    }
}

/// Identifiants des écrits visés par l'archivage, dans l'ordre du
/// catalogue.
pub open spec fn marques_archivage(s: Seq<Ecrit>, date: i64) -> Seq<u64>
    decreases s.len(),
{
    if s.len() == 0 {
        Seq::empty()
    } else {
        let avant = marques_archivage(s.drop_last(), date);
        if a_archiver(s.last(), date) {
            avant.push(s.last().id)
        } else {
            avant
        }
    }
}

/// Marque « sans nouvelles » tous les écrits ouverts plus anciens que la
/// date de coupure ; renvoie leurs identifiants.
pub fn archiver_avant(base: &mut Base, date: i64) -> (marques: Vec<u64>)
    ensures
        final(base).vue().len() == old(base).vue().len(),
        forall|k: int|
            0 <= k < old(base).vue().len() ==> archive_un(
                old(base).vue()[k],
                #[trigger] final(base).vue()[k],
                date,
            ),
        marques@ == marques_archivage(old(base).vue(), date),
        old(base).bien_formee() ==> final(base).bien_formee(),
{
    let ghost origine = base.vue();
    let n = base.ecrits.len();
    let mut marques: Vec<u64> = Vec::new();
    let mut i: usize = 0;
    proof {
        assert(origine.subrange(0, 0) =~= Seq::<Ecrit>::empty());
    }
    while i < n
        invariant
            n == origine.len(),
            base.vue().len() == origine.len(),
            i <= n,
            forall|k: int| i <= k < n ==> #[trigger] base.vue()[k] == origine[k],
            forall|k: int| 0 <= k < i ==> archive_un(origine[k], #[trigger] base.vue()[k], date),
            marques@ == marques_archivage(origine.subrange(0, i as int), date),
        decreases n - i,
    {
        proof {
            assert(origine.subrange(0, i + 1).drop_last() =~= origine.subrange(0, i as int));
            assert(origine.subrange(0, i + 1).last() == origine[i as int]);
        }
        let vise = base.ecrits[i].last_update < date && (base.ecrits[i].status == Status::Ouvert
            || base.ecrits[i].status == Status::OuvertPlus);
        if vise {
            let id = base.ecrits[i].get_id();
            base.ecrits[i].status = Status::SansNouvelles;
            base.ecrits[i].modified = true;
            marques.push(id);
        }
        i = i + 1;
    }
    proof {
        assert(origine.subrange(0, n as int) =~= origine);
        if ids_uniques(origine) {
            assert forall|a: int, b: int| 0 <= a < b < base.vue().len() implies (
            #[trigger] base.vue()[a]).id != (#[trigger] base.vue()[b]).id by {
                assert(archive_un(origine[a], base.vue()[a], date));
                assert(archive_un(origine[b], base.vue()[b], date));
            }
        }
    }
    marques
}

/// Date de dernière modification de l'écrit du catalogue qui porte cet
/// identifiant (pertinente seulement s'il est présent).
pub open spec fn date_id(s: Seq<Ecrit>, id: u64) -> i64 {
    s[indice_id(s, id, 0)].last_update
}

/// Présence d'un identifiant : le premier indice trouvé est sous la
/// longueur si et seulement si un écrit le porte.
pub proof fn lemme_presence(s: Seq<Ecrit>, id: u64)
    ensures
        (indice_id(s, id, 0) < s.len()) <==> exists|k: int|
            0 <= k < s.len() && (#[trigger] s[k]).id == id,
{
    lemme_indice_id(s, id, 0);
    if indice_id(s, id, 0) < s.len() {
        assert(s[indice_id(s, id, 0)].id == id);
    }
}

fn date_de(base: &Base, id: u64) -> (r: i64)
    requires
        base.contient_id(id),
    ensures
        r == date_id(base.vue(), id),
{
    match base.get(id) {
        Some(e) => e.get_date(),
        None => {
            proof {
                assert(false);
            }
            0
        },
    }
}

/// Parmi des identifiants tous suivis, le premier dont la date de
/// dernière modification est minimale.
pub fn plus_ancien(base: &Base, candidats: &Vec<u64>) -> (r: Option<u64>)
    requires
        forall|k: int|
            0 <= k < candidats@.len() ==> indice_id(base.vue(), #[trigger] candidats@[k], 0)
                < base.vue().len(),
    ensures
        match r {
            None => candidats@.len() == 0,
            Some(c) => exists|w: int|
                {
                    &&& 0 <= w < candidats@.len()
                    &&& #[trigger] candidats@[w] == c
                    &&& forall|j: int|
                        0 <= j < candidats@.len() ==> date_id(base.vue(), #[trigger] candidats@[j])
                            >= date_id(base.vue(), c)
                    &&& forall|j: int|
                        0 <= j < w ==> date_id(base.vue(), #[trigger] candidats@[j]) > date_id(
                            base.vue(),
                            c,
                        )
                },
        },
{
    let n = candidats.len();
    if n == 0 {
        return None;
    }
    let mut w: usize = 0;
    let mut d = date_de(base, candidats[0]);
    let mut j: usize = 1;
    while j < n
        invariant
            n == candidats@.len(),
            forall|k: int|
                0 <= k < candidats@.len() ==> indice_id(base.vue(), #[trigger] candidats@[k], 0)
                    < base.vue().len(),
            0 <= w < j <= n,
            d == date_id(base.vue(), candidats@[w as int]),
            forall|k: int| 0 <= k < j ==> date_id(base.vue(), #[trigger] candidats@[k]) >= d,
            forall|k: int| 0 <= k < w ==> date_id(base.vue(), #[trigger] candidats@[k]) > d,
        decreases n - j,
    {
        let dj = date_de(base, candidats[j]);
        if dj < d {
            w = j;
            d = dj;
        }
        j = j + 1;
    }
    Some(candidats[w])
}

/// Types candidats d'une contrainte optionnelle.
pub open spec fn vue_type_opt(t: Option<Type>) -> Seq<Type> {
    match t {
        Some(x) => seq![x],
        None => Seq::empty(),
    }
}

/// Identifiants des écrits ouverts du type demandé (tous types si aucun
/// n'est demandé), dans l'ordre du catalogue.
pub open spec fn candidats_ouverts(s: Seq<Ecrit>, type_: Option<Type>) -> Seq<u64> {
    ids_filtres(
        s,
        None,
        seq![Status::Ouvert],
        vue_type_opt(type_),
        Seq::empty(),
        Seq::empty(),
        false,
        None,
        None,
    )
}

fn candidats_ouverts_exec(base: &Base, type_: Option<Type>) -> (r: Vec<u64>)
    ensures
        r@ == candidats_ouverts(base.vue(), type_),
        forall|k: int|
            0 <= k < r@.len() ==> indice_id(base.vue(), #[trigger] r@[k], 0) < base.vue().len(),
{
    let mut status: Vec<Status> = Vec::new();
    status.push(Status::Ouvert);
    let mut types: Vec<Type> = Vec::new();
    if let Some(t) = type_ {
        types.push(t);
    }
    let auteurs: Vec<String> = Vec::new();
    let tags: Vec<String> = Vec::new();
    proof {
        assert(status@ =~= seq![Status::Ouvert]);
        assert(types@ =~= vue_type_opt(type_));
        assert(auteurs@ =~= Seq::<String>::empty());
        assert(vues_chaines(tags@) =~= Seq::<Seq<char>>::empty());
    }
    let r = Ecrit::ulister(base, None, &status, &types, &auteurs, &tags, false, None, None);
    proof {
        assert forall|k: int|
            0 <= k < r@.len() implies indice_id(base.vue(), #[trigger] r@[k], 0)
            < base.vue().len() by {
            assert(r@.contains(r@[k]));
            lemme_ids_filtres(
                base.vue(),
                None,
                seq![Status::Ouvert],
                vue_type_opt(type_),
                Seq::empty(),
                Seq::empty(),
                false,
                None,
                None,
                r@[k],
            );
            lemme_presence(base.vue(), r@[k]);
        }
    }
    r
}

/// Un écrit ouvert du type demandé, au hasard.
pub fn aleatoire(base: &Base, type_: Option<Type>) -> (r: Option<u64>)
    ensures
        match r {
            None => candidats_ouverts(base.vue(), type_).len() == 0,
            Some(c) => candidats_ouverts(base.vue(), type_).contains(c),
        },
{
    let candidats = candidats_ouverts_exec(base, type_);
    if candidats.len() == 0 {
        None
    } else {
        let i = crate::alea::indice_aleatoire(candidats.len());
        let c = candidats[i];
        proof {
            assert(candidats@[i as int] == c);
        }
        Some(c)
    }
}

/// Le plus ancien écrit ouvert du type demandé : première date de
/// dernière modification minimale parmi les candidats.
pub fn ancien(base: &Base, type_: Option<Type>) -> (r: Option<u64>)
    ensures
        ({
            let cands = candidats_ouverts(base.vue(), type_);
            match r {
                None => cands.len() == 0,
                Some(c) => exists|w: int|
                    {
                        &&& 0 <= w < cands.len()
                        &&& #[trigger] cands[w] == c
                        &&& forall|j: int|
                            0 <= j < cands.len() ==> date_id(base.vue(), #[trigger] cands[j])
                                >= date_id(base.vue(), c)
                        &&& forall|j: int|
                            0 <= j < w ==> date_id(base.vue(), #[trigger] cands[j]) > date_id(
                                base.vue(),
                                c,
                            )
                    },
            }
        }),
{
    let candidats = candidats_ouverts_exec(base, type_);
    plus_ancien(base, &candidats)
}

/// Tri par date de dernière modification croissante, pour l'affichage
/// des résultats de recherche. Le résultat est une permutation de
/// l'entrée.
pub fn trier_par_date(base: &Base, ids: &Vec<u64>) -> (r: Vec<u64>)
    requires
        forall|k: int|
            0 <= k < ids@.len() ==> indice_id(base.vue(), #[trigger] ids@[k], 0)
                < base.vue().len(),
    ensures
        r@.to_multiset() == ids@.to_multiset(),
        r@.len() == ids@.len(),
        forall|a: int, b: int|
            0 <= a < b < r@.len() ==> date_id(base.vue(), #[trigger] r@[a]) <= date_id(
                base.vue(),
                #[trigger] r@[b],
            ),
        forall|k: int|
            0 <= k < r@.len() ==> indice_id(base.vue(), #[trigger] r@[k], 0) < base.vue().len(),
{
    broadcast use vstd::seq_lib::group_to_multiset_ensures;

    let n = ids.len();
    let mut reste: Vec<u64> = Vec::new();
    let mut i: usize = 0;
    while i < n
        invariant
            n == ids@.len(),
            i <= n,
            reste@ == ids@.subrange(0, i as int),
        decreases n - i,
    {
        reste.push(ids[i]);
        proof {
            assert(ids@.subrange(0, i + 1) =~= ids@.subrange(0, i as int).push(ids@[i as int]));
        }
        i = i + 1;
    }
    proof {
        assert(ids@.subrange(0, n as int) =~= ids@);
    }
    let mut r: Vec<u64> = Vec::new();
    while reste.len() > 0
        invariant
            forall|k: int|
                0 <= k < ids@.len() ==> indice_id(base.vue(), #[trigger] ids@[k], 0)
                    < base.vue().len(),
            r@.to_multiset().add(reste@.to_multiset()) =~= ids@.to_multiset(),
            r@.len() + reste@.len() == ids@.len(),
            forall|a: int, b: int|
                0 <= a < b < r@.len() ==> date_id(base.vue(), #[trigger] r@[a]) <= date_id(
                    base.vue(),
                    #[trigger] r@[b],
                ),
            forall|a: int, b: int|
                0 <= a < r@.len() && 0 <= b < reste@.len() ==> date_id(base.vue(), #[trigger] r@[a])
                    <= date_id(base.vue(), #[trigger] reste@[b]),
            forall|k: int|
                0 <= k < r@.len() ==> indice_id(base.vue(), #[trigger] r@[k], 0)
                    < base.vue().len(),
            forall|k: int|
                0 <= k < reste@.len() ==> indice_id(base.vue(), #[trigger] reste@[k], 0)
                    < base.vue().len(),
        decreases reste@.len(),
    {
        let m = reste.len();
        let mut w: usize = 0;
        let mut d = date_de(base, reste[0]);
        let mut j: usize = 1;
        while j < m
            invariant
                m == reste@.len(),
                forall|k: int|
                    0 <= k < reste@.len() ==> indice_id(base.vue(), #[trigger] reste@[k], 0)
                        < base.vue().len(),
                0 <= w < j <= m,
                d == date_id(base.vue(), reste@[w as int]),
                forall|k: int| 0 <= k < j ==> date_id(base.vue(), #[trigger] reste@[k]) >= d,
            decreases m - j,
        {
            let dj = date_de(base, reste[j]);
            if dj < d {
                w = j;
                d = dj;
            }
            j = j + 1;
        }
        let ghost reste_avant = reste@;
        let ghost r_avant = r@;
        let x = reste.remove(w);
        r.push(x);
        proof {
            assert(x == reste_avant[w as int]);
            reste_avant.to_multiset_ensures();
            assert(reste@.to_multiset() =~= reste_avant.to_multiset().remove(x));
            r_avant.to_multiset_ensures();
            assert(r@.to_multiset() =~= r_avant.to_multiset().insert(x));
            assert(reste_avant.to_multiset().count(x) > 0) by {
                assert(reste_avant.contains(x));
            }
            assert(r@.to_multiset().add(reste@.to_multiset()) =~= ids@.to_multiset());
            reste_avant.remove_ensures(w as int);
            assert forall|a: int, b: int|
                0 <= a < r@.len() && 0 <= b < reste@.len() implies date_id(
                base.vue(),
                #[trigger] r@[a],
            ) <= date_id(base.vue(), #[trigger] reste@[b]) by {
                let b0 = if b < w as int {
                    b
                } else {
                    b + 1
                };
                assert(reste@[b] == reste_avant[b0]);
                if a < r_avant.len() {
                    assert(r@[a] == r_avant[a]);
                } else {
                    assert(r@[a] == x);
                }
            }
            assert forall|k: int|
                0 <= k < reste@.len() implies indice_id(base.vue(), #[trigger] reste@[k], 0)
                < base.vue().len() by {
                let k0 = if k < w as int {
                    k
                } else {
                    k + 1
                };
                assert(reste@[k] == reste_avant[k0]);
            }
        }
    }
    proof {
        assert(reste@.to_multiset() =~= Multiset::<u64>::empty());
        assert(r@.to_multiset() =~= ids@.to_multiset());
    }
    r
}

/// Occurrences d'un texte parmi les tags d'un écrit.
pub open spec fn occ_tags(tags: Seq<String>, t: Seq<char>) -> int
    decreases tags.len(),
{
    if tags.len() == 0 {
        0
    } else {
        occ_tags(tags.drop_last(), t) + if tags.last()@ == t {
            1int
        } else {
            0int
        }
    }
}

/// Occurrences d'un texte parmi les tags de tout le catalogue.
pub open spec fn occ_base(s: Seq<Ecrit>, t: Seq<char>) -> int
    decreases s.len(),
{
    if s.len() == 0 {
        0
    } else {
        occ_base(s.drop_last(), t) + occ_tags(s.last().tags@, t)
    }
}

/// Nombre total de tags portés, occurrences comprises.
pub open spec fn total_tags(s: Seq<Ecrit>) -> int
    decreases s.len(),
{
    if s.len() == 0 {
        0
    } else {
        total_tags(s.drop_last()) + s.last().tags@.len()
    }
}

proof fn lemme_occ_tags_bornes(tags: Seq<String>, t: Seq<char>)
    ensures
        0 <= occ_tags(tags, t) <= tags.len(),
    decreases tags.len(),
{
    if tags.len() > 0 {
        lemme_occ_tags_bornes(tags.drop_last(), t);
    }
}

proof fn lemme_occ_bornes(s: Seq<Ecrit>, t: Seq<char>)
    ensures
        0 <= occ_base(s, t) <= total_tags(s),
    decreases s.len(),
{
    if s.len() > 0 {
        lemme_occ_bornes(s.drop_last(), t);
        lemme_occ_tags_bornes(s.last().tags@, t);
    }
}

proof fn lemme_total_prefixe(s: Seq<Ecrit>, i: int)
    requires
        0 <= i <= s.len(),
    ensures
        total_tags(s.subrange(0, i)) <= total_tags(s),
    decreases s.len() - i,
{
    if i == s.len() {
        assert(s.subrange(0, i) =~= s);
    } else {
        assert(s.subrange(0, i + 1).drop_last() =~= s.subrange(0, i));
        assert(s.subrange(0, i + 1).last() == s[i]);
        lemme_total_prefixe(s, i + 1);
    }
}

proof fn lemme_occ_tags_temoin(tags: Seq<String>, t: Seq<char>)
    requires
        occ_tags(tags, t) > 0,
    ensures
        exists|j: int| 0 <= j < tags.len() && (#[trigger] tags[j])@ == t,
    decreases tags.len(),
{
    if tags.len() > 0 {
        if tags.last()@ == t {
            assert(tags[tags.len() - 1]@ == t);
        } else {
            lemme_occ_tags_temoin(tags.drop_last(), t);
            let j = choose|j: int|
                0 <= j < tags.drop_last().len() && (#[trigger] tags.drop_last()[j])@ == t;
            assert(tags[j]@ == t);
        }
    }
}

proof fn lemme_occ_temoin(s: Seq<Ecrit>, t: Seq<char>)
    requires
        occ_base(s, t) > 0,
    ensures
        exists|i: int, j: int|
            0 <= i < s.len() && 0 <= j < s[i].tags@.len() && (#[trigger] s[i].tags@[j])@ == t,
    decreases s.len(),
{
    if s.len() > 0 {
        lemme_occ_tags_bornes(s.last().tags@, t);
        lemme_occ_bornes(s.drop_last(), t);
        if occ_tags(s.last().tags@, t) > 0 {
            lemme_occ_tags_temoin(s.last().tags@, t);
            let j = choose|j: int|
                0 <= j < s.last().tags@.len() && (#[trigger] s.last().tags@[j])@ == t;
            assert((s[s.len() - 1].tags@[j])@ == t);
        } else {
            lemme_occ_temoin(s.drop_last(), t);
            let (i, j) = choose|i: int, j: int|
                0 <= i < s.drop_last().len() && 0 <= j < s.drop_last()[i].tags@.len() && (
                #[trigger] s.drop_last()[i].tags@[j])@ == t;
            assert((s[i].tags@[j])@ == t);
        }
    }
}

/// Le texte figure parmi les tags comptés.
pub open spec fn texte_compte(rs: Seq<(String, u64)>, t: Seq<char>) -> bool {
    exists|k: int| 0 <= k < rs.len() && (#[trigger] rs[k].0)@ == t
}

/// Les tags du catalogue et, pour chacun, son nombre d'occurrences :
/// chaque texte de tag une seule fois, dans l'ordre de première
/// apparition, avec un compte exact et non nul ; tout tag porté figure
/// dans la liste.
pub fn lister_tags(base: &Base) -> (r: Vec<(String, u64)>)
    requires
        total_tags(base.vue()) <= u64::MAX,
    ensures
        forall|a: int, b: int| 0 <= a < b < r@.len() ==> (#[trigger] r@[a].0)@ != (#[trigger] r@[b].0)@,
        forall|k: int|
            0 <= k < r@.len() ==> (#[trigger] r@[k]).1 > 0 && r@[k].1 as int == occ_base(
                base.vue(),
                r@[k].0@,
            ),
        forall|i: int, j: int|
            0 <= i < base.vue().len() && 0 <= j < base.vue()[i].tags@.len() ==> texte_compte(
                r@,
                (#[trigger] base.vue()[i].tags@[j])@,
            ),
{
    let n = base.ecrits.len();
    let mut r: Vec<(String, u64)> = Vec::new();
    let mut i: usize = 0;
    proof {
        assert(base.vue().subrange(0, 0) =~= Seq::<Ecrit>::empty());
    }
    while i < n
        invariant
            total_tags(base.vue()) <= u64::MAX,
            n == base.vue().len(),
            i <= n,
            forall|a: int, b: int|
                0 <= a < b < r@.len() ==> (#[trigger] r@[a].0)@ != (#[trigger] r@[b].0)@,
            forall|k: int|
                0 <= k < r@.len() ==> (#[trigger] r@[k]).1 > 0 && r@[k].1 as int == occ_base(
                    base.vue().subrange(0, i as int),
                    r@[k].0@,
                ),
            forall|i2: int, j2: int|
                0 <= i2 < i && 0 <= j2 < base.vue()[i2].tags@.len() ==> texte_compte(
                    r@,
                    (#[trigger] base.vue()[i2].tags@[j2])@,
                ),
        decreases n - i,
    {
        let e = &base.ecrits[i];
        let m = e.tags.len();
        let mut j: usize = 0;
        proof {
            assert(e.tags@.subrange(0, 0) =~= Seq::<String>::empty());
        }
        while j < m
            invariant
                total_tags(base.vue()) <= u64::MAX,
                n == base.vue().len(),
                i < n,
                *e == base.vue()[i as int],
                m == e.tags@.len(),
                j <= m,
                forall|a: int, b: int|
                    0 <= a < b < r@.len() ==> (#[trigger] r@[a].0)@ != (#[trigger] r@[b].0)@,
                forall|k: int|
                    0 <= k < r@.len() ==> (#[trigger] r@[k]).1 > 0 && r@[k].1 as int == occ_base(
                        base.vue().subrange(0, i as int),
                        r@[k].0@,
                    ) + occ_tags(e.tags@.subrange(0, j as int), r@[k].0@),
                forall|i2: int, j2: int|
                    0 <= i2 < i && 0 <= j2 < base.vue()[i2].tags@.len() ==> texte_compte(
                        r@,
                        (#[trigger] base.vue()[i2].tags@[j2])@,
                    ),
                forall|j2: int| 0 <= j2 < j ==> texte_compte(r@, (#[trigger] e.tags@[j2])@),
            decreases m - j,
        {
            let ghost t = e.tags@[j as int]@;
            proof {
                assert(e.tags@.subrange(0, j + 1).drop_last() =~= e.tags@.subrange(0, j as int));
                assert(e.tags@.subrange(0, j + 1).last() == e.tags@[j as int]);
            }
            let nr = r.len();
            let mut w: usize = 0;
            while w < nr && !texte::texte_egal(r[w].0.as_str(), e.tags[j].as_str())
                invariant
                    nr == r@.len(),
                    w <= nr,
                    t == e.tags@[j as int]@,
                    j < m,
                    m == e.tags@.len(),
                    forall|k: int| 0 <= k < w ==> (#[trigger] r@[k].0)@ != t,
                decreases nr - w,
            {
                w = w + 1;
            }
            let ghost r0 = r@;
            if w < nr {
                proof {
                    assert((r@[w as int].0)@ == t);
                    lemme_occ_bornes(base.vue().subrange(0, i as int), t);
                    lemme_occ_tags_bornes(e.tags@.subrange(0, j as int), t);
                    lemme_occ_tags_bornes(e.tags@, t);
                    lemme_total_prefixe(base.vue(), i as int);
                    assert(base.vue().subrange(0, i + 1).drop_last() =~= base.vue().subrange(
                        0,
                        i as int,
                    ));
                    assert(base.vue().subrange(0, i + 1).last() == base.vue()[i as int]);
                    lemme_total_prefixe(base.vue(), i + 1);
                    assert(occ_base(base.vue().subrange(0, i as int), t) + occ_tags(e.tags@, t)
                        <= total_tags(base.vue().subrange(0, i + 1)));
                    assert(occ_tags(e.tags@.subrange(0, j as int), t) + 1 <= occ_tags(e.tags@, t))
                        by {
                        lemme_occ_prefixe_plus(e.tags@, j as int, t);
                    }
                }
                let c = r[w].1;
                let nom_ = r[w].0.clone();
                r[w] = (nom_, c + 1);
                proof {
                    assert forall|k: int|
                        0 <= k < r@.len() implies (#[trigger] r@[k]).1 > 0 && r@[k].1 as int
                        == occ_base(base.vue().subrange(0, i as int), r@[k].0@) + occ_tags(
                        e.tags@.subrange(0, j + 1),
                        r@[k].0@,
                    ) by {
                        if k != w as int {
                            assert(r@[k] == r0[k]);
                            assert((r@[k].0)@ != t);
                        }
                    }
                    assert forall|k: int|
                        0 <= k < r@.len() implies ((#[trigger] r@[k].0)@ == (r0[k].0)@) by {
                        if k != w as int {
                            assert(r@[k] == r0[k]);
                        }
                    }
                }
            } else {
                proof {
                    // Le texte n'a jamais été vu : aucune occurrence avant.
                    assert(occ_base(base.vue().subrange(0, i as int), t) == 0) by {
                        lemme_occ_bornes(base.vue().subrange(0, i as int), t);
                        if occ_base(base.vue().subrange(0, i as int), t) > 0 {
                            lemme_occ_temoin(base.vue().subrange(0, i as int), t);
                            let (i2, j2) = choose|i2: int, j2: int|
                                0 <= i2 < base.vue().subrange(0, i as int).len() && 0 <= j2
                                    < base.vue().subrange(0, i as int)[i2].tags@.len() && (
                                #[trigger] base.vue().subrange(0, i as int)[i2].tags@[j2])@ == t;
                            assert(texte_compte(r@, base.vue()[i2].tags@[j2]@));
                        }
                    }
                    assert(occ_tags(e.tags@.subrange(0, j as int), t) == 0) by {
                        lemme_occ_tags_bornes(e.tags@.subrange(0, j as int), t);
                        if occ_tags(e.tags@.subrange(0, j as int), t) > 0 {
                            lemme_occ_tags_temoin(e.tags@.subrange(0, j as int), t);
                            let j2 = choose|j2: int|
                                0 <= j2 < e.tags@.subrange(0, j as int).len() && (
                                #[trigger] e.tags@.subrange(0, j as int)[j2])@ == t;
                            assert(texte_compte(r@, (e.tags@[j2])@));
                            let k = choose|k: int| 0 <= k < r@.len() && (#[trigger] r@[k].0)@ == t;
                            assert((r@[k].0)@ != t);
                        }
                    }
                }
                r.push((e.tags[j].clone(), 1));
                proof {
                    assert((r@[r@.len() - 1].0)@ == t);
                    assert forall|k: int|
                        0 <= k < r@.len() implies (#[trigger] r@[k]).1 > 0 && r@[k].1 as int
                        == occ_base(base.vue().subrange(0, i as int), r@[k].0@) + occ_tags(
                        e.tags@.subrange(0, j + 1),
                        r@[k].0@,
                    ) by {
                        if k < r0.len() {
                            assert(r@[k] == r0[k]);
                            assert((r@[k].0)@ != t);
                        }
                    }
                }
            }
            proof {
                assert(r@.len() >= r0.len());
                assert(forall|k: int| 0 <= k < r0.len() ==> (#[trigger] r@[k].0)@ == (r0[k].0)@);
                assert forall|j2: int|
                    0 <= j2 < j + 1 implies texte_compte(r@, (#[trigger] e.tags@[j2])@) by {
                    if j2 < j {
                        assert(texte_compte(r0, (e.tags@[j2])@));
                        let k = choose|k: int|
                            0 <= k < r0.len() && (#[trigger] r0[k].0)@ == (e.tags@[j2])@;
                        assert((r@[k].0)@ == (e.tags@[j2])@);
                    } else {
                        assert(exists|k: int|
                            0 <= k < r@.len() && (#[trigger] r@[k].0)@ == (e.tags@[j2])@);
                    }
                }
                assert forall|i2: int, j2: int|
                    0 <= i2 < i && 0 <= j2 < base.vue()[i2].tags@.len() implies texte_compte(
                    r@,
                    (#[trigger] base.vue()[i2].tags@[j2])@,
                ) by {
                    assert(texte_compte(r0, base.vue()[i2].tags@[j2]@));
                    let k = choose|k: int|
                        0 <= k < r0.len() && (#[trigger] r0[k].0)@ == base.vue()[i2].tags@[j2]@;
                    assert((r@[k].0)@ == base.vue()[i2].tags@[j2]@);
                }
            }
            j = j + 1;
        }
        proof {
            assert(base.vue().subrange(0, i + 1).drop_last() =~= base.vue().subrange(0, i as int));
            assert(base.vue().subrange(0, i + 1).last() == base.vue()[i as int]);
            assert(e.tags@.subrange(0, m as int) =~= e.tags@);
        }
        i = i + 1;
    }
    proof {
        assert(base.vue().subrange(0, n as int) =~= base.vue());
    }
    r
}

proof fn lemme_occ_prefixe_plus(tags: Seq<String>, j: int, t: Seq<char>)
    requires
        0 <= j < tags.len(),
        tags[j]@ == t,
    ensures
        occ_tags(tags.subrange(0, j), t) + 1 <= occ_tags(tags, t),
    decreases tags.len(),
{
    if j == tags.len() - 1 {
        assert(tags.drop_last() =~= tags.subrange(0, j));
    } else {
        assert(tags.drop_last()[j]@ == t);
        lemme_occ_prefixe_plus(tags.drop_last(), j, t);
        assert(tags.drop_last().subrange(0, j) =~= tags.subrange(0, j));
        lemme_occ_tags_bornes(tags, t);
        assert(occ_tags(tags, t) >= occ_tags(tags.drop_last(), t));
    }
}

} // verus!
