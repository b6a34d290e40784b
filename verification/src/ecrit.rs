//! Un écrit suivi par le catalogue : son statut, son type, ses marques
//! d'intérêt (réservations de relecture) et ses transitions d'état.
//!
//! Deux invariants gouvernent les marques d'intérêt :
//! - le statut vaut `OuvertPlus` si et seulement si au moins une marque
//!   est posée (couplage statut/réservations) ;
//! - au plus une marque par identité de relecteur : reposer une marque
//!   libère d'abord l'ancienne.

pub mod fields;

use vstd::prelude::*;

use crate::erreur::Erreur;
use crate::lien;
use fields::{Interet, Status, Type};

verus! {

/// Premier indice `>= de` d'une marque posée par le membre `membre`,
/// ou la longueur de `s`.
pub open spec fn indice_membre(s: Seq<Interet>, membre: u64, de: int) -> int
    decreases s.len() - de,
{
    if de < 0 || de >= s.len() {
        s.len() as int
    } else if s[de].member == membre {
        de
    } else {
        indice_membre(s, membre, de + 1)
    }
}

pub proof fn lemme_indice_membre(s: Seq<Interet>, membre: u64, de: int)
    requires
        0 <= de <= s.len(),
    ensures
        de <= indice_membre(s, membre, de) <= s.len(),
        indice_membre(s, membre, de) < s.len() ==> s[indice_membre(s, membre, de)].member
            == membre,
        forall|k: int| de <= k < indice_membre(s, membre, de) ==> s[k].member != membre,
    decreases s.len() - de,
{
    if de < s.len() && s[de].member != membre {
        lemme_indice_membre(s, membre, de + 1);
    }
}

/// Premier indice `>= de` d'une marque posée sous le nom `nom`,
/// ou la longueur de `s`.
pub open spec fn indice_nom(s: Seq<Interet>, nom: Seq<char>, de: int) -> int
    decreases s.len() - de,
{
    if de < 0 || de >= s.len() {
        s.len() as int
    } else if s[de].name@ == nom {
        de
    } else {
        indice_nom(s, nom, de + 1)
    }
}

pub proof fn lemme_indice_nom(s: Seq<Interet>, nom: Seq<char>, de: int)
    requires
        0 <= de <= s.len(),
    ensures
        de <= indice_nom(s, nom, de) <= s.len(),
        indice_nom(s, nom, de) < s.len() ==> s[indice_nom(s, nom, de)].name@ == nom,
        forall|k: int| de <= k < indice_nom(s, nom, de) ==> s[k].name@ != nom,
    decreases s.len() - de,
{
    if de < s.len() && s[de].name@ != nom {
        lemme_indice_nom(s, nom, de + 1);
    }
}

/// Marques après libération de l'identité `membre` (0 est la sentinelle
/// des procurations : rien n'est libéré).
pub open spec fn retire_membre(s: Seq<Interet>, membre: u64) -> Seq<Interet> {
    if membre == 0 {
        s
    } else {
        let i = indice_membre(s, membre, 0);
        if i < s.len() {
            s.remove(i)
        } else {
            s
        }
    }
}

/// Marques après libération du nom `nom`.
pub open spec fn retire_nom(s: Seq<Interet>, nom: Seq<char>) -> Seq<Interet> {
    let i = indice_nom(s, nom, 0);
    if i < s.len() {
        s.remove(i)
    } else {
        s
    }
}

/// Au plus une marque par nom, et au plus une par identité non nulle.
pub open spec fn interets_sans_doublon(s: Seq<Interet>) -> bool {
    forall|i: int, j: int|
        0 <= i < j < s.len() ==> (#[trigger] s[i]).name@ != (#[trigger] s[j]).name@ && (
        s[i].member == s[j].member ==> s[i].member == 0)
}

proof fn lemme_remove_sans_doublon(s: Seq<Interet>, i: int)
    requires
        interets_sans_doublon(s),
        0 <= i < s.len(),
    ensures
        interets_sans_doublon(s.remove(i)),
{
    s.remove_ensures(i);
    let r = s.remove(i);
    assert forall|a: int, b: int| 0 <= a < b < r.len() implies (#[trigger] r[a]).name@ != (
    #[trigger] r[b]).name@ && (r[a].member == r[b].member ==> r[a].member == 0) by {
        let a0 = if a < i {
            a
        } else {
            a + 1
        };
        let b0 = if b < i {
            b
        } else {
            b + 1
        };
        assert(r[a] == s[a0]);
        assert(r[b] == s[b0]);
    }
}

/// Les éléments de `s.remove(i)` sont des éléments de `s` pris à un autre
/// indice que `i`.
proof fn lemme_remove_origine(s: Seq<Interet>, i: int, k: int)
    requires
        0 <= i < s.len(),
        0 <= k < s.len() - 1,
    ensures
        exists|k0: int| 0 <= k0 < s.len() && k0 != i && s.remove(i)[k] == #[trigger] s[k0],
{
    s.remove_ensures(i);
    if k < i {
        assert(s.remove(i)[k] == s[k]);
    } else {
        assert(s.remove(i)[k] == s[k + 1]);
    }
}

/// Un des tags porte exactement ce texte.
pub open spec fn tags_contiennent(tags: Seq<String>, t: Seq<char>) -> bool {
    exists|k: int| 0 <= k < tags.len() && (#[trigger] tags[k])@ == t
}

/// Tags restants après un retrait par critère : ceux dont les mots du
/// critère normalisé n'apparaissent pas tous, dans l'ordre d'origine ;
/// les tags qui correspondent au critère sont retirés.
pub open spec fn tags_gardes(tags: Seq<String>, critere: Seq<char>) -> Seq<String>
    decreases tags.len(),
{
    if tags.len() == 0 {
        Seq::empty()
    } else {
        let avant = tags_gardes(tags.drop_last(), critere);
        if crate::texte::critere_correspond_spec(critere, tags.last()@) {
            avant
        } else {
            avant.push(tags.last())
        }
    }
}

/// Les lignes de l'historique des marques : le style de chaque marque
/// puis son relecteur, une marque par ligne, dans l'ordre de pose.
pub open spec fn lignes_marques(s: Seq<Interet>) -> Seq<char>
    decreases s.len(),
{
    if s.len() == 0 {
        Seq::empty()
    } else {
        lignes_marques(s.drop_last()) + s.last().type_@ + " par "@ + s.last().name@ + "\n"@
    }
}

/// Les tags joints ligne à ligne, dans l'ordre d'ajout.
pub open spec fn lignes_tags(tags: Seq<String>) -> Seq<char>
    decreases tags.len(),
{
    if tags.len() == 0 {
        Seq::empty()
    } else {
        lignes_tags(tags.drop_last()) + tags.last()@ + "\n"@
    }
}

/// Un écrit suivi : une œuvre soumise et ses métadonnées de critique.
#[derive(Clone, Debug)]
pub struct Ecrit {
    /// Statut courant dans le circuit de critique.
    pub status: Status,
    /// Type de l'écrit.
    pub type_: Type,
    /// Nom affiché.
    pub nom: String,
    /// Lien canonique vers le forum ; source de l'identifiant.
    pub lien: String,
    /// Date de la dernière modification substantielle, en secondes d'époque.
    pub last_update: i64,
    /// Nom de l'auteur.
    pub auteur: String,
    /// Marques d'intérêt actives, dans l'ordre de pose. À modifier par
    /// les opérations de marque et de libération, qui maintiennent le
    /// couplage avec le statut et l'unicité par identité.
    pub interesses: Vec<Interet>,
    /// L'entrée doit être réaffichée et sauvegardée.
    pub modified: bool,
    /// Étiquettes libres, dans l'ordre d'ajout.
    pub tags: Vec<String>,
    /// Identifiant canonique, dérivé du lien ; à ne jamais changer après
    /// la construction.
    pub id: u64,
}

impl Ecrit {
    /// Identifiant canonique de l'écrit.
    pub open spec fn id_spec(&self) -> u64 {
        self.id
    }

    /// Marques d'intérêt actives.
    pub open spec fn interets_spec(&self) -> Seq<Interet> {
        self.interesses@
    }

    /// Couplage statut/réservations : `OuvertPlus` si et seulement si au
    /// moins une marque est posée.
    pub open spec fn couplage(&self) -> bool {
        (self.status == Status::OuvertPlus) <==> self.interets_spec().len() > 0
    }

    /// Au plus une marque par identité de relecteur.
    pub open spec fn marques_uniques(&self) -> bool {
        interets_sans_doublon(self.interets_spec())
    }

    /// Les champs que les opérations de réservation et de transition ne
    /// touchent jamais sont les mêmes dans `a` et `b`.
    pub open spec fn meme_identite(a: Ecrit, b: Ecrit) -> bool {
        &&& a.nom == b.nom
        &&& a.lien == b.lien
        &&& a.auteur == b.auteur
        &&& a.type_ == b.type_
        &&& a.tags == b.tags
        &&& a.id_spec() == b.id_spec()
    }

    /// Construit un écrit depuis un lien dont l'identifiant peut être
    /// extrait ; un lien sans identifiant est refusé.
    pub fn new(
        nom: String,
        lien: String,
        type_: Type,
        status: Status,
        auteur: String,
        maintenant: i64,
    ) -> (r: Result<Ecrit, Erreur>)
        ensures
            match r {
                Ok(e) => {
                    &&& lien::extraire_id_spec(lien@) == Some(e.id_spec())
                    &&& e.status == status
                    &&& e.type_ == type_
                    &&& e.nom@ == nom@
                    &&& e.lien@ == lien@
                    &&& e.auteur@ == auteur@
                    &&& e.last_update == maintenant
                    &&& e.interets_spec().len() == 0
                    &&& e.tags@.len() == 0
                    &&& !e.modified
                    &&& e.couplage() || status == Status::OuvertPlus
                },
                Err(er) => {
                    &&& lien::extraire_id_spec(lien@) is None
                    &&& er matches Erreur::LienInvalide(l) && l@ == lien@
                },
            },
    {
        let id_opt = lien::extraire_id(lien.as_str());
        match id_opt {
            Some(id) => Ok(
                Ecrit {
                    status,
                    type_,
                    nom,
                    id,
                    lien,
                    last_update: maintenant,
                    auteur,
                    interesses: Vec::new(),
                    modified: false,
                    tags: Vec::new(),
                },
            ),
            None => Err(Erreur::LienInvalide(lien)),
        }
    }

    /// L'écrit vient d'être critiqué : toutes les marques sont levées et
    /// il passe en attente de réponse de l'auteur.
    pub fn critique(&mut self, maintenant: i64)
        ensures
            final(self).interets_spec().len() == 0,
            final(self).status == Status::EnAttente,
            final(self).modified,
            final(self).last_update == maintenant,
            Ecrit::meme_identite(*old(self), *final(self)),
            final(self).couplage(),
            final(self).marques_uniques(),
    {
        self.last_update = maintenant;
        self.delete_interet();
        self.status = Status::EnAttente;
        self.modified = true;
    }

    /// Lève toutes les marques d'intérêt, sans toucher au reste.
    pub fn delete_interet(&mut self)
        ensures
            final(self).interets_spec().len() == 0,
            final(self).status == old(self).status,
            final(self).modified == old(self).modified,
            final(self).last_update == old(self).last_update,
            Ecrit::meme_identite(*old(self), *final(self)),
    {
        self.interesses.clear();
    }

    /// Libère la marque posée par l'identité `membre`. La sentinelle 0
    /// (marque par procuration) ne libère jamais rien. Renvoie si une
    /// marque a été trouvée et levée ; « aucune marque » est un résultat
    /// normal. Quand la dernière marque part, le statut redescend à
    /// `Ouvert`.
    pub fn liberer_id(&mut self, membre: u64, maintenant: i64) -> (r: bool)
        ensures
            r == (membre != 0 && indice_membre(old(self).interets_spec(), membre, 0) < old(self).interets_spec().len()),
            final(self).interets_spec() == retire_membre(old(self).interets_spec(), membre),
            !r ==> *final(self) == *old(self),
            r ==> {
                &&& Ecrit::meme_identite(*old(self), *final(self))
                &&& final(self).modified
                &&& final(self).last_update == maintenant
                &&& (final(self).interets_spec().len() == 0 ==> final(self).status
                    == Status::Ouvert)
                &&& (final(self).interets_spec().len() > 0 ==> final(self).status == old(self).status)
            },
            old(self).couplage() ==> final(self).couplage(),
            old(self).marques_uniques() ==> final(self).marques_uniques(),
    {
        if membre == 0 {
            return false;
        }
        let n = self.interesses.len();
        let mut i: usize = 0;
        while i < n && self.interesses[i].member != membre
            invariant
                *self == *old(self),
                n == self.interesses@.len(),
                i <= n,
                forall|k: int| 0 <= k < i ==> self.interesses@[k].member != membre,
            decreases n - i,
        {
            i = i + 1;
        }
        proof {
            lemme_indice_membre(self.interesses@, membre, 0);
            assert(indice_membre(self.interesses@, membre, 0) == i as int) by {
                if indice_membre(self.interesses@, membre, 0) < i as int {
                    assert(self.interesses@[indice_membre(self.interesses@, membre, 0)].member
                        == membre);
                }
            }
        }
        if i < n {
            self.interesses.remove(i);
            if self.interesses.len() == 0 {
                self.status = Status::Ouvert;
            }
            self.modified = true;
            self.last_update = maintenant;
            proof {
                if old(self).marques_uniques() {
                    lemme_remove_sans_doublon(old(self).interesses@, i as int);
                }
            }
            true
        } else {
            false
        }
    }

    /// Libère la marque posée sous le nom `membre`. Renvoie si une marque
    /// a été trouvée et levée. Quand la dernière marque part, le statut
    /// redescend à `Ouvert`.
    pub fn liberer_name(&mut self, membre: &String, maintenant: i64) -> (r: bool)
        ensures
            r == (indice_nom(old(self).interets_spec(), membre@, 0) < old(self).interets_spec().len()),
            final(self).interets_spec() == retire_nom(old(self).interets_spec(), membre@),
            !r ==> *final(self) == *old(self),
            r ==> {
                &&& Ecrit::meme_identite(*old(self), *final(self))
                &&& final(self).modified
                &&& final(self).last_update == maintenant
                &&& (final(self).interets_spec().len() == 0 ==> final(self).status
                    == Status::Ouvert)
                &&& (final(self).interets_spec().len() > 0 ==> final(self).status == old(self).status)
            },
            old(self).couplage() ==> final(self).couplage(),
            old(self).marques_uniques() ==> final(self).marques_uniques(),
    {
        let n = self.interesses.len();
        let mut i: usize = 0;
        while i < n && self.interesses[i].name != *membre
            invariant
                *self == *old(self),
                n == self.interesses@.len(),
                i <= n,
                forall|k: int| 0 <= k < i ==> self.interesses@[k].name@ != membre@,
            decreases n - i,
        {
            i = i + 1;
        }
        proof {
            lemme_indice_nom(self.interesses@, membre@, 0);
            assert(indice_nom(self.interesses@, membre@, 0) == i as int) by {
                if indice_nom(self.interesses@, membre@, 0) < i as int {
                    assert(self.interesses@[indice_nom(self.interesses@, membre@, 0)].name@
                        == membre@);
                }
            }
        }
        if i < n {
            self.interesses.remove(i);
            if self.interesses.len() == 0 {
                self.status = Status::Ouvert;
            }
            self.modified = true;
            self.last_update = maintenant;
            proof {
                if old(self).marques_uniques() {
                    lemme_remove_sans_doublon(old(self).interesses@, i as int);
                }
            }
            true
        } else {
            false
        }
    }

    /// Pose une marque d'intérêt : toute marque existante de la même
    /// identité ou du même nom est d'abord libérée (re-marquer n'est pas
    /// dupliquer), puis la marque est ajoutée et le statut passe à
    /// `OuvertPlus`.
    pub fn marquer(&mut self, interet: Interet, maintenant: i64)
        ensures
            final(self).interets_spec() == retire_nom(
                retire_membre(old(self).interets_spec(), interet.member),
                interet.name@,
            ).push(interet),
            final(self).interets_spec().last() == interet,
            final(self).interets_spec().len() >= 1,
            final(self).status == Status::OuvertPlus,
            final(self).modified,
            final(self).last_update == maintenant,
            Ecrit::meme_identite(*old(self), *final(self)),
            final(self).couplage(),
            old(self).marques_uniques() ==> final(self).marques_uniques(),
    {
        let nom = interet.name.clone();
        self.liberer_id(interet.member, maintenant);
        self.liberer_name(&nom, maintenant);
        proof {
            if old(self).marques_uniques() {
                lemme_marquer_sans_doublon(old(self).interets_spec(), interet);
            }
        }
        self.interesses.push(interet);
        self.status = Status::OuvertPlus;
        self.modified = true;
        self.last_update = maintenant;
    }

    /// Valide l'écrit : une idée devient un rapport en attente, tout
    /// autre type passe au statut `Valide`.
    pub fn valider(&mut self)
        ensures
            old(self).type_ == Type::Idee ==> final(self).type_ == Type::Rapport && final(self).status == Status::EnAttente,
            old(self).type_ != Type::Idee ==> final(self).type_ == old(self).type_ && final(self).status == Status::Valide,
            final(self).modified,
            final(self).nom == old(self).nom,
            final(self).lien == old(self).lien,
            final(self).auteur == old(self).auteur,
            final(self).tags == old(self).tags,
            final(self).last_update == old(self).last_update,
            final(self).interets_spec() == old(self).interets_spec(),
            final(self).id_spec() == old(self).id_spec(),
    {
        if self.type_ == Type::Idee {
            self.type_ = Type::Rapport;
            self.status = Status::EnAttente;
        } else {
            self.status = Status::Valide;
        }
        self.modified = true;
    }

    /// Refuse l'écrit.
    pub fn refuser(&mut self)
        ensures
            final(self).status == Status::Refuse,
            final(self).modified,
            Ecrit::meme_identite(*old(self), *final(self)),
            final(self).last_update == old(self).last_update,
            final(self).interets_spec() == old(self).interets_spec(),
    {
        self.status = Status::Refuse;
        self.modified = true;
    }

    /// Marque l'écrit comme publié.
    pub fn publier(&mut self)
        ensures
            final(self).status == Status::Publie,
            final(self).modified,
            Ecrit::meme_identite(*old(self), *final(self)),
            final(self).last_update == old(self).last_update,
            final(self).interets_spec() == old(self).interets_spec(),
    {
        self.status = Status::Publie;
        self.modified = true;
    }

    /// Remonte l'écrit : il redevient `Ouvert`, sauf s'il porte des
    /// marques (`OuvertPlus`), auquel cas rien ne change.
    pub fn up(&mut self)
        ensures
            old(self).status == Status::OuvertPlus ==> *final(self) == *old(self),
            old(self).status != Status::OuvertPlus ==> final(self).status == Status::Ouvert
                && Ecrit::meme_identite(*old(self), *final(self)) && final(self).modified == old(self).modified && final(self).last_update == old(self).last_update && final(self).interets_spec() == old(self).interets_spec(),
    {
        if self.status != Status::OuvertPlus {
            self.status = Status::Ouvert;
        }
    }

    /// Change l'auteur de l'écrit.
    pub fn set_auteur(&mut self, auteur: String)
        ensures
            final(self).auteur == auteur,
            final(self).modified,
            final(self).status == old(self).status,
            final(self).type_ == old(self).type_,
            final(self).nom == old(self).nom,
            final(self).lien == old(self).lien,
            final(self).tags == old(self).tags,
            final(self).last_update == old(self).last_update,
            final(self).interets_spec() == old(self).interets_spec(),
            final(self).id_spec() == old(self).id_spec(),
    {
        self.auteur = auteur;
        self.modified = true;
    }

    /// Ajoute un tag s'il n'est pas déjà porté ; renvoie si l'ajout a eu
    /// lieu.
    pub fn atag(&mut self, tag: String) -> (r: bool)
        ensures
            r == !tags_contiennent(old(self).tags@, tag@),
            r ==> final(self).tags@ == old(self).tags@.push(tag) && final(self).modified && final(self).status == old(self).status && final(self).type_ == old(self).type_ && final(self).nom
                == old(self).nom && final(self).lien == old(self).lien && final(self).auteur == old(self).auteur && final(self).last_update == old(self).last_update && final(self).interets_spec() == old(self).interets_spec() && final(self).id_spec() == old(self).id_spec(),
            !r ==> *final(self) == *old(self),
    {
        let n = self.tags.len();
        let mut i: usize = 0;
        while i < n && self.tags[i] != tag
            invariant
                *self == *old(self),
                n == self.tags@.len(),
                i <= n,
                forall|k: int| 0 <= k < i ==> (#[trigger] self.tags@[k])@ != tag@,
            decreases n - i,
        {
            i = i + 1;
        }
        if i < n {
            false
        } else {
            self.tags.push(tag);
            self.modified = true;
            true
        }
    }

    /// Retire les tags dont tous les mots du critère (normalisé)
    /// apparaissent ; les autres restent, dans l'ordre. Renvoie si au
    /// moins un tag a été retiré.
    pub fn rtag(&mut self, critere: &String) -> (r: bool)
        ensures
            ({
                let garde = tags_gardes(old(self).tags@, crate::texte::basicize_spec(critere@));
                &&& r == (garde.len() < old(self).tags@.len())
                &&& (r ==> final(self).tags@ == garde && final(self).modified && final(self).status
                    == old(self).status && final(self).type_ == old(self).type_ && final(self).nom
                    == old(self).nom && final(self).lien == old(self).lien && final(self).auteur
                    == old(self).auteur && final(self).last_update == old(self).last_update
                    && final(self).interets_spec() == old(self).interets_spec() && final(self).id_spec() == old(self).id_spec())
                &&& (!r ==> *final(self) == *old(self))
            }),
    {
        let bc = crate::texte::basicize(critere.as_str());
        let n = self.tags.len();
        let mut garde: Vec<String> = Vec::new();
        let mut i: usize = 0;
        proof {
            assert(self.tags@.subrange(0, 0) =~= Seq::<String>::empty());
        }
        while i < n
            invariant
                *self == *old(self),
                bc@ == crate::texte::basicize_spec(critere@),
                n == self.tags@.len(),
                i <= n,
                garde@ == tags_gardes(self.tags@.subrange(0, i as int), bc@),
            decreases n - i,
        {
            proof {
                assert(self.tags@.subrange(0, i + 1).drop_last() =~= self.tags@.subrange(
                    0,
                    i as int,
                ));
            }
            if !crate::texte::critere_correspond(bc.as_str(), self.tags[i].as_str()) {
                garde.push(self.tags[i].clone());
            }
            i = i + 1;
        }
        proof {
            assert(self.tags@.subrange(0, n as int) =~= self.tags@);
        }
        if garde.len() < n {
            self.tags = garde;
            self.modified = true;
            true
        } else {
            false
        }
    }

    /// Extrait l'identifiant canonique d'un lien (voir `lien`).
    pub fn find_id(url: &String) -> (r: Option<u64>)
        ensures
            r == lien::extraire_id_spec(url@),
    {
        lien::extraire_id(url.as_str())
    }

    /// Identifiant canonique.
    pub fn get_id(&self) -> (r: u64)
        ensures
            r == self.id_spec(),
    {
        self.id
    }

    /// Nombre de marques d'intérêt actives.
    pub fn nb_interets(&self) -> (r: usize)
        ensures
            r == self.interets_spec().len(),
    {
        self.interesses.len()
    }

    /// Marque d'intérêt à l'indice `i`, dans l'ordre de pose.
    pub fn interet(&self, i: usize) -> (r: &Interet)
        requires
            i < self.interets_spec().len(),
        ensures
            *r == self.interets_spec()[i as int],
    {
        &self.interesses[i]
    }

    /// L'écrit est-il ouvert à la critique ? Seuls les écrits ouverts
    /// (avec ou sans marques) acceptent marque, libération et critique ;
    /// la couche de commande teste cette garde avant d'agir.
    pub fn est_ouvert_a_critique(&self) -> (r: bool)
        ensures
            r == (self.status == Status::Ouvert || self.status == Status::OuvertPlus),
    {
        self.status == Status::Ouvert || self.status == Status::OuvertPlus
    }

    /// L'entrée doit-elle être sauvegardée et réaffichée ?
    pub fn is_modified(&self) -> (r: bool)
        ensures
            r == self.modified,
    {
        self.modified
    }

    /// Pose ou lève le drapeau de sauvegarde (levé par le collaborateur
    /// de persistance après une sauvegarde réussie).
    pub fn set_modified(&mut self, modified: bool)
        ensures
            final(self).modified == modified,
            final(self).status == old(self).status,
            final(self).last_update == old(self).last_update,
            final(self).interets_spec() == old(self).interets_spec(),
            Ecrit::meme_identite(*old(self), *final(self)),
    {
        self.modified = modified;
    }

    /// Nom affiché de l'écrit.
    pub fn get_name(&self) -> (r: &String)
        ensures
            *r == self.nom,
    {
        &self.nom
    }

    /// Change le nom affiché.
    pub fn set_name(&mut self, s: String)
        ensures
            final(self).nom == s,
            final(self).status == old(self).status,
            final(self).type_ == old(self).type_,
            final(self).lien == old(self).lien,
            final(self).auteur == old(self).auteur,
            final(self).tags == old(self).tags,
            final(self).modified == old(self).modified,
            final(self).last_update == old(self).last_update,
            final(self).interets_spec() == old(self).interets_spec(),
            final(self).id_spec() == old(self).id_spec(),
    {
        self.nom = s;
    }

    /// Date de dernière modification substantielle, en secondes d'époque.
    pub fn get_date(&self) -> (r: i64)
        ensures
            r == self.last_update,
    {
        self.last_update
    }

    /// Change la date de dernière modification.
    pub fn set_date(&mut self, t: i64)
        ensures
            final(self).last_update == t,
            final(self).status == old(self).status,
            final(self).modified == old(self).modified,
            final(self).interets_spec() == old(self).interets_spec(),
            Ecrit::meme_identite(*old(self), *final(self)),
    {
        self.last_update = t;
    }

    /// Ligne de résumé pour les listes : nom, lien, auteur, statut, type.
    pub fn get_list_entry(&self) -> (r: String)
        ensures
            r@ == "[**"@ + self.nom@ + "**]("@ + self.lien@ + ")\n"@ + self.auteur@ + "\n"@
                + self.status.etiquette_spec() + "\n"@ + self.type_.etiquette_spec() + "\n\n"@,
    {
        let statut = self.status.etiquette();
        let type_ = self.type_.etiquette();
        String::from_str("[**").concat(self.nom.as_str()).concat("**](").concat(
            self.lien.as_str(),
        ).concat(")\n").concat(self.auteur.as_str()).concat("\n").concat(statut.as_str()).concat(
            "\n",
        ).concat(type_.as_str()).concat("\n\n")
    }

    /// Les champs de la vue de détail : le type et le statut toujours,
    /// puis l'historique des marques d'intérêt quand l'écrit est
    /// `OuvertPlus`, puis les tags quand il y en a, chaque liste jointe
    /// ligne à ligne. La couche d'affichage joint à chaque ligne de
    /// marque la date formatée qu'elle lit sur la marque elle-même.
    pub fn champs_detail(&self) -> (r: Vec<(String, String)>)
        ensures
            r@.len() == 2 + (if self.status == Status::OuvertPlus {
                1int
            } else {
                0int
            }) + (if self.tags@.len() > 0 {
                1int
            } else {
                0int
            }),
            (r@[0].0)@ == "Type"@ && (r@[0].1)@ == self.type_.etiquette_spec(),
            (r@[1].0)@ == "Statut"@ && (r@[1].1)@ == self.status.etiquette_spec(),
            self.status == Status::OuvertPlus ==> (r@[2].0)@ == "Marques d'intérêt"@ && (
            r@[2].1)@ == lignes_marques(self.interets_spec()),
            self.tags@.len() > 0 ==> (r@[r@.len() - 1].0)@ == "Tags"@ && (r@[r@.len() - 1].1)@
                == lignes_tags(self.tags@),
    {
        let mut r: Vec<(String, String)> = Vec::new();
        r.push((String::from_str(Type::field_name()), self.type_.etiquette()));
        r.push((String::from_str(Status::field_name()), self.status.etiquette()));
        if self.status == Status::OuvertPlus {
            let n = self.interesses.len();
            let mut texte_marques = String::new();
            let mut i: usize = 0;
            proof {
                assert(self.interets_spec().subrange(0, 0) =~= Seq::<Interet>::empty());
            }
            while i < n
                invariant
                    n == self.interets_spec().len(),
                    i <= n,
                    texte_marques@ == lignes_marques(self.interets_spec().subrange(0, i as int)),
                decreases n - i,
            {
                proof {
                    assert(self.interets_spec().subrange(0, i + 1).drop_last()
                        =~= self.interets_spec().subrange(0, i as int));
                    assert(self.interets_spec().subrange(0, i + 1).last()
                        == self.interets_spec()[i as int]);
                }
                texte_marques = texte_marques.concat(self.interesses[i].type_.as_str()).concat(
                    " par ",
                ).concat(self.interesses[i].name.as_str()).concat("
");
                i = i + 1;
            }
            proof {
                assert(self.interets_spec().subrange(0, n as int) =~= self.interets_spec());
            }
            r.push((String::from_str("Marques d'intérêt"), texte_marques));
        }
        if self.tags.len() > 0 {
            let n = self.tags.len();
            let mut texte_tags = String::new();
            let mut j: usize = 0;
            proof {
                assert(self.tags@.subrange(0, 0) =~= Seq::<String>::empty());
            }
            while j < n
                invariant
                    n == self.tags@.len(),
                    j <= n,
                    texte_tags@ == lignes_tags(self.tags@.subrange(0, j as int)),
                decreases n - j,
            {
                proof {
                    assert(self.tags@.subrange(0, j + 1).drop_last() =~= self.tags@.subrange(
                        0,
                        j as int,
                    ));
                    assert(self.tags@.subrange(0, j + 1).last() == self.tags@[j as int]);
                }
                texte_tags = texte_tags.concat(self.tags[j].as_str()).concat("
");
                j = j + 1;
            }
            proof {
                assert(self.tags@.subrange(0, n as int) =~= self.tags@);
            }
            r.push((String::from_str("Tags"), texte_tags));
        }
        r
    }

    /// Actions proposées pour cet écrit, d'après son statut et son type
    /// seuls (voir `boutons_spec`).
    pub fn get_buttons(&self) -> (r: Vec<Bouton>)
        ensures
            r@ == boutons_spec(self.status, self.type_),
    {
        let mut r: Vec<Bouton> = Vec::new();
        if self.status == Status::Ouvert || self.status == Status::OuvertPlus {
            r.push(Bouton::Marquer);
            r.push(Bouton::Critiquer);
        }
        if self.status == Status::Infraction || self.status == Status::SansNouvelles
            || self.status == Status::EnAttente || self.status == Status::EnPause || self.status
            == Status::Inconnu {
            r.push(Bouton::Up);
        }
        if (self.type_ == Type::Rapport || self.type_ == Type::Idee) && self.status
            != Status::Refuse && self.status != Status::Publie && self.status != Status::Valide {
            r.push(Bouton::Refuser);
        }
        if self.status == Status::Ouvert || self.status == Status::OuvertPlus {
            r.push(Bouton::RetirerMarque);
        }
        if self.status == Status::Valide {
            r.push(Bouton::Publier);
        }
        if r.len() == 0 {
            r.push(Bouton::Aucun);
        }
        proof {
            assert(r@ =~= boutons_spec(self.status, self.type_));
        }
        r
    }
}

/// Une action proposée sur un écrit, rendue comme un bouton par la
/// couche d'affichage.
#[derive(Clone, Copy, PartialEq, Eq, Structural, Debug)]
pub enum Bouton {
    Marquer,
    Critiquer,
    Up,
    Refuser,
    RetirerMarque,
    Publier,
    Aucun,
}

/// Actions légales d'après le statut et le type seuls : marquer et
/// critiquer un écrit ouvert, remonter un écrit en sommeil, refuser un
/// rapport ou une idée non close, retirer une marque d'un écrit ouvert,
/// publier un écrit validé ; sinon aucune action.
pub open spec fn boutons_spec(status: Status, type_: Type) -> Seq<Bouton> {
    let b1 = if status == Status::Ouvert || status == Status::OuvertPlus {
        seq![Bouton::Marquer, Bouton::Critiquer]
    } else {
        Seq::empty()
    };
    let b2 = if status == Status::Infraction || status == Status::SansNouvelles || status
        == Status::EnAttente || status == Status::EnPause || status == Status::Inconnu {
        seq![Bouton::Up]
    } else {
        Seq::empty()
    };
    let b3 = if (type_ == Type::Rapport || type_ == Type::Idee) && status != Status::Refuse
        && status != Status::Publie && status != Status::Valide {
        seq![Bouton::Refuser]
    } else {
        Seq::empty()
    };
    let b4 = if status == Status::Ouvert || status == Status::OuvertPlus {
        seq![Bouton::RetirerMarque]
    } else {
        Seq::empty()
    };
    let b5 = if status == Status::Valide {
        seq![Bouton::Publier]
    } else {
        Seq::empty()
    };
    let tous = b1 + b2 + b3 + b4 + b5;
    if tous.len() == 0 {
        seq![Bouton::Aucun]
    } else {
        tous
    }
}

/// Après libération de l'identité puis du nom d'une marque, plus aucune
/// marque restante ne porte ce nom, ni cette identité si elle est non
/// nulle ; reposer la marque préserve donc l'unicité par identité.
proof fn lemme_marquer_sans_doublon(s0: Seq<Interet>, it: Interet)
    requires
        interets_sans_doublon(s0),
    ensures
        interets_sans_doublon(retire_nom(retire_membre(s0, it.member), it.name@).push(it)),
{
    let s1 = retire_membre(s0, it.member);
    let s2 = retire_nom(s1, it.name@);
    lemme_indice_membre(s0, it.member, 0);
    if it.member != 0 && indice_membre(s0, it.member, 0) < s0.len() {
        lemme_remove_sans_doublon(s0, indice_membre(s0, it.member, 0));
    }
    assert(interets_sans_doublon(s1));
    lemme_indice_nom(s1, it.name@, 0);
    if indice_nom(s1, it.name@, 0) < s1.len() {
        lemme_remove_sans_doublon(s1, indice_nom(s1, it.name@, 0));
    }
    assert(interets_sans_doublon(s2));
    // Plus de marque au nom de `it` dans `s2`.
    assert forall|k: int| 0 <= k < s2.len() implies (#[trigger] s2[k]).name@ != it.name@ by {
        let j = indice_nom(s1, it.name@, 0);
        if j < s1.len() {
            lemme_remove_origine(s1, j, k);
            let k0 = choose|k0: int|
                0 <= k0 < s1.len() && k0 != j && s2[k] == #[trigger] s1[k0];
            if s1[k0].name@ == it.name@ {
                assert(s1[j].name@ == it.name@);
            }
        }
    }
    // Plus de marque de l'identité de `it` dans `s2`, si elle est non nulle.
    if it.member != 0 {
        let j0 = indice_membre(s0, it.member, 0);
        assert forall|k: int| 0 <= k < s2.len() implies (#[trigger] s2[k]).member != it.member by {
            // L'élément vient de s1, qui vient de s0 privé de sa marque membre.
            let j1 = indice_nom(s1, it.name@, 0);
            let k1 = if j1 < s1.len() {
                lemme_remove_origine(s1, j1, k);
                choose|k1: int| 0 <= k1 < s1.len() && k1 != j1 && s2[k] == #[trigger] s1[k1]
            } else {
                k
            };
            assert(s2[k] == s1[k1] && 0 <= k1 < s1.len());
            if j0 < s0.len() {
                lemme_remove_origine(s0, j0, k1);
                let k0 = choose|k0: int|
                    0 <= k0 < s0.len() && k0 != j0 && s1[k1] == #[trigger] s0[k0];
                if s0[k0].member == it.member {
                    assert(s0[j0].member == it.member);
                }
            } else {
                assert(s1 == s0);
            }
        }
    }
}

/// Au plus une marque par identité : sous l'invariant d'unicité, deux
/// marques portées par la même identité non nulle sont au même indice.
/// Avec la postcondition de `marquer` (la marque posée est la dernière),
/// il existe donc exactement une marque de l'identité qui vient de
/// marquer, quelle que soit la suite de marques posées avant.
pub proof fn lemme_au_plus_une_marque(e: Ecrit, membre: u64, i: int, j: int)
    requires
        e.marques_uniques(),
        membre != 0,
        0 <= i < e.interets_spec().len(),
        0 <= j < e.interets_spec().len(),
        e.interets_spec()[i].member == membre,
        e.interets_spec()[j].member == membre,
    ensures
        i == j,
{
}

/// Valeur d'un texte entièrement fait de chiffres, s'il tient dans un
/// entier non signé.
pub open spec fn analyse_u64_spec(s: Seq<char>) -> Option<u64> {
    if s.len() > 0 && lien::fin_chiffres(s, 0) == s.len() && lien::valeur_chiffres(s)
        <= u64::MAX {
        Some(lien::valeur_chiffres(s) as u64)
    } else {
        None
    }
}

/// Lit un entier non signé écrit en chiffres, et rien d'autre.
pub fn chaine_vers_u64(s: &str) -> (r: Option<u64>)
    ensures
        r == analyse_u64_spec(s@),
{
    let n = s.unicode_len();
    if n == 0 {
        return None;
    }
    let mut i: usize = 0;
    let mut v: Option<u64> = Some(0);
    proof {
        assert(s@.subrange(0, 0) =~= Seq::<char>::empty());
    }
    while i < n
        invariant
            n == s@.len(),
            i <= n,
            forall|k: int| 0 <= k < i ==> lien::est_chiffre(s@[k]),
            match v {
                Some(x) => x == lien::valeur_chiffres(s@.subrange(0, i as int)),
                None => lien::valeur_chiffres(s@.subrange(0, i as int)) > u64::MAX,
            },
        decreases n - i,
    {
        let c = s.get_char(i);
        if !('0' <= c && c <= '9') {
            proof {
                lien::lemme_fin_chiffres(s@, 0);
                assert(lien::fin_chiffres(s@, 0) != s@.len()) by {
                    if lien::fin_chiffres(s@, 0) == s@.len() {
                        assert(lien::est_chiffre(s@[i as int]));
                    }
                }
            }
            return None;
        }
        let d = (c as u32 - 48) as u64;
        proof {
            assert(s@.subrange(0, i + 1).drop_last() =~= s@.subrange(0, i as int));
            assert(lien::valeur_chiffres(s@.subrange(0, i + 1)) == lien::valeur_chiffres(
                s@.subrange(0, i as int),
            ) * 10 + d);
        }
        v = match v {
            Some(x) => {
                match x.checked_mul(10) {
                    Some(y) => y.checked_add(d),
                    None => None,
                }
            },
            None => None,
        };
        i = i + 1;
    }
    proof {
        assert(s@.subrange(0, n as int) =~= s@);
        lien::lemme_fin_chiffres(s@, 0);
        assert(lien::fin_chiffres(s@, 0) == s@.len()) by {
            if lien::fin_chiffres(s@, 0) < s@.len() {
                assert(!lien::est_chiffre(s@[lien::fin_chiffres(s@, 0)]));
            }
        }
    }
    v
}

/// Une action demandée par un bouton d'écrit.
#[derive(Clone, Copy, PartialEq, Eq, Structural, Debug)]
pub enum ActionBouton {
    Marque,
    Critique,
    Refus,
    Retrait,
    Up,
    Publie,
    Inconnue,
}

/// Action associée à un code d'un identifiant de bouton.
pub open spec fn action_de(m: Seq<char>) -> ActionBouton {
    if m == "m"@ {
        ActionBouton::Marque
    } else if m == "c"@ {
        ActionBouton::Critique
    } else if m == "r"@ {
        ActionBouton::Refus
    } else if m == "d"@ {
        ActionBouton::Retrait
    } else if m == "u"@ {
        ActionBouton::Up
    } else if m == "p"@ {
        ActionBouton::Publie
    } else {
        ActionBouton::Inconnue
    }
}

/// Une commande portée par l'identifiant d'un bouton pressé.
#[derive(Debug)]
pub enum CommandeBouton {
    /// `e-<id>-<action>` : une action sur l'écrit `id`.
    Action(u64, ActionBouton),
    /// `tm-<id>-<code>` : la pose d'une marque du style `code` sur `id`.
    Marque(u64, String),
    /// Un identifiant d'une autre famille : rien à faire.
    Rien,
}

/// Analyse l'identifiant d'un bouton pressé : `e-<id>-<action>` pour une
/// action sur un écrit, `tm-<id>-<code>` pour la pose d'une marque ;
/// une famille inconnue ne demande rien, un identifiant ou un morceau
/// manquant est refusé.
pub fn parse_bouton(s: &str) -> (r: Option<CommandeBouton>)
    ensures
        ({
            let m = crate::texte::decoupe_spec(s@, '-');
            match r {
                Some(CommandeBouton::Action(id, a)) => m[0] == "e"@ && m.len() >= 3
                    && analyse_u64_spec(m[1]) == Some(id) && a == action_de(m[2]),
                Some(CommandeBouton::Marque(id, code)) => m[0] == "tm"@ && m.len() >= 3
                    && analyse_u64_spec(m[1]) == Some(id) && code@ == m[2],
                Some(CommandeBouton::Rien) => m[0] != "e"@ && m[0] != "tm"@,
                None => (m[0] == "e"@ || m[0] == "tm"@) && (m.len() < 3 || analyse_u64_spec(m[1])
                    is None),
            }
        }),
{
    let morceaux = crate::texte::decouper(s, '-');
    proof {
        assert(crate::texte::decoupe_spec(s@, '-').len() >= 1);
    }
    let ecrit_famille = crate::texte::texte_egal(morceaux[0].as_str(), "e");
    let marque_famille = crate::texte::texte_egal(morceaux[0].as_str(), "tm");
    if !ecrit_famille && !marque_famille {
        return Some(CommandeBouton::Rien);
    }
    if morceaux.len() < 3 {
        return None;
    }
    let id = match chaine_vers_u64(morceaux[1].as_str()) {
        Some(id) => id,
        None => {
            return None;
        },
    };
    if ecrit_famille {
        let a = if crate::texte::texte_egal(morceaux[2].as_str(), "m") {
            ActionBouton::Marque
        } else if crate::texte::texte_egal(morceaux[2].as_str(), "c") {
            ActionBouton::Critique
        } else if crate::texte::texte_egal(morceaux[2].as_str(), "r") {
            ActionBouton::Refus
        } else if crate::texte::texte_egal(morceaux[2].as_str(), "d") {
            ActionBouton::Retrait
        } else if crate::texte::texte_egal(morceaux[2].as_str(), "u") {
            ActionBouton::Up
        } else if crate::texte::texte_egal(morceaux[2].as_str(), "p") {
            ActionBouton::Publie
        } else {
            ActionBouton::Inconnue
        };
        Some(CommandeBouton::Action(id, a))
    } else {
        Some(CommandeBouton::Marque(id, morceaux[2].clone()))
    }
}

} // verus!
