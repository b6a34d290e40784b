//! Extraction de l'identifiant canonique d'un écrit depuis son lien :
//! la première occurrence du motif `t-<chiffres>` en tête d'un segment
//! de chemin (en début de texte ou après une barre oblique) donne
//! l'identifiant. Un lien sans ce motif n'a pas d'identifiant, ce qui
//! est un résultat normal et non une erreur.

use vstd::prelude::*;

verus! {

pub open spec fn est_chiffre(c: char) -> bool {
    '0' as u32 <= c as u32 && c as u32 <= '9' as u32
}

/// Valeur décimale d'une suite de chiffres.
pub open spec fn valeur_chiffres(s: Seq<char>) -> int
    decreases s.len(),
{
    if s.len() == 0 {
        0
    } else {
        valeur_chiffres(s.drop_last()) * 10 + (s.last() as u32 - '0' as u32)
    }
}

/// Le motif `t-<chiffre>` commence un segment de chemin à l'indice `j`
/// de `s` : en tête du texte ou juste après une barre oblique.
pub open spec fn motif_en(s: Seq<char>, j: int) -> bool {
    &&& 0 <= j
    &&& j + 2 < s.len()
    &&& (j == 0 || s[j - 1] == '/')
    &&& s[j] == 't'
    &&& s[j + 1] == '-'
    &&& est_chiffre(s[j + 2])
}

/// Premier indice `>= de` où le motif commence, ou la longueur de `s`.
pub open spec fn premier_motif(s: Seq<char>, de: int) -> int
    decreases s.len() - de,
{
    if de < 0 || de + 2 >= s.len() {
        s.len() as int
    } else if motif_en(s, de) {
        de
    } else {
        premier_motif(s, de + 1)
    }
}

pub proof fn lemme_premier_motif(s: Seq<char>, de: int)
    requires
        0 <= de <= s.len(),
    ensures
        de <= premier_motif(s, de) <= s.len(),
        premier_motif(s, de) < s.len() ==> motif_en(s, premier_motif(s, de)),
        forall|k: int| de <= k < premier_motif(s, de) ==> !motif_en(s, k),
    decreases s.len() - de,
{
    if de + 2 < s.len() && !motif_en(s, de) {
        lemme_premier_motif(s, de + 1);
    }
}

/// Premier indice `>= de` qui ne porte pas un chiffre, ou la longueur de `s`.
pub open spec fn fin_chiffres(s: Seq<char>, de: int) -> int
    decreases s.len() - de,
{
    if de < 0 || de >= s.len() {
        s.len() as int
    } else if !est_chiffre(s[de]) {
        de
    } else {
        fin_chiffres(s, de + 1)
    }
}

pub proof fn lemme_fin_chiffres(s: Seq<char>, de: int)
    requires
        0 <= de <= s.len(),
    ensures
        de <= fin_chiffres(s, de) <= s.len(),
        fin_chiffres(s, de) < s.len() ==> !est_chiffre(s[fin_chiffres(s, de)]),
        forall|k: int| de <= k < fin_chiffres(s, de) ==> est_chiffre(s[k]),
    decreases s.len() - de,
{
    if de < s.len() && est_chiffre(s[de]) {
        lemme_fin_chiffres(s, de + 1);
    }
}

/// Identifiant extrait du lien : chiffres qui suivent le premier `t-`
/// en tête de segment, ou rien si le motif est absent ou si la valeur
/// dépasse `u64::MAX`.
pub open spec fn extraire_id_spec(s: Seq<char>) -> Option<u64> {
    let j = premier_motif(s, 0);
    if j < s.len() {
        let v = valeur_chiffres(s.subrange(j + 2, fin_chiffres(s, j + 2)));
        if v <= u64::MAX {
            Some(v as u64)
        } else {
            None
        }
    } else {
        None
    }
}

fn chiffre(c: char) -> (b: bool)
    ensures
        b == est_chiffre(c),
{
    '0' <= c && c <= '9'
}

/// Extrait l'identifiant numérique d'un lien, d'après le motif `t-<chiffres>`.
pub fn extraire_id(url: &str) -> (r: Option<u64>)
    ensures
        r == extraire_id_spec(url@),
{
    let n = url.unicode_len();
    if n < 3 {
        proof {
            lemme_premier_motif(url@, 0);
        }
        return None;
    }
    let mut j: usize = 0;
    while j <= n - 3
        invariant
            n == url@.len(),
            3 <= n,
            j <= n - 2,
            forall|k: int| 0 <= k < j ==> !motif_en(url@, k),
        decreases n - j,
    {
        let ancre = j == 0 || url.get_char(j - 1) == '/';
        if ancre && url.get_char(j) == 't' && url.get_char(j + 1) == '-' && chiffre(
            url.get_char(j + 2),
        ) {
            proof {
                lemme_premier_motif(url@, 0);
                assert(motif_en(url@, j as int));
                assert(premier_motif(url@, 0) == j as int) by {
                    if premier_motif(url@, 0) < j as int {
                        assert(motif_en(url@, premier_motif(url@, 0)));
                    }
                }
            }
            return chiffres_depuis(url, j + 2, n);
        }
        j = j + 1;
    }
    proof {
        lemme_premier_motif(url@, 0);
        assert(premier_motif(url@, 0) == url@.len()) by {
            if premier_motif(url@, 0) < url@.len() {
                assert(motif_en(url@, premier_motif(url@, 0)));
            }
        }
    }
    None
}

/// Lit la suite maximale de chiffres à partir de `debut` et en donne la
/// valeur, ou rien si elle dépasse `u64::MAX`.
fn chiffres_depuis(url: &str, debut: usize, n: usize) -> (r: Option<u64>)
    requires
        n == url@.len(),
        debut <= n,
    ensures
        ({
            let v = valeur_chiffres(url@.subrange(debut as int, fin_chiffres(url@, debut as int)));
            r == if v <= u64::MAX {
                Some(v as u64)
            } else {
                None::<u64>
            }
        }),
{
    let mut fin: usize = debut;
    let mut v: Option<u64> = Some(0);
    proof {
        assert(url@.subrange(debut as int, debut as int) =~= Seq::<char>::empty());
    }
    while fin < n && chiffre(url.get_char(fin))
        invariant
            n == url@.len(),
            debut <= fin <= n,
            forall|k: int| debut <= k < fin ==> est_chiffre(url@[k]),
            match v {
                Some(x) => x == valeur_chiffres(url@.subrange(debut as int, fin as int)),
                None => valeur_chiffres(url@.subrange(debut as int, fin as int)) > u64::MAX,
            },
        decreases n - fin,
    {
        let c = url.get_char(fin);
        let d = (c as u32 - 48) as u64;
        proof {
            assert(url@.subrange(debut as int, fin + 1).drop_last() =~= url@.subrange(
                debut as int,
                fin as int,
            ));
            assert(valeur_chiffres(url@.subrange(debut as int, fin + 1)) == valeur_chiffres(
                url@.subrange(debut as int, fin as int),
            ) * 10 + d);
        }
        v = match v {
            Some(x) => {
                match x.checked_mul(10) {
                    Some(y) => y.checked_add(d),
                    None => None,
                }
            },
            None => None,
        };
        fin = fin + 1;
    }
    proof {
        lemme_fin_chiffres(url@, debut as int);
        assert(fin_chiffres(url@, debut as int) == fin as int) by {
            if fin_chiffres(url@, debut as int) < fin as int {
                assert(est_chiffre(url@[fin_chiffres(url@, debut as int)]));
            }
        }
    }
    v
}

} // verus!
