//! Outils de comparaison de texte : normalisation (minuscules, sans
//! diacritiques), recherche de sous-chaîne et découpage en mots.
//! La normalisation est définie une seule fois ici et réutilisée partout
//! où deux textes sont comparés (tags, auteurs, noms de statuts et de types).

use vstd::prelude::*;

verus! {

/// Forme normalisée d'un caractère : minuscule et sans diacritique.
pub open spec fn caractere_basique(c: char) -> char {
    match c {
        'A' => 'a',
        'B' => 'b',
        'C' => 'c',
        'D' => 'd',
        'E' => 'e',
        'F' => 'f',
        'G' => 'g',
        'H' => 'h',
        'I' => 'i',
        'J' => 'j',
        'K' => 'k',
        'L' => 'l',
        'M' => 'm',
        'N' => 'n',
        'O' => 'o',
        'P' => 'p',
        'Q' => 'q',
        'R' => 'r',
        'S' => 's',
        'T' => 't',
        'U' => 'u',
        'V' => 'v',
        'W' => 'w',
        'X' => 'x',
        'Y' => 'y',
        'Z' => 'z',
        'à' | 'â' | 'ä' | 'á' | 'ã' | 'À' | 'Â' | 'Ä' | 'Á' | 'Ã' => 'a',
        'é' | 'è' | 'ê' | 'ë' | 'É' | 'È' | 'Ê' | 'Ë' => 'e',
        'î' | 'ï' | 'í' | 'Î' | 'Ï' | 'Í' => 'i',
        'ô' | 'ö' | 'ó' | 'õ' | 'Ô' | 'Ö' | 'Ó' | 'Õ' => 'o',
        'ù' | 'û' | 'ü' | 'ú' | 'Ù' | 'Û' | 'Ü' | 'Ú' => 'u',
        'ç' | 'Ç' => 'c',
        'ñ' | 'Ñ' => 'n',
        'ÿ' => 'y',
        _ => c,
    }
}

/// Forme normalisée d'un texte, caractère par caractère.
pub open spec fn basicize_spec(s: Seq<char>) -> Seq<char> {
    s.map_values(|c: char| caractere_basique(c))
}

pub fn basique_car(c: char) -> (r: char)
    ensures
        r == caractere_basique(c),
{
    match c {
        'A' => 'a',
        'B' => 'b',
        'C' => 'c',
        'D' => 'd',
        'E' => 'e',
        'F' => 'f',
        'G' => 'g',
        'H' => 'h',
        'I' => 'i',
        'J' => 'j',
        'K' => 'k',
        'L' => 'l',
        'M' => 'm',
        'N' => 'n',
        'O' => 'o',
        'P' => 'p',
        'Q' => 'q',
        'R' => 'r',
        'S' => 's',
        'T' => 't',
        'U' => 'u',
        'V' => 'v',
        'W' => 'w',
        'X' => 'x',
        'Y' => 'y',
        'Z' => 'z',
        'à' | 'â' | 'ä' | 'á' | 'ã' | 'À' | 'Â' | 'Ä' | 'Á' | 'Ã' => 'a',
        'é' | 'è' | 'ê' | 'ë' | 'É' | 'È' | 'Ê' | 'Ë' => 'e',
        'î' | 'ï' | 'í' | 'Î' | 'Ï' | 'Í' => 'i',
        'ô' | 'ö' | 'ó' | 'õ' | 'Ô' | 'Ö' | 'Ó' | 'Õ' => 'o',
        'ù' | 'û' | 'ü' | 'ú' | 'Ù' | 'Û' | 'Ü' | 'Ú' => 'u',
        'ç' | 'Ç' => 'c',
        'ñ' | 'Ñ' => 'n',
        'ÿ' => 'y',
        _ => c,
    }
}

/// S'appuie sur `String::push` de std : ajoute un caractère à la fin.
#[verifier::external_body]
pub(crate) fn pousser_car(s: &mut String, c: char)
    ensures
        final(s)@ == old(s)@.push(c),
{
    s.push(c)
}

/// Normalise un texte : minuscules, diacritiques retirés.
pub fn basicize(s: &str) -> (r: String)
    ensures
        r@ == basicize_spec(s@),
{
    let mut sortie = String::new();
    let longueur = s.unicode_len();
    let mut i: usize = 0;
    while i < longueur
        invariant
            longueur == s@.len(),
            i <= longueur,
            sortie@ == basicize_spec(s@.subrange(0, i as int)),
        decreases longueur - i,
    {
        let c = s.get_char(i);
        pousser_car(&mut sortie, basique_car(c));
        proof {
            assert(s@.subrange(0, i + 1) =~= s@.subrange(0, i as int).push(s@[i as int]));
            assert(sortie@ =~= basicize_spec(s@.subrange(0, i + 1)));
        }
        i = i + 1;
    }
    proof {
        assert(s@.subrange(0, longueur as int) =~= s@);
    }
    sortie
}

/// Égalité de deux textes, caractère par caractère.
pub fn texte_egal(a: &str, b: &str) -> (r: bool)
    ensures
        r == (a@ == b@),
{
    let sa = String::from_str(a);
    let sb = String::from_str(b);
    sa == sb
}

/// `aiguille` apparaît quelque part dans `botte`.
pub open spec fn contient_spec(botte: Seq<char>, aiguille: Seq<char>) -> bool {
    exists|k: int|
        0 <= k <= botte.len() - aiguille.len() && #[trigger] botte.subrange(
            k,
            k + aiguille.len() as int,
        ) == aiguille
}

/// Recherche naïve de sous-chaîne, sur les caractères.
pub fn contient(botte: &str, aiguille: &str) -> (r: bool)
    ensures
        r == contient_spec(botte@, aiguille@),
{
    let nb = botte.unicode_len();
    let na = aiguille.unicode_len();
    if na > nb {
        return false;
    }
    if na == 0 {
        proof {
            assert(botte@.subrange(0, 0 + aiguille@.len() as int) =~= aiguille@);
        }
        return true;
    }
    let mut k: usize = 0;
    while k <= nb - na
        invariant
            nb == botte@.len(),
            na == aiguille@.len(),
            1 <= na <= nb,
            k <= nb - na + 1,
            forall|k2: int|
                0 <= k2 < k ==> #[trigger] botte@.subrange(k2, k2 + na as int) != aiguille@,
        decreases nb - na - k + 1,
    {
        let mut j: usize = 0;
        let mut egal = true;
        while j < na
            invariant
                nb == botte@.len(),
                na == aiguille@.len(),
                k + na <= nb,
                j <= na,
                egal ==> forall|j2: int|
                    0 <= j2 < j ==> botte@[k + j2] == aiguille@[j2],
                !egal ==> botte@.subrange(k as int, k + na as int) != aiguille@,
            decreases na - j,
        {
            if egal {
                if botte.get_char(k + j) != aiguille.get_char(j) {
                    proof {
                        let ji = j as int;
                        assert(botte@.subrange(k as int, k + na as int)[ji] != aiguille@[ji]);
                    }
                    egal = false;
                }
            }
            j = j + 1;
        }
        if egal {
            proof {
                assert(botte@.subrange(k as int, k + na as int) =~= aiguille@);
            }
            return true;
        }
        k = k + 1;
    }
    false
}

/// Premier indice de `sep` dans `s` à partir de `de`, ou la longueur de `s`.
pub open spec fn premier_index(s: Seq<char>, sep: char, de: int) -> int
    decreases s.len() - de,
{
    if de < 0 || de >= s.len() {
        s.len() as int
    } else if s[de] == sep {
        de
    } else {
        premier_index(s, sep, de + 1)
    }
}

pub proof fn lemme_premier_index(s: Seq<char>, sep: char, de: int)
    requires
        0 <= de <= s.len(),
    ensures
        de <= premier_index(s, sep, de) <= s.len(),
        premier_index(s, sep, de) < s.len() ==> s[premier_index(s, sep, de)] == sep,
        forall|k: int| de <= k < premier_index(s, sep, de) ==> s[k] != sep,
    decreases s.len() - de,
{
    if de < s.len() && s[de] != sep {
        lemme_premier_index(s, sep, de + 1);
    }
}

/// Découpe `s` à chaque occurrence de `sep`, en gardant les morceaux vides,
/// comme `str::split` : n séparateurs donnent n + 1 morceaux.
pub open spec fn decoupe_spec(s: Seq<char>, sep: char) -> Seq<Seq<char>>
    decreases s.len(),
{
    let i = premier_index(s, sep, 0);
    if 0 <= i < s.len() {
        seq![s.subrange(0, i)] + decoupe_spec(s.subrange(i + 1, s.len() as int), sep)
    } else {
        seq![s]
    }
}

/// Découpe un texte sur un séparateur, morceaux vides compris.
pub fn decouper(s: &str, sep: char) -> (r: Vec<String>)
    ensures
        r@.len() == decoupe_spec(s@, sep).len(),
        forall|i: int| 0 <= i < r@.len() ==> r@[i]@ == decoupe_spec(s@, sep)[i],
    decreases s@.len(),
{
    let n = s.unicode_len();
    let mut i: usize = 0;
    while i < n && s.get_char(i) != sep
        invariant
            n == s@.len(),
            0 <= i <= n,
            forall|k: int| 0 <= k < i ==> s@[k] != sep,
        decreases n - i,
    {
        i = i + 1;
    }
    proof {
        lemme_premier_index(s@, sep, 0);
        assert(premier_index(s@, sep, 0) == i as int) by {
            if premier_index(s@, sep, 0) < i as int {
                assert(s@[premier_index(s@, sep, 0)] != sep);
            }
        }
    }
    let mut r: Vec<String> = Vec::new();
    if i == n {
        r.push(String::from_str(s));
        return r;
    }
    let tete = String::from_str(s.substring_char(0, i));
    let reste = s.substring_char(i + 1, n);
    let mut queue = decouper(reste, sep);
    r.push(tete);
    r.append(&mut queue);
    proof {
        assert(decoupe_spec(s@, sep) =~= seq![s@.subrange(0, i as int)] + decoupe_spec(
            s@.subrange(i + 1, n as int),
            sep,
        ));
    }
    r
}

/// Un des mots de `mt` contient `mot` comme sous-chaîne.
pub open spec fn mot_present(mt: Seq<Seq<char>>, mot: Seq<char>) -> bool {
    exists|j: int| 0 <= j < mt.len() && contient_spec(#[trigger] mt[j], mot)
}

/// Chaque mot du critère (déjà normalisé) apparaît comme sous-chaîne d'un
/// mot du texte, une fois le texte normalisé.
pub open spec fn critere_correspond_spec(critere: Seq<char>, texte_: Seq<char>) -> bool {
    forall|i: int|
        0 <= i < decoupe_spec(critere, ' ').len() ==> mot_present(
            decoupe_spec(basicize_spec(texte_), ' '),
            #[trigger] decoupe_spec(critere, ' ')[i],
        )
}

/// Tous les mots du critère (déjà normalisé) apparaissent dans le texte.
pub fn critere_correspond(critere: &str, texte_: &str) -> (r: bool)
    ensures
        r == critere_correspond_spec(critere@, texte_@),
{
    let mc = decouper(critere, ' ');
    let bt = basicize(texte_);
    let mt = decouper(bt.as_str(), ' ');
    let ghost smc = decoupe_spec(critere@, ' ');
    let ghost smt = decoupe_spec(basicize_spec(texte_@), ' ');
    let mut i: usize = 0;
    while i < mc.len()
        invariant
            smc == decoupe_spec(critere@, ' '),
            smt == decoupe_spec(basicize_spec(texte_@), ' '),
            mc@.len() == smc.len(),
            forall|k: int| 0 <= k < mc@.len() ==> mc@[k]@ == smc[k],
            mt@.len() == smt.len(),
            forall|k: int| 0 <= k < mt@.len() ==> mt@[k]@ == smt[k],
            forall|k: int| 0 <= k < i ==> mot_present(smt, #[trigger] smc[k]),
        decreases mc@.len() - i,
    {
        let mut j: usize = 0;
        let mut trouve = false;
        while j < mt.len()
            invariant
                smc == decoupe_spec(critere@, ' '),
                smt == decoupe_spec(basicize_spec(texte_@), ' '),
                mc@.len() == smc.len(),
                forall|k: int| 0 <= k < mc@.len() ==> mc@[k]@ == smc[k],
                mt@.len() == smt.len(),
                forall|k: int| 0 <= k < mt@.len() ==> mt@[k]@ == smt[k],
                i < mc@.len(),
                j <= mt@.len(),
                trouve ==> mot_present(smt, smc[i as int]),
                !trouve ==> forall|j2: int|
                    0 <= j2 < j ==> !contient_spec(#[trigger] smt[j2], smc[i as int]),
            decreases mt@.len() - j,
        {
            if contient(mt[j].as_str(), mc[i].as_str()) {
                proof {
                    assert(0 <= j < smt.len() && contient_spec(smt[j as int], smc[i as int]));
                    assert(mot_present(smt, smc[i as int]));
                }
                trouve = true;
            }
            j = j + 1;
        }
        if !trouve {
            proof {
                let ii = i as int;
                assert(!mot_present(smt, smc[ii])) by {
                    if mot_present(smt, smc[ii]) {
                        let j2 = choose|j2: int|
                            0 <= j2 < smt.len() && contient_spec(#[trigger] smt[j2], smc[ii]);
                        assert(!contient_spec(smt[j2], smc[ii]));
                    }
                }
                assert(0 <= ii < smc.len() && !mot_present(smt, smc[ii]));
                assert(!critere_correspond_spec(critere@, texte_@)) by {
                    if critere_correspond_spec(critere@, texte_@) {
                        let t = decoupe_spec(critere@, ' ')[ii];
                        assert(mot_present(decoupe_spec(basicize_spec(texte_@), ' '), t));
                        assert(mot_present(smt, smc[ii]));
                    }
                }
            }
            return false;
        }
        i = i + 1;
    }
    true
}

} // verus!
