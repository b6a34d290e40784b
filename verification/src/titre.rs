//! Analyse heuristique des titres du flux : lecture des marqueurs entre
//! crochets pour classer le type d'un écrit, et nettoyage du titre
//! affiché (marqueurs de tête, préfixe de code, ponctuation, mention
//! finale de brouillon).

use vstd::prelude::*;

use crate::ecrit::fields::Type;
use crate::texte;

verus! {

pub open spec fn est_blanc(c: char) -> bool {
    c == ' ' || c == '\t' || c == '\n' || c == '\r'
}

/// Séparateurs admis entre deux marqueurs de tête.
pub open spec fn est_sep_groupe(c: char) -> bool {
    est_blanc(c) || c == '/' || c == '\\' || c == '-'
}

/// Ponctuation de tête entre les marqueurs et le titre.
pub open spec fn est_sep_tete(c: char) -> bool {
    est_blanc(c) || c == ':' || c == '-' || c == '"'
}

/// Ponctuation de queue après le titre.
pub open spec fn est_queue(c: char) -> bool {
    est_blanc(c) || c == '"' || c == '.'
}

/// Caractère admis dans un code de désignation après le préfixe.
pub open spec fn est_code(c: char) -> bool {
    crate::lien::est_chiffre(c) || c == 'X' || c == 'Y' || c == 'x' || c == 'y' || c == '#' || c
        == '?' || c == '█'
}

/// Premier indice `>= de` qui n'est pas un blanc, ou la longueur.
pub open spec fn apres_blancs(s: Seq<char>, de: int) -> int
    decreases s.len() - de,
{
    if de < 0 || de >= s.len() {
        s.len() as int
    } else if est_blanc(s[de]) {
        apres_blancs(s, de + 1)
    } else {
        de
    }
}

pub proof fn lemme_apres_blancs(s: Seq<char>, de: int)
    requires
        0 <= de <= s.len(),
    ensures
        de <= apres_blancs(s, de) <= s.len(),
        apres_blancs(s, de) < s.len() ==> !est_blanc(s[apres_blancs(s, de)]),
        forall|k: int| de <= k < apres_blancs(s, de) ==> est_blanc(s[k]),
    decreases s.len() - de,
{
    if de < s.len() && est_blanc(s[de]) {
        lemme_apres_blancs(s, de + 1);
    }
}

/// Premier indice `>= de` qui n'est pas un séparateur de marqueurs.
pub open spec fn apres_seps(s: Seq<char>, de: int) -> int
    decreases s.len() - de,
{
    if de < 0 || de >= s.len() {
        s.len() as int
    } else if est_sep_groupe(s[de]) {
        apres_seps(s, de + 1)
    } else {
        de
    }
}

pub proof fn lemme_apres_seps(s: Seq<char>, de: int)
    requires
        0 <= de <= s.len(),
    ensures
        de <= apres_seps(s, de) <= s.len(),
        apres_seps(s, de) < s.len() ==> !est_sep_groupe(s[apres_seps(s, de)]),
        forall|k: int| de <= k < apres_seps(s, de) ==> est_sep_groupe(s[k]),
    decreases s.len() - de,
{
    if de < s.len() && est_sep_groupe(s[de]) {
        lemme_apres_seps(s, de + 1);
    }
}

/// Premier indice `>= de` qui n'est pas une ponctuation de tête.
pub open spec fn apres_tete(s: Seq<char>, de: int) -> int
    decreases s.len() - de,
{
    if de < 0 || de >= s.len() {
        s.len() as int
    } else if est_sep_tete(s[de]) {
        apres_tete(s, de + 1)
    } else {
        de
    }
}

pub proof fn lemme_apres_tete(s: Seq<char>, de: int)
    requires
        0 <= de <= s.len(),
    ensures
        de <= apres_tete(s, de) <= s.len(),
        apres_tete(s, de) < s.len() ==> !est_sep_tete(s[apres_tete(s, de)]),
        forall|k: int| de <= k < apres_tete(s, de) ==> est_sep_tete(s[k]),
    decreases s.len() - de,
{
    if de < s.len() && est_sep_tete(s[de]) {
        lemme_apres_tete(s, de + 1);
    }
}

/// Premier indice `>= de` qui n'est pas un caractère de code.
pub open spec fn apres_codes(s: Seq<char>, de: int) -> int
    decreases s.len() - de,
{
    if de < 0 || de >= s.len() {
        s.len() as int
    } else if est_code(s[de]) {
        apres_codes(s, de + 1)
    } else {
        de
    }
}

pub proof fn lemme_apres_codes(s: Seq<char>, de: int)
    requires
        0 <= de <= s.len(),
    ensures
        de <= apres_codes(s, de) <= s.len(),
        apres_codes(s, de) < s.len() ==> !est_code(s[apres_codes(s, de)]),
        forall|k: int| de <= k < apres_codes(s, de) ==> est_code(s[k]),
    decreases s.len() - de,
{
    if de < s.len() && est_code(s[de]) {
        lemme_apres_codes(s, de + 1);
    }
}

/// Dernier indice de fin (exclu) une fois la ponctuation de queue ôtée.
pub open spec fn avant_queue(s: Seq<char>, fin: int) -> int
    decreases fin,
{
    if fin <= 0 || fin > s.len() {
        0
    } else if est_queue(s[fin - 1]) {
        avant_queue(s, fin - 1)
    } else {
        fin
    }
}

pub proof fn lemme_avant_queue(s: Seq<char>, fin: int)
    requires
        0 <= fin <= s.len(),
    ensures
        0 <= avant_queue(s, fin) <= fin,
        avant_queue(s, fin) > 0 ==> !est_queue(s[avant_queue(s, fin) - 1]),
        forall|k: int| avant_queue(s, fin) <= k < fin ==> est_queue(s[k]),
    decreases fin,
{
    if 0 < fin && est_queue(s[fin - 1]) {
        lemme_avant_queue(s, fin - 1);
    }
}

/// Premier indice `>= de` portant `[`, `]` ou `)`, ou la longueur : la
/// borne d'un marqueur de tête.
pub open spec fn premier_borne(s: Seq<char>, de: int) -> int
    decreases s.len() - de,
{
    if de < 0 || de >= s.len() {
        s.len() as int
    } else if s[de] == '[' || s[de] == ']' || s[de] == ')' {
        de
    } else {
        premier_borne(s, de + 1)
    }
}

pub proof fn lemme_premier_borne(s: Seq<char>, de: int)
    requires
        0 <= de <= s.len(),
    ensures
        de <= premier_borne(s, de) <= s.len(),
        premier_borne(s, de) < s.len() ==> (s[premier_borne(s, de)] == '[' || s[premier_borne(
            s,
            de,
        )] == ']' || s[premier_borne(s, de)] == ')'),
        forall|k: int|
            de <= k < premier_borne(s, de) ==> s[k] != '[' && s[k] != ']' && s[k] != ')',
    decreases s.len() - de,
{
    if de < s.len() && !(s[de] == '[' || s[de] == ']' || s[de] == ')') {
        lemme_premier_borne(s, de + 1);
    }
}

/// Indice après les marqueurs de tête `[...]` ou `(...)` et leurs
/// séparateurs : un marqueur s'arrête à la première borne fermante, et
/// un crochet ouvrant avant toute borne fermante interrompt la série.
pub open spec fn apres_groupes(s: Seq<char>, de: int) -> int
    decreases s.len() - de,
{
    let b = apres_blancs(s, de);
    if de <= b && b < s.len() && (s[b] == '[' || s[b] == '(') {
        let f = premier_borne(s, b + 1);
        if b + 1 <= f && f < s.len() && s[f] != '[' {
            let suite = apres_seps(s, f + 1);
            if f + 1 <= suite <= s.len() {
                apres_groupes(s, suite)
            } else {
                de
            }
        } else {
            de
        }
    } else {
        de
    }
}

pub proof fn lemme_apres_groupes(s: Seq<char>, de: int)
    requires
        0 <= de <= s.len(),
    ensures
        de <= apres_groupes(s, de) <= s.len(),
    decreases s.len() - de,
{
    lemme_apres_blancs(s, de);
    let b = apres_blancs(s, de);
    if de <= b && b < s.len() && (s[b] == '[' || s[b] == '(') {
        lemme_premier_borne(s, b + 1);
        let f = premier_borne(s, b + 1);
        if b + 1 <= f && f < s.len() && s[f] != '[' {
            lemme_apres_seps(s, f + 1);
            let suite = apres_seps(s, f + 1);
            if f + 1 <= suite <= s.len() {
                lemme_apres_groupes(s, suite);
            }
        }
    }
}

/// Indice après le préfixe de code de désignation : `scp`, puis en
/// option un tiret ou un blanc, un code, et une mention `fr`.
pub open spec fn apres_prefixe(s: Seq<char>, de: int) -> int {
    if 0 <= de && de + 3 <= s.len() && texte::caractere_basique(s[de]) == 's'
        && texte::caractere_basique(s[de + 1]) == 'c' && texte::caractere_basique(s[de + 2])
        == 'p' {
        let d = de + 3;
        if d < s.len() && (s[d] == '-' || est_blanc(s[d])) && d + 1 < s.len() && est_code(
            s[d + 1],
        ) {
            let fc = apres_codes(s, d + 1);
            if fc + 2 < s.len() && (s[fc] == '-' || est_blanc(s[fc])) && texte::caractere_basique(
                s[fc + 1],
            ) == 'f' && texte::caractere_basique(s[fc + 2]) == 'r' {
                fc + 3
            } else {
                fc
            }
        } else {
            d
        }
    } else {
        de
    }
}

pub proof fn lemme_apres_prefixe(s: Seq<char>, de: int)
    requires
        0 <= de <= s.len(),
    ensures
        de <= apres_prefixe(s, de) <= s.len(),
{
    if de + 4 <= s.len() {
        lemme_apres_codes(s, de + 4);
    }
}

/// Le texte normalisé contient une mention de brouillon.
pub open spec fn mention_brouillon(s: Seq<char>) -> bool {
    let n = texte::basicize_spec(s);
    texte::contient_spec(n, "provisoire"@) || texte::contient_spec(n, "temporaire"@)
        || texte::contient_spec(n, "version"@)
}

/// Première parenthèse ouvrante de `[de, fin)` dont le contenu, jusqu'à
/// la fin exclue de la parenthèse fermante finale, porte une mention de
/// brouillon ; ou `fin`.
pub open spec fn premier_qualif(s: Seq<char>, de: int, fin: int) -> int
    decreases fin - de,
{
    if de < 0 || de >= fin || fin > s.len() {
        fin
    } else if s[de] == '(' && de < fin - 1 && mention_brouillon(s.subrange(de + 1, fin - 1)) {
        de
    } else {
        premier_qualif(s, de + 1, fin)
    }
}

pub proof fn lemme_premier_qualif(s: Seq<char>, de: int, fin: int)
    requires
        0 <= de <= fin <= s.len(),
    ensures
        de <= premier_qualif(s, de, fin) <= fin,
        premier_qualif(s, de, fin) < fin ==> s[premier_qualif(s, de, fin)] == '('
            && premier_qualif(s, de, fin) < fin - 1 && mention_brouillon(
            s.subrange(premier_qualif(s, de, fin) + 1, fin - 1),
        ),
        forall|k: int|
            de <= k < premier_qualif(s, de, fin) ==> !(s[k] == '(' && k < fin - 1
                && mention_brouillon(s.subrange(k + 1, fin - 1))),
    decreases fin - de,
{
    if de < fin && !(s[de] == '(' && de < fin - 1 && mention_brouillon(
        s.subrange(de + 1, fin - 1),
    )) {
        lemme_premier_qualif(s, de + 1, fin);
    }
}

/// Fin du titre une fois la mention de brouillon finale ôtée : si le
/// titre se termine par `)` et qu'une parenthèse ouvrante porte la
/// mention, la coupe se fait à cette parenthèse.
pub open spec fn coupe_brouillon(s: Seq<char>, de: int, fin: int) -> int {
    if de < fin && s[fin - 1] == ')' && premier_qualif(s, de, fin) < fin {
        premier_qualif(s, de, fin)
    } else {
        fin
    }
}

/// Le titre affiché extrait d'un titre brut : marqueurs de tête, préfixe
/// de code et ponctuation de tête ôtés, puis ponctuation de queue,
/// mention de brouillon finale et ponctuation de queue à nouveau.
pub open spec fn titre_net_spec(s: Seq<char>) -> Seq<char> {
    let debut = apres_tete(s, apres_prefixe(s, apres_groupes(s, 0)));
    let f1 = avant_queue(s, s.len() as int);
    if debut <= f1 {
        let f2 = coupe_brouillon(s, debut, f1);
        let f3 = avant_queue(s, f2);
        if debut <= f3 {
            s.subrange(debut, f3)
        } else {
            Seq::empty()
        }
    } else {
        Seq::empty()
    }
}

fn blanc_exec(c: char) -> (r: bool)
    ensures
        r == est_blanc(c),
{
    c == ' ' || c == '\t' || c == '\n' || c == '\r'
}

fn sep_groupe_exec(c: char) -> (r: bool)
    ensures
        r == est_sep_groupe(c),
{
    blanc_exec(c) || c == '/' || c == '\\' || c == '-'
}

fn sep_tete_exec(c: char) -> (r: bool)
    ensures
        r == est_sep_tete(c),
{
    blanc_exec(c) || c == ':' || c == '-' || c == '"'
}

fn queue_exec(c: char) -> (r: bool)
    ensures
        r == est_queue(c),
{
    blanc_exec(c) || c == '"' || c == '.'
}

fn code_exec(c: char) -> (r: bool)
    ensures
        r == est_code(c),
{
    ('0' <= c && c <= '9') || c == 'X' || c == 'Y' || c == 'x' || c == 'y' || c == '#' || c == '?'
        || c == '█'
}

fn sauter_blancs(s: &str, de: usize, n: usize) -> (r: usize)
    requires
        n == s@.len(),
        de <= n,
    ensures
        r as int == apres_blancs(s@, de as int),
        de <= r <= n,
{
    let mut i: usize = de;
    while i < n && blanc_exec(s.get_char(i))
        invariant
            n == s@.len(),
            de <= i <= n,
            forall|k: int| de <= k < i ==> est_blanc(s@[k]),
        decreases n - i,
    {
        i = i + 1;
    }
    proof {
        lemme_apres_blancs(s@, de as int);
        assert(apres_blancs(s@, de as int) == i as int) by {
            if apres_blancs(s@, de as int) < i as int {
                assert(!est_blanc(s@[apres_blancs(s@, de as int)]));
            }
            if i < n && apres_blancs(s@, de as int) > i as int {
                assert(est_blanc(s@[i as int]));
            }
        }
    }
    i
}

fn sauter_seps(s: &str, de: usize, n: usize) -> (r: usize)
    requires
        n == s@.len(),
        de <= n,
    ensures
        r as int == apres_seps(s@, de as int),
        de <= r <= n,
{
    let mut i: usize = de;
    while i < n && sep_groupe_exec(s.get_char(i))
        invariant
            n == s@.len(),
            de <= i <= n,
            forall|k: int| de <= k < i ==> est_sep_groupe(s@[k]),
        decreases n - i,
    {
        i = i + 1;
    }
    proof {
        lemme_apres_seps(s@, de as int);
        assert(apres_seps(s@, de as int) == i as int) by {
            if apres_seps(s@, de as int) < i as int {
                assert(!est_sep_groupe(s@[apres_seps(s@, de as int)]));
            }
            if i < n && apres_seps(s@, de as int) > i as int {
                assert(est_sep_groupe(s@[i as int]));
            }
        }
    }
    i
}

fn sauter_tete(s: &str, de: usize, n: usize) -> (r: usize)
    requires
        n == s@.len(),
        de <= n,
    ensures
        r as int == apres_tete(s@, de as int),
        de <= r <= n,
{
    let mut i: usize = de;
    while i < n && sep_tete_exec(s.get_char(i))
        invariant
            n == s@.len(),
            de <= i <= n,
            forall|k: int| de <= k < i ==> est_sep_tete(s@[k]),
        decreases n - i,
    {
        i = i + 1;
    }
    proof {
        lemme_apres_tete(s@, de as int);
        assert(apres_tete(s@, de as int) == i as int) by {
            if apres_tete(s@, de as int) < i as int {
                assert(!est_sep_tete(s@[apres_tete(s@, de as int)]));
            }
            if i < n && apres_tete(s@, de as int) > i as int {
                assert(est_sep_tete(s@[i as int]));
            }
        }
    }
    i
}

fn sauter_codes(s: &str, de: usize, n: usize) -> (r: usize)
    requires
        n == s@.len(),
        de <= n,
    ensures
        r as int == apres_codes(s@, de as int),
        de <= r <= n,
{
    let mut i: usize = de;
    while i < n && code_exec(s.get_char(i))
        invariant
            n == s@.len(),
            de <= i <= n,
            forall|k: int| de <= k < i ==> est_code(s@[k]),
        decreases n - i,
    {
        i = i + 1;
    }
    proof {
        lemme_apres_codes(s@, de as int);
        assert(apres_codes(s@, de as int) == i as int) by {
            if apres_codes(s@, de as int) < i as int {
                assert(!est_code(s@[apres_codes(s@, de as int)]));
            }
            if i < n && apres_codes(s@, de as int) > i as int {
                assert(est_code(s@[i as int]));
            }
        }
    }
    i
}

fn reculer_queue(s: &str, fin: usize, n: usize) -> (r: usize)
    requires
        n == s@.len(),
        fin <= n,
    ensures
        r as int == avant_queue(s@, fin as int),
        r <= fin,
{
    let mut i: usize = fin;
    while i > 0 && queue_exec(s.get_char(i - 1))
        invariant
            n == s@.len(),
            i <= fin <= n,
            forall|k: int| i <= k < fin ==> est_queue(s@[k]),
        decreases i,
    {
        i = i - 1;
    }
    proof {
        lemme_avant_queue(s@, fin as int);
        assert(avant_queue(s@, fin as int) == i as int) by {
            if avant_queue(s@, fin as int) > i as int {
                assert(!est_queue(s@[avant_queue(s@, fin as int) - 1]));
            }
            if i > 0 && avant_queue(s@, fin as int) < i as int {
                assert(est_queue(s@[i - 1]));
            }
        }
    }
    i
}

fn chercher_borne(s: &str, de: usize, n: usize) -> (r: usize)
    requires
        n == s@.len(),
        de <= n,
    ensures
        r as int == premier_borne(s@, de as int),
        de <= r <= n,
{
    let mut i: usize = de;
    while i < n && s.get_char(i) != '[' && s.get_char(i) != ']' && s.get_char(i) != ')'
        invariant
            n == s@.len(),
            de <= i <= n,
            forall|k: int| de <= k < i ==> s@[k] != '[' && s@[k] != ']' && s@[k] != ')',
        decreases n - i,
    {
        i = i + 1;
    }
    proof {
        lemme_premier_borne(s@, de as int);
        assert(premier_borne(s@, de as int) == i as int) by {
            if premier_borne(s@, de as int) < i as int {
                let p = premier_borne(s@, de as int);
                assert(s@[p] != '[' && s@[p] != ']' && s@[p] != ')');
            }
        }
    }
    i
}

fn sauter_groupes(s: &str, de: usize, n: usize) -> (r: usize)
    requires
        n == s@.len(),
        de <= n,
    ensures
        r as int == apres_groupes(s@, de as int),
        de <= r <= n,
    decreases n - de,
{
    let b = sauter_blancs(s, de, n);
    if b < n && (s.get_char(b) == '[' || s.get_char(b) == '(') {
        let f = chercher_borne(s, b + 1, n);
        if f < n && s.get_char(f) != '[' {
            let suite = sauter_seps(s, f + 1, n);
            sauter_groupes(s, suite, n)
        } else {
            de
        }
    } else {
        de
    }
}

fn sauter_prefixe(s: &str, de: usize, n: usize) -> (r: usize)
    requires
        n == s@.len(),
        de <= n,
    ensures
        r as int == apres_prefixe(s@, de as int),
        de <= r <= n,
{
    if n - de >= 3 && texte::basique_car(s.get_char(de)) == 's' && texte::basique_car(
        s.get_char(de + 1),
    ) == 'c' && texte::basique_car(s.get_char(de + 2)) == 'p' {
        let d = de + 3;
        if d < n && (s.get_char(d) == '-' || blanc_exec(s.get_char(d))) && n - d >= 2 && code_exec(
            s.get_char(d + 1),
        ) {
            let fc = sauter_codes(s, d + 1, n);
            if fc < n && n - fc > 2 && (s.get_char(fc) == '-' || blanc_exec(s.get_char(fc)))
                && texte::basique_car(s.get_char(fc + 1)) == 'f' && texte::basique_car(
                s.get_char(fc + 2),
            ) == 'r' {
                fc + 3
            } else {
                fc
            }
        } else {
            d
        }
    } else {
        de
    }
}

/// Le texte normalisé porte une mention de brouillon.
fn brouillon_exec(s: &str) -> (r: bool)
    ensures
        r == mention_brouillon(s@),
{
    let n = texte::basicize(s);
    texte::contient(n.as_str(), "provisoire") || texte::contient(n.as_str(), "temporaire")
        || texte::contient(n.as_str(), "version")
}

fn chercher_qualif(s: &str, de: usize, fin: usize, n: usize) -> (r: usize)
    requires
        n == s@.len(),
        de <= fin <= n,
    ensures
        r as int == premier_qualif(s@, de as int, fin as int),
        de <= r <= fin,
{
    let mut i: usize = de;
    proof {
        lemme_premier_qualif(s@, de as int, fin as int);
    }
    while i < fin
        invariant
            n == s@.len(),
            de <= i <= fin <= n,
            forall|k: int|
                de <= k < i ==> !(s@[k] == '(' && k < fin - 1 && mention_brouillon(
                    s@.subrange(k + 1, fin - 1),
                )),
        decreases fin - i,
    {
        if s.get_char(i) == '(' && i < fin - 1 && brouillon_exec(
            s.substring_char(i + 1, fin - 1),
        ) {
            proof {
                lemme_premier_qualif(s@, de as int, fin as int);
                assert(s@[i as int] == '(' && i < fin - 1 && mention_brouillon(
                    s@.subrange(i + 1, fin - 1),
                ));
                assert(premier_qualif(s@, de as int, fin as int) == i as int) by {
                    let p = premier_qualif(s@, de as int, fin as int);
                    if p < i as int {
                        assert(!(s@[p] == '(' && p < fin - 1 && mention_brouillon(
                            s@.subrange(p + 1, fin - 1),
                        )));
                    }
                }
            }
            return i;
        }
        i = i + 1;
    }
    proof {
        lemme_premier_qualif(s@, de as int, fin as int);
        assert(premier_qualif(s@, de as int, fin as int) == fin as int) by {
            let p = premier_qualif(s@, de as int, fin as int);
            if p < fin as int {
                assert(s@[p] == '(' && p < fin - 1 && mention_brouillon(
                    s@.subrange(p + 1, fin - 1),
                ));
            }
        }
    }
    fin
}

/// Nettoie un titre brut : marqueurs de tête, préfixe de code,
/// ponctuation et mention de brouillon finale ôtés.
pub fn titre_net(s: &str) -> (r: String)
    ensures
        r@ == titre_net_spec(s@),
{
    let n = s.unicode_len();
    let g = sauter_groupes(s, 0, n);
    let p = sauter_prefixe(s, g, n);
    let debut = sauter_tete(s, p, n);
    let f1 = reculer_queue(s, n, n);
    if debut <= f1 {
        let q = chercher_qualif(s, debut, f1, n);
        let f2: usize = if f1 > 0 && s.get_char(f1 - 1) == ')' && q < f1 {
            q
        } else {
            f1
        };
        let f3 = reculer_queue(s, f2, n);
        if debut <= f3 {
            String::from_str(s.substring_char(debut, f3))
        } else {
            String::new()
        }
    } else {
        String::new()
    }
}

/// Premier indice `>= de` d'un `]` dans `[de, fin)`, en partant de la
/// fin ; `de - 1` si aucun.
pub open spec fn dernier_ferme(s: Seq<char>, de: int, fin: int) -> int
    decreases fin,
{
    if de < 0 || fin <= de || fin > s.len() {
        de - 1
    } else if s[fin - 1] == ']' {
        fin - 1
    } else {
        dernier_ferme(s, de, fin - 1)
    }
}

pub proof fn lemme_dernier_ferme(s: Seq<char>, de: int, fin: int)
    requires
        0 <= de <= fin <= s.len(),
    ensures
        de - 1 <= dernier_ferme(s, de, fin) < fin,
        dernier_ferme(s, de, fin) >= de ==> s[dernier_ferme(s, de, fin)] == ']',
        forall|k: int| dernier_ferme(s, de, fin) < k < fin ==> s[k] != ']',
    decreases fin,
{
    if de < fin && s[fin - 1] != ']' {
        lemme_dernier_ferme(s, de, fin - 1);
    }
}

/// Contenus des marqueurs `[...]` du titre, de gauche à droite : chaque
/// marqueur va d'un crochet ouvrant au dernier crochet fermant avant le
/// crochet ouvrant suivant.
pub open spec fn balises_depuis(s: Seq<char>, de: int) -> Seq<Seq<char>>
    decreases s.len() - de,
{
    let p = texte::premier_index(s, '[', de);
    if 0 <= de && de <= p && p < s.len() {
        let lim = texte::premier_index(s, '[', p + 1);
        if p + 1 <= lim && lim <= s.len() {
            let q = dernier_ferme(s, p + 1, lim);
            if p + 1 <= q && q < lim {
                seq![s.subrange(p + 1, q)] + balises_depuis(s, q + 1)
            } else {
                balises_depuis(s, lim)
            }
        } else {
            Seq::empty()
        }
    } else {
        Seq::empty()
    }
}

/// Type indiqué par un marqueur, d'après ses racines normalisées.
pub open spec fn racine_type(b: Seq<char>) -> Option<Type> {
    let n = texte::basicize_spec(b);
    if texte::contient_spec(n, "idee"@) {
        Some(Type::Idee)
    } else if texte::contient_spec(n, "conte"@) || texte::contient_spec(n, "serie"@) {
        Some(Type::Conte)
    } else if texte::contient_spec(n, "format"@) {
        Some(Type::FormatGdi)
    } else {
        None
    }
}

/// Type d'après une liste de marqueurs : le dernier marqueur reconnu
/// l'emporte ; aucun marqueur reconnu donne un rapport.
pub open spec fn type_des_balises(bs: Seq<Seq<char>>) -> Type
    decreases bs.len(),
{
    if bs.len() == 0 {
        Type::Rapport
    } else {
        match racine_type(bs.last()) {
            Some(t) => t,
            None => type_des_balises(bs.drop_last()),
        }
    }
}

/// Type d'un titre brut, d'après ses marqueurs.
pub open spec fn type_du_titre_spec(s: Seq<char>) -> Type {
    type_des_balises(balises_depuis(s, 0))
}

fn racine_exec(b: &str) -> (r: Option<Type>)
    ensures
        r == racine_type(b@),
{
    let n = texte::basicize(b);
    if texte::contient(n.as_str(), "idee") {
        Some(Type::Idee)
    } else if texte::contient(n.as_str(), "conte") || texte::contient(n.as_str(), "serie") {
        Some(Type::Conte)
    } else if texte::contient(n.as_str(), "format") {
        Some(Type::FormatGdi)
    } else {
        None
    }
}

fn chercher_ouvrant(s: &str, de: usize, n: usize) -> (r: usize)
    requires
        n == s@.len(),
        de <= n,
    ensures
        r as int == texte::premier_index(s@, '[', de as int),
        de <= r <= n,
{
    let mut i: usize = de;
    while i < n && s.get_char(i) != '['
        invariant
            n == s@.len(),
            de <= i <= n,
            forall|k: int| de <= k < i ==> s@[k] != '[',
        decreases n - i,
    {
        i = i + 1;
    }
    proof {
        texte::lemme_premier_index(s@, '[', de as int);
        assert(texte::premier_index(s@, '[', de as int) == i as int) by {
            if texte::premier_index(s@, '[', de as int) < i as int {
                assert(s@[texte::premier_index(s@, '[', de as int)] == '[');
            }
        }
    }
    i
}

fn chercher_ferme(s: &str, de: usize, fin: usize, n: usize) -> (r: Option<usize>)
    requires
        n == s@.len(),
        de <= fin <= n,
    ensures
        match r {
            Some(q) => q as int == dernier_ferme(s@, de as int, fin as int) && de <= q < fin,
            None => dernier_ferme(s@, de as int, fin as int) == de - 1,
        },
{
    let mut i: usize = fin;
    while i > de && s.get_char(i - 1) != ']'
        invariant
            n == s@.len(),
            de <= i <= fin <= n,
            forall|k: int| i <= k < fin ==> s@[k] != ']',
        decreases i,
    {
        i = i - 1;
    }
    proof {
        lemme_dernier_ferme(s@, de as int, fin as int);
        let q = dernier_ferme(s@, de as int, fin as int);
        if i > de {
            assert(s@[i - 1] == ']');
            assert(q == i - 1) by {
                if q > i as int - 1 {
                    assert(s@[q] != ']');
                }
                if q < i as int - 1 {
                    assert(s@[i - 1] != ']');
                }
            }
        } else {
            assert(q == de - 1) by {
                if q >= de as int {
                    assert(s@[q] == ']');
                    assert(s@[q] != ']');
                }
            }
        }
    }
    if i > de {
        Some(i - 1)
    } else {
        None
    }
}

/// Type indiqué par les marqueurs, si l'un d'eux est reconnu : le
/// dernier reconnu l'emporte.
pub open spec fn type_opt(bs: Seq<Seq<char>>) -> Option<Type>
    decreases bs.len(),
{
    if bs.len() == 0 {
        None
    } else {
        match racine_type(bs.last()) {
            Some(t) => Some(t),
            None => type_opt(bs.drop_last()),
        }
    }
}

proof fn lemme_type_opt(bs: Seq<Seq<char>>)
    ensures
        type_des_balises(bs) == match type_opt(bs) {
            Some(t) => t,
            None => Type::Rapport,
        },
    decreases bs.len(),
{
    if bs.len() > 0 {
        lemme_type_opt(bs.drop_last());
    }
}

proof fn lemme_type_opt_concat(tete: Seq<Seq<char>>, queue: Seq<Seq<char>>)
    ensures
        type_opt(tete + queue) == match type_opt(queue) {
            Some(t) => Some(t),
            None => type_opt(tete),
        },
    decreases queue.len(),
{
    if queue.len() == 0 {
        assert(tete + queue =~= tete);
    } else {
        assert((tete + queue).last() == queue.last());
        assert((tete + queue).drop_last() =~= tete + queue.drop_last());
        lemme_type_opt_concat(tete, queue.drop_last());
    }
}

fn type_opt_depuis(s: &str, de: usize, n: usize) -> (r: Option<Type>)
    requires
        n == s@.len(),
        de <= n,
    ensures
        r == type_opt(balises_depuis(s@, de as int)),
    decreases n - de,
{
    let p = chercher_ouvrant(s, de, n);
    if p < n {
        let lim = chercher_ouvrant(s, p + 1, n);
        match chercher_ferme(s, p + 1, lim, n) {
            Some(q) => {
                let contenu = s.substring_char(p + 1, q);
                let reste = type_opt_depuis(s, q + 1, n);
                proof {
                    assert(balises_depuis(s@, de as int) == seq![s@.subrange(p + 1, q as int)]
                        + balises_depuis(s@, q + 1));
                    lemme_type_opt_concat(
                        seq![s@.subrange(p + 1, q as int)],
                        balises_depuis(s@, q + 1),
                    );
                    assert(seq![s@.subrange(p + 1, q as int)].last() == s@.subrange(
                        p + 1,
                        q as int,
                    ));
                    assert(seq![s@.subrange(p + 1, q as int)].drop_last() =~= Seq::<
                        Seq<char>,
                    >::empty());
                    assert(type_opt(Seq::<Seq<char>>::empty()) is None);
                    assert(type_opt(seq![s@.subrange(p + 1, q as int)]) == racine_type(
                        s@.subrange(p + 1, q as int),
                    ));
                }
                match reste {
                    Some(t) => Some(t),
                    None => racine_exec(contenu),
                }
            },
            None => type_opt_depuis(s, lim, n),
        }
    } else {
        None
    }
}

/// Type d'un titre brut : le dernier marqueur `[...]` reconnu l'emporte,
/// et un titre sans marqueur reconnu donne un rapport.
pub fn type_du_titre(s: &str) -> (r: Type)
    ensures
        r == type_du_titre_spec(s@),
{
    let n = s.unicode_len();
    proof {
        lemme_type_opt(balises_depuis(s@, 0));
    }
    match type_opt_depuis(s, 0, n) {
        Some(t) => t,
        None => Type::Rapport,
    }
}

} // verus!
