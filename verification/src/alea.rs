//! Tirage aléatoire pour le choix d'un écrit au hasard.

use vstd::prelude::*;

verus! {

/// S'appuie sur `rand::rngs::ThreadRng` et `rand::Rng::gen_range` : un
/// indice tiré sous `n`. Rien d'autre n'est promis du tirage.
#[verifier::external_body]
pub(crate) fn indice_aleatoire(n: usize) -> (r: usize)
    requires
        n > 0,
    ensures
        r < n,
{
    rand::Rng::gen_range(&mut rand::thread_rng(), 0..n)
}

} // verus!
