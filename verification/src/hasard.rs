//! Le hasard du jeu vient de `rand` : le générateur du fil d'exécution,
//! initialisé par le système, et, pour ce qui doit être le même pour tous
//! pendant une fenêtre de temps (le troc du jour, les contrats), un
//! `StdRng` semé par un entier. Du générateur du fil, rien n'est dit des
//! valeurs tirées que leur intervalle ; un tirage du générateur semé ne
//! dépend que de sa graine et des appels qu'il a déjà reçus.
//! `rand::thread_rng` panique si le système ne peut pas fournir sa graine :
//! c'est une panne de la machine, pas une entrée.

use vstd::prelude::*;
use rand::Rng;
use rand::SeedableRng;
use rand::rngs::StdRng;

verus! {

/// Tire un entier uniformément dans `0..n` avec `rand::thread_rng()` et
/// `Rng::gen_range`, qui panique sur un intervalle vide (d'où `n > 0`). Le
/// contrat ne promet que l'intervalle : la valeur dépend du hasard.
#[verifier::external_body]
pub(crate) fn tirer_sous(n: u32) -> (r: u32)
    requires
        n > 0,
    ensures
        r < n,
{
    rand::thread_rng().gen_range(0..n)
}

/// Tire pile ou face avec `rand::thread_rng()` et `Rng::gen::<bool>()`. Le
/// résultat dépend du hasard : rien n'en est promis.
#[verifier::external_body]
pub(crate) fn pile_ou_face() -> (b: bool) {
    rand::thread_rng().gen::<bool>()
}

/// Le générateur semé de `rand` : opaque, on ne fait que le passer.
#[verifier::external_type_specification]
#[verifier::external_body]
pub struct ExStdRng(rand::rngs::StdRng);

/// Ce que rend le dernier des appels `appels` à `Rng::gen_range(lo..=hi)`
/// (entiers `u64`) sur un `StdRng` semé par `SeedableRng::seed_from_u64(graine)`,
/// quand ce générateur a reçu ces appels-là, dans cet ordre, et aucun autre.
pub uninterp spec fn tirage(graine: u64, appels: Seq<(u64, u64)>) -> u64;

/// Un générateur semé, avec ce qu'on en sait : sa graine et les appels
/// qu'il a reçus. Seules les fonctions de ce module le créent et le font
/// tirer.
pub struct Generateur {
    rng: StdRng,
    graine: Ghost<u64>,
    appels: Ghost<Seq<(u64, u64)>>,
}

impl Generateur {
    /// La graine du générateur.
    pub closed spec fn graine(&self) -> u64 {
        self.graine@
    }

    /// Les intervalles déjà demandés au générateur, dans l'ordre.
    pub closed spec fn appels(&self) -> Seq<(u64, u64)> {
        self.appels@
    }
}

/// Un générateur `StdRng` semé par `SeedableRng::seed_from_u64(x)`, qui
/// n'a encore rien tiré.
#[verifier::external_body]
pub(crate) fn graine(x: u64) -> (g: Generateur)
    ensures
        g.graine() == x,
        g.appels() == Seq::<(u64, u64)>::empty(),
{
    Generateur { rng: StdRng::seed_from_u64(x), graine: Ghost(x), appels: Ghost(Seq::empty()) }
}

/// Tire un entier de `lo..=hi` avec `Rng::gen_range` sur le générateur
/// semé, qui panique si l'intervalle est vide (d'où `lo <= hi`). Le tirage
/// ne dépend que de la graine et des appels reçus : c'est `tirage`, et il
/// tombe dans l'intervalle.
#[verifier::external_body]
pub(crate) fn tirer(g: &mut Generateur, lo: u64, hi: u64) -> (r: u64)
    requires
        lo <= hi,
    ensures
        r == tirage(old(g).graine(), old(g).appels().push((lo, hi))),
        lo <= r <= hi,
        final(g).graine() == old(g).graine(),
        final(g).appels() == old(g).appels().push((lo, hi)),
{
    let r = g.rng.gen_range(lo..=hi);
    g.appels = Ghost(g.appels@.push((lo, hi)));
    r
}

} // verus!
