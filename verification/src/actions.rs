//! Les actions du joueur qui peuvent débloquer un succès : ouvrir un biome,
//! livrer un contrat, exposer une pièce, migrer. Quand l'action passe, les
//! succès sont examinés aussitôt après, et ceux qui viennent d'être remplis
//! paient leur prime.

use vstd::prelude::*;
use crate::catalogue::{COUT_BIOMES, NB_ESPECES};
use crate::partie::{
    Partie, Expo, bien_formee, gain_possible, apres_gain, terrain_neuf, livrable, trophees, cout_migration,
    apres_migration, NB_BIOMES, LAB_AILES, LABO_MAX,
};
use crate::reserve::{retrait, retire, casier, plus_haut_de_deux};
use crate::succes::{examen, NB_SUCCES, SOMME_RECOMPENSES};

verus! {

/// Une action du joueur suivie de l'examen des succès.
#[derive(Clone, Copy, Debug, PartialEq, Eq)]
pub enum Action {
    /// Ouvrir le biome `b`.
    Debloquer(usize),
    /// Livrer le contrat `idx` : `qty` spécimens de l'espèce `ci`, contre
    /// `reward` écus.
    Livrer { idx: usize, ci: usize, qty: u64, reward: u64 },
    /// Exposer dans la salle `slot` le meilleur spécimen de l'espèce `ci`.
    Exposer { slot: usize, ci: usize, shiny: bool },
    /// Migrer.
    Migrer,
}

/// La partie `f` est la partie `m` après l'examen des succès : ceux qui
/// viennent d'être remplis se débloquent et paient leur prime.
pub open spec fn examinee(m: Partie, f: Partie) -> bool {
    let (ach, total) = examen(m, NB_SUCCES as int);
    &&& f.ach@ == ach
    &&& f.total_earned == total
    &&& f.ecus == m.ecus + (total - m.total_earned)
    &&& f.run_earned == m.run_earned + (total - m.total_earned)
    &&& f == (Partie { ach: f.ach, total_earned: f.total_earned, ecus: f.ecus, run_earned: f.run_earned, ..m })
}

/// L'action `a` est permise dans la partie `p`.
pub open spec fn permise(p: Partie, a: Action) -> bool {
    match a {
        Action::Debloquer(b) => b < 11 && p.biomes@[b as int] is None && p.ecus >= COUT_BIOMES@[b as int],
        Action::Livrer { idx, ci, qty, reward } => !p.contracts_done@[idx as int] && qty <= livrable(p.inv@[ci as int]),
        Action::Exposer { slot, ci, shiny } => {
            let r = p.inv@[ci as int];
            slot < 6 + p.lab@[LAB_AILES as int] && p.museum@[slot as int] is None
                && plus_haut_de_deux(r@[casier(shiny, 0)], r@[casier(shiny, 1)]) is Some
        },
        Action::Migrer => trophees(p.run_earned as int) >= 1 && p.ecus >= cout_migration(p.migrations as int),
    }
}

/// La partie `m` est la partie `p` où l'action permise `a` a eu lieu.
pub open spec fn effet(p: Partie, m: Partie, a: Action) -> bool {
    match a {
        Action::Debloquer(b) => {
            &&& m.ecus == p.ecus - COUT_BIOMES@[b as int]
            &&& m.biomes@[b as int] matches Some(t) && terrain_neuf(t)
            &&& m.biomes@ == p.biomes@.update(b as int, m.biomes@[b as int])
            &&& m == (Partie { ecus: m.ecus, biomes: m.biomes, ..p })
        },
        Action::Livrer { idx, ci, qty, reward } => {
            &&& exists|pris: Seq<u64>| retrait(p.inv@[ci as int], m.inv@[ci as int], 1, qty as int, pris)
            &&& m.inv@ == p.inv@.update(ci as int, m.inv@[ci as int])
            &&& m.contracts_done@ == p.contracts_done@.update(idx as int, true)
            &&& m == (Partie {
                inv: m.inv,
                contracts_done: m.contracts_done,
                contracts_delivered: (p.contracts_delivered + 1) as u64,
                ..apres_gain(p, reward as int)
            })
        },
        Action::Exposer { slot, ci, shiny } => {
            let a = p.inv@[ci as int];
            let r = plus_haut_de_deux(a@[casier(shiny, 0)], a@[casier(shiny, 1)])->0;
            let s: u8 = if a@[casier(shiny, 0)][r] >= a@[casier(shiny, 1)][r] { 0u8 } else { 1u8 };
            &&& m.inv@[ci as int]@ == retire(a@, casier(shiny, s), r)
            &&& m.inv@ == p.inv@.update(ci as int, m.inv@[ci as int])
            &&& m.museum@ == p.museum@.update(slot as int, Some(Expo { ci, rank: r as usize, shiny, sex: s }))
            &&& m == (Partie { inv: m.inv, museum: m.museum, ..p })
        },
        Action::Migrer => apres_migration(p, m, trophees(p.run_earned as int)),
    }
}

/// Ce que chaque action demande de la partie pour ne rien faire déborder.
pub open spec fn jouable(p: Partie, a: Action) -> bool {
    match a {
        Action::Debloquer(b) => b < NB_BIOMES && bien_formee(p) && gain_possible(p, SOMME_RECOMPENSES as int),
        Action::Livrer { idx, ci, qty, reward } => {
            &&& idx < 3 && ci < NB_ESPECES
            &&& p.inv@[ci as int].spec_tn() <= u64::MAX
            &&& gain_possible(p, reward + SOMME_RECOMPENSES)
            &&& p.contracts_delivered < u64::MAX
        },
        Action::Exposer { slot, ci, shiny } => {
            &&& ci < NB_ESPECES
            &&& p.lab@[LAB_AILES as int] <= LABO_MAX@[LAB_AILES as int]
            &&& gain_possible(p, SOMME_RECOMPENSES as int)
        },
        Action::Migrer => {
            &&& trophees(p.run_earned as int) >= 1 && p.ecus >= cout_migration(p.migrations as int)
                ==> p.trophies + trophees(p.run_earned as int) <= u32::MAX && p.migrations < u32::MAX
            &&& gain_possible(p, SOMME_RECOMPENSES as int)
        },
    }
}

impl Partie {
    /// Joue l'action `a` ; si elle passe, examine aussitôt les succès.
    /// Renvoie vrai si l'action a eu lieu.
    pub fn agir(&mut self, a: Action) -> (ok: bool)
        requires
            jouable(*old(self), a),
        ensures
            ok == permise(*old(self), a),
            ok ==> exists|m: Partie| effet(*old(self), m, a) && #[trigger] examinee(m, *final(self)),
            !ok ==> *final(self) == *old(self),
    {
        let ok = match a {
            Action::Debloquer(b) => self.debloquer(b),
            Action::Livrer { idx, ci, qty, reward } => self.livrer(idx, ci, qty, reward),
            Action::Exposer { slot, ci, shiny } => self.exposer(slot, ci, shiny),
            Action::Migrer => self.migrer().is_some(),
        };
        if ok {
            let ghost m = *self;
            proof {
                assert(effet(*old(self), m, a));
                assert(gain_possible(m, SOMME_RECOMPENSES as int));
            }
            self.check_achievements();
            proof {
                assert(examinee(m, *self));
            }
        }
        ok
    }
}

} // verus!
