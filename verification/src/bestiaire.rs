//! Le registre du bestiaire : pour chaque espèce, les totaux à vie, le
//! meilleur rang vu (normal et shiny) et les sexes observés ; et l'arrivée
//! d'un spécimen en réserve (capture, naissance, troc, légende).

use vstd::prelude::*;
use crate::reserve::{Reserve, ajoute, casier};
use crate::hasard::pile_ou_face;

verus! {

/// La fiche d'une espèce au registre. `best` et `bests` valent 0 si l'espèce
/// (ou son shiny) n'a jamais été vue, sinon rang + 1 ; `mf` porte un bit par
/// sexe observé (1 : mâle, 2 : femelle).
#[derive(Clone, Copy, Debug, PartialEq, Eq)]
pub struct Fiche {
    pub n: u64,
    pub s: u64,
    pub best: u8,
    pub bests: u8,
    pub mf: u8,
}

pub open spec fn max_u8(a: u8, b: int) -> u8 {
    if a >= b { a } else { b as u8 }
}

/// La fiche après l'arrivée d'un spécimen.
pub open spec fn fiche_apres(f: Fiche, shiny: bool, rang: int, sexe: u8) -> Fiche {
    Fiche {
        n: (f.n + 1) as u64,
        s: if shiny { (f.s + 1) as u64 } else { f.s },
        best: max_u8(f.best, rang + 1),
        bests: if shiny { max_u8(f.bests, rang + 1) } else { f.bests },
        mf: if sexe == 0 { f.mf | 1u8 } else { f.mf | 2u8 },
    }
}

impl Fiche {
    /// Une fiche vierge : espèce jamais vue.
    pub fn vierge() -> (f: Fiche)
        ensures
            f == (Fiche { n: 0, s: 0, best: 0, bests: 0, mf: 0 }),
    {
        Fiche { n: 0, s: 0, best: 0, bests: 0, mf: 0 }
    }

    /// Enregistre un spécimen de rang `rang` et de sexe `sexe` : il entre en
    /// réserve et au registre. Renvoie (nouvelle espèce, nouveau shiny).
    pub fn enregistrer(&mut self, inv: &mut Reserve, shiny: bool, rang: usize, sexe: u8) -> (res: (bool, bool))
        requires
            rang < 4,
            old(self).n < u64::MAX,
            old(self).s < u64::MAX,
            old(inv)@[casier(shiny, sexe)][rang as int] < u64::MAX,
        ensures
            res.0 == (old(self).n == 0),
            res.1 == (shiny && old(self).s == 0),
            *final(self) == fiche_apres(*old(self), shiny, rang as int, sexe),
            final(inv)@ == ajoute(old(inv)@, casier(shiny, sexe), rang as int),
    {
        let nouvelle = self.n == 0;
        let nouveau_shiny = shiny && self.s == 0;
        let r1 = (rang + 1) as u8;
        self.n = self.n + 1;
        if shiny {
            self.s = self.s + 1;
            if self.bests < r1 {
                self.bests = r1;
            }
        }
        if self.best < r1 {
            self.best = r1;
        }
        self.mf = if sexe == 0 { self.mf | 1u8 } else { self.mf | 2u8 };
        inv.give_back(shiny, sexe, rang);
        (nouvelle, nouveau_shiny)
    }

    /// Fait entrer un spécimen dont le sexe est tiré à pile ou face.
    /// Renvoie (nouvelle espèce, nouveau shiny, sexe).
    pub fn add_specimen(&mut self, inv: &mut Reserve, shiny: bool, rang: usize) -> (res: (bool, bool, u8))
        requires
            rang < 4,
            old(self).n < u64::MAX,
            old(self).s < u64::MAX,
            old(inv)@[casier(shiny, 0)][rang as int] < u64::MAX,
            old(inv)@[casier(shiny, 1)][rang as int] < u64::MAX,
        ensures
            res.2 == 0 || res.2 == 1,
            res.0 == (old(self).n == 0),
            res.1 == (shiny && old(self).s == 0),
            *final(self) == fiche_apres(*old(self), shiny, rang as int, res.2),
            final(inv)@ == ajoute(old(inv)@, casier(shiny, res.2), rang as int),
    {
        let sexe: u8 = if pile_ou_face() { 0 } else { 1 };
        let (a, b) = self.enregistrer(inv, shiny, rang, sexe);
        (a, b, sexe)
    }
}

/// Le registre ne recule jamais : une arrivée ne fait baisser ni les
/// totaux ni les records, et elle marque l'espèce comme vue.
pub proof fn loi_registre_croissant(f: Fiche, shiny: bool, rang: int, sexe: u8)
    requires
        0 <= rang < 4,
        f.n < u64::MAX,
        f.s < u64::MAX,
    ensures
        fiche_apres(f, shiny, rang, sexe).n == f.n + 1,
        fiche_apres(f, shiny, rang, sexe).s >= f.s,
        fiche_apres(f, shiny, rang, sexe).best >= f.best,
        fiche_apres(f, shiny, rang, sexe).best >= rang + 1,
        fiche_apres(f, shiny, rang, sexe).bests >= f.bests,
{
}

/// Une arrivée compte au registre : le total augmente d'un, le compte de
/// shinies augmente d'un exactement quand l'arrivant est shiny et ne bouge
/// pas sinon ; après un shiny l'espèce est vue en shiny, avec un record
/// shiny au moins égal à son rang, si bien qu'un second shiny n'est plus
/// une nouveauté.
pub proof fn loi_arrivee_compte_les_shinies(f: Fiche, shiny: bool, rang: int, sexe: u8)
    requires
        0 <= rang < 4,
        f.n < u64::MAX,
        f.s < u64::MAX,
    ensures
        fiche_apres(f, shiny, rang, sexe).n == f.n + 1,
        fiche_apres(f, shiny, rang, sexe).s == f.s + (if shiny { 1int } else { 0int }),
        shiny ==> fiche_apres(f, shiny, rang, sexe).s > 0,
        shiny ==> fiche_apres(f, shiny, rang, sexe).bests >= rang + 1,
        !shiny ==> fiche_apres(f, shiny, rang, sexe).bests == f.bests,
        fiche_apres(f, shiny, rang, sexe).best == (if f.best >= rang + 1 { f.best as int } else { rang + 1 }),
{
}

} // verus!
