//! Ce que le puits rend pour une offrande. Le hasard est tiré à part et
//! arrive ici en pour-mille ; la valeur de l'offrande aussi, en écus. Ce
//! qui dort au fond remonte rarement, et d'autant plus volontiers que
//! l'offrande était rare ; sinon le puits rend selon la rareté, et un beau
//! rang pousse le tirage vers le haut.

use vstd::prelude::*;
use crate::catalogue::{RARETE_DES_ESPECES, NB_ESPECES};
use crate::partie::{Partie, gain_possible, apres_gain, arrivee};
use crate::reserve::casier;

verus! {

/// L'espèce qui dort au fond du puits.
pub const ESPECE_DU_PUITS: usize = 132;

/// Ce que le puits rend.
#[derive(Clone, Copy, Debug, PartialEq, Eq)]
pub enum Recompense {
    /// Rien ne remonte.
    Rien,
    /// `n` appâts du type `bt`.
    Appats { bt: usize, n: u64 },
    /// De la monnaie ancienne.
    Ecus(u64),
    /// Une breloque de chance.
    Breloque,
    /// Une licence de piégeage.
    Licence,
    /// Ce qui dort au fond remonte, à ce rang.
    Remontee { rang: usize, shiny: bool },
}

/// La chance, pour mille, que ce qui dort au fond remonte, selon la rareté
/// de l'offrande.
pub open spec fn chance_puisard(r: int) -> int {
    if r == 4 { 80 } else if r == 3 { 30 } else if r == 2 { 10 } else { 3 }
}

/// Le tirage, pour mille, poussé de 80 par rang de l'offrande, sous 999.
pub open spec fn tir_du_puits(rang: int, t: int) -> int {
    if t + 80 * rang < 999 { t + 80 * rang } else { 999 }
}

pub open spec fn au_moins(a: int, b: int) -> int {
    if a >= b { a } else { b }
}

/// Ce que rend le puits quand rien ne remonte du fond : une offrande de
/// rareté `r` et de rang `rang`, qui valait `valeur` écus, au tirage `t`.
pub open spec fn don_du_puits(r: int, rang: int, t: int, valeur: int) -> Recompense {
    let tir = tir_du_puits(rang, t);
    if r <= 1 {
        if tir < 350 {
            Recompense::Rien
        } else if tir < 850 {
            Recompense::Appats { bt: if r == 0 { 0 } else { 1 }, n: (2 + tir * 4 / 1000) as u64 }
        } else {
            Recompense::Ecus(au_moins(valeur * 12, 50) as u64)
        }
    } else if r == 2 {
        if tir < 550 { Recompense::Ecus(au_moins(valeur * 18, 500) as u64) } else { Recompense::Appats { bt: 3, n: 3 } }
    } else if r == 3 {
        if tir < 300 {
            Recompense::Breloque
        } else if tir < 750 {
            Recompense::Ecus((valeur * 20) as u64)
        } else {
            Recompense::Appats { bt: 4, n: 2 }
        }
    } else {
        if tir < 220 { Recompense::Licence } else { Recompense::Breloque }
    }
}

/// La réponse du puits : ce qui dort au fond remonte si le premier tirage
/// `t_fond` passe sous sa chance (au rang tiré `rang_fond`, B au moins),
/// sinon le puits rend selon le second tirage `t`.
pub open spec fn reponse_du_puits(r: int, rang: int, t_fond: int, rang_fond: int, shiny_fond: bool, t: int, valeur: int) -> Recompense {
    if t_fond < chance_puisard(r) {
        Recompense::Remontee { rang: au_moins(rang_fond, 2) as usize, shiny: shiny_fond }
    } else {
        don_du_puits(r, rang, t, valeur)
    }
}

/// La partie `b` est la partie `a` qui a reçu `rec` (le spécimen remonté,
/// s'il y en a un, est de sexe `sexe`).
pub open spec fn apres_recompense(a: Partie, b: Partie, rec: Recompense, sexe: u8) -> bool {
    match rec {
        Recompense::Rien => b == a,
        Recompense::Appats { bt, n } => {
            &&& b.baits@ == a.baits@.update(bt as int, (a.baits@[bt as int] + n) as u64)
            &&& b == (Partie { baits: b.baits, ..a })
        },
        Recompense::Ecus(g) => b == apres_gain(a, g as int),
        Recompense::Breloque => b == (Partie { charms: (a.charms + 1) as u32, ..a }),
        Recompense::Licence => b == (Partie { licences: (a.licences + 1) as u32, ..a }),
        Recompense::Remontee { rang, shiny } => arrivee(a, b, ESPECE_DU_PUITS as int, shiny, rang as int, sexe),
    }
}

/// La chance, pour mille, que ce qui dort au fond remonte pour une offrande
/// de rareté `r`.
pub fn chance_du_puisard(r: u8) -> (c: u64)
    ensures
        c == chance_puisard(r as int),
{
    if r == 4 {
        80
    } else if r == 3 {
        30
    } else if r == 2 {
        10
    } else {
        3
    }
}

impl Partie {
    /// Le puits répond à l'offrande d'un spécimen de l'espèce `ci` au rang
    /// `rang`, qui valait `valeur` écus. `t_fond` et `t` sont deux tirages
    /// pour mille ; `rang_fond` et `shiny_fond`, ce que serait ce qui remonte
    /// du fond. Renvoie la récompense reçue et, s'il y a lieu, le sexe du
    /// spécimen remonté.
    pub fn recompense_du_puits(
        &mut self,
        ci: usize,
        rang: usize,
        t_fond: u64,
        rang_fond: usize,
        shiny_fond: bool,
        t: u64,
        valeur: u64,
    ) -> (res: (Recompense, u8))
        requires
            ci < NB_ESPECES,
            rang < 4,
            rang_fond < 4,
            t < 1000,
            gain_possible(*old(self), 20 * valeur + 500),
            forall|k: int| 0 <= k < 5 ==> old(self).baits@[k] + 5 <= u64::MAX,
            old(self).charms < u32::MAX,
            old(self).licences < u32::MAX,
            old(self).dex[ESPECE_DU_PUITS as int].n < u64::MAX,
            old(self).dex[ESPECE_DU_PUITS as int].s < u64::MAX,
            forall|s: u8, r: int| (s == 0 || s == 1) && 2 <= r < 4
                ==> #[trigger] old(self).inv[ESPECE_DU_PUITS as int]@[casier(shiny_fond, s)][r] < u64::MAX,
            old(self).captures < u64::MAX,
            old(self).shinies < u64::MAX,
        ensures
            res.0 == reponse_du_puits(RARETE_DES_ESPECES@[ci as int] as int, rang as int, t_fond as int,
                rang_fond as int, shiny_fond, t as int, valeur as int),
            apres_recompense(*old(self), *final(self), res.0, res.1),
    {
        let r = RARETE_DES_ESPECES[ci];
        if t_fond < chance_du_puisard(r) {
            let rg = if rang_fond < 2 { 2 } else { rang_fond };
            proof {
                assert(self.inv[ESPECE_DU_PUITS as int]@[casier(shiny_fond, 0)][rg as int] < u64::MAX);
                assert(self.inv[ESPECE_DU_PUITS as int]@[casier(shiny_fond, 1)][rg as int] < u64::MAX);
            }
            let (_, _, sexe) = self.ajouter_specimen(ESPECE_DU_PUITS, shiny_fond, rg);
            return (Recompense::Remontee { rang: rg, shiny: shiny_fond }, sexe);
        }
        let brut = t + 80 * rang as u64;
        let tir: u64 = if brut < 999 { brut } else { 999 };
        let rec = if r <= 1 {
            if tir < 350 {
                Recompense::Rien
            } else if tir < 850 {
                Recompense::Appats { bt: if r == 0 { 0 } else { 1 }, n: 2 + tir * 4 / 1000 }
            } else {
                let g = valeur * 12;
                Recompense::Ecus(if g >= 50 { g } else { 50 })
            }
        } else if r == 2 {
            if tir < 550 {
                let g = valeur * 18;
                Recompense::Ecus(if g >= 500 { g } else { 500 })
            } else {
                Recompense::Appats { bt: 3, n: 3 }
            }
        } else if r == 3 {
            if tir < 300 {
                Recompense::Breloque
            } else if tir < 750 {
                Recompense::Ecus(valeur * 20)
            } else {
                Recompense::Appats { bt: 4, n: 2 }
            }
        } else {
            if tir < 220 { Recompense::Licence } else { Recompense::Breloque }
        };
        match rec {
            Recompense::Rien => {},
            Recompense::Appats { bt, n } => {
                self.baits[bt] = self.baits[bt] + n;
            },
            Recompense::Ecus(g) => {
                self.gain(g);
            },
            Recompense::Breloque => {
                self.charms = self.charms + 1;
            },
            Recompense::Licence => {
                self.licences = self.licences + 1;
            },
            Recompense::Remontee { .. } => {},
        }
        (rec, 0)
    }
}

} // verus!
