//! Le battement du jeu, après les levées des pièges : les affiches du
//! comptoir se renouvellent à leur heure (les contrats toutes les deux
//! heures, le troc chaque jour réel), le rituel du jour s'accomplit au
//! premier passage d'un nouveau jour, puis les succès sont examinés et
//! l'instant est noté.

use vstd::prelude::*;
use crate::partie::{Partie, gain_possible};
use crate::catalogue::NB_ESPECES;
use crate::horloge::JOUR_REEL_MS;
use crate::comptoir::{
    candidats_contrat, contrats_de, troc_du_jour, contrats_a_renouveler, FENETRE_CONTRATS_MS,
};
use crate::actions::examinee;
use crate::succes::SOMME_RECOMPENSES;

verus! {

/// Ce que le comptoir affiche, depuis quand, et le dernier instant vu.
pub struct Affiches {
    /// La fenêtre de deux heures des contrats affichés.
    pub contracts_window: u64,
    /// Les contrats affichés : espèce et quantité.
    pub contracts: Vec<(usize, u64)>,
    /// Le jour réel des demandes de troc affichées.
    pub trades_window: u64,
    /// Les demandes de troc affichées.
    pub trades: Vec<(usize, u64, usize)>,
    /// Les demandes de troc déjà honorées.
    pub trades_done: Vec<bool>,
    /// Le dernier instant où le jeu a battu.
    pub last_seen: u64,
}

/// Les contrats se renouvellent à l'instant `now`.
pub open spec fn contrats_dus(a: Affiches, now: u64) -> bool {
    a.contracts_window != now / FENETRE_CONTRATS_MS || a.contracts@.len() == 0
}

/// Le troc se renouvelle à l'instant `now`.
pub open spec fn troc_du(p: Partie, a: Affiches, now: u64) -> bool {
    a.trades_window != now / JOUR_REEL_MS
        || (a.trades@.len() == 0 && exists|i: int| 0 <= i < NB_ESPECES && (#[trigger] p.dex@[i]).n > 0)
}

/// Le jour réel de l'instant `now`, tel que le compte la série.
pub open spec fn jour_du(now: u64) -> u32 {
    (now / JOUR_REEL_MS) as u32
}

/// La partie `b` est la partie `a` après le rituel du jour `day` : la série
/// s'allonge si l'on est venu la veille (elle repart à un sinon) et offre
/// autant de baies que de jours de série, dix au plus ; rien si le jour
/// était déjà compté.
pub open spec fn rituel(a: Partie, b: Partie, day: u32) -> bool {
    if a.last_day == day {
        b == a
    } else {
        let serie = if a.last_day + 1 == day { a.streak + 1 } else { 1 };
        let cadeau = if serie < 10 { serie } else { 10 };
        &&& b.streak == serie
        &&& b.baits@ == a.baits@.update(0, (a.baits[0] + cadeau) as u64)
        &&& b == (Partie { streak: b.streak, last_day: day, baits: b.baits, ..a })
    }
}

impl Partie {
    /// Un battement à l'instant `now`, après les levées des pièges. Les
    /// contrats se renouvellent si leur fenêtre est passée ou qu'il n'y en a
    /// aucun (leurs marques s'effacent) ; le troc, si son jour est passé ou
    /// qu'il est vide alors qu'une espèce a été prise ; puis le rituel du
    /// jour, l'examen des succès, et l'instant est noté.
    pub fn battement(&mut self, aff: &mut Affiches, now: u64)
        requires
            contrats_dus(*old(aff), now) ==> candidats_contrat(*old(self)).len() > 0,
            old(self).last_day != jour_du(now) ==> old(self).last_day < u32::MAX
                && old(self).streak < u32::MAX && old(self).baits[0] + 10 <= u64::MAX,
            gain_possible(*old(self), SOMME_RECOMPENSES as int),
        ensures
            contrats_dus(*old(aff), now) ==> final(aff).contracts_window == now / FENETRE_CONTRATS_MS
                && final(aff).contracts@ == contrats_de(*old(self), now / FENETRE_CONTRATS_MS),
            !contrats_dus(*old(aff), now) ==> final(aff).contracts_window == old(aff).contracts_window
                && final(aff).contracts@ == old(aff).contracts@,
            troc_du(*old(self), *old(aff), now) ==> final(aff).trades_window == now / JOUR_REEL_MS
                && final(aff).trades@ == troc_du_jour(*old(self), now / JOUR_REEL_MS, now)
                && final(aff).trades_done@ == Seq::new(final(aff).trades@.len(), |i: int| false),
            !troc_du(*old(self), *old(aff), now) ==> final(aff).trades_window == old(aff).trades_window
                && final(aff).trades@ == old(aff).trades@ && final(aff).trades_done@ == old(aff).trades_done@,
            final(aff).last_seen == now,
            ({
                let m0 = if contrats_dus(*old(aff), now) {
                    Partie { contracts_done: [false, false, false], ..*old(self) }
                } else {
                    *old(self)
                };
                exists|m1: Partie| rituel(m0, m1, jour_du(now)) && #[trigger] examinee(m1, *final(self))
            }),
    {
        let ghost p0 = *self;
        let contrats = contrats_a_renouveler(aff.contracts_window, now, aff.contracts.len() == 0);
        if contrats {
            let cw = now / FENETRE_CONTRATS_MS;
            aff.contracts_window = cw;
            aff.contracts = self.gen_contracts(cw);
            self.contracts_done = [false, false, false];
        }
        let tw = now / JOUR_REEL_MS;
        let troc = self.troc_a_renouveler(aff.trades_window, now, aff.trades.len() == 0);
        proof {
            let f1 = |i: int| crate::comptoir::demandable(*self, i);
            let f2 = |i: int| crate::comptoir::demandable(p0, i);
            assert(f1 =~= f2);
            assert(crate::comptoir::demandables(*self) == crate::comptoir::demandables(p0));
            assert(troc_du_jour(*self, tw, now) == troc_du_jour(p0, tw, now));
        }
        if troc {
            aff.trades_window = tw;
            aff.trades = self.gen_trades(tw, now);
            let mut faits: Vec<bool> = Vec::new();
            let mut i: usize = 0;
            while i < aff.trades.len()
                invariant
                    i <= aff.trades@.len(),
                    faits@ == Seq::new(i as nat, |k: int| false),
                decreases aff.trades@.len() - i,
            {
                faits.push(false);
                proof {
                    assert(faits@ =~= Seq::new((i + 1) as nat, |k: int| false));
                }
                i = i + 1;
            }
            aff.trades_done = faits;
        }
        let ghost m0 = *self;
        proof {
            assert(contrats ==> m0 == Partie { contracts_done: [false, false, false], ..p0 });
            assert(!contrats ==> m0 == p0);
        }
        let day = (now / JOUR_REEL_MS) as u32;
        self.nouveau_jour(day);
        let ghost m1 = *self;
        proof {
            assert(rituel(m0, m1, jour_du(now)));
            assert(gain_possible(m1, SOMME_RECOMPENSES as int));
        }
        self.check_achievements();
        proof {
            assert(examinee(m1, *self));
        }
        aff.last_seen = now;
    }
}

} // verus!
