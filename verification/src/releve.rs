//! Le relevé qu'une partie envoie au classement : ses compteurs, et ce que
//! son registre compte d'espèces, de curiosités, de légendes et de rangs.

use vstd::prelude::*;
use crate::catalogue::{BIOME_DES_ESPECES, NB_ESPECES, WILDB, CURIO_B, LEGEND_B, nb_dans, nb_especes_dans};
use crate::partie::Partie;
use crate::succes::{compte, sauvage, sauvages_vues};

verus! {

/// Les statistiques d'une partie pour le classement.
#[derive(Clone, Copy, Debug, PartialEq, Eq)]
pub struct Stats {
    pub captures: u64,
    pub especes: u64,
    pub curiosites: u64,
    pub legendes: u64,
    pub rangs: u64,
    pub shinies: u64,
    pub ecus: u64,
    pub trophees: u64,
    pub migrations: u64,
}

/// Curiosités déjà obtenues.
pub open spec fn curiosites_vues(p: Partie) -> nat {
    compte(NB_ESPECES as int, |c: int| BIOME_DES_ESPECES@[c] == CURIO_B && p.dex@[c].n > 0)
}

/// Légendes (et ce qui dort au fond du puits) déjà obtenues.
pub open spec fn legendes_vues(p: Partie) -> nat {
    compte(NB_ESPECES as int, |c: int| BIOME_DES_ESPECES@[c] >= LEGEND_B && p.dex@[c].n > 0)
}

/// La somme des meilleurs rangs (rang + 1) des espèces sauvages `< n` vues.
pub open spec fn somme_rangs(p: Partie, n: int) -> nat
    decreases n,
{
    if n <= 0 {
        0
    } else {
        somme_rangs(p, n - 1) + if sauvage(n - 1) && p.dex@[n - 1].n > 0 { p.dex@[n - 1].best as nat } else { 0nat }
    }
}

/// Le relevé que la partie `p` envoie.
pub open spec fn releve_de(p: Partie) -> Stats {
    Stats {
        captures: p.captures,
        especes: sauvages_vues(p) as u64,
        curiosites: curiosites_vues(p) as u64,
        legendes: legendes_vues(p) as u64,
        rangs: somme_rangs(p, NB_ESPECES as int) as u64,
        shinies: p.shinies,
        ecus: p.total_earned,
        trophees: p.trophies as u64,
        migrations: p.migrations as u64,
    }
}

proof fn lemma_compte_borne(n: int, f: spec_fn(int) -> bool)
    requires
        n >= 0,
    ensures
        compte(n, f) <= n,
    decreases n,
{
    if n > 0 {
        lemma_compte_borne(n - 1, f);
    }
}

proof fn lemma_somme_rangs_bornee(p: Partie, n: int)
    requires
        0 <= n <= NB_ESPECES,
        forall|c: int| 0 <= c < NB_ESPECES ==> #[trigger] p.dex@[c].best <= 4,
    ensures
        somme_rangs(p, n) <= 4 * compte(n, |c: int| sauvage(c) && p.dex@[c].n > 0),
    decreases n,
{
    if n > 0 {
        lemma_somme_rangs_bornee(p, n - 1);
    }
}

proof fn lemma_vues_sous_sauvages(p: Partie, n: int)
    requires
        0 <= n <= NB_ESPECES,
    ensures
        compte(n, |c: int| sauvage(c) && p.dex@[c].n > 0) <= nb_dans(BIOME_DES_ESPECES@, n, 0, WILDB as int),
    decreases n,
{
    if n > 0 {
        lemma_vues_sous_sauvages(p, n - 1);
    }
}

impl Partie {
    /// Le relevé à envoyer au classement.
    pub fn lb_stats(&self) -> (s: Stats)
        ensures
            s == releve_de(*self),
    {
        let ghost fv = |c: int| sauvage(c) && self.dex@[c].n > 0;
        let ghost fc = |c: int| BIOME_DES_ESPECES@[c] == CURIO_B && self.dex@[c].n > 0;
        let ghost fl = |c: int| BIOME_DES_ESPECES@[c] >= LEGEND_B && self.dex@[c].n > 0;
        let mut especes: u64 = 0;
        let mut curiosites: u64 = 0;
        let mut legendes: u64 = 0;
        let mut rangs: u64 = 0;
        let mut c: usize = 0;
        while c < NB_ESPECES
            invariant
                c <= NB_ESPECES,
                fv == (|c: int| sauvage(c) && self.dex@[c].n > 0),
                fc == (|c: int| BIOME_DES_ESPECES@[c] == CURIO_B && self.dex@[c].n > 0),
                fl == (|c: int| BIOME_DES_ESPECES@[c] >= LEGEND_B && self.dex@[c].n > 0),
                especes == compte(c as int, fv),
                curiosites == compte(c as int, fc),
                legendes == compte(c as int, fl),
                rangs == somme_rangs(*self, c as int),
                rangs <= 255 * c,
            decreases NB_ESPECES - c,
        {
            proof {
                lemma_compte_borne(c as int, fv);
                lemma_compte_borne(c as int, fc);
                lemma_compte_borne(c as int, fl);
            }
            let b = BIOME_DES_ESPECES[c];
            let f = self.dex[c];
            if f.n > 0 {
                if b < WILDB {
                    especes = especes + 1;
                    rangs = rangs + f.best as u64;
                }
                if b == CURIO_B {
                    curiosites = curiosites + 1;
                }
                if b >= LEGEND_B {
                    legendes = legendes + 1;
                }
            }
            c = c + 1;
        }
        Stats {
            captures: self.captures,
            especes,
            curiosites,
            legendes,
            rangs,
            shinies: self.shinies,
            ecus: self.total_earned,
            trophees: self.trophies as u64,
            migrations: self.migrations as u64,
        }
    }
}

/// Le relevé d'une vraie partie tient dans les bornes de structure du
/// classement : pas plus d'espèces sauvages qu'il n'en existe, et au plus
/// quatre rangs par espèce.
pub proof fn loi_releve_dans_les_bornes(p: Partie)
    requires
        forall|c: int| 0 <= c < NB_ESPECES ==> #[trigger] p.dex@[c].best <= 4,
    ensures
        sauvages_vues(p) <= nb_especes_dans(0, WILDB as int),
        somme_rangs(p, NB_ESPECES as int) <= 4 * sauvages_vues(p),
{
    reveal(nb_especes_dans);
    lemma_vues_sous_sauvages(p, NB_ESPECES as int);
    lemma_somme_rangs_bornee(p, NB_ESPECES as int);
}

} // verus!
