//! Le tableau de bord : ce qu'il montre de chaque biome, dans l'ordre de
//! progression (du moins cher au plus cher), et les battues prêtes.

use vstd::prelude::*;
use crate::catalogue::{
    BIOME_DES_ESPECES, COUT_BIOMES, NB_ESPECES, WILDB, biomes_par_prix, nb_especes_du_biome, nb_especes_dans,
    range_par_prix,
};
use crate::partie::{Partie, Pose, Terrain, NB_BIOMES};
use crate::succes::compte;
use crate::comptoir::liste;

verus! {

/// La ligne d'un biome au tableau de bord.
#[derive(Clone, Copy, Debug, PartialEq, Eq)]
pub enum EtatBiome {
    /// Un biome fermé : son prix, et si les écus suffisent.
    Verrouille { b: usize, cout: u64, abordable: bool },
    /// Un biome ouvert : ses pièges posés, ses emplacements, les espèces
    /// déjà vues sur toutes les siennes, les secondes avant la prochaine
    /// tentative (aucune sans piège), et si un appât est épuisé.
    Ouvert {
        b: usize,
        poses: usize,
        emplacements: usize,
        trouvees: usize,
        especes: usize,
        prochaine: Option<u64>,
        appat_epuise: bool,
    },
}

/// Le biome d'une ligne.
pub open spec fn biome_de(e: EtatBiome) -> usize {
    match e {
        EtatBiome::Verrouille { b, .. } => b,
        EtatBiome::Ouvert { b, .. } => b,
    }
}

/// Les pièges posés sur un terrain.
pub open spec fn occupes(t: Terrain) -> int {
    (if t.pl@[0] is Some { 1int } else { 0int }) + (if t.pl@[1] is Some { 1int } else { 0int })
        + (if t.pl@[2] is Some { 1int } else { 0int }) + (if t.pl@[3] is Some { 1int } else { 0int })
}

/// Les secondes pleines avant la tentative d'un piège.
pub open spec fn delai(x: Pose, now: u64) -> u64 {
    if x.next_at > now { ((x.next_at - now) / 1000) as u64 } else { 0 }
}

/// Le plus court délai, en tenant compte de l'emplacement `o`.
pub open spec fn plus_tot(a: Option<u64>, o: Option<Pose>, now: u64) -> Option<u64> {
    match o {
        None => a,
        Some(x) => match a {
            None => Some(delai(x, now)),
            Some(d) => Some(if d <= delai(x, now) { d } else { delai(x, now) }),
        },
    }
}

/// Les secondes avant la prochaine tentative sur un terrain.
pub open spec fn prochaine(t: Terrain, now: u64) -> Option<u64> {
    plus_tot(plus_tot(plus_tot(plus_tot(None, t.pl@[0], now), t.pl@[1], now), t.pl@[2], now), t.pl@[3], now)
}

/// Un piège du terrain attend un appât qui manque.
pub open spec fn appat_manquant(p: Partie, t: Terrain) -> bool {
    exists|i: int| 0 <= i < 4 && (#[trigger] t.pl@[i] matches Some(x) && x.bait matches Some(bt) && bt < 5 && p.baits@[bt as int] == 0)
}

/// Les espèces du biome `b` déjà vues.
pub open spec fn trouvees(p: Partie, b: int) -> nat {
    compte(NB_ESPECES as int, |c: int| vue_du_biome(p, b, c))
}

/// L'espèce `c` est du biome `b` et déjà vue.
pub open spec fn vue_du_biome(p: Partie, b: int, c: int) -> bool {
    BIOME_DES_ESPECES@[c] == b && p.dex@[c].n > 0
}

/// La ligne du biome `b` au tableau de bord.
pub open spec fn etat_biome(p: Partie, b: usize, now: u64) -> EtatBiome {
    match p.biomes@[b as int] {
        None => EtatBiome::Verrouille { b, cout: COUT_BIOMES@[b as int], abordable: p.ecus >= COUT_BIOMES@[b as int] },
        Some(t) => EtatBiome::Ouvert {
            b,
            poses: occupes(t) as usize,
            emplacements: t.slots,
            trouvees: trouvees(p, b as int) as usize,
            especes: nb_especes_dans(b as int, b + 1) as usize,
            prochaine: prochaine(t, now),
            appat_epuise: appat_manquant(p, t),
        },
    }
}

/// Une battue est prête sur le biome `b` : il est ouvert, son délai est
/// passé, et un piège au moins y est posé.
pub open spec fn battue_prete(p: Partie, b: int, now: u64) -> bool {
    p.biomes@[b] matches Some(t) && t.hunt_at <= now && occupes(t) > 0
}

fn delai_exec(x: Pose, now: u64) -> (d: u64)
    ensures
        d == delai(x, now),
{
    if x.next_at > now { (x.next_at - now) / 1000 } else { 0 }
}

fn occupes_exec(t: &Terrain) -> (n: usize)
    ensures
        n == occupes(*t),
{
    let mut n: usize = 0;
    if t.pl[0].is_some() { n = n + 1; }
    if t.pl[1].is_some() { n = n + 1; }
    if t.pl[2].is_some() { n = n + 1; }
    if t.pl[3].is_some() { n = n + 1; }
    n
}

impl Partie {
    fn trouvees_exec(&self, b: usize) -> (n: usize)
        ensures
            n == trouvees(*self, b as int),
    {
        let ghost f = |c: int| vue_du_biome(*self, b as int, c);
        let mut n: usize = 0;
        let mut c: usize = 0;
        while c < NB_ESPECES
            invariant
                c <= NB_ESPECES,
                n <= c,
                f == (|c: int| vue_du_biome(*self, b as int, c)),
                n == compte(c as int, f),
            decreases NB_ESPECES - c,
        {
            if BIOME_DES_ESPECES[c] as usize == b && self.dex[c].n > 0 {
                n = n + 1;
            }
            c = c + 1;
        }
        n
    }

    fn etat_du_biome(&self, b: usize, now: u64) -> (e: EtatBiome)
        requires
            b < WILDB,
        ensures
            e == etat_biome(*self, b, now),
    {
        match self.biomes[b] {
            None => EtatBiome::Verrouille { b, cout: COUT_BIOMES[b], abordable: self.ecus >= COUT_BIOMES[b] },
            Some(t) => {
                let mut proche: Option<u64> = None;
                let mut sec = false;
                let mut i: usize = 0;
                while i < 4
                    invariant
                        i <= 4,
                        proche == (if i == 0 { None } else if i == 1 { plus_tot(None, t.pl@[0], now) }
                            else if i == 2 { plus_tot(plus_tot(None, t.pl@[0], now), t.pl@[1], now) }
                            else if i == 3 { plus_tot(plus_tot(plus_tot(None, t.pl@[0], now), t.pl@[1], now), t.pl@[2], now) }
                            else { prochaine(t, now) }),
                        sec == exists|j: int| 0 <= j < i && (#[trigger] t.pl@[j] matches Some(x)
                            && x.bait matches Some(bt) && bt < 5 && self.baits@[bt as int] == 0),
                    decreases 4 - i,
                {
                    match t.pl[i] {
                        Some(x) => {
                            let d = delai_exec(x, now);
                            proche = match proche {
                                None => Some(d),
                                Some(q) => Some(if q <= d { q } else { d }),
                            };
                            match x.bait {
                                Some(bt) => {
                                    if bt < 5 && self.baits[bt] == 0 {
                                        sec = true;
                                    }
                                },
                                None => {},
                            }
                        },
                        None => {},
                    }
                    i = i + 1;
                }
                EtatBiome::Ouvert {
                    b,
                    poses: occupes_exec(&t),
                    emplacements: t.slots,
                    trouvees: self.trouvees_exec(b),
                    especes: nb_especes_du_biome(b as u8),
                    prochaine: proche,
                    appat_epuise: sec,
                }
            },
        }
    }

    /// Les lignes des biomes de la carte au tableau de bord, dans l'ordre de
    /// progression : chaque biome une fois, du moins cher au plus cher.
    pub fn biomes_du_tableau(&self, now: u64) -> (v: Vec<EtatBiome>)
        ensures
            v@.len() == WILDB,
            range_par_prix(v@.map_values(|e: EtatBiome| biome_de(e))),
            forall|k: int| 0 <= k < v@.len() ==> #[trigger] v@[k] == etat_biome(*self, biome_de(v@[k]), now),
    {
        let ordre = biomes_par_prix();
        proof {
            reveal(range_par_prix);
        }
        let mut v: Vec<EtatBiome> = Vec::new();
        let mut k: usize = 0;
        while k < ordre.len()
            invariant
                k <= ordre@.len(),
                ordre@.len() == WILDB,
                forall|i: int| 0 <= i < ordre@.len() ==> (#[trigger] ordre@[i]) < WILDB,
                v@.len() == k,
                forall|i: int| 0 <= i < k ==> #[trigger] v@[i] == etat_biome(*self, ordre@[i], now)
                    && biome_de(v@[i]) == ordre@[i],
            decreases ordre@.len() - k,
        {
            let e = self.etat_du_biome(ordre[k], now);
            v.push(e);
            k = k + 1;
        }
        proof {
            assert(v@.map_values(|e: EtatBiome| biome_de(e)) =~= ordre@);
        }
        v
    }

    /// Les biomes où une battue est prête, dans l'ordre de la carte.
    pub fn battues_pretes(&self, now: u64) -> (v: Vec<usize>)
        ensures
            v@ == liste(NB_BIOMES as int, |b: int| battue_prete(*self, b, now)),
    {
        let ghost f = |b: int| battue_prete(*self, b, now);
        let mut v: Vec<usize> = Vec::new();
        let mut b: usize = 0;
        while b < NB_BIOMES
            invariant
                b <= NB_BIOMES,
                f == (|b: int| battue_prete(*self, b, now)),
                v@ == liste(b as int, f),
            decreases NB_BIOMES - b,
        {
            let pret = match self.biomes[b] {
                Some(t) => t.hunt_at <= now && occupes_exec(&t) > 0,
                None => false,
            };
            if pret {
                v.push(b);
            }
            proof {
                assert(f(b as int) == pret);
                assert(v@ =~= liste(b + 1, f));
            }
            b = b + 1;
        }
        v
    }
}

} // verus!
