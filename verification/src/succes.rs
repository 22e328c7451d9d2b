//! Les succès : trente-trois conditions sur la partie, chacune payée une
//! fois, la première fois qu'elle est remplie.

use vstd::prelude::*;
use crate::catalogue::{BIOME_DES_ESPECES, RARETE_DES_ESPECES, NB_ESPECES, WILDB, LEGEND_B};
use crate::partie::{Partie, gain_possible};

verus! {

/// Nombre de succès.
pub const NB_SUCCES: usize = 33;

/// La prime de chaque succès, en écus.
pub const RECOMPENSES: [u64; 33] = [
    50, 500, 5_000, 50_000, 1_000, 25_000, 3_000, 300, 3_000, 100_000, 200, 200_000, 1_000, 50_000,
    30_000, 0, 0, 2_000, 2_000, 20_000, 300, 5_000, 10_000, 2_000, 15_000, 1_000, 2_000, 666,
    120_000, 666, 6_666, 66_666, 666_666,
];

/// Toutes les primes réunies.
pub const SOMME_RECOMPENSES: u64 = 1_389_680;

/// Les espèces qui ne sortent que la nuit.
pub const NOCTURNES: [usize; 20] = [1, 9, 21, 23, 28, 39, 41, 52, 54, 57, 62, 64, 70, 83, 92, 95, 96, 106, 111, 113];

/// Une espèce des biomes de la carte.
pub open spec fn sauvage(c: int) -> bool {
    BIOME_DES_ESPECES@[c] < WILDB
}

/// Espèces `< n` qui remplissent `f`.
pub open spec fn compte(n: int, f: spec_fn(int) -> bool) -> nat
    decreases n,
{
    if n <= 0 { 0 } else { compte(n - 1, f) + if f(n - 1) { 1nat } else { 0nat } }
}

/// Espèces sauvages déjà vues.
pub open spec fn sauvages_vues(p: Partie) -> nat {
    compte(NB_ESPECES as int, |c: int| sauvage(c) && p.dex@[c].n > 0)
}

/// Espèces sauvages déjà vues au rang S.
pub open spec fn sauvages_en_s(p: Partie) -> nat {
    compte(NB_ESPECES as int, |c: int| sauvage(c) && p.dex@[c].best >= 4)
}

/// Salles du musée occupées.
pub open spec fn salles_occupees(p: Partie) -> nat {
    compte(12, |k: int| p.museum@[k] is Some)
}

/// La condition du succès `i`, les gains à vie valant `total`.
pub open spec fn succes_atteint(p: Partie, total: int, i: int) -> bool {
    if i == 0 { p.captures >= 1 }
    else if i == 1 { p.captures >= 100 }
    else if i == 2 { p.captures >= 1000 }
    else if i == 3 { p.captures >= 10000 }
    else if i == 4 { p.shinies >= 1 }
    else if i == 5 { p.shinies >= 25 }
    else if i == 6 { exists|c: int| 0 <= c < NB_ESPECES && sauvage(c) && RARETE_DES_ESPECES@[c] == 4 && #[trigger] p.dex@[c].n > 0 }
    else if i == 7 { sauvages_vues(p) >= 10 }
    else if i == 8 { sauvages_vues(p) >= 30 }
    else if i == 9 { forall|c: int| 0 <= c < NB_ESPECES && sauvage(c) ==> #[trigger] p.dex@[c].n > 0 }
    else if i == 10 { p.biomes@[1] is Some }
    else if i == 11 { p.biomes@[5] is Some }
    else if i == 12 { total >= 10_000 }
    else if i == 13 { total >= 1_000_000 }
    else if i == 14 { p.traps@[5] >= 1 }
    else if i == 15 { p.migrations >= 1 }
    else if i == 16 { p.migrations >= 5 }
    else if i == 17 { forall|c: int| 0 <= c < NB_ESPECES && BIOME_DES_ESPECES@[c] == 0 ==> #[trigger] p.dex@[c].n > 0 }
    else if i == 18 { exists|c: int| 0 <= c < NB_ESPECES && sauvage(c) && #[trigger] p.dex@[c].best >= 4 }
    else if i == 19 { sauvages_en_s(p) >= 10 }
    else if i == 20 { p.hunts_done >= 1 }
    else if i == 21 { p.contracts_delivered >= 5 }
    else if i == 22 { p.legends_caught >= 1 }
    else if i == 23 { p.pen_born >= 1 }
    else if i == 24 { salles_occupees(p) >= 6 }
    else if i == 25 { exists|k: int| 0 <= k < 20 && #[trigger] p.dex@[NOCTURNES@[k] as int].n > 0 }
    else if i == 26 { p.streak >= 7 }
    else if i == 27 { p.captures >= 666 }
    else if i == 28 { forall|c: int| 0 <= c < NB_ESPECES && BIOME_DES_ESPECES@[c] == LEGEND_B ==> #[trigger] p.dex@[c].n > 0 }
    else if i == 29 { p.sacrifices >= 1 }
    else if i == 30 { p.sacrifices >= 6 }
    else if i == 31 { p.sacrifices >= 66 }
    else if i == 32 { p.sacrifices >= 666 }
    else { false }
}

/// Les succès débloqués et les gains à vie après l'examen des `k` premiers
/// succès, dans l'ordre : chaque prime compte déjà pour les suivants.
pub open spec fn examen(p: Partie, k: int) -> (Seq<bool>, int)
    decreases k,
{
    if k <= 0 {
        (p.ach@, p.total_earned as int)
    } else {
        let (ach, total) = examen(p, k - 1);
        if !ach[k - 1] && succes_atteint(p, total, k - 1) {
            (ach.update(k - 1, true), total + RECOMPENSES@[k - 1])
        } else {
            (ach, total)
        }
    }
}

/// Ce que la partie a observé, espèce par espèce, pour les succès.
struct Bilan {
    vues: u64,
    en_s: u64,
    legendaire_vue: bool,
    s_vu: bool,
    toutes_sauvages: bool,
    toute_la_foret: bool,
    toutes_legendes: bool,
    nocturne_vue: bool,
    salles: u64,
}

proof fn lemma_compte_borne(n: int, f: spec_fn(int) -> bool)
    requires
        n >= 0,
    ensures
        compte(n, f) <= n,
    decreases n,
{
    if n > 0 {
        lemma_compte_borne(n - 1, f);
    }
}

fn bilan(p: &Partie) -> (b: Bilan)
    ensures
        b.vues == sauvages_vues(*p),
        b.en_s == sauvages_en_s(*p),
        b.legendaire_vue == succes_atteint(*p, 0, 6),
        b.s_vu == succes_atteint(*p, 0, 18),
        b.toutes_sauvages == succes_atteint(*p, 0, 9),
        b.toute_la_foret == succes_atteint(*p, 0, 17),
        b.toutes_legendes == succes_atteint(*p, 0, 28),
        b.nocturne_vue == succes_atteint(*p, 0, 25),
        b.salles == salles_occupees(*p),
{
    let ghost fv = |c: int| sauvage(c) && p.dex@[c].n > 0;
    let ghost fs = |c: int| sauvage(c) && p.dex@[c].best >= 4;
    let mut vues: u64 = 0;
    let mut en_s: u64 = 0;
    let mut legendaire_vue = false;
    let mut s_vu = false;
    let mut toutes_sauvages = true;
    let mut toute_la_foret = true;
    let mut toutes_legendes = true;
    let mut c: usize = 0;
    while c < NB_ESPECES
        invariant
            c <= NB_ESPECES,
            vues == compte(c as int, fv),
            en_s == compte(c as int, fs),
            fv == (|c: int| sauvage(c) && p.dex@[c].n > 0),
            fs == (|c: int| sauvage(c) && p.dex@[c].best >= 4),
            legendaire_vue == exists|j: int| 0 <= j < c && sauvage(j) && RARETE_DES_ESPECES@[j] == 4 && #[trigger] p.dex@[j].n > 0,
            s_vu == exists|j: int| 0 <= j < c && sauvage(j) && #[trigger] p.dex@[j].best >= 4,
            toutes_sauvages == forall|j: int| 0 <= j < c && sauvage(j) ==> #[trigger] p.dex@[j].n > 0,
            toute_la_foret == forall|j: int| 0 <= j < c && BIOME_DES_ESPECES@[j] == 0 ==> #[trigger] p.dex@[j].n > 0,
            toutes_legendes == forall|j: int| 0 <= j < c && BIOME_DES_ESPECES@[j] == LEGEND_B ==> #[trigger] p.dex@[j].n > 0,
        decreases NB_ESPECES - c,
    {
        proof {
            lemma_compte_borne(c as int, fv);
            lemma_compte_borne(c as int, fs);
        }
        let b = BIOME_DES_ESPECES[c];
        let f = p.dex[c];
        if b < WILDB {
            if f.n > 0 {
                vues = vues + 1;
                if RARETE_DES_ESPECES[c] == 4 {
                    legendaire_vue = true;
                }
            } else {
                toutes_sauvages = false;
            }
            if f.best >= 4 {
                en_s = en_s + 1;
                s_vu = true;
            }
        }
        if b == 0 && f.n == 0 {
            toute_la_foret = false;
        }
        if b == LEGEND_B && f.n == 0 {
            toutes_legendes = false;
        }
        c = c + 1;
    }
    let mut nocturne_vue = false;
    let mut k: usize = 0;
    while k < 20
        invariant
            k <= 20,
            nocturne_vue == exists|j: int| 0 <= j < k && #[trigger] p.dex@[NOCTURNES@[j] as int].n > 0,
        decreases 20 - k,
    {
        if p.dex[NOCTURNES[k]].n > 0 {
            nocturne_vue = true;
        }
        k = k + 1;
    }
    let ghost fm = |k: int| p.museum@[k] is Some;
    let mut salles: u64 = 0;
    let mut k: usize = 0;
    while k < 12
        invariant
            k <= 12,
            salles == compte(k as int, fm),
            fm == (|k: int| p.museum@[k] is Some),
        decreases 12 - k,
    {
        proof {
            lemma_compte_borne(k as int, fm);
        }
        if p.museum[k].is_some() {
            salles = salles + 1;
        }
        k = k + 1;
    }
    Bilan { vues, en_s, legendaire_vue, s_vu, toutes_sauvages, toute_la_foret, toutes_legendes, nocturne_vue, salles }
}

fn atteint(p: &Partie, b: &Bilan, total: u64, i: usize) -> (r: bool)
    requires
        b.vues == sauvages_vues(*p),
        b.en_s == sauvages_en_s(*p),
        b.legendaire_vue == succes_atteint(*p, 0, 6),
        b.s_vu == succes_atteint(*p, 0, 18),
        b.toutes_sauvages == succes_atteint(*p, 0, 9),
        b.toute_la_foret == succes_atteint(*p, 0, 17),
        b.toutes_legendes == succes_atteint(*p, 0, 28),
        b.nocturne_vue == succes_atteint(*p, 0, 25),
        b.salles == salles_occupees(*p),
    ensures
        r == succes_atteint(*p, total as int, i as int),
{
    match i {
        0 => p.captures >= 1,
        1 => p.captures >= 100,
        2 => p.captures >= 1000,
        3 => p.captures >= 10000,
        4 => p.shinies >= 1,
        5 => p.shinies >= 25,
        6 => b.legendaire_vue,
        7 => b.vues >= 10,
        8 => b.vues >= 30,
        9 => b.toutes_sauvages,
        10 => p.biomes[1].is_some(),
        11 => p.biomes[5].is_some(),
        12 => total >= 10_000,
        13 => total >= 1_000_000,
        14 => p.traps[5] >= 1,
        15 => p.migrations >= 1,
        16 => p.migrations >= 5,
        17 => b.toute_la_foret,
        18 => b.s_vu,
        19 => b.en_s >= 10,
        20 => p.hunts_done >= 1,
        21 => p.contracts_delivered >= 5,
        22 => p.legends_caught >= 1,
        23 => p.pen_born >= 1,
        24 => b.salles >= 6,
        25 => b.nocturne_vue,
        26 => p.streak >= 7,
        27 => p.captures >= 666,
        28 => b.toutes_legendes,
        29 => p.sacrifices >= 1,
        30 => p.sacrifices >= 6,
        31 => p.sacrifices >= 66,
        32 => p.sacrifices >= 666,
        _ => false,
    }
}

impl Partie {
    /// La condition du succès `i` est remplie.
    pub fn ach_done(&self, i: usize) -> (r: bool)
        ensures
            r == succes_atteint(*self, self.total_earned as int, i as int),
    {
        let b = bilan(self);
        atteint(self, &b, self.total_earned, i)
    }

    /// Examine les succès dans l'ordre : chacun qui n'était pas encore
    /// débloqué et dont la condition est remplie se débloque et paie sa
    /// prime. Renvoie, pour chaque succès, s'il vient d'être débloqué.
    pub fn check_achievements(&mut self) -> (nouveaux: [bool; 33])
        requires
            gain_possible(*old(self), SOMME_RECOMPENSES as int),
        ensures
            ({
                let (ach, total) = examen(*old(self), NB_SUCCES as int);
                &&& final(self).ach@ == ach
                &&& final(self).total_earned == total
                &&& final(self).ecus == old(self).ecus + (total - old(self).total_earned)
                &&& final(self).run_earned == old(self).run_earned + (total - old(self).total_earned)
                &&& *final(self) == (Partie {
                    ach: final(self).ach, total_earned: final(self).total_earned,
                    ecus: final(self).ecus, run_earned: final(self).run_earned, ..*old(self)
                })
            }),
            forall|i: int| 0 <= i < NB_SUCCES ==> nouveaux@[i] == (final(self).ach@[i] && !old(self).ach@[i]),
    {
        let b = bilan(self);
        let mut nouveaux = [false; 33];
        let mut i: usize = 0;
        while i < NB_SUCCES
            invariant
                i <= NB_SUCCES,
                b.vues == sauvages_vues(*old(self)),
                b.en_s == sauvages_en_s(*old(self)),
                b.legendaire_vue == succes_atteint(*old(self), 0, 6),
                b.s_vu == succes_atteint(*old(self), 0, 18),
                b.toutes_sauvages == succes_atteint(*old(self), 0, 9),
                b.toute_la_foret == succes_atteint(*old(self), 0, 17),
                b.toutes_legendes == succes_atteint(*old(self), 0, 28),
                b.nocturne_vue == succes_atteint(*old(self), 0, 25),
                b.salles == salles_occupees(*old(self)),
                gain_possible(*old(self), SOMME_RECOMPENSES as int),
                ({
                    let (ach, total) = examen(*old(self), i as int);
                    &&& self.ach@ == ach
                    &&& self.total_earned == total
                    &&& total - old(self).total_earned <= somme_primes(i as int)
                    &&& self.ecus == old(self).ecus + (total - old(self).total_earned)
                    &&& self.run_earned == old(self).run_earned + (total - old(self).total_earned)
                }),
                *self == (Partie {
                    ach: self.ach, total_earned: self.total_earned, ecus: self.ecus,
                    run_earned: self.run_earned, ..*old(self)
                }),
                forall|j: int| 0 <= j < i ==> nouveaux@[j] == (self.ach@[j] && !old(self).ach@[j]),
                forall|j: int| i <= j < NB_SUCCES ==> nouveaux@[j] == false && self.ach@[j] == old(self).ach@[j],
            decreases NB_SUCCES - i,
        {
            proof {
                lemma_somme_primes(i as int);
                lemma_examen_garde(*old(self), i as int);
            }
            let partie = *self;
            if !self.ach[i] && atteint(&partie, &b, self.total_earned, i) {
                self.ach[i] = true;
                nouveaux[i] = true;
                self.gain(RECOMPENSES[i]);
            }
            i = i + 1;
        }
        nouveaux
    }
}

/// Les primes des `k` premiers succès.
pub open spec fn somme_primes(k: int) -> int
    decreases k,
{
    if k <= 0 { 0 } else { somme_primes(k - 1) + RECOMPENSES@[k - 1] }
}

proof fn lemma_somme_primes(k: int)
    requires
        0 <= k <= NB_SUCCES,
    ensures
        somme_primes(k) + (if k < NB_SUCCES { RECOMPENSES@[k] as int } else { 0 }) <= SOMME_RECOMPENSES,
        somme_primes(k) >= 0,
    decreases k,
{
    reveal_with_fuel(somme_primes, 34);
}

/// L'examen des `k` premiers succès ne touche pas aux suivants.
proof fn lemma_examen_garde(p: Partie, k: int)
    requires
        0 <= k <= NB_SUCCES,
    ensures
        examen(p, k).0.len() == NB_SUCCES,
        forall|j: int| k <= j < NB_SUCCES ==> examen(p, k).0[j] == p.ach@[j],
        examen(p, k).1 >= p.total_earned,
    decreases k,
{
    if k > 0 {
        lemma_examen_garde(p, k - 1);
    }
}

/// Les primes des succès qui passent de verrouillés à débloqués, parmi les
/// `k` premiers.
pub open spec fn primes_nouvelles(avant: Seq<bool>, apres: Seq<bool>, k: int) -> int
    decreases k,
{
    if k <= 0 {
        0
    } else {
        primes_nouvelles(avant, apres, k - 1) + if apres[k - 1] && !avant[k - 1] { RECOMPENSES@[k - 1] as int } else { 0 }
    }
}

proof fn lemma_primes_ext(avant: Seq<bool>, x: Seq<bool>, y: Seq<bool>, k: int)
    requires
        forall|i: int| 0 <= i < k ==> x[i] == y[i],
    ensures
        primes_nouvelles(avant, x, k) == primes_nouvelles(avant, y, k),
    decreases k,
{
    if k > 0 {
        lemma_primes_ext(avant, x, y, k - 1);
    }
}

proof fn lemma_examen_paye(p: Partie, k: int)
    requires
        0 <= k <= NB_SUCCES,
    ensures
        forall|i: int| 0 <= i < NB_SUCCES && p.ach@[i] ==> #[trigger] examen(p, k).0[i],
        examen(p, k).1 == p.total_earned + primes_nouvelles(p.ach@, examen(p, k).0, k),
    decreases k,
{
    if k > 0 {
        lemma_examen_paye(p, k - 1);
        lemma_examen_garde(p, k - 1);
        let (ach, total) = examen(p, k - 1);
        lemma_primes_ext(p.ach@, ach, examen(p, k).0, k - 1);
    }
}

/// Chaque succès ne paie qu'une fois : l'examen ne reverrouille rien, et
/// les gains à vie montent exactement des primes des succès qu'il vient de
/// débloquer.
pub proof fn loi_succes_payes_une_fois(p: Partie)
    ensures
        forall|i: int| 0 <= i < NB_SUCCES && p.ach@[i] ==> #[trigger] examen(p, NB_SUCCES as int).0[i],
        examen(p, NB_SUCCES as int).1
            == p.total_earned + primes_nouvelles(p.ach@, examen(p, NB_SUCCES as int).0, NB_SUCCES as int),
{
    lemma_examen_paye(p, NB_SUCCES as int);
}


proof fn lemma_examen_decide(p: Partie, k: int)
    requires
        0 <= k <= NB_SUCCES,
    ensures
        examen(p, k).0.len() == NB_SUCCES,
        forall|i: int| k <= i < NB_SUCCES ==> #[trigger] examen(p, k).0[i] == p.ach@[i],
        forall|i: int| 0 <= i < k ==> #[trigger] examen(p, k).0[i]
            == (p.ach@[i] || succes_atteint(p, examen(p, i).1, i)),
    decreases k,
{
    if k > 0 {
        lemma_examen_decide(p, k - 1);
    }
}

/// L'examen est juste : après lui, un succès est débloqué exactement s'il
/// l'était déjà ou si sa condition était remplie quand vint son tour (les
/// primes des succès précédents comptant déjà). Aucun succès rempli n'est
/// oublié, aucun n'est débloqué sans l'être.
pub proof fn loi_examen_juste(p: Partie)
    ensures
        forall|i: int| 0 <= i < NB_SUCCES ==> #[trigger] examen(p, NB_SUCCES as int).0[i]
            == (p.ach@[i] || succes_atteint(p, examen(p, i).1, i)),
{
    lemma_examen_decide(p, NB_SUCCES as int);
}

} // verus!
