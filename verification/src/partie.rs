//! L'état d'une partie et les actions du joueur : l'équipement (pièges,
//! appâts, labo), les terrains ouverts et leurs emplacements, la caisse.
//!
//! Tous les montants sont des écus entiers : les prix du jeu sont des nombres
//! ronds et chaque recette est arrondie à l'écu inférieur avant d'entrer en
//! caisse, si bien que la caisse ne porte jamais de fraction.

use vstd::prelude::*;
use crate::catalogue::{COUT_BIOMES, NB_ESPECES, RARETE_DES_ESPECES, BIOME_DES_ESPECES, WILDB};
use crate::reserve::{Reserve, retire, ajoute, casier, plus_bas_de_deux, plus_haut_de_deux, retrait, prises, apres_prises, surplus, couples_gardes, seuil_garde, meilleurs, loi_vente_epargne_les_couples, lemma_partage_borne, partage};
use crate::bestiaire::{Fiche, fiche_apres};
use crate::enclos::{Pen, parents, pen_start, rang_du_petit, meilleur_couple, meilleur_parmi, rang_du_couple, PEN_MIN};
use crate::horloge::{JOUR_REEL_MS, spec_puits_assoiffe, puits_assoiffe, jour_reel};

verus! {

/// Nombre de paliers de pièges, du piège en bois au piège quantique.
pub const NB_PIEGES: usize = 6;
/// Prix neuf de chaque palier de piège.
pub const COUT_PIEGES: [u64; 6] = [40, 800, 8_000, 60_000, 400_000, 2_500_000];
/// Nombre d'appâts différents.
pub const NB_APPATS: usize = 5;
/// Prix unitaire de chaque appât.
pub const COUT_APPATS: [u64; 5] = [15, 60, 300, 1_200, 4_000];
/// Nombre de recherches du labo.
pub const NB_LABOS: usize = 15;
/// Niveau maximal de chaque recherche du labo.
pub const LABO_MAX: [u32; 15] = [10, 15, 15, 11, 10, 1, 10, 6, 3, 5, 5, 5, 6, 5, 5];
/// Recherche « ailes du musée » : une salle de plus par niveau.
pub const LAB_AILES: usize = 7;
/// Recherche « grands enclos » : un enclos de plus par niveau.
pub const LAB_ENCLOS: usize = 8;
/// Recherche « licence de piégeage » : un piège posé de plus par niveau.
pub const LAB_LICENCE: usize = 12;
/// Nombre de biomes, carte et hors carte.
pub const NB_BIOMES: usize = 14;
/// Un terrain a au plus quatre emplacements.
pub const EMPLACEMENTS_MAX: usize = 4;
/// La caisse d'une partie neuve (et d'une migration).
pub const ECUS_DEPART: u64 = 30;
/// Salles du musée tenues en état, toutes ailes construites.
pub const NB_SALLES: usize = 12;
/// Enclos tenus en état, tous agrandissements faits.
pub const NB_ENCLOS: usize = 6;

/// Un piège posé : son palier, l'appât éventuel, et l'instant de sa
/// prochaine levée.
#[derive(Clone, Copy, Debug, PartialEq, Eq)]
pub struct Pose {
    pub trap: usize,
    pub bait: Option<usize>,
    pub next_at: u64,
}

/// Un terrain ouvert : ses emplacements (les `slots` premiers servent, les
/// autres restent vides), et l'instant où la prochaine battue est permise.
#[derive(Clone, Copy, Debug, PartialEq, Eq)]
pub struct Terrain {
    pub slots: usize,
    pub pl: [Option<Pose>; 4],
    pub hunt_at: u64,
}

/// Une pièce exposée au musée.
#[derive(Clone, Copy, Debug, PartialEq, Eq)]
pub struct Expo {
    pub ci: usize,
    pub rank: usize,
    pub shiny: bool,
    pub sex: u8,
}

/// L'état d'une partie.
#[derive(Clone, Copy, Debug, PartialEq, Eq)]
pub struct Partie {
    pub ecus: u64,
    pub total_earned: u64,
    pub run_earned: u64,
    pub captures: u64,
    pub shinies: u64,
    pub trophies: u32,
    pub migrations: u32,
    pub traps: [u32; 6],
    pub baits: [u64; 5],
    pub biomes: [Option<Terrain>; 14],
    pub lab: [u32; 15],
    pub licences: u32,
    pub charms: u32,
    pub autokeep: u32,
    pub autosell: [bool; 5],
    pub sacrifices: u32,
    /// Le jour réel de la dernière offrande au puits, s'il y en a eu une.
    pub well_night: Option<u64>,
    pub streak: u32,
    pub last_day: u32,
    pub hunts_done: u64,
    pub contracts_delivered: u64,
    pub legends_caught: u64,
    pub pen_born: u64,
    pub trades_made: u64,
    pub attempts: u64,
    pub contracts_done: [bool; 3],
    pub inv: [Reserve; 133],
    pub dex: [Fiche; 133],
    pub museum: [Option<Expo>; 12],
    pub pens: [Option<Pen>; 6],
    pub ach: [bool; 33],
}

/// Un emplacement bien tenu : vide, ou un piège d'un palier connu avec un
/// appât connu.
pub open spec fn pose_valide(o: Option<Pose>) -> bool {
    match o {
        Some(p) => p.trap < NB_PIEGES && (p.bait matches Some(b) ==> b < NB_APPATS),
        None => true,
    }
}

/// Un terrain bien tenu : deux à quatre emplacements, rien au-delà.
pub open spec fn terrain_valide(t: Terrain) -> bool {
    &&& 2 <= t.slots <= EMPLACEMENTS_MAX
    &&& forall|i: int| 0 <= i < 4 ==> pose_valide(#[trigger] t.pl[i])
    &&& forall|i: int| t.slots <= i < 4 ==> #[trigger] t.pl[i] is None
}

/// Les terrains sont bien tenus.
pub open spec fn terrains_valides(b: Seq<Option<Terrain>>) -> bool {
    forall|k: int| 0 <= k < b.len() ==> (#[trigger] b[k] matches Some(t) ==> terrain_valide(t))
}

/// Une partie bien formée : des terrains bien tenus, et seuls les biomes de
/// la carte peuvent être ouverts.
pub open spec fn bien_formee(p: Partie) -> bool {
    &&& terrains_valides(p.biomes@)
    &&& forall|k: int| 11 <= k < 14 ==> #[trigger] p.biomes@[k] is None
}

/// 1 si l'emplacement porte un piège du palier `tier`.
pub open spec fn compte_pose(o: Option<Pose>, tier: int) -> nat {
    match o {
        Some(p) => if p.trap == tier { 1nat } else { 0nat },
        None => 0nat,
    }
}

/// Pièges du palier `tier` posés sur un terrain.
pub open spec fn poses_terrain(t: Terrain, tier: int) -> nat {
    compte_pose(t.pl[0], tier) + compte_pose(t.pl[1], tier) + compte_pose(t.pl[2], tier)
        + compte_pose(t.pl[3], tier)
}

/// Pièges du palier `tier` posés sur les `n` premiers biomes.
pub open spec fn poses_biomes(b: Seq<Option<Terrain>>, n: int, tier: int) -> nat
    decreases n,
{
    if n <= 0 {
        0
    } else {
        poses_biomes(b, n - 1, tier) + match b[n - 1] {
            Some(t) => poses_terrain(t, tier),
            None => 0nat,
        }
    }
}

/// Pièges du palier `tier` posés dans toute la partie.
pub open spec fn poses(p: Partie, tier: int) -> nat {
    poses_biomes(p.biomes@, NB_BIOMES as int, tier)
}

/// Pièges posés, tous paliers `< k` confondus.
pub open spec fn poses_jusqua(p: Partie, k: int) -> nat
    decreases k,
{
    if k <= 0 { 0 } else { poses_jusqua(p, k - 1) + poses(p, k - 1) }
}

/// Pièges posés, tous paliers confondus.
pub open spec fn poses_totales(p: Partie) -> nat {
    poses_jusqua(p, NB_PIEGES as int)
}

/// Un terrain porte au plus quatre pièges d'un palier donné.
proof fn lemma_poses_bornees(b: Seq<Option<Terrain>>, n: int, tier: int)
    requires
        0 <= n,
    ensures
        poses_biomes(b, n, tier) <= 4 * n,
    decreases n,
{
    if n > 0 {
        lemma_poses_bornees(b, n - 1, tier);
    }
}

proof fn lemma_poses_jusqua_bornees(p: Partie, k: int)
    requires
        0 <= k,
    ensures
        poses_jusqua(p, k) <= 56 * k,
    decreases k,
{
    if k > 0 {
        lemma_poses_jusqua_bornees(p, k - 1);
        lemma_poses_bornees(p.biomes@, NB_BIOMES as int, k - 1);
    }
}

fn compte_pose_exec(o: Option<Pose>, tier: usize) -> (n: u32)
    ensures
        n == compte_pose(o, tier as int),
{
    match o {
        Some(p) => if p.trap == tier { 1 } else { 0 },
        None => 0,
    }
}

/// Le nouveau total après un gain : la caisse, le gagné à vie et le gagné
/// depuis la dernière migration montent ensemble.
pub open spec fn gain_possible(p: Partie, n: int) -> bool {
    &&& p.ecus + n <= u64::MAX
    &&& p.total_earned + n <= u64::MAX
    &&& p.run_earned + n <= u64::MAX
}

pub open spec fn apres_gain(p: Partie, n: int) -> Partie {
    Partie {
        ecus: (p.ecus + n) as u64,
        total_earned: (p.total_earned + n) as u64,
        run_earned: (p.run_earned + n) as u64,
        ..p
    }
}

/// Le meilleur palier de piège possédé (le bois s'il n'y en a aucun).
pub open spec fn meilleur_palier(traps: Seq<u32>) -> int {
    if traps[5] > 0 { 5 } else if traps[4] > 0 { 4 } else if traps[3] > 0 { 3 }
    else if traps[2] > 0 { 2 } else if traps[1] > 0 { 1 } else { 0 }
}

/// Le prix d'un emplacement de plus sur le biome `b` : le prix du meilleur
/// piège possédé pour le troisième, deux fois et demie pour le quatrième.
pub open spec fn cout_emplacement(p: Partie, b: int) -> int {
    let base = COUT_PIEGES@[meilleur_palier(p.traps@)] as int;
    let slots = match p.biomes@[b] { Some(t) => t.slots as int, None => 2 };
    if slots == 2 { base } else { base * 5 / 2 }
}

/// Le nombre de pièges qu'on peut poser : deux, plus un par licence.
pub open spec fn plafond_poses(p: Partie) -> int {
    2 + p.lab@[LAB_LICENCE as int] + p.licences
}

/// Le nombre total de pièges possédés, posés ou non.
pub open spec fn somme_pieges(t: Seq<u32>) -> int {
    t[0] + t[1] + t[2] + t[3] + t[4] + t[5]
}

/// Un terrain qu'on vient d'ouvrir : deux emplacements vides, la battue
/// permise tout de suite.
pub open spec fn terrain_neuf(t: Terrain) -> bool {
    &&& t.slots == 2
    &&& t.hunt_at == 0
    &&& forall|i: int| 0 <= i < 4 ==> #[trigger] t.pl[i] is None
}

/// `g` est la partie entière de √(gains / 1 000 000) : le nombre de trophées
/// qu'une migration rapporterait.
pub open spec fn trophees_pour(gains: int, g: int) -> bool {
    g >= 0 && g * g * 1_000_000 <= gains && (g + 1) * (g + 1) * 1_000_000 > gains
}

/// Une réserve sans aucun spécimen.
pub open spec fn reserve_vide(r: Reserve) -> bool {
    forall|k: int, i: int| 0 <= k < 4 && 0 <= i < 4 ==> #[trigger] r@[k][i] == 0
}

/// Les trophées qu'une migration rapporterait avec ces gains.
pub open spec fn trophees(gains: int) -> int {
    choose|g: int| trophees_pour(gains, g)
}

/// 2 à la puissance `n`.
pub open spec fn deux_puissance(n: nat) -> nat
    decreases n,
{
    if n == 0 { 1 } else { 2 * deux_puissance((n - 1) as nat) }
}

/// Le prix d'une migration : 100 000 écus, doublé à chaque migration déjà
/// faite, jusqu'à la douzième.
pub open spec fn cout_migration(migrations: int) -> int {
    100_000 * deux_puissance((if migrations < 12 { migrations } else { 12 }) as nat) as int
}

/// L'état après une migration qui rapporte `g` trophées : tout l'équipement,
/// la caisse et la réserve repartent de zéro (un piège en bois, la forêt
/// ouverte, 30 écus) ; le registre, les succès, les compteurs à vie et les
/// réglages restent.
pub open spec fn apres_migration(a: Partie, b: Partie, g: int) -> bool {
    &&& b.trophies == a.trophies + g
    &&& b.migrations == a.migrations + 1
    &&& b.ecus == ECUS_DEPART
    &&& b.run_earned == 0
    &&& b.traps@ == seq![1u32, 0, 0, 0, 0, 0]
    &&& forall|k: int| 0 <= k < 5 ==> b.baits@[k] == 0 && b.autosell@[k] == false
    &&& forall|k: int| 0 <= k < 15 ==> b.lab@[k] == 0
    &&& (b.biomes@[0] matches Some(t) && terrain_neuf(t))
    &&& forall|k: int| 1 <= k < 14 ==> b.biomes@[k] is None
    &&& forall|k: int| 0 <= k < 133 ==> reserve_vide(#[trigger] b.inv@[k])
    &&& forall|k: int| 0 <= k < 12 ==> b.museum@[k] is None
    &&& forall|k: int| 0 <= k < 6 ==> b.pens@[k] is None
    &&& forall|k: int| 0 <= k < 3 ==> b.contracts_done@[k] == false
    &&& b.autokeep == (if a.autokeep < 1 { 1 } else if a.autokeep > 4 { 4 } else { a.autokeep })
    &&& b == (Partie {
        trophies: b.trophies, migrations: b.migrations, ecus: b.ecus, run_earned: b.run_earned,
        traps: b.traps, baits: b.baits, lab: b.lab, autosell: b.autosell, biomes: b.biomes,
        inv: b.inv, museum: b.museum, pens: b.pens, contracts_done: b.contracts_done,
        autokeep: b.autokeep, ..a
    })
}

proof fn lemma_deux_puissance_croissante(k: nat, n: nat)
    requires
        k <= n,
    ensures
        deux_puissance(k) <= deux_puissance(n),
        deux_puissance(k) >= 1,
        deux_puissance(12) == 4096,
    decreases n,
{
    reveal_with_fuel(deux_puissance, 13);
    if k < n {
        lemma_deux_puissance_croissante(k, (n - 1) as nat);
    } else if k > 0 {
        lemma_deux_puissance_croissante((k - 1) as nat, (k - 1) as nat);
    }
}

/// Deux parties entières de la même racine sont égales.
proof fn lemma_trophees_unique(gains: int, g1: int, g2: int)
    requires
        trophees_pour(gains, g1),
    ensures
        trophees_pour(gains, g2) ==> g1 == g2,
        exists|g: int| trophees_pour(gains, g),
{
    if trophees_pour(gains, g2) {
        if g1 < g2 {
            assert((g1 + 1) * (g1 + 1) * 1_000_000 <= g2 * g2 * 1_000_000) by (nonlinear_arith)
                requires
                    0 <= g1 + 1 <= g2,
            ;
        } else if g2 < g1 {
            assert((g2 + 1) * (g2 + 1) * 1_000_000 <= g1 * g1 * 1_000_000) by (nonlinear_arith)
                requires
                    0 <= g2 + 1 <= g1,
            ;
        }
    }
}

/// Le stock livrable d'une réserve : les spécimens normaux, moins le
/// meilleur mâle et la meilleure femelle.
pub open spec fn livrable(r: Reserve) -> int {
    let garde = (if r.m[0] + r.m[1] + r.m[2] + r.m[3] > 0 { 1int } else { 0 })
        + (if r.f[0] + r.f[1] + r.f[2] + r.f[3] > 0 { 1int } else { 0 });
    if r.spec_tn() >= garde { r.spec_tn() - garde } else { 0 }
}

/// L'achat d'un piège du palier `t` : son prix quitte la caisse, il entre
/// en réserve.
pub open spec fn achat_piege(a: Partie, b: Partie, t: int) -> bool {
    &&& b.ecus == a.ecus - COUT_PIEGES@[t]
    &&& b.traps@ == a.traps@.update(t, (a.traps@[t] + 1) as u32)
    &&& b == (Partie { ecus: b.ecus, traps: b.traps, ..a })
}

/// La revente d'un piège du palier `t` : il quitte la réserve, la moitié de
/// son prix neuf entre en caisse.
pub open spec fn revente_piege(a: Partie, b: Partie, t: int) -> bool {
    &&& b.traps@ == a.traps@.update(t, (a.traps@[t] - 1) as u32)
    &&& b == (Partie { traps: b.traps, ..apres_gain(a, (COUT_PIEGES@[t] / 2) as int) })
}

/// L'offrande au puits, à l'instant `now`, du spécimen de rang `r` de
/// l'espèce `ci` : le plus bas rang normal, un mâle d'abord ; le jour réel
/// est marqué.
pub open spec fn offrande(a: Partie, b: Partie, ci: int, now: u64, r: int) -> bool {
    let inv = a.inv@[ci];
    let s = if inv.m@[r] > 0 { 0int } else { 1int };
    &&& r == plus_bas_de_deux(inv@[0], inv@[1])->0
    &&& b.inv@[ci]@ == retire(inv@, s, r)
    &&& b.inv@ == a.inv@.update(ci, b.inv@[ci])
    &&& b == (Partie {
        inv: b.inv,
        well_night: Some(now / JOUR_REEL_MS),
        sacrifices: (a.sacrifices + 1) as u32,
        ..a
    })
}

/// Une partie neuve : 30 écus, un piège en bois en réserve, la forêt ouverte
/// avec deux emplacements, un couple gardé à la vente, rien d'autre.
pub open spec fn partie_neuve(p: Partie) -> bool {
    &&& p.ecus == ECUS_DEPART
    &&& p.total_earned == 0 && p.run_earned == 0 && p.captures == 0 && p.shinies == 0
    &&& p.trophies == 0 && p.migrations == 0
    &&& p.traps@ == seq![1u32, 0, 0, 0, 0, 0]
    &&& forall|k: int| 0 <= k < 5 ==> p.baits@[k] == 0 && p.autosell@[k] == false
    &&& (p.biomes@[0] matches Some(t) && terrain_neuf(t))
    &&& forall|k: int| 1 <= k < 14 ==> p.biomes@[k] is None
    &&& forall|k: int| 0 <= k < 15 ==> p.lab@[k] == 0
    &&& p.licences == 0 && p.charms == 0 && p.autokeep == 1 && p.sacrifices == 0
    &&& p.well_night is None && p.streak == 0 && p.last_day == 0
    &&& p.hunts_done == 0 && p.contracts_delivered == 0 && p.legends_caught == 0 && p.pen_born == 0
    &&& p.trades_made == 0 && p.attempts == 0
    &&& forall|k: int| 0 <= k < 3 ==> p.contracts_done@[k] == false
    &&& forall|k: int| 0 <= k < 133 ==> reserve_vide(#[trigger] p.inv@[k])
    &&& forall|k: int| 0 <= k < 133 ==> #[trigger] p.dex@[k] == (Fiche { n: 0, s: 0, best: 0, bests: 0, mf: 0 })
    &&& forall|k: int| 0 <= k < 12 ==> p.museum@[k] is None
    &&& forall|k: int| 0 <= k < 6 ==> p.pens@[k] is None
    &&& forall|k: int| 0 <= k < 33 ==> p.ach@[k] == false
}

/// Combien en vendre : un seul, tout sauf le meilleur couple, ou tout.
#[derive(Clone, Copy, Debug, PartialEq, Eq)]
pub enum SellQty {
    One,
    Keep1,
    All,
}

/// La vente à la main de `q` spécimens de l'espèce `ci` (shinies ou non),
/// les plus bas rangs d'abord : `pris` compte ce qui part à chaque rang.
pub open spec fn vente_basse(a: Partie, b: Partie, ci: int, shiny: bool, q: int, pris: Seq<u64>) -> bool {
    let inv = a.inv@[ci];
    let x = inv@[casier(shiny, 0)];
    let y = inv@[casier(shiny, 1)];
    let p = prises(q, x, y);
    &&& forall|r: int| 0 <= r < 4 ==> pris[r] == p[r]
    &&& b.inv@[ci]@ == inv@.update(casier(shiny, 0), apres_prises(x, y, p).0).update(casier(shiny, 1), apres_prises(x, y, p).1)
    &&& b.inv@ == a.inv@.update(ci, b.inv@[ci])
    &&& b == (Partie { inv: b.inv, ..a })
}

/// L'arrivée d'un spécimen de l'espèce `ci` (rang `rang`, sexe `sexe`,
/// shiny ou non) : il entre en réserve et au registre, et compte parmi les
/// prises.
pub open spec fn arrivee(a: Partie, b: Partie, ci: int, shiny: bool, rang: int, sexe: u8) -> bool {
    &&& b.inv@[ci]@ == ajoute(a.inv@[ci]@, casier(shiny, sexe), rang)
    &&& b.inv@ == a.inv@.update(ci, b.inv@[ci])
    &&& b.dex@ == a.dex@.update(ci, fiche_apres(a.dex@[ci], shiny, rang, sexe))
    &&& b == (Partie {
        inv: b.inv, dex: b.dex,
        captures: (a.captures + 1) as u64,
        shinies: if shiny { (a.shinies + 1) as u64 } else { a.shinies },
        ..a
    })
}

/// Une vente ne fait que retirer : chaque compte reste sous ce qu'il était.
proof fn lemma_vente_basse_borne(a: Partie, b: Partie, ci: int, shiny: bool, q: int, pris: Seq<u64>)
    requires
        0 <= ci < NB_ESPECES,
        q >= 0,
        vente_basse(a, b, ci, shiny, q, pris),
    ensures
        forall|c: int, k: int, r: int| 0 <= c < NB_ESPECES && 0 <= k < 4 && 0 <= r < 4
            ==> #[trigger] b.inv@[c]@[k][r] <= a.inv@[c]@[k][r],
        b.dex == a.dex,
        b.captures == a.captures && b.shinies == a.shinies,
{
    let inv = a.inv@[ci];
    let x = inv@[casier(shiny, 0)];
    let y = inv@[casier(shiny, 1)];
    let p = prises(q, x, y);
    assert forall|c: int, k: int, r: int| 0 <= c < NB_ESPECES && 0 <= k < 4 && 0 <= r < 4
        implies #[trigger] b.inv@[c]@[k][r] <= a.inv@[c]@[k][r] by {
        if c == ci {
            lemma_partage_borne(x[r] as int, y[r] as int, p[r]);
        }
    }
}

/// Recherche « traqueur » : le repos entre deux battues raccourcit.
pub const LAB_TRAQUEUR: usize = 10;

/// Le meilleur appât dont on peut payer un lot de dix.
pub open spec fn meilleur_appat(ecus: u64) -> usize {
    if ecus >= 10 * COUT_APPATS@[4] { 4 } else if ecus >= 10 * COUT_APPATS@[3] { 3 }
    else if ecus >= 10 * COUT_APPATS@[2] { 2 } else if ecus >= 10 * COUT_APPATS@[1] { 1 } else { 0 }
}

/// L'espèce est au registre (en shiny si `shiny`).
pub open spec fn vue(f: Fiche, shiny: bool) -> bool {
    if shiny { f.s > 0 } else { f.n > 0 }
}

/// Une arrivée en partie compte au registre de son espèce : le compte de
/// shinies de la fiche augmente d'un exactement pour un shiny, et l'espèce
/// est alors vue en shiny ; les autres fiches ne bougent pas.
pub proof fn loi_arrivee_au_registre(a: Partie, b: Partie, ci: int, shiny: bool, rang: int, sexe: u8, cj: int)
    requires
        0 <= ci < NB_ESPECES,
        0 <= cj < NB_ESPECES,
        0 <= rang < 4,
        a.dex@[ci].n < u64::MAX,
        a.dex@[ci].s < u64::MAX,
        arrivee(a, b, ci, shiny, rang, sexe),
    ensures
        b.dex@[ci].n == a.dex@[ci].n + 1,
        b.dex@[ci].s == a.dex@[ci].s + (if shiny { 1int } else { 0int }),
        shiny ==> vue(b.dex@[ci], true),
        vue(b.dex@[ci], false),
        cj != ci ==> b.dex@[cj] == a.dex@[cj],
{
    crate::bestiaire::loi_arrivee_compte_les_shinies(a.dex@[ci], shiny, rang, sexe);
}

/// Toutes les espèces du biome `b` sont au registre (en shiny si `shiny`).
pub open spec fn biome_complet(dex: Seq<Fiche>, b: int, shiny: bool) -> bool {
    forall|c: int| 0 <= c < NB_ESPECES && BIOME_DES_ESPECES@[c] == b ==> #[trigger] vue(dex[c], shiny)
}

/// Les biomes `< k` de la carte entièrement vus (ou vus en shiny).
pub open spec fn biomes_complets(dex: Seq<Fiche>, k: int, shiny: bool) -> nat
    decreases k,
{
    if k <= 0 { 0 } else { biomes_complets(dex, k - 1, shiny) + if biome_complet(dex, k - 1, shiny) { 1nat } else { 0nat } }
}

/// Le repos entre deux battues : cinq minutes, moins trente secondes par
/// niveau de traqueur.
pub open spec fn repos_battue(p: Partie) -> int {
    (300 - 30 * p.lab@[LAB_TRAQUEUR as int]) * 1000
}

/// Recherche « auto-vente » : les doublons se revendent dès la capture.
pub const LAB_AUTOVENTE: usize = 5;

/// L'auto-vente s'applique à une prise de l'espèce `ci` : recherchée au
/// labo, choisie pour sa rareté, et jamais pour un shiny.
pub open spec fn autovente(p: Partie, ci: int, shiny: bool) -> bool {
    p.lab@[LAB_AUTOVENTE as int] >= 1 && p.autosell@[RARETE_DES_ESPECES@[ci] as int] && !shiny
}

/// L'auto-vente de l'espèce `ci` dans l'état `m` :
/// si elle s'applique et que l'espèce a du surplus au-delà des couples
/// gardés et du `besoin` des commandes, le surplus se vend (`vente`) ;
/// sinon rien ne bouge.
pub open spec fn apres_autovente(m: Partie, fin: Partie, ci: int, shiny: bool, besoin: int, vente: Option<(u64, [u64; 4])>) -> bool {
    let vend = autovente(m, ci, shiny) && m.inv@[ci].spec_tn() > 2 * couples_gardes(m.autokeep) + besoin;
    &&& vente is Some == vend
    &&& vente matches Some((q, pris)) ==> q == surplus(m.inv@[ci], couples_gardes(m.autokeep), besoin)
        && retrait(m.inv@[ci], fin.inv@[ci], couples_gardes(m.autokeep), q as int, pris@)
        && fin.inv@ == m.inv@.update(ci, fin.inv@[ci])
        && fin == (Partie { inv: fin.inv, ..m })
    &&& vente is None ==> fin == m
}

impl Partie {
    /// Une partie neuve.
    pub fn neuve() -> (p: Partie)
        ensures
            partie_neuve(p),
            bien_formee(p),
    {
        let vide = Reserve::vide();
        let vierge = Fiche::vierge();
        let mut biomes: [Option<Terrain>; 14] = [None; 14];
        biomes[0] = Some(Terrain { slots: 2, pl: [None; 4], hunt_at: 0 });
        let p = Partie {
            ecus: ECUS_DEPART,
            total_earned: 0,
            run_earned: 0,
            captures: 0,
            shinies: 0,
            trophies: 0,
            migrations: 0,
            traps: [1, 0, 0, 0, 0, 0],
            baits: [0; 5],
            biomes,
            lab: [0; 15],
            licences: 0,
            charms: 0,
            autokeep: 1,
            autosell: [false; 5],
            sacrifices: 0,
            well_night: None,
            streak: 0,
            last_day: 0,
            hunts_done: 0,
            contracts_delivered: 0,
            legends_caught: 0,
            pen_born: 0,
            trades_made: 0,
            attempts: 0,
            contracts_done: [false; 3],
            inv: [vide; 133],
            dex: [vierge; 133],
            museum: [None; 12],
            pens: [None; 6],
            ach: [false; 33],
        };
        proof {
            assert(p.traps@ =~= seq![1u32, 0, 0, 0, 0, 0]);
        }
        p
    }

    /// Pièges du palier `tier` posés dans toute la partie.
    pub fn placed_count(&self, tier: usize) -> (n: u32)
        ensures
            n == poses(*self, tier as int),
    {
        let mut n: u32 = 0;
        let mut b: usize = 0;
        while b < NB_BIOMES
            invariant
                b <= NB_BIOMES,
                n == poses_biomes(self.biomes@, b as int, tier as int),
            decreases NB_BIOMES - b,
        {
            proof {
                lemma_poses_bornees(self.biomes@, b as int, tier as int);
            }
            match self.biomes[b] {
                Some(t) => {
                    let k = compte_pose_exec(t.pl[0], tier) + compte_pose_exec(t.pl[1], tier)
                        + compte_pose_exec(t.pl[2], tier) + compte_pose_exec(t.pl[3], tier);
                    n = n + k;
                },
                None => {},
            }
            b = b + 1;
        }
        n
    }

    /// Pièges posés, tous paliers confondus.
    pub fn placed_total(&self) -> (n: u32)
        ensures
            n == poses_totales(*self),
    {
        let mut n: u32 = 0;
        let mut t: usize = 0;
        while t < NB_PIEGES
            invariant
                t <= NB_PIEGES,
                n == poses_jusqua(*self, t as int),
            decreases NB_PIEGES - t,
        {
            proof {
                lemma_poses_jusqua_bornees(*self, t as int);
                lemma_poses_bornees(self.biomes@, NB_BIOMES as int, t as int);
            }
            n = n + self.placed_count(t);
            t = t + 1;
        }
        n
    }

    /// Le nombre de pièges qu'on peut poser en même temps.
    pub fn trap_cap(&self) -> (n: u32)
        requires
            plafond_poses(*self) <= u32::MAX,
        ensures
            n == plafond_poses(*self),
    {
        2 + self.lab[LAB_LICENCE] + self.licences
    }

    /// Le prix d'un emplacement de plus sur le biome `b`.
    pub fn slot_cost(&self, b: usize) -> (c: u64)
        requires
            b < NB_BIOMES,
        ensures
            c == cout_emplacement(*self, b as int),
    {
        let meilleur: usize = if self.traps[5] > 0 { 5 } else if self.traps[4] > 0 { 4 }
            else if self.traps[3] > 0 { 3 } else if self.traps[2] > 0 { 2 }
            else if self.traps[1] > 0 { 1 } else { 0 };
        let base = COUT_PIEGES[meilleur];
        let slots: usize = match self.biomes[b] { Some(t) => t.slots, None => 2 };
        if slots == 2 { base } else { base * 5 / 2 }
    }

    /// Le palier de piège qu'on achèterait ensuite : un cran au-dessus du
    /// meilleur possédé, sans dépasser le dernier.
    pub fn next_trap(&self) -> (t: usize)
        ensures
            t == (if meilleur_palier(self.traps@) < 5 { meilleur_palier(self.traps@) + 1 } else { 5 }),
    {
        let meilleur: usize = if self.traps[5] > 0 { 5 } else if self.traps[4] > 0 { 4 }
            else if self.traps[3] > 0 { 3 } else if self.traps[2] > 0 { 2 }
            else if self.traps[1] > 0 { 1 } else { 0 };
        if meilleur + 1 < NB_PIEGES { meilleur + 1 } else { NB_PIEGES - 1 }
    }

    /// Les salles du musée ouvertes : six, plus une par aile construite.
    pub fn museum_slots(&self) -> (n: usize)
        requires
            self.lab[LAB_AILES as int] <= LABO_MAX[LAB_AILES as int],
        ensures
            n == 6 + self.lab[LAB_AILES as int],
    {
        6 + self.lab[LAB_AILES] as usize
    }

    /// Les enclos ouverts : trois, plus un par agrandissement.
    pub fn pen_slots(&self) -> (n: usize)
        requires
            self.lab[LAB_ENCLOS as int] <= LABO_MAX[LAB_ENCLOS as int],
        ensures
            n == 3 + self.lab[LAB_ENCLOS as int],
    {
        3 + self.lab[LAB_ENCLOS] as usize
    }

    /// Encaisse `n` écus.
    pub fn gain(&mut self, n: u64)
        requires
            gain_possible(*old(self), n as int),
        ensures
            *final(self) == apres_gain(*old(self), n as int),
    {
        self.ecus = self.ecus + n;
        self.total_earned = self.total_earned + n;
        self.run_earned = self.run_earned + n;
    }

    /// Revend un piège du palier `t` pour la moitié de son prix neuf, à
    /// deux conditions : qu'il en reste un en réserve (un piège posé n'y est
    /// pas), et que ce ne soit pas le dernier piège de la partie. Renvoie
    /// vrai si la revente s'est faite.
    pub fn revendre_piege(&mut self, t: usize) -> (ok: bool)
        requires
            t < NB_PIEGES,
            poses(*old(self), t as int) <= old(self).traps[t as int],
            somme_pieges(old(self).traps@) <= u32::MAX,
            gain_possible(*old(self), (COUT_PIEGES[t as int] / 2) as int),
        ensures
            ok == (old(self).traps[t as int] > poses(*old(self), t as int)
                && somme_pieges(old(self).traps@) > 1),
            ok ==> revente_piege(*old(self), *final(self), t as int),
            !ok ==> *final(self) == *old(self),
    {
        let libres = self.traps[t] - self.placed_count(t);
        let total: u32 = self.traps[0] + self.traps[1] + self.traps[2] + self.traps[3] + self.traps[4]
            + self.traps[5];
        if libres > 0 && total > 1 {
            self.traps[t] = self.traps[t] - 1;
            self.gain(COUT_PIEGES[t] / 2);
            true
        } else {
            false
        }
    }

    /// Achète `q` appâts de la sorte `bt` s'il y a de quoi les payer.
    /// Renvoie vrai si l'achat s'est fait.
    pub fn acheter_appats(&mut self, bt: usize, q: u64) -> (ok: bool)
        requires
            bt < NB_APPATS,
            COUT_APPATS[bt as int] * q <= old(self).ecus ==> old(self).baits[bt as int] + q <= u64::MAX,
        ensures
            ok == (COUT_APPATS[bt as int] * q <= old(self).ecus),
            ok ==> final(self).ecus == old(self).ecus - COUT_APPATS[bt as int] * q
                && final(self).baits@ == old(self).baits@.update(bt as int, (old(self).baits[bt as int] + q) as u64)
                && *final(self) == (Partie { ecus: final(self).ecus, baits: final(self).baits, ..*old(self) }),
            !ok ==> *final(self) == *old(self),
    {
        match COUT_APPATS[bt].checked_mul(q) {
            Some(cout) => {
                if self.ecus >= cout {
                    self.ecus = self.ecus - cout;
                    self.baits[bt] = self.baits[bt] + q;
                    true
                } else {
                    false
                }
            },
            None => false,
        }
    }

    /// Monte d'un niveau la recherche `k` du labo, au prix `cout` du niveau
    /// suivant, si elle n'est pas au maximum et qu'il y a de quoi payer.
    /// Renvoie vrai si la recherche a progressé.
    pub fn acheter_labo(&mut self, k: usize, cout: u64) -> (ok: bool)
        requires
            k < NB_LABOS,
        ensures
            ok == (old(self).lab[k as int] < LABO_MAX[k as int] && old(self).ecus >= cout),
            ok ==> final(self).ecus == old(self).ecus - cout
                && final(self).lab@ == old(self).lab@.update(k as int, (old(self).lab[k as int] + 1) as u32)
                && *final(self) == (Partie { ecus: final(self).ecus, lab: final(self).lab, ..*old(self) }),
            !ok ==> *final(self) == *old(self),
    {
        if self.lab[k] < LABO_MAX[k] && self.ecus >= cout {
            self.ecus = self.ecus - cout;
            self.lab[k] = self.lab[k] + 1;
            true
        } else {
            false
        }
    }

    /// Ouvre le biome `b` de la carte s'il est encore fermé et qu'il y a de
    /// quoi le payer : il arrive avec deux emplacements vides. Les biomes
    /// hors carte ne s'ouvrent jamais. Renvoie vrai si le biome s'est ouvert.
    pub fn debloquer(&mut self, b: usize) -> (ok: bool)
        requires
            b < NB_BIOMES,
            bien_formee(*old(self)),
        ensures
            ok == (b < 11 && old(self).biomes[b as int] is None && old(self).ecus >= COUT_BIOMES[b as int]),
            ok ==> final(self).ecus == old(self).ecus - COUT_BIOMES[b as int]
                && (final(self).biomes[b as int] matches Some(t) && terrain_neuf(t))
                && final(self).biomes@ == old(self).biomes@.update(b as int, final(self).biomes[b as int])
                && *final(self) == (Partie { ecus: final(self).ecus, biomes: final(self).biomes, ..*old(self) }),
            !ok ==> *final(self) == *old(self),
            bien_formee(*final(self)),
    {
        if b < 11 && self.biomes[b].is_none() && self.ecus >= COUT_BIOMES[b] {
            self.ecus = self.ecus - COUT_BIOMES[b];
            self.biomes[b] = Some(Terrain { slots: 2, pl: [None; 4], hunt_at: 0 });
            proof {
                assert(self.biomes@ =~= old(self).biomes@.update(b as int, self.biomes[b as int]));
            }
            true
        } else {
            false
        }
    }

    /// Ajoute un emplacement au biome ouvert `b` (quatre au plus), au prix
    /// d'un emplacement. Renvoie vrai si l'achat s'est fait.
    pub fn acheter_emplacement(&mut self, b: usize) -> (ok: bool)
        requires
            b < NB_BIOMES,
            bien_formee(*old(self)),
        ensures
            ok == (old(self).biomes[b as int] matches Some(t) && t.slots < EMPLACEMENTS_MAX
                && old(self).ecus >= cout_emplacement(*old(self), b as int)),
            ok ==> ({
                let t = old(self).biomes[b as int]->0;
                &&& final(self).ecus == old(self).ecus - cout_emplacement(*old(self), b as int)
                &&& final(self).biomes@ == old(self).biomes@.update(b as int, Some(Terrain { slots: (t.slots + 1) as usize, ..t }))
                &&& *final(self) == (Partie { ecus: final(self).ecus, biomes: final(self).biomes, ..*old(self) })
            }),
            !ok ==> *final(self) == *old(self),
            bien_formee(*final(self)),
    {
        let cout = self.slot_cost(b);
        match self.biomes[b] {
            Some(t) => {
                if t.slots < EMPLACEMENTS_MAX && self.ecus >= cout {
                    self.ecus = self.ecus - cout;
                    self.biomes[b] = Some(Terrain { slots: t.slots + 1, ..t });
                    proof {
                        assert(self.biomes@ =~= old(self).biomes@.update(b as int, Some(Terrain { slots: (t.slots + 1) as usize, ..t })));
                    }
                    true
                } else {
                    false
                }
            },
            None => false,
        }
    }

    /// Pose un piège du palier `t` sur l'emplacement `i` du biome `b`, sa
    /// première levée dans `itv` millisecondes — sauf si la licence est déjà
    /// pleine. Renvoie faux si la licence a refusé la pose.
    pub fn poser(&mut self, b: usize, i: usize, t: usize, now: u64, itv: u64) -> (ok: bool)
        requires
            b < NB_BIOMES,
            t < NB_PIEGES,
            bien_formee(*old(self)),
            old(self).biomes[b as int] matches Some(ter) ==> i < ter.slots,
            plafond_poses(*old(self)) <= u32::MAX,
            now + itv <= u64::MAX,
        ensures
            ok == (poses_totales(*old(self)) < plafond_poses(*old(self))),
            ok && old(self).biomes[b as int] is Some ==> ({
                let ter = old(self).biomes[b as int]->0;
                let pose = Pose { trap: t, bait: None, next_at: (now + itv) as u64 };
                &&& final(self).biomes[b as int] matches Some(nt) && nt.pl@ == ter.pl@.update(i as int, Some(pose))
                    && nt == (Terrain { pl: nt.pl, ..ter })
                &&& final(self).biomes@ == old(self).biomes@.update(b as int, final(self).biomes[b as int])
                &&& *final(self) == (Partie { biomes: final(self).biomes, ..*old(self) })
            }),
            !ok || old(self).biomes[b as int] is None ==> *final(self) == *old(self),
            bien_formee(*final(self)),
    {
        if self.placed_total() >= self.trap_cap() {
            return false;
        }
        match self.biomes[b] {
            Some(ter) => {
                let mut nt = ter;
                nt.pl[i] = Some(Pose { trap: t, bait: None, next_at: now + itv });
                self.biomes[b] = Some(nt);
                proof {
                    assert(self.biomes@ =~= old(self).biomes@.update(b as int, self.biomes[b as int]));
                }
            },
            None => {},
        }
        true
    }

    /// Change l'appât du piège posé en `i` sur le biome `b` (ou le retire).
    pub fn appater(&mut self, b: usize, i: usize, bt: Option<usize>)
        requires
            b < NB_BIOMES,
            bien_formee(*old(self)),
            old(self).biomes[b as int] matches Some(ter) ==> i < ter.slots,
            bt matches Some(x) ==> x < NB_APPATS,
        ensures
            (old(self).biomes[b as int] matches Some(ter) && ter.pl[i as int] is Some) ==> ({
                let ter = old(self).biomes[b as int]->0;
                let p = ter.pl[i as int]->0;
                &&& final(self).biomes[b as int] matches Some(nt)
                    && nt.pl@ == ter.pl@.update(i as int, Some(Pose { bait: bt, ..p }))
                    && nt == (Terrain { pl: nt.pl, ..ter })
                &&& final(self).biomes@ == old(self).biomes@.update(b as int, final(self).biomes[b as int])
                &&& *final(self) == (Partie { biomes: final(self).biomes, ..*old(self) })
            }),
            !(old(self).biomes[b as int] matches Some(ter) && ter.pl[i as int] is Some) ==> *final(self) == *old(self),
            bien_formee(*final(self)),
    {
        match self.biomes[b] {
            Some(ter) => {
                match ter.pl[i] {
                    Some(p) => {
                        let mut nt = ter;
                        nt.pl[i] = Some(Pose { bait: bt, ..p });
                        self.biomes[b] = Some(nt);
                        proof {
                            assert(self.biomes@ =~= old(self).biomes@.update(b as int, self.biomes[b as int]));
                        }
                    },
                    None => {},
                }
            },
            None => {},
        }
    }

    /// Relève le piège posé en `i` sur le biome `b` : il rentre en réserve.
    pub fn retirer_piege(&mut self, b: usize, i: usize)
        requires
            b < NB_BIOMES,
            bien_formee(*old(self)),
            old(self).biomes[b as int] matches Some(ter) ==> i < ter.slots,
        ensures
            old(self).biomes[b as int] is Some ==> ({
                let ter = old(self).biomes[b as int]->0;
                &&& final(self).biomes[b as int] matches Some(nt)
                    && nt.pl@ == ter.pl@.update(i as int, None)
                    && nt == (Terrain { pl: nt.pl, ..ter })
                &&& final(self).biomes@ == old(self).biomes@.update(b as int, final(self).biomes[b as int])
                &&& *final(self) == (Partie { biomes: final(self).biomes, ..*old(self) })
            }),
            old(self).biomes[b as int] is None ==> *final(self) == *old(self),
            bien_formee(*final(self)),
    {
        match self.biomes[b] {
            Some(ter) => {
                let mut nt = ter;
                nt.pl[i] = None;
                self.biomes[b] = Some(nt);
                proof {
                    assert(self.biomes@ =~= old(self).biomes@.update(b as int, self.biomes[b as int]));
                }
            },
            None => {},
        }
    }

    /// Règle le nombre de couples que la vente épargne : entre un et quatre.
    pub fn regler_garde(&mut self, n: u32)
        ensures
            final(self).autokeep == (if n < 1 { 1 } else if n > 4 { 4 } else { n }),
            *final(self) == (Partie { autokeep: final(self).autokeep, ..*old(self) }),
    {
        self.autokeep = if n < 1 { 1 } else if n > 4 { 4 } else { n };
    }

    /// Bascule la vente automatique des prises de rareté `r`.
    pub fn basculer_autovente(&mut self, r: usize)
        requires
            r < 5,
        ensures
            final(self).autosell@ == old(self).autosell@.update(r as int, !old(self).autosell[r as int]),
            *final(self) == (Partie { autosell: final(self).autosell, ..*old(self) }),
    {
        self.autosell[r] = !self.autosell[r];
    }

    /// Les trophées qu'une migration rapporterait maintenant : la partie
    /// entière de √(gains depuis la dernière migration / 1 000 000).
    pub fn trophy_gain(&self) -> (g: u64)
        ensures
            trophees_pour(self.run_earned as int, g as int),
            g == trophees(self.run_earned as int),
    {
        let p = self.run_earned as u128;
        let mut lo: u128 = 0;
        let mut hi: u128 = 0x1_0000_0000;
        assert(hi * hi * 1_000_000 > p) by (nonlinear_arith)
            requires
                hi == 0x1_0000_0000,
                p <= u64::MAX,
        ;
        while hi - lo > 1
            invariant
                lo < hi <= 0x1_0000_0000,
                p <= u64::MAX,
                lo * lo * 1_000_000 <= p,
                hi * hi * 1_000_000 > p,
            decreases hi - lo,
        {
            let mid = lo + (hi - lo) / 2;
            assert(mid * mid * 1_000_000 <= 0x1_0000_0000 * 0x1_0000_0000 * 1_000_000) by (nonlinear_arith)
                requires
                    mid <= 0x1_0000_0000,
            ;
            if mid * mid * 1_000_000 <= p {
                lo = mid;
            } else {
                hi = mid;
            }
        }
        proof {
            lemma_trophees_unique(p as int, lo as int, trophees(p as int));
        }
        lo as u64
    }

    /// Le prix de la prochaine migration.
    pub fn migration_cost(&self) -> (c: u64)
        ensures
            c == cout_migration(self.migrations as int),
    {
        let n: u32 = if self.migrations < 12 { self.migrations } else { 12 };
        let mut c: u64 = 100_000;
        let mut k: u32 = 0;
        while k < n
            invariant
                k <= n <= 12,
                c == 100_000 * deux_puissance(k as nat),
                c <= 100_000 * 4096,
            decreases n - k,
        {
            proof {
                lemma_deux_puissance_croissante((k + 1) as nat, 12);
                assert(deux_puissance((k + 1) as nat) == 2 * deux_puissance(k as nat));
            }
            c = c * 2;
            k = k + 1;
        }
        c
    }

    /// Migre : si les gains depuis la dernière migration valent au moins un
    /// trophée et qu'on a de quoi payer le voyage, on encaisse les trophées
    /// et tout recommence. Renvoie les trophées gagnés, ou rien si la
    /// migration est refusée (partie intacte).
    pub fn migrer(&mut self) -> (res: Option<u64>)
        requires
            trophees(old(self).run_earned as int) >= 1
                && old(self).ecus >= cout_migration(old(self).migrations as int)
                ==> old(self).trophies + trophees(old(self).run_earned as int) <= u32::MAX
                    && old(self).migrations < u32::MAX,
        ensures
            ({
                let g = trophees(old(self).run_earned as int);
                &&& res is Some == (g >= 1 && old(self).ecus >= cout_migration(old(self).migrations as int))
                &&& res matches Some(n) ==> n == g && apres_migration(*old(self), *final(self), g)
                &&& res is None ==> *final(self) == *old(self)
            }),
            res is Some ==> bien_formee(*final(self)),
    {
        let g = self.trophy_gain();
        proof {
            lemma_trophees_unique(old(self).run_earned as int, g as int, trophees(old(self).run_earned as int));
        }
        let cout = self.migration_cost();
        if g >= 1 && self.ecus >= cout {
            self.trophies = self.trophies + g as u32;
            self.migrations = self.migrations + 1;
            self.ecus = ECUS_DEPART;
            self.run_earned = 0;
            self.traps = [1, 0, 0, 0, 0, 0];
            self.baits = [0; 5];
            let vide = Reserve::vide();
            self.inv = [vide; 133];
            self.museum = [None; 12];
            self.pens = [None; 6];
            self.contracts_done = [false; 3];
            self.lab = [0; 15];
            self.autosell = [false; 5];
            self.biomes = [None; 14];
            self.biomes[0] = Some(Terrain { slots: 2, pl: [None; 4], hunt_at: 0 });
            self.autokeep = if self.autokeep < 1 { 1 } else if self.autokeep > 4 { 4 } else { self.autokeep };
            proof {
                assert(self.traps@ =~= seq![1u32, 0, 0, 0, 0, 0]);
            }
            Some(g)
        } else {
            None
        }
    }

    /// Le puits a déjà bu pendant le jour réel de l'instant `now`.
    pub fn well_used_tonight(&self, now: u64) -> (b: bool)
        ensures
            b == (self.well_night == Some(now / JOUR_REEL_MS)),
    {
        match self.well_night {
            Some(j) => j == jour_reel(now),
            None => false,
        }
    }

    /// La margelle bat : le puits a soif et n'a pas encore bu aujourd'hui.
    pub fn puits_luit(&self, now: u64) -> (b: bool)
        ensures
            b == (spec_puits_assoiffe(now) && self.well_night != Some(now / JOUR_REEL_MS)),
    {
        puits_assoiffe(now) && !self.well_used_tonight(now)
    }

    /// Offre au puits le spécimen normal de plus bas rang de l'espèce `ci`,
    /// si le puits a soif, n'a pas encore bu ce jour réel, et qu'il y a de
    /// quoi donner ; un shiny ne part jamais. Renvoie le rang offert, ou
    /// rien (partie intacte).
    pub fn sacrifier(&mut self, ci: usize, now: u64) -> (res: Option<usize>)
        requires
            ci < NB_ESPECES,
            old(self).inv[ci as int].spec_tn() <= u64::MAX,
            old(self).sacrifices < u32::MAX,
        ensures
            res is Some == (old(self).well_night != Some(now / JOUR_REEL_MS) && spec_puits_assoiffe(now)
                && old(self).inv[ci as int].spec_tn() > 0),
            res matches Some(r) ==> offrande(*old(self), *final(self), ci as int, now, r as int),
            res is None ==> *final(self) == *old(self),
    {
        if self.well_used_tonight(now) || !puits_assoiffe(now) || self.inv[ci].tn() == 0 {
            return None;
        }
        let mut r = self.inv[ci];
        match r.take_lowest_one() {
            Some((rang, _)) => {
                self.inv[ci] = r;
                self.well_night = Some(jour_reel(now));
                self.sacrifices = self.sacrifices + 1;
                proof {
                    assert(self.inv@ =~= old(self).inv@.update(ci as int, self.inv[ci as int]));
                }
                Some(rang)
            },
            None => None,
        }
    }

    /// Livre le contrat `idx` (l'espèce `ci`, `qty` spécimens, prime
    /// `reward`) s'il est encore ouvert et que le stock livrable suffit : les
    /// plus bas rangs partent, le meilleur couple et les shinies restent.
    /// Renvoie vrai si la livraison s'est faite.
    pub fn livrer(&mut self, idx: usize, ci: usize, qty: u64, reward: u64) -> (ok: bool)
        requires
            idx < 3,
            ci < NB_ESPECES,
            old(self).inv[ci as int].spec_tn() <= u64::MAX,
            gain_possible(*old(self), reward as int),
            old(self).contracts_delivered < u64::MAX,
        ensures
            ok == (!old(self).contracts_done[idx as int] && qty <= livrable(old(self).inv[ci as int])),
            ok ==> ({
                &&& exists|pris: Seq<u64>| retrait(old(self).inv[ci as int], final(self).inv[ci as int], 1, qty as int, pris)
                &&& final(self).inv@ == old(self).inv@.update(ci as int, final(self).inv[ci as int])
                &&& final(self).contracts_done@ == old(self).contracts_done@.update(idx as int, true)
                &&& *final(self) == (Partie {
                    inv: final(self).inv,
                    contracts_done: final(self).contracts_done,
                    contracts_delivered: (old(self).contracts_delivered + 1) as u64,
                    ..apres_gain(*old(self), reward as int)
                })
            }),
            !ok ==> *final(self) == *old(self),
    {
        if self.contracts_done[idx] || self.inv[ci].deliverable() < qty {
            return false;
        }
        let mut r = self.inv[ci];
        let pris = r.retirer_en_gardant(1, qty);
        self.inv[ci] = r;
        self.contracts_done[idx] = true;
        self.contracts_delivered = self.contracts_delivered + 1;
        self.gain(reward);
        proof {
            assert(self.inv@ =~= old(self).inv@.update(ci as int, self.inv[ci as int]));
        }
        true
    }

    /// Expose au musée, dans la salle `slot` (ouverte et vide), le meilleur
    /// spécimen de l'espèce `ci` (shiny ou non). Renvoie vrai si une pièce a
    /// été exposée.
    pub fn exposer(&mut self, slot: usize, ci: usize, shiny: bool) -> (ok: bool)
        requires
            ci < NB_ESPECES,
            old(self).lab[LAB_AILES as int] <= LABO_MAX[LAB_AILES as int],
        ensures
            ({
                let a = old(self).inv[ci as int];
                let meilleur = plus_haut_de_deux(a@[casier(shiny, 0)], a@[casier(shiny, 1)]);
                &&& ok == (slot < 6 + old(self).lab[LAB_AILES as int] && old(self).museum[slot as int] is None
                    && meilleur is Some)
                &&& ok ==> ({
                    let r = meilleur->0;
                    let s: u8 = if a@[casier(shiny, 0)][r] >= a@[casier(shiny, 1)][r] { 0u8 } else { 1u8 };
                    &&& final(self).inv[ci as int]@ == retire(a@, casier(shiny, s), r)
                    &&& final(self).inv@ == old(self).inv@.update(ci as int, final(self).inv[ci as int])
                    &&& final(self).museum@ == old(self).museum@.update(slot as int,
                        Some(Expo { ci, rank: r as usize, shiny, sex: s }))
                    &&& *final(self) == (Partie { inv: final(self).inv, museum: final(self).museum, ..*old(self) })
                })
                &&& !ok ==> *final(self) == *old(self)
            }),
    {
        if slot >= self.museum_slots() || self.museum[slot].is_some() {
            return false;
        }
        let mut r = self.inv[ci];
        match r.take_best(shiny) {
            Some((rank, sex)) => {
                self.inv[ci] = r;
                self.museum[slot] = Some(Expo { ci, rank, shiny, sex });
                proof {
                    assert(self.inv@ =~= old(self).inv@.update(ci as int, self.inv[ci as int]));
                    assert(self.museum@ =~= old(self).museum@.update(slot as int, Some(Expo { ci, rank, shiny, sex })));
                }
                true
            },
            None => false,
        }
    }

    /// Décroche la pièce de la salle `slot` : elle retourne en réserve.
    /// Renvoie la pièce décrochée, ou rien si la salle était vide.
    pub fn decrocher(&mut self, slot: usize) -> (res: Option<Expo>)
        requires
            slot < NB_SALLES,
            old(self).museum[slot as int] matches Some(e) ==> e.ci < NB_ESPECES && e.rank < 4
                && old(self).inv[e.ci as int]@[casier(e.shiny, e.sex)][e.rank as int] < u64::MAX,
        ensures
            res == old(self).museum[slot as int],
            res matches Some(e) ==> ({
                &&& final(self).inv[e.ci as int]@ == ajoute(old(self).inv[e.ci as int]@, casier(e.shiny, e.sex), e.rank as int)
                &&& final(self).inv@ == old(self).inv@.update(e.ci as int, final(self).inv[e.ci as int])
                &&& final(self).museum@ == old(self).museum@.update(slot as int, None)
                &&& *final(self) == (Partie { inv: final(self).inv, museum: final(self).museum, ..*old(self) })
            }),
            res is None ==> *final(self) == *old(self),
    {
        match self.museum[slot] {
            Some(e) => {
                self.museum[slot] = None;
                let mut r = self.inv[e.ci];
                r.give_back(e.shiny, e.sex, e.rank);
                self.inv[e.ci] = r;
                proof {
                    assert(self.inv@ =~= old(self).inv@.update(e.ci as int, self.inv[e.ci as int]));
                    assert(self.museum@ =~= old(self).museum@.update(slot as int, None));
                }
                Some(e)
            },
            None => None,
        }
    }

    /// Le rituel du jour : au premier passage d'un nouveau jour réel `day`,
    /// la série s'allonge si l'on est venu la veille (elle repart à un
    /// sinon) et offre autant de baies que de jours de série, dix au plus.
    /// Renvoie le cadeau, ou rien si le jour était déjà compté.
    pub fn nouveau_jour(&mut self, day: u32) -> (res: Option<u64>)
        requires
            old(self).last_day != day ==> old(self).last_day < u32::MAX && old(self).streak < u32::MAX
                && old(self).baits[0] + 10 <= u64::MAX,
        ensures
            res is Some == (old(self).last_day != day),
            res matches Some(g) ==> ({
                let serie = if old(self).last_day + 1 == day { old(self).streak + 1 } else { 1 };
                &&& final(self).streak == serie
                &&& g == (if serie < 10 { serie } else { 10 })
                &&& final(self).baits@ == old(self).baits@.update(0, (old(self).baits[0] + g) as u64)
                &&& *final(self) == (Partie { streak: final(self).streak, last_day: day, baits: final(self).baits, ..*old(self) })
            }),
            res is None ==> *final(self) == *old(self),
    {
        if self.last_day == day {
            return None;
        }
        self.streak = if self.last_day + 1 == day { self.streak + 1 } else { 1 };
        self.last_day = day;
        let gift: u64 = if self.streak < 10 { self.streak as u64 } else { 10 };
        self.baits[0] = self.baits[0] + gift;
        Some(gift)
    }

    /// Installe dans l'enclos `slot` un couple de l'espèce `ci` : au rang
    /// choisi, ou les plus bas rangs par défaut. Renvoie vrai si le couple
    /// s'est installé.
    pub fn installer_couple(&mut self, slot: usize, ci: usize, rang: Option<usize>, now: u64) -> (ok: bool)
        requires
            ci < NB_ESPECES,
            old(self).lab[LAB_ENCLOS as int] <= LABO_MAX[LAB_ENCLOS as int],
            now <= u64::MAX - 1080 * 60_000,
        ensures
            ok == (slot < 3 + old(self).lab[LAB_ENCLOS as int] && slot < NB_ENCLOS
                && old(self).pens[slot as int] is None && parents(old(self).inv[ci as int], rang) is Some),
            ok ==> ({
                let (rm, rf) = parents(old(self).inv[ci as int], rang)->0;
                &&& final(self).inv[ci as int]@ == retire(retire(old(self).inv[ci as int]@, 0, rm), 1, rf)
                &&& final(self).inv@ == old(self).inv@.update(ci as int, final(self).inv[ci as int])
                &&& final(self).pens@ == old(self).pens@.update(slot as int, Some(Pen {
                    ci,
                    r1: rm as usize,
                    r2: rf as usize,
                    ready_at: (now + PEN_MIN@[RARETE_DES_ESPECES@[ci as int] as int] * 60_000) as u64,
                }))
                &&& *final(self) == (Partie { inv: final(self).inv, pens: final(self).pens, ..*old(self) })
            }),
            !ok ==> *final(self) == *old(self),
    {
        let ouverts = self.pen_slots();
        let mut r = self.inv[ci];
        let mut pens = self.pens;
        let ok = pen_start(&mut pens, &mut r, slot, ouverts, ci, rang, now);
        if ok {
            self.inv[ci] = r;
            self.pens = pens;
            proof {
                assert(self.inv@ =~= old(self).inv@.update(ci as int, self.inv[ci as int]));
            }
        }
        ok
    }

    /// Recueille la naissance de l'enclos `slot` si la couvaison est finie :
    /// le petit naît au meilleur rang de ses parents, un cran au-dessus si
    /// `monte`, shiny si `shiny`, et entre en réserve et au registre.
    /// Renvoie (le couple, le rang du petit, nouvelle espèce, sexe), ou rien
    /// (partie intacte) si l'enclos est vide ou pas encore prêt.
    pub fn recolter(&mut self, slot: usize, now: u64, monte: bool, shiny: bool) -> (res: Option<(Pen, usize, bool, u8)>)
        requires
            slot < NB_ENCLOS,
            old(self).pens[slot as int] matches Some(p) ==> p.ci < NB_ESPECES && p.r1 < 4 && p.r2 < 4
                && old(self).dex[p.ci as int].n < u64::MAX && old(self).dex[p.ci as int].s < u64::MAX
                && (forall|r: int, s: u8| 0 <= r < 4 ==> #[trigger] old(self).inv[p.ci as int]@[casier(shiny, s)][r] < u64::MAX),
            old(self).pen_born < u64::MAX,
            old(self).captures < u64::MAX,
            old(self).shinies < u64::MAX,
        ensures
            res is Some == (old(self).pens[slot as int] matches Some(p) && p.ready_at <= now),
            res matches Some((pen, rang, nouvelle, sexe)) ==> ({
                let base = if pen.r1 >= pen.r2 { pen.r1 } else { pen.r2 };
                &&& Some(pen) == old(self).pens[slot as int]
                &&& rang == base + (if monte && base < 3 { 1int } else { 0int })
                &&& nouvelle == (old(self).dex[pen.ci as int].n == 0)
                &&& sexe == 0 || sexe == 1
                &&& final(self).inv[pen.ci as int]@ == ajoute(old(self).inv[pen.ci as int]@, casier(shiny, sexe), rang as int)
                &&& final(self).inv@ == old(self).inv@.update(pen.ci as int, final(self).inv[pen.ci as int])
                &&& final(self).dex@ == old(self).dex@.update(pen.ci as int, fiche_apres(old(self).dex[pen.ci as int], shiny, rang as int, sexe))
                &&& final(self).pens@ == old(self).pens@.update(slot as int, None)
                &&& *final(self) == (Partie {
                    inv: final(self).inv, dex: final(self).dex, pens: final(self).pens,
                    pen_born: (old(self).pen_born + 1) as u64,
                    captures: (old(self).captures + 1) as u64,
                    shinies: if shiny { (old(self).shinies + 1) as u64 } else { old(self).shinies },
                    ..*old(self)
                })
            }),
            res is None ==> *final(self) == *old(self),
    {
        match self.pens[slot] {
            Some(pen) => {
                if pen.ready_at > now {
                    return None;
                }
                self.pens[slot] = None;
                let rang = rang_du_petit(pen.r1, pen.r2, monte);
                let (nouvelle, _, sexe) = self.ajouter_specimen(pen.ci, shiny, rang);
                self.pen_born = self.pen_born + 1;
                proof {
                    assert(self.pens@ =~= old(self).pens@.update(slot as int, None));
                }
                Some((pen, rang, nouvelle, sexe))
            },
            None => None,
        }
    }

    /// Fait entrer un spécimen de l'espèce `ci` (sexe tiré au sort) : il
    /// rejoint la réserve et le registre, et compte parmi les prises.
    /// Renvoie (nouvelle espèce, nouveau shiny, sexe).
    pub fn ajouter_specimen(&mut self, ci: usize, shiny: bool, rang: usize) -> (res: (bool, bool, u8))
        requires
            ci < NB_ESPECES,
            rang < 4,
            old(self).dex[ci as int].n < u64::MAX,
            old(self).dex[ci as int].s < u64::MAX,
            old(self).inv[ci as int]@[casier(shiny, 0)][rang as int] < u64::MAX,
            old(self).inv[ci as int]@[casier(shiny, 1)][rang as int] < u64::MAX,
            old(self).captures < u64::MAX,
            old(self).shinies < u64::MAX,
        ensures
            res.2 == 0 || res.2 == 1,
            res.0 == (old(self).dex[ci as int].n == 0),
            res.1 == (shiny && old(self).dex[ci as int].s == 0),
            arrivee(*old(self), *final(self), ci as int, shiny, rang as int, res.2),
    {
        let mut r = self.inv[ci];
        let mut f = self.dex[ci];
        let res = f.add_specimen(&mut r, shiny, rang);
        self.inv[ci] = r;
        self.dex[ci] = f;
        self.captures = self.captures + 1;
        if shiny {
            self.shinies = self.shinies + 1;
        }
        proof {
            assert(self.inv@ =~= old(self).inv@.update(ci as int, self.inv[ci as int]));
            assert(self.dex@ =~= old(self).dex@.update(ci as int, self.dex[ci as int]));
        }
        res
    }

    /// Le couple que l'enclos conseille : (espèce, rang).
    pub fn meilleur_couple(&self) -> (res: Option<(usize, usize)>)
        ensures
            match res {
                Some((ci, r)) => meilleur_parmi(self.inv@, self.dex@, NB_ESPECES as int, ci as int)
                    && rang_du_couple(self.inv@[ci as int]) == Some(r as int),
                None => forall|j: int| 0 <= j < NB_ESPECES ==> (#[trigger] rang_du_couple(self.inv@[j])) is None,
            },
    {
        meilleur_couple(&self.inv, &self.dex)
    }

    /// Vend à la main des spécimens de l'espèce `ci` : un seul, tout sauf le
    /// meilleur couple (spécimens normaux), ou tout. Renvoie (quantité
    /// vendue, prise par rang) ; la recette se calcule sur la prise.
    pub fn vendre(&mut self, ci: usize, shiny: bool, qte: SellQty) -> (res: (u64, [u64; 4]))
        requires
            ci < NB_ESPECES,
            old(self).inv[ci as int].spec_tn() <= u64::MAX,
            old(self).inv[ci as int].spec_ts() <= u64::MAX,
        ensures
            ({
                let inv = old(self).inv[ci as int];
                let have = if shiny { inv.spec_ts() } else { inv.spec_tn() };
                match qte {
                    SellQty::One => res.0 == (if have >= 1 { 1int } else { 0 })
                        && vente_basse(*old(self), *final(self), ci as int, shiny, res.0 as int, res.1@),
                    SellQty::All => res.0 == have
                        && vente_basse(*old(self), *final(self), ci as int, shiny, res.0 as int, res.1@),
                    SellQty::Keep1 => res.0 == surplus(inv, 1, 0)
                        && retrait(inv, final(self).inv[ci as int], 1, res.0 as int, res.1@)
                        && final(self).inv@ == old(self).inv@.update(ci as int, final(self).inv[ci as int])
                        && *final(self) == (Partie { inv: final(self).inv, ..*old(self) }),
                }
            }),
    {
        let mut r = self.inv[ci];
        let have = if shiny { r.ts() } else { r.tn() };
        proof {
            assert forall|k: int| 0 <= k < 4 implies
                r@[casier(shiny, 0)][k] + r@[casier(shiny, 1)][k] <= u64::MAX by {}
        }
        let res = match qte {
            SellQty::One => {
                let q: u64 = if have >= 1 { 1 } else { 0 };
                (q, r.take_lowest(shiny, q))
            },
            SellQty::All => (have, r.take_lowest(shiny, have)),
            SellQty::Keep1 => r.sell_except_pair(),
        };
        self.inv[ci] = r;
        proof {
            assert(self.inv@ =~= old(self).inv@.update(ci as int, self.inv[ci as int]));
        }
        res
    }

    /// Vend le surplus de l'espèce `ci` : tout sauf les couples gardés et ce
    /// que réclament les commandes en cours (`besoin`). Renvoie (quantité
    /// vendue, prise par rang).
    pub fn vendre_surplus(&mut self, ci: usize, besoin: u64) -> (res: (u64, [u64; 4]))
        requires
            ci < NB_ESPECES,
            old(self).inv[ci as int].spec_tn() <= u64::MAX,
        ensures
            res.0 == surplus(old(self).inv[ci as int], couples_gardes(old(self).autokeep), besoin as int),
            retrait(old(self).inv[ci as int], final(self).inv[ci as int], couples_gardes(old(self).autokeep), res.0 as int, res.1@),
            final(self).inv@ == old(self).inv@.update(ci as int, final(self).inv[ci as int]),
            *final(self) == (Partie { inv: final(self).inv, ..*old(self) }),
    {
        let mut r = self.inv[ci];
        let res = r.sell_surplus(besoin, self.autokeep);
        self.inv[ci] = r;
        proof {
            assert(self.inv@ =~= old(self).inv@.update(ci as int, self.inv[ci as int]));
        }
        res
    }

    /// Solde les doublons : chaque espèce qui a plus que ses couples gardés
    /// et ses commandes (`besoins`, par espèce) vend son surplus. Renvoie,
    /// espèce par espèce, (quantité vendue, prise par rang).
    pub fn vendre_doublons(&mut self, besoins: &Vec<u64>) -> (res: Vec<(u64, [u64; 4])>)
        requires
            besoins.len() == NB_ESPECES,
            forall|c: int| 0 <= c < NB_ESPECES ==> #[trigger] old(self).inv@[c].spec_tn() <= u64::MAX,
            forall|c: int| 0 <= c < NB_ESPECES ==> #[trigger] besoins@[c] <= u64::MAX - 2 * 0xFFFF_FFFF,
        ensures
            res.len() == NB_ESPECES,
            forall|c: int| 0 <= c < NB_ESPECES ==> ({
                let avant = #[trigger] old(self).inv@[c];
                if avant.spec_tn() > 2 * couples_gardes(old(self).autokeep) + besoins@[c] {
                    &&& res@[c].0 == surplus(avant, couples_gardes(old(self).autokeep), besoins@[c] as int)
                    &&& retrait(avant, final(self).inv@[c], couples_gardes(old(self).autokeep), res@[c].0 as int, res@[c].1@)
                } else {
                    &&& res@[c].0 == 0 && (forall|r: int| 0 <= r < 4 ==> res@[c].1@[r] == 0)
                    &&& final(self).inv@[c] == avant
                }
            }),
            *final(self) == (Partie { inv: final(self).inv, ..*old(self) }),
    {
        let mut res: Vec<(u64, [u64; 4])> = Vec::new();
        let mut ci: usize = 0;
        while ci < NB_ESPECES
            invariant
                ci <= NB_ESPECES,
                besoins.len() == NB_ESPECES,
                res.len() == ci,
                forall|c: int| 0 <= c < NB_ESPECES ==> #[trigger] old(self).inv@[c].spec_tn() <= u64::MAX,
                forall|c: int| 0 <= c < NB_ESPECES ==> #[trigger] besoins@[c] <= u64::MAX - 2 * 0xFFFF_FFFF,
                forall|c: int| ci <= c < NB_ESPECES ==> #[trigger] self.inv@[c] == old(self).inv@[c],
                forall|c: int| 0 <= c < ci ==> ({
                    let avant = #[trigger] old(self).inv@[c];
                    if avant.spec_tn() > 2 * couples_gardes(old(self).autokeep) + besoins@[c] {
                        &&& res@[c].0 == surplus(avant, couples_gardes(old(self).autokeep), besoins@[c] as int)
                        &&& retrait(avant, self.inv@[c], couples_gardes(old(self).autokeep), res@[c].0 as int, res@[c].1@)
                    } else {
                        &&& res@[c].0 == 0 && (forall|r: int| 0 <= r < 4 ==> res@[c].1@[r] == 0)
                        &&& self.inv@[c] == avant
                    }
                }),
                *self == (Partie { inv: self.inv, ..*old(self) }),
            decreases NB_ESPECES - ci,
        {
            let seuil = seuil_garde(self.autokeep, besoins[ci]);
            if self.inv[ci].tn() > seuil {
                let x = self.vendre_surplus(ci, besoins[ci]);
                res.push(x);
            } else {
                res.push((0, [0; 4]));
            }
            ci = ci + 1;
        }
        res
    }

    /// Le troc `i` de la liste `trades` (espèce demandée, quantité, curiosité
    /// offerte) : s'il est encore ouvert et que la réserve suffit, les plus
    /// bas rangs demandés partent et la curiosité arrive, au rang `rang` et
    /// shiny si `shiny` (tirés par l'appelant). Renvoie (nouvelle espèce,
    /// sexe), ou rien (partie et marques intactes).
    pub fn troquer(&mut self, i: usize, trades: &Vec<(usize, u64, usize)>, faits: &mut Vec<bool>, rang: usize, shiny: bool)
        -> (res: Option<(bool, u8)>)
        requires
            i < trades.len() ==> trades@[i as int].0 < NB_ESPECES && trades@[i as int].2 < NB_ESPECES,
            rang < 4,
            forall|c: int| 0 <= c < NB_ESPECES ==> #[trigger] old(self).inv@[c].spec_tn() <= u64::MAX,
            forall|c: int, k: int, r: int| 0 <= c < NB_ESPECES && 0 <= k < 4 && 0 <= r < 4
                ==> #[trigger] old(self).inv@[c]@[k][r] < u64::MAX,
            forall|c: int| 0 <= c < NB_ESPECES ==> #[trigger] old(self).dex@[c].n < u64::MAX && old(self).dex@[c].s < u64::MAX,
            old(self).captures < u64::MAX,
            old(self).shinies < u64::MAX,
            old(self).trades_made < u64::MAX,
        ensures
            res is Some == (i < trades.len() && i < old(faits).len() && !old(faits)@[i as int]
                && old(self).inv@[trades@[i as int].0 as int].spec_tn() >= trades@[i as int].1),
            res matches Some((nouvelle, sexe)) ==> ({
                let (want, qty, give) = trades@[i as int];
                &&& exists|m: Partie, pris: Seq<u64>| vente_basse(*old(self), m, want as int, false, qty as int, pris)
                    && arrivee(m, Partie { trades_made: old(self).trades_made, ..*final(self) }, give as int, shiny, rang as int, sexe)
                    && nouvelle == (m.dex@[give as int].n == 0)
                &&& final(self).trades_made == old(self).trades_made + 1
                &&& final(faits)@ == old(faits)@.update(i as int, true)
            }),
            res is None ==> *final(self) == *old(self) && final(faits)@ == old(faits)@,
    {
        if i >= trades.len() || i >= faits.len() {
            return None;
        }
        let (want, qty, give) = trades[i];
        if faits[i] || self.inv[want].tn() < qty {
            return None;
        }
        let ghost a = *self;
        let mut r = self.inv[want];
        proof {
            assert forall|k: int| 0 <= k < 4 implies r@[casier(false, 0)][k] + r@[casier(false, 1)][k] <= u64::MAX by {}
        }
        let pris = r.take_lowest(false, qty);
        self.inv[want] = r;
        proof {
            assert(self.inv@ =~= a.inv@.update(want as int, self.inv[want as int]));
            assert(vente_basse(a, *self, want as int, false, qty as int, pris@));
            lemma_vente_basse_borne(a, *self, want as int, false, qty as int, pris@);
        }
        let ghost m = *self;
        let (nouvelle, _, sexe) = self.ajouter_specimen(give, shiny, rang);
        faits.set(i, true);
        self.trades_made = self.trades_made + 1;
        proof {
            assert(arrivee(m, Partie { trades_made: a.trades_made, ..*self }, give as int, shiny, rang as int, sexe));
        }
        Some((nouvelle, sexe))
    }

    /// Le meilleur appât dont on peut payer un lot de dix (des baies à défaut).
    pub fn best_bait(&self) -> (b: usize)
        ensures
            b == meilleur_appat(self.ecus),
    {
        let mut b: usize = NB_APPATS;
        while b > 1
            invariant
                1 <= b <= NB_APPATS,
                forall|k: int| b <= k < NB_APPATS ==> self.ecus < 10 * COUT_APPATS@[k],
            decreases b,
        {
            b = b - 1;
            if self.ecus >= 10 * COUT_APPATS[b] {
                return b;
            }
        }
        0
    }

    /// Les biomes de la carte dont toutes les espèces sont au registre
    /// (`shiny` : en shiny).
    pub fn completed_biomes(&self, shiny: bool) -> (n: usize)
        ensures
            n == biomes_complets(self.dex@, WILDB as int, shiny),
    {
        let mut n: usize = 0;
        let mut b: u8 = 0;
        while b < WILDB
            invariant
                b <= WILDB,
                n <= b,
                n == biomes_complets(self.dex@, b as int, shiny),
            decreases WILDB - b,
        {
            let mut complet = true;
            let mut c: usize = 0;
            while c < NB_ESPECES
                invariant
                    c <= NB_ESPECES,
                    complet == forall|j: int| 0 <= j < c && BIOME_DES_ESPECES@[j] == b ==> #[trigger] vue(self.dex@[j], shiny),
                decreases NB_ESPECES - c,
            {
                let ghost avant = complet;
                if BIOME_DES_ESPECES[c] == b {
                    let f = self.dex[c];
                    let vu = if shiny { f.s > 0 } else { f.n > 0 };
                    if !vu {
                        complet = false;
                    }
                }
                proof {
                    let v = vue(self.dex@[c as int], shiny);
                    assert(complet == (avant && (BIOME_DES_ESPECES@[c as int] == b ==> v)));
                    assert forall|j: int| 0 <= j < c + 1 && BIOME_DES_ESPECES@[j] == b && avant && (BIOME_DES_ESPECES@[c as int] == b ==> v)
                        implies #[trigger] vue(self.dex@[j], shiny) by {
                        if j < c {
                        } else {
                            assert(j == c);
                        }
                    }
                }
                c = c + 1;
            }
            if complet {
                n = n + 1;
            }
            b = b + 1;
        }
        n
    }

    /// Le repos entre deux battues, en millisecondes.
    pub fn hunt_cooldown_ms(&self) -> (ms: u64)
        requires
            self.lab[LAB_TRAQUEUR as int] <= LABO_MAX[LAB_TRAQUEUR as int],
        ensures
            ms == repos_battue(*self),
    {
        (300 - 30 * self.lab[LAB_TRAQUEUR] as u64) * 1000
    }

    /// Une battue est permise sur le biome `b` : il est ouvert et reposé.
    pub fn battue_permise(&self, b: usize, now: u64) -> (ok: bool)
        requires
            b < NB_BIOMES,
        ensures
            ok == (self.biomes[b as int] matches Some(t) && t.hunt_at <= now),
    {
        match self.biomes[b] {
            Some(t) => t.hunt_at <= now,
            None => false,
        }
    }

    /// Clôt la battue menée à l'instant `now` sur le biome ouvert `b` : le
    /// terrain se repose, et la battue compte.
    pub fn clore_battue(&mut self, b: usize, now: u64)
        requires
            b < NB_BIOMES,
            old(self).biomes[b as int] is Some,
            old(self).lab[LAB_TRAQUEUR as int] <= LABO_MAX[LAB_TRAQUEUR as int],
            now + 300_000 <= u64::MAX,
            old(self).hunts_done < u64::MAX,
            bien_formee(*old(self)),
        ensures
            ({
                let t = old(self).biomes[b as int]->0;
                &&& final(self).biomes[b as int] == Some(Terrain { hunt_at: (now + repos_battue(*old(self))) as u64, ..t })
                &&& final(self).biomes@ == old(self).biomes@.update(b as int, final(self).biomes[b as int])
                &&& *final(self) == (Partie {
                    biomes: final(self).biomes,
                    hunts_done: (old(self).hunts_done + 1) as u64,
                    ..*old(self)
                })
            }),
            bien_formee(*final(self)),
    {
        let cd = self.hunt_cooldown_ms();
        match self.biomes[b] {
            Some(t) => {
                self.biomes[b] = Some(Terrain { hunt_at: now + cd, ..t });
                proof {
                    assert(self.biomes@ =~= old(self).biomes@.update(b as int, self.biomes[b as int]));
                }
            },
            None => {},
        }
        self.hunts_done = self.hunts_done + 1;
    }

    /// Remet d'aplomb une partie relue : le nombre de couples gardés reste
    /// entre un et quatre.
    pub fn normalize(&mut self)
        ensures
            *final(self) == (Partie {
                autokeep: if old(self).autokeep < 1 { 1 } else if old(self).autokeep > 4 { 4 } else { old(self).autokeep },
                ..*old(self)
            }),
    {
        self.autokeep = if self.autokeep < 1 { 1 } else if self.autokeep > 4 { 4 } else { self.autokeep };
    }

    /// Le début d'une levée du piège posé en `slot` sur le biome `b` : rien
    /// s'il n'y a pas de piège ; sinon la tentative compte, et l'appât du
    /// piège, s'il en reste, sert — et se consomme, sauf s'il est épargné
    /// (`epargne`, tiré par l'appelant). Renvoie l'appât qui sert.
    pub fn entamer_levee(&mut self, b: usize, slot: usize, epargne: bool) -> (res: Option<Option<usize>>)
        requires
            b < NB_BIOMES,
            bien_formee(*old(self)),
            old(self).biomes[b as int] matches Some(t) ==> slot < t.slots,
            old(self).attempts < u64::MAX,
        ensures
            res is Some == (old(self).biomes[b as int] matches Some(t) && t.pl[slot as int] is Some),
            res matches Some(appat) ==> ({
                let pose = old(self).biomes[b as int]->0.pl[slot as int]->0;
                let sert = pose.bait matches Some(bt) && old(self).baits[bt as int] > 0;
                &&& appat == (if sert { pose.bait } else { None })
                &&& final(self).baits@ == (if sert && !epargne {
                    old(self).baits@.update(pose.bait->0 as int, (old(self).baits[pose.bait->0 as int] - 1) as u64)
                } else {
                    old(self).baits@
                })
                &&& *final(self) == (Partie {
                    baits: final(self).baits,
                    attempts: (old(self).attempts + 1) as u64,
                    ..*old(self)
                })
            }),
            res is None ==> *final(self) == *old(self),
    {
        let pose = match self.biomes[b] {
            Some(t) => match t.pl[slot] {
                Some(p) => p,
                None => return None,
            },
            None => return None,
        };
        let mut appat: Option<usize> = None;
        match pose.bait {
            Some(bt) => {
                if self.baits[bt] > 0 {
                    appat = Some(bt);
                    if !epargne {
                        self.baits[bt] = self.baits[bt] - 1;
                    }
                }
            },
            None => {},
        }
        self.attempts = self.attempts + 1;
        Some(appat)
    }

    /// L'auto-vente qui suit une prise de l'espèce `ci` (shiny si `shiny`) :
    /// si elle s'applique et que l'espèce a du surplus au-delà des couples
    /// gardés et de ce que réclament les commandes (`besoin`), le surplus se
    /// vend. Renvoie la vente (quantité, prise par rang), s'il y en a une.
    pub fn autovendre(&mut self, ci: usize, shiny: bool, besoin: u64) -> (vente: Option<(u64, [u64; 4])>)
        requires
            ci < NB_ESPECES,
            old(self).inv[ci as int].spec_tn() <= u64::MAX,
            besoin <= u64::MAX - 2 * 0xFFFF_FFFF,
        ensures
            apres_autovente(*old(self), *final(self), ci as int, shiny, besoin as int, vente),
    {
        let r = RARETE_DES_ESPECES[ci] as usize;
        if self.lab[LAB_AUTOVENTE] >= 1 && self.autosell[r] && !shiny {
            let seuil = seuil_garde(self.autokeep, besoin);
            if self.inv[ci].tn() > seuil {
                return Some(self.vendre_surplus(ci, besoin));
            }
        }
        None
    }

    /// Achète un piège du palier `t` s'il y a de quoi le payer. Renvoie vrai
    /// si l'achat s'est fait.
    pub fn acheter_piege(&mut self, t: usize) -> (ok: bool)
        requires
            t < NB_PIEGES,
            old(self).traps[t as int] < u32::MAX,
        ensures
            ok == (old(self).ecus >= COUT_PIEGES[t as int]),
            ok ==> achat_piege(*old(self), *final(self), t as int),
            !ok ==> *final(self) == *old(self),
    {
        if self.ecus >= COUT_PIEGES[t] {
            self.ecus = self.ecus - COUT_PIEGES[t];
            self.traps[t] = self.traps[t] + 1;
            true
        } else {
            false
        }
    }
}

/// On ne revend ni le dernier piège ni un piège posé : après une revente
/// permise, il reste au moins un piège dans la partie, les pièges posés
/// n'ont pas bougé, et le palier vendu en compte encore assez pour eux.
pub proof fn loi_revente_sure(a: Partie, b: Partie, t: int)
    requires
        0 <= t < NB_PIEGES,
        a.traps@[t] > poses(a, t),
        somme_pieges(a.traps@) > 1,
        revente_piege(a, b, t),
    ensures
        somme_pieges(b.traps@) >= 1,
        forall|u: int| 0 <= u < NB_PIEGES ==> poses(b, u) == poses(a, u),
        b.traps@[t] >= poses(b, t),
{
    assert(b.biomes == a.biomes);
}

/// Acheter un piège puis le revendre coûte la moitié de son prix neuf, et
/// laisse la réserve comme elle était.
pub proof fn loi_achat_puis_revente(a: Partie, b: Partie, c: Partie, t: int)
    requires
        0 <= t < NB_PIEGES,
        a.traps@[t] < u32::MAX,
        achat_piege(a, b, t),
        revente_piege(b, c, t),
    ensures
        c.ecus == a.ecus - COUT_PIEGES@[t] / 2,
        c.traps@ == a.traps@,
        c.biomes == a.biomes,
{
    assert(c.traps@ =~= a.traps@);
}

/// Le puits ne boit qu'une fois par jour réel : après une offrande, toute
/// nouvelle offrande du même jour est refusée. Et il ne prend jamais un
/// shiny : l'offrande ôte exactement un spécimen normal.
pub proof fn loi_puits_une_fois_par_jour(a: Partie, b: Partie, ci: int, now: u64, r: int, plus_tard: u64)
    requires
        0 <= ci < NB_ESPECES,
        a.inv@[ci].spec_tn() > 0,
        offrande(a, b, ci, now, r),
        plus_tard / JOUR_REEL_MS == now / JOUR_REEL_MS,
    ensures
        b.well_night == Some(plus_tard / JOUR_REEL_MS),
        b.inv@[ci].sm == a.inv@[ci].sm,
        b.inv@[ci].sf == a.inv@[ci].sf,
        b.inv@[ci].spec_tn() == a.inv@[ci].spec_tn() - 1,
{
    let inv = a.inv@[ci];
    let s = if inv.m@[r] > 0 { 0int } else { 1int };
    assert(b.inv@[ci]@ == retire(inv@, s, r));
    assert(b.inv@[ci]@[2] == inv@[2]);
    assert(b.inv@[ci]@[3] == inv@[3]);
    assert(b.inv@[ci].sm@ =~= inv.sm@);
    assert(b.inv@[ci].sf@ =~= inv.sf@);
    if s == 0 {
        assert(b.inv@[ci].f@ =~= inv.f@);
    } else {
        assert(b.inv@[ci].m@ =~= inv.m@);
    }
}

/// Une migration fait progresser la partie : les trophées augmentent, le
/// registre, les succès et les gains à vie restent, et la suivante coûte
/// le double (le prix se fige à la douzième).
pub proof fn loi_migration(a: Partie, b: Partie, g: int)
    requires
        g >= 1,
        apres_migration(a, b, g),
    ensures
        b.trophies > a.trophies,
        b.dex == a.dex,
        b.ach == a.ach,
        b.total_earned == a.total_earned,
        cout_migration(b.migrations as int) == (if a.migrations < 12 { 2 * cout_migration(a.migrations as int) } else { cout_migration(a.migrations as int) }),
{
    if a.migrations < 12 {
        assert(deux_puissance((a.migrations + 1) as nat) == 2 * deux_puissance(a.migrations as nat));
    }
}

/// Un emplacement reste au prix d'un piège : celui du meilleur piège
/// possédé pour le troisième emplacement, deux fois et demie pour le
/// quatrième — toujours bien moins que le biome le plus cher.
pub proof fn loi_emplacement_au_prix_du_piege(p: Partie, b: int)
    requires
        0 <= b < NB_BIOMES,
    ensures
        cout_emplacement(p, b) <= COUT_PIEGES@[meilleur_palier(p.traps@)] * 5 / 2,
        (match p.biomes@[b] { Some(t) => t.slots == 2, None => true })
            ==> cout_emplacement(p, b) == COUT_PIEGES@[meilleur_palier(p.traps@)],
        cout_emplacement(p, b) < COUT_BIOMES@[8],
{
}

/// Le meilleur palier possédé est le plus haut palier dont on a au moins
/// un piège (le bois si l'on n'en a aucun) : aucun palier possédé n'est
/// au-dessus. Le troisième emplacement d'un biome coûte donc le prix du
/// plus haut piège possédé, et le piège proposé ensuite est le palier juste
/// au-dessus (le dernier reste le dernier).
pub proof fn loi_meilleur_palier(p: Partie, b: int, t: int)
    requires
        0 <= b < NB_BIOMES,
        0 <= t < 6,
    ensures
        p.traps@[t] > 0 ==> t <= meilleur_palier(p.traps@),
        0 <= meilleur_palier(p.traps@) < 6,
        meilleur_palier(p.traps@) > 0 ==> p.traps@[meilleur_palier(p.traps@)] > 0,
        (p.traps@[t] > 0 && forall|u: int| t < u < 6 ==> p.traps@[u] == 0)
            ==> meilleur_palier(p.traps@) == t,
        (forall|u: int| 0 <= u < 6 ==> p.traps@[u] == 0) ==> meilleur_palier(p.traps@) == 0,
        (p.traps@[t] > 0 && (forall|u: int| t < u < 6 ==> p.traps@[u] == 0)
            && (match p.biomes@[b] { Some(e) => e.slots == 2, None => true }))
            ==> cout_emplacement(p, b) == COUT_PIEGES@[t],
{
    if p.traps@[t] > 0 && forall|u: int| t < u < 6 ==> p.traps@[u] == 0 {
        assert(p.traps@[5] == 0 || t == 5);
        assert(p.traps@[4] == 0 || t >= 4);
        assert(p.traps@[3] == 0 || t >= 3);
        assert(p.traps@[2] == 0 || t >= 2);
        assert(p.traps@[1] == 0 || t >= 1);
    }
    if forall|u: int| 0 <= u < 6 ==> p.traps@[u] == 0 {
        assert(p.traps@[5] == 0 && p.traps@[4] == 0 && p.traps@[3] == 0);
        assert(p.traps@[2] == 0 && p.traps@[1] == 0);
    }
}

/// Le meilleur couple n'est jamais livré, les shinies non plus : après une
/// livraison, il reste à chaque rang au moins le meilleur mâle et la
/// meilleure femelle d'avant, et les shinies n'ont pas bougé.
pub proof fn loi_livraison_garde_le_couple(avant: Reserve, apres: Reserve, qty: int, pris: Seq<u64>)
    requires
        qty >= 0,
        retrait(avant, apres, 1, qty, pris),
    ensures
        forall|r: int| 0 <= r < 4 ==> apres.m@[r] >= meilleurs(1, avant.m@)[r],
        forall|r: int| 0 <= r < 4 ==> apres.f@[r] >= meilleurs(1, avant.f@)[r],
        apres.sm == avant.sm,
        apres.sf == avant.sf,
{
    loi_vente_epargne_les_couples(avant, apres, 1, qty, pris);
}

/// L'auto-vente ne vend jamais un shiny, et garde les meilleurs couples :
/// quand elle vend, la prise n'était pas shiny, il reste à chaque rang au
/// moins les meilleurs mâles et femelles gardés, et les shinies restent.
pub proof fn loi_autovente_epargne(m: Partie, fin: Partie, ci: int, shiny: bool, besoin: int, q: u64, pris: [u64; 4])
    requires
        0 <= ci < NB_ESPECES,
        besoin >= 0,
        apres_autovente(m, fin, ci, shiny, besoin, Some((q, pris))),
    ensures
        !shiny,
        forall|r: int| 0 <= r < 4 ==> fin.inv@[ci].m@[r] >= meilleurs(couples_gardes(m.autokeep), m.inv@[ci].m@)[r],
        forall|r: int| 0 <= r < 4 ==> fin.inv@[ci].f@[r] >= meilleurs(couples_gardes(m.autokeep), m.inv@[ci].f@)[r],
        fin.inv@[ci].sm == m.inv@[ci].sm,
        fin.inv@[ci].sf == m.inv@[ci].sf,
{
    loi_vente_epargne_les_couples(m.inv@[ci], fin.inv@[ci], couples_gardes(m.autokeep), q as int, pris@);
}

} // verus!
