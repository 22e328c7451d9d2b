//! Les légendes errantes : un tirage toutes les dix minutes, une chance pour
//! mille que les battues et le labo font monter, une silhouette qui tient
//! deux fenêtres ; et les traces fraîches laissées dans les biomes.

use vstd::prelude::*;
use crate::horloge::{spec_splitmix, splitmix};
use crate::catalogue::{BIOME_DES_ESPECES, RARETE_DES_ESPECES, NB_ESPECES, LEGEND_B, WILDB};
use crate::hasard::tirer_sous;

verus! {

/// Une fenêtre de tirage : dix minutes.
pub const LEGEND_WINDOW_MS: u64 = 600_000;
/// Une silhouette tient deux fenêtres.
pub const LEGEND_LINGER: u64 = 2;
/// Chance de base par tirage, pour mille.
pub const LEGEND_BASE_PM: u64 = 200;
/// Chance maximale par tirage, pour mille.
pub const LEGEND_MAX_PM: u64 = 450;
/// Ce que chaque niveau d'« appel des légendes » ajoute, pour mille.
pub const LAB_APPEL_PM: u64 = 26;
/// Une battue attire les légendes une heure durant.
pub const HUNT_BUFF_MS: u64 = 3_600_000;
/// Ce qu'ajoute chaque battue active, pour mille.
pub const HUNT_BUFF_PM: u64 = 20;
/// Le plafond de la pression des battues, pour mille.
pub const HUNT_BUFF_MAX_PM: u64 = 160;

pub open spec fn min(a: int, b: int) -> int {
    if a <= b { a } else { b }
}

/// Une battue lancée à l'instant `t` pèse encore à l'instant `at`.
pub open spec fn battue_active(t: u64, at: u64) -> bool {
    t > at || at - t < HUNT_BUFF_MS
}

/// Nombre de battues de `h[0..n]` encore actives à l'instant `at`.
pub open spec fn nb_actives(h: Seq<u64>, n: int, at: u64) -> nat
    decreases n,
{
    if n <= 0 {
        0
    } else {
        nb_actives(h, n - 1, at) + if battue_active(h[n - 1], at) { 1nat } else { 0nat }
    }
}

/// Battues encore actives à l'instant `at`.
pub fn hunts_actives(hunts_at: &Vec<u64>, at: u64) -> (n: usize)
    ensures
        n == nb_actives(hunts_at@, hunts_at@.len() as int, at),
{
    let mut n: usize = 0;
    let mut i: usize = 0;
    while i < hunts_at.len()
        invariant
            i <= hunts_at.len(),
            n <= i,
            n == nb_actives(hunts_at@, i as int, at),
        decreases hunts_at.len() - i,
    {
        let t = hunts_at[i];
        if t > at || at - t < HUNT_BUFF_MS {
            n = n + 1;
        }
        i = i + 1;
    }
    n
}

/// La chance qu'une légende paraisse à un tirage, pour mille : la base, la
/// pression des battues actives (plafonnée), l'appel du labo, le tout
/// plafonné.
pub open spec fn chance_legende(actives: int, lab_appel: int) -> int {
    min(LEGEND_BASE_PM + min(actives * HUNT_BUFF_PM, HUNT_BUFF_MAX_PM as int) + lab_appel * LAB_APPEL_PM, LEGEND_MAX_PM as int)
}

/// Chance, pour mille, qu'une légende paraisse au tirage de l'instant `at`.
pub fn legend_chance(hunts_at: &Vec<u64>, at: u64, lab_appel: u32) -> (c: u64)
    ensures
        c == chance_legende(nb_actives(hunts_at@, hunts_at@.len() as int, at) as int, lab_appel as int),
{
    let actives = hunts_actives(hunts_at, at) as u64;
    let pression = if actives >= 8 { HUNT_BUFF_MAX_PM } else { actives * HUNT_BUFF_PM };
    let appel = lab_appel as u64 * LAB_APPEL_PM;
    let c = LEGEND_BASE_PM + pression + appel;
    if c <= LEGEND_MAX_PM { c } else { LEGEND_MAX_PM }
}

/// La chance reste entre la base et le plafond, et chaque battue active de
/// plus l'élève ou la laisse au plafond.
pub proof fn loi_chance_bornee_et_croissante(actives: int, lab_appel: int)
    requires
        actives >= 0,
        lab_appel >= 0,
    ensures
        LEGEND_BASE_PM <= chance_legende(actives, lab_appel) <= LEGEND_MAX_PM,
        chance_legende(actives, lab_appel) <= chance_legende(actives + 1, lab_appel),
        chance_legende(0, 0) == LEGEND_BASE_PM,
{
}

/// Le tirage de la fenêtre `c`, pour mille.
pub open spec fn tirage_fenetre(c: u64) -> int {
    spec_splitmix(c ^ 0x1E9E17D) as int % 1000
}

/// Le biome où paraît la silhouette de la fenêtre `c` : n'importe lequel de
/// la carte, même fermé.
pub open spec fn biome_fenetre(c: u64) -> int {
    spec_splitmix(c ^ 0xB10) as int % WILDB as int
}

/// La silhouette de la fenêtre `c` est visible : elle n'a pas été tentée,
/// et son tirage est sorti (ou elle s'est déjà montrée).
pub open spec fn visible(c: u64, essayees: Seq<u64>, ouvertes: Seq<u64>, seuil: u64) -> bool {
    !essayees.contains(c) && (tirage_fenetre(c) < seuil || ouvertes.contains(c))
}

/// La silhouette présente à l'instant `now`, s'il y en a une : la plus
/// ancienne des deux fenêtres encore vivantes.
pub open spec fn spec_legende(now: u64, essayees: Seq<u64>, ouvertes: Seq<u64>, seuil: u64) -> Option<(u64, usize)> {
    let w = now / LEGEND_WINDOW_MS;
    if w >= 1 && visible((w - 1) as u64, essayees, ouvertes, seuil) {
        Some(((w - 1) as u64, biome_fenetre((w - 1) as u64) as usize))
    } else if visible(w as u64, essayees, ouvertes, seuil) {
        Some((w as u64, biome_fenetre(w as u64) as usize))
    } else {
        None
    }
}

fn contient(v: &Vec<u64>, x: u64) -> (b: bool)
    ensures
        b == v@.contains(x),
{
    let mut i: usize = 0;
    while i < v.len()
        invariant
            i <= v.len(),
            forall|j: int| 0 <= j < i ==> v@[j] != x,
        decreases v.len() - i,
    {
        if v[i] == x {
            return true;
        }
        i = i + 1;
    }
    false
}

fn est_visible(c: u64, essayees: &Vec<u64>, ouvertes: &Vec<u64>, seuil: u64) -> (b: bool)
    ensures
        b == visible(c, essayees@, ouvertes@, seuil),
{
    !contient(essayees, c) && (splitmix(c ^ 0x1E9E17D) % 1000 < seuil || contient(ouvertes, c))
}

/// La légende errante présente : (fenêtre du tirage, biome). `seuil` est la
/// chance du moment, pour mille.
pub fn legend_now(now: u64, essayees: &Vec<u64>, ouvertes: &Vec<u64>, seuil: u64) -> (res: Option<(u64, usize)>)
    ensures
        res == spec_legende(now, essayees@, ouvertes@, seuil),
        res matches Some((_, b)) ==> b < WILDB,
{
    let w = now / LEGEND_WINDOW_MS;
    if w >= 1 && est_visible(w - 1, essayees, ouvertes, seuil) {
        return Some((w - 1, (splitmix((w - 1) ^ 0xB10) % 11) as usize));
    }
    if est_visible(w, essayees, ouvertes, seuil) {
        return Some((w, (splitmix(w ^ 0xB10) % 11) as usize));
    }
    None
}

/// Minutes restantes avant que la silhouette du tirage `w` s'en aille.
pub open spec fn minutes_restantes(w: u64, now: u64) -> int {
    let fin = (w + LEGEND_LINGER) * LEGEND_WINDOW_MS;
    if now >= fin { 0 } else { (fin - now + 59_999) / 60_000 }
}

/// Minutes restantes (arrondies au-dessus) avant que la silhouette du
/// tirage `w` s'en aille.
pub fn legend_left_min(w: u64, now: u64) -> (m: u64)
    requires
        (w + LEGEND_LINGER) * LEGEND_WINDOW_MS <= u64::MAX,
    ensures
        m == minutes_restantes(w, now),
{
    let fin = (w + LEGEND_LINGER) * LEGEND_WINDOW_MS;
    if now >= fin { 0 } else { (fin - now - 1) / 60_000 + 1 }
}

/// Une silhouette tient vingt minutes : tant que sa seconde fenêtre n'est
/// pas close, il reste entre une et vingt minutes pour la rejoindre.
pub proof fn loi_silhouette_vingt_minutes(w: u64, now: u64)
    requires
        w * LEGEND_WINDOW_MS <= now,
        now < (w + LEGEND_LINGER) * LEGEND_WINDOW_MS,
        (w + LEGEND_LINGER) * LEGEND_WINDOW_MS <= u64::MAX,
    ensures
        1 <= minutes_restantes(w, now) <= 20,
        minutes_restantes(w, ((w + LEGEND_LINGER) * LEGEND_WINDOW_MS) as u64) == 0,
{
}

/// Une silhouette déjà montrée reste jusqu'au bout de ses deux fenêtres,
/// même si la pression des battues retombe, tant qu'on ne l'a pas tentée.
pub proof fn loi_silhouette_ne_s_evanouit_pas(now: u64, essayees: Seq<u64>, ouvertes: Seq<u64>, seuil: u64, c: u64)
    requires
        ouvertes.contains(c),
        !essayees.contains(c),
        c == now / LEGEND_WINDOW_MS || c + 1 == now / LEGEND_WINDOW_MS,
    ensures
        spec_legende(now, essayees, ouvertes, seuil) is Some,
{
}


/// Poids d'une espèce au tirage d'une approche : les légendes épiques
/// paraissent trois fois plus souvent que les légendaires ; les autres
/// espèces ne sortent jamais.
pub open spec fn poids_legende(i: int) -> int {
    if BIOME_DES_ESPECES@[i] == LEGEND_B {
        if RARETE_DES_ESPECES@[i] >= 4 { 1 } else { 3 }
    } else {
        0
    }
}

/// Poids cumulé des espèces d'indice < `n`.
pub open spec fn cumul_poids(n: int) -> int
    decreases n,
{
    if n <= 0 { 0 } else { cumul_poids(n - 1) + poids_legende(n - 1) }
}

proof fn lemma_cumul_croissant(a: int, b: int)
    requires
        0 <= a <= b,
    ensures
        cumul_poids(a) <= cumul_poids(b),
    decreases b,
{
    if a < b {
        lemma_cumul_croissant(a, b - 1);
    }
}

fn poids(i: usize) -> (w: u32)
    requires
        i < NB_ESPECES,
    ensures
        w == poids_legende(i as int),
{
    if BIOME_DES_ESPECES[i] == LEGEND_B {
        if RARETE_DES_ESPECES[i] >= 4 { 1 } else { 3 }
    } else {
        0
    }
}

/// Le poids total des légendes.
pub fn poids_total_legendes() -> (t: u32)
    ensures
        t == cumul_poids(NB_ESPECES as int),
        t > 0,
{
    let mut t: u32 = 0;
    let mut i: usize = 0;
    while i < NB_ESPECES
        invariant
            i <= NB_ESPECES,
            t == cumul_poids(i as int),
            t <= 3 * i,
        decreases NB_ESPECES - i,
    {
        t = t + poids(i);
        i = i + 1;
    }
    proof {
        assert(BIOME_DES_ESPECES@[120] == LEGEND_B);
        assert(RARETE_DES_ESPECES@[120] == 3);
        assert(poids_legende(120) == 3);
        lemma_cumul_croissant(0, 120);
        assert(cumul_poids(121) == cumul_poids(120) + poids_legende(120));
        lemma_cumul_croissant(121, NB_ESPECES as int);
    }
    t
}

/// La légende que désigne un tirage `tir` dans `0..poids total` : chaque
/// légende occupe une tranche de sa largeur, dans l'ordre du catalogue.
pub fn legende_tiree(tir: u32) -> (i: usize)
    requires
        tir < cumul_poids(NB_ESPECES as int),
    ensures
        i < NB_ESPECES,
        poids_legende(i as int) > 0,
        cumul_poids(i as int) <= tir < cumul_poids(i as int) + poids_legende(i as int),
        BIOME_DES_ESPECES@[i as int] == LEGEND_B,
{
    let mut reste = tir;
    let mut i: usize = 0;
    while i < NB_ESPECES
        invariant
            i <= NB_ESPECES,
            cumul_poids(i as int) <= tir,
            reste == tir - cumul_poids(i as int),
            tir < cumul_poids(NB_ESPECES as int),
        decreases NB_ESPECES - i,
    {
        let w = poids(i);
        if reste < w {
            return i;
        }
        reste = reste - w;
        i = i + 1;
    }
    proof {
        assert(false);
    }
    0
}

/// Tire la légende qu'une approche réussie fait entrer en réserve : jamais
/// autre chose qu'une légende errante.
pub fn tirage_legende() -> (i: usize)
    ensures
        i < NB_ESPECES,
        BIOME_DES_ESPECES@[i as int] == LEGEND_B,
{
    let total = poids_total_legendes();
    let tir = tirer_sous(total);
    legende_tiree(tir)
}


/// Les battues d'une liste encore actives à l'instant `at`, dans l'ordre.
pub open spec fn gardees(s: Seq<u64>, at: u64) -> Seq<u64>
    decreases s.len(),
{
    if s.len() == 0 {
        s
    } else if battue_active(s.last(), at) {
        gardees(s.drop_last(), at).push(s.last())
    } else {
        gardees(s.drop_last(), at)
    }
}

/// Une liste bornée : au-delà de `n` éléments, on oublie le plus ancien.
pub open spec fn bornee(s: Seq<u64>, n: int) -> Seq<u64> {
    if s.len() > n { s.subrange(1, s.len() as int) } else { s }
}

/// Note une battue menée à l'instant `now` : les battues expirées sont
/// oubliées, et l'on n'en garde pas plus de 32.
pub fn noter_battue(hunts_at: &mut Vec<u64>, now: u64)
    ensures
        final(hunts_at)@ == bornee(gardees(old(hunts_at)@.push(now), now), 32),
{
    hunts_at.push(now);
    let mut res: Vec<u64> = Vec::new();
    let mut i: usize = 0;
    while i < hunts_at.len()
        invariant
            i <= hunts_at.len(),
            res@ == gardees(hunts_at@.take(i as int), now),
        decreases hunts_at.len() - i,
    {
        let t = hunts_at[i];
        proof {
            assert(hunts_at@.take(i + 1).drop_last() =~= hunts_at@.take(i as int));
        }
        if t > now || now - t < HUNT_BUFF_MS {
            res.push(t);
        }
        i = i + 1;
    }
    proof {
        assert(hunts_at@.take(i as int) =~= hunts_at@);
    }
    if res.len() > 32 {
        res.remove(0);
        proof {
            assert(res@ =~= bornee(gardees(old(hunts_at)@.push(now), now), 32));
        }
    }
    *hunts_at = res;
}

/// Note qu'une silhouette s'est montrée à la fenêtre `w` : elle restera
/// jusqu'au bout de ses deux fenêtres. On n'en retient que huit.
pub fn noter_ouverte(ouvertes: &mut Vec<u64>, w: u64)
    ensures
        final(ouvertes)@ == (if old(ouvertes)@.contains(w) { old(ouvertes)@ } else { bornee(old(ouvertes)@.push(w), 8) }),
{
    if !contient(ouvertes, w) {
        ouvertes.push(w);
        if ouvertes.len() > 8 {
            ouvertes.remove(0);
            proof {
                assert(ouvertes@ =~= bornee(old(ouvertes)@.push(w), 8));
            }
        }
    }
}

/// Note la tentative d'approche de la silhouette `w` : une seule chance par
/// silhouette. Renvoie faux si elle avait déjà été tentée. On en retient 24.
pub fn noter_essai(essayees: &mut Vec<u64>, w: u64) -> (nouveau: bool)
    ensures
        nouveau == !old(essayees)@.contains(w),
        final(essayees)@ == (if nouveau { bornee(old(essayees)@.push(w), 24) } else { old(essayees)@ }),
{
    if contient(essayees, w) {
        return false;
    }
    essayees.push(w);
    if essayees.len() > 24 {
        essayees.remove(0);
        proof {
            assert(essayees@ =~= bornee(old(essayees)@.push(w), 24));
        }
    }
    true
}

/// Note que les traces de clé `cle` ont été suivies : on ne suit une piste
/// qu'une fois. Renvoie faux si elle l'avait déjà été. On en retient 40.
pub fn noter_trace(suivies: &mut Vec<u64>, cle: u64) -> (nouveau: bool)
    ensures
        nouveau == !old(suivies)@.contains(cle),
        final(suivies)@ == (if nouveau { bornee(old(suivies)@.push(cle), 40) } else { old(suivies)@ }),
{
    if contient(suivies, cle) {
        return false;
    }
    suivies.push(cle);
    if suivies.len() > 40 {
        suivies.remove(0);
        proof {
            assert(suivies@ =~= bornee(old(suivies)@.push(cle), 40));
        }
    }
    true
}

/// Une fenêtre de traces : dix minutes.
pub const TRACE_WINDOW_MS: u64 = 600_000;

/// Le point de chaque biome de la carte où paraissent légendes et traces.
pub const LEGEND_SPOTS: [(u64, u64); 11] = [
    (16, 26), (16, 48), (52, 8), (95, 10), (16, 7), (95, 64), (52, 68), (95, 34), (16, 68), (30, 50), (52, 29),
];

pub open spec fn borne(x: int, lo: int, hi: int) -> int {
    if x < lo { lo } else if x > hi { hi } else { x }
}

/// Le biome `b` porte des traces fraîches pendant la fenêtre `w` : à peu
/// près une fois sur cinq.
pub open spec fn traces_fraiches(w: u64, b: u64) -> bool {
    spec_splitmix(w ^ b ^ 0x7124CE5) % 100 < 22
}

/// Où tombent les traces du biome `b` pendant la fenêtre `w` : près du
/// point de légende, décalées selon le tirage, sans quitter la carte.
pub open spec fn point_trace(w: u64, b: u64) -> (u64, u64) {
    let (lx, ly) = LEGEND_SPOTS@[b as int];
    let k = spec_splitmix(w ^ 0xF00 ^ b) % 3;
    let (dx, dy) = if k == 0 { (-6int, 3int) } else if k == 1 { (5int, -2int) } else { (-2int, 6int) };
    (borne(lx + dx, 2, 111) as u64, borne(ly + dy, 2, 77) as u64)
}

/// Les traces de la fenêtre `w` dans les biomes `0..n` : (clé, biome,
/// point), pour chaque biome ouvert qui en porte et dont la piste n'a pas
/// encore été suivie.
pub open spec fn traces_jusqua(w: u64, ouverts: Seq<bool>, suivies: Seq<u64>, n: int) -> Seq<(u64, usize, (u64, u64))>
    decreases n,
{
    if n <= 0 {
        Seq::empty()
    } else {
        let avant = traces_jusqua(w, ouverts, suivies, n - 1);
        let b = (n - 1) as u64;
        if ouverts[n - 1] && traces_fraiches(w, b) && !suivies.contains((w * 16 + b) as u64) {
            avant.push(((w * 16 + b) as u64, b as usize, point_trace(w, b)))
        } else {
            avant
        }
    }
}

pub open spec fn nb_biomes_a_traces(ouverts: Seq<bool>) -> int {
    if ouverts.len() <= WILDB { ouverts.len() as int } else { WILDB as int }
}

/// Les traces fraîches de l'instant `now` dans les biomes ouverts (seuls
/// ceux de la carte peuvent l'être) : (clé de la piste, biome, point avant
/// qu'on le ramène sur la terre ferme).
pub fn traces_now(now: u64, ouverts: &Vec<bool>, suivies: &Vec<u64>) -> (t: Vec<(u64, usize, (u64, u64))>)
    ensures
        t@ == traces_jusqua(now / TRACE_WINDOW_MS, ouverts@, suivies@, nb_biomes_a_traces(ouverts@)),
{
    let w = now / TRACE_WINDOW_MS;
    let n: usize = if ouverts.len() <= 11 { ouverts.len() } else { 11 };
    let mut t: Vec<(u64, usize, (u64, u64))> = Vec::new();
    let mut b: usize = 0;
    while b < n
        invariant
            b <= n,
            n == nb_biomes_a_traces(ouverts@),
            n <= ouverts.len(),
            n <= 11,
            w == now / TRACE_WINDOW_MS,
            t@ == traces_jusqua(w, ouverts@, suivies@, b as int),
        decreases n - b,
    {
        let bb = b as u64;
        if ouverts[b] && splitmix(w ^ bb ^ 0x7124CE5) % 100 < 22 && !contient(suivies, w * 16 + bb) {
            let (lx, ly) = LEGEND_SPOTS[b];
            let k = splitmix(w ^ 0xF00 ^ bb) % 3;
            let (x, y): (u64, u64) = if k == 0 {
                (lx - 6, ly + 3)
            } else if k == 1 {
                (lx + 5, ly - 2)
            } else {
                (lx - 2, ly + 6)
            };
            let x = if x < 2 { 2 } else if x > 111 { 111 } else { x };
            let y = if y < 2 { 2 } else if y > 77 { 77 } else { y };
            t.push((w * 16 + bb, b, (x, y)));
        }
        b = b + 1;
    }
    t
}

} // verus!
