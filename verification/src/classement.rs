//! Plausibilité du classement : le client annonce ses statistiques, on ne
//! le croit pas. Les statistiques sont bornées par ce qu'une partie peut
//! produire et le score est toujours recalculé ici.
//!
//! Les valeurs bornées ne sont pas toujours entières (un plafond de cadence
//! en tombe rarement juste) : elles sont tenues en virgule fixe, en seizièmes
//! de millième (`UNITE` = 16 000 par unité), grille sur laquelle tous les
//! plafonds tombent exactement.

use vstd::prelude::*;

verus! {

/// Une unité de statistique, en virgule fixe.
pub const UNITE: u128 = 16_000;
/// On crédite d'avance deux jours de partie au premier envoi.
pub const AVANCE_MS: u64 = 172_800_000;
/// Le jeu compte 114 espèces piégeables.
pub const ESPECES_MAX: u64 = 114;
/// Quatre rangs par espèce au plus.
pub const RANG_MAX: u64 = 4;
/// Au plus cinq captures par seconde de partie (en seizièmes de millième
/// par milliseconde : 5 × 16 000 / 1 000).
pub const CAPTURES_FX_PAR_MS: u128 = 80;
/// Au plus mille écus par seconde de partie (16 000 × 1 000 / 1 000 par ms).
pub const ECUS_FX_PAR_MS: u128 = 16_000;
/// Le premier voyage coûte 100 000 écus, prix doublé à chaque départ.
pub const VOYAGE_BASE: u64 = 100_000;
/// Le prix du voyage cesse de doubler au douzième.
pub const VOYAGE_PALIER_MAX: u64 = 12;
/// On ne compte pas plus de cent migrations.
pub const MIGRATIONS_PLAFOND: u64 = 100;
/// Un trophée par √(gains / 1 M) et par migration.
pub const ECUS_PAR_TROPHEE: u128 = 1_000_000;
/// Un envoi ne déclare jamais plus de 10^15 par statistique.
pub const ENVOI_MAX: u64 = 1_000_000_000_000_000;

/// Les statistiques annoncées par un client, en entiers.
#[derive(Clone, Copy, Debug, PartialEq, Eq)]
pub struct Releve {
    pub captures: u64,
    pub especes: u64,
    pub rangs: u64,
    pub shinies: u64,
    pub ecus: u64,
    pub migrations: u64,
    pub trophees: u64,
}

/// Ce que l'on sait de l'envoi précédent d'un même joueur : son instant
/// et ses captures et écus bornés (en virgule fixe).
#[derive(Clone, Copy, Debug, PartialEq, Eq)]
pub struct Precedent {
    pub at: u64,
    pub captures: u128,
    pub ecus: u128,
}

/// Les statistiques bornées (en virgule fixe, sauf migrations et trophées,
/// entiers), le score recalculé (entier) et le verdict.
#[derive(Clone, Copy, Debug, PartialEq, Eq)]
pub struct Bornees {
    pub captures: u128,
    pub especes: u128,
    pub rangs: u128,
    pub shinies: u128,
    pub ecus: u128,
    pub migrations: u64,
    pub trophees: u64,
    pub score: u128,
    pub suspect: bool,
}

pub open spec fn min(a: int, b: int) -> int {
    if a <= b { a } else { b }
}

/// Différence tronquée à zéro.
pub open spec fn ecart(a: u64, b: u64) -> int {
    if a >= b { a - b } else { 0 }
}

/// Âge de la partie en millisecondes, avance comprise.
pub open spec fn age_ms(premier_at: u64, now: u64) -> int {
    ecart(now, premier_at) + AVANCE_MS
}

/// Temps écoulé depuis l'envoi précédent, une seconde au moins.
pub open spec fn depuis_ms(p: Precedent, now: u64) -> int {
    if ecart(now, p.at) >= 1000 { ecart(now, p.at) } else { 1000 }
}

/// Le plafond de captures (virgule fixe) que la cadence autorise.
pub open spec fn plafond_captures(premier_at: u64, prec: Option<Precedent>, now: u64) -> int {
    match prec {
        Some(p) => min(p.captures + depuis_ms(p, now) * CAPTURES_FX_PAR_MS,
            age_ms(premier_at, now) * CAPTURES_FX_PAR_MS),
        None => age_ms(premier_at, now) * CAPTURES_FX_PAR_MS,
    }
}

/// Le plafond d'écus gagnés (virgule fixe) que la cadence autorise.
pub open spec fn plafond_ecus(premier_at: u64, prec: Option<Precedent>, now: u64) -> int {
    match prec {
        Some(p) => min(p.ecus + depuis_ms(p, now) * ECUS_FX_PAR_MS,
            age_ms(premier_at, now) * ECUS_FX_PAR_MS),
        None => age_ms(premier_at, now) * ECUS_FX_PAR_MS,
    }
}

pub open spec fn puissance2(n: nat) -> nat
    decreases n,
{
    if n == 0 { 1 } else { 2 * puissance2((n - 1) as nat) }
}

/// Prix du voyage numéro `i` (à partir de zéro).
pub open spec fn cout_voyage(i: nat) -> nat {
    (VOYAGE_BASE * puissance2(if i <= VOYAGE_PALIER_MAX { i } else { VOYAGE_PALIER_MAX as nat })) as nat
}

/// Prix cumulé des `m` premiers voyages.
pub open spec fn cumul_voyages(m: nat) -> nat
    decreases m,
{
    if m == 0 { 0 } else { (cumul_voyages((m - 1) as nat) + cout_voyage((m - 1) as nat)) as nat }
}

/// Nombre de migrations que des gains (virgule fixe) ont pu payer, en
/// comptant à partir de la `m`-ième.
pub open spec fn voyages_depuis(ecus: int, m: nat) -> nat
    decreases MIGRATIONS_PLAFOND - m,
{
    if m >= MIGRATIONS_PLAFOND {
        m
    } else if cumul_voyages(m + 1) * UNITE > ecus {
        m
    } else {
        voyages_depuis(ecus, m + 1)
    }
}

/// Nombre de migrations que des gains (virgule fixe) ont pu payer.
pub open spec fn voyages_payables(ecus: int) -> nat {
    voyages_depuis(ecus, 0)
}

/// `t` est la partie entière de √(p / k).
pub open spec fn est_racine(p: int, k: int, t: int) -> bool {
    t >= 0 && t * t * k <= p && (t + 1) * (t + 1) * k > p
}

/// La partie entière de √(p / k).
pub open spec fn racine(p: int, k: int) -> int {
    choose|t: int| est_racine(p, k, t)
}

/// Le plafond de trophées : √(migrations × gains / 1 M), gains en virgule fixe.
pub open spec fn plafond_trophees(migrations: int, ecus: int) -> int {
    racine(migrations * ecus, ECUS_PAR_TROPHEE * UNITE)
}

/// Le score : espèces × 100 + shinies × 300 + rangs × 40 + trophées × 1000
/// + écus / 1000, arrondi à l'entier inférieur (entrées en virgule fixe,
/// sauf les trophées).
pub open spec fn score(especes: int, shinies: int, rangs: int, trophees: int, ecus: int) -> int {
    (1000 * (100 * especes + 300 * shinies + 40 * rangs + 1000 * trophees * UNITE) + ecus)
        / (1000 * UNITE)
}

/// Les bornes appliquées à un relevé. `especes_temps` est le plafond
/// d'espèces que l'ancienneté de la partie autorise.
pub open spec fn spec_bornes(
    r: Releve,
    premier_at: u64,
    prec: Option<Precedent>,
    now: u64,
    especes_temps: u64,
) -> Bornees {
    let captures = min(r.captures * UNITE, plafond_captures(premier_at, prec, now));
    let ecus = min(r.ecus * UNITE, plafond_ecus(premier_at, prec, now));
    let especes = min(min(min(r.especes * UNITE, ESPECES_MAX * UNITE), captures), especes_temps * UNITE);
    let rangs = min(r.rangs * UNITE, especes * RANG_MAX);
    let shinies = min(min(r.shinies * UNITE, captures), 4 * UNITE + captures / 80);
    let migrations = min(r.migrations as int, voyages_payables(ecus) as int);
    let trophees = min(r.trophees as int, plafond_trophees(migrations, ecus));
    Bornees {
        captures: captures as u128,
        especes: especes as u128,
        rangs: rangs as u128,
        shinies: shinies as u128,
        ecus: ecus as u128,
        migrations: migrations as u64,
        trophees: trophees as u64,
        score: score(especes, shinies, rangs, trophees, ecus) as u128,
        suspect: captures < r.captures * UNITE || especes < r.especes * UNITE
            || rangs < r.rangs * UNITE || shinies < r.shinies * UNITE || ecus < r.ecus * UNITE
            || migrations < r.migrations || trophees < r.trophees,
    }
}


proof fn lemma_puissance2_croissante(a: nat, b: nat)
    requires
        a <= b,
    ensures
        puissance2(a) <= puissance2(b),
    decreases b,
{
    if a < b {
        lemma_puissance2_croissante(a, (b - 1) as nat);
    }
}

proof fn lemma_cout_voyage_borne(i: nat)
    ensures
        cout_voyage(i) <= 409_600_000,
        i < VOYAGE_PALIER_MAX ==> cout_voyage(i + 1) == 2 * cout_voyage(i),
        i >= VOYAGE_PALIER_MAX ==> cout_voyage(i + 1) == cout_voyage(i),
{
    reveal_with_fuel(puissance2, 13);
    assert(puissance2(12) == 4096);
    let k: nat = if i <= VOYAGE_PALIER_MAX { i } else { VOYAGE_PALIER_MAX as nat };
    lemma_puissance2_croissante(k, 12);
}

/// Combien de migrations des gains totaux (virgule fixe) ont pu payer :
/// 100 000 écus la première, prix doublé à chaque départ jusqu'au douzième,
/// cent au plus.
pub fn migrations_max(ecus: u128) -> (m: u64)
    ensures
        m == voyages_payables(ecus as int),
        m <= MIGRATIONS_PLAFOND,
{
    let mut cumul: u128 = 0;
    let mut cout: u128 = 100_000;
    let mut m: u64 = 0;
    proof {
        reveal_with_fuel(puissance2, 1);
    }
    while m < MIGRATIONS_PLAFOND
        invariant
            m <= MIGRATIONS_PLAFOND,
            cumul == cumul_voyages(m as nat),
            cumul <= m * 409_600_000,
            cout == cout_voyage(m as nat),
            voyages_payables(ecus as int) == voyages_depuis(ecus as int, m as nat),
        decreases MIGRATIONS_PLAFOND - m,
    {
        proof {
            lemma_cout_voyage_borne(m as nat);
        }
        if (cumul + cout) * UNITE > ecus {
            return m;
        }
        cumul = cumul + cout;
        if m < VOYAGE_PALIER_MAX {
            cout = cout * 2;
        }
        m = m + 1;
    }
    m
}

/// Deux parties entières de √(p / k) sont égales.
proof fn lemma_racine_unique(p: int, k: int, t1: int, t2: int)
    requires
        k > 0,
        est_racine(p, k, t1),
        est_racine(p, k, t2),
    ensures
        t1 == t2,
{
    if t1 < t2 {
        assert((t1 + 1) * (t1 + 1) * k <= t2 * t2 * k) by (nonlinear_arith)
            requires
                0 <= t1 + 1 <= t2,
                k > 0,
        ;
    } else if t2 < t1 {
        assert((t2 + 1) * (t2 + 1) * k <= t1 * t1 * k) by (nonlinear_arith)
            requires
                0 <= t2 + 1 <= t1,
                k > 0,
        ;
    }
}

/// Le diviseur sous la racine des trophées : un million d'écus, en virgule fixe.
pub const DIVISEUR_TROPHEES: u128 = 16_000_000_000;

/// La partie entière de √(p / 16 000 000 000), par dichotomie.
pub fn racine_trophees(p: u128) -> (t: u64)
    requires
        p < 0x1_0000_0000_0000_0000_0000_0000,
    ensures
        est_racine(p as int, DIVISEUR_TROPHEES as int, t as int),
        t == racine(p as int, DIVISEUR_TROPHEES as int),
{
    let mut lo: u128 = 0;
    let mut hi: u128 = 0x100_0000_0000;
    assert(hi * hi * DIVISEUR_TROPHEES > p) by (nonlinear_arith)
        requires
            hi == 0x100_0000_0000,
            p < 0x1_0000_0000_0000_0000_0000_0000,
    ;
    while hi - lo > 1
        invariant
            lo < hi <= 0x100_0000_0000,
            lo * lo * DIVISEUR_TROPHEES <= p,
            hi * hi * DIVISEUR_TROPHEES > p,
        decreases hi - lo,
    {
        let mid = lo + (hi - lo) / 2;
        assert(mid * mid * DIVISEUR_TROPHEES <= 0x100_0000_0000 * 0x100_0000_0000 * DIVISEUR_TROPHEES)
            by (nonlinear_arith)
            requires
                mid <= 0x100_0000_0000,
        ;
        if mid * mid * DIVISEUR_TROPHEES <= p {
            lo = mid;
        } else {
            hi = mid;
        }
    }
    proof {
        assert(est_racine(p as int, DIVISEUR_TROPHEES as int, lo as int));
        let c = racine(p as int, DIVISEUR_TROPHEES as int);
        assert(est_racine(p as int, DIVISEUR_TROPHEES as int, c));
        lemma_racine_unique(p as int, DIVISEUR_TROPHEES as int, lo as int, c);
    }
    lo as u64
}


fn min_fx(a: u128, b: u128) -> (m: u128)
    ensures
        m == min(a as int, b as int),
{
    if a <= b { a } else { b }
}

/// Le plus grand prédécesseur qu'un envoi précédent puisse porter.
pub open spec fn precedent_borne(prec: Option<Precedent>) -> bool {
    match prec {
        Some(p) => p.captures <= 0x1_0000_0000_0000_0000_0000_0000
            && p.ecus <= 0x1_0000_0000_0000_0000_0000_0000,
        None => true,
    }
}

fn plafonds(premier_at: u64, prec: Option<Precedent>, now: u64) -> (c: (u128, u128))
    requires
        precedent_borne(prec),
    ensures
        c.0 == plafond_captures(premier_at, prec, now),
        c.1 == plafond_ecus(premier_at, prec, now),
{
    let age: u128 = (if now >= premier_at { now - premier_at } else { 0 }) as u128 + AVANCE_MS as u128;
    match prec {
        Some(p) => {
            let e = if now >= p.at { now - p.at } else { 0 };
            let depuis: u128 = if e >= 1000 { e as u128 } else { 1000 };
            (
                min_fx(p.captures + depuis * CAPTURES_FX_PAR_MS, age * CAPTURES_FX_PAR_MS),
                min_fx(p.ecus + depuis * ECUS_FX_PAR_MS, age * ECUS_FX_PAR_MS),
            )
        },
        None => (age * CAPTURES_FX_PAR_MS, age * ECUS_FX_PAR_MS),
    }
}

fn score_fx(especes: u128, shinies: u128, rangs: u128, trophees: u64, ecus: u128) -> (s: u128)
    requires
        especes <= 0x1_0000_0000_0000_0000_0000,
        shinies <= 0x1_0000_0000_0000_0000_0000,
        rangs <= 0x1_0000_0000_0000_0000_0000,
        ecus <= 0x1_0000_0000_0000_0000_0000,
    ensures
        s == score(especes as int, shinies as int, rangs as int, trophees as int, ecus as int),
{
    (1000 * (100 * especes + 300 * shinies + 40 * rangs + 1000 * (trophees as u128) * UNITE) + ecus)
        / (1000 * UNITE)
}

/// Borne les statistiques d'un relevé et recalcule son score.
///
/// `premier_at` est l'instant du premier envoi du joueur, `prec` l'envoi
/// précédent s'il est connu, `now` l'instant du jugement et `especes_temps`
/// le plafond d'espèces que l'ancienneté de la partie autorise.
pub fn borner_stats(
    r: Releve,
    premier_at: u64,
    prec: Option<Precedent>,
    now: u64,
    especes_temps: u64,
) -> (b: Bornees)
    requires
        precedent_borne(prec),
    ensures
        b == spec_bornes(r, premier_at, prec, now, especes_temps),
{
    let (cap_c, cap_e) = plafonds(premier_at, prec, now);
    let captures = min_fx(r.captures as u128 * UNITE, cap_c);
    let ecus = min_fx(r.ecus as u128 * UNITE, cap_e);
    assert(captures <= 0xFFFF_FFFF_FFFF_FFFF * UNITE);
    assert(ecus <= 0xFFFF_FFFF_FFFF_FFFF * UNITE);
    let especes = min_fx(
        min_fx(min_fx(r.especes as u128 * UNITE, ESPECES_MAX as u128 * UNITE), captures),
        especes_temps as u128 * UNITE,
    );
    assert(especes <= ESPECES_MAX * UNITE);
    let rangs = min_fx(r.rangs as u128 * UNITE, especes * 4);
    let shinies = min_fx(min_fx(r.shinies as u128 * UNITE, captures), 4 * UNITE + captures / 80);
    let mv = migrations_max(ecus);
    let migrations = if r.migrations <= mv { r.migrations } else { mv };
    assert(migrations as u128 * ecus <= 100 * (0xFFFF_FFFF_FFFF_FFFF * UNITE)) by (nonlinear_arith)
        requires
            migrations <= 100,
            ecus <= 0xFFFF_FFFF_FFFF_FFFF * UNITE,
    ;
    let t = racine_trophees(migrations as u128 * ecus);
    let trophees = if r.trophees <= t { r.trophees } else { t };
    let score = score_fx(especes, shinies, rangs, trophees, ecus);
    let suspect = captures < r.captures as u128 * UNITE || especes < r.especes as u128 * UNITE
        || rangs < r.rangs as u128 * UNITE || shinies < r.shinies as u128 * UNITE
        || ecus < r.ecus as u128 * UNITE || migrations < r.migrations || trophees < r.trophees;
    Bornees { captures, especes, rangs, shinies, ecus, migrations, trophees, score, suspect }
}

/// Le filet de lecture : une entrée déjà écrite est rejugée à sa propre
/// date d'écriture `at`, avec son premier envoi pour origine (à défaut,
/// `at` lui-même). Rien si elle ne tient pas debout, sinon ses statistiques
/// bornées et son score recalculé.
pub fn entree_verifiee(r: Releve, at: u64, premier_at: Option<u64>, especes_temps: u64) -> (v: Option<Bornees>)
    ensures
        ({
            let b = spec_bornes(r, match premier_at { Some(p) => p, None => at }, None, at, especes_temps);
            &&& v is None <==> b.suspect
            &&& v matches Some(x) ==> x == b
        }),
{
    let origine = match premier_at {
        Some(p) => p,
        None => at,
    };
    let b = borner_stats(r, origine, None, at, especes_temps);
    if b.suspect {
        None
    } else {
        Some(b)
    }
}

/// Un envoi ne peut déclarer plus de 10^15 par statistique.
pub fn plafond_envoi(n: u64) -> (m: u64)
    ensures
        m == min(n as int, ENVOI_MAX as int),
{
    if n <= ENVOI_MAX { n } else { ENVOI_MAX }
}


/// Un relevé plausible : chaque statistique tient sous ce que la partie a pu
/// produire, et les statistiques se tiennent entre elles.
pub open spec fn plausible(r: Releve, premier_at: u64, prec: Option<Precedent>, now: u64, especes_temps: u64) -> bool {
    &&& r.captures * UNITE <= plafond_captures(premier_at, prec, now)
    &&& r.ecus * UNITE <= plafond_ecus(premier_at, prec, now)
    &&& r.especes <= ESPECES_MAX
    &&& r.especes <= r.captures
    &&& r.especes <= especes_temps
    &&& r.rangs <= r.especes * RANG_MAX
    &&& r.shinies <= r.captures
    &&& r.shinies * UNITE <= 4 * UNITE + (r.captures * UNITE) / 80
    &&& r.migrations <= voyages_payables(r.ecus * UNITE)
    &&& r.trophees <= plafond_trophees(r.migrations as int, r.ecus * UNITE)
}

/// Aucune statistique n'est jamais relevée : chaque valeur bornée est au
/// plus la valeur annoncée, et l'entrée est suspecte exactement quand l'une
/// d'elles a été abaissée.
pub proof fn loi_bornes_jamais_au_dessus(r: Releve, premier_at: u64, prec: Option<Precedent>, now: u64, especes_temps: u64)
    ensures
        ({
            let b = spec_bornes(r, premier_at, prec, now, especes_temps);
            &&& b.captures <= r.captures * UNITE
            &&& b.especes <= r.especes * UNITE
            &&& b.rangs <= r.rangs * UNITE
            &&& b.shinies <= r.shinies * UNITE
            &&& b.ecus <= r.ecus * UNITE
            &&& b.migrations <= r.migrations
            &&& b.trophees <= r.trophees
            &&& (b.suspect <==> (b.captures < r.captures * UNITE || b.especes < r.especes * UNITE
                || b.rangs < r.rangs * UNITE || b.shinies < r.shinies * UNITE
                || b.ecus < r.ecus * UNITE || b.migrations < r.migrations || b.trophees < r.trophees))
        }),
{
    lemma_racine_positive(0, 1);
    let b = spec_bornes(r, premier_at, prec, now, especes_temps);
    let ecus = min(r.ecus * UNITE, plafond_ecus(premier_at, prec, now));
    let migrations = min(r.migrations as int, voyages_payables(ecus) as int);
    lemma_plafond_trophees_positif(migrations, ecus);
}

/// La racine entière d'un produit positif est positive.
proof fn lemma_racine_positive(p: int, k: int)
    requires
        p >= 0,
        k > 0,
    ensures
        est_racine(p, k, racine(p, k)),
        racine(p, k) >= 0,
{
    lemma_racine_existe(p, k);
}

proof fn lemma_racine_existe(p: int, k: int)
    requires
        p >= 0,
        k > 0,
    ensures
        exists|t: int| est_racine(p, k, t),
{
    lemma_racine_depuis(p, k, 0);
}

/// On part de `t` et l'on monte tant que (t + 1)² · k ≤ p.
proof fn lemma_racine_depuis(p: int, k: int, t: int)
    requires
        t >= 0,
        k > 0,
        t * t * k <= p,
    ensures
        exists|u: int| est_racine(p, k, u),
    decreases p - t * t * k,
{
    if (t + 1) * (t + 1) * k > p {
        assert(est_racine(p, k, t));
    } else {
        assert((t + 1) * (t + 1) * k > t * t * k) by (nonlinear_arith)
            requires
                t >= 0,
                k > 0,
        ;
        lemma_racine_depuis(p, k, t + 1);
    }
}

proof fn lemma_plafond_trophees_positif(migrations: int, ecus: int)
    ensures
        migrations >= 0 && ecus >= 0 ==> plafond_trophees(migrations, ecus) >= 0,
{
    if migrations >= 0 && ecus >= 0 {
        assert(migrations * ecus >= 0) by (nonlinear_arith)
            requires
                migrations >= 0,
                ecus >= 0,
        ;
        lemma_racine_positive(migrations * ecus, ECUS_PAR_TROPHEE * UNITE);
    }
}


/// Une entrée bornée tient toujours debout : pas plus de 114 espèces, pas
/// d'espèce sans capture, quatre rangs par espèce au plus, un shiny toutes
/// les 80 prises au plus, pas plus de migrations que les gains n'en ont
/// payé, pas plus de trophées que √(migrations × gains / 1 M), et le score
/// est celui que donne la formule, jamais celui du client.
pub proof fn loi_entree_bornee_plausible(r: Releve, premier_at: u64, prec: Option<Precedent>, now: u64, especes_temps: u64)
    ensures
        ({
            let b = spec_bornes(r, premier_at, prec, now, especes_temps);
            &&& b.captures <= plafond_captures(premier_at, prec, now)
            &&& b.ecus <= plafond_ecus(premier_at, prec, now)
            &&& b.especes <= ESPECES_MAX * UNITE
            &&& b.especes <= b.captures
            &&& b.especes <= especes_temps * UNITE
            &&& b.rangs <= b.especes * RANG_MAX
            &&& b.shinies <= b.captures
            &&& b.shinies <= 4 * UNITE + b.captures / 80
            &&& b.migrations <= voyages_payables(b.ecus as int)
            &&& b.trophees * b.trophees * (ECUS_PAR_TROPHEE * UNITE) <= b.migrations * b.ecus
            &&& b.score == score(b.especes as int, b.shinies as int, b.rangs as int, b.trophees as int, b.ecus as int)
        }),
{
    loi_bornes_jamais_au_dessus(r, premier_at, prec, now, especes_temps);
    let b = spec_bornes(r, premier_at, prec, now, especes_temps);
    let ecus = min(r.ecus * UNITE, plafond_ecus(premier_at, prec, now));
    let migrations = min(r.migrations as int, voyages_payables(ecus) as int);
    lemma_plafond_trophees_positif(migrations, ecus);
    lemma_racine_positive(migrations * ecus, ECUS_PAR_TROPHEE * UNITE);
    let t = plafond_trophees(migrations, ecus);
    let tr = b.trophees as int;
    assert(tr * tr * (ECUS_PAR_TROPHEE * UNITE) <= t * t * (ECUS_PAR_TROPHEE * UNITE)) by (nonlinear_arith)
        requires
            0 <= tr <= t,
    ;
}

/// Une partie honnête passe intacte : un relevé plausible n'est pas suspect
/// et ressort tel quel.
pub proof fn loi_partie_honnete_intacte(r: Releve, premier_at: u64, prec: Option<Precedent>, now: u64, especes_temps: u64)
    requires
        plausible(r, premier_at, prec, now, especes_temps),
    ensures
        ({
            let b = spec_bornes(r, premier_at, prec, now, especes_temps);
            &&& !b.suspect
            &&& b.captures == r.captures * UNITE
            &&& b.especes == r.especes * UNITE
            &&& b.rangs == r.rangs * UNITE
            &&& b.shinies == r.shinies * UNITE
            &&& b.ecus == r.ecus * UNITE
            &&& b.migrations == r.migrations
            &&& b.trophees == r.trophees
        }),
{
    assert(r.especes * UNITE <= r.captures * UNITE) by (nonlinear_arith)
        requires
            r.especes <= r.captures,
    ;
    assert(r.especes * UNITE <= especes_temps * UNITE) by (nonlinear_arith)
        requires
            r.especes <= especes_temps,
    ;
    assert(r.especes * UNITE <= ESPECES_MAX * UNITE) by (nonlinear_arith)
        requires
            r.especes <= ESPECES_MAX,
    ;
    assert(r.rangs * UNITE <= r.especes * UNITE * RANG_MAX) by (nonlinear_arith)
        requires
            r.rangs <= r.especes * RANG_MAX,
    ;
    assert(r.shinies * UNITE <= r.captures * UNITE) by (nonlinear_arith)
        requires
            r.shinies <= r.captures,
    ;
}

/// Le temps ne fait jamais sortir une partie du classement : une entrée
/// jugée plausible le reste à tout instant ultérieur, le plafond d'espèces
/// de l'ancienneté ne baissant pas.
pub proof fn loi_plausible_le_reste(
    r: Releve,
    premier_at: u64,
    now: u64,
    plus_tard: u64,
    especes_temps: u64,
    especes_temps_apres: u64,
)
    requires
        now <= plus_tard,
        especes_temps <= especes_temps_apres,
        !spec_bornes(r, premier_at, None, now, especes_temps).suspect,
    ensures
        !spec_bornes(r, premier_at, None, plus_tard, especes_temps_apres).suspect,
        spec_bornes(r, premier_at, None, plus_tard, especes_temps_apres)
            == spec_bornes(r, premier_at, None, now, especes_temps),
{
    loi_bornes_jamais_au_dessus(r, premier_at, None, now, especes_temps);
    assert(age_ms(premier_at, now) <= age_ms(premier_at, plus_tard));
    assert(age_ms(premier_at, now) * CAPTURES_FX_PAR_MS <= age_ms(premier_at, plus_tard) * CAPTURES_FX_PAR_MS);
    assert(age_ms(premier_at, now) * ECUS_FX_PAR_MS <= age_ms(premier_at, plus_tard) * ECUS_FX_PAR_MS);
    assert(r.especes * UNITE <= especes_temps * UNITE);
    assert(especes_temps * UNITE <= especes_temps_apres * UNITE) by (nonlinear_arith)
        requires
            especes_temps <= especes_temps_apres,
    ;
}

/// Le score est une somme pondérée : chaque trophée vaut exactement 1000
/// points, chaque espèce 100, chaque shiny 300, chaque rang 40 et chaque
/// millier d'écus 1 ; seule la part hors trophées est arrondie à l'entier
/// inférieur (entrées en virgule fixe, sauf les trophées).
pub proof fn loi_score_lineaire(e: int, s: int, r: int, t: int, x: int)
    requires
        e >= 0,
        s >= 0,
        r >= 0,
        t >= 0,
        x >= 0,
    ensures
        score(e, s, r, t, x) == (1000 * (100 * e + 300 * s + 40 * r) + x) / (1000 * UNITE) + 1000 * t,
        score(e, s, r, t + 1, x) == score(e, s, r, t, x) + 1000,
        score(e + UNITE, s, r, t, x) == score(e, s, r, t, x) + 100,
        score(e, s + UNITE, r, t, x) == score(e, s, r, t, x) + 300,
        score(e, s, r + UNITE, t, x) == score(e, s, r, t, x) + 40,
        score(e, s, r, t, x + 1000 * UNITE) == score(e, s, r, t, x) + 1,
{
    let d: nat = (1000 * UNITE) as nat;
    let base = 1000 * (100 * e + 300 * s + 40 * r) + x;
    assert(d == 16_000_000);
    assert forall|b: int, j: int| #![trigger (b + j * d) / (d as int)]
        (b + j * d) / (d as int) == b / (d as int) + j by {
        vstd::arithmetic::div_mod::lemma_hoist_over_denominator(b, j, d);
    }
    assert(1000 * (100 * e + 300 * s + 40 * r + 1000 * t * UNITE) + x == base + (1000 * t) * d);
    assert(1000 * (100 * e + 300 * s + 40 * r + 1000 * (t + 1) * UNITE) + x == base + (1000 * (t + 1)) * d);
    assert(1000 * (100 * (e + UNITE) + 300 * s + 40 * r + 1000 * t * UNITE) + x == base + (1000 * t + 100) * d);
    assert(1000 * (100 * e + 300 * (s + UNITE) + 40 * r + 1000 * t * UNITE) + x == base + (1000 * t + 300) * d);
    assert(1000 * (100 * e + 300 * s + 40 * (r + UNITE) + 1000 * t * UNITE) + x == base + (1000 * t + 40) * d);
    assert(1000 * (100 * e + 300 * s + 40 * r + 1000 * t * UNITE) + (x + 1000 * UNITE) == base + (1000 * t + 1) * d);
}

} // verus!
