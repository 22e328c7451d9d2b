//! L'horloge du village : une journée de village dure deux heures réelles.
//! Jour, nuit, saisons, lune et météo en découlent ; tout se compte ici en
//! millisecondes entières depuis l'époque Unix.

use vstd::prelude::*;

verus! {

/// Durée d'une journée au village, en millisecondes réelles.
pub const JOUR_JEU_MS: u64 = 7_200_000;
/// Durée d'une journée réelle, en millisecondes.
pub const JOUR_REEL_MS: u64 = 86_400_000;
/// Durée d'un créneau météo (20 minutes).
pub const CRENEAU_METEO_MS: u64 = 1_200_000;

/// Position dans la journée de village, en millisecondes.
pub open spec fn dans_le_jour(ms: u64) -> int {
    ms as int % JOUR_JEU_MS as int
}

/// La nuit va de 21 h à 7 h, heures de village : `h = 24 · r / J`.
pub open spec fn spec_nuit(ms: u64) -> bool {
    24 * dans_le_jour(ms) >= 21 * JOUR_JEU_MS || 24 * dans_le_jour(ms) < 7 * JOUR_JEU_MS
}

/// Numéro de la nuit, comptée de 7 h à 7 h (division euclidienne).
pub open spec fn spec_nuit_index(ms: u64) -> int {
    (ms as int - 7 * JOUR_JEU_MS as int / 24) / JOUR_JEU_MS as int
}

/// Une nuit sur huit est de pleine lune.
pub open spec fn spec_pleine_lune(ms: u64) -> bool {
    spec_nuit_index(ms) % 8 == 3
}

/// Le puits a soif les deux premières heures du jour, et toute la nuit de pleine lune.
pub open spec fn spec_puits_assoiffe(ms: u64) -> bool {
    24 * dans_le_jour(ms) < 2 * JOUR_JEU_MS || (spec_pleine_lune(ms) && spec_nuit(ms))
}

/// Vrai entre 21 h et 7 h au village.
pub fn is_night_at(ms: u64) -> (b: bool)
    ensures
        b == spec_nuit(ms),
{
    let r = ms % JOUR_JEU_MS;
    r >= 6_300_000 || r < 2_100_000
}

/// Numéro de la nuit en cours (de 7 h à 7 h) : il ne change pas à minuit.
pub fn nuit_index(ms: u64) -> (n: i64)
    ensures
        n == spec_nuit_index(ms),
{
    if ms >= 2_100_000 {
        ((ms - 2_100_000) / JOUR_JEU_MS) as i64
    } else {
        -1
    }
}

/// Vrai pendant une nuit de pleine lune (une nuit sur huit).
pub fn pleine_lune(ms: u64) -> (b: bool)
    ensures
        b == spec_pleine_lune(ms),
{
    if ms >= 2_100_000 {
        ((ms - 2_100_000) / JOUR_JEU_MS) % 8 == 3
    } else {
        false
    }
}

/// Vrai quand le puits a soif : deux heures de village par jour, plus la
/// nuit de pleine lune.
pub fn puits_assoiffe(ms: u64) -> (b: bool)
    ensures
        b == spec_puits_assoiffe(ms),
{
    let r = ms % JOUR_JEU_MS;
    r < 600_000 || (pleine_lune(ms) && is_night_at(ms))
}

/// Le jour réel : c'est lui qui limite les offrandes au puits.
pub fn jour_reel(ms: u64) -> (j: u64)
    ensures
        j == ms / JOUR_REEL_MS,
{
    ms / JOUR_REEL_MS
}

/// La saison : elle change à chaque journée de village, dans l'ordre
/// printemps, été, automne, hiver.
pub fn season_at(ms: u64) -> (s: usize)
    ensures
        s == (ms / JOUR_JEU_MS) % 4,
        s < 4,
{
    ((ms / JOUR_JEU_MS) % 4) as usize
}

/// Jour de foire : une journée réelle sur quatre.
pub fn fair_day(ms: u64) -> (b: bool)
    ensures
        b == ((ms / JOUR_REEL_MS) % 4 == 0),
{
    (ms / JOUR_REEL_MS) % 4 == 0
}

/// Le mélangeur splitmix64, écrit avec l'arithmétique modulo 2^64.
pub open spec fn spec_splitmix(x: u64) -> u64 {
    let a = vstd::wrapping::u64_specs::wrapping_add(x, 0x9E3779B97F4A7C15);
    let b = vstd::wrapping::u64_specs::wrapping_mul(a ^ (a >> 30u64), 0xBF58476D1CE4E5B9);
    let c = vstd::wrapping::u64_specs::wrapping_mul(b ^ (b >> 27u64), 0x94D049BB133111EB);
    c ^ (c >> 31u64)
}

/// Le mélangeur splitmix64 : tire un entier pseudo-aléatoire reproductible
/// d'une graine.
pub fn splitmix(x: u64) -> (r: u64)
    ensures
        r == spec_splitmix(x),
{
    let a = x.wrapping_add(0x9E3779B97F4A7C15);
    let b = (a ^ (a >> 30u64)).wrapping_mul(0xBF58476D1CE4E5B9);
    let c = (b ^ (b >> 27u64)).wrapping_mul(0x94D049BB133111EB);
    c ^ (c >> 31u64)
}

/// Météo d'un créneau, à partir des deux tirages splitmix du créneau : la
/// nuit, trois chances sur dix de nuit étoilée, sinon le tirage du jour.
pub open spec fn spec_meteo(nuit: bool, tirage_nuit: u64, tirage: u64) -> usize {
    if nuit && tirage_nuit % 100 < 30 {
        5
    } else if tirage % 100 < 35 {
        0
    } else if tirage % 100 < 55 {
        1
    } else if tirage % 100 < 70 {
        2
    } else if tirage % 100 < 85 {
        3
    } else {
        4
    }
}

/// La météo du créneau `c` : la nuit se juge au début du créneau, si bien
/// que le temps ne change pas au milieu.
pub open spec fn meteo_du_creneau(c: u64) -> usize {
    spec_meteo(
        spec_nuit((c * CRENEAU_METEO_MS) as u64),
        spec_splitmix(c ^ 0xABCD),
        spec_splitmix(c),
    )
}

/// Météo déterministe par créneau de 20 minutes (0 ciel clair, 1 pluie,
/// 2 brume, 3 canicule, 4 tempête, 5 nuit étoilée) : une seule météo par
/// créneau, que la simulation hors-ligne rejoue à l'identique. La nuit
/// étoilée ne vient que si le créneau commence de nuit.
pub fn weather_at(ms: u64) -> (w: usize)
    ensures
        w == meteo_du_creneau(ms / CRENEAU_METEO_MS),
        w < 6,
        w == 5 ==> spec_nuit(((ms / CRENEAU_METEO_MS) * CRENEAU_METEO_MS) as u64),
{
    let c = ms / CRENEAU_METEO_MS;
    let debut = c * CRENEAU_METEO_MS;
    if is_night_at(debut) && splitmix(c ^ 0xABCD) % 100 < 30 {
        return 5;
    }
    let t = splitmix(c) % 100;
    if t < 35 {
        0
    } else if t < 55 {
        1
    } else if t < 70 {
        2
    } else if t < 85 {
        3
    } else {
        4
    }
}

/// Un créneau, une météo : deux instants du même créneau de 20 minutes ont
/// le même temps.
pub proof fn loi_une_meteo_par_creneau(ms1: u64, ms2: u64)
    requires
        ms1 / CRENEAU_METEO_MS == ms2 / CRENEAU_METEO_MS,
    ensures
        meteo_du_creneau(ms1 / CRENEAU_METEO_MS) == meteo_du_creneau(ms2 / CRENEAU_METEO_MS),
{
}

/// La table des météos : un créneau qui commence de nuit, et dont le
/// tirage de nuit tombe sous 30 sur 100, est une nuit étoilée (5) ; sinon
/// le tirage du jour, ramené sur 100, donne le ciel clair (0) sous 35, la
/// pluie (1) de 35 à 54, la brume (2) de 55 à 69, la canicule (3) de 70 à
/// 84 et la tempête (4) au-delà.
pub proof fn loi_table_meteo(c: u64)
    ensures
        ({
            let etoilee = spec_nuit((c * CRENEAU_METEO_MS) as u64) && spec_splitmix(c ^ 0xABCD) % 100 < 30;
            let t = spec_splitmix(c) % 100;
            &&& etoilee ==> meteo_du_creneau(c) == 5
            &&& !etoilee ==> (meteo_du_creneau(c) == 0 <==> t < 35)
            &&& !etoilee ==> (meteo_du_creneau(c) == 1 <==> 35 <= t < 55)
            &&& !etoilee ==> (meteo_du_creneau(c) == 2 <==> 55 <= t < 70)
            &&& !etoilee ==> (meteo_du_creneau(c) == 3 <==> 70 <= t < 85)
            &&& !etoilee ==> (meteo_du_creneau(c) == 4 <==> 85 <= t)
            &&& !etoilee ==> meteo_du_creneau(c) != 5
        }),
{
}

/// Tous les temps arrivent : chacune des six météos tombe sur au moins un
/// créneau.
pub proof fn loi_toutes_les_meteos(w: usize)
    requires
        w < 6,
    ensures
        exists|c: u64| meteo_du_creneau(c) == w,
{
    assert(spec_splitmix(0u64 ^ 0xABCDu64) % 100 == 24) by (bit_vector);
    assert(meteo_du_creneau(0) == 5);
    assert(spec_splitmix(1u64 ^ 0xABCDu64) % 100 == 87) by (bit_vector);
    assert(spec_splitmix(1) % 100 == 65) by (bit_vector);
    assert(meteo_du_creneau(1) == 2);
    assert(spec_splitmix(2) % 100 == 10) by (bit_vector);
    assert(meteo_du_creneau(2) == 0);
    assert(spec_splitmix(3) % 100 == 53) by (bit_vector);
    assert(meteo_du_creneau(3) == 1);
    assert(spec_splitmix(4) % 100 == 78) by (bit_vector);
    assert(meteo_du_creneau(4) == 3);
    assert(spec_splitmix(7u64 ^ 0xABCDu64) % 100 == 71) by (bit_vector);
    assert(spec_splitmix(7) % 100 == 87) by (bit_vector);
    assert(meteo_du_creneau(7) == 4);
}

/// La nuit revient à l'identique chaque journée de village.
pub proof fn loi_nuit_periodique(ms: u64)
    requires
        ms + JOUR_JEU_MS <= u64::MAX,
    ensures
        spec_nuit((ms + JOUR_JEU_MS) as u64) == spec_nuit(ms),
{
    assert(((ms + JOUR_JEU_MS) as int) % (JOUR_JEU_MS as int) == (ms as int) % (JOUR_JEU_MS as int))
        by (nonlinear_arith);
}

} // verus!
