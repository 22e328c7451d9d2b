//! Le catalogue : à quel biome appartient chaque espèce, quelle est sa
//! rareté, et ce que coûte l'ouverture de chaque biome.

use vstd::prelude::*;

verus! {

/// Nombre d'espèces du catalogue.
pub const NB_ESPECES: usize = 133;
/// Les biomes de la carte sont 0..WILDB.
pub const WILDB: u8 = 11;
/// Les curiosités, qu'aucun piège n'attrape : elles s'obtiennent au troc.
pub const CURIO_B: u8 = 11;
/// Les légendes errantes, qui n'appartiennent à aucun biome.
pub const LEGEND_B: u8 = 12;
/// Ce qui vit au fond du puits.
pub const PUITS_B: u8 = 13;

/// Biome de chaque espèce (forêt 0, marais 1, montagne 2, désert 3,
/// glacier 4, abysses 5, volcan 6, récif 7, ruines 8, rivière 9, lac 10,
/// curiosités 11, légendes 12, puits 13).
pub const BIOME_DES_ESPECES: [u8; 133] = [
    0, 0, 0, 0, 0, 0, 0, 0, 0, 0, 0, 0, 0, 1, 1, 1, 1, 1, 1, 1, 1, 1, 1, 1, 2, 2, 2, 2, 2, 2, 2, 2, 2,
    2, 3, 3, 3, 3, 3, 3, 3, 3, 3, 3, 3, 3, 4, 4, 4, 4, 4, 4, 4, 4, 4, 4, 4, 5, 5, 5, 5, 5, 5, 5, 5, 5,
    5, 5, 6, 6, 6, 6, 6, 6, 6, 6, 7, 7, 7, 7, 7, 7, 7, 7, 7, 7, 7, 7, 8, 8, 8, 8, 8, 8, 8, 8, 8, 8, 9,
    9, 9, 9, 9, 9, 9, 9, 9, 10, 10, 10, 10, 10, 10, 10, 11, 11, 11, 11, 11, 11, 12, 12, 12, 12, 12, 12,
    12, 12, 12, 12, 12, 12, 13,
];

/// Rareté de chaque espèce (commun 0, peu commun 1, rare 2, épique 3,
/// légendaire 4).
pub const RARETE_DES_ESPECES: [u8; 133] = [
    0, 0, 0, 0, 0, 1, 1, 1, 2, 2, 2, 3, 4, 0, 0, 0, 0, 1, 1, 1, 2, 2, 3, 4, 0, 0, 0, 0, 1, 1, 2, 2, 3,
    4, 0, 0, 0, 0, 0, 1, 1, 2, 2, 2, 3, 4, 0, 0, 0, 0, 0, 1, 1, 2, 2, 3, 4, 0, 0, 0, 0, 1, 1, 1, 2, 2,
    3, 4, 0, 0, 0, 1, 1, 2, 3, 4, 0, 0, 0, 0, 0, 1, 1, 1, 2, 2, 3, 4, 0, 0, 1, 1, 1, 2, 2, 3, 3, 4, 0,
    0, 0, 1, 1, 1, 2, 2, 3, 0, 0, 1, 2, 2, 3, 4, 1, 2, 2, 3, 3, 4, 3, 3, 3, 3, 4, 4, 4, 4, 4, 4, 4, 4,
    4,
];

/// Prix d'ouverture des biomes de la carte, en écus.
pub const COUT_BIOMES: [u64; 11] = [
    0, 2500, 20000, 400000, 3000000, 25000000, 85000000, 260000000, 440000000, 900, 45000,
];

/// Nombre d'espèces d'indice < `n` dont le biome est dans [lo, hi).
pub open spec fn nb_dans(s: Seq<u8>, n: int, lo: int, hi: int) -> nat
    decreases n,
{
    if n <= 0 {
        0
    } else {
        nb_dans(s, n - 1, lo, hi) + if lo <= s[n - 1] < hi { 1nat } else { 0nat }
    }
}

/// Nombre d'espèces dont le biome est dans [lo, hi).
#[verifier::opaque]
pub open spec fn nb_especes_dans(lo: int, hi: int) -> nat {
    nb_dans(BIOME_DES_ESPECES@, NB_ESPECES as int, lo, hi)
}

fn compter(lo: u8, hi: u16) -> (n: usize)
    ensures
        n == nb_especes_dans(lo as int, hi as int),
{
    let mut n: usize = 0;
    let mut i: usize = 0;
    while i < NB_ESPECES
        invariant
            i <= NB_ESPECES,
            n == nb_dans(BIOME_DES_ESPECES@, i as int, lo as int, hi as int),
            n <= i,
        decreases NB_ESPECES - i,
    {
        let b = BIOME_DES_ESPECES[i];
        if lo <= b && (b as u16) < hi {
            n = n + 1;
        }
        i = i + 1;
    }
    proof {
        reveal(nb_especes_dans);
    }
    n
}

/// Les espèces hors biome — curiosités du troc, légendes errantes, et ce
/// qui dort au fond du puits.
pub fn especes_hors_biome() -> (n: usize)
    ensures
        n == nb_especes_dans(WILDB as int, 256),
{
    compter(WILDB, 256)
}

/// Les curiosités du troc.
pub fn curiosites_max() -> (n: usize)
    ensures
        n == nb_especes_dans(CURIO_B as int, CURIO_B + 1),
{
    compter(CURIO_B, CURIO_B as u16 + 1)
}

/// Les espèces des légendes et du puits, qu'aucun piège n'attrape.
pub fn legendes_max() -> (n: usize)
    ensures
        n == nb_especes_dans(LEGEND_B as int, 256),
{
    compter(LEGEND_B, 256)
}

/// Le bestiaire sauvage : les espèces des biomes de la carte.
pub fn wild_total() -> (n: usize)
    ensures
        n == nb_especes_dans(0, WILDB as int),
{
    compter(0, WILDB as u16)
}

/// Le nombre d'espèces d'un biome.
pub fn nb_especes_du_biome(b: u8) -> (n: usize)
    ensures
        n == nb_especes_dans(b as int, b + 1),
{
    compter(b, b as u16 + 1)
}


/// Les prix d'ouverture sont tous distincts.
proof fn lemma_couts_distincts()
    ensures
        forall|a: int, b: int| 0 <= a < 11 && 0 <= b < 11 && a != b ==> COUT_BIOMES@[a] != COUT_BIOMES@[b],
{
    assert(COUT_BIOMES@ =~= seq![0u64, 2500, 20000, 400000, 3000000, 25000000, 85000000, 260000000, 440000000, 900, 45000]);
}

/// `v` range les biomes de la carte du moins cher au plus cher.
#[verifier::opaque]
pub open spec fn range_par_prix(v: Seq<usize>) -> bool {
    &&& v.len() == WILDB
    &&& forall|i: int| 0 <= i < v.len() ==> (#[trigger] v[i]) < WILDB
    &&& forall|i: int, j: int| 0 <= i < j < v.len() ==> COUT_BIOMES@[v[i] as int] < COUT_BIOMES@[v[j] as int]
    &&& forall|b: usize| b < WILDB ==> #[trigger] v.contains(b)
}

/// Les biomes de la carte, du moins cher au plus cher : l'ordre d'affichage
/// suit la progression du joueur.
pub fn biomes_par_prix() -> (v: Vec<usize>)
    ensures
        range_par_prix(v@),
{
    proof {
        lemma_couts_distincts();
    }
    let mut v: Vec<usize> = Vec::new();
    let mut k: usize = 0;
    while k < 11
        invariant
            k <= 11,
            v.len() == k,
            forall|i: int| 0 <= i < v.len() ==> (#[trigger] v@[i]) < k,
            forall|i: int, j: int| 0 <= i < j < v.len() ==> COUT_BIOMES@[v@[i] as int] < COUT_BIOMES@[v@[j] as int],
            forall|b: usize| b < k ==> #[trigger] v@.contains(b),
            forall|a: int, b: int| 0 <= a < 11 && 0 <= b < 11 && a != b ==> COUT_BIOMES@[a] != COUT_BIOMES@[b],
        decreases 11 - k,
    {
        let mut pos: usize = 0;
        while pos < v.len() && COUT_BIOMES[v[pos]] < COUT_BIOMES[k]
            invariant
                pos <= v.len(),
                v.len() == k,
                k < 11,
                forall|i: int| 0 <= i < v.len() ==> (#[trigger] v@[i]) < k,
                forall|i: int| 0 <= i < pos ==> COUT_BIOMES@[v@[i] as int] < COUT_BIOMES@[k as int],
            decreases v.len() - pos,
        {
            pos = pos + 1;
        }
        let ghost avant = v@;
        v.insert(pos, k);
        proof {
            assert forall|i: int| pos < i < v.len() implies COUT_BIOMES@[k as int] < COUT_BIOMES@[v@[i] as int] by {
                assert(v@[i] == avant[i - 1]);
                if i - 1 > pos {
                    assert(COUT_BIOMES@[avant[pos as int] as int] < COUT_BIOMES@[avant[i - 1] as int]);
                }
                assert(avant[pos as int] != k);
            }
            assert forall|b: usize| b < k + 1 implies #[trigger] v@.contains(b) by {
                if b < k {
                    assert(avant.contains(b));
                    let j = choose|j: int| 0 <= j < avant.len() && avant[j] == b;
                    if j < pos {
                        assert(v@[j] == b);
                    } else {
                        assert(v@[j + 1] == b);
                    }
                } else {
                    assert(v@[pos as int] == k);
                }
            }
        }
        k = k + 1;
    }
    proof {
        reveal(range_par_prix);
    }
    v
}


/// Les paliers tirés d'un rangement par prix.
pub open spec fn paliers_de(v: Seq<usize>, p: Seq<(u64, usize)>) -> bool {
    &&& p.len() == v.len()
    &&& forall|k: int| 0 <= k < p.len() ==> (#[trigger] p[k]).0 == COUT_BIOMES@[v[k] as int]
        && p[k].1 == nb_especes_dans(v[k] as int, v[k] + 1)
}

/// Les paliers du bestiaire : rangés par prix strictement croissant, un par
/// biome de la carte, avec le nombre d'espèces de ce biome.
#[verifier::opaque]
pub open spec fn paliers_valides(p: Seq<(u64, usize)>) -> bool {
    &&& p.len() == WILDB
    &&& forall|i: int, j: int| 0 <= i < j < p.len() ==> p[i].0 < p[j].0
    &&& forall|i: int| 0 <= i < p.len() ==> exists|b: int| 0 <= b < WILDB
        && (#[trigger] p[i]).0 == COUT_BIOMES@[b] && p[i].1 == nb_especes_dans(b, b + 1)
    &&& forall|b: int| 0 <= b < WILDB ==> #[trigger] palier_present(p, b)
}

/// Le biome `b` a son palier dans `p`.
pub open spec fn palier_present(p: Seq<(u64, usize)>, b: int) -> bool {
    exists|i: int| 0 <= i < p.len() && (#[trigger] p[i]).0 == COUT_BIOMES@[b]
}

proof fn lemma_paliers_tries(v: Seq<usize>, p: Seq<(u64, usize)>)
    requires
        range_par_prix(v),
        paliers_de(v, p),
    ensures
        forall|i: int, j: int| 0 <= i < j < p.len() ==> p[i].0 < p[j].0,
{
    reveal(range_par_prix);
    assert forall|x: int, y: int| 0 <= x < y < p.len() implies p[x].0 < p[y].0 by {
        assert(p[x].0 == COUT_BIOMES@[v[x] as int]);
        assert(p[y].0 == COUT_BIOMES@[v[y] as int]);
    }
}

proof fn lemma_paliers_origine(v: Seq<usize>, p: Seq<(u64, usize)>)
    requires
        range_par_prix(v),
        paliers_de(v, p),
    ensures
        forall|i: int| 0 <= i < p.len() ==> exists|b: int| 0 <= b < WILDB
            && (#[trigger] p[i]).0 == COUT_BIOMES@[b] && p[i].1 == nb_especes_dans(b, b + 1),
{
    reveal(range_par_prix);
    assert forall|k: int| 0 <= k < p.len() implies exists|b: int| 0 <= b < WILDB
        && (#[trigger] p[k]).0 == COUT_BIOMES@[b] && p[k].1 == nb_especes_dans(b, b + 1) by {
        let b = v[k] as int;
        assert(0 <= b < WILDB);
        assert(p[k].0 == COUT_BIOMES@[b]);
    }
}

proof fn lemma_paliers_complets(v: Seq<usize>, p: Seq<(u64, usize)>)
    requires
        range_par_prix(v),
        paliers_de(v, p),
    ensures
        forall|b: int| 0 <= b < WILDB ==> #[trigger] palier_present(p, b),
{
    reveal(range_par_prix);
    assert forall|b: int| 0 <= b < WILDB implies #[trigger] palier_present(p, b) by {
        assert(v.contains(b as usize));
        let k = choose|k: int| 0 <= k < v.len() && v[k] == b as usize;
        assert(p[k].0 == COUT_BIOMES@[v[k] as int]);
    }
}

proof fn lemma_paliers(v: Seq<usize>, p: Seq<(u64, usize)>)
    requires
        range_par_prix(v),
        paliers_de(v, p),
        v.len() == WILDB,
    ensures
        paliers_valides(p),
{
    lemma_paliers_tries(v, p);
    lemma_paliers_origine(v, p);
    lemma_paliers_complets(v, p);
    reveal(paliers_valides);
}

/// (prix d'ouverture, nombre d'espèces) de chaque biome de la carte, du
/// moins cher au plus cher : de quoi vérifier qu'un bestiaire annoncé
/// était finançable.
pub fn paliers_bestiaire() -> (p: Vec<(u64, usize)>)
    ensures
        paliers_valides(p@),
{
    let v = biomes_par_prix();
    let ghost gv = v@;
    proof {
        reveal(range_par_prix);
    }
    let mut p: Vec<(u64, usize)> = Vec::new();
    let mut i: usize = 0;
    while i < v.len()
        invariant
            v@ == gv,
            v.len() == WILDB,
            forall|k: int| 0 <= k < v.len() ==> (#[trigger] v@[k]) < WILDB,
            i <= v.len(),
            p.len() == i,
            paliers_de(v@.take(i as int), p@),
        decreases v.len() - i,
    {
        let b = v[i];
        p.push((COUT_BIOMES[b], nb_especes_du_biome(b as u8)));
        i = i + 1;
        proof {
            assert(v@.take(i as int)[i - 1] == b);
        }
    }
    proof {
        assert(v@.take(i as int) =~= gv);
        lemma_paliers(gv, p@);
    }
    p
}

/// Compter les espèces d'un intervalle de biomes, c'est additionner celles
/// de ses deux moitiés.
pub proof fn loi_compte_additif(lo: int, mid: int, hi: int)
    requires
        lo <= mid <= hi,
    ensures
        nb_especes_dans(lo, hi) == nb_especes_dans(lo, mid) + nb_especes_dans(mid, hi),
{
    reveal(nb_especes_dans);
    lemma_nb_dans_additif(BIOME_DES_ESPECES@, NB_ESPECES as int, lo, mid, hi);
}

proof fn lemma_nb_dans_additif(s: Seq<u8>, n: int, lo: int, mid: int, hi: int)
    requires
        lo <= mid <= hi,
    ensures
        nb_dans(s, n, lo, hi) == nb_dans(s, n, lo, mid) + nb_dans(s, n, mid, hi),
    decreases n,
{
    if n > 0 {
        lemma_nb_dans_additif(s, n - 1, lo, mid, hi);
    }
}

} // verus!
