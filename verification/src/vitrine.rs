//! Pourquoi le garnissage expose les mieux payés : les lots rangés du plus
//! cher au moins cher, chaque salle prend le plus beau spécimen de l'espèce
//! de son lot, et, quand un rang plus haut ne vaut jamais moins, rien en
//! réserve ne vaut plus qu'une pièce exposée.

use vstd::prelude::*;
use crate::reserve::{casier, plus_haut_de_deux, retire};
use crate::catalogue::NB_ESPECES;
use crate::partie::{Expo, NB_SALLES};
use crate::musee::{
    Stock, Lot, valeur, min, lots, place_de, inserer, tri, placer, garnir, rentrer, vider,
    stock_borne, stock_forme, pieces_valides, COMPTE_MAX, lemma_place_borne, lemma_tri,
    lemma_lots_especes, lemma_rentrer_compte,
};

verus! {

/// Des lots rangés du plus cher au moins cher.
pub open spec fn range_decroissant(l: Seq<Lot>) -> bool {
    forall|i: int, j: int| 0 <= i < j < l.len() ==> (#[trigger] l[i]).0 >= (#[trigger] l[j]).0
}

proof fn lemma_place_prefixe(t: Seq<Lot>, v: u64)
    ensures
        forall|i: int| 0 <= i < place_de(t, v) ==> (#[trigger] t[i]).0 >= v,
        place_de(t, v) < t.len() ==> t[place_de(t, v)].0 < v,
    decreases t.len(),
{
    lemma_place_borne(t, v);
    if t.len() > 0 && t[0].0 >= v {
        let q = t.drop_first();
        lemma_place_prefixe(q, v);
        lemma_place_borne(q, v);
        let p = place_de(q, v);
        assert(place_de(t, v) == 1 + p);
        assert forall|i: int| 0 <= i < place_de(t, v) implies (#[trigger] t[i]).0 >= v by {
            if i > 0 {
                assert(t[i] == q[i - 1]);
            }
        }
        if 1 + p < t.len() {
            assert(t[1 + p] == q[p]);
        }
    }
}

/// Le tri range les lots du plus cher au moins cher.
proof fn lemma_tri_range(l: Seq<Lot>)
    ensures
        range_decroissant(tri(l)),
        tri(l).len() == l.len(),
    decreases l.len(),
{
    if l.len() > 0 {
        let d = l.drop_last();
        lemma_tri_range(d);
        let t = tri(d);
        let x = l.last();
        lemma_place_borne(t, x.0);
        lemma_place_prefixe(t, x.0);
        let k = place_de(t, x.0);
        let r = inserer(t, x);
        assert forall|i: int, j: int| 0 <= i < j < r.len() implies (#[trigger] r[i]).0 >= (#[trigger] r[j]).0 by {
            let vi = if i < k { t[i] } else if i == k { x } else { t[i - 1] };
            let vj = if j < k { t[j] } else if j == k { x } else { t[j - 1] };
            assert(r[i] == vi);
            assert(r[j] == vj);
            if i < k && j == k {
            } else if i < k && j > k {
                assert(t[i].0 >= t[j - 1].0);
            } else if i == k && j > k {
                assert(t[k].0 < x.0 || k >= t.len());
                if k < j - 1 {
                    assert(t[k].0 >= t[j - 1].0);
                }
            } else if i > k {
                assert(t[i - 1].0 >= t[j - 1].0);
            }
        }
    }
}

/// Les lots du groupe (espèce `c`, shiny `s`) qui valent au moins `x`.
pub open spec fn compte_lots(l: Seq<Lot>, c: int, s: bool, x: int) -> nat
    decreases l.len(),
{
    if l.len() == 0 {
        0
    } else {
        compte_lots(l.drop_last(), c, s, x)
            + if l.last().1 == c && l.last().2 == s && l.last().0 >= x { 1nat } else { 0nat }
    }
}

proof fn lemma_compte_concat(a: Seq<Lot>, b: Seq<Lot>, c: int, s: bool, x: int)
    ensures
        compte_lots(a + b, c, s, x) == compte_lots(a, c, s, x) + compte_lots(b, c, s, x),
    decreases b.len(),
{
    if b.len() == 0 {
        assert(a + b =~= a);
    } else {
        lemma_compte_concat(a, b.drop_last(), c, s, x);
        assert((a + b).drop_last() =~= a + b.drop_last());
    }
}

/// Le tri ne perd ni ne crée de lot : chaque groupe compte autant de lots
/// au-dessus de chaque seuil.
proof fn lemma_tri_compte(l: Seq<Lot>, c: int, s: bool, x: int)
    ensures
        compte_lots(tri(l), c, s, x) == compte_lots(l, c, s, x),
    decreases l.len(),
{
    if l.len() > 0 {
        let d = l.drop_last();
        lemma_tri_compte(d, c, s, x);
        let t = tri(d);
        let y = l.last();
        lemma_place_borne(t, y.0);
        let k = place_de(t, y.0);
        assert(t =~= t.take(k) + t.skip(k));
        lemma_compte_concat(t.take(k), t.skip(k), c, s, x);
        lemma_compte_concat(t.take(k) + seq![y], t.skip(k), c, s, x);
        lemma_compte_concat(t.take(k), seq![y], c, s, x);
        assert(seq![y].drop_last() =~= Seq::<Lot>::empty());
        assert(inserer(t, y) == t.take(k) + seq![y] + t.skip(k));
        assert(tri(l) == inserer(t, y));
        assert(compte_lots(t, c, s, x) == compte_lots(t.take(k), c, s, x) + compte_lots(t.skip(k), c, s, x));
        assert(seq![y].last() == y);
        assert(compte_lots(Seq::<Lot>::empty(), c, s, x) == 0);
        assert(compte_lots(seq![y], c, s, x) == (if y.1 == c && y.2 == s && y.0 >= x { 1nat } else { 0nat }));
        assert(l.drop_last() == d);
    }
}


/// Jamais plus de lots comptés que de lots.
proof fn lemma_compte_longueur(l: Seq<Lot>, c: int, s: bool, x: int)
    ensures
        compte_lots(l, c, s, x) <= l.len(),
    decreases l.len(),
{
    if l.len() > 0 {
        lemma_compte_longueur(l.drop_last(), c, s, x);
    }
}

/// Un seuil plus haut compte moins de lots.
proof fn lemma_compte_seuil(l: Seq<Lot>, c: int, s: bool, x: int, y: int)
    requires
        y <= x,
    ensures
        compte_lots(l, c, s, x) <= compte_lots(l, c, s, y),
    decreases l.len(),
{
    if l.len() > 0 {
        lemma_compte_seuil(l.drop_last(), c, s, x, y);
    }
}

/// Quand tous les lots valent au moins `x`, le seuil `x` ne compte pas.
proof fn lemma_compte_tous(l: Seq<Lot>, c: int, s: bool, x: int)
    requires
        x >= 0,
        forall|i: int| 0 <= i < l.len() ==> (#[trigger] l[i]).0 >= x,
    ensures
        compte_lots(l, c, s, x) == compte_lots(l, c, s, 0),
    decreases l.len(),
{
    if l.len() > 0 {
        let d = l.drop_last();
        assert forall|i: int| 0 <= i < d.len() implies (#[trigger] d[i]).0 >= x by {
            assert(d[i] == l[i]);
        }
        lemma_compte_tous(d, c, s, x);
        assert(l.last() == l[l.len() - 1]);
    }
}

/// Quand aucun lot ne vaut `x`, il n'y a rien à compter.
proof fn lemma_compte_aucun(l: Seq<Lot>, c: int, s: bool, x: int)
    requires
        forall|i: int| 0 <= i < l.len() ==> (#[trigger] l[i]).0 < x,
    ensures
        compte_lots(l, c, s, x) == 0,
    decreases l.len(),
{
    if l.len() > 0 {
        let d = l.drop_last();
        assert forall|i: int| 0 <= i < d.len() implies (#[trigger] d[i]).0 < x by {
            assert(d[i] == l[i]);
        }
        lemma_compte_aucun(d, c, s, x);
        assert(l.last() == l[l.len() - 1]);
    }
}

/// Un lot de plus en tête.
proof fn lemma_compte_suivant(l: Seq<Lot>, j: int, c: int, s: bool, x: int)
    requires
        0 <= j < l.len(),
    ensures
        compte_lots(l.take(j + 1), c, s, x) == compte_lots(l.take(j), c, s, x)
            + if l[j].1 == c && l[j].2 == s && l[j].0 >= x { 1nat } else { 0nat },
{
    assert(l.take(j + 1).drop_last() =~= l.take(j));
    assert(l.take(j + 1).last() == l[j]);
}

/// Une tête plus longue compte au moins autant.
proof fn lemma_compte_tete(l: Seq<Lot>, a: int, b: int, c: int, s: bool, x: int)
    requires
        0 <= a <= b <= l.len(),
    ensures
        compte_lots(l.take(a), c, s, x) <= compte_lots(l.take(b), c, s, x),
{
    assert(l.take(b) =~= l.take(a) + l.subrange(a, b));
    lemma_compte_concat(l.take(a), l.subrange(a, b), c, s, x);
}


/// Les spécimens du groupe (espèce `c`, shiny `s`) au rang `r`, les deux
/// sexes réunis.
pub open spec fn groupe(st: Stock, c: int, s: bool, r: int) -> int {
    st[c][casier(s, 0)][r] + st[c][casier(s, 1)][r]
}

/// Les spécimens du groupe au rang `r` et au-dessus.
pub open spec fn dessus(st: Stock, c: int, s: bool, r: int) -> int {
    (if r <= 0 { groupe(st, c, s, 0) } else { 0 })
        + (if r <= 1 { groupe(st, c, s, 1) } else { 0 })
        + (if r <= 2 { groupe(st, c, s, 2) } else { 0 })
        + (if r <= 3 { groupe(st, c, s, 3) } else { 0 })
}

pub open spec fn positif(a: int) -> int {
    if a >= 0 { a } else { 0 }
}

/// Ce qui reste au rang `r` du groupe quand on en a ôté `u` spécimens, un
/// à un, toujours au plus haut rang présent.
pub open spec fn reste(st: Stock, c: int, s: bool, u: int, r: int) -> int {
    min(groupe(st, c, s, r), positif(dessus(st, c, s, r) - u))
}

/// Dans chaque groupe, un rang plus haut ne rapporte jamais moins.
pub open spec fn valeurs_croissantes(valeurs: Seq<[u64; 8]>) -> bool {
    forall|c: int, s: bool, r1: int, r2: int| 0 <= c < NB_ESPECES && 0 <= r1 <= r2 < 4
        ==> #[trigger] valeur(valeurs, c, s, r1) <= #[trigger] valeur(valeurs, c, s, r2)
}

/// Le plus bas rang du groupe qui rapporte au moins `x` (4 s'il n'y en a pas).
pub open spec fn seuil(valeurs: Seq<[u64; 8]>, c: int, s: bool, x: int) -> int {
    if valeur(valeurs, c, s, 0) >= x {
        0
    } else if valeur(valeurs, c, s, 1) >= x {
        1
    } else if valeur(valeurs, c, s, 2) >= x {
        2
    } else if valeur(valeurs, c, s, 3) >= x {
        3
    } else {
        4
    }
}

/// Les lots du groupe qui valent au moins `x` : par rang, autant que de
/// spécimens, `n` au plus.
pub open spec fn au_moins(st: Stock, valeurs: Seq<[u64; 8]>, c: int, s: bool, n: int, x: int) -> int {
    (if valeur(valeurs, c, s, 0) >= x { min(groupe(st, c, s, 0), n) } else { 0 })
        + (if valeur(valeurs, c, s, 1) >= x { min(groupe(st, c, s, 1), n) } else { 0 })
        + (if valeur(valeurs, c, s, 2) >= x { min(groupe(st, c, s, 2), n) } else { 0 })
        + (if valeur(valeurs, c, s, 3) >= x { min(groupe(st, c, s, 3), n) } else { 0 })
}

proof fn lemma_seuil(valeurs: Seq<[u64; 8]>, c: int, s: bool, x: int)
    requires
        valeurs_croissantes(valeurs),
        0 <= c < NB_ESPECES,
    ensures
        0 <= seuil(valeurs, c, s, x) <= 4,
        forall|r: int| 0 <= r < 4 ==> (#[trigger] valeur(valeurs, c, s, r) >= x <==> r >= seuil(valeurs, c, s, x)),
{
    assert(valeur(valeurs, c, s, 0) <= valeur(valeurs, c, s, 1));
    assert(valeur(valeurs, c, s, 1) <= valeur(valeurs, c, s, 2));
    assert(valeur(valeurs, c, s, 2) <= valeur(valeurs, c, s, 3));
}

/// Les lots d'un groupe au-dessus d'un seuil sont pris parmi ses spécimens
/// de ces rangs ; ils sont tous là tant qu'aucun rang n'en a plus de `n`.
proof fn lemma_au_moins(st: Stock, valeurs: Seq<[u64; 8]>, c: int, s: bool, n: int, x: int)
    requires
        valeurs_croissantes(valeurs),
        0 <= c < NB_ESPECES,
        n >= 0,
    ensures
        au_moins(st, valeurs, c, s, n, x) <= dessus(st, c, s, seuil(valeurs, c, s, x)),
        au_moins(st, valeurs, c, s, n, x) >= min(dessus(st, c, s, seuil(valeurs, c, s, x)), n),
{
    lemma_seuil(valeurs, c, s, x);
    assert(valeur(valeurs, c, s, 0) >= x <==> 0 >= seuil(valeurs, c, s, x));
    assert(valeur(valeurs, c, s, 1) >= x <==> 1 >= seuil(valeurs, c, s, x));
    assert(valeur(valeurs, c, s, 2) >= x <==> 2 >= seuil(valeurs, c, s, x));
    assert(valeur(valeurs, c, s, 3) >= x <==> 3 >= seuil(valeurs, c, s, x));
}


/// La première case du groupe dans l'ordre du catalogue.
pub open spec fn debut(c: int, s: bool) -> int {
    8 * c + if s { 4int } else { 0int }
}

/// Les lots du groupe valant au moins `x` parmi ceux des `t` premières cases.
pub open spec fn au_moins_avant(st: Stock, valeurs: Seq<[u64; 8]>, c: int, s: bool, n: int, x: int, t: int) -> int {
    (if debut(c, s) < t && valeur(valeurs, c, s, 0) >= x { min(groupe(st, c, s, 0), n) } else { 0 })
        + (if debut(c, s) + 1 < t && valeur(valeurs, c, s, 1) >= x { min(groupe(st, c, s, 1), n) } else { 0 })
        + (if debut(c, s) + 2 < t && valeur(valeurs, c, s, 2) >= x { min(groupe(st, c, s, 2), n) } else { 0 })
        + (if debut(c, s) + 3 < t && valeur(valeurs, c, s, 3) >= x { min(groupe(st, c, s, 3), n) } else { 0 })
}

proof fn lemma_compte_bloc(k: nat, y: Lot, c: int, s: bool, x: int)
    ensures
        compte_lots(Seq::new(k, |j: int| y), c, s, x) == if y.1 == c && y.2 == s && y.0 >= x { k } else { 0 },
    decreases k,
{
    if k > 0 {
        lemma_compte_bloc((k - 1) as nat, y, c, s, x);
        assert(Seq::new(k, |j: int| y).drop_last() =~= Seq::new((k - 1) as nat, |j: int| y));
    }
}

proof fn lemma_case(u: int, c: int, s: bool)
    requires
        0 <= u,
        0 <= c,
    ensures
        (u / 8 == c && (u % 8 >= 4) == s) <==> (debut(c, s) <= u < debut(c, s) + 4),
        debut(c, s) <= u < debut(c, s) + 4 ==> u % 4 == u - debut(c, s),
{
}

/// Compter les lots d'un groupe dans les `t` premières cases.
proof fn lemma_lots_groupe(st: Stock, valeurs: Seq<[u64; 8]>, n: int, t: int, c: int, s: bool, x: int)
    requires
        0 <= t <= 8 * NB_ESPECES,
        0 <= c < NB_ESPECES,
        n >= 0,
    ensures
        compte_lots(lots(st, valeurs, n, t), c, s, x) == au_moins_avant(st, valeurs, c, s, n, x, t),
    decreases t,
{
    if t > 0 {
        lemma_lots_groupe(st, valeurs, n, t - 1, c, s, x);
        let u = t - 1;
        let ci = u / 8;
        let shiny = u % 8 >= 4;
        let r = u % 4;
        let dispo = st[ci][casier(shiny, 0)][r] + st[ci][casier(shiny, 1)][r];
        let v = valeur(valeurs, ci, shiny, r);
        let y: Lot = (v, ci as usize, shiny);
        let bloc = Seq::new(min(dispo, n) as nat, |j: int| (v, ci as usize, shiny));
        assert(bloc =~= Seq::new(min(dispo, n) as nat, |j: int| y));
        lemma_compte_bloc(min(dispo, n) as nat, y, c, s, x);
        lemma_compte_concat(lots(st, valeurs, n, t - 1), bloc, c, s, x);
        lemma_case(u, c, s);
        assert(u / 8 < NB_ESPECES);
        assert((ci as usize) as int == ci);
    }
}

/// Les lots du garnissage qui valent au moins `x`, groupe par groupe.
proof fn lemma_lots_au_moins(st: Stock, valeurs: Seq<[u64; 8]>, n: int, c: int, s: bool, x: int)
    requires
        0 <= c < NB_ESPECES,
        n >= 0,
    ensures
        compte_lots(lots(st, valeurs, n, 8 * NB_ESPECES as int), c, s, x) == au_moins(st, valeurs, c, s, n, x),
{
    lemma_lots_groupe(st, valeurs, n, 8 * NB_ESPECES as int, c, s, x);
}


/// Les lots du garnissage, rangés.
pub open spec fn rangement(st: Stock, valeurs: Seq<[u64; 8]>, n: int) -> Seq<Lot> {
    tri(lots(st, valeurs, n, 8 * NB_ESPECES as int))
}

proof fn lemma_rangement(st: Stock, valeurs: Seq<[u64; 8]>, n: int)
    ensures
        range_decroissant(rangement(st, valeurs, n)),
        forall|i: int| 0 <= i < rangement(st, valeurs, n).len() ==> (#[trigger] rangement(st, valeurs, n)[i]).1 < NB_ESPECES,
{
    let l0 = lots(st, valeurs, n, 8 * NB_ESPECES as int);
    lemma_lots_especes(st, valeurs, n, 8 * NB_ESPECES as int);
    lemma_tri(l0);
    lemma_tri_range(l0);
}

/// Quand vient son tour, un lot trouve encore dans son groupe plus de lots
/// au-dessus de sa valeur qu'il n'en est déjà passé.
proof fn lemma_assez(st: Stock, valeurs: Seq<[u64; 8]>, n: int, j: int)
    requires
        n >= 0,
        0 <= j < rangement(st, valeurs, n).len(),
    ensures
        ({
            let l = rangement(st, valeurs, n);
            compte_lots(l.take(j), l[j].1 as int, l[j].2, 0) + 1 <= au_moins(st, valeurs, l[j].1 as int, l[j].2, n, l[j].0 as int)
        }),
{
    let l0 = lots(st, valeurs, n, 8 * NB_ESPECES as int);
    let l = rangement(st, valeurs, n);
    lemma_rangement(st, valeurs, n);
    let (v, c, sh) = l[j];
    assert(c < NB_ESPECES);
    assert forall|i: int| 0 <= i < l.take(j).len() implies (#[trigger] l.take(j)[i]).0 >= v by {
        assert(l.take(j)[i] == l[i]);
        assert(l[i].0 >= l[j].0);
    }
    lemma_compte_tous(l.take(j), c as int, sh, v as int);
    lemma_compte_suivant(l, j, c as int, sh, v as int);
    lemma_compte_tete(l, j + 1, l.len() as int, c as int, sh, v as int);
    assert(l.take(l.len() as int) =~= l);
    lemma_tri_compte(l0, c as int, sh, v as int);
    lemma_lots_au_moins(st, valeurs, n, c as int, sh, v as int);
}

/// Tant qu'il reste plus de `u` spécimens aux rangs `q` et au-dessus, il
/// en reste après en avoir ôté `u` par le haut.
proof fn lemma_reste_haut(st: Stock, c: int, s: bool, u: int, q: int)
    requires
        0 <= u,
        dessus(st, c, s, q) > u,
    ensures
        exists|r: int| q <= r < 4 && 0 <= r && #[trigger] reste(st, c, s, u, r) > 0,
{
    if q <= 0 && reste(st, c, s, u, 0) > 0 {
        assert(reste(st, c, s, u, 0) > 0);
    } else if q <= 1 && reste(st, c, s, u, 1) > 0 {
        assert(reste(st, c, s, u, 1) > 0);
    } else if q <= 2 && reste(st, c, s, u, 2) > 0 {
        assert(reste(st, c, s, u, 2) > 0);
    } else {
        assert(reste(st, c, s, u, 3) > 0);
    }
}

/// Ôter un spécimen de plus, au plus haut rang présent.
proof fn lemma_reste_pas(st: Stock, c: int, s: bool, u: int, h: int)
    requires
        0 <= u,
        0 <= h < 4,
        reste(st, c, s, u, h) > 0,
        forall|r: int| h < r < 4 ==> #[trigger] reste(st, c, s, u, r) == 0,
    ensures
        forall|r: int| 0 <= r < 4 ==> #[trigger] reste(st, c, s, u + 1, r)
            == reste(st, c, s, u, r) - if r == h { 1int } else { 0int },
{
    assert forall|r: int| 0 <= r < 4 implies #[trigger] reste(st, c, s, u + 1, r)
        == reste(st, c, s, u, r) - if r == h { 1int } else { 0int } by {
        assert(reste(st, c, s, u, 3) == 0 || h == 3);
        assert(reste(st, c, s, u, 2) == 0 || h >= 2);
        assert(reste(st, c, s, u, 1) == 0 || h >= 1);
    }
}


/// Le plus beau spécimen d'un groupe dont on a ôté `u` spécimens par le
/// haut : il est au-dessus de tout rang `q` sous lequel il en restait plus
/// de `u`, et l'ôter revient à en ôter `u + 1`.
proof fn lemma_choix(sp: Stock, st: Stock, c: int, s: bool, u: int, q: int)
    requires
        0 <= u,
        0 <= q,
        dessus(st, c, s, q) > u,
        forall|r: int| 0 <= r < 4 ==> #[trigger] groupe(sp, c, s, r) == reste(st, c, s, u, r),
    ensures
        ({
            let a = sp[c][casier(s, 0)];
            let b = sp[c][casier(s, 1)];
            &&& plus_haut_de_deux(a, b) matches Some(h) && q <= h < 4 && a[h] + b[h] > 0
            &&& forall|r: int| 0 <= r < 4 ==> #[trigger] reste(st, c, s, u + 1, r)
                == reste(st, c, s, u, r) - if r == plus_haut_de_deux(a, b)->0 { 1int } else { 0int }
        }),
{
    lemma_reste_haut(st, c, s, u, q);
    let r0 = choose|r: int| q <= r < 4 && 0 <= r && #[trigger] reste(st, c, s, u, r) > 0;
    let a = sp[c][casier(s, 0)];
    let b = sp[c][casier(s, 1)];
    assert(groupe(sp, c, s, r0) > 0);
    assert(groupe(sp, c, s, 0) == a[0] + b[0]);
    assert(groupe(sp, c, s, 1) == a[1] + b[1]);
    assert(groupe(sp, c, s, 2) == a[2] + b[2]);
    assert(groupe(sp, c, s, 3) == a[3] + b[3]);
    let h = plus_haut_de_deux(a, b)->0;
    assert forall|r: int| h < r < 4 implies #[trigger] reste(st, c, s, u, r) == 0 by {
        assert(groupe(sp, c, s, r) == 0);
    }
    assert(groupe(sp, c, s, h) > 0);
    lemma_reste_pas(st, c, s, u, h);
}

/// Ôter un spécimen d'un casier ôte un spécimen à son groupe, et à lui seul.
proof fn lemma_retire_groupe(sp: Stock, c0: int, s0: bool, sx: u8, h: int)
    requires
        stock_forme(sp),
        0 <= c0 < NB_ESPECES,
        0 <= h < 4,
        sx == 0 || sx == 1,
        sp[c0][casier(s0, sx)][h] > 0,
    ensures
        ({
            let ns = sp.update(c0, retire(sp[c0], casier(s0, sx), h));
            &&& stock_forme(ns)
            &&& forall|c: int, s: bool, r: int| 0 <= c < NB_ESPECES && 0 <= r < 4
                ==> #[trigger] groupe(ns, c, s, r) == groupe(sp, c, s, r) - if c == c0 && s == s0 && r == h { 1int } else { 0int }
        }),
{
    let ns = sp.update(c0, retire(sp[c0], casier(s0, sx), h));
    assert forall|c: int, s: bool, r: int| 0 <= c < NB_ESPECES && 0 <= r < 4
        implies #[trigger] groupe(ns, c, s, r) == groupe(sp, c, s, r) - if c == c0 && s == s0 && r == h { 1int } else { 0int } by {
        if c == c0 {
            assert(ns[c] == retire(sp[c], casier(s0, sx), h));
        } else {
            assert(ns[c] == sp[c]);
        }
    }
    assert forall|c: int| 0 <= c < NB_ESPECES implies #[trigger] ns[c].len() == 4 by {}
    assert forall|c: int, k: int| 0 <= c < NB_ESPECES && 0 <= k < 4 implies #[trigger] ns[c][k].len() == 4 by {
        if c == c0 {
            assert(ns[c] == retire(sp[c], casier(s0, sx), h));
        }
    }
}

/// Ce que disent les `j` premiers lots placés.
pub open spec fn glouton(st: Stock, m: Seq<Option<Expo>>, valeurs: Seq<[u64; 8]>, n: int, j: int) -> bool {
    let l = rangement(st, valeurs, n);
    let (s2, m2, pose) = placer(st, m, l, j);
    &&& pose == j
    &&& stock_forme(s2)
    &&& m2.len() == m.len()
    &&& forall|i: int| j <= i < m.len() ==> #[trigger] m2[i] == m[i]
    &&& forall|i: int| 0 <= i < j ==> (#[trigger] m2[i] matches Some(e) && e.ci == l[i].1 && e.shiny == l[i].2
        && e.rank < 4 && valeur(valeurs, e.ci as int, e.shiny, e.rank as int) >= l[i].0)
    &&& forall|c: int, s: bool, r: int| 0 <= c < NB_ESPECES && 0 <= r < 4
        ==> #[trigger] groupe(s2, c, s, r) == reste(st, c, s, compte_lots(l.take(j), c, s, 0) as int, r)
}

proof fn lemma_glouton_pas(st: Stock, m: Seq<Option<Expo>>, valeurs: Seq<[u64; 8]>, n: int, j: int)
    requires
        valeurs.len() == NB_ESPECES,
        valeurs_croissantes(valeurs),
        0 < j <= n <= m.len(),
        j <= rangement(st, valeurs, n).len(),
        glouton(st, m, valeurs, n, j - 1),
    ensures
        glouton(st, m, valeurs, n, j),
{
    let l = rangement(st, valeurs, n);
    lemma_rangement(st, valeurs, n);
    let (sp, mm, pose) = placer(st, m, l, j - 1);
    let (v, c0, s0) = l[j - 1];
    let c0i = c0 as int;
    assert(c0 < NB_ESPECES);
    let t = compte_lots(l.take(j - 1), c0i, s0, 0) as int;
    lemma_assez(st, valeurs, n, j - 1);
    lemma_au_moins(st, valeurs, c0i, s0, n, v as int);
    lemma_seuil(valeurs, c0i, s0, v as int);
    let q = seuil(valeurs, c0i, s0, v as int);
    assert forall|r: int| 0 <= r < 4 implies #[trigger] groupe(sp, c0i, s0, r) == reste(st, c0i, s0, t, r) by {}
    lemma_choix(sp, st, c0i, s0, t, q);
    let a = sp[c0i][casier(s0, 0)];
    let b = sp[c0i][casier(s0, 1)];
    let h = plus_haut_de_deux(a, b)->0;
    assert(valeur(valeurs, c0i, s0, h) >= v);
    let sx: u8 = if a[h] >= b[h] { 0 } else { 1 };
    lemma_retire_groupe(sp, c0i, s0, sx, h);
    let e = Expo { ci: c0, rank: h as usize, shiny: s0, sex: sx };
    let ns = sp.update(c0i, retire(sp[c0i], casier(s0, sx), h));
    let nm = mm.update(pose, Some(e));
    assert(placer(st, m, l, j) == (ns, nm, pose + 1));
    assert forall|c: int, s: bool, r: int| 0 <= c < NB_ESPECES && 0 <= r < 4
        implies #[trigger] groupe(ns, c, s, r) == reste(st, c, s, compte_lots(l.take(j), c, s, 0) as int, r) by {
        lemma_compte_suivant(l, j - 1, c, s, 0);
        assert(groupe(sp, c, s, r) == reste(st, c, s, compte_lots(l.take(j - 1), c, s, 0) as int, r));
    }
    assert forall|i: int| 0 <= i < j implies (#[trigger] nm[i] matches Some(x) && x.ci == l[i].1 && x.shiny == l[i].2
        && x.rank < 4 && valeur(valeurs, x.ci as int, x.shiny, x.rank as int) >= l[i].0) by {
        if i < j - 1 {
            assert(nm[i] == mm[i]);
        }
    }
    assert forall|i: int| j <= i < m.len() implies #[trigger] nm[i] == m[i] by {
        assert(nm[i] == mm[i]);
    }
}

/// Les `j` premiers lots placés : chacun garnit sa salle d'un spécimen de
/// son groupe qui vaut au moins le lot, et chaque groupe a perdu ses
/// spécimens par le haut, un par lot passé.
proof fn lemma_glouton(st: Stock, m: Seq<Option<Expo>>, valeurs: Seq<[u64; 8]>, n: int, j: int)
    requires
        stock_forme(st),
        valeurs.len() == NB_ESPECES,
        valeurs_croissantes(valeurs),
        0 <= j <= n <= m.len(),
        j <= rangement(st, valeurs, n).len(),
    ensures
        glouton(st, m, valeurs, n, j),
    decreases j,
{
    if j == 0 {
        let l = rangement(st, valeurs, n);
        assert forall|c: int, s: bool, r: int| 0 <= c < NB_ESPECES && 0 <= r < 4
            implies #[trigger] groupe(st, c, s, r) == reste(st, c, s, compte_lots(l.take(0), c, s, 0) as int, r) by {
            assert(l.take(0).len() == 0);
        }
    } else {
        lemma_glouton(st, m, valeurs, n, j - 1);
        lemma_glouton_pas(st, m, valeurs, n, j);
    }
}


/// Quand tous les lots passent, chaque groupe a perdu tous ses spécimens.
proof fn lemma_tout_expose(st: Stock, valeurs: Seq<[u64; 8]>, n: int, c: int, s: bool, r: int)
    requires
        valeurs_croissantes(valeurs),
        0 <= c < NB_ESPECES,
        0 <= r < 4,
        rangement(st, valeurs, n).len() < n,
    ensures
        ({
            let l = rangement(st, valeurs, n);
            reste(st, c, s, compte_lots(l.take(l.len() as int), c, s, 0) as int, r) == 0
        }),
{
    let l = rangement(st, valeurs, n);
    let l0 = lots(st, valeurs, n, 8 * NB_ESPECES as int);
    assert(l.take(l.len() as int) =~= l);
    lemma_tri_compte(l0, c, s, 0);
    lemma_lots_au_moins(st, valeurs, n, c, s, 0);
    lemma_compte_longueur(l, c, s, 0);
    lemma_au_moins(st, valeurs, c, s, n, 0);
    assert(seuil(valeurs, c, s, 0) == 0);
}

/// Quand les salles sont toutes garnies, un rang qui rapporte plus que le
/// dernier lot placé a perdu tous ses spécimens.
proof fn lemma_rien_de_mieux(st: Stock, valeurs: Seq<[u64; 8]>, n: int, c: int, s: bool, r: int)
    requires
        valeurs_croissantes(valeurs),
        0 <= c < NB_ESPECES,
        0 <= r < 4,
        1 <= n <= rangement(st, valeurs, n).len(),
        valeur(valeurs, c, s, r) > rangement(st, valeurs, n)[n - 1].0,
    ensures
        ({
            let l = rangement(st, valeurs, n);
            reste(st, c, s, compte_lots(l.take(n), c, s, 0) as int, r) == 0
        }),
{
    let l = rangement(st, valeurs, n);
    let l0 = lots(st, valeurs, n, 8 * NB_ESPECES as int);
    let x = valeur(valeurs, c, s, r) as int;
    lemma_rangement(st, valeurs, n);
    assert forall|k: int| 0 <= k < l.skip(n - 1).len() implies (#[trigger] l.skip(n - 1)[k]).0 < x by {
        assert(l.skip(n - 1)[k] == l[n - 1 + k]);
        assert(l[n - 1].0 >= l[n - 1 + k].0);
    }
    lemma_compte_aucun(l.skip(n - 1), c, s, x);
    assert(l =~= l.take(n - 1) + l.skip(n - 1));
    lemma_compte_concat(l.take(n - 1), l.skip(n - 1), c, s, x);
    lemma_compte_longueur(l.take(n - 1), c, s, x);
    lemma_compte_seuil(l.take(n - 1), c, s, x, 0);
    lemma_compte_tete(l, n - 1, n, c, s, 0);
    lemma_tri_compte(l0, c, s, x);
    lemma_lots_au_moins(st, valeurs, n, c, s, x);
    lemma_au_moins(st, valeurs, c, s, n, x);
    lemma_seuil(valeurs, c, s, x);
}

/// Le garnissage expose les mieux payés : quand, dans chaque groupe, un
/// rang plus haut ne rapporte jamais moins, aucun spécimen resté en réserve
/// ne rapporte plus qu'une pièce exposée, et une salle ne reste vide que si
/// la réserve l'est aussi.
pub proof fn loi_musee_expose_les_mieux_payes(st: Stock, mus: Seq<Option<Expo>>, valeurs: Seq<[u64; 8]>, n: int)
    requires
        0 <= n <= mus.len(),
        n <= NB_SALLES,
        stock_borne(st, COMPTE_MAX as int),
        pieces_valides(mus, n),
        valeurs.len() == NB_ESPECES,
        valeurs_croissantes(valeurs),
    ensures
        ({
            let (st2, mus2) = garnir(st, mus, valeurs, n);
            &&& forall|i: int, c: int, s: bool, r: int|
                0 <= i < n && 0 <= c < NB_ESPECES && 0 <= r < 4 && #[trigger] groupe(st2, c, s, r) > 0
                ==> (#[trigger] mus2[i] matches Some(e)
                    ==> valeur(valeurs, c, s, r) <= valeur(valeurs, e.ci as int, e.shiny, e.rank as int))
            &&& forall|i: int, c: int, s: bool, r: int|
                0 <= i < n && 0 <= c < NB_ESPECES && 0 <= r < 4 && (#[trigger] mus2[i]) is None
                ==> #[trigger] groupe(st2, c, s, r) == 0
        }),
{
    let st1 = rentrer(st, mus, n);
    lemma_rentrer_compte(st, mus, n, COMPTE_MAX as int);
    let l = rangement(st1, valeurs, n);
    lemma_rangement(st1, valeurs, n);
    let jj = min(n, l.len() as int);
    let m1 = vider(mus, n);
    lemma_glouton(st1, m1, valeurs, n, jj);
    let (st2, mus2, pose) = placer(st1, m1, l, jj);
    assert(garnir(st, mus, valeurs, n) == (st2, mus2));
    if jj < n {
        assert forall|c: int, s: bool, r: int| 0 <= c < NB_ESPECES && 0 <= r < 4
            implies #[trigger] groupe(st2, c, s, r) == 0 by {
            lemma_tout_expose(st1, valeurs, n, c, s, r);
        }
    } else {
        assert forall|i: int, c: int, s: bool, r: int|
            0 <= i < n && 0 <= c < NB_ESPECES && 0 <= r < 4 && #[trigger] groupe(st2, c, s, r) > 0
            implies (#[trigger] mus2[i] matches Some(e)
                ==> valeur(valeurs, c, s, r) <= valeur(valeurs, e.ci as int, e.shiny, e.rank as int)) by {
            assert(l[i].0 >= l[n - 1].0);
            if valeur(valeurs, c, s, r) > l[n - 1].0 {
                lemma_rien_de_mieux(st1, valeurs, n, c, s, r);
            }
        }
    }
}

} // verus!
