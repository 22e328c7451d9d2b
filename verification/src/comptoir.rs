//! Les demandes du jour : ce que les collectionneurs proposent au troc et
//! ce qu'affiche le comptoir des contrats. Le hasard vient d'un générateur
//! semé par la fenêtre de temps, si bien que tous les joueurs voient les
//! mêmes demandes ; le reste est la règle du jeu.

use vstd::prelude::*;
use crate::catalogue::{BIOME_DES_ESPECES, RARETE_DES_ESPECES, NB_ESPECES, WILDB, CURIO_B};
use crate::partie::Partie;
use crate::horloge::{fair_day, splitmix, spec_splitmix, JOUR_REEL_MS};
use crate::hasard::{graine, tirer, tirage};

verus! {

/// Les indices `i < k` qui vérifient `f`, dans l'ordre.
pub open spec fn liste(k: int, f: spec_fn(int) -> bool) -> Seq<usize>
    decreases k,
{
    if k <= 0 {
        Seq::empty()
    } else {
        liste(k - 1, f) + if f(k - 1) { seq![(k - 1) as usize] } else { Seq::empty() }
    }
}

proof fn lemma_liste(k: int, f: spec_fn(int) -> bool)
    requires
        0 <= k <= NB_ESPECES,
    ensures
        liste(k, f).len() <= k,
        forall|j: int| 0 <= j < liste(k, f).len() ==> 0 <= #[trigger] liste(k, f)[j] < k && f(liste(k, f)[j] as int),
        forall|i: int| 0 <= i < k && #[trigger] f(i) ==> liste(k, f).contains(i as usize),
        forall|j1: int, j2: int| 0 <= j1 < j2 < liste(k, f).len() ==> #[trigger] liste(k, f)[j1] < #[trigger] liste(k, f)[j2],
    decreases k,
{
    if k > 0 {
        lemma_liste(k - 1, f);
        let a = liste(k - 1, f);
        let l = liste(k, f);
        assert forall|j1: int, j2: int| 0 <= j1 < j2 < l.len() implies #[trigger] l[j1] < #[trigger] l[j2] by {
            assert(l[j1] == a[j1]);
            if j2 < a.len() {
                assert(l[j2] == a[j2]);
            } else {
                assert(l[j2] == (k - 1) as usize);
            }
        }
        assert forall|j: int| 0 <= j < l.len() implies 0 <= #[trigger] l[j] < k && f(l[j] as int) by {
            if j < a.len() {
                assert(l[j] == a[j]);
            } else {
                assert(l[j] == (k - 1) as usize);
            }
        }
        assert forall|i: int| 0 <= i < k && #[trigger] f(i) implies l.contains(i as usize) by {
            if i < k - 1 {
                let j = choose|j: int| 0 <= j < a.len() && a[j] == i as usize;
                assert(l[j] == a[j]);
            } else {
                assert(l[a.len() as int] == (k - 1) as usize);
            }
        }
    }
}

/// Une espèce sauvage déjà prise dont le biome est ouvert : les
/// collectionneurs peuvent la demander.
pub open spec fn demandable(p: Partie, i: int) -> bool {
    BIOME_DES_ESPECES@[i] < WILDB && p.dex@[i].n > 0 && p.biomes@[BIOME_DES_ESPECES@[i] as int] is Some
}

/// Une curiosité : ce que les collectionneurs donnent en échange.
pub open spec fn curiosite(i: int) -> bool {
    BIOME_DES_ESPECES@[i] == CURIO_B
}

/// Les espèces que les collectionneurs peuvent demander.
pub open spec fn demandables(p: Partie) -> Seq<usize> {
    liste(NB_ESPECES as int, |i: int| demandable(p, i))
}

/// Les curiosités, dans l'ordre du catalogue.
pub open spec fn curiosites() -> Seq<usize> {
    liste(NB_ESPECES as int, |i: int| curiosite(i))
}

fn liste_demandables(p: &Partie) -> (v: Vec<usize>)
    ensures
        v@ == demandables(*p),
{
    let ghost f = |i: int| demandable(*p, i);
    let mut v: Vec<usize> = Vec::new();
    let mut i: usize = 0;
    while i < NB_ESPECES
        invariant
            i <= NB_ESPECES,
            f == (|i: int| demandable(*p, i)),
            v@ == liste(i as int, f),
        decreases NB_ESPECES - i,
    {
        let b = BIOME_DES_ESPECES[i];
        if b < WILDB && p.dex[i].n > 0 && p.biomes[b as usize].is_some() {
            v.push(i);
        }
        proof {
            assert(f(i as int) == (b < WILDB && p.dex@[i as int].n > 0 && p.biomes@[b as int] is Some));
            assert(v@ =~= liste(i + 1, f));
        }
        i = i + 1;
    }
    v
}

fn liste_curiosites() -> (v: Vec<usize>)
    ensures
        v@ == curiosites(),
{
    let ghost f = |i: int| curiosite(i);
    let mut v: Vec<usize> = Vec::new();
    let mut i: usize = 0;
    while i < NB_ESPECES
        invariant
            i <= NB_ESPECES,
            f == (|i: int| curiosite(i)),
            v@ == liste(i as int, f),
        decreases NB_ESPECES - i,
    {
        if BIOME_DES_ESPECES[i] == CURIO_B {
            v.push(i);
        }
        proof {
            assert(v@ =~= liste(i + 1, f));
        }
        i = i + 1;
    }
    v
}


/// Les espèces de `cand` d'un calibre voisin de la curiosité `give` : pas
/// plus d'un cran de rareté en dessous.
pub open spec fn proches(cand: Seq<usize>, give: usize) -> Seq<usize>
    decreases cand.len(),
{
    if cand.len() == 0 {
        Seq::empty()
    } else {
        proches(cand.drop_last(), give) + if RARETE_DES_ESPECES@[cand.last() as int] + 1 >= RARETE_DES_ESPECES@[give as int] {
            seq![cand.last()]
        } else {
            Seq::empty()
        }
    }
}

/// Où les collectionneurs puisent l'espèce demandée contre `give` : les
/// espèces proches, ou toutes s'il n'y en a pas.
pub open spec fn vivier_de(cand: Seq<usize>, give: usize) -> Seq<usize> {
    if proches(cand, give).len() == 0 { cand } else { proches(cand, give) }
}

/// Le prix d'une curiosité par rareté, en points de prise.
pub const PTS_TROC: [u64; 5] = [0, 120, 320, 900, 2600];

/// Ce que vaut en points de prise une espèce de chaque rareté.
pub const VAL_TROC: [u64; 5] = [3, 9, 30, 150, 900];

/// Combien de spécimens d'une espèce de rareté `rw` paient une curiosité de
/// rareté `rg` : le prix arrondi au-dessus, entre 2 et 40.
pub open spec fn quantite_troc(rg: int, rw: int) -> int {
    let q = (PTS_TROC@[rg] + VAL_TROC@[rw] - 1) / (VAL_TROC@[rw] as int);
    if q < 2 { 2 } else if q > 40 { 40 } else { q }
}

proof fn lemma_proches(cand: Seq<usize>, give: usize)
    ensures
        proches(cand, give).len() <= cand.len(),
        forall|j: int| 0 <= j < proches(cand, give).len() ==> cand.contains(#[trigger] proches(cand, give)[j])
            && RARETE_DES_ESPECES@[proches(cand, give)[j] as int] + 1 >= RARETE_DES_ESPECES@[give as int],
    decreases cand.len(),
{
    if cand.len() > 0 {
        let d = cand.drop_last();
        lemma_proches(d, give);
        let a = proches(d, give);
        let l = proches(cand, give);
        assert forall|j: int| 0 <= j < l.len() implies cand.contains(#[trigger] l[j])
            && RARETE_DES_ESPECES@[l[j] as int] + 1 >= RARETE_DES_ESPECES@[give as int] by {
            if j < a.len() {
                assert(l[j] == a[j]);
                let k = choose|k: int| 0 <= k < d.len() && d[k] == a[j];
                assert(cand[k] == d[k]);
            } else {
                assert(l[j] == cand.last());
                assert(cand[cand.len() - 1] == cand.last());
            }
        }
    }
}

/// Le vivier où puiser l'espèce demandée contre la curiosité `give`.
pub fn vivier(cand: &Vec<usize>, give: usize) -> (v: Vec<usize>)
    requires
        give < NB_ESPECES,
        forall|j: int| 0 <= j < cand@.len() ==> #[trigger] cand@[j] < NB_ESPECES,
    ensures
        v@ == vivier_de(cand@, give),
{
    let rg = RARETE_DES_ESPECES[give];
    let mut v: Vec<usize> = Vec::new();
    let mut i: usize = 0;
    while i < cand.len()
        invariant
            i <= cand@.len(),
            give < NB_ESPECES,
            rg == RARETE_DES_ESPECES@[give as int],
            forall|j: int| 0 <= j < cand@.len() ==> #[trigger] cand@[j] < NB_ESPECES,
            v@ == proches(cand@.take(i as int), give),
        decreases cand@.len() - i,
    {
        let c = cand[i];
        if RARETE_DES_ESPECES[c] as u16 + 1 >= rg as u16 {
            v.push(c);
        }
        proof {
            let t = cand@.take(i + 1);
            assert(t.drop_last() =~= cand@.take(i as int));
            assert(t.last() == c);
            assert(v@ =~= proches(t, give));
        }
        i = i + 1;
    }
    proof {
        assert(cand@.take(cand@.len() as int) =~= cand@);
    }
    if v.len() == 0 {
        cand.clone()
    } else {
        v
    }
}

/// Combien de spécimens de `want` paient la curiosité `give`.
pub fn quantite_de_troc(give: usize, want: usize) -> (q: u64)
    requires
        give < NB_ESPECES,
        want < NB_ESPECES,
    ensures
        q == quantite_troc(RARETE_DES_ESPECES@[give as int] as int, RARETE_DES_ESPECES@[want as int] as int),
        2 <= q <= 40,
{
    let rg = RARETE_DES_ESPECES[give] as usize;
    let rw = RARETE_DES_ESPECES[want] as usize;
    let q = (PTS_TROC[rg] + VAL_TROC[rw] - 1) / VAL_TROC[rw];
    if q < 2 {
        2
    } else if q > 40 {
        40
    } else {
        q
    }
}

/// Une demande déjà affichée porte sur `want` ou offre `give`.
pub open spec fn deja_affichee(out: Seq<(usize, u64, usize)>, want: usize, give: usize) -> bool {
    exists|k: int| 0 <= k < out.len() && (#[trigger] out[k].0 == want || out[k].2 == give)
}

/// La demande tirée : `want` contre `give`, au prix du troc, sauf si une
/// demande affichée porte déjà sur l'une ou l'autre espèce.
pub fn demande_tiree(out: &Vec<(usize, u64, usize)>, want: usize, give: usize) -> (d: Option<(usize, u64, usize)>)
    requires
        give < NB_ESPECES,
        want < NB_ESPECES,
    ensures
        d == if deja_affichee(out@, want, give) {
            None
        } else {
            Some((want, quantite_troc(RARETE_DES_ESPECES@[give as int] as int, RARETE_DES_ESPECES@[want as int] as int) as u64, give))
        },
{
    let mut k: usize = 0;
    while k < out.len()
        invariant
            k <= out@.len(),
            forall|j: int| 0 <= j < k ==> !(#[trigger] out@[j].0 == want || out@[j].2 == give),
        decreases out@.len() - k,
    {
        if out[k].0 == want || out[k].2 == give {
            return None;
        }
        k = k + 1;
    }
    Some((want, quantite_de_troc(give, want), give))
}


/// Une demande de troc possible pour la partie `p` : une espèce demandable,
/// puisée au vivier de la curiosité offerte, au prix du troc.
pub open spec fn demande_valide(p: Partie, d: (usize, u64, usize)) -> bool {
    &&& d.0 < NB_ESPECES && d.2 < NB_ESPECES
    &&& curiosite(d.2 as int)
    &&& demandable(p, d.0 as int)
    &&& vivier_de(demandables(p), d.2).contains(d.0)
    &&& d.1 == quantite_troc(RARETE_DES_ESPECES@[d.2 as int] as int, RARETE_DES_ESPECES@[d.0 as int] as int)
}

/// Deux demandes ne portent jamais sur la même espèce ni n'offrent la même
/// curiosité.
pub open spec fn sans_doublon(out: Seq<(usize, u64, usize)>) -> bool {
    forall|k1: int, k2: int| 0 <= k1 < k2 < out.len() ==> (#[trigger] out[k1]).0 != (#[trigger] out[k2]).0 && out[k1].2 != out[k2].2
}

/// La graine du troc du jour `w`.
pub open spec fn graine_du_troc(w: u64) -> u64 {
    spec_splitmix(w ^ 0x7B0C_7B0C)
}

/// Le plafond des demandes du jour : six un jour de foire, trois sinon.
pub open spec fn plafond_troc(now: u64) -> int {
    if (now / JOUR_REEL_MS) % 4 == 0 { 6 } else { 3 }
}

/// Les demandes après `k` essais sur le générateur de graine `gr` : tant
/// qu'il en manque pour atteindre `n`, un essai tire une curiosité, puis une
/// espèce de son vivier parmi `cand`, et affiche la demande si aucune ne
/// porte déjà sur l'une ou l'autre. Donne les demandes et les appels reçus
/// par le générateur.
pub open spec fn troc_tires(gr: u64, cand: Seq<usize>, curios: Seq<usize>, n: int, k: int)
    -> (Seq<(usize, u64, usize)>, Seq<(u64, u64)>)
    decreases k,
{
    if k <= 0 {
        (Seq::empty(), Seq::empty())
    } else {
        let (out, a) = troc_tires(gr, cand, curios, n, k - 1);
        if out.len() >= n {
            (out, a)
        } else {
            let (i1, a1) = tire(gr, a, 0, (curios.len() - 1) as u64);
            let give = curios[i1 as int];
            let pool = vivier_de(cand, give);
            let (i2, a2) = tire(gr, a1, 0, (pool.len() - 1) as u64);
            let want = pool[i2 as int];
            if deja_affichee(out, want, give) {
                (out, a2)
            } else {
                (out.push((want, quantite_troc(RARETE_DES_ESPECES@[give as int] as int,
                    RARETE_DES_ESPECES@[want as int] as int) as u64, give)), a2)
            }
        }
    }
}

/// Les demandes de troc du jour `w` pour la partie `p` : aucune tant que
/// moins de deux espèces sont demandables, sinon celles de quatre-vingts
/// essais au plus.
pub open spec fn troc_du_jour(p: Partie, w: u64, now: u64) -> Seq<(usize, u64, usize)> {
    if demandables(p).len() < 2 {
        Seq::empty()
    } else {
        troc_tires(graine_du_troc(w), demandables(p), curiosites(), plafond_troc(now), 80).0
    }
}

/// Une fois le plafond atteint, les essais suivants ne changent plus rien.
proof fn lemma_troc_fige(gr: u64, cand: Seq<usize>, curios: Seq<usize>, n: int, k: int, k2: int)
    requires
        0 <= k <= k2,
        troc_tires(gr, cand, curios, n, k).0.len() >= n,
    ensures
        troc_tires(gr, cand, curios, n, k2) == troc_tires(gr, cand, curios, n, k),
    decreases k2,
{
    if k2 > k {
        lemma_troc_fige(gr, cand, curios, n, k, k2 - 1);
    }
}

impl Partie {
    /// Les demandes de troc du jour `w`, tirées sur le générateur de la
    /// graine du jour : trois (six un jour de foire) au plus, en
    /// quatre-vingts essais au plus, chacune une espèce déjà prise contre une
    /// curiosité, au prix du troc, sans doublon. Aucune tant que moins de
    /// deux espèces sont demandables ; au moins une sinon, car le premier
    /// essai ne peut rien doubler. Le même jour donne les mêmes demandes.
    pub fn gen_trades(&self, w: u64, now: u64) -> (out: Vec<(usize, u64, usize)>)
        ensures
            out@ == troc_du_jour(*self, w, now),
            demandables(*self).len() < 2 <==> out@.len() == 0,
            out@.len() <= if (now / JOUR_REEL_MS) % 4 == 0 { 6int } else { 3int },
            forall|k: int| 0 <= k < out@.len() ==> demande_valide(*self, #[trigger] out@[k]),
            sans_doublon(out@),
    {
        let ghost gr = graine_du_troc(w);
        let mut g = graine(splitmix(w ^ 0x7B0C_7B0C));
        let cand = liste_demandables(self);
        if cand.len() < 2 {
            return Vec::new();
        }
        let curios = liste_curiosites();
        proof {
            lemma_liste(NB_ESPECES as int, |i: int| demandable(*self, i));
            let f = |i: int| curiosite(i);
            lemma_liste(NB_ESPECES as int, f);
            assert(f(114));
            assert(curios@.contains(114usize));
        }
        let n: usize = if fair_day(now) { 6 } else { 3 };
        let mut out: Vec<(usize, u64, usize)> = Vec::new();
        let mut tries: u32 = 0;
        while out.len() < n && tries < 80
            invariant
                cand@ == demandables(*self),
                cand@.len() >= 2,
                curios@ == curiosites(),
                curios@.len() > 0,
                forall|j: int| 0 <= j < cand@.len() ==> #[trigger] cand@[j] < NB_ESPECES && demandable(*self, cand@[j] as int),
                forall|j: int| 0 <= j < curios@.len() ==> #[trigger] curios@[j] < NB_ESPECES && curiosite(curios@[j] as int),
                n == if (now / JOUR_REEL_MS) % 4 == 0 { 6int } else { 3int },
                out@.len() <= n,
                tries <= 80,
                tries > 0 ==> out@.len() >= 1,
                g.graine() == gr,
                (out@, g.appels()) == troc_tires(gr, cand@, curios@, n as int, tries as int),
                forall|k: int| 0 <= k < out@.len() ==> demande_valide(*self, #[trigger] out@[k]),
                sans_doublon(out@),
            decreases 80 - tries,
        {
            tries = tries + 1;
            let i1 = tirer(&mut g, 0, (curios.len() - 1) as u64);
            let give = curios[i1 as usize];
            let pool = vivier(&cand, give);
            proof {
                lemma_proches(cand@, give);
                if proches(cand@, give).len() > 0 {
                    assert forall|j: int| 0 <= j < pool@.len() implies cand@.contains(#[trigger] pool@[j]) by {}
                }
            }
            let i2 = tirer(&mut g, 0, (pool.len() - 1) as u64);
            let want = pool[i2 as usize];
            proof {
                if proches(cand@, give).len() > 0 {
                    assert(cand@.contains(want));
                } else {
                    assert(pool@ == cand@);
                    assert(cand@.contains(want));
                }
                let j = choose|j: int| 0 <= j < cand@.len() && cand@[j] == want;
                assert(cand@[j] < NB_ESPECES && demandable(*self, cand@[j] as int));
                assert(vivier_de(demandables(*self), give).contains(want));
            }
            match demande_tiree(&out, want, give) {
                Some(d) => {
                    let ghost avant = out@;
                    out.push(d);
                    proof {
                        assert forall|k1: int, k2: int| 0 <= k1 < k2 < out@.len() implies
                            (#[trigger] out@[k1]).0 != (#[trigger] out@[k2]).0 && out@[k1].2 != out@[k2].2 by {
                            if k2 == avant.len() {
                                assert(out@[k1] == avant[k1]);
                                assert(!(avant[k1].0 == want || avant[k1].2 == give));
                            } else {
                                assert(out@[k1] == avant[k1]);
                                assert(out@[k2] == avant[k2]);
                            }
                        }
                        assert forall|k: int| 0 <= k < out@.len() implies demande_valide(*self, #[trigger] out@[k]) by {
                            if k < avant.len() {
                                assert(out@[k] == avant[k]);
                            }
                        }
                    }
                },
                None => {},
            }
        }
        proof {
            if tries < 80 {
                lemma_troc_fige(gr, cand@, curios@, n as int, tries as int, 80);
            }
        }
        out
    }
}


/// Une espèce pour un contrat : biome ouvert, rare au plus, déjà prise.
pub open spec fn contractable(p: Partie, i: int) -> bool {
    p.biomes@[BIOME_DES_ESPECES@[i] as int] is Some && RARETE_DES_ESPECES@[i] <= 2 && p.dex@[i].n > 0
}

/// Une espèce commune d'un biome ouvert.
pub open spec fn commun_ouvert(p: Partie, i: int) -> bool {
    p.biomes@[BIOME_DES_ESPECES@[i] as int] is Some && RARETE_DES_ESPECES@[i] == 0
}

/// Les espèces parmi lesquelles le comptoir choisit ses contrats : celles
/// déjà prises s'il y en a trois, sinon les communes des biomes ouverts.
pub open spec fn candidats_contrat(p: Partie) -> Seq<usize> {
    let c1 = liste(NB_ESPECES as int, |i: int| contractable(p, i));
    if c1.len() >= 3 { c1 } else { liste(NB_ESPECES as int, |i: int| commun_ouvert(p, i)) }
}

/// La quantité d'un contrat selon la rareté : de 4 à 8 communs, de 3 à 5
/// peu communs, 2 ou 3 au-delà.
pub open spec fn quantite_contrat(r: int, q: int) -> bool {
    if r == 0 { 4 <= q <= 8 } else if r == 1 { 3 <= q <= 5 } else { 2 <= q <= 3 }
}

fn liste_contrat(p: &Partie, communs: bool) -> (v: Vec<usize>)
    ensures
        v@ == if communs {
            liste(NB_ESPECES as int, |i: int| commun_ouvert(*p, i))
        } else {
            liste(NB_ESPECES as int, |i: int| contractable(*p, i))
        },
{
    let ghost f = if communs { |i: int| commun_ouvert(*p, i) } else { |i: int| contractable(*p, i) };
    let mut v: Vec<usize> = Vec::new();
    let mut i: usize = 0;
    while i < NB_ESPECES
        invariant
            i <= NB_ESPECES,
            f == if communs { |i: int| commun_ouvert(*p, i) } else { |i: int| contractable(*p, i) },
            v@ == liste(i as int, f),
        decreases NB_ESPECES - i,
    {
        let ouvert = p.biomes[BIOME_DES_ESPECES[i] as usize].is_some();
        let r = RARETE_DES_ESPECES[i];
        let garde = if communs { ouvert && r == 0 } else { ouvert && r <= 2 && p.dex[i].n > 0 };
        if garde {
            v.push(i);
        }
        proof {
            assert(f(i as int) == garde);
            assert(v@ =~= liste(i + 1, f));
        }
        i = i + 1;
    }
    v
}

/// Les bornes de la quantité d'un contrat pour la rareté `r`.
pub open spec fn bornes_contrat(r: int) -> (u64, u64) {
    if r == 0 { (4, 8) } else if r == 1 { (3, 5) } else { (2, 3) }
}

/// Les bornes de la quantité d'un contrat pour la rareté `r`.
pub fn bornes_de_contrat(r: u8) -> (b: (u64, u64))
    ensures
        b == bornes_contrat(r as int),
        forall|q: int| b.0 <= q <= b.1 <==> quantite_contrat(r as int, q),
{
    if r == 0 {
        (4, 8)
    } else if r == 1 {
        (3, 5)
    } else {
        (2, 3)
    }
}

/// L'espèce `ci` a déjà son contrat parmi `out`.
pub open spec fn deja_contrat(out: Seq<(usize, u64)>, ci: usize) -> bool {
    exists|k: int| 0 <= k < out.len() && (#[trigger] out[k]).0 == ci
}

/// L'espèce `ci` a déjà son contrat.
fn deja_choisie(out: &Vec<(usize, u64)>, ci: usize) -> (b: bool)
    ensures
        b == deja_contrat(out@, ci),
{
    let mut k: usize = 0;
    while k < out.len()
        invariant
            k <= out@.len(),
            forall|j: int| 0 <= j < k ==> (#[trigger] out@[j]).0 != ci,
        decreases out@.len() - k,
    {
        if out[k].0 == ci {
            return true;
        }
        k = k + 1;
    }
    false
}

/// La graine des contrats de la fenêtre `w`.
pub open spec fn graine_des_contrats(w: u64) -> u64 {
    spec_splitmix(w ^ 0xC0117AC7)
}

/// Les candidates de `cand` qui n'ont pas encore leur contrat parmi `out`,
/// dans l'ordre.
pub open spec fn sans_contrat(cand: Seq<usize>, out: Seq<(usize, u64)>) -> Seq<usize>
    decreases cand.len(),
{
    if cand.len() == 0 {
        Seq::empty()
    } else {
        sans_contrat(cand.drop_last(), out) + if deja_contrat(out, cand.last()) { Seq::empty() } else { seq![cand.last()] }
    }
}

/// Où se tire le prochain contrat : parmi les candidates qui n'ont pas
/// encore le leur, ou parmi toutes s'il n'en reste aucune.
pub open spec fn vivier_contrat(cand: Seq<usize>, out: Seq<(usize, u64)>) -> Seq<usize> {
    if sans_contrat(cand, out).len() > 0 { sans_contrat(cand, out) } else { cand }
}

/// Les `t` premiers contrats tirés parmi `cand` sur le générateur de graine
/// `gr` : une espèce qui n'a pas encore son contrat (s'il en reste), puis sa
/// quantité dans les bornes de sa rareté. Donne les contrats et les appels
/// reçus par le générateur.
pub open spec fn contrats_tires(gr: u64, cand: Seq<usize>, t: int) -> (Seq<(usize, u64)>, Seq<(u64, u64)>)
    decreases t,
{
    if t <= 0 {
        (Seq::empty(), Seq::empty())
    } else {
        let (out, a) = contrats_tires(gr, cand, t - 1);
        let pool = vivier_contrat(cand, out);
        let (i0, a1) = tire(gr, a, 0, (pool.len() - 1) as u64);
        let ci = pool[i0 as int];
        let (lo, hi) = bornes_contrat(RARETE_DES_ESPECES@[ci as int] as int);
        let (q, a2) = tire(gr, a1, lo, hi);
        (out.push((ci, q)), a2)
    }
}

proof fn lemma_sans_contrat(cand: Seq<usize>, out: Seq<(usize, u64)>)
    ensures
        forall|j: int| 0 <= j < sans_contrat(cand, out).len() ==> cand.contains(#[trigger] sans_contrat(cand, out)[j])
            && !deja_contrat(out, sans_contrat(cand, out)[j]),
        forall|k: int| 0 <= k < cand.len() && !deja_contrat(out, #[trigger] cand[k]) ==> sans_contrat(cand, out).contains(cand[k]),
    decreases cand.len(),
{
    if cand.len() > 0 {
        let d = cand.drop_last();
        lemma_sans_contrat(d, out);
        let a = sans_contrat(d, out);
        let l = sans_contrat(cand, out);
        assert forall|j: int| 0 <= j < l.len() implies cand.contains(#[trigger] l[j]) && !deja_contrat(out, l[j]) by {
            if j < a.len() {
                assert(l[j] == a[j]);
                let k = choose|k: int| 0 <= k < d.len() && d[k] == a[j];
                assert(cand[k] == d[k]);
            } else {
                assert(l[j] == cand.last());
                assert(cand[cand.len() - 1] == cand.last());
            }
        }
        assert forall|k: int| 0 <= k < cand.len() && !deja_contrat(out, #[trigger] cand[k]) implies l.contains(cand[k]) by {
            if k < cand.len() - 1 {
                assert(d[k] == cand[k]);
                let j = choose|j: int| 0 <= j < a.len() && a[j] == d[k];
                assert(l[j] == a[j]);
            } else {
                assert(l[a.len() as int] == cand.last());
            }
        }
    }
}

/// Trois candidates distinctes ne tiennent pas dans deux contrats : il en
/// reste une sans le sien.
proof fn lemma_une_libre(cand: Seq<usize>, out: Seq<(usize, u64)>)
    requires
        cand.len() >= 3,
        cand[0] != cand[1] && cand[0] != cand[2] && cand[1] != cand[2],
        out.len() <= 2,
    ensures
        sans_contrat(cand, out).len() > 0,
{
    lemma_sans_contrat(cand, out);
    if deja_contrat(out, cand[0]) && deja_contrat(out, cand[1]) && deja_contrat(out, cand[2]) {
        let j0 = choose|k: int| 0 <= k < out.len() && (#[trigger] out[k]).0 == cand[0];
        let j1 = choose|k: int| 0 <= k < out.len() && (#[trigger] out[k]).0 == cand[1];
        let j2 = choose|k: int| 0 <= k < out.len() && (#[trigger] out[k]).0 == cand[2];
        assert(false);
    } else if !deja_contrat(out, cand[0]) {
        assert(sans_contrat(cand, out).contains(cand[0]));
    } else if !deja_contrat(out, cand[1]) {
        assert(sans_contrat(cand, out).contains(cand[1]));
    } else {
        assert(sans_contrat(cand, out).contains(cand[2]));
    }
}

/// Les contrats de la fenêtre `w` pour la partie `p`.
pub open spec fn contrats_de(p: Partie, w: u64) -> Seq<(usize, u64)> {
    contrats_tires(graine_des_contrats(w), candidats_contrat(p), 3).0
}

/// Les candidates qui n'ont pas encore leur contrat.
fn libres(cand: &Vec<usize>, out: &Vec<(usize, u64)>) -> (v: Vec<usize>)
    ensures
        v@ == sans_contrat(cand@, out@),
{
    let mut v: Vec<usize> = Vec::new();
    let mut i: usize = 0;
    while i < cand.len()
        invariant
            i <= cand@.len(),
            v@ == sans_contrat(cand@.take(i as int), out@),
        decreases cand@.len() - i,
    {
        let c = cand[i];
        if !deja_choisie(out, c) {
            v.push(c);
        }
        proof {
            let t = cand@.take(i + 1);
            assert(t.drop_last() =~= cand@.take(i as int));
            assert(t.last() == c);
            assert(v@ =~= sans_contrat(t, out@));
        }
        i = i + 1;
    }
    proof {
        assert(cand@.take(cand@.len() as int) =~= cand@);
    }
    v
}

impl Partie {
    /// Les espèces et quantités des trois contrats de la fenêtre `w`, tirées
    /// sur le générateur de la graine de la fenêtre : chaque espèce est tirée
    /// parmi les candidates qui n'ont pas encore leur contrat, si bien que
    /// les trois diffèrent dès qu'il y a trois candidates ; la quantité va
    /// selon sa rareté. La même fenêtre donne les mêmes contrats. La prime
    /// se calcule à part.
    pub fn gen_contracts(&self, w: u64) -> (out: Vec<(usize, u64)>)
        requires
            candidats_contrat(*self).len() > 0,
        ensures
            out@ == contrats_de(*self, w),
            out@.len() == 3,
            forall|k: int| 0 <= k < 3 ==> candidats_contrat(*self).contains((#[trigger] out@[k]).0)
                && out@[k].0 < NB_ESPECES
                && quantite_contrat(RARETE_DES_ESPECES@[out@[k].0 as int] as int, out@[k].1 as int),
            candidats_contrat(*self).len() >= 3 ==> out@[0].0 != out@[1].0 && out@[0].0 != out@[2].0
                && out@[1].0 != out@[2].0,
    {
        let ghost gr = graine_des_contrats(w);
        let mut g = graine(splitmix(w ^ 0xC0117AC7));
        let premiers = liste_contrat(self, false);
        let cand = if premiers.len() >= 3 { premiers } else { liste_contrat(self, true) };
        proof {
            lemma_liste(NB_ESPECES as int, |i: int| contractable(*self, i));
            lemma_liste(NB_ESPECES as int, |i: int| commun_ouvert(*self, i));
            assert(cand@ == candidats_contrat(*self));
        }
        let mut out: Vec<(usize, u64)> = Vec::new();
        let mut t: usize = 0;
        while t < 3
            invariant
                t <= 3,
                out@.len() == t,
                cand@ == candidats_contrat(*self),
                cand@.len() > 0,
                g.graine() == gr,
                (out@, g.appels()) == contrats_tires(gr, cand@, t as int),
                forall|j: int| 0 <= j < cand@.len() ==> #[trigger] cand@[j] < NB_ESPECES,
                forall|j1: int, j2: int| 0 <= j1 < j2 < cand@.len() ==> #[trigger] cand@[j1] < #[trigger] cand@[j2],
                forall|k: int| 0 <= k < t ==> cand@.contains((#[trigger] out@[k]).0)
                    && out@[k].0 < NB_ESPECES
                    && quantite_contrat(RARETE_DES_ESPECES@[out@[k].0 as int] as int, out@[k].1 as int),
                cand@.len() >= 3 ==> forall|k1: int, k2: int| 0 <= k1 < k2 < t ==> (#[trigger] out@[k1]).0 != (#[trigger] out@[k2]).0,
            decreases 3 - t,
        {
            let l = libres(&cand, &out);
            proof {
                lemma_sans_contrat(cand@, out@);
                if cand@.len() >= 3 {
                    lemma_une_libre(cand@, out@);
                }
            }
            let pool = if l.len() > 0 { l } else { cand.clone() };
            proof {
                assert(pool@ == vivier_contrat(cand@, out@));
            }
            let i0 = tirer(&mut g, 0, (pool.len() - 1) as u64);
            let ci = pool[i0 as usize];
            proof {
                if sans_contrat(cand@, out@).len() > 0 {
                    assert(cand@.contains(ci) && !deja_contrat(out@, ci));
                }
            }
            let ghost j = choose|j: int| 0 <= j < cand@.len() && cand@[j] == ci;
            assert(ci < NB_ESPECES);
            let (lo, hi) = bornes_de_contrat(RARETE_DES_ESPECES[ci]);
            proof {
                if RARETE_DES_ESPECES@[ci as int] == 0 {
                    assert(quantite_contrat(0, 4));
                } else if RARETE_DES_ESPECES@[ci as int] == 1 {
                    assert(quantite_contrat(1, 3));
                } else {
                    assert(quantite_contrat(RARETE_DES_ESPECES@[ci as int] as int, 2));
                }
            }
            let qty = tirer(&mut g, lo, hi);
            let ghost avant = out@;
            out.push((ci, qty));
            proof {
                assert forall|k: int| 0 <= k < t + 1 implies cand@.contains((#[trigger] out@[k]).0)
                    && out@[k].0 < NB_ESPECES
                    && quantite_contrat(RARETE_DES_ESPECES@[out@[k].0 as int] as int, out@[k].1 as int) by {
                    if k < t {
                        assert(out@[k] == avant[k]);
                    }
                }
                if cand@.len() >= 3 {
                    assert forall|k1: int, k2: int| 0 <= k1 < k2 < t + 1 implies (#[trigger] out@[k1]).0 != (#[trigger] out@[k2]).0 by {
                        assert(out@[k1] == avant[k1]);
                        if k2 < t {
                            assert(out@[k2] == avant[k2]);
                        } else {
                            assert(!deja_contrat(avant, ci));
                        }
                    }
                }
            }
            t = t + 1;
        }
        out
    }
}

/// Le nombre d'articles que peut proposer le marchand : l'œuf de curiosité,
/// la breloque, le lot d'appâts, la licence et le piège d'occasion.
pub const MERCH_ITEMS: usize = 5;

/// Un tirage de plus dans `lo..=hi` sur le générateur de graine `gr` qui a
/// déjà reçu `appels` : la valeur tirée, et les appels reçus ensuite.
pub open spec fn tire(gr: u64, appels: Seq<(u64, u64)>, lo: u64, hi: u64) -> (u64, Seq<(u64, u64)>) {
    (tirage(gr, appels.push((lo, hi))), appels.push((lo, hi)))
}

/// La graine du marchand à son passage `w`.
pub open spec fn graine_du_marchand(w: u64) -> u64 {
    spec_splitmix(w ^ 0x5EED_1234)
}

/// Trois articles remis dans l'ordre par trois échanges.
pub open spec fn trois_dans_l_ordre(a: usize, b: usize, c: usize) -> Seq<usize> {
    let (a1, b1) = if a > b { (b, a) } else { (a, b) };
    let (b2, c2) = if b1 > c { (c, b1) } else { (b1, c) };
    let (a3, b3) = if a1 > b2 { (b2, a1) } else { (a1, b2) };
    seq![a3, b3, c2]
}

/// L'étal que donnent les tirages `t0 < 5`, `t1 < 4`, `t2 < 3` : chacun
/// ôte l'article de ce rang parmi ceux qui restent, puis les trois pris se
/// rangent dans l'ordre.
pub open spec fn etal(t0: int, t1: int, t2: int) -> Seq<usize> {
    let a0 = seq![0usize, 1, 2, 3, 4];
    let a1 = a0.remove(t0);
    let a2 = a1.remove(t1);
    trois_dans_l_ordre(a0[t0], a1[t1], a2[t2])
}

/// L'étal du marchand à son passage `w` : trois tirages sur le générateur
/// de sa graine.
pub open spec fn etal_du_passage(w: u64) -> Seq<usize> {
    let gr = graine_du_marchand(w);
    let (t0, a0) = tire(gr, Seq::empty(), 0, 4);
    let (t1, a1) = tire(gr, a0, 0, 3);
    let (t2, a2) = tire(gr, a1, 0, 2);
    etal(t0 as int, t1 as int, t2 as int)
}

/// L'étal que donnent trois tirages sans remise.
pub fn etal_de_tirages(t0: usize, t1: usize, t2: usize) -> (out: Vec<usize>)
    requires
        t0 < 5,
        t1 < 4,
        t2 < 3,
    ensures
        out@ == etal(t0 as int, t1 as int, t2 as int),
        out@.len() == 3,
        forall|k: int| 0 <= k < 3 ==> #[trigger] out@[k] < MERCH_ITEMS,
        forall|k1: int, k2: int| 0 <= k1 < k2 < 3 ==> #[trigger] out@[k1] < #[trigger] out@[k2],
{
    let mut tous: Vec<usize> = vec![0, 1, 2, 3, 4];
    let ghost a0 = tous@;
    assert(a0 =~= seq![0usize, 1, 2, 3, 4]);
    let x0 = tous.remove(t0);
    let ghost a1 = tous@;
    assert(forall|j: int| 0 <= j < 4 ==> a1[j] == if j < t0 { j } else { j + 1 });
    let x1 = tous.remove(t1);
    let ghost a2 = tous@;
    assert(forall|j: int| 0 <= j < 3 ==> a2[j] == if j < t1 { a1[j] } else { a1[j + 1] });
    let x2 = tous.remove(t2);
    proof {
        assert(x0 == t0);
        assert(x1 != x0);
        let k2 = if (t2 as int) < (t1 as int) { t2 as int } else { t2 + 1 };
        assert(x2 == a1[k2]);
        assert(x2 != x0);
        assert(x2 != x1);
    }
    let mut a = x0;
    let mut b = x1;
    let mut c = x2;
    if a > b {
        let t = a;
        a = b;
        b = t;
    }
    if b > c {
        let t = b;
        b = c;
        c = t;
    }
    if a > b {
        let t = a;
        a = b;
        b = t;
    }
    let out = vec![a, b, c];
    proof {
        assert(out@ =~= trois_dans_l_ordre(x0, x1, x2));
    }
    out
}

/// Les trois articles qu'étale le marchand à son passage `w` : tirés sans
/// remise parmi les cinq sur le générateur de la graine du passage,
/// présentés dans l'ordre. Le même passage donne toujours le même étal.
pub fn merchant_stock(w: u64) -> (out: Vec<usize>)
    ensures
        out@ == etal_du_passage(w),
        out@.len() == 3,
        forall|k: int| 0 <= k < 3 ==> #[trigger] out@[k] < MERCH_ITEMS,
        forall|k1: int, k2: int| 0 <= k1 < k2 < 3 ==> #[trigger] out@[k1] < #[trigger] out@[k2],
{
    let mut g = graine(splitmix(w ^ 0x5EED_1234));
    let t0 = tirer(&mut g, 0, 4);
    let t1 = tirer(&mut g, 0, 3);
    let t2 = tirer(&mut g, 0, 2);
    etal_de_tirages(t0 as usize, t1 as usize, t2 as usize)
}


/// Une fenêtre de contrats : deux heures.
pub const FENETRE_CONTRATS_MS: u64 = 7_200_000;

/// Les contrats affichés se renouvellent quand leur fenêtre `fenetre` n'est
/// plus celle de l'instant `now`, ou quand il n'y en a aucun.
pub fn contrats_a_renouveler(fenetre: u64, now: u64, aucun: bool) -> (b: bool)
    ensures
        b == (fenetre != now / FENETRE_CONTRATS_MS || aucun),
{
    fenetre != now / FENETRE_CONTRATS_MS || aucun
}

impl Partie {
    /// Les demandes du troc se renouvellent chaque jour réel, ou quand il
    /// n'y en a aucune alors qu'une espèce a déjà été prise.
    pub fn troc_a_renouveler(&self, fenetre: u64, now: u64, aucun: bool) -> (b: bool)
        ensures
            b == (fenetre != now / JOUR_REEL_MS
                || (aucun && exists|i: int| 0 <= i < NB_ESPECES && (#[trigger] self.dex@[i]).n > 0)),
    {
        if fenetre != now / JOUR_REEL_MS {
            return true;
        }
        if !aucun {
            return false;
        }
        let mut i: usize = 0;
        while i < NB_ESPECES
            invariant
                i <= NB_ESPECES,
                aucun,
                fenetre == now / JOUR_REEL_MS,
                forall|j: int| 0 <= j < i ==> (#[trigger] self.dex@[j]).n == 0,
            decreases NB_ESPECES - i,
        {
            if self.dex[i].n > 0 {
                proof {
                    assert(self.dex@[i as int].n > 0);
                }
                return true;
            }
            i = i + 1;
        }
        false
    }
}

} // verus!
