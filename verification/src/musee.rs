//! Le garnissage du musée : les salles ouvertes reprennent les spécimens qui
//! rapportent le plus. Les pièces exposées rentrent en réserve, chaque
//! spécimen en réserve devient un lot (sa valeur, son espèce, shiny ou non,
//! au plus autant de lots par rang que de salles), les lots se rangent du
//! plus cher au moins cher (l'ordre du catalogue départage), et chaque salle
//! prend, pour les premiers lots, le plus beau spécimen de leur espèce.

use vstd::prelude::*;
use crate::reserve::{Reserve, ajoute, retire, casier, plus_haut_de_deux};
use crate::catalogue::NB_ESPECES;
use crate::partie::{Partie, Expo, NB_SALLES, LAB_AILES, LABO_MAX};

verus! {

/// La réserve de toutes les espèces, vue casier par casier.
pub type Stock = Seq<Seq<Seq<u64>>>;

/// Un lot : sa valeur, l'espèce, shiny ou non.
pub type Lot = (u64, usize, bool);

/// La vue d'une réserve par espèce.
pub open spec fn stock_de(inv: Seq<Reserve>) -> Stock {
    Seq::new(inv.len(), |c: int| inv[c]@)
}

/// Les pièces des salles `0..k` rentrées en réserve.
pub open spec fn rentrer(st: Stock, mus: Seq<Option<Expo>>, k: int) -> Stock
    decreases k,
{
    if k <= 0 {
        st
    } else {
        let s = rentrer(st, mus, k - 1);
        match mus[k - 1] {
            Some(e) => s.update(e.ci as int, ajoute(s[e.ci as int], casier(e.shiny, e.sex), e.rank as int)),
            None => s,
        }
    }
}

/// Les salles `0..n` vidées.
pub open spec fn vider(mus: Seq<Option<Expo>>, n: int) -> Seq<Option<Expo>> {
    Seq::new(mus.len(), |i: int| if i < n { None } else { mus[i] })
}

/// La valeur d'un spécimen : `valeurs[ci][4 × shiny + rang]`.
pub open spec fn valeur(valeurs: Seq<[u64; 8]>, ci: int, shiny: bool, r: int) -> u64 {
    valeurs[ci]@[(if shiny { 4int } else { 0int }) + r]
}

pub open spec fn min(a: int, b: int) -> int {
    if a <= b { a } else { b }
}

/// Les lots des `t` premières cases (espèce, shiny, rang) dans l'ordre du
/// catalogue : pour chacune, autant de lots que de spécimens, `n` au plus.
pub open spec fn lots(st: Stock, valeurs: Seq<[u64; 8]>, n: int, t: int) -> Seq<Lot>
    decreases t,
{
    if t <= 0 {
        Seq::empty()
    } else {
        let u = t - 1;
        let ci = u / 8;
        let shiny = u % 8 >= 4;
        let r = u % 4;
        let dispo = st[ci][casier(shiny, 0)][r] + st[ci][casier(shiny, 1)][r];
        let v = valeur(valeurs, ci, shiny, r);
        lots(st, valeurs, n, t - 1) + Seq::new(min(dispo, n) as nat, |j: int| (v, ci as usize, shiny))
    }
}

/// Combien de lots en tête de `t` valent au moins `v`.
pub open spec fn place_de(t: Seq<Lot>, v: u64) -> int
    decreases t.len(),
{
    if t.len() == 0 {
        0
    } else if t[0].0 >= v {
        1 + place_de(t.drop_first(), v)
    } else {
        0
    }
}

/// `x` rangé dans `t` : après les lots de tête qui valent au moins autant.
pub open spec fn inserer(t: Seq<Lot>, x: Lot) -> Seq<Lot> {
    let k = place_de(t, x.0);
    t.take(k) + seq![x] + t.skip(k)
}

/// Les lots rangés du plus cher au moins cher, à valeur égale dans l'ordre
/// où ils viennent.
pub open spec fn tri(l: Seq<Lot>) -> Seq<Lot>
    decreases l.len(),
{
    if l.len() == 0 { Seq::empty() } else { inserer(tri(l.drop_last()), l.last()) }
}

/// Les `j` premiers lots placés : pour chacun, le plus beau spécimen de son
/// espèce (un mâle à égalité) quitte la réserve pour la prochaine salle.
/// Donne la réserve, les salles, et le nombre de salles garnies.
pub open spec fn placer(st: Stock, mus: Seq<Option<Expo>>, l: Seq<Lot>, j: int) -> (Stock, Seq<Option<Expo>>, int)
    decreases j,
{
    if j <= 0 {
        (st, mus, 0)
    } else {
        let (s, m, pose) = placer(st, mus, l, j - 1);
        let (v, ci, shiny) = l[j - 1];
        let a = s[ci as int][casier(shiny, 0)];
        let b = s[ci as int][casier(shiny, 1)];
        match plus_haut_de_deux(a, b) {
            Some(r) => {
                let sx: u8 = if a[r] >= b[r] { 0 } else { 1 };
                (
                    s.update(ci as int, retire(s[ci as int], casier(shiny, sx), r)),
                    m.update(pose, Some(Expo { ci, rank: r as usize, shiny, sex: sx })),
                    pose + 1,
                )
            },
            None => (s, m, pose),
        }
    }
}

/// Le nombre de salles que garnit le musée : les salles ouvertes.
pub open spec fn salles(p: Partie) -> int {
    min(6 + p.lab@[LAB_AILES as int], NB_SALLES as int)
}

/// Le musée et la réserve après le garnissage des `n` premières salles.
pub open spec fn garnir(st: Stock, mus: Seq<Option<Expo>>, valeurs: Seq<[u64; 8]>, n: int) -> (Stock, Seq<Option<Expo>>) {
    let st1 = rentrer(st, mus, n);
    let l = tri(lots(st1, valeurs, n, 8 * NB_ESPECES as int));
    let (st2, mus2, _) = placer(st1, vider(mus, n), l, min(n, l.len() as int));
    (st2, mus2)
}

/// Ce qu'une salle expose, sexe mis à part.
pub open spec fn piece(o: Option<Expo>) -> Option<(usize, usize, bool)> {
    match o {
        Some(e) => Some((e.ci, e.rank, e.shiny)),
        None => None,
    }
}

/// Une borne sur chaque compte de la réserve, loin du débordement.
pub const COMPTE_MAX: u64 = 0x4000_0000_0000_0000;

/// Une réserve de toutes les espèces, chaque compte sous `borne`.
pub open spec fn stock_borne(st: Stock, borne: int) -> bool {
    &&& st.len() == NB_ESPECES
    &&& forall|c: int| 0 <= c < NB_ESPECES ==> #[trigger] st[c].len() == 4
    &&& forall|c: int, k: int| 0 <= c < NB_ESPECES && 0 <= k < 4 ==> #[trigger] st[c][k].len() == 4
    &&& forall|c: int, k: int, r: int| 0 <= c < NB_ESPECES && 0 <= k < 4 && 0 <= r < 4 ==> #[trigger] st[c][k][r] <= borne
}

/// Les pièces des salles `0..n` sont des spécimens connus.
pub open spec fn pieces_valides(mus: Seq<Option<Expo>>, n: int) -> bool {
    forall|i: int| 0 <= i < n ==> (#[trigger] mus[i] matches Some(e) ==> e.ci < NB_ESPECES && e.rank < 4)
}

proof fn lemma_stock_de(inv: Seq<Reserve>)
    requires
        inv.len() == NB_ESPECES,
    ensures
        stock_de(inv).len() == NB_ESPECES,
        forall|c: int| 0 <= c < NB_ESPECES ==> #[trigger] stock_de(inv)[c] == inv[c]@,
        forall|c: int| 0 <= c < NB_ESPECES ==> #[trigger] stock_de(inv)[c].len() == 4,
        forall|c: int, k: int| 0 <= c < NB_ESPECES && 0 <= k < 4 ==> #[trigger] stock_de(inv)[c][k].len() == 4,
{
}

proof fn lemma_rentrer_borne(st: Stock, mus: Seq<Option<Expo>>, k: int, borne: int)
    requires
        0 <= k <= mus.len(),
        stock_borne(st, borne),
        pieces_valides(mus, k),
    ensures
        stock_borne(rentrer(st, mus, k), borne + k),
    decreases k,
{
    if k > 0 {
        lemma_rentrer_borne(st, mus, k - 1, borne);
        let s = rentrer(st, mus, k - 1);
        match mus[k - 1] {
            Some(e) => {
                let ns = s.update(e.ci as int, ajoute(s[e.ci as int], casier(e.shiny, e.sex), e.rank as int));
                assert forall|c: int, kk: int, r: int| 0 <= c < NB_ESPECES && 0 <= kk < 4 && 0 <= r < 4
                    implies #[trigger] ns[c][kk][r] <= borne + k by {
                    assert(s[c][kk][r] <= borne + k - 1);
                }
            },
            None => {},
        }
    }
}

fn vue_stock(inv: &[Reserve; 133]) -> (r: Ghost<Stock>)
    ensures
        r@ == stock_de(inv@),
{
    Ghost(stock_de(inv@))
}

impl Partie {
    /// Les pièces des salles `0..n` rentrent en réserve.
    fn rentrer_pieces(&mut self, n: usize)
        requires
            n <= NB_SALLES,
            pieces_valides(old(self).museum@, n as int),
            stock_borne(stock_de(old(self).inv@), COMPTE_MAX as int),
        ensures
            stock_de(final(self).inv@) == rentrer(stock_de(old(self).inv@), old(self).museum@, n as int),
            final(self).museum@ == vider(old(self).museum@, n as int),
            *final(self) == (Partie { inv: final(self).inv, museum: final(self).museum, ..*old(self) }),
    {
        let ghost st0 = stock_de(self.inv@);
        let mut slot: usize = 0;
        while slot < n
            invariant
                slot <= n <= NB_SALLES,
                pieces_valides(old(self).museum@, n as int),
                stock_borne(st0, COMPTE_MAX as int),
                st0 == stock_de(old(self).inv@),
                stock_de(self.inv@) == rentrer(st0, old(self).museum@, slot as int),
                self.museum@ == vider(old(self).museum@, slot as int),
                *self == (Partie { inv: self.inv, museum: self.museum, ..*old(self) }),
            decreases n - slot,
        {
            proof {
                lemma_rentrer_borne(st0, old(self).museum@, slot as int, COMPTE_MAX as int);
                lemma_stock_de(self.inv@);
            }
            match self.museum[slot] {
                Some(e) => {
                    let ghost avant = self.inv@;
                    proof {
                        assert(self.museum@[slot as int] == old(self).museum@[slot as int]);
                        assert(old(self).museum@[slot as int] matches Some(x) ==> x.ci < NB_ESPECES && x.rank < 4);
                        let k = casier(e.shiny, e.sex);
                        assert(stock_de(self.inv@)[e.ci as int][k][e.rank as int] <= COMPTE_MAX + slot);
                    }
                    self.museum[slot] = None;
                    let mut r = self.inv[e.ci];
                    r.give_back(e.shiny, e.sex, e.rank);
                    self.inv[e.ci] = r;
                    proof {
                        assert(self.inv@ == avant.update(e.ci as int, r));
                        assert(stock_de(self.inv@) =~= rentrer(st0, old(self).museum@, slot + 1));
                        assert(self.museum@ =~= vider(old(self).museum@, slot + 1));
                    }
                },
                None => {
                    proof {
                        assert(self.museum@ =~= vider(old(self).museum@, slot + 1));
                    }
                },
            }
            slot = slot + 1;
        }
    }
}

fn construire_lots(inv: &[Reserve; 133], valeurs: &[[u64; 8]; 133], n: usize) -> (l: Vec<Lot>)
    requires
        n <= NB_SALLES,
        stock_borne(stock_de(inv@), COMPTE_MAX + NB_SALLES),
    ensures
        l@ == lots(stock_de(inv@), valeurs@, n as int, 8 * NB_ESPECES as int),
        forall|i: int| 0 <= i < l@.len() ==> (#[trigger] l@[i]).1 < NB_ESPECES,
{
    let ghost st = stock_de(inv@);
    let mut l: Vec<Lot> = Vec::new();
    let mut t: usize = 0;
    while t < 8 * NB_ESPECES
        invariant
            t <= 8 * NB_ESPECES,
            n <= NB_SALLES,
            st == stock_de(inv@),
            stock_borne(st, COMPTE_MAX + NB_SALLES),
            l@ == lots(st, valeurs@, n as int, t as int),
            forall|i: int| 0 <= i < l@.len() ==> (#[trigger] l@[i]).1 < NB_ESPECES,
        decreases 8 * NB_ESPECES - t,
    {
        let ci = t / 8;
        let shiny = t % 8 >= 4;
        let r = t % 4;
        proof {
            lemma_stock_de(inv@);
            assert(t % 8 == (if shiny { 4int } else { 0int }) + r);
            assert(st[ci as int][casier(shiny, 0)][r as int] <= COMPTE_MAX + NB_SALLES);
            assert(st[ci as int][casier(shiny, 1)][r as int] <= COMPTE_MAX + NB_SALLES);
        }
        let dispo = inv[ci].compte(shiny, 0, r) + inv[ci].compte(shiny, 1, r);
        let k: u64 = if dispo < n as u64 { dispo } else { n as u64 };
        let v = valeurs[ci][t % 8];
        let ghost debut = l@;
        let ghost bloc = Seq::new(min(dispo as int, n as int) as nat, |j: int| (v, ci, shiny));
        let mut j: u64 = 0;
        while j < k
            invariant
                j <= k,
                k == min(dispo as int, n as int),
                bloc == Seq::new(min(dispo as int, n as int) as nat, |j: int| (v, ci, shiny)),
                l@ == debut + bloc.take(j as int),
                ci < NB_ESPECES,
                forall|i: int| 0 <= i < debut.len() ==> (#[trigger] debut[i]).1 < NB_ESPECES,
                forall|i: int| 0 <= i < l@.len() ==> (#[trigger] l@[i]).1 < NB_ESPECES,
            decreases k - j,
        {
            l.push((v, ci, shiny));
            proof {
                assert(l@ =~= debut + bloc.take(j + 1));
            }
            j = j + 1;
        }
        proof {
            assert(bloc.take(k as int) =~= bloc);
            assert(l@ =~= lots(st, valeurs@, n as int, t + 1));
        }
        t = t + 1;
    }
    l
}

proof fn lemma_place(t: Seq<Lot>, v: u64, j: int)
    requires
        0 <= j <= t.len(),
        forall|i: int| 0 <= i < j ==> (#[trigger] t[i]).0 >= v,
        j < t.len() ==> t[j].0 < v,
    ensures
        place_de(t, v) == j,
    decreases t.len(),
{
    if t.len() > 0 && j > 0 {
        assert forall|i: int| 0 <= i < j - 1 implies (#[trigger] t.drop_first()[i]).0 >= v by {
            assert(t.drop_first()[i] == t[i + 1]);
        }
        lemma_place(t.drop_first(), v, j - 1);
    }
}

pub(crate) proof fn lemma_place_borne(t: Seq<Lot>, v: u64)
    ensures
        0 <= place_de(t, v) <= t.len(),
    decreases t.len(),
{
    if t.len() > 0 {
        lemma_place_borne(t.drop_first(), v);
    }
}

fn place(t: &Vec<Lot>, v: u64) -> (k: usize)
    ensures
        k == place_de(t@, v),
{
    let mut j: usize = 0;
    while j < t.len() && t[j].0 >= v
        invariant
            j <= t.len(),
            forall|i: int| 0 <= i < j ==> (#[trigger] t@[i]).0 >= v,
        decreases t.len() - j,
    {
        j = j + 1;
    }
    proof {
        lemma_place(t@, v, j as int);
    }
    j
}

pub(crate) proof fn lemma_tri(l: Seq<Lot>)
    requires
        forall|i: int| 0 <= i < l.len() ==> (#[trigger] l[i]).1 < NB_ESPECES,
    ensures
        tri(l).len() == l.len(),
        forall|i: int| 0 <= i < tri(l).len() ==> (#[trigger] tri(l)[i]).1 < NB_ESPECES,
    decreases l.len(),
{
    if l.len() > 0 {
        let d = l.drop_last();
        assert forall|i: int| 0 <= i < d.len() implies (#[trigger] d[i]).1 < NB_ESPECES by {
            assert(d[i] == l[i]);
        }
        lemma_tri(d);
        let t = tri(d);
        let x = l.last();
        lemma_place_borne(t, x.0);
        let k = place_de(t, x.0);
        let r = inserer(t, x);
        assert forall|i: int| 0 <= i < r.len() implies (#[trigger] r[i]).1 < NB_ESPECES by {
            if i < k {
                assert(r[i] == t[i]);
            } else if i == k {
                assert(r[i] == x);
            } else {
                assert(r[i] == t[i - 1]);
            }
        }
    }
}

fn trier(l: &Vec<Lot>) -> (r: Vec<Lot>)
    requires
        forall|i: int| 0 <= i < l@.len() ==> (#[trigger] l@[i]).1 < NB_ESPECES,
    ensures
        r@ == tri(l@),
        forall|i: int| 0 <= i < r@.len() ==> (#[trigger] r@[i]).1 < NB_ESPECES,
{
    let mut r: Vec<Lot> = Vec::new();
    let mut i: usize = 0;
    while i < l.len()
        invariant
            i <= l.len(),
            r@ == tri(l@.take(i as int)),
        decreases l.len() - i,
    {
        let x = l[i];
        let k = place(&r, x.0);
        proof {
            lemma_place_borne(r@, x.0);
        }
        r.insert(k, x);
        proof {
            assert(l@.take(i + 1).drop_last() =~= l@.take(i as int));
            assert(r@ =~= inserer(tri(l@.take(i as int)), x));
        }
        i = i + 1;
    }
    proof {
        assert(l@.take(l@.len() as int) =~= l@);
        lemma_tri(l@);
    }
    r
}

proof fn lemma_placer_pose(st: Stock, mus: Seq<Option<Expo>>, l: Seq<Lot>, j: int)
    requires
        0 <= j,
    ensures
        0 <= placer(st, mus, l, j).2 <= j,
    decreases j,
{
    if j > 0 {
        lemma_placer_pose(st, mus, l, j - 1);
    }
}

impl Partie {
    /// Place les `k` premiers lots : chacun fait passer le plus beau
    /// spécimen de son espèce dans la prochaine salle. Renvoie le nombre de
    /// salles garnies.
    fn placer_lots(&mut self, l: &Vec<Lot>, k: usize) -> (pose: usize)
        requires
            k <= l@.len(),
            k <= NB_SALLES,
            forall|i: int| 0 <= i < l@.len() ==> (#[trigger] l@[i]).1 < NB_ESPECES,
        ensures
            (stock_de(final(self).inv@), final(self).museum@, pose as int)
                == placer(stock_de(old(self).inv@), old(self).museum@, l@, k as int),
            *final(self) == (Partie { inv: final(self).inv, museum: final(self).museum, ..*old(self) }),
    {
        let ghost st0 = stock_de(self.inv@);
        let mut pose: usize = 0;
        let mut j: usize = 0;
        while j < k
            invariant
                j <= k <= l@.len(),
                k <= NB_SALLES,
                pose <= j,
                forall|i: int| 0 <= i < l@.len() ==> (#[trigger] l@[i]).1 < NB_ESPECES,
                st0 == stock_de(old(self).inv@),
                (stock_de(self.inv@), self.museum@, pose as int) == placer(st0, old(self).museum@, l@, j as int),
                *self == (Partie { inv: self.inv, museum: self.museum, ..*old(self) }),
            decreases k - j,
        {
            let (v, ci, shiny) = l[j];
            proof {
                assert(l@[j as int].1 < NB_ESPECES);
                lemma_stock_de(self.inv@);
            }
            let mut r = self.inv[ci];
            let ghost avant = self.inv@;
            match r.take_best(shiny) {
                Some((rang, sx)) => {
                    self.inv[ci] = r;
                    self.museum[pose] = Some(Expo { ci, rank: rang, shiny, sex: sx });
                    proof {
                        assert(self.inv@ == avant.update(ci as int, r));
                        assert(stock_de(self.inv@) =~= placer(st0, old(self).museum@, l@, j + 1).0);
                    }
                    pose = pose + 1;
                },
                None => {},
            }
            j = j + 1;
        }
        pose
    }
}

fn meme_piece(a: Option<Expo>, b: Option<Expo>) -> (r: bool)
    ensures
        r == (piece(a) == piece(b)),
{
    match (a, b) {
        (Some(x), Some(y)) => x.ci == y.ci && x.rank == y.rank && x.shiny == y.shiny,
        (None, None) => true,
        _ => false,
    }
}

proof fn lemma_placer_borne(st: Stock, mus: Seq<Option<Expo>>, l: Seq<Lot>, j: int, borne: int)
    requires
        0 <= j <= l.len(),
        stock_borne(st, borne),
        forall|i: int| 0 <= i < l.len() ==> (#[trigger] l[i]).1 < NB_ESPECES,
    ensures
        stock_borne(placer(st, mus, l, j).0, borne),
        placer(st, mus, l, j).1.len() == mus.len() || j > mus.len(),
    decreases j,
{
    if j > 0 {
        lemma_placer_borne(st, mus, l, j - 1, borne);
        lemma_placer_pose(st, mus, l, j - 1);
        let (s, m, pose) = placer(st, mus, l, j - 1);
        let (v, ci, shiny) = l[j - 1];
        let a = s[ci as int][casier(shiny, 0)];
        let b = s[ci as int][casier(shiny, 1)];
        match plus_haut_de_deux(a, b) {
            Some(r) => {
                let sx: u8 = if a[r] >= b[r] { 0 } else { 1 };
                let ns = s.update(ci as int, retire(s[ci as int], casier(shiny, sx), r));
                assert forall|c: int, k: int, rr: int| 0 <= c < NB_ESPECES && 0 <= k < 4 && 0 <= rr < 4
                    implies #[trigger] ns[c][k][rr] <= borne by {
                    assert(s[c][k][rr] <= borne);
                }
            },
            None => {},
        }
    }
}

impl Partie {
    /// Garnit les salles ouvertes avec les spécimens qui rapportent le plus
    /// (`valeurs[ci][4 × shiny + rang]` : ce que rapporte un spécimen). Renvoie
    /// vrai si une salle a changé de pièce.
    pub fn museum_optimize(&mut self, valeurs: &[[u64; 8]; 133]) -> (change: bool)
        requires
            old(self).lab[LAB_AILES as int] <= LABO_MAX[LAB_AILES as int],
            pieces_valides(old(self).museum@, NB_SALLES as int),
            stock_borne(stock_de(old(self).inv@), COMPTE_MAX as int),
        ensures
            ({
                let n = salles(*old(self));
                let (st, mus) = garnir(stock_de(old(self).inv@), old(self).museum@, valeurs@, n);
                &&& stock_de(final(self).inv@) == st
                &&& final(self).museum@ == mus
                &&& change == exists|i: int| 0 <= i < n && piece(old(self).museum@[i]) != piece(#[trigger] final(self).museum@[i])
            }),
            *final(self) == (Partie { inv: final(self).inv, museum: final(self).museum, ..*old(self) }),
    {
        let ouvertes = self.museum_slots();
        let n: usize = if ouvertes < NB_SALLES { ouvertes } else { NB_SALLES };
        let avant = self.museum;
        self.rentrer_pieces(n);
        proof {
            lemma_rentrer_borne(stock_de(old(self).inv@), old(self).museum@, n as int, COMPTE_MAX as int);
        }
        let l = construire_lots(&self.inv, valeurs, n);
        let t = trier(&l);
        let k = if n < t.len() { n } else { t.len() };
        self.placer_lots(&t, k);
        let mut change = false;
        let mut i: usize = 0;
        while i < n
            invariant
                i <= n <= NB_SALLES,
                avant@ == old(self).museum@,
                change == exists|j: int| 0 <= j < i && piece(avant@[j]) != piece(#[trigger] self.museum@[j]),
            decreases n - i,
        {
            if !meme_piece(avant[i], self.museum[i]) {
                change = true;
            }
            i = i + 1;
        }
        change
    }
}

/// Les pièces des salles `0..j` qui sont un spécimen de l'espèce `c`, du
/// casier `k` et du rang `r`.
pub open spec fn nb(m: Seq<Option<Expo>>, j: int, c: int, k: int, r: int) -> nat
    decreases j,
{
    if j <= 0 {
        0
    } else {
        nb(m, j - 1, c, k, r) + if (m[j - 1] matches Some(e) && e.ci == c && casier(e.shiny, e.sex) == k
            && e.rank == r) { 1nat } else { 0nat }
    }
}

/// Une réserve de toutes les espèces, de la bonne forme.
pub open spec fn stock_forme(st: Stock) -> bool {
    &&& st.len() == NB_ESPECES
    &&& forall|c: int| 0 <= c < NB_ESPECES ==> #[trigger] st[c].len() == 4
    &&& forall|c: int, k: int| 0 <= c < NB_ESPECES && 0 <= k < 4 ==> #[trigger] st[c][k].len() == 4
}

proof fn lemma_nb_hors(m: Seq<Option<Expo>>, j: int, i: int, x: Option<Expo>, c: int, k: int, r: int)
    requires
        0 <= j <= i < m.len(),
    ensures
        nb(m.update(i, x), j, c, k, r) == nb(m, j, c, k, r),
    decreases j,
{
    if j > 0 {
        lemma_nb_hors(m, j - 1, i, x, c, k, r);
    }
}

proof fn lemma_nb_pose(m: Seq<Option<Expo>>, j: int, i: int, e: Expo, c: int, k: int, r: int)
    requires
        0 <= i < j <= m.len(),
        m[i] is None,
    ensures
        nb(m.update(i, Some(e)), j, c, k, r) == nb(m, j, c, k, r)
            + if e.ci == c && casier(e.shiny, e.sex) == k && e.rank == r { 1nat } else { 0nat },
    decreases j,
{
    if j - 1 > i {
        lemma_nb_pose(m, j - 1, i, e, c, k, r);
    } else {
        lemma_nb_hors(m, j - 1, i, Some(e), c, k, r);
    }
}

proof fn lemma_nb_pareil(m1: Seq<Option<Expo>>, m2: Seq<Option<Expo>>, a: int, j: int, c: int, k: int, r: int)
    requires
        0 <= a <= j <= m1.len(),
        m1.len() == m2.len(),
        forall|i: int| a <= i < j ==> m1[i] == m2[i],
    ensures
        nb(m1, j, c, k, r) - nb(m1, a, c, k, r) == nb(m2, j, c, k, r) - nb(m2, a, c, k, r),
    decreases j,
{
    if j > a {
        lemma_nb_pareil(m1, m2, a, j - 1, c, k, r);
    }
}

proof fn lemma_nb_vide(m: Seq<Option<Expo>>, j: int, c: int, k: int, r: int)
    requires
        0 <= j <= m.len(),
        forall|i: int| 0 <= i < j ==> m[i] is None,
    ensures
        nb(m, j, c, k, r) == 0,
    decreases j,
{
    if j > 0 {
        lemma_nb_vide(m, j - 1, c, k, r);
    }
}

/// Rentrer les pièces des salles `0..j` ajoute à chaque compte les pièces
/// qui lui reviennent.
pub(crate) proof fn lemma_rentrer_compte(st: Stock, m: Seq<Option<Expo>>, j: int, borne: int)
    requires
        0 <= j <= m.len(),
        j <= NB_SALLES,
        borne <= COMPTE_MAX + NB_SALLES,
        stock_borne(st, borne),
        pieces_valides(m, j),
    ensures
        stock_forme(rentrer(st, m, j)),
        forall|c: int, k: int, r: int| 0 <= c < NB_ESPECES && 0 <= k < 4 && 0 <= r < 4
            ==> #[trigger] rentrer(st, m, j)[c][k][r] == st[c][k][r] + nb(m, j, c, k, r),
    decreases j,
{
    if j > 0 {
        lemma_rentrer_compte(st, m, j - 1, borne);
        lemma_rentrer_borne(st, m, j - 1, borne);
        let s = rentrer(st, m, j - 1);
        match m[j - 1] {
            Some(e) => {
                assert(m[j - 1] matches Some(x) ==> x.ci < NB_ESPECES && x.rank < 4);
                let ns = s.update(e.ci as int, ajoute(s[e.ci as int], casier(e.shiny, e.sex), e.rank as int));
                assert forall|c: int, k: int, r: int| 0 <= c < NB_ESPECES && 0 <= k < 4 && 0 <= r < 4
                    implies #[trigger] ns[c][k][r] == st[c][k][r] + nb(m, j, c, k, r) by {
                    assert(s[c][k][r] == st[c][k][r] + nb(m, j - 1, c, k, r));
                    assert(s[c][k][r] <= borne + NB_SALLES);
                    assert(nb(m, j, c, k, r) == nb(m, j - 1, c, k, r)
                        + if (e.ci == c && casier(e.shiny, e.sex) == k && e.rank == r) { 1nat } else { 0nat });
                    if c == e.ci as int {
                        assert(ns[c] == ajoute(s[c], casier(e.shiny, e.sex), e.rank as int));
                    } else {
                        assert(ns[c] == s[c]);
                    }
                }
                assert forall|c: int| 0 <= c < NB_ESPECES implies #[trigger] ns[c].len() == 4 by {}
                assert forall|c: int, k: int| 0 <= c < NB_ESPECES && 0 <= k < 4 implies #[trigger] ns[c][k].len() == 4 by {
                    if c == e.ci as int {
                        assert(ns[c] == ajoute(s[c], casier(e.shiny, e.sex), e.rank as int));
                    }
                }
            },
            None => {},
        }
    }
}

/// Placer des lots ôte de la réserve exactement ce qui entre au musée, dans
/// des salles vides, les premières.
proof fn lemma_placer_compte(st: Stock, m: Seq<Option<Expo>>, l: Seq<Lot>, j: int)
    requires
        0 <= j <= l.len(),
        j <= m.len(),
        stock_forme(st),
        forall|i: int| 0 <= i < l.len() ==> (#[trigger] l[i]).1 < NB_ESPECES,
        forall|i: int| 0 <= i < j ==> m[i] is None,
    ensures
        ({
            let (s, mm, pose) = placer(st, m, l, j);
            &&& stock_forme(s)
            &&& mm.len() == m.len()
            &&& 0 <= pose <= j
            &&& forall|i: int| pose <= i < mm.len() ==> #[trigger] mm[i] == m[i]
            &&& pieces_valides(mm, pose)
            &&& forall|c: int, k: int, r: int| 0 <= c < NB_ESPECES && 0 <= k < 4 && 0 <= r < 4
                ==> #[trigger] s[c][k][r] + nb(mm, mm.len() as int, c, k, r) == st[c][k][r] + nb(m, m.len() as int, c, k, r)
        }),
    decreases j,
{
    if j > 0 {
        lemma_placer_compte(st, m, l, j - 1);
        let (s, mm, pose) = placer(st, m, l, j - 1);
        let (v, ci, shiny) = l[j - 1];
        let a = s[ci as int][casier(shiny, 0)];
        let b = s[ci as int][casier(shiny, 1)];
        match plus_haut_de_deux(a, b) {
            Some(r0) => {
                let sx: u8 = if a[r0] >= b[r0] { 0 } else { 1 };
                let e = Expo { ci, rank: r0 as usize, shiny, sex: sx };
                let ns = s.update(ci as int, retire(s[ci as int], casier(shiny, sx), r0));
                let nm = mm.update(pose, Some(e));
                assert(mm[pose] == m[pose]);
                assert(s[ci as int][casier(shiny, sx)][r0] > 0);
                assert forall|c: int, k: int, r: int| 0 <= c < NB_ESPECES && 0 <= k < 4 && 0 <= r < 4
                    implies #[trigger] ns[c][k][r] + nb(nm, nm.len() as int, c, k, r) == st[c][k][r] + nb(m, m.len() as int, c, k, r) by {
                    lemma_nb_pose(mm, mm.len() as int, pose, e, c, k, r);
                    assert(s[c][k][r] + nb(mm, mm.len() as int, c, k, r) == st[c][k][r] + nb(m, m.len() as int, c, k, r));
                }
                assert forall|i: int| 0 <= i < pose + 1 implies (#[trigger] nm[i] matches Some(x) ==> x.ci < NB_ESPECES && x.rank < 4) by {
                    if i < pose {
                        assert(nm[i] == mm[i]);
                    }
                }
            },
            None => {},
        }
    }
}

/// Le garnissage ne perd ni ne crée de spécimen : pour chaque espèce,
/// casier et rang, réserve et salles réunies comptent autant après qu'avant.
pub proof fn loi_garnir_conserve(st: Stock, mus: Seq<Option<Expo>>, valeurs: Seq<[u64; 8]>, n: int)
    requires
        0 <= n <= mus.len(),
        n <= NB_SALLES,
        stock_borne(st, COMPTE_MAX as int),
        pieces_valides(mus, n),
        valeurs.len() == NB_ESPECES,
    ensures
        ({
            let (st2, mus2) = garnir(st, mus, valeurs, n);
            &&& stock_forme(st2)
            &&& mus2.len() == mus.len()
            &&& forall|i: int| n <= i < mus.len() ==> #[trigger] mus2[i] == mus[i]
            &&& forall|c: int, k: int, r: int| 0 <= c < NB_ESPECES && 0 <= k < 4 && 0 <= r < 4
                ==> #[trigger] st2[c][k][r] + nb(mus2, mus.len() as int, c, k, r) == st[c][k][r] + nb(mus, mus.len() as int, c, k, r)
        }),
{
    let st1 = rentrer(st, mus, n);
    lemma_rentrer_compte(st, mus, n, COMPTE_MAX as int);
    lemma_lots_especes(st1, valeurs, n, 8 * NB_ESPECES as int);
    let l0 = lots(st1, valeurs, n, 8 * NB_ESPECES as int);
    lemma_tri(l0);
    let l = tri(l0);
    let m1 = vider(mus, n);
    let j = min(n, l.len() as int);
    lemma_placer_compte(st1, m1, l, j);
    let (st2, mus2, pose) = placer(st1, m1, l, j);
    assert forall|c: int, k: int, r: int| 0 <= c < NB_ESPECES && 0 <= k < 4 && 0 <= r < 4
        implies #[trigger] st2[c][k][r] + nb(mus2, mus.len() as int, c, k, r) == st[c][k][r] + nb(mus, mus.len() as int, c, k, r) by {
        lemma_nb_vide(m1, n, c, k, r);
        lemma_nb_pareil(m1, mus, n, mus.len() as int, c, k, r);
        assert(st1[c][k][r] == st[c][k][r] + nb(mus, n, c, k, r));
    }
}

pub(crate) proof fn lemma_lots_especes(st: Stock, valeurs: Seq<[u64; 8]>, n: int, t: int)
    requires
        0 <= t <= 8 * NB_ESPECES,
    ensures
        forall|i: int| 0 <= i < lots(st, valeurs, n, t).len() ==> (#[trigger] lots(st, valeurs, n, t)[i]).1 < NB_ESPECES,
    decreases t,
{
    if t > 0 {
        lemma_lots_especes(st, valeurs, n, t - 1);
        let u = t - 1;
        let prev = lots(st, valeurs, n, t - 1);
        let l = lots(st, valeurs, n, t);
        assert forall|i: int| 0 <= i < l.len() implies (#[trigger] l[i]).1 < NB_ESPECES by {
            if i < prev.len() {
                assert(l[i] == prev[i]);
            }
        }
    }
}

/// Garnir deux fois revient à garnir une fois : un second passage trouve
/// la même réserve une fois les pièces rentrées, et refait les mêmes choix.
pub proof fn loi_garnir_deux_fois(st: Stock, mus: Seq<Option<Expo>>, valeurs: Seq<[u64; 8]>, n: int)
    requires
        0 <= n <= mus.len(),
        n <= NB_SALLES,
        stock_borne(st, COMPTE_MAX as int),
        pieces_valides(mus, n),
        valeurs.len() == NB_ESPECES,
    ensures
        garnir(garnir(st, mus, valeurs, n).0, garnir(st, mus, valeurs, n).1, valeurs, n) == garnir(st, mus, valeurs, n),
{
    let st1 = rentrer(st, mus, n);
    lemma_rentrer_compte(st, mus, n, COMPTE_MAX as int);
    lemma_rentrer_borne(st, mus, n, COMPTE_MAX as int);
    lemma_lots_especes(st1, valeurs, n, 8 * NB_ESPECES as int);
    let l0 = lots(st1, valeurs, n, 8 * NB_ESPECES as int);
    lemma_tri(l0);
    let l = tri(l0);
    let m1 = vider(mus, n);
    let j = min(n, l.len() as int);
    lemma_placer_compte(st1, m1, l, j);
    lemma_placer_borne(st1, m1, l, j, COMPTE_MAX + NB_SALLES);
    let (st2, mus2, pose) = placer(st1, m1, l, j);
    loi_garnir_conserve(st, mus, valeurs, n);
    assert(pieces_valides(mus2, n)) by {
        assert forall|i: int| 0 <= i < n implies (#[trigger] mus2[i] matches Some(e) ==> e.ci < NB_ESPECES && e.rank < 4) by {
            if i >= pose {
                assert(mus2[i] == m1[i]);
            }
        }
    }
    lemma_rentrer_compte(st2, mus2, n, COMPTE_MAX + NB_SALLES);
    let st1b = rentrer(st2, mus2, n);
    assert forall|c: int, k: int, r: int| 0 <= c < NB_ESPECES && 0 <= k < 4 && 0 <= r < 4
        implies #[trigger] st1b[c][k][r] == st1[c][k][r] by {
        lemma_nb_pareil(mus2, mus, n, mus.len() as int, c, k, r);
    }
    assert(st1b =~~= st1);
    assert(vider(mus2, n) =~= m1);
}

} // verus!
