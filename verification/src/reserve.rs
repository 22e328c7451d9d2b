//! La réserve d'une espèce : des compteurs par rang (C, B, A, S), par sexe,
//! normaux et shinies. On la voit comme quatre casiers de quatre rangs :
//! mâles, femelles, mâles shinies, femelles shinies.

use vstd::prelude::*;

verus! {

/// Nombre de rangs : C, B, A, S.
pub const RANGS: usize = 4;

/// Réserve d'une espèce.
#[derive(Clone, Copy, Debug, PartialEq, Eq)]
pub struct Reserve {
    pub m: [u64; 4],
    pub f: [u64; 4],
    pub sm: [u64; 4],
    pub sf: [u64; 4],
}

/// Le casier d'un spécimen : 0 mâles, 1 femelles, 2 mâles shinies,
/// 3 femelles shinies. Tout sexe autre que 0 est femelle.
pub open spec fn casier(shiny: bool, sexe: u8) -> int {
    (if shiny { 2int } else { 0int }) + (if sexe == 0 { 0int } else { 1int })
}

/// Une vue bien formée : quatre casiers de quatre rangs.
pub open spec fn bien_formee(v: Seq<Seq<u64>>) -> bool {
    v.len() == 4 && forall|k: int| 0 <= k < 4 ==> #[trigger] v[k].len() == 4
}

pub open spec fn somme(s: Seq<u64>) -> int {
    s[0] + s[1] + s[2] + s[3]
}

/// Un spécimen de moins au rang `r` du casier `k`.
pub open spec fn retire(v: Seq<Seq<u64>>, k: int, r: int) -> Seq<Seq<u64>> {
    v.update(k, v[k].update(r, (v[k][r] - 1) as u64))
}

/// Un spécimen de plus au rang `r` du casier `k`.
pub open spec fn ajoute(v: Seq<Seq<u64>>, k: int, r: int) -> Seq<Seq<u64>> {
    v.update(k, v[k].update(r, (v[k][r] + 1) as u64))
}

/// Le plus haut rang présent dans un casier.
pub open spec fn plus_haut(c: Seq<u64>) -> Option<int> {
    if c[3] > 0 {
        Some(3)
    } else if c[2] > 0 {
        Some(2)
    } else if c[1] > 0 {
        Some(1)
    } else if c[0] > 0 {
        Some(0)
    } else {
        None
    }
}

/// Le plus bas rang présent parmi deux casiers réunis.
pub open spec fn plus_bas_de_deux(a: Seq<u64>, b: Seq<u64>) -> Option<int> {
    if a[0] + b[0] > 0 {
        Some(0)
    } else if a[1] + b[1] > 0 {
        Some(1)
    } else if a[2] + b[2] > 0 {
        Some(2)
    } else if a[3] + b[3] > 0 {
        Some(3)
    } else {
        None
    }
}

/// Le plus haut rang présent parmi deux casiers réunis.
pub open spec fn plus_haut_de_deux(a: Seq<u64>, b: Seq<u64>) -> Option<int> {
    if a[3] + b[3] > 0 {
        Some(3)
    } else if a[2] + b[2] > 0 {
        Some(2)
    } else if a[1] + b[1] > 0 {
        Some(1)
    } else if a[0] + b[0] > 0 {
        Some(0)
    } else {
        None
    }
}

/// Ce qui reste de `a` mâles et `b` femelles après en avoir retiré `k`, un à
/// un, toujours du côté le mieux fourni (les mâles à égalité).
pub open spec fn partage(a: int, b: int, k: int) -> (int, int) {
    if a >= b + k {
        (a - k, b)
    } else if b >= a + k {
        (a, b - k)
    } else {
        ((a + b - k) / 2, (a + b - k) - (a + b - k) / 2)
    }
}

pub open spec fn min(a: int, b: int) -> int {
    if a <= b { a } else { b }
}

/// Combien une vente de `q` spécimens prend à chaque rang, en commençant
/// par les plus bas, dans une paire de casiers (mâles, femelles).
pub open spec fn prises(q: int, a: Seq<u64>, b: Seq<u64>) -> Seq<int> {
    let p0 = min(q, a[0] + b[0]);
    let p1 = min(q - p0, a[1] + b[1]);
    let p2 = min(q - p0 - p1, a[2] + b[2]);
    let p3 = min(q - p0 - p1 - p2, a[3] + b[3]);
    seq![p0, p1, p2, p3]
}

/// Les deux casiers (mâles, femelles) après la prise `p`.
pub open spec fn apres_prises(a: Seq<u64>, b: Seq<u64>, p: Seq<int>) -> (Seq<u64>, Seq<u64>) {
    (
        Seq::new(4, |r: int| partage(a[r] as int, b[r] as int, p[r]).0 as u64),
        Seq::new(4, |r: int| partage(a[r] as int, b[r] as int, p[r]).1 as u64),
    )
}

impl View for Reserve {
    type V = Seq<Seq<u64>>;

    open spec fn view(&self) -> Seq<Seq<u64>> {
        seq![self.m@, self.f@, self.sm@, self.sf@]
    }
}

impl Reserve {
    /// Une réserve vide.
    pub fn vide() -> (r: Reserve)
        ensures
            forall|k: int, i: int| 0 <= k < 4 && 0 <= i < 4 ==> r@[k][i] == 0,
    {
        Reserve { m: [0; 4], f: [0; 4], sm: [0; 4], sf: [0; 4] }
    }

    /// Le nombre de spécimens normaux.
    pub open spec fn spec_tn(&self) -> int {
        somme(self.m@) + somme(self.f@)
    }

    /// Le nombre de shinies.
    pub open spec fn spec_ts(&self) -> int {
        somme(self.sm@) + somme(self.sf@)
    }

    /// Spécimens normaux en réserve.
    pub fn tn(&self) -> (n: u64)
        requires
            self.spec_tn() <= u64::MAX,
        ensures
            n == self.spec_tn(),
    {
        self.m[0] + self.m[1] + self.m[2] + self.m[3] + self.f[0] + self.f[1] + self.f[2] + self.f[3]
    }

    /// Shinies en réserve.
    pub fn ts(&self) -> (n: u64)
        requires
            self.spec_ts() <= u64::MAX,
        ensures
            n == self.spec_ts(),
    {
        self.sm[0] + self.sm[1] + self.sm[2] + self.sm[3] + self.sf[0] + self.sf[1] + self.sf[2] + self.sf[3]
    }

    /// Mâles normaux en réserve.
    pub fn tm(&self) -> (n: u64)
        requires
            somme(self.m@) <= u64::MAX,
        ensures
            n == somme(self.m@),
    {
        self.m[0] + self.m[1] + self.m[2] + self.m[3]
    }

    /// Femelles normales en réserve.
    pub fn tf(&self) -> (n: u64)
        requires
            somme(self.f@) <= u64::MAX,
        ensures
            n == somme(self.f@),
    {
        self.f[0] + self.f[1] + self.f[2] + self.f[3]
    }

    /// Spécimens normaux d'un rang.
    pub fn nr(&self, r: usize) -> (n: u64)
        requires
            r < 4,
            self.m[r as int] + self.f[r as int] <= u64::MAX,
        ensures
            n == self.m[r as int] + self.f[r as int],
    {
        self.m[r] + self.f[r]
    }

    /// Shinies d'un rang.
    pub fn sr(&self, r: usize) -> (n: u64)
        requires
            r < 4,
            self.sm[r as int] + self.sf[r as int] <= u64::MAX,
        ensures
            n == self.sm[r as int] + self.sf[r as int],
    {
        self.sm[r] + self.sf[r]
    }

    /// Le compte d'un rang dans un casier.
    pub fn compte(&self, shiny: bool, sexe: u8, r: usize) -> (n: u64)
        requires
            r < 4,
        ensures
            n == self@[casier(shiny, sexe)][r as int],
    {
        if !shiny {
            if sexe == 0 { self.m[r] } else { self.f[r] }
        } else {
            if sexe == 0 { self.sm[r] } else { self.sf[r] }
        }
    }

    fn decremente(&mut self, shiny: bool, sexe: u8, r: usize)
        requires
            r < 4,
            old(self)@[casier(shiny, sexe)][r as int] > 0,
        ensures
            final(self)@ == retire(old(self)@, casier(shiny, sexe), r as int),
    {
        if !shiny {
            if sexe == 0 { self.m[r] = self.m[r] - 1; } else { self.f[r] = self.f[r] - 1; }
        } else {
            if sexe == 0 { self.sm[r] = self.sm[r] - 1; } else { self.sf[r] = self.sf[r] - 1; }
        }
        assert(self@ =~= retire(old(self)@, casier(shiny, sexe), r as int));
    }

    /// Remet un spécimen en réserve.
    pub fn give_back(&mut self, shiny: bool, sexe: u8, r: usize)
        requires
            r < 4,
            old(self)@[casier(shiny, sexe)][r as int] < u64::MAX,
        ensures
            final(self)@ == ajoute(old(self)@, casier(shiny, sexe), r as int),
    {
        if !shiny {
            if sexe == 0 { self.m[r] = self.m[r] + 1; } else { self.f[r] = self.f[r] + 1; }
        } else {
            if sexe == 0 { self.sm[r] = self.sm[r] + 1; } else { self.sf[r] = self.sf[r] + 1; }
        }
        assert(self@ =~= ajoute(old(self)@, casier(shiny, sexe), r as int));
    }

    /// Retire le meilleur spécimen d'un sexe donné ; renvoie son rang.
    pub fn take_best_sex(&mut self, shiny: bool, sexe: u8) -> (res: Option<usize>)
        ensures
            res.is_some() == plus_haut(old(self)@[casier(shiny, sexe)]).is_some(),
            res matches Some(r) ==> r == plus_haut(old(self)@[casier(shiny, sexe)])->0
                && final(self)@ == retire(old(self)@, casier(shiny, sexe), r as int),
            res is None ==> *final(self) == *old(self),
    {
        let mut r: usize = 4;
        while r > 0
            invariant
                r <= 4,
                *self == *old(self),
                forall|i: int| r <= i < 4 ==> self@[casier(shiny, sexe)][i] == 0,
            decreases r,
        {
            r = r - 1;
            if self.compte(shiny, sexe, r) > 0 {
                self.decremente(shiny, sexe, r);
                return Some(r);
            }
        }
        None
    }

    /// Retire le spécimen non-shiny de plus bas rang (un mâle d'abord à
    /// rang égal) ; renvoie (rang, sexe).
    pub fn take_lowest_one(&mut self) -> (res: Option<(usize, u8)>)
        ensures
            res.is_some() == plus_bas_de_deux(old(self)@[0], old(self)@[1]).is_some(),
            res matches Some((r, s)) ==> r == plus_bas_de_deux(old(self)@[0], old(self)@[1])->0
                && s == (if old(self).m[r as int] > 0 { 0u8 } else { 1u8 })
                && final(self)@ == retire(old(self)@, s as int, r as int),
            res is None ==> *final(self) == *old(self),
    {
        let mut r: usize = 0;
        while r < 4
            invariant
                r <= 4,
                *self == *old(self),
                forall|i: int| 0 <= i < r ==> self.m[i] + self.f[i] == 0,
            decreases 4 - r,
        {
            if self.m[r] > 0 {
                self.decremente(false, 0, r);
                return Some((r, 0));
            }
            if self.f[r] > 0 {
                self.decremente(false, 1, r);
                return Some((r, 1));
            }
            r = r + 1;
        }
        None
    }

    /// Retire le meilleur spécimen tous sexes confondus, du sexe le mieux
    /// fourni à ce rang (un mâle à égalité) ; renvoie (rang, sexe).
    pub fn take_best(&mut self, shiny: bool) -> (res: Option<(usize, u8)>)
        ensures
            res.is_some() == plus_haut_de_deux(old(self)@[casier(shiny, 0)], old(self)@[casier(shiny, 1)]).is_some(),
            res matches Some((r, s)) ==> r == plus_haut_de_deux(old(self)@[casier(shiny, 0)], old(self)@[casier(shiny, 1)])->0
                && s == (if old(self)@[casier(shiny, 0)][r as int] >= old(self)@[casier(shiny, 1)][r as int] { 0u8 } else { 1u8 })
                && final(self)@ == retire(old(self)@, casier(shiny, s), r as int),
            res is None ==> *final(self) == *old(self),
    {
        let mut r: usize = 4;
        while r > 0
            invariant
                r <= 4,
                *self == *old(self),
                forall|i: int| r <= i < 4 ==> self@[casier(shiny, 0)][i] + self@[casier(shiny, 1)][i] == 0,
            decreases r,
        {
            r = r - 1;
            let a = self.compte(shiny, 0, r);
            let b = self.compte(shiny, 1, r);
            if a > 0 || b > 0 {
                if a >= b {
                    self.decremente(shiny, 0, r);
                    return Some((r, 0));
                } else {
                    self.decremente(shiny, 1, r);
                    return Some((r, 1));
                }
            }
        }
        None
    }

    /// Vend jusqu'à `q` spécimens, les plus bas rangs d'abord, en prenant à
    /// chaque rang du côté le mieux fourni ; renvoie le nombre pris à chaque
    /// rang (la valeur de la vente en découle).
    pub fn take_lowest(&mut self, shiny: bool, q: u64) -> (pris: [u64; 4])
        requires
            forall|r: int| 0 <= r < 4 ==> old(self)@[casier(shiny, 0)][r] + old(self)@[casier(shiny, 1)][r] <= u64::MAX,
        ensures
            ({
                let a = old(self)@[casier(shiny, 0)];
                let b = old(self)@[casier(shiny, 1)];
                let p = prises(q as int, a, b);
                &&& forall|r: int| 0 <= r < 4 ==> pris@[r] == p[r]
                &&& final(self)@ == old(self)@.update(casier(shiny, 0), apres_prises(a, b, p).0)
                    .update(casier(shiny, 1), apres_prises(a, b, p).1)
            }),
    {
        if !shiny {
            assert forall|r: int| 0 <= r < 4 implies self.m[r] + self.f[r] <= u64::MAX by {
                assert(old(self)@[casier(shiny, 0)][r] == self.m[r]);
                assert(old(self)@[casier(shiny, 1)][r] == self.f[r]);
            }
            let (na, nb, pris) = prendre_plus_bas(self.m, self.f, q);
            self.m = na;
            self.f = nb;
            assert(self@ =~= old(self)@.update(0, na@).update(1, nb@));
            pris
        } else {
            assert forall|r: int| 0 <= r < 4 implies self.sm[r] + self.sf[r] <= u64::MAX by {
                assert(old(self)@[casier(shiny, 0)][r] == self.sm[r]);
                assert(old(self)@[casier(shiny, 1)][r] == self.sf[r]);
            }
            let (na, nb, pris) = prendre_plus_bas(self.sm, self.sf, q);
            self.sm = na;
            self.sf = nb;
            assert(self@ =~= old(self)@.update(2, na@).update(3, nb@));
            pris
        }
    }
}

fn partage_exec(a: u64, b: u64, k: u64) -> (res: (u64, u64))
    requires
        k <= a + b,
        a + b <= u64::MAX,
    ensures
        res.0 == partage(a as int, b as int, k as int).0,
        res.1 == partage(a as int, b as int, k as int).1,
{
    if a >= b && a - b >= k {
        (a - k, b)
    } else if b >= a && b - a >= k {
        (a, b - k)
    } else {
        let t = (a + b) - k;
        (t / 2, t - t / 2)
    }
}

/// Prend `q` spécimens dans une paire de casiers (mâles, femelles), les
/// plus bas rangs d'abord ; renvoie les deux casiers et la prise par rang.
fn prendre_plus_bas(a: [u64; 4], b: [u64; 4], q: u64) -> (res: ([u64; 4], [u64; 4], [u64; 4]))
    requires
        forall|r: int| 0 <= r < 4 ==> a[r] + b[r] <= u64::MAX,
    ensures
        ({
            let p = prises(q as int, a@, b@);
            &&& forall|r: int| 0 <= r < 4 ==> res.2@[r] == p[r]
            &&& res.0@ == apres_prises(a@, b@, p).0
            &&& res.1@ == apres_prises(a@, b@, p).1
        }),
{
    let ghost p = prises(q as int, a@, b@);
    let k0 = if q <= a[0] + b[0] { q } else { a[0] + b[0] };
    let reste = q - k0;
    let k1 = if reste <= a[1] + b[1] { reste } else { a[1] + b[1] };
    let reste = reste - k1;
    let k2 = if reste <= a[2] + b[2] { reste } else { a[2] + b[2] };
    let reste = reste - k2;
    let k3 = if reste <= a[3] + b[3] { reste } else { a[3] + b[3] };
    let (a0, b0) = partage_exec(a[0], b[0], k0);
    let (a1, b1) = partage_exec(a[1], b[1], k1);
    let (a2, b2) = partage_exec(a[2], b[2], k2);
    let (a3, b3) = partage_exec(a[3], b[3], k3);
    let na = [a0, a1, a2, a3];
    let nb = [b0, b1, b2, b3];
    assert(na@ =~= apres_prises(a@, b@, p).0);
    assert(nb@ =~= apres_prises(a@, b@, p).1);
    (na, nb, [k0, k1, k2, k3])
}


/// Combien on met de côté à chaque rang en gardant les `n` meilleurs
/// spécimens d'un casier (les plus hauts rangs d'abord).
pub open spec fn meilleurs(n: int, c: Seq<u64>) -> Seq<int> {
    let t3 = min(n, c[3] as int);
    let t2 = min(n - t3, c[2] as int);
    let t1 = min(n - t3 - t2, c[1] as int);
    let t0 = min(n - t3 - t2 - t1, c[0] as int);
    seq![t0, t1, t2, t3]
}

/// Un casier diminué rang par rang.
pub open spec fn moins(c: Seq<u64>, t: Seq<int>) -> Seq<u64> {
    Seq::new(4, |r: int| (c[r] - t[r]) as u64)
}

/// Un casier augmenté rang par rang.
pub open spec fn plus(c: Seq<u64>, t: Seq<int>) -> Seq<u64> {
    Seq::new(4, |r: int| (c[r] + t[r]) as u64)
}

pub open spec fn somme_int(t: Seq<int>) -> int {
    t[0] + t[1] + t[2] + t[3]
}

/// `apres` est `avant` dont on a retiré `q` spécimens normaux (les plus bas
/// rangs d'abord, prise `pris` par rang) en épargnant les `garde` meilleurs
/// mâles et les `garde` meilleures femelles ; les shinies n'ont pas bougé.
pub open spec fn retrait(avant: Reserve, apres: Reserve, garde: int, q: int, pris: Seq<u64>) -> bool {
    let gm = meilleurs(garde, avant.m@);
    let gf = meilleurs(garde, avant.f@);
    let a = moins(avant.m@, gm);
    let b = moins(avant.f@, gf);
    let p = prises(q, a, b);
    &&& forall|r: int| 0 <= r < 4 ==> pris[r] == p[r]
    &&& apres.m@ == plus(apres_prises(a, b, p).0, gm)
    &&& apres.f@ == plus(apres_prises(a, b, p).1, gf)
    &&& apres.sm == avant.sm
    &&& apres.sf == avant.sf
}

/// Ce qui reste vendable une fois mis de côté les `garde` meilleurs de
/// chaque sexe et les `besoin` spécimens dus aux commandes.
pub open spec fn surplus(avant: Reserve, garde: int, besoin: int) -> int {
    let a = moins(avant.m@, meilleurs(garde, avant.m@));
    let b = moins(avant.f@, meilleurs(garde, avant.f@));
    let t = somme(a) + somme(b);
    if t >= besoin { t - besoin } else { 0 }
}

/// Le nombre de couples épargnés par la vente : au moins un.
pub open spec fn couples_gardes(autokeep: u32) -> int {
    if autokeep >= 1 { autokeep as int } else { 1 }
}

/// Met de côté les `n` meilleurs d'un casier : renvoie le casier diminué et
/// ce qui a été mis de côté.
fn mettre_de_cote(c: [u64; 4], n: u64) -> (res: ([u64; 4], [u64; 4]))
    ensures
        forall|r: int| 0 <= r < 4 ==> res.1@[r] == meilleurs(n as int, c@)[r],
        res.0@ == moins(c@, meilleurs(n as int, c@)),
{
    let t3 = if n <= c[3] { n } else { c[3] };
    let t2 = if n - t3 <= c[2] { n - t3 } else { c[2] };
    let t1 = if n - t3 - t2 <= c[1] { n - t3 - t2 } else { c[1] };
    let t0 = if n - t3 - t2 - t1 <= c[0] { n - t3 - t2 - t1 } else { c[0] };
    let reste = [c[0] - t0, c[1] - t1, c[2] - t2, c[3] - t3];
    assert(reste@ =~= moins(c@, meilleurs(n as int, c@)));
    (reste, [t0, t1, t2, t3])
}

/// Un retrait de `k` spécimens d'un rang à `a` mâles et `b` femelles se
/// fait du côté le mieux fourni : si les mâles dépassent les femelles d'au
/// moins `k`, les femelles ne sont pas touchées (et inversement) ; sinon
/// les deux côtés finissent à un près l'un de l'autre. Retirer un de plus
/// revient à en ôter un au côté le mieux fourni (aux mâles à égalité), et
/// ne rien retirer ne change rien.
pub proof fn loi_partage_du_cote_le_mieux_fourni(a: int, b: int, k: int)
    requires
        a >= 0,
        b >= 0,
        0 <= k <= a + b,
    ensures
        partage(a, b, 0) == (a, b),
        a >= b + k ==> partage(a, b, k) == (a - k, b),
        b >= a + k ==> partage(a, b, k) == (a, b - k),
        (a < b + k && b < a + k) ==> (-1 <= partage(a, b, k).0 - partage(a, b, k).1 <= 1),
        partage(a, b, k).0 + partage(a, b, k).1 == a + b - k,
        0 <= partage(a, b, k).0 <= a,
        0 <= partage(a, b, k).1 <= b,
        k < a + b ==> partage(a, b, k + 1) == (if partage(a, b, k).0 >= partage(a, b, k).1 {
            (partage(a, b, k).0 - 1, partage(a, b, k).1)
        } else {
            (partage(a, b, k).0, partage(a, b, k).1 - 1)
        }),
{
}

/// Retirer `k` spécimens d'un rang, toujours du côté le mieux fourni, laisse
/// de chaque côté entre zéro et ce qu'il y avait, et `k` de moins en tout.
pub proof fn lemma_partage_borne(a: int, b: int, k: int)
    requires
        0 <= k <= a + b,
        a >= 0,
        b >= 0,
    ensures
        0 <= partage(a, b, k).0 <= a,
        0 <= partage(a, b, k).1 <= b,
        partage(a, b, k).0 + partage(a, b, k).1 == a + b - k,
{
}

fn remettre(c: [u64; 4], t: [u64; 4]) -> (res: [u64; 4])
    requires
        forall|r: int| 0 <= r < 4 ==> c[r] + t[r] <= u64::MAX,
    ensures
        res@ == plus(c@, t@.map_values(|x: u64| x as int)),
{
    let res = [c[0] + t[0], c[1] + t[1], c[2] + t[2], c[3] + t[3]];
    assert(res@ =~= plus(c@, t@.map_values(|x: u64| x as int)));
    res
}

impl Reserve {
    /// Retire `q` spécimens normaux (les plus bas rangs d'abord) en
    /// épargnant les `garde` meilleurs mâles et les `garde` meilleures
    /// femelles ; renvoie la prise par rang.
    pub fn retirer_en_gardant(&mut self, garde: u64, q: u64) -> (pris: [u64; 4])
        requires
            old(self).spec_tn() <= u64::MAX,
        ensures
            retrait(*old(self), *final(self), garde as int, q as int, pris@),
    {
        let (a, gm) = mettre_de_cote(self.m, garde);
        let (b, gf) = mettre_de_cote(self.f, garde);
        let ghost p = prises(q as int, a@, b@);
        let (na, nb, pris) = prendre_plus_bas(a, b, q);
        proof {
            assert forall|r: int| 0 <= r < 4 implies na[r] + gm[r] <= self.m@[r] && nb[r] + gf[r] <= self.f@[r] by {
                lemma_partage_borne(a@[r] as int, b@[r] as int, p[r]);
            }
            assert(gm@.map_values(|x: u64| x as int) =~= meilleurs(garde as int, self.m@));
            assert(gf@.map_values(|x: u64| x as int) =~= meilleurs(garde as int, self.f@));
        }
        let m = remettre(na, gm);
        let f = remettre(nb, gf);
        self.m = m;
        self.f = f;
        pris
    }

    /// Vend le surplus : tout sauf les `autokeep` meilleurs couples (un au
    /// moins) et ce que réclament les commandes en cours (`besoin`) ;
    /// renvoie (quantité vendue, prise par rang).
    pub fn sell_surplus(&mut self, besoin: u64, autokeep: u32) -> (res: (u64, [u64; 4]))
        requires
            old(self).spec_tn() <= u64::MAX,
        ensures
            res.0 == surplus(*old(self), couples_gardes(autokeep), besoin as int),
            retrait(*old(self), *final(self), couples_gardes(autokeep), res.0 as int, res.1@),
    {
        let garde: u64 = if autokeep >= 1 { autokeep as u64 } else { 1 };
        let (a, _) = mettre_de_cote(self.m, garde);
        let (b, _) = mettre_de_cote(self.f, garde);
        let t = a[0] + a[1] + a[2] + a[3] + b[0] + b[1] + b[2] + b[3];
        let q = if t >= besoin { t - besoin } else { 0 };
        let pris = self.retirer_en_gardant(garde, q);
        (q, pris)
    }

    /// Vend tout sauf le meilleur mâle et la meilleure femelle ; renvoie
    /// (quantité vendue, prise par rang).
    pub fn sell_except_pair(&mut self) -> (res: (u64, [u64; 4]))
        requires
            old(self).spec_tn() <= u64::MAX,
        ensures
            res.0 == surplus(*old(self), 1, 0),
            retrait(*old(self), *final(self), 1, res.0 as int, res.1@),
    {
        self.sell_surplus(0, 1)
    }

    /// Le stock livrable : la réserve normale moins le meilleur couple,
    /// intouchable.
    pub fn deliverable(&self) -> (n: u64)
        requires
            self.spec_tn() <= u64::MAX,
        ensures
            n == ({
                let reserve = (if somme(self.m@) > 0 { 1int } else { 0 }) + (if somme(self.f@) > 0 { 1int } else { 0 });
                if self.spec_tn() >= reserve { self.spec_tn() - reserve } else { 0 }
            }),
    {
        let reserve: u64 = (if self.tm() > 0 { 1 } else { 0 }) + (if self.tf() > 0 { 1 } else { 0 });
        let t = self.tn();
        if t >= reserve { t - reserve } else { 0 }
    }
}

/// Le seuil au-delà duquel une espèce a du surplus : les couples gardés et
/// les commandes en cours.
pub fn seuil_garde(autokeep: u32, besoin: u64) -> (n: u64)
    requires
        besoin <= u64::MAX - 2 * 0xFFFF_FFFF,
    ensures
        n == 2 * couples_gardes(autokeep) + besoin,
{
    let k: u64 = if autokeep >= 1 { autokeep as u64 } else { 1 };
    2 * k + besoin
}


/// Remettre ce qu'on vient de retirer rend la réserve intacte : une prise
/// du meilleur spécimen suivie de sa remise ne change rien.
pub proof fn loi_retrait_puis_remise(v: Seq<Seq<u64>>, k: int, r: int)
    requires
        bien_formee(v),
        0 <= k < 4,
        0 <= r < 4,
        v[k][r] > 0,
    ensures
        ajoute(retire(v, k, r), k, r) == v,
{
    assert(ajoute(retire(v, k, r), k, r)[k] =~= v[k]);
    assert(ajoute(retire(v, k, r), k, r) =~= v);
}

/// La vente épargne les couples demandés : après un retrait qui garde
/// `garde` couples, il reste à chaque rang au moins les `garde` meilleurs
/// mâles et les `garde` meilleures femelles, et pas un shiny n'est parti.
pub proof fn loi_vente_epargne_les_couples(avant: Reserve, apres: Reserve, garde: int, q: int, pris: Seq<u64>)
    requires
        retrait(avant, apres, garde, q, pris),
        garde >= 0,
        q >= 0,
    ensures
        forall|r: int| 0 <= r < 4 ==> apres.m@[r] >= meilleurs(garde, avant.m@)[r],
        forall|r: int| 0 <= r < 4 ==> apres.f@[r] >= meilleurs(garde, avant.f@)[r],
        apres.sm == avant.sm,
        apres.sf == avant.sf,
{
    let gm = meilleurs(garde, avant.m@);
    let gf = meilleurs(garde, avant.f@);
    let a = moins(avant.m@, gm);
    let b = moins(avant.f@, gf);
    let p = prises(q, a, b);
    assert forall|r: int| 0 <= r < 4 implies apres.m@[r] >= gm[r] && apres.f@[r] >= gf[r] by {
        lemma_partage_borne(a[r] as int, b[r] as int, p[r]);
    }
}

/// Un retrait ne fait disparaître que ce qu'il déclare : la réserve normale
/// perd exactement la prise, et la prise vaut `q`, ou tout le vendable si
/// `q` le dépasse.
#[verifier::spinoff_prover]
#[verifier::rlimit(60)]
pub proof fn loi_retrait_conserve(avant: Reserve, apres: Reserve, garde: int, q: int, pris: Seq<u64>)
    requires
        retrait(avant, apres, garde, q, pris),
        garde >= 0,
        q >= 0,
    ensures
        apres.spec_tn() == avant.spec_tn() - (pris[0] + pris[1] + pris[2] + pris[3]),
        pris[0] + pris[1] + pris[2] + pris[3] == min(q, avant.spec_tn()
            - somme_int(meilleurs(garde, avant.m@)) - somme_int(meilleurs(garde, avant.f@))),
{
    let gm = meilleurs(garde, avant.m@);
    let gf = meilleurs(garde, avant.f@);
    let a = moins(avant.m@, gm);
    let b = moins(avant.f@, gf);
    let p = prises(q, a, b);
    assert forall|r: int| 0 <= r < 4 implies
        apres.m@[r] + apres.f@[r] == avant.m@[r] + avant.f@[r] - p[r] by {
        lemma_partage_borne(a[r] as int, b[r] as int, p[r]);
    }
}

} // verus!
