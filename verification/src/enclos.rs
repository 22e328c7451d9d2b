//! L'enclos : un couple (♂ + ♀) d'une même espèce donne une naissance après
//! un temps de couvaison. Le petit naît au meilleur rang de ses parents, et
//! parfois un rang au-dessus.

use vstd::prelude::*;
use crate::reserve::{Reserve, retire, somme};
use crate::bestiaire::Fiche;
use crate::catalogue::{RARETE_DES_ESPECES, NB_ESPECES};

verus! {

/// Durée de couvaison par rareté, en minutes.
pub const PEN_MIN: [u64; 5] = [30, 60, 150, 420, 1080];

/// Un couple installé : l'espèce, le rang du mâle, celui de la femelle, et
/// l'instant de la naissance.
#[derive(Clone, Copy, Debug, PartialEq, Eq)]
pub struct Pen {
    pub ci: usize,
    pub r1: usize,
    pub r2: usize,
    pub ready_at: u64,
}

/// Le plus bas rang présent dans un casier.
pub open spec fn plus_bas(c: Seq<u64>) -> int {
    if c[0] > 0 { 0 } else if c[1] > 0 { 1 } else if c[2] > 0 { 2 } else { 3 }
}

/// Le couple qu'on installe : au rang choisi, ou à défaut le plus bas mâle
/// et la plus basse femelle. Rien si le couple manque.
pub open spec fn parents(inv: Reserve, rang: Option<usize>) -> Option<(int, int)> {
    match rang {
        Some(r) => if r < 4 && inv.m[r as int] >= 1 && inv.f[r as int] >= 1 { Some((r as int, r as int)) } else { None },
        None => if somme(inv.m@) >= 1 && somme(inv.f@) >= 1 { Some((plus_bas(inv.m@), plus_bas(inv.f@))) } else { None },
    }
}

/// Prend en réserve le couple à installer : au rang choisi, ou les plus bas
/// rangs par défaut. Renvoie (rang du mâle, rang de la femelle), ou rien
/// (réserve intacte) si le couple manque.
pub fn choisir_parents(inv: &mut Reserve, rang: Option<usize>) -> (res: Option<(usize, usize)>)
    ensures
        match parents(*old(inv), rang) {
            Some((rm, rf)) => res == Some((rm as usize, rf as usize))
                && final(inv)@ == retire(retire(old(inv)@, 0, rm), 1, rf),
            None => res is None && *final(inv) == *old(inv),
        },
{
    match rang {
        Some(r) => {
            if r < 4 && inv.m[r] >= 1 && inv.f[r] >= 1 {
                inv.m[r] = inv.m[r] - 1;
                inv.f[r] = inv.f[r] - 1;
                proof {
                    assert(inv@ =~= retire(retire(old(inv)@, 0, r as int), 1, r as int));
                }
                Some((r, r))
            } else {
                None
            }
        },
        None => {
            let ok = (inv.m[0] > 0 || inv.m[1] > 0 || inv.m[2] > 0 || inv.m[3] > 0)
                && (inv.f[0] > 0 || inv.f[1] > 0 || inv.f[2] > 0 || inv.f[3] > 0);
            if !ok {
                return None;
            }
            let rm: usize = if inv.m[0] > 0 { 0 } else if inv.m[1] > 0 { 1 } else if inv.m[2] > 0 { 2 } else { 3 };
            let rf: usize = if inv.f[0] > 0 { 0 } else if inv.f[1] > 0 { 1 } else if inv.f[2] > 0 { 2 } else { 3 };
            inv.m[rm] = inv.m[rm] - 1;
            inv.f[rf] = inv.f[rf] - 1;
            proof {
                assert(inv@ =~= retire(retire(old(inv)@, 0, rm as int), 1, rf as int));
            }
            Some((rm, rf))
        },
    }
}

/// Installe un couple dans l'enclos `slot` (parmi les `slots_ouverts`
/// premiers, s'il est libre) : les parents quittent la réserve et la
/// naissance est prévue après la couvaison de l'espèce. Renvoie vrai si le
/// couple s'est installé.
pub fn pen_start(
    pens: &mut [Option<Pen>; 6],
    inv: &mut Reserve,
    slot: usize,
    slots_ouverts: usize,
    ci: usize,
    rang: Option<usize>,
    now: u64,
) -> (ok: bool)
    requires
        ci < NB_ESPECES,
        now <= u64::MAX - 1080 * 60_000,
    ensures
        ok == (slot < slots_ouverts && slot < 6 && old(pens)@[slot as int] is None
            && parents(*old(inv), rang) is Some),
        ok ==> ({
            let (rm, rf) = parents(*old(inv), rang)->0;
            &&& final(inv)@ == retire(retire(old(inv)@, 0, rm), 1, rf)
            &&& final(pens)@ == old(pens)@.update(slot as int, Some(Pen {
                ci,
                r1: rm as usize,
                r2: rf as usize,
                ready_at: (now + PEN_MIN@[RARETE_DES_ESPECES@[ci as int] as int] * 60_000) as u64,
            }))
        }),
        !ok ==> *final(inv) == *old(inv) && final(pens)@ == old(pens)@,
{
    if slot >= slots_ouverts || slot >= 6 || pens[slot].is_some() {
        return false;
    }
    match choisir_parents(inv, rang) {
        Some((rm, rf)) => {
            let r = RARETE_DES_ESPECES[ci];
            let duree = PEN_MIN[r as usize] * 60_000;
            pens[slot] = Some(Pen { ci, r1: rm, r2: rf, ready_at: now + duree });
            proof {
                assert(pens@ =~= old(pens)@.update(slot as int, Some(Pen { ci, r1: rm, r2: rf, ready_at: (now + PEN_MIN@[RARETE_DES_ESPECES@[ci as int] as int] * 60_000) as u64 })));
            }
            true
        },
        None => false,
    }
}

/// Le rang du petit : celui du meilleur parent, un cran au-dessus si le
/// tirage de lignée est sorti, sans dépasser S.
pub fn rang_du_petit(r1: usize, r2: usize, monte: bool) -> (r: usize)
    requires
        r1 < 4,
        r2 < 4,
    ensures
        r == (if r1 >= r2 { r1 } else { r2 }) + (if monte && (if r1 >= r2 { r1 } else { r2 }) < 3 { 1int } else { 0int }),
        r < 4,
{
    let base = if r1 >= r2 { r1 } else { r2 };
    if monte && base < 3 { base + 1 } else { base }
}

/// Ce qu'un couple de rang `rang` donnerait au mieux (un cran au-dessus),
/// et s'il ferait progresser le registre dont le record est `record`
/// (0 : espèce jamais vue, sinon rang + 1).
pub fn interet_couple(record: u8, rang: usize) -> (res: (bool, usize))
    requires
        rang < 4,
    ensures
        res.1 == rang,
        res.0 == (record == 0 || (if rang + 1 <= 3 { rang + 1 } else { 3 }) + 1 > record),
{
    let vise = if rang + 1 <= 3 { rang + 1 } else { 3 };
    (record == 0 || vise + 1 > record as usize, rang)
}

/// Le plus haut rang auquel une réserve a un couple complet.
pub open spec fn rang_du_couple(inv: Reserve) -> Option<int> {
    if inv.m[3] >= 1 && inv.f[3] >= 1 {
        Some(3)
    } else if inv.m[2] >= 1 && inv.f[2] >= 1 {
        Some(2)
    } else if inv.m[1] >= 1 && inv.f[1] >= 1 {
        Some(1)
    } else if inv.m[0] >= 1 && inv.f[0] >= 1 {
        Some(0)
    } else {
        None
    }
}

/// Le couple ferait progresser le registre.
pub open spec fn progres(record: u8, rang: int) -> bool {
    record == 0 || (if rang + 1 <= 3 { rang + 1 } else { 3 }) + 1 > record
}

/// L'intérêt d'un couple : d'abord ce qui fait progresser le registre, puis
/// le rang, puis la rareté, puis l'ordre du catalogue.
pub open spec fn avant(p1: bool, r1: int, q1: int, c1: int, p2: bool, r2: int, q2: int, c2: int) -> bool {
    (p1 && !p2)
    || (p1 == p2 && r1 > r2)
    || (p1 == p2 && r1 == r2 && q1 > q2)
    || (p1 == p2 && r1 == r2 && q1 == q2 && c1 < c2)
}

/// `ci` est le couple conseillé parmi les espèces `0..n`.
pub open spec fn meilleur_parmi(invs: Seq<Reserve>, dex: Seq<Fiche>, n: int, ci: int) -> bool {
    &&& 0 <= ci < n
    &&& rang_du_couple(invs[ci]) is Some
    &&& forall|j: int| 0 <= j < n && j != ci && (#[trigger] rang_du_couple(invs[j])) is Some ==> avant(
        progres(dex[ci].best, rang_du_couple(invs[ci])->0), rang_du_couple(invs[ci])->0, RARETE_DES_ESPECES@[ci] as int, ci,
        progres(dex[j].best, rang_du_couple(invs[j])->0), rang_du_couple(invs[j])->0, RARETE_DES_ESPECES@[j] as int, j,
    )
}

fn rang_couple(inv: &Reserve) -> (r: Option<usize>)
    ensures
        match rang_du_couple(*inv) {
            Some(x) => r == Some(x as usize),
            None => r is None,
        },
{
    if inv.m[3] >= 1 && inv.f[3] >= 1 {
        Some(3)
    } else if inv.m[2] >= 1 && inv.f[2] >= 1 {
        Some(2)
    } else if inv.m[1] >= 1 && inv.f[1] >= 1 {
        Some(1)
    } else if inv.m[0] >= 1 && inv.f[0] >= 1 {
        Some(0)
    } else {
        None
    }
}

/// Le meilleur couple disponible dans la réserve : (espèce, rang). D'abord
/// ce qui ferait progresser le registre, puis le rang, puis la rareté, et à
/// égalité la première espèce du catalogue.
pub fn meilleur_couple(invs: &[Reserve; 133], dex: &[Fiche; 133]) -> (res: Option<(usize, usize)>)
    ensures
        match res {
            Some((ci, r)) => meilleur_parmi(invs@, dex@, NB_ESPECES as int, ci as int)
                && rang_du_couple(invs@[ci as int]) == Some(r as int),
            None => forall|j: int| 0 <= j < NB_ESPECES ==> (#[trigger] rang_du_couple(invs@[j])) is None,
        },
{
    let mut best: Option<(usize, usize, bool)> = None;
    let mut ci: usize = 0;
    while ci < NB_ESPECES
        invariant
            ci <= NB_ESPECES,
            match best {
                Some((b, r, p)) => meilleur_parmi(invs@, dex@, ci as int, b as int)
                    && rang_du_couple(invs@[b as int]) == Some(r as int)
                    && p == progres(dex@[b as int].best, r as int),
                None => forall|j: int| 0 <= j < ci ==> (#[trigger] rang_du_couple(invs@[j])) is None,
            },
        decreases NB_ESPECES - ci,
    {
        match rang_couple(&invs[ci]) {
            Some(r) => {
                let (p, _) = interet_couple(dex[ci].best, r);
                let meilleur = match best {
                    None => true,
                    Some((b, rb, pb)) => {
                        (p && !pb) || (p == pb && r > rb) || (p == pb && r == rb && RARETE_DES_ESPECES[ci] > RARETE_DES_ESPECES[b])
                    },
                };
                if meilleur {
                    best = Some((ci, r, p));
                }
            },
            None => {},
        }
        ci = ci + 1;
    }
    match best {
        Some((b, r, _)) => Some((b, r)),
        None => None,
    }
}


/// La clé de tri d'une espèce au sélecteur de l'enclos : son couple fait-il
/// progresser le registre, le rang de son meilleur couple (0 sans couple),
/// sa rareté, son rang au catalogue.
pub open spec fn cle_enclos(invs: Seq<Reserve>, dex: Seq<Fiche>, ci: int) -> (bool, int, int, int) {
    match rang_du_couple(invs[ci]) {
        Some(r) => (progres(dex[ci].best, r), r, RARETE_DES_ESPECES@[ci] as int, ci),
        None => (false, 0, RARETE_DES_ESPECES@[ci] as int, ci),
    }
}

/// L'espèce `a` passe avant l'espèce `b` au sélecteur de l'enclos.
pub open spec fn devant(invs: Seq<Reserve>, dex: Seq<Fiche>, a: int, b: int) -> bool {
    let ka = cle_enclos(invs, dex, a);
    let kb = cle_enclos(invs, dex, b);
    avant(ka.0, ka.1, ka.2, ka.3, kb.0, kb.1, kb.2, kb.3)
}

/// L'espèce paraît au sélecteur de l'enclos : au moins deux spécimens
/// normaux en réserve (de quoi faire un couple, ou presque).
pub open spec fn au_selecteur(inv: Reserve) -> bool {
    inv.spec_tn() >= 2
}

fn au_selecteur_exec(inv: &Reserve) -> (b: bool)
    ensures
        b == au_selecteur(*inv),
{
    let t: u128 = inv.m[0] as u128 + inv.m[1] as u128 + inv.m[2] as u128 + inv.m[3] as u128
        + inv.f[0] as u128 + inv.f[1] as u128 + inv.f[2] as u128 + inv.f[3] as u128;
    t >= 2
}

fn devant_exec(invs: &[Reserve; 133], dex: &[Fiche; 133], a: usize, b: usize) -> (r: bool)
    requires
        a < NB_ESPECES,
        b < NB_ESPECES,
    ensures
        r == devant(invs@, dex@, a as int, b as int),
{
    let (pa, ra) = match rang_couple(&invs[a]) {
        Some(r) => interet_couple(dex[a].best, r),
        None => (false, 0),
    };
    let (pb, rb) = match rang_couple(&invs[b]) {
        Some(r) => interet_couple(dex[b].best, r),
        None => (false, 0),
    };
    let qa = RARETE_DES_ESPECES[a];
    let qb = RARETE_DES_ESPECES[b];
    (pa && !pb) || (pa == pb && ra > rb) || (pa == pb && ra == rb && qa > qb)
        || (pa == pb && ra == rb && qa == qb && a < b)
}

/// Les espèces du sélecteur de l'enclos, triées par intérêt : d'abord
/// celles dont le couple ferait progresser le registre, puis par rang du
/// meilleur couple, par rareté, et dans l'ordre du catalogue.
pub fn selecteur_enclos(invs: &[Reserve; 133], dex: &[Fiche; 133]) -> (v: Vec<usize>)
    ensures
        forall|i: int| 0 <= i < v@.len() ==> #[trigger] v@[i] < NB_ESPECES,
        forall|i: int, j: int| 0 <= i < j < v@.len() ==> devant(invs@, dex@, #[trigger] v@[i] as int, #[trigger] v@[j] as int),
        forall|c: int| 0 <= c < NB_ESPECES ==> (au_selecteur(#[trigger] invs@[c]) <==> v@.contains(c as usize)),
{
    let mut v: Vec<usize> = Vec::new();
    let mut ci: usize = 0;
    while ci < NB_ESPECES
        invariant
            ci <= NB_ESPECES,
            forall|i: int| 0 <= i < v@.len() ==> #[trigger] v@[i] < ci,
            forall|i: int, j: int| 0 <= i < j < v@.len() ==> devant(invs@, dex@, #[trigger] v@[i] as int, #[trigger] v@[j] as int),
            forall|c: int| 0 <= c < ci ==> (au_selecteur(#[trigger] invs@[c]) <==> v@.contains(c as usize)),
        decreases NB_ESPECES - ci,
    {
        if au_selecteur_exec(&invs[ci]) {
            let mut k: usize = 0;
            while k < v.len() && !devant_exec(invs, dex, ci, v[k])
                invariant
                    k <= v@.len(),
                    ci < NB_ESPECES,
                    forall|i: int| 0 <= i < v@.len() ==> #[trigger] v@[i] < ci,
                    forall|i: int| 0 <= i < k ==> !devant(invs@, dex@, ci as int, #[trigger] v@[i] as int),
                decreases v@.len() - k,
            {
                k = k + 1;
            }
            let ghost avant_v = v@;
            v.insert(k, ci);
            proof {
                assert(forall|i: int| 0 <= i < v@.len() ==> v@[i] == if i < k { avant_v[i] } else if i == k { ci } else { avant_v[i - 1] });
                assert forall|i: int, j: int| 0 <= i < j < v@.len() implies devant(invs@, dex@, #[trigger] v@[i] as int, #[trigger] v@[j] as int) by {
                    if j < k {
                        assert(devant(invs@, dex@, avant_v[i] as int, avant_v[j] as int));
                    } else if i < k && j == k {
                        assert(!devant(invs@, dex@, ci as int, avant_v[i] as int));
                    } else if i < k && j > k {
                        assert(devant(invs@, dex@, avant_v[i] as int, avant_v[j - 1] as int));
                    } else if i == k && j > k {
                        assert(devant(invs@, dex@, ci as int, avant_v[k as int] as int));
                        if j - 1 > k {
                            assert(devant(invs@, dex@, avant_v[k as int] as int, avant_v[j - 1] as int));
                        }
                    } else {
                        assert(devant(invs@, dex@, avant_v[i - 1] as int, avant_v[j - 1] as int));
                    }
                }
                assert forall|c: int| 0 <= c < ci + 1 implies (au_selecteur(#[trigger] invs@[c]) <==> v@.contains(c as usize)) by {
                    if c < ci {
                        if avant_v.contains(c as usize) {
                            let i = choose|i: int| 0 <= i < avant_v.len() && avant_v[i] == c as usize;
                            let i2 = if i < k { i } else { i + 1 };
                            assert(v@[i2] == c as usize);
                        }
                        if v@.contains(c as usize) {
                            let i = choose|i: int| 0 <= i < v@.len() && v@[i] == c as usize;
                            assert(i != k);
                            let i2 = if i < k { i } else { i - 1 };
                            assert(avant_v[i2] == c as usize);
                        }
                    } else {
                        assert(v@[k as int] == ci);
                    }
                }
            }
        } else {
            proof {
                assert forall|c: int| 0 <= c < ci + 1 implies (au_selecteur(#[trigger] invs@[c]) <==> v@.contains(c as usize)) by {
                    if c == ci {
                        if v@.contains(c as usize) {
                            let i = choose|i: int| 0 <= i < v@.len() && v@[i] == c as usize;
                        }
                    }
                }
            }
        }
        ci = ci + 1;
    }
    v
}

} // verus!
