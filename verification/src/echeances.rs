//! Les pièges qui ont une levée en retard. À chaque battement, le jeu relève
//! les emplacements dont l'échéance est passée ; chaque levée (la prise se
//! tire à part, en virgule flottante) repousse l'échéance d'un intervalle.

use vstd::prelude::*;
use crate::partie::{Partie, Terrain, Pose, NB_BIOMES, EMPLACEMENTS_MAX};

verus! {

/// L'emplacement `i` du biome `b`, s'il porte un piège dont l'échéance
/// `next_at` est passée à l'instant `now` : (biome, emplacement, échéance).
pub open spec fn echeance(p: Partie, b: int, i: int, now: u64) -> Option<(usize, usize, u64)> {
    match p.biomes@[b] {
        Some(t) => match t.pl@[i] {
            Some(x) => if x.next_at <= now { Some((b as usize, i as usize, x.next_at)) } else { None },
            None => None,
        },
        None => None,
    }
}

/// Les échéances passées parmi les `k` premiers emplacements, biome par
/// biome (quatre emplacements chacun), dans l'ordre.
pub open spec fn echeances_jusqua(p: Partie, now: u64, k: int) -> Seq<(usize, usize, u64)>
    decreases k,
{
    if k <= 0 {
        Seq::empty()
    } else {
        echeances_jusqua(p, now, k - 1) + match echeance(p, (k - 1) / 4, (k - 1) % 4, now) {
            Some(e) => seq![e],
            None => Seq::empty(),
        }
    }
}

/// La partie `c` est la partie `a` où l'échéance du piège de l'emplacement
/// `i` du biome `b` est repoussée de `itv` ; `a` elle-même s'il n'y a pas de
/// piège là.
pub open spec fn avance(a: Partie, c: Partie, b: int, i: int, itv: int) -> bool {
    match a.biomes@[b] {
        Some(t) => match t.pl@[i] {
            Some(x) => {
                &&& c.biomes@ == a.biomes@.update(b, c.biomes@[b])
                &&& c.biomes@[b] matches Some(t2) && t2.slots == t.slots && t2.hunt_at == t.hunt_at
                    && t2.pl@ == t.pl@.update(i, Some(Pose { next_at: (x.next_at + itv) as u64, ..x }))
                &&& c == (Partie { biomes: c.biomes, ..a })
            },
            None => c == a,
        },
        None => c == a,
    }
}

impl Partie {
    /// Les emplacements dont la levée est due à l'instant `now` : (biome,
    /// emplacement, échéance), biome par biome.
    pub fn echeances(&self, now: u64) -> (d: Vec<(usize, usize, u64)>)
        ensures
            d@ == echeances_jusqua(*self, now, 4 * NB_BIOMES as int),
    {
        let mut d: Vec<(usize, usize, u64)> = Vec::new();
        let mut b: usize = 0;
        while b < NB_BIOMES
            invariant
                b <= NB_BIOMES,
                d@ == echeances_jusqua(*self, now, 4 * b as int),
            decreases NB_BIOMES - b,
        {
            let mut i: usize = 0;
            while i < EMPLACEMENTS_MAX
                invariant
                    b < NB_BIOMES,
                    i <= EMPLACEMENTS_MAX,
                    d@ == echeances_jusqua(*self, now, 4 * b + i),
                decreases EMPLACEMENTS_MAX - i,
            {
                let k: Ghost<int> = Ghost(4 * b + i);
                assert((k@) / 4 == b && (k@) % 4 == i);
                match self.biomes[b] {
                    Some(t) => match t.pl[i] {
                        Some(x) => {
                            if x.next_at <= now {
                                d.push((b, i, x.next_at));
                            }
                        },
                        None => {},
                    },
                    None => {},
                }
                proof {
                    assert(d@ =~= echeances_jusqua(*self, now, k@ + 1));
                }
                i = i + 1;
            }
            b = b + 1;
        }
        d
    }

    /// Repousse de `itv` l'échéance du piège de l'emplacement `i` du biome
    /// `b`, après une levée ; rien ne change s'il n'y a pas de piège là.
    pub fn avancer(&mut self, b: usize, i: usize, itv: u64)
        requires
            b < NB_BIOMES,
            i < EMPLACEMENTS_MAX,
            old(self).biomes@[b as int] matches Some(t) ==> (t.pl@[i as int] matches Some(x)
                ==> x.next_at + itv <= u64::MAX),
        ensures
            avance(*old(self), *final(self), b as int, i as int, itv as int),
    {
        match self.biomes[b] {
            Some(t) => match t.pl[i] {
                Some(x) => {
                    let mut t2 = t;
                    t2.pl[i] = Some(Pose { next_at: x.next_at + itv, ..x });
                    self.biomes[b] = Some(t2);
                    proof {
                        assert(t2.pl@ =~= t.pl@.update(i as int, Some(Pose { next_at: (x.next_at + itv) as u64, ..x })));
                        assert(self.biomes@ =~= old(self).biomes@.update(b as int, Some(t2)));
                    }
                },
                None => {},
            },
            None => {},
        }
    }
}

} // verus!
