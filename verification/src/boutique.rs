//! Le comptoir de vente de la boutique : les espèces qu'on peut vendre,
//! biome par biome dans l'ordre de progression (puis curiosités, légendes
//! et le fond du puits), chacune rangée par rareté.

use vstd::prelude::*;
use crate::catalogue::{BIOME_DES_ESPECES, RARETE_DES_ESPECES, NB_ESPECES, WILDB, biomes_par_prix, range_par_prix};
use crate::partie::Partie;
use crate::reserve::Reserve;
use crate::comptoir::liste;

verus! {

/// Il reste au moins un spécimen, shiny ou non, dans la réserve.
pub open spec fn en_reserve(r: Reserve) -> bool {
    exists|i: int| 0 <= i < 4 && (#[trigger] r.m@[i] > 0 || r.f@[i] > 0 || r.sm@[i] > 0 || r.sf@[i] > 0)
}

/// L'espèce `c`, du biome `b` et de rareté `r`, a de quoi se vendre.
pub open spec fn a_vendre(p: Partie, b: int, r: int, c: int) -> bool {
    BIOME_DES_ESPECES@[c] == b && RARETE_DES_ESPECES@[c] == r && en_reserve(p.inv@[c])
}

/// Les espèces du biome `b` à vendre, des raretés `< k`, rangées par
/// rareté puis dans l'ordre du catalogue.
pub open spec fn vente_du_biome(p: Partie, b: int, k: int) -> Seq<usize>
    decreases k,
{
    if k <= 0 {
        Seq::empty()
    } else {
        vente_du_biome(p, b, k - 1) + liste(NB_ESPECES as int, |c: int| a_vendre(p, b, k - 1, c))
    }
}

/// Les groupes de la liste de vente pour les biomes de `ordre` : chaque
/// biome qui a de quoi vendre, avec ses espèces.
pub open spec fn groupes(p: Partie, ordre: Seq<usize>) -> Seq<(usize, Seq<usize>)>
    decreases ordre.len(),
{
    if ordre.len() == 0 {
        Seq::empty()
    } else {
        let b = ordre.last();
        let l = vente_du_biome(p, b as int, 5);
        groupes(p, ordre.drop_last()) + if l.len() > 0 { seq![(b, l)] } else { Seq::empty() }
    }
}

/// L'ordre des groupes de la boutique : les biomes de la carte dans
/// l'ordre `o`, puis curiosités, légendes et fond du puits.
pub open spec fn ordre_boutique(o: Seq<usize>) -> Seq<usize> {
    o + seq![11usize, 12, 13]
}

fn en_reserve_exec(r: &Reserve) -> (b: bool)
    ensures
        b == en_reserve(*r),
{
    let mut i: usize = 0;
    while i < 4
        invariant
            i <= 4,
            forall|j: int| 0 <= j < i ==> !(#[trigger] r.m@[j] > 0 || r.f@[j] > 0 || r.sm@[j] > 0 || r.sf@[j] > 0),
        decreases 4 - i,
    {
        if r.m[i] > 0 || r.f[i] > 0 || r.sm[i] > 0 || r.sf[i] > 0 {
            return true;
        }
        i = i + 1;
    }
    false
}

impl Partie {
    fn vente_exec(&self, b: usize) -> (v: Vec<usize>)
        ensures
            v@ == vente_du_biome(*self, b as int, 5),
    {
        let mut v: Vec<usize> = Vec::new();
        let mut r: usize = 0;
        while r < 5
            invariant
                r <= 5,
                v@ == vente_du_biome(*self, b as int, r as int),
            decreases 5 - r,
        {
            let ghost debut = v@;
            let ghost f = |c: int| a_vendre(*self, b as int, r as int, c);
            let mut c: usize = 0;
            while c < NB_ESPECES
                invariant
                    c <= NB_ESPECES,
                    r < 5,
                    f == (|c: int| a_vendre(*self, b as int, r as int, c)),
                    v@ == debut + liste(c as int, f),
                decreases NB_ESPECES - c,
            {
                let garde = BIOME_DES_ESPECES[c] as usize == b && RARETE_DES_ESPECES[c] as usize == r
                    && en_reserve_exec(&self.inv[c]);
                if garde {
                    v.push(c);
                }
                proof {
                    assert(f(c as int) == garde);
                    assert(v@ =~= debut + liste(c + 1, f));
                }
                c = c + 1;
            }
            r = r + 1;
        }
        v
    }

    /// La liste de vente de la boutique : pour chaque biome qui a de quoi
    /// vendre, dans l'ordre de progression (du moins cher au plus cher),
    /// puis curiosités, légendes et fond du puits, ses espèces en réserve
    /// rangées par rareté. Une espèce y figure, et peut se vendre, si et
    /// seulement s'il lui reste un spécimen.
    pub fn ventes(&self) -> (v: Vec<(usize, Vec<usize>)>)
        ensures
            exists|o: Seq<usize>| range_par_prix(o) && #[trigger] groupes(*self, ordre_boutique(o))
                == v@.map_values(|g: (usize, Vec<usize>)| (g.0, g.1@)),
    {
        let par_prix = biomes_par_prix();
        let mut ordre = par_prix.clone();
        ordre.push(11);
        ordre.push(12);
        ordre.push(13);
        proof {
            assert(ordre@ =~= ordre_boutique(par_prix@));
        }
        let mut v: Vec<(usize, Vec<usize>)> = Vec::new();
        let mut k: usize = 0;
        while k < ordre.len()
            invariant
                k <= ordre@.len(),
                groupes(*self, ordre@.take(k as int)) == v@.map_values(|g: (usize, Vec<usize>)| (g.0, g.1@)),
            decreases ordre@.len() - k,
        {
            let b = ordre[k];
            let l = self.vente_exec(b);
            let ghost avant = v@;
            if l.len() > 0 {
                v.push((b, l));
            }
            proof {
                let t = ordre@.take(k + 1);
                assert(t.drop_last() =~= ordre@.take(k as int));
                assert(t.last() == b);
                assert(v@.map_values(|g: (usize, Vec<usize>)| (g.0, g.1@)) =~= groupes(*self, t));
            }
            k = k + 1;
        }
        proof {
            assert(ordre@.take(ordre@.len() as int) =~= ordre@);
            assert(groupes(*self, ordre_boutique(par_prix@)) == v@.map_values(|g: (usize, Vec<usize>)| (g.0, g.1@)));
        }
        v
    }
}

} // verus!
