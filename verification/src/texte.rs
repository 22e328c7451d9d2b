//! La mise en page du texte des panneaux : un texte se coupe en lignes mot
//! à mot, sans dépasser la largeur, sauf pour un mot qui à lui seul ne
//! tient pas.

use vstd::prelude::*;

verus! {

/// Les mots de `s`, séparés par des espaces simples (deux espaces de suite
/// laissent un mot vide entre elles).
pub open spec fn mots(s: Seq<char>) -> Seq<Seq<char>>
    decreases s.len(),
{
    if s.len() == 0 {
        seq![Seq::empty()]
    } else {
        let m = mots(s.drop_last());
        if s.last() == ' ' {
            m.push(Seq::empty())
        } else {
            m.update(m.len() - 1, m.last().push(s.last()))
        }
    }
}

/// Un mot de plus dans la ligne en cours `cur` : si elle n'est pas vide et
/// que le mot ne tient plus, elle part dans les lignes faites et le mot
/// commence la suivante ; sinon il s'y ajoute, après une espace.
pub open spec fn etape(lignes: Seq<Seq<char>>, cur: Seq<char>, mot: Seq<char>, w: int) -> (Seq<Seq<char>>, Seq<char>) {
    let (l, c) = if cur.len() > 0 && cur.len() + 1 + mot.len() > w { (lignes.push(cur), Seq::empty()) } else { (lignes, cur) };
    (l, if c.len() > 0 { c.push(' ') + mot } else { mot })
}

/// Les lignes faites et la ligne en cours après les `k` premiers mots.
pub open spec fn plier(m: Seq<Seq<char>>, k: int, w: int) -> (Seq<Seq<char>>, Seq<char>)
    decreases k,
{
    if k <= 0 {
        (Seq::empty(), Seq::empty())
    } else {
        let (l, c) = plier(m, k - 1, w);
        etape(l, c, m[k - 1], w)
    }
}

/// La largeur effective : vingt colonnes au moins.
pub open spec fn largeur(w: int) -> int {
    if w < 20 { 20 } else { w }
}

/// Les lignes du texte `s` coupé à la largeur `w`.
pub open spec fn lignes(s: Seq<char>, w: int) -> Seq<Seq<char>> {
    let m = mots(s);
    let (l, c) = plier(m, m.len() as int, largeur(w));
    if c.len() > 0 { l.push(c) } else { l }
}

proof fn lemma_mots_non_vide(s: Seq<char>)
    ensures
        mots(s).len() >= 1,
    decreases s.len(),
{
    if s.len() > 0 {
        lemma_mots_non_vide(s.drop_last());
    }
}

fn ajouter(v: &mut Vec<char>, s: &Vec<char>)
    ensures
        final(v)@ == old(v)@ + s@,
{
    let mut i: usize = 0;
    let ghost debut = v@;
    while i < s.len()
        invariant
            i <= s.len(),
            v@ == debut + s@.take(i as int),
        decreases s.len() - i,
    {
        v.push(s[i]);
        proof {
            assert(v@ =~= debut + s@.take(i + 1));
        }
        i = i + 1;
    }
    proof {
        assert(s@.take(s.len() as int) =~= s@);
    }
}

fn etape_exec(lignes: &mut Vec<Vec<char>>, cur: Vec<char>, mot: &Vec<char>, w: usize) -> (c: Vec<char>)
    requires
        cur@.len() + 1 + mot@.len() <= usize::MAX,
    ensures
        (final(lignes)@.map_values(|x: Vec<char>| x@), c@)
            == etape(old(lignes)@.map_values(|x: Vec<char>| x@), cur@, mot@, w as int),
{
    let mut c = cur;
    if c.len() > 0 && c.len() + 1 + mot.len() > w {
        lignes.push(c);
        c = Vec::new();
        proof {
            assert(lignes@.map_values(|x: Vec<char>| x@) =~= old(lignes)@.map_values(|x: Vec<char>| x@).push(cur@));
        }
    }
    if c.len() > 0 {
        c.push(' ');
    }
    ajouter(&mut c, mot);
    c
}

/// Coupe le texte `s` en lignes mot à mot, à la largeur `w` (vingt colonnes
/// au moins).
pub fn wrap_lines(s: &Vec<char>, w: usize) -> (res: Vec<Vec<char>>)
    requires
        s@.len() <= usize::MAX / 4,
    ensures
        res@.map_values(|x: Vec<char>| x@) == lignes(s@, w as int),
{
    let w = if w < 20 { 20 } else { w };
    let mut lignes_faites: Vec<Vec<char>> = Vec::new();
    let mut cur: Vec<char> = Vec::new();
    let mut mot: Vec<char> = Vec::new();
    let mut i: usize = 0;
    proof {
        assert(s@.take(0) =~= Seq::<char>::empty());
    }
    while i < s.len()
        invariant
            i <= s@.len() <= usize::MAX / 4,
            mots(s@.take(i as int)).len() >= 1,
            mot@ == mots(s@.take(i as int)).last(),
            (lignes_faites@.map_values(|x: Vec<char>| x@), cur@)
                == plier(mots(s@.take(i as int)), mots(s@.take(i as int)).len() - 1, w as int),
            cur@.len() + mot@.len() <= i,
        decreases s.len() - i,
    {
        let ghost m = mots(s@.take(i as int));
        proof {
            assert(s@.take(i + 1).drop_last() =~= s@.take(i as int));
        }
        if s[i] == ' ' {
            let c = etape_exec(&mut lignes_faites, cur, &mot, w);
            cur = c;
            mot = Vec::new();
            proof {
                let m2 = m.push(Seq::empty());
                lemma_plier_prefixe(m, m2, m.len() - 1, w as int);
                assert(m2[m.len() - 1] == m.last());
                assert(mots(s@.take(i + 1)) == m2);
            }
        } else {
            mot.push(s[i]);
            proof {
                let m2 = m.update(m.len() - 1, m.last().push(s@[i as int]));
                assert forall|k: int| 0 <= k <= m.len() - 1 implies plier(m2, k, w as int) == plier(m, k, w as int) by {
                    lemma_plier_prefixe(m, m2, k, w as int);
                }
            }
        }
        i = i + 1;
    }
    proof {
        assert(s@.take(s@.len() as int) =~= s@);
    }
    let c = etape_exec(&mut lignes_faites, cur, &mot, w);
    if c.len() > 0 {
        lignes_faites.push(c);
        proof {
            let m = mots(s@);
            assert(lignes_faites@.map_values(|x: Vec<char>| x@) =~= plier(m, m.len() as int, w as int).0.push(c@));
        }
    }
    lignes_faites
}

proof fn lemma_plier_prefixe(m1: Seq<Seq<char>>, m2: Seq<Seq<char>>, k: int, w: int)
    requires
        0 <= k <= m1.len(),
        k <= m2.len(),
        forall|i: int| 0 <= i < k ==> m1[i] == m2[i],
    ensures
        plier(m1, k, w) == plier(m2, k, w),
    decreases k,
{
    if k > 0 {
        lemma_plier_prefixe(m1, m2, k - 1, w);
    }
}

/// Une ligne ne dépasse la largeur que si elle tient en un seul mot : sans
/// espace, c'est un mot trop long pour être coupé.
pub proof fn loi_lignes_dans_la_largeur(s: Seq<char>, w: int)
    ensures
        forall|i: int| 0 <= i < lignes(s, w).len() ==>
            (#[trigger] lignes(s, w)[i]).len() <= largeur(w) || !lignes(s, w)[i].contains(' '),
{
    let m = mots(s);
    lemma_mots_sans_espace(s);
    lemma_plier_largeur(m, m.len() as int, largeur(w));
    let (l, c) = plier(m, m.len() as int, largeur(w));
    if c.len() > 0 {
        let l2 = l.push(c);
        assert forall|i: int| 0 <= i < l2.len() implies (#[trigger] l2[i]).len() <= largeur(w) || !l2[i].contains(' ') by {
            if i < l.len() {
                assert(l2[i] == l[i]);
            }
        }
    }
}

/// Un mot ne contient pas d'espace.
proof fn lemma_mots_sans_espace(s: Seq<char>)
    ensures
        forall|i: int| 0 <= i < mots(s).len() ==> !(#[trigger] mots(s)[i]).contains(' '),
    decreases s.len(),
{
    if s.len() > 0 {
        lemma_mots_sans_espace(s.drop_last());
        let m = mots(s.drop_last());
        lemma_mots_non_vide(s.drop_last());
        if s.last() != ' ' {
            let d = m.last().push(s.last());
            assert(!d.contains(' ')) by {
                if d.contains(' ') {
                    let j = choose|j: int| 0 <= j < d.len() && d[j] == ' ';
                    if j < m.last().len() {
                        assert(m.last()[j] == ' ');
                        assert(m.last().contains(' '));
                    }
                }
            }
        } else {
            assert(!Seq::<char>::empty().contains(' '));
        }
    }
}

proof fn lemma_plier_largeur(m: Seq<Seq<char>>, k: int, w: int)
    requires
        0 <= k <= m.len(),
        forall|i: int| 0 <= i < m.len() ==> !(#[trigger] m[i]).contains(' '),
    ensures
        ({
            let (l, c) = plier(m, k, w);
            &&& c.len() <= w || !c.contains(' ')
            &&& forall|i: int| 0 <= i < l.len() ==> (#[trigger] l[i]).len() <= w || !l[i].contains(' ')
        }),
    decreases k,
{
    if k > 0 {
        lemma_plier_largeur(m, k - 1, w);
        let (l, c) = plier(m, k - 1, w);
        let mot = m[k - 1];
        if c.len() > 0 && c.len() + 1 + mot.len() > w {
            let l2 = l.push(c);
            assert forall|i: int| 0 <= i < l2.len() implies (#[trigger] l2[i]).len() <= w || !l2[i].contains(' ') by {
                if i < l.len() {
                    assert(l2[i] == l[i]);
                }
            }
        }
    }
}

} // verus!
