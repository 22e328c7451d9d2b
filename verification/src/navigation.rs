//! La navigation dans un panneau : une fenêtre de `inner` lignes défile sur
//! `nb_lignes` lignes, et une sélection parcourt les entrées sélectionnables
//! (ligne, bouton). Les listes bouclent en haut et en bas.

use vstd::prelude::*;

verus! {

/// Les touches du jeu, telles que le terminal ou le navigateur les traduisent.
#[derive(Clone, Copy, PartialEq, Eq, Debug)]
pub enum GKey {
    Up,
    Down,
    Left,
    Right,
    Enter,
    Esc,
    PageUp,
    PageDown,
    Char(char),
}

/// L'état de navigation d'un panneau ouvert.
#[derive(Clone, Copy, PartialEq, Eq, Debug)]
pub struct Panneau {
    pub sel: usize,
    pub scroll: usize,
    pub inner: usize,
}

/// Ce que la touche demande au jeu, au-delà du déplacement.
#[derive(Clone, Copy, PartialEq, Eq, Debug)]
pub enum Effet {
    Rien,
    /// Fermer le panneau.
    Fermer,
    /// Déclencher l'entrée (ligne, bouton ; -1 pour la ligne elle-même).
    Activer(usize, isize),
}

/// Les familles de touches.
pub open spec fn est_bas(k: GKey) -> bool {
    k == GKey::Down || k == GKey::Char('j') || k == GKey::Char('s')
}

pub open spec fn est_haut(k: GKey) -> bool {
    k == GKey::Up || k == GKey::Char('k') || k == GKey::Char('z')
}

pub open spec fn est_droite(k: GKey) -> bool {
    k == GKey::Right || k == GKey::Char('l') || k == GKey::Char('d')
}

pub open spec fn est_gauche(k: GKey) -> bool {
    k == GKey::Left || k == GKey::Char('h') || k == GKey::Char('q') || k == GKey::Char('a')
}

pub open spec fn est_entree(k: GKey) -> bool {
    k == GKey::Enter || k == GKey::Char(' ')
}

/// Hauteur utile de la fenêtre : une ligne au moins.
pub open spec fn hauteur(p: Panneau) -> int {
    if p.inner >= 1 { p.inner as int } else { 1 }
}

/// Défilement maximal : la dernière fenêtre complète.
pub open spec fn defilement_max(p: Panneau, nb_lignes: int) -> int {
    if nb_lignes >= hauteur(p) { nb_lignes - hauteur(p) } else { 0 }
}

/// La sélection ramenée dans la liste.
pub open spec fn sel_effective(p: Panneau, n: int) -> int {
    let dernier = if n >= 1 { n - 1 } else { 0 };
    if (p.sel as int) <= dernier { p.sel as int } else { dernier }
}

/// Le défilement qui rend la ligne `r` visible, en bougeant le moins possible.
pub open spec fn cadre(scroll: int, h: int, r: int) -> int {
    if r < scroll {
        r
    } else if r >= scroll + h {
        (r - h) + 1
    } else {
        scroll
    }
}

/// La première entrée d'indice ≥ `i` dont la ligne dépasse `r0`.
pub open spec fn suivante(sels: Seq<(usize, isize)>, r0: int, i: int) -> Option<int>
    decreases sels.len() - i,
{
    if i >= sels.len() || i < 0 {
        None
    } else if sels[i].0 > r0 {
        Some(i)
    } else {
        suivante(sels, r0, i + 1)
    }
}

/// La dernière entrée d'indice < `i` dont la ligne précède `r0`.
pub open spec fn precedente(sels: Seq<(usize, isize)>, r0: int, i: int) -> Option<int>
    decreases i,
{
    if i <= 0 || i > sels.len() {
        None
    } else if sels[i - 1].0 < r0 {
        Some(i - 1)
    } else {
        precedente(sels, r0, i - 1)
    }
}

/// Le début du bloc d'entrées consécutives de la ligne `rt` qui finit en `n`.
pub open spec fn debut_du_bloc(sels: Seq<(usize, isize)>, rt: int, n: int) -> int
    decreases n,
{
    if n <= 0 || n >= sels.len() {
        n
    } else if sels[n - 1].0 == rt {
        debut_du_bloc(sels, rt, n - 1)
    } else {
        n
    }
}

/// La première entrée de la ligne `rt`.
pub open spec fn premiere_de_ligne(sels: Seq<(usize, isize)>, rt: int, i: int) -> int
    decreases sels.len() - i,
{
    if i >= sels.len() || i < 0 {
        i
    } else if sels[i].0 == rt {
        i
    } else {
        premiere_de_ligne(sels, rt, i + 1)
    }
}

fn chercher_suivante(sels: &Vec<(usize, isize)>, r0: usize, debut: usize) -> (res: Option<usize>)
    ensures
        match res {
            Some(i) => suivante(sels@, r0 as int, debut as int) == Some(i as int) && i < sels.len(),
            None => suivante(sels@, r0 as int, debut as int).is_none(),
        },
{
    let mut i = debut;
    while i < sels.len()
        invariant
            debut <= i,
            suivante(sels@, r0 as int, debut as int) == suivante(sels@, r0 as int, i as int),
        decreases sels.len() - i,
    {
        if sels[i].0 > r0 {
            return Some(i);
        }
        i = i + 1;
    }
    None
}

fn chercher_precedente(sels: &Vec<(usize, isize)>, r0: usize, fin: usize) -> (res: Option<usize>)
    requires
        fin <= sels.len(),
    ensures
        match res {
            Some(i) => precedente(sels@, r0 as int, fin as int) == Some(i as int) && i < sels.len(),
            None => precedente(sels@, r0 as int, fin as int).is_none(),
        },
{
    let mut i = fin;
    while i > 0
        invariant
            i <= fin <= sels.len(),
            precedente(sels@, r0 as int, fin as int) == precedente(sels@, r0 as int, i as int),
        decreases i,
    {
        if sels[i - 1].0 < r0 {
            return Some(i - 1);
        }
        i = i - 1;
    }
    None
}

fn chercher_debut_du_bloc(sels: &Vec<(usize, isize)>, rt: usize, n: usize) -> (d: usize)
    requires
        n < sels.len(),
    ensures
        d == debut_du_bloc(sels@, rt as int, n as int),
        d <= n,
{
    let mut i = n;
    while i > 0 && sels[i - 1].0 == rt
        invariant
            i <= n < sels.len(),
            debut_du_bloc(sels@, rt as int, n as int) == debut_du_bloc(sels@, rt as int, i as int),
        decreases i,
    {
        i = i - 1;
    }
    i
}

fn chercher_premiere_de_ligne(sels: &Vec<(usize, isize)>, rt: usize) -> (d: usize)
    ensures
        d == premiere_de_ligne(sels@, rt as int, 0),
{
    let mut i: usize = 0;
    while i < sels.len() && sels[i].0 != rt
        invariant
            i <= sels.len(),
            premiere_de_ligne(sels@, rt as int, 0) == premiere_de_ligne(sels@, rt as int, i as int),
        decreases sels.len() - i,
    {
        i = i + 1;
    }
    i
}

fn cadrer(scroll: usize, h: usize, r: usize) -> (s: usize)
    requires
        h >= 1,
    ensures
        s == cadre(scroll as int, h as int, r as int),
{
    if r < scroll {
        r
    } else if r - scroll >= h {
        (r - h) + 1
    } else {
        scroll
    }
}


pub open spec fn min(a: int, b: int) -> int {
    if a <= b { a } else { b }
}

pub open spec fn moins_borne(a: int, b: int) -> int {
    if a >= b { a - b } else { 0 }
}

/// Ce qu'une touche fait d'un panneau : nouvel état et effet demandé.
pub open spec fn spec_touche(p: Panneau, sels: Seq<(usize, isize)>, nb_lignes: int, k: GKey) -> (Panneau, Effet) {
    let n = sels.len() as int;
    let sel = sel_effective(p, n);
    let h = hauteur(p);
    let maxs = defilement_max(p, nb_lignes);
    if k == GKey::Esc {
        (p, Effet::Fermer)
    } else if k == GKey::PageDown {
        (Panneau { scroll: min(p.scroll + h, maxs) as usize, ..p }, Effet::Rien)
    } else if k == GKey::PageUp {
        (Panneau { scroll: moins_borne(p.scroll as int, h) as usize, ..p }, Effet::Rien)
    } else if est_bas(k) {
        let suiv = if sel < n { suivante(sels, sels[sel].0 as int, sel + 1) } else { None };
        if suiv is Some && sels[suiv->0].0 < p.scroll + h {
            (Panneau { sel: suiv->0 as usize, scroll: cadre(p.scroll as int, h, sels[suiv->0].0 as int) as usize, ..p }, Effet::Rien)
        } else if suiv is None && p.scroll >= maxs && n > 0 {
            (Panneau { sel: 0, scroll: 0, ..p }, Effet::Rien)
        } else {
            (Panneau { scroll: min(p.scroll + 1, maxs) as usize, ..p }, Effet::Rien)
        }
    } else if est_haut(k) {
        let prec = if sel < n { precedente(sels, sels[sel].0 as int, sel) } else { None };
        if prec is Some && sels[prec->0].0 >= p.scroll {
            let rt = sels[prec->0].0 as int;
            (Panneau { sel: debut_du_bloc(sels, rt, prec->0) as usize, scroll: cadre(p.scroll as int, h, rt) as usize, ..p }, Effet::Rien)
        } else if prec is None && p.scroll == 0 && n > 0 {
            let rt = sels[n - 1].0 as int;
            (Panneau { sel: premiere_de_ligne(sels, rt, 0) as usize, scroll: cadre(maxs, h, rt) as usize, ..p }, Effet::Rien)
        } else {
            (Panneau { scroll: moins_borne(p.scroll as int, 1) as usize, ..p }, Effet::Rien)
        }
    } else if est_droite(k) {
        if sel + 1 < n && sels[sel + 1].0 == sels[sel].0 {
            (Panneau { sel: (sel + 1) as usize, ..p }, Effet::Rien)
        } else {
            (p, Effet::Rien)
        }
    } else if est_gauche(k) {
        if sel > 0 && sel < n && sels[sel - 1].0 == sels[sel].0 {
            (Panneau { sel: (sel - 1) as usize, ..p }, Effet::Rien)
        } else {
            (p, Effet::Rien)
        }
    } else if est_entree(k) {
        if sel < n {
            (p, Effet::Activer(sels[sel].0, sels[sel].1))
        } else {
            (p, Effet::Rien)
        }
    } else {
        (p, Effet::Rien)
    }
}

/// Une touche dans un panneau ouvert : `sels` liste ses entrées
/// sélectionnables dans l'ordre, `nb_lignes` compte ses lignes.
pub fn panel_key(p: &mut Panneau, sels: &Vec<(usize, isize)>, nb_lignes: usize, code: GKey) -> (e: Effet)
    ensures
        (*final(p), e) == spec_touche(*old(p), sels@, nb_lignes as int, code),
{
    let n = sels.len();
    let dernier = if n >= 1 { n - 1 } else { 0 };
    let sel = if p.sel <= dernier { p.sel } else { dernier };
    let h = if p.inner >= 1 { p.inner } else { 1 };
    let maxs = if nb_lignes >= h { nb_lignes - h } else { 0 };
    match code {
        GKey::Esc => Effet::Fermer,
        GKey::PageDown => {
            p.scroll = if p.scroll >= maxs || maxs - p.scroll <= h { maxs } else { p.scroll + h };
            Effet::Rien
        },
        GKey::PageUp => {
            p.scroll = if p.scroll >= h { p.scroll - h } else { 0 };
            Effet::Rien
        },
        GKey::Down | GKey::Char('j') | GKey::Char('s') => {
            let suiv = if sel < n { chercher_suivante(sels, sels[sel].0, sel + 1) } else { None };
            match suiv {
                Some(i) => {
                    if sels[i].0 < p.scroll || sels[i].0 - p.scroll < h {
                        p.sel = i;
                        p.scroll = cadrer(p.scroll, h, sels[i].0);
                    } else {
                        p.scroll = if p.scroll >= maxs { maxs } else { p.scroll + 1 };
                    }
                },
                None => {
                    if p.scroll >= maxs && n > 0 {
                        p.sel = 0;
                        p.scroll = 0;
                    } else {
                        p.scroll = if p.scroll >= maxs { maxs } else { p.scroll + 1 };
                    }
                },
            }
            Effet::Rien
        },
        GKey::Up | GKey::Char('k') | GKey::Char('z') => {
            let prec = if sel < n { chercher_precedente(sels, sels[sel].0, sel) } else { None };
            match prec {
                Some(i) => {
                    if sels[i].0 >= p.scroll {
                        let rt = sels[i].0;
                        p.sel = chercher_debut_du_bloc(sels, rt, i);
                        p.scroll = cadrer(p.scroll, h, rt);
                    } else {
                        p.scroll = if p.scroll >= 1 { p.scroll - 1 } else { 0 };
                    }
                },
                None => {
                    if p.scroll == 0 && n > 0 {
                        let rt = sels[n - 1].0;
                        p.sel = chercher_premiere_de_ligne(sels, rt);
                        p.scroll = cadrer(maxs, h, rt);
                    } else {
                        p.scroll = if p.scroll >= 1 { p.scroll - 1 } else { 0 };
                    }
                },
            }
            Effet::Rien
        },
        GKey::Right | GKey::Char('l') | GKey::Char('d') => {
            if sel + 1 < n && sels[sel + 1].0 == sels[sel].0 {
                p.sel = sel + 1;
            }
            Effet::Rien
        },
        GKey::Left | GKey::Char('h') | GKey::Char('q') | GKey::Char('a') => {
            if sel > 0 && sel < n && sels[sel - 1].0 == sels[sel].0 {
                p.sel = sel - 1;
            }
            Effet::Rien
        },
        GKey::Enter | GKey::Char(' ') => {
            if sel < n {
                Effet::Activer(sels[sel].0, sels[sel].1)
            } else {
                Effet::Rien
            }
        },
        _ => Effet::Rien,
    }
}

/// La molette ou le trackpad : la fenêtre bouge de `lines` lignes, sans
/// sortir du panneau, et la sélection ne bouge pas.
pub fn panel_scroll(p: &mut Panneau, nb_lignes: usize, lines: i32)
    ensures
        final(p).sel == old(p).sel,
        final(p).inner == old(p).inner,
        final(p).scroll == (if lines < 0 {
            moins_borne(old(p).scroll as int, -lines)
        } else {
            min(old(p).scroll + lines, defilement_max(*old(p), nb_lignes as int))
        }),
{
    let h = if p.inner >= 1 { p.inner } else { 1 };
    let maxs = if nb_lignes >= h { nb_lignes - h } else { 0 };
    if lines < 0 {
        let d: u64 = (-(lines as i64)) as u64;
        p.scroll = if p.scroll as u64 >= d { p.scroll - d as usize } else { 0 };
    } else {
        let d = lines as usize;
        p.scroll = if p.scroll >= maxs || maxs - p.scroll <= d { maxs } else { p.scroll + d };
    }
}


proof fn lemma_suivante_dans(sels: Seq<(usize, isize)>, r0: int, i: int)
    ensures
        suivante(sels, r0, i) matches Some(j) ==> i <= j < sels.len() && sels[j].0 > r0,
    decreases sels.len() - i,
{
    if i >= 0 && i < sels.len() && sels[i].0 <= r0 {
        lemma_suivante_dans(sels, r0, i + 1);
    }
}

proof fn lemma_precedente_dans(sels: Seq<(usize, isize)>, r0: int, i: int)
    ensures
        precedente(sels, r0, i) matches Some(j) ==> 0 <= j < i <= sels.len() && sels[j].0 < r0,
    decreases i,
{
    if i > 0 && i <= sels.len() && sels[i - 1].0 >= r0 {
        lemma_precedente_dans(sels, r0, i - 1);
    }
}

proof fn lemma_debut_du_bloc(sels: Seq<(usize, isize)>, rt: int, n: int)
    requires
        0 <= n < sels.len(),
    ensures
        0 <= debut_du_bloc(sels, rt, n) <= n,
    decreases n,
{
    if n > 0 && sels[n - 1].0 == rt {
        lemma_debut_du_bloc(sels, rt, n - 1);
    }
}

proof fn lemma_premiere_de_ligne(sels: Seq<(usize, isize)>, rt: int, i: int, j: int)
    requires
        0 <= i <= j < sels.len(),
        sels[j].0 == rt,
    ensures
        i <= premiere_de_ligne(sels, rt, i) <= j,
        sels[premiere_de_ligne(sels, rt, i)].0 == rt,
    decreases j - i,
{
    if sels[i].0 != rt {
        lemma_premiere_de_ligne(sels, rt, i + 1, j);
    }
}

/// Les lignes des entrées d'un panneau existent toutes.
pub open spec fn entrees_valides(sels: Seq<(usize, isize)>, nb_lignes: int) -> bool {
    &&& sels.len() <= usize::MAX
    &&& forall|i: int| 0 <= i < sels.len() ==> (#[trigger] sels[i]).0 < nb_lignes
}

/// La fenêtre ne sort jamais du panneau et la sélection ne sort jamais de la
/// liste : partant d'un état où le défilement tient sous la dernière fenêtre
/// complète et la sélection désigne une entrée, toute touche y laisse le
/// panneau.
pub proof fn loi_navigation_reste_dans_le_panneau(p: Panneau, sels: Seq<(usize, isize)>, nb_lignes: int, k: GKey)
    requires
        entrees_valides(sels, nb_lignes),
        p.scroll <= defilement_max(p, nb_lignes),
        sels.len() > 0 ==> p.sel < sels.len(),
    ensures
        spec_touche(p, sels, nb_lignes, k).0.scroll <= defilement_max(p, nb_lignes),
        sels.len() > 0 ==> spec_touche(p, sels, nb_lignes, k).0.sel < sels.len(),
        spec_touche(p, sels, nb_lignes, k).0.inner == p.inner,
{
    let n = sels.len() as int;
    let sel = sel_effective(p, n);
    if sel < n {
        lemma_suivante_dans(sels, sels[sel].0 as int, sel + 1);
        lemma_precedente_dans(sels, sels[sel].0 as int, sel);
        let prec = precedente(sels, sels[sel].0 as int, sel);
        if prec is Some {
            lemma_debut_du_bloc(sels, sels[prec->0].0 as int, prec->0);
        }
    }
    if n > 0 {
        lemma_premiere_de_ligne(sels, sels[n - 1].0 as int, 0, n - 1);
    }
}

/// Les listes bouclent. Depuis la dernière entrée, la fenêtre tout en bas,
/// la flèche du bas ramène à la première entrée et en haut du panneau ;
/// depuis la première entrée, la fenêtre tout en haut, la flèche du haut
/// mène à la dernière ligne sélectionnable, et celle-ci est à l'écran.
pub proof fn loi_les_listes_bouclent(p: Panneau, sels: Seq<(usize, isize)>, nb_lignes: int)
    requires
        entrees_valides(sels, nb_lignes),
        sels.len() > 0,
    ensures
        ({
            let sel = sel_effective(p, sels.len() as int);
            suivante(sels, sels[sel].0 as int, sel + 1) is None
                && p.scroll >= defilement_max(p, nb_lignes)
                ==> spec_touche(p, sels, nb_lignes, GKey::Down).0.sel == 0
                    && spec_touche(p, sels, nb_lignes, GKey::Down).0.scroll == 0
        }),
        ({
            let sel = sel_effective(p, sels.len() as int);
            let q = spec_touche(p, sels, nb_lignes, GKey::Up).0;
            precedente(sels, sels[sel].0 as int, sel) is None && p.scroll == 0
                ==> q.sel < sels.len()
                    && sels[q.sel as int].0 == sels[sels.len() - 1].0
                    && q.scroll <= sels[sels.len() - 1].0 < q.scroll + hauteur(p)
        }),
{
    let n = sels.len() as int;
    lemma_premiere_de_ligne(sels, sels[n - 1].0 as int, 0, n - 1);
    assert(sels[n - 1].0 < nb_lignes);
    let rt = sels[n - 1].0 as int;
    let h = hauteur(p);
    let maxs = defilement_max(p, nb_lignes);
    let c = cadre(maxs, h, rt);
    assert(c <= rt < c + h);
    assert(c as usize == c);
    let sel = sel_effective(p, n);
    if precedente(sels, sels[sel].0 as int, sel) is None && p.scroll == 0 {
        assert(est_haut(GKey::Up));
        assert(!est_bas(GKey::Up));
        let q = spec_touche(p, sels, nb_lignes, GKey::Up).0;
        assert(q.scroll == c);
        assert(q.sel == premiere_de_ligne(sels, rt, 0));
    }
}

} // verus!
