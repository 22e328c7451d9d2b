//! L'écriture des montants : en chiffres groupés par trois sous dix mille
//! écus, abrégés au-delà (« 29,9 k », « 2,99 M », « 1,50 Md »), toujours
//! tronqués, si bien qu'un montant affiché ne paraît jamais plus gros qu'il
//! n'est.

use vstd::prelude::*;

verus! {

/// Le chiffre décimal `d` (0 à 9).
pub open spec fn chiffre(d: nat) -> char {
    if d == 0 { '0' } else if d == 1 { '1' } else if d == 2 { '2' } else if d == 3 { '3' }
    else if d == 4 { '4' } else if d == 5 { '5' } else if d == 6 { '6' } else if d == 7 { '7' }
    else if d == 8 { '8' } else { '9' }
}

/// L'écriture décimale de `k`.
pub open spec fn chiffres(k: nat) -> Seq<char>
    decreases k,
{
    if k < 10 { seq![chiffre(k)] } else { chiffres(k / 10).push(chiffre(k % 10)) }
}

/// Les `n` premiers chiffres de `s`, avec une espace devant chaque groupe
/// de trois compté depuis la droite.
pub open spec fn groupe(s: Seq<char>, n: int) -> Seq<char>
    decreases n,
{
    if n <= 0 {
        Seq::empty()
    } else {
        let g = groupe(s, n - 1);
        let i = n - 1;
        (if i > 0 && (s.len() - i) % 3 == 0 { g.push(' ') } else { g }).push(s[i])
    }
}

/// Ce que le texte annonce de `n` écus : `n` tronqué à la précision de son
/// abréviation (dix millions pour les milliards, dix mille pour les
/// millions, cent pour les milliers, l'écu en dessous de dix mille).
pub open spec fn annonce(n: nat) -> nat {
    if n >= 1_000_000_000 { (n / 10_000_000) * 10_000_000 }
    else if n >= 1_000_000 { (n / 10_000) * 10_000 }
    else if n >= 10_000 { (n / 100) * 100 }
    else { n }
}

/// Le texte qui écrit la somme de `n` écus.
pub open spec fn abrege(n: nat) -> Seq<char> {
    let a = annonce(n);
    if n >= 1_000_000_000 {
        let c = (a / 10_000_000) % 100;
        chiffres(a / 1_000_000_000) + seq![',', chiffre(c / 10), chiffre(c % 10), ' ', 'M', 'd']
    } else if n >= 1_000_000 {
        let c = (a / 10_000) % 100;
        chiffres(a / 1_000_000) + seq![',', chiffre(c / 10), chiffre(c % 10), ' ', 'M']
    } else if n >= 10_000 {
        let d = (a / 100) % 10;
        chiffres(a / 1000) + (if d == 0 { seq![' ', 'k'] } else { seq![',', chiffre(d), ' ', 'k'] })
    } else {
        let s = chiffres(a);
        groupe(s, s.len() as int)
    }
}

fn chiffre_exec(d: u64) -> (c: char)
    requires
        d < 10,
    ensures
        c == chiffre(d as nat),
{
    if d == 0 { '0' } else if d == 1 { '1' } else if d == 2 { '2' } else if d == 3 { '3' }
    else if d == 4 { '4' } else if d == 5 { '5' } else if d == 6 { '6' } else if d == 7 { '7' }
    else if d == 8 { '8' } else { '9' }
}

proof fn lemma_chiffres_longueur(k: nat)
    ensures
        chiffres(k).len() >= 1,
        k < 10 ==> chiffres(k).len() == 1,
        k < 100 ==> chiffres(k).len() <= 2,
        k < 1000 ==> chiffres(k).len() <= 3,
        k < 10_000 ==> chiffres(k).len() <= 4,
    decreases k,
{
    if k >= 10 {
        lemma_chiffres_longueur(k / 10);
    }
}

fn chiffres_exec(k: u64) -> (s: Vec<char>)
    ensures
        s@ == chiffres(k as nat),
    decreases k,
{
    if k < 10 {
        let v = vec![chiffre_exec(k)];
        proof {
            assert(v@ =~= chiffres(k as nat));
        }
        v
    } else {
        let mut v = chiffres_exec(k / 10);
        v.push(chiffre_exec(k % 10));
        v
    }
}

fn ajouter(v: &mut Vec<char>, s: &Vec<char>)
    ensures
        final(v)@ == old(v)@ + s@,
{
    let mut i: usize = 0;
    let ghost debut = v@;
    while i < s.len()
        invariant
            i <= s.len(),
            v@ == debut + s@.take(i as int),
        decreases s.len() - i,
    {
        v.push(s[i]);
        proof {
            assert(v@ =~= debut + s@.take(i + 1));
        }
        i = i + 1;
    }
    proof {
        assert(s@.take(s.len() as int) =~= s@);
    }
}

/// Le texte d'un montant de `n` écus.
pub fn fmt(n: u64) -> (s: Vec<char>)
    ensures
        s@ == abrege(n as nat),
{
    if n >= 1_000_000_000 {
        let a = (n / 10_000_000) * 10_000_000;
        let c = (a / 10_000_000) % 100;
        let mut s = chiffres_exec(a / 1_000_000_000);
        let fin = vec![',', chiffre_exec(c / 10), chiffre_exec(c % 10), ' ', 'M', 'd'];
        ajouter(&mut s, &fin);
        proof {
            assert(fin@ =~= seq![',', chiffre((c / 10) as nat), chiffre((c % 10) as nat), ' ', 'M', 'd']);
        }
        s
    } else if n >= 1_000_000 {
        let a = (n / 10_000) * 10_000;
        let c = (a / 10_000) % 100;
        let mut s = chiffres_exec(a / 1_000_000);
        let fin = vec![',', chiffre_exec(c / 10), chiffre_exec(c % 10), ' ', 'M'];
        ajouter(&mut s, &fin);
        proof {
            assert(fin@ =~= seq![',', chiffre((c / 10) as nat), chiffre((c % 10) as nat), ' ', 'M']);
        }
        s
    } else if n >= 10_000 {
        let a = (n / 100) * 100;
        let d = (a / 100) % 10;
        let mut s = chiffres_exec(a / 1000);
        let fin = if d == 0 { vec![' ', 'k'] } else { vec![',', chiffre_exec(d), ' ', 'k'] };
        ajouter(&mut s, &fin);
        proof {
            if d == 0 {
                assert(fin@ =~= seq![' ', 'k']);
            } else {
                assert(fin@ =~= seq![',', chiffre(d as nat), ' ', 'k']);
            }
        }
        s
    } else {
        let c = chiffres_exec(n);
        proof {
            lemma_chiffres_longueur(n as nat);
        }
        let mut s: Vec<char> = Vec::new();
        let mut i: usize = 0;
        while i < c.len()
            invariant
                i <= c.len() <= 4,
                s@ == groupe(c@, i as int),
            decreases c.len() - i,
        {
            if i > 0 && (c.len() - i) % 3 == 0 {
                s.push(' ');
            }
            s.push(c[i]);
            i = i + 1;
        }
        s
    }
}

/// Un montant abrégé ne paraît jamais plus gros qu'il n'est, et ne le
/// sous-estime pas d'un centième : le texte écrit `annonce(n)`, tronqué à
/// sa dernière décimale.
pub proof fn loi_montant_jamais_sur_annonce(n: nat)
    ensures
        annonce(n) <= n,
        n >= 10_000 ==> 100 * (n - annonce(n)) < n,
        n < 10_000 ==> annonce(n) == n,
{
}


/// La valeur d'un chiffre décimal.
pub open spec fn valeur_chiffre(c: char) -> int {
    if c == '0' { 0 } else if c == '1' { 1 } else if c == '2' { 2 } else if c == '3' { 3 }
    else if c == '4' { 4 } else if c == '5' { 5 } else if c == '6' { 6 } else if c == '7' { 7 }
    else if c == '8' { 8 } else { 9 }
}

pub open spec fn est_chiffre(c: char) -> bool {
    '0' <= c && c <= '9'
}

/// Ce qu'on a lu d'un texte : la partie entière, les décimales, leur
/// nombre, et si la virgule est passée.
pub type Lu = (int, int, int, bool);

/// Lire un signe de plus : un chiffre s'ajoute à la partie entière, ou aux
/// décimales après la virgule ; les espaces et les lettres ne comptent pas.
pub open spec fn lire_signe(l: Lu, c: char) -> Lu {
    let (e, d, k, v) = l;
    if c == ',' {
        (e, d, k, true)
    } else if est_chiffre(c) {
        if v { (e, 10 * d + valeur_chiffre(c), k + 1, v) } else { (10 * e + valeur_chiffre(c), d, k, v) }
    } else {
        l
    }
}

/// Lire les signes de `s` à la suite de `l`.
pub open spec fn lire_depuis(l: Lu, s: Seq<char>) -> Lu
    decreases s.len(),
{
    if s.len() == 0 { l } else { lire_signe(lire_depuis(l, s.drop_last()), s.last()) }
}

/// Dix puissance `k`.
pub open spec fn dix_puissance(k: int) -> int
    decreases k,
{
    if k <= 0 { 1 } else { 10 * dix_puissance(k - 1) }
}

/// Ce que vaut l'unité d'un texte selon sa fin : « Md », « M », « k », ou
/// l'écu.
pub open spec fn unite(s: Seq<char>) -> int {
    if s.len() >= 2 && s.last() == 'd' && s[s.len() - 2] == 'M' {
        1_000_000_000
    } else if s.len() >= 1 && s.last() == 'M' {
        1_000_000
    } else if s.len() >= 1 && s.last() == 'k' {
        1_000
    } else {
        1
    }
}

/// La somme qu'un lecteur tire d'un texte : les chiffres (espaces
/// ignorées, la virgule pour les décimales), fois l'unité.
pub open spec fn lecture(s: Seq<char>) -> int {
    let (e, d, k, v) = lire_depuis((0, 0, 0, false), s);
    e * unite(s) + d * unite(s) / dix_puissance(k)
}

proof fn lemma_lire_concat(l: Lu, a: Seq<char>, b: Seq<char>)
    ensures
        lire_depuis(l, a + b) == lire_depuis(lire_depuis(l, a), b),
    decreases b.len(),
{
    if b.len() == 0 {
        assert(a + b =~= a);
    } else {
        lemma_lire_concat(l, a, b.drop_last());
        assert((a + b).drop_last() =~= a + b.drop_last());
        assert((a + b).last() == b.last());
    }
}

proof fn lemma_lire_push(l: Lu, s: Seq<char>, c: char)
    ensures
        lire_depuis(l, s.push(c)) == lire_signe(lire_depuis(l, s), c),
{
    assert(s.push(c).drop_last() =~= s);
    assert(s.push(c).last() == c);
}

proof fn lemma_chiffre(d: int)
    requires
        0 <= d < 10,
    ensures
        valeur_chiffre(chiffre(d as nat)) == d,
        est_chiffre(chiffre(d as nat)),
{
}

proof fn lemma_lire_chiffres(x: nat)
    ensures
        lire_depuis((0, 0, 0, false), chiffres(x)) == (x as int, 0int, 0int, false),
        est_chiffre(chiffres(x).last()),
    decreases x,
{
    let z: Lu = (0, 0, 0, false);
    lemma_chiffre((x % 10) as int);
    if x >= 10 {
        lemma_lire_chiffres(x / 10);
        lemma_lire_push(z, chiffres(x / 10), chiffre(x % 10));
    } else {
        lemma_lire_push(z, Seq::empty(), chiffre(x));
        assert(chiffres(x) =~= Seq::<char>::empty().push(chiffre(x)));
        assert(lire_depuis(z, Seq::<char>::empty()) == z);
    }
}

proof fn lemma_lire_groupe(s: Seq<char>, n: int)
    requires
        0 <= n <= s.len(),
    ensures
        lire_depuis((0, 0, 0, false), groupe(s, n)) == lire_depuis((0, 0, 0, false), s.take(n)),
        n > 0 ==> groupe(s, n).last() == s[n - 1],
    decreases n,
{
    let z: Lu = (0, 0, 0, false);
    if n == 0 {
        assert(s.take(0) =~= Seq::<char>::empty());
    } else {
        lemma_lire_groupe(s, n - 1);
        let g = groupe(s, n - 1);
        let i = n - 1;
        let h = if i > 0 && (s.len() - i) % 3 == 0 { g.push(' ') } else { g };
        assert(groupe(s, n) == h.push(s[i]));
        lemma_lire_push(z, h, s[i]);
        lemma_lire_push(z, g, ' ');
        assert(s.take(n) =~= s.take(n - 1).push(s[i]));
        lemma_lire_push(z, s.take(n - 1), s[i]);
    }
}
proof fn lemma_puissances()
    ensures
        dix_puissance(0) == 1,
        dix_puissance(1) == 10,
        dix_puissance(2) == 100,
{
    assert(dix_puissance(0) == 1);
    assert(dix_puissance(1) == 10);
    assert(dix_puissance(2) == 100);
}

proof fn lemma_relit_grand(n: nat, md: bool)
    requires
        md ==> n >= 1_000_000_000,
        !md ==> 1_000_000 <= n < 1_000_000_000,
    ensures
        lecture(abrege(n)) == annonce(n),
{
    lemma_puissances();
    let a = annonce(n);
    let z: Lu = (0, 0, 0, false);
    let (x, c): (nat, nat) = if md {
        (a / 1_000_000_000, (a / 10_000_000) % 100)
    } else {
        (a / 1_000_000, (a / 10_000) % 100)
    };
    lemma_lire_chiffres(x);
    lemma_chiffre((c / 10) as int);
    lemma_chiffre((c % 10) as int);
    let e = Seq::<char>::empty();
    let f1 = e.push(',');
    let f2 = f1.push(chiffre(c / 10));
    let f3 = f2.push(chiffre(c % 10));
    let f4 = f3.push(' ');
    let f5 = f4.push('M');
    let l = (x as int, 0int, 0int, false);
    assert(lire_depuis(l, e) == l);
    lemma_lire_push(l, e, ',');
    lemma_lire_push(l, f1, chiffre(c / 10));
    lemma_lire_push(l, f2, chiffre(c % 10));
    lemma_lire_push(l, f3, ' ');
    lemma_lire_push(l, f4, 'M');
    lemma_lire_push(l, f5, 'd');
    assert(lire_depuis(l, f5) == (x as int, c as int, 2int, true));
    if md {
        let f = f5.push('d');
        assert(f =~= seq![',', chiffre(c / 10), chiffre(c % 10), ' ', 'M', 'd']);
        lemma_lire_concat(z, chiffres(x), f);
        assert(abrege(n) =~= chiffres(x) + f);
        let t = chiffres(x) + f;
        assert(t.last() == 'd' && t[t.len() - 2] == 'M');
        assert(a == x * 1_000_000_000 + c * 10_000_000);
    } else {
        assert(f5 =~= seq![',', chiffre(c / 10), chiffre(c % 10), ' ', 'M']);
        lemma_lire_concat(z, chiffres(x), f5);
        assert(abrege(n) =~= chiffres(x) + f5);
        let t = chiffres(x) + f5;
        assert(t.last() == 'M' && t[t.len() - 2] == ' ');
        assert(a == x * 1_000_000 + c * 10_000);
    }
}

proof fn lemma_relit_milliers(n: nat)
    requires
        10_000 <= n < 1_000_000,
    ensures
        lecture(abrege(n)) == annonce(n),
{
    lemma_puissances();
    let a = annonce(n);
    let z: Lu = (0, 0, 0, false);
    let x: nat = a / 1000;
    let d: nat = (a / 100) % 10;
    lemma_lire_chiffres(x);
    lemma_chiffre(d as int);
    let e = Seq::<char>::empty();
    let l = (x as int, 0int, 0int, false);
    assert(lire_depuis(l, e) == l);
    let f: Seq<char> = if d == 0 { seq![' ', 'k'] } else { seq![',', chiffre(d), ' ', 'k'] };
    assert(abrege(n) == chiffres(x) + f);
    if d == 0 {
        let f1 = e.push(' ');
        lemma_lire_push(l, e, ' ');
        lemma_lire_push(l, f1, 'k');
        assert(f =~= f1.push('k'));
        assert(a == x * 1000);
    } else {
        let f1 = e.push(',');
        let f2 = f1.push(chiffre(d));
        let f3 = f2.push(' ');
        lemma_lire_push(l, e, ',');
        lemma_lire_push(l, f1, chiffre(d));
        lemma_lire_push(l, f2, ' ');
        lemma_lire_push(l, f3, 'k');
        assert(f =~= f3.push('k'));
        assert(a == x * 1000 + d * 100);
    }
    lemma_lire_concat(z, chiffres(x), f);
    let t = chiffres(x) + f;
    assert(t.last() == 'k' && t[t.len() - 2] == ' ');
}

/// Le texte d'un montant se relit comme le montant annoncé : un lecteur qui
/// prend les chiffres (espaces ignorées, la virgule pour les décimales) et
/// les multiplie par l'unité écrite au bout trouve exactement `annonce(n)`,
/// jamais plus que `n`.
pub proof fn loi_montant_se_relit(n: nat)
    ensures
        lecture(abrege(n)) == annonce(n),
        lecture(abrege(n)) <= n,
{
    lemma_puissances();
    loi_montant_jamais_sur_annonce(n);
    if n >= 1_000_000_000 {
        lemma_relit_grand(n, true);
    } else if n >= 1_000_000 {
        lemma_relit_grand(n, false);
    } else if n >= 10_000 {
        lemma_relit_milliers(n);
    } else {
        let s = chiffres(n);
        lemma_lire_chiffres(n);
        lemma_chiffres_longueur(n);
        lemma_lire_groupe(s, s.len() as int);
        assert(s.take(s.len() as int) =~= s);
        assert(annonce(n) == n);
        assert(abrege(n) == groupe(s, s.len() as int));
        let t = groupe(s, s.len() as int);
        assert(t.last() == s[s.len() - 1]);
        assert(s[s.len() - 1] == s.last());
        assert(unite(t) == 1);
        assert(lire_depuis((0, 0, 0, false), t) == (n as int, 0int, 0int, false));
    }
}

} // verus!
