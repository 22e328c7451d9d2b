//! Les commandes en cours : contrats du comptoir et demandes du troc. Ce
//! qu'elles réclament d'une espèce est mis de côté avant toute vente.

use vstd::prelude::*;

verus! {

/// Un contrat du comptoir : l'espèce, la quantité, la prime.
#[derive(Clone, Copy, Debug, PartialEq, Eq)]
pub struct Contrat {
    pub ci: usize,
    pub qty: u64,
    pub reward: u64,
}

/// Ce que réclament, pour l'espèce `ci`, les contrats `0..n` encore ouverts
/// (un contrat sans marque est ouvert).
pub open spec fn du_aux_contrats(ci: usize, cs: Seq<Contrat>, done: Seq<bool>, n: int) -> int
    decreases n,
{
    if n <= 0 {
        0
    } else {
        du_aux_contrats(ci, cs, done, n - 1)
            + if cs[n - 1].ci == ci && !(n - 1 < done.len() && done[n - 1]) { cs[n - 1].qty as int } else { 0 }
    }
}

/// Ce que réclament, pour l'espèce `ci`, les demandes de troc `0..n` encore
/// ouvertes (une demande sans marque compte pour faite).
pub open spec fn du_au_troc(ci: usize, trades: Seq<(usize, u64, usize)>, done: Seq<bool>, n: int) -> int
    decreases n,
{
    if n <= 0 {
        0
    } else {
        du_au_troc(ci, trades, done, n - 1)
            + if trades[n - 1].0 == ci && n - 1 < done.len() && !done[n - 1] { trades[n - 1].1 as int } else { 0 }
    }
}

proof fn lemma_contrats_croissant(ci: usize, cs: Seq<Contrat>, done: Seq<bool>, i: int, n: int)
    requires
        0 <= i <= n,
    ensures
        0 <= du_aux_contrats(ci, cs, done, i) <= du_aux_contrats(ci, cs, done, n),
    decreases n,
{
    if i < n {
        lemma_contrats_croissant(ci, cs, done, i, n - 1);
    } else if n > 0 {
        lemma_contrats_croissant(ci, cs, done, n - 1, n - 1);
    }
}

proof fn lemma_troc_croissant(ci: usize, t: Seq<(usize, u64, usize)>, done: Seq<bool>, i: int, n: int)
    requires
        0 <= i <= n,
    ensures
        0 <= du_au_troc(ci, t, done, i) <= du_au_troc(ci, t, done, n),
    decreases n,
{
    if i < n {
        lemma_troc_croissant(ci, t, done, i, n - 1);
    } else if n > 0 {
        lemma_troc_croissant(ci, t, done, n - 1, n - 1);
    }
}

/// Ce que les demandes de troc encore ouvertes réclament de l'espèce `ci`.
pub fn trade_need(ci: usize, trades: &Vec<(usize, u64, usize)>, done: &Vec<bool>) -> (n: u64)
    requires
        du_au_troc(ci, trades@, done@, trades@.len() as int) <= u64::MAX,
    ensures
        n == du_au_troc(ci, trades@, done@, trades@.len() as int),
{
    let mut n: u64 = 0;
    let mut i: usize = 0;
    while i < trades.len()
        invariant
            i <= trades.len(),
            n == du_au_troc(ci, trades@, done@, i as int),
            du_au_troc(ci, trades@, done@, trades@.len() as int) <= u64::MAX,
        decreases trades.len() - i,
    {
        proof {
            lemma_troc_croissant(ci, trades@, done@, i as int + 1, trades@.len() as int);
        }
        let (want, qty, _) = trades[i];
        let fait = if i < done.len() { done[i] } else { true };
        if want == ci && !fait {
            n = n + qty;
        }
        i = i + 1;
    }
    n
}

/// Ce qu'il faut garder de côté pour l'espèce `ci` : ce que réclament les
/// contrats encore ouverts et les demandes de troc encore ouvertes.
pub fn contract_need(
    ci: usize,
    contrats: &Vec<Contrat>,
    contrats_faits: &Vec<bool>,
    trades: &Vec<(usize, u64, usize)>,
    trades_faits: &Vec<bool>,
) -> (n: u64)
    requires
        du_aux_contrats(ci, contrats@, contrats_faits@, contrats@.len() as int)
            + du_au_troc(ci, trades@, trades_faits@, trades@.len() as int) <= u64::MAX,
    ensures
        n == du_aux_contrats(ci, contrats@, contrats_faits@, contrats@.len() as int)
            + du_au_troc(ci, trades@, trades_faits@, trades@.len() as int),
{
    proof {
        lemma_troc_croissant(ci, trades@, trades_faits@, 0, trades@.len() as int);
        lemma_contrats_croissant(ci, contrats@, contrats_faits@, 0, contrats@.len() as int);
    }
    let mut n: u64 = 0;
    let mut i: usize = 0;
    while i < contrats.len()
        invariant
            i <= contrats.len(),
            n == du_aux_contrats(ci, contrats@, contrats_faits@, i as int),
            du_aux_contrats(ci, contrats@, contrats_faits@, contrats@.len() as int)
                + du_au_troc(ci, trades@, trades_faits@, trades@.len() as int) <= u64::MAX,
            du_au_troc(ci, trades@, trades_faits@, trades@.len() as int) >= 0,
        decreases contrats.len() - i,
    {
        proof {
            lemma_contrats_croissant(ci, contrats@, contrats_faits@, i as int + 1, contrats@.len() as int);
        }
        let c = contrats[i];
        let fait = if i < contrats_faits.len() { contrats_faits[i] } else { false };
        if c.ci == ci && !fait {
            n = n + c.qty;
        }
        i = i + 1;
    }
    n + trade_need(ci, trades, trades_faits)
}

} // verus!
