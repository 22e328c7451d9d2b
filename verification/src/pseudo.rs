//! Les règles d'identité du serveur de classement : les jetons qui servent
//! de secret, les pseudos admis (alphabet latin, espaces compressés, seize
//! signes au plus), la clé qui rend équivalents deux pseudos qui se lisent
//! pareil, et le délai entre deux changements de pseudo.

use vstd::prelude::*;

verus! {

/// Un chiffre ou une lettre ASCII.
pub open spec fn ascii_alnum(c: char) -> bool {
    ('0' <= c && c <= '9') || ('a' <= c && c <= 'z') || ('A' <= c && c <= 'Z')
}

fn est_ascii_alnum(c: char) -> (b: bool)
    ensures
        b == ascii_alnum(c),
{
    ('0' <= c && c <= '9') || ('a' <= c && c <= 'z') || ('A' <= c && c <= 'Z')
}

/// Un signe permis dans un jeton : chiffre, lettre ASCII ou tiret.
pub open spec fn signe_de_jeton(c: char) -> bool {
    ascii_alnum(c) || c == '-'
}

/// Un jeton valide : 16 à 64 signes permis.
pub open spec fn jeton_valide(t: Seq<char>) -> bool {
    16 <= t.len() <= 64 && forall|i: int| 0 <= i < t.len() ==> signe_de_jeton(#[trigger] t[i])
}

/// Le jeton est valide.
pub fn valid_token(t: &Vec<char>) -> (b: bool)
    ensures
        b == jeton_valide(t@),
{
    if t.len() < 16 || t.len() > 64 {
        return false;
    }
    let mut i: usize = 0;
    while i < t.len()
        invariant
            i <= t.len(),
            forall|j: int| 0 <= j < i ==> signe_de_jeton(#[trigger] t@[j]),
        decreases t.len() - i,
    {
        if !(est_ascii_alnum(t[i]) || t[i] == '-') {
            return false;
        }
        i = i + 1;
    }
    true
}

/// La position du premier `?`, ou la longueur s'il n'y en a pas.
pub open spec fn premier_point_d_interrogation(s: Seq<char>) -> int
    decreases s.len(),
{
    if s.len() == 0 {
        0
    } else if s[0] == '?' {
        0
    } else {
        1 + premier_point_d_interrogation(s.drop_first())
    }
}

/// Ce qui suit `prefix` dans `url`, jusqu'au premier `?` : le jeton, s'il
/// est valide.
pub open spec fn jeton_apres(url: Seq<char>, prefix: Seq<char>) -> Option<Seq<char>> {
    if prefix.is_prefix_of(url) {
        let reste = url.skip(prefix.len() as int);
        let t = reste.take(premier_point_d_interrogation(reste));
        if jeton_valide(t) { Some(t) } else { None }
    } else {
        None
    }
}

proof fn lemma_premier_point(s: Seq<char>, i: int)
    requires
        0 <= i <= s.len(),
        forall|j: int| 0 <= j < i ==> s[j] != '?',
    ensures
        premier_point_d_interrogation(s) >= i,
        premier_point_d_interrogation(s) <= s.len(),
        i < s.len() && s[i] == '?' ==> premier_point_d_interrogation(s) == i,
        i == s.len() ==> premier_point_d_interrogation(s) == s.len(),
    decreases s.len(),
{
    if s.len() > 0 && i > 0 {
        lemma_premier_point(s.drop_first(), i - 1);
    } else if s.len() > 0 {
        lemma_premier_point(s.drop_first(), 0);
    }
}

/// Le jeton qui suit `prefix` dans `url` (jusqu'au premier `?`), s'il est
/// valide.
pub fn token_after(url: &Vec<char>, prefix: &Vec<char>) -> (res: Option<Vec<char>>)
    ensures
        match jeton_apres(url@, prefix@) {
            Some(t) => res matches Some(r) && r@ == t,
            None => res is None,
        },
{
    if prefix.len() > url.len() {
        return None;
    }
    let mut i: usize = 0;
    while i < prefix.len()
        invariant
            i <= prefix.len() <= url.len(),
            forall|j: int| 0 <= j < i ==> url@[j] == prefix@[j],
        decreases prefix.len() - i,
    {
        if url[i] != prefix[i] {
            proof {
                assert(!prefix@.is_prefix_of(url@));
            }
            return None;
        }
        i = i + 1;
    }
    proof {
        assert(prefix@.is_prefix_of(url@));
    }
    let ghost reste = url@.skip(prefix@.len() as int);
    let mut t: Vec<char> = Vec::new();
    let mut k: usize = prefix.len();
    while k < url.len() && url[k] != '?'
        invariant
            prefix.len() <= k <= url.len(),
            reste == url@.skip(prefix@.len() as int),
            t@ == reste.take(k - prefix.len()),
            forall|j: int| 0 <= j < k - prefix.len() ==> reste[j] != '?',
        decreases url.len() - k,
    {
        t.push(url[k]);
        proof {
            assert(t@ =~= reste.take(k + 1 - prefix.len()));
        }
        k = k + 1;
    }
    proof {
        lemma_premier_point(reste, k - prefix.len());
    }
    if valid_token(&t) { Some(t) } else { None }
}

/// Un signe permis dans un pseudo : l'alphabet latin (ASCII et lettres
/// accentuées, sans × ni ÷), les chiffres, le tiret, le souligné et
/// l'espace. Le cyrillique et le grec sont refusés pour leurs homoglyphes.
pub open spec fn latin(c: char) -> bool {
    ascii_alnum(c)
    || ('\u{00C0}' <= c && c <= '\u{024F}' && c != '\u{00D7}' && c != '\u{00F7}')
    || c == '-' || c == '_' || c == ' '
}

/// Le signe est permis dans un pseudo.
pub fn latin_ok(c: char) -> (b: bool)
    ensures
        b == latin(c),
{
    est_ascii_alnum(c)
    || ('\u{00C0}' <= c && c <= '\u{024F}' && c != '\u{00D7}' && c != '\u{00F7}')
    || c == '-' || c == '_' || c == ' '
}

/// Les signes qui portent la propriété Unicode White_Space, ceux que
/// reconnaît `char::is_whitespace` : les contrôles U+0009 à U+000D,
/// l'espace, U+0085, l'espace insécable, U+1680, les espaces U+2000 à
/// U+200A, les séparateurs de ligne et de paragraphe, U+202F, U+205F et
/// l'espace idéographique.
pub open spec fn blanc(c: char) -> bool {
    ('\u{0009}' <= c && c <= '\u{000D}') || c == ' ' || c == '\u{0085}' || c == '\u{00A0}'
        || c == '\u{1680}' || ('\u{2000}' <= c && c <= '\u{200A}') || c == '\u{2028}'
        || c == '\u{2029}' || c == '\u{202F}' || c == '\u{205F}' || c == '\u{3000}'
}

/// Le signe est blanc au sens d'Unicode.
fn est_blanc(c: char) -> (b: bool)
    ensures
        b == blanc(c),
        c == ' ' ==> b,
        '!' <= c && c <= '~' ==> !b,
        '\u{00C0}' <= c && c <= '\u{024F}' ==> !b,
{
    ('\u{0009}' <= c && c <= '\u{000D}') || c == ' ' || c == '\u{0085}' || c == '\u{00A0}'
        || c == '\u{1680}' || ('\u{2000}' <= c && c <= '\u{200A}') || c == '\u{2028}'
        || c == '\u{2029}' || c == '\u{202F}' || c == '\u{205F}' || c == '\u{3000}'
}

/// Le résultat de `char::is_alphanumeric` : lettre ou chiffre au sens
/// d'Unicode.
pub uninterp spec fn alphanumerique(c: char) -> bool;

/// `char::is_alphanumeric`, qui dit si le signe est une lettre ou un
/// chiffre au sens d'Unicode. Le contrat le nomme `alphanumerique`, et
/// n'en dit que ce que la table Unicode montre : les chiffres et lettres
/// ASCII le sont, l'espace, le tiret et le souligné ne le sont pas.
#[verifier::external_body]
fn est_alphanumerique(c: char) -> (b: bool)
    ensures
        b == alphanumerique(c),
        ascii_alnum(c) ==> b,
        c == ' ' || c == '-' || c == '_' ==> !b,
{
    c.is_alphanumeric()
}

/// Les mots de `s[..n]` (suites de signes non blancs), joints par une seule
/// espace ; et s'il faut une espace avant le prochain mot.
pub open spec fn joint(s: Seq<char>, n: int) -> (Seq<char>, bool)
    decreases n,
{
    if n <= 0 {
        (Seq::empty(), false)
    } else {
        let (out, attente) = joint(s, n - 1);
        let c = s[n - 1];
        if c == ' ' || blanc(c) {
            (out, out.len() > 0)
        } else if attente {
            (out.push(' ').push(c), false)
        } else {
            (out.push(c), false)
        }
    }
}

/// Les mots de `s`, joints par une seule espace : les espaces du début et
/// de la fin tombent, celles du milieu se compressent.
pub open spec fn compresse(s: Seq<char>) -> Seq<char> {
    joint(s, s.len() as int).0
}

/// Le pseudo que donne la saisie `raw` : ses mots joints par une espace,
/// coupés à seize signes ; admis s'il compte au moins deux signes, tous
/// latins, dont au moins une lettre ou un chiffre.
pub open spec fn pseudo_propre(raw: Seq<char>) -> Option<Seq<char>> {
    let p = seize_premiers(compresse(raw));
    if admis(p) { Some(p) } else { None }
}

/// Les seize premiers signes.
pub open spec fn seize_premiers(c: Seq<char>) -> Seq<char> {
    if c.len() <= 16 { c } else { c.take(16) }
}

/// Un pseudo admis : deux signes au moins, tous latins, dont une lettre ou
/// un chiffre.
pub open spec fn admis(p: Seq<char>) -> bool {
    &&& p.len() >= 2
    &&& forall|i: int| 0 <= i < p.len() ==> latin(#[trigger] p[i])
    &&& exists|i: int| 0 <= i < p.len() && alphanumerique(#[trigger] p[i])
}

proof fn lemma_joint_longueur(s: Seq<char>, n: int)
    requires
        0 <= n <= s.len(),
    ensures
        joint(s, n).0.len() <= 2 * n,
        joint(s, n).1 ==> joint(s, n).0.len() > 0,
    decreases n,
{
    if n > 0 {
        lemma_joint_longueur(s, n - 1);
    }
}

/// Nettoie la saisie d'un pseudo ; rien si elle n'est pas admise.
pub fn clean_pseudo(raw: &Vec<char>) -> (res: Option<Vec<char>>)
    requires
        raw.len() <= usize::MAX / 2,
    ensures
        match pseudo_propre(raw@) {
            Some(p) => res matches Some(r) && r@ == p,
            None => res is None,
        },
{
    let mut out: Vec<char> = Vec::new();
    let mut attente = false;
    let mut i: usize = 0;
    while i < raw.len()
        invariant
            i <= raw.len() <= usize::MAX / 2,
            (out@, attente) == joint(raw@, i as int),
        decreases raw.len() - i,
    {
        proof {
            lemma_joint_longueur(raw@, i as int);
        }
        let c = raw[i];
        if c == ' ' || est_blanc(c) {
            attente = out.len() > 0;
        } else {
            if attente {
                out.push(' ');
            }
            out.push(c);
            attente = false;
        }
        i = i + 1;
    }
    let ghost c = out@;
    let n = if out.len() <= 16 { out.len() } else { 16 };
    let mut p: Vec<char> = Vec::new();
    let mut latins = true;
    let mut lettre = false;
    let mut k: usize = 0;
    while k < n
        invariant
            k <= n <= out.len(),
            n == (if out.len() <= 16 { out.len() } else { 16 }),
            c == out@,
            p@ == c.take(k as int),
            latins == forall|j: int| 0 <= j < k ==> latin(#[trigger] p@[j]),
            lettre == exists|j: int| 0 <= j < k && alphanumerique(#[trigger] p@[j]),
        decreases n - k,
    {
        let x = out[k];
        let ghost avant = p@;
        p.push(x);
        proof {
            assert(p@ =~= c.take(k + 1));
            assert(forall|j: int| 0 <= j < k ==> p@[j] == avant[j]);
            assert(p@[k as int] == x);
        }
        if !latin_ok(x) {
            latins = false;
        }
        if est_alphanumerique(x) {
            lettre = true;
        }
        k = k + 1;
    }
    proof {
        assert(p@ =~= seize_premiers(c));
    }
    if p.len() >= 2 && latins && lettre { Some(p) } else { None }
}

/// Le résultat de `str::to_lowercase` : la minuscule Unicode de chaque
/// signe, selon le contexte pour le sigma final.
pub uninterp spec fn minuscules(s: Seq<char>) -> Seq<char>;

/// La minuscule ASCII d'un signe : `A` à `Z` descendent de 32, le reste
/// ne bouge pas.
pub open spec fn minuscule_ascii(c: char) -> char {
    if 'A' <= c && c <= 'Z' { ((c as u32) + 32) as char } else { c }
}

/// `str::to_lowercase`, appliqué à la chaîne que forment ces signes. Le
/// contrat nomme son résultat `minuscules`, et en dit ce que la table
/// Unicode montre des chaînes ASCII : chaque signe y prend sa minuscule
/// ASCII, un à un. Le reste de la table ne tient pas en quelques lignes.
#[verifier::external_body]
fn en_minuscules(s: &Vec<char>) -> (r: Vec<char>)
    ensures
        r@ == minuscules(s@),
        (forall|i: int| 0 <= i < s@.len() ==> (#[trigger] s@[i] as u32) < 128)
            ==> r@ == s@.map_values(|c: char| minuscule_ascii(c)),
{
    s.iter().collect::<String>().to_lowercase().chars().collect()
}

/// Ce que devient un signe dans la clé de comparaison : les voyelles et
/// consonnes accentuées perdent leur accent, les ligatures se déplient, les
/// séparateurs disparaissent.
pub open spec fn repli(c: char) -> Seq<char> {
    if c == 'à' || c == 'á' || c == 'â' || c == 'ã' || c == 'ä' || c == 'å' { seq!['a'] }
    else if c == 'ç' { seq!['c'] }
    else if c == 'è' || c == 'é' || c == 'ê' || c == 'ë' { seq!['e'] }
    else if c == 'ì' || c == 'í' || c == 'î' || c == 'ï' { seq!['i'] }
    else if c == 'ñ' { seq!['n'] }
    else if c == 'ò' || c == 'ó' || c == 'ô' || c == 'õ' || c == 'ö' || c == 'ø' { seq!['o'] }
    else if c == 'ù' || c == 'ú' || c == 'û' || c == 'ü' { seq!['u'] }
    else if c == 'ý' || c == 'ÿ' { seq!['y'] }
    else if c == 'æ' { seq!['a', 'e'] }
    else if c == 'œ' { seq!['o', 'e'] }
    else if c == 'ß' { seq!['s', 's'] }
    else if c == ' ' || c == '-' || c == '_' { seq![] }
    else { seq![c] }
}

/// Le repli des `n` premiers signes de `s`, mis bout à bout.
pub open spec fn replie(s: Seq<char>, n: int) -> Seq<char>
    decreases n,
{
    if n <= 0 { Seq::empty() } else { replie(s, n - 1) + repli(s[n - 1]) }
}

/// La clé de comparaison d'un pseudo : ses minuscules, repliées.
pub open spec fn cle(p: Seq<char>) -> Seq<char> {
    let m = minuscules(p);
    replie(m, m.len() as int)
}

proof fn lemma_replie_longueur(s: Seq<char>, n: int)
    requires
        0 <= n,
    ensures
        replie(s, n).len() <= 2 * n,
    decreases n,
{
    if n > 0 {
        lemma_replie_longueur(s, n - 1);
    }
}

fn repli_exec(c: char) -> (r: Vec<char>)
    ensures
        r@ == repli(c),
{
    let v: Vec<char> = if c == 'à' || c == 'á' || c == 'â' || c == 'ã' || c == 'ä' || c == 'å' { vec!['a'] }
    else if c == 'ç' { vec!['c'] }
    else if c == 'è' || c == 'é' || c == 'ê' || c == 'ë' { vec!['e'] }
    else if c == 'ì' || c == 'í' || c == 'î' || c == 'ï' { vec!['i'] }
    else if c == 'ñ' { vec!['n'] }
    else if c == 'ò' || c == 'ó' || c == 'ô' || c == 'õ' || c == 'ö' || c == 'ø' { vec!['o'] }
    else if c == 'ù' || c == 'ú' || c == 'û' || c == 'ü' { vec!['u'] }
    else if c == 'ý' || c == 'ÿ' { vec!['y'] }
    else if c == 'æ' { vec!['a', 'e'] }
    else if c == 'œ' { vec!['o', 'e'] }
    else if c == 'ß' { vec!['s', 's'] }
    else if c == ' ' || c == '-' || c == '_' { vec![] }
    else { vec![c] };
    proof {
        assert(v@ =~= repli(c));
    }
    v
}

/// La clé de comparaison d'un pseudo : deux pseudos qui se lisent pareil
/// (casse, accents, séparateurs) ont la même.
pub fn norm_key(p: &Vec<char>) -> (k: Vec<char>)
    ensures
        k@ == cle(p@),
{
    let m = en_minuscules(p);
    cle_de_minuscules(&m)
}

/// La clé de comparaison tirée d'un pseudo déjà mis en minuscules : chaque
/// signe replié, bout à bout.
pub fn cle_de_minuscules(m: &Vec<char>) -> (k: Vec<char>)
    ensures
        k@ == replie(m@, m@.len() as int),
{
    let mut k: Vec<char> = Vec::new();
    let mut i: usize = 0;
    while i < m.len()
        invariant
            i <= m.len(),
            k@ == replie(m@, i as int),
        decreases m.len() - i,
    {
        let r = repli_exec(m[i]);
        let mut j: usize = 0;
        let ghost debut = k@;
        while j < r.len()
            invariant
                j <= r.len(),
                k@ == debut + r@.take(j as int),
            decreases r.len() - j,
        {
            k.push(r[j]);
            proof {
                assert(k@ =~= debut + r@.take(j + 1));
            }
            j = j + 1;
        }
        proof {
            assert(r@.take(r.len() as int) =~= r@);
        }
        i = i + 1;
    }
    k
}

/// Une semaine, en millisecondes : le délai entre deux changements de pseudo.
pub const SEMAINE_MS: u64 = 604_800_000;
/// Dix minutes de grâce après un choix, pour corriger une faute de frappe.
pub const GRACE_MS: u64 = 600_000;

/// La réponse à une demande de pseudo.
#[derive(Clone, Copy, Debug, PartialEq, Eq)]
pub enum Renommage {
    /// Changement refusé : il faut encore attendre ce nombre de jours, ou
    /// d'heures (arrondis au-dessus, une heure au moins).
    Refuse { jours: u64, heures: u64 },
    /// Pseudo accepté : l'ancre du délai et s'il s'agit d'un changement.
    Accepte { pseudo_at: u64, change: bool },
}

/// Un quotient arrondi au-dessus.
pub open spec fn plafond_div(a: int, d: int) -> int {
    (a + d - 1) / d
}

/// La décision, pour un joueur dont l'ancien pseudo est `vide` ou non, qui
/// en change (`change`) à l'instant `now`, son dernier choix datant de `at`.
pub open spec fn decision(vide: bool, change: bool, now: int, at: int) -> Renommage {
    let en_grace = change && now - at < GRACE_MS;
    let reste = SEMAINE_MS - (now - at);
    if change && !en_grace && reste > 0 {
        let h = plafond_div(reste, 3_600_000);
        Renommage::Refuse { jours: plafond_div(reste, 86_400_000) as u64, heures: (if h < 1 { 1 } else { h }) as u64 }
    } else {
        Renommage::Accepte { pseudo_at: (if vide || (change && !en_grace) { now } else { at }) as u64, change }
    }
}

fn memes(a: &Vec<char>, b: &Vec<char>) -> (r: bool)
    ensures
        r == (a@ == b@),
{
    if a.len() != b.len() {
        return false;
    }
    let mut i: usize = 0;
    while i < a.len()
        invariant
            i <= a.len() == b.len(),
            forall|j: int| 0 <= j < i ==> a@[j] == b@[j],
        decreases a.len() - i,
    {
        if a[i] != b[i] {
            return false;
        }
        i = i + 1;
    }
    proof {
        assert(a@ =~= b@);
    }
    true
}

/// Juge une demande de pseudo : un changement (l'ancien pseudo, non vide,
/// n'a pas la même clé que le nouveau) est refusé moins d'une semaine après
/// le dernier choix, sauf dans les dix minutes de grâce qui le suivent.
pub fn renommage(ancien: &Vec<char>, pseudo: &Vec<char>, now: u64, pseudo_at: u64) -> (r: Renommage)
    ensures
        r == decision(ancien@.len() == 0, ancien@.len() > 0 && cle(ancien@) != cle(pseudo@), now as int, pseudo_at as int),
{
    let vide = ancien.len() == 0;
    let change = !vide && !memes(&norm_key(ancien), &norm_key(pseudo));
    let ecart: i128 = now as i128 - pseudo_at as i128;
    let en_grace = change && ecart < GRACE_MS as i128;
    let reste: i128 = SEMAINE_MS as i128 - ecart;
    if change && !en_grace && reste > 0 {
        let jours = ((reste + 86_400_000 - 1) / 86_400_000) as u64;
        let h = (reste + 3_600_000 - 1) / 3_600_000;
        let heures = if h < 1 { 1 } else { h as u64 };
        Renommage::Refuse { jours, heures }
    } else {
        Renommage::Accepte { pseudo_at: if vide || (change && !en_grace) { now } else { pseudo_at }, change }
    }
}

/// Un changement de pseudo par semaine : après un changement accepté hors
/// grâce à l'instant `t`, tout autre changement demandé entre la fin de la
/// grâce et la fin de la semaine est refusé.
pub proof fn loi_un_changement_par_semaine(vide: bool, t: int, at: int, plus_tard: int)
    requires
        decision(vide, true, t, at) == (Renommage::Accepte { pseudo_at: t as u64, change: true }),
        0 <= t <= u64::MAX,
        t + GRACE_MS <= plus_tard < t + SEMAINE_MS,
    ensures
        decision(false, true, plus_tard, t) is Refuse,
{
}

/// Une chaîne déjà compressée : ses espaces sont simples et entre deux
/// mots, et ses autres signes ne sont pas blancs.
pub open spec fn compressee(s: Seq<char>) -> bool {
    &&& forall|i: int| 0 <= i < s.len() && s[i] != ' ' ==> !blanc(#[trigger] s[i])
    &&& s.len() > 0 ==> s[0] != ' '
    &&& forall|i: int| 0 <= i < s.len() - 1 && #[trigger] s[i] == ' ' ==> s[i + 1] != ' '
}

proof fn lemma_joint_compresse(s: Seq<char>, n: int)
    requires
        0 <= n <= s.len(),
    ensures
        compressee(joint(s, n).0),
        joint(s, n).0.len() > 0 ==> joint(s, n).0.last() != ' ',
        joint(s, n).1 ==> joint(s, n).0.len() > 0,
    decreases n,
{
    if n > 0 {
        lemma_joint_compresse(s, n - 1);
        let (out, attente) = joint(s, n - 1);
        let c = s[n - 1];
        if !(c == ' ' || blanc(c)) {
            if attente {
                let o = out.push(' ').push(c);
                assert(' ' != c);
                assert forall|i: int| 0 <= i < o.len() && o[i] != ' ' implies !blanc(#[trigger] o[i]) by {
                    if i < out.len() {
                        assert(o[i] == out[i]);
                    }
                }
                assert forall|i: int| 0 <= i < o.len() - 1 && #[trigger] o[i] == ' ' implies o[i + 1] != ' ' by {
                    if i < out.len() - 1 {
                        assert(o[i] == out[i] && o[i + 1] == out[i + 1]);
                    } else if i == out.len() - 1 {
                        assert(o[i] == out.last());
                    }
                }
            } else {
                let o = out.push(c);
                assert forall|i: int| 0 <= i < o.len() && o[i] != ' ' implies !blanc(#[trigger] o[i]) by {
                    if i < out.len() {
                        assert(o[i] == out[i]);
                    }
                }
                assert forall|i: int| 0 <= i < o.len() - 1 && #[trigger] o[i] == ' ' implies o[i + 1] != ' ' by {
                    assert(o[i] == out[i]);
                    if i < out.len() - 1 {
                        assert(o[i + 1] == out[i + 1]);
                    }
                }
            }
        }
    }
}

proof fn lemma_joint_identite(s: Seq<char>, n: int)
    requires
        compressee(s),
        0 <= n <= s.len(),
    ensures
        n > 0 && s[n - 1] == ' ' ==> joint(s, n) == (s.take(n - 1), true),
        !(n > 0 && s[n - 1] == ' ') ==> joint(s, n) == (s.take(n), false),
    decreases n,
{
    if n > 0 {
        lemma_joint_identite(s, n - 1);
        let c = s[n - 1];
        if c == ' ' {
            assert(n - 1 > 0);
            assert(s[n - 2] != ' ');
            assert(joint(s, n - 1) == (s.take(n - 1), false));
        } else {
            assert(!blanc(c));
            if n > 1 && s[n - 2] == ' ' {
                assert(s.take(n - 2).push(' ').push(c) =~= s.take(n));
            } else {
                assert(s.take(n - 1).push(c) =~= s.take(n));
            }
        }
    } else {
        assert(s.take(0) =~= Seq::<char>::empty());
    }
}

/// Un pseudo nettoyé se nettoie en lui-même, tant qu'il ne finit pas par
/// une espace (la coupe à seize signes peut en laisser une).
pub proof fn loi_pseudo_propre_stable(raw: Seq<char>, p: Seq<char>)
    requires
        pseudo_propre(raw) == Some(p),
        p.last() != ' ',
    ensures
        pseudo_propre(p) == Some(p),
{
    let c = compresse(raw);
    lemma_joint_compresse(raw, raw.len() as int);
    assert(p == seize_premiers(c));
    assert(compressee(p)) by {
        assert forall|i: int| 0 <= i < p.len() && p[i] != ' ' implies !blanc(#[trigger] p[i]) by {
            assert(p[i] == c[i]);
        }
        assert forall|i: int| 0 <= i < p.len() - 1 && #[trigger] p[i] == ' ' implies p[i + 1] != ' ' by {
            assert(p[i] == c[i] && p[i + 1] == c[i + 1]);
        }
        if p.len() > 0 {
            assert(p[0] == c[0]);
        }
    }
    lemma_joint_identite(p, p.len() as int);
    assert(p.take(p.len() as int) =~= p);
}

} // verus!
