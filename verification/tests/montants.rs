use affut::montants::fmt;

fn texte(n: u64) -> String {
    fmt(n).iter().collect()
}

/* un montant abrégé ne doit jamais paraître plus gros qu'il n'est : sinon
   le prix d'un biome semble payable alors que le déblocage refuse. */
#[test]
fn les_montants_abreges_ne_sur_annoncent_jamais() {
    for n in [2_999_500u64, 2_999_999, 3_000_000, 29_960, 999_999_999, 9_999] {
        let s = texte(n);
        let brut: String = s.chars().filter(|c| c.is_ascii_digit() || *c == ',').collect();
        let mult = if s.ends_with("Md") { 1e9 } else if s.ends_with('M') { 1e6 } else if s.ends_with('k') { 1e3 } else { 1.0 };
        let v = brut.replace(',', ".").parse::<f64>().unwrap_or(0.0) * mult;
        assert!(v <= n as f64, "{} affiché « {} », soit {} écus annoncés en trop", n, s, v - n as f64);
    }
    assert_eq!(texte(2_999_500), "2,99 M");
    assert_eq!(texte(29_960), "29,9 k");
    assert_eq!(texte(10_000), "10 k");
    assert_eq!(texte(3_000_000), "3,00 M");
}

#[test]
fn les_petits_montants_se_groupent_par_trois() {
    assert_eq!(texte(0), "0");
    assert_eq!(texte(999), "999");
    assert_eq!(texte(9_999), "9 999");
    assert_eq!(texte(1_000), "1 000");
    assert_eq!(texte(999_999_999), "999,99 M");
    assert_eq!(texte(1_500_000_000), "1,50 Md");
    assert_eq!(texte(440_000_000), "440,00 M");
    assert_eq!(texte(12_345_678_901_234), "12345,67 Md");
}
