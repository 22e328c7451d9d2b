use affut::partie::{Partie, Pose};

#[test]
fn seuls_les_pieges_en_retard_sont_releves() {
    let mut g = Partie::neuve();
    let mut t = g.biomes[0].unwrap();
    t.pl[0] = Some(Pose { trap: 0, bait: None, next_at: 100 });
    t.pl[1] = Some(Pose { trap: 1, bait: Some(2), next_at: 500 });
    g.biomes[0] = Some(t);
    assert!(g.echeances(99).is_empty());
    assert_eq!(g.echeances(200), vec![(0, 0, 100)]);
    assert_eq!(g.echeances(500), vec![(0, 0, 100), (0, 1, 500)]);

    g.avancer(0, 0, 300);
    assert_eq!(g.biomes[0].unwrap().pl[0].unwrap().next_at, 400);
    assert_eq!(g.biomes[0].unwrap().pl[0].unwrap().trap, 0);
    assert_eq!(g.echeances(450), vec![(0, 0, 400)]);

    let avant = g;
    g.avancer(0, 2, 300);
    g.avancer(5, 0, 300);
    assert_eq!(g, avant, "sans piège, rien ne bouge");
}
