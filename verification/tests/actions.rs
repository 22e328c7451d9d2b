use affut::actions::Action;
use affut::partie::Partie;

#[test]
fn une_action_reussie_paie_aussitot_ses_succes() {
    let mut g0 = Partie::neuve();
    g0.ecus = 3000;
    let mut g = g0;
    assert!(g.agir(Action::Debloquer(1)));
    assert!(g.biomes[1].is_some());
    let mut h = g0;
    assert!(h.debloquer(1));
    h.check_achievements();
    assert_eq!(g, h, "l'ouverture, puis l'examen des succès");
}

#[test]
fn une_action_refusee_ne_change_rien() {
    let g0 = Partie::neuve();
    let mut g = g0;
    assert!(!g.agir(Action::Debloquer(1)), "2 500 écus manquent");
    assert!(!g.agir(Action::Migrer), "rien n'a encore été gagné");
    assert!(!g.agir(Action::Exposer { slot: 0, ci: 0, shiny: false }), "rien à exposer");
    assert_eq!(g, g0);
}
