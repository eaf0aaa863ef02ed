use canora::appearance::{scheme_name, scheme_named, Scheme, Settings, Variant};

#[test]
fn a_theme_is_kept_by_name() {
    for variant in Variant::all() {
        assert_eq!(Variant::from_name(variant.name()), Some(variant));
    }
    assert_eq!(Variant::all().len(), 10);
    assert_eq!(Variant::from_name("plaid"), None);
    assert_eq!(Variant::Onyx.label(), "Onyx");
    assert_eq!(Variant::default(), Variant::Slate);
}

#[test]
fn settings_read_back_what_they_keep() {
    for scheme in [Scheme::System, Scheme::Light, Scheme::Dark] {
        assert_eq!(scheme_named(&scheme_name(scheme)), scheme);
        let settings = Settings::of(scheme, Variant::Moss);
        assert_eq!(settings.appearance(), (scheme, Variant::Moss));
    }
    assert_eq!(Settings::default().appearance(), (Scheme::System, Variant::Slate));
    let odd = Settings { scheme: "sepia".to_owned(), variant: "plaid".to_owned() };
    assert_eq!(odd.appearance(), (Scheme::System, Variant::Slate));
}

#[test]
fn the_menu_names_each_theme() {
    let labels: Vec<&str> = Variant::all().into_iter().map(Variant::label).collect();
    assert_eq!(
        labels,
        vec!["Slate", "Graphite", "Moss", "Violet", "Ocean", "Ember", "Rose", "Sand", "Mint", "Onyx"]
    );
}
