use catlas_api::worlds::{valid_slug, world_name};

#[test]
fn validates_world_slugs() {
    assert!(valid_slug("alpha-1"));
    assert!(valid_slug("a"));
    assert!(!valid_slug(""));
    assert!(!valid_slug("-alpha"));
    assert!(!valid_slug("alpha-"));
    assert!(!valid_slug("alpha--beta"));
    assert!(!valid_slug("Alpha"));
    assert!(!valid_slug(&"a".repeat(65)));
}

#[test]
fn accepts_slugs_of_sixty_four_characters() {
    assert!(valid_slug(&"a".repeat(64)));
    assert!(!valid_slug("alpha_beta"));
    assert!(!valid_slug("ålpha"));
}

#[test]
fn world_names_are_trimmed_and_bounded() {
    assert_eq!(world_name("alpha", "  Home  "), Some("Home".to_owned()));
    assert_eq!(world_name("alpha", "   "), None);
    assert_eq!(world_name("-alpha", "Home"), None);
    assert!(world_name("alpha", &"n".repeat(128)).is_some());
    assert_eq!(world_name("alpha", &"n".repeat(129)), None);
}
