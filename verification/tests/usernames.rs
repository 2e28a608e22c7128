use catlas_api::auth::{username_or_fallback, LocalizedText, UsernameClaims};

fn text(value: &str) -> Option<LocalizedText> {
    Some(LocalizedText {
        default: Some(value.to_owned()),
        localized: Vec::new(),
    })
}

fn no_claims() -> UsernameClaims {
    UsernameClaims {
        preferred_username: None,
        name: None,
        nickname: None,
        given_name: None,
        family_name: None,
    }
}

#[test]
fn prefers_username_claims_over_display_names() {
    let claims = UsernameClaims {
        preferred_username: Some(" preferred-user ".to_owned()),
        name: text("Display Name"),
        nickname: text("nickname"),
        given_name: text("Given"),
        family_name: text("Family"),
    };

    assert_eq!(claims.resolve_username().as_deref(), Some("preferred-user"));
}

#[test]
fn uses_the_first_non_empty_name_claim_as_a_fallback() {
    let claims = UsernameClaims {
        preferred_username: Some("   ".to_owned()),
        name: text("   "),
        nickname: text("   "),
        given_name: text(" Given "),
        family_name: text("Family"),
    };

    assert_eq!(claims.resolve_username().as_deref(), Some("Given"));
}

#[test]
fn returns_none_when_no_username_claim_is_available() {
    assert_eq!(no_claims().resolve_username(), None);
}

#[test]
fn localized_claims_fall_back_to_their_first_tagged_value() {
    let mut claims = no_claims();
    claims.name = Some(LocalizedText {
        default: None,
        localized: vec![" Nom ".to_owned(), "Name".to_owned()],
    });
    assert_eq!(claims.resolve_username().as_deref(), Some("Nom"));
}

#[test]
fn users_without_a_username_get_the_fallback_name() {
    assert_eq!(username_or_fallback(None), "OIDC user");
    assert_eq!(username_or_fallback(Some("ann".to_owned())), "ann");
}
