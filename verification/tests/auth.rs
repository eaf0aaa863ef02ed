use canora::auth::{
    credentials_usable, is_dead, keeps_refresh, library_scope_list, link_start,
    minted_the_session_way, refresh_after, refresh_for, relink_plan, session_login_scopes,
    signed_in, uses_own_app, web_token_after, link_phases, AuthError, AuthPhase, ClientId, LinkStart, RelinkPlan,
};

/// The identifier the streaming library's session carries by default, as the application reads
/// it from that library.
const SESSION_CLIENT_ID: &str = "65b708073fc0480ea92a077233ca87bd";

/// An identifier registered by a person, as a build compiles it in.
const COMPILED_CLIENT_ID: &str = "0123456789abcdef0123456789abcdef";

#[test]
fn credentials_from_before_the_split_are_not_reused() {
    assert!(
        !minted_the_session_way(None, SESSION_CLIENT_ID),
        "a cache with no note predates the split"
    );
    assert!(
        !minted_the_session_way(Some(COMPILED_CLIENT_ID), SESSION_CLIENT_ID),
        "the registered identifier cannot mint the session's credentials"
    );
    assert!(
        minted_the_session_way(Some(&ClientId::Shared.as_str(SESSION_CLIENT_ID)), SESSION_CLIENT_ID),
        "Spotify's own identifier is the one that works"
    );
    assert!(
        minted_the_session_way(
            Some(&format!("{}\n", ClientId::Shared.as_str(SESSION_CLIENT_ID))),
            SESSION_CLIENT_ID
        ),
        "a trailing newline is still the same identifier"
    );
}

#[test]
fn the_environment_wins_and_blank_means_shared() {
    assert_eq!(
        ClientId::resolve(Some(" abc \n"), COMPILED_CLIENT_ID),
        ClientId::Own("abc".to_owned())
    );
    assert_eq!(
        ClientId::resolve(None, COMPILED_CLIENT_ID),
        ClientId::Own(COMPILED_CLIENT_ID.to_owned())
    );
    assert_eq!(ClientId::resolve(None, "  "), ClientId::Shared);
    assert_eq!(ClientId::resolve(Some(""), COMPILED_CLIENT_ID), ClientId::Shared);
    assert!(ClientId::Own("x".to_owned()).reaches_web_api());
    assert!(!ClientId::Shared.reaches_web_api());
}

#[test]
fn both_halves_must_be_on_disk() {
    let own = ClientId::Own(COMPILED_CLIENT_ID.to_owned());
    assert!(credentials_usable(true, Some(SESSION_CLIENT_ID), SESSION_CLIENT_ID));
    assert!(!credentials_usable(false, Some(SESSION_CLIENT_ID), SESSION_CLIENT_ID));
    assert!(signed_in(true, &own, true));
    assert!(!signed_in(true, &own, false));
    assert!(signed_in(true, &ClientId::Shared, false));
    assert!(!signed_in(false, &ClientId::Shared, true));
}

#[test]
fn a_refresh_token_belongs_to_one_identifier() {
    let own = ClientId::Own("mine".to_owned());
    assert_eq!(refresh_for("mine", "tok".to_owned(), &own, SESSION_CLIENT_ID), Some("tok".to_owned()));
    assert_eq!(refresh_for("other", "tok".to_owned(), &own, SESSION_CLIENT_ID), None);
    assert_eq!(
        refresh_for(SESSION_CLIENT_ID, "tok".to_owned(), &ClientId::Shared, SESSION_CLIENT_ID),
        Some("tok".to_owned())
    );
}

#[test]
fn a_second_attempt_is_told_apart_from_a_first() {
    assert_eq!(link_start(true, true), LinkStart::Stale);
    assert_eq!(link_start(true, false), LinkStart::AlreadyUp);
    assert_eq!(link_start(false, true), LinkStart::Begin);
    assert!(is_dead(true, true));
    assert!(!is_dead(false, true), "nothing was connected, so nothing died");
    assert_eq!(relink_plan(false, true, true), RelinkPlan::Healthy);
    assert_eq!(relink_plan(true, false, true), RelinkPlan::Stale);
    assert_eq!(relink_plan(true, true, false), RelinkPlan::Stale);
    assert_eq!(relink_plan(true, true, true), RelinkPlan::Rebuild);
}

#[test]
fn the_session_asks_for_streaming_unless_it_reads_the_library_too() {
    let own = ClientId::Own("mine".to_owned());
    assert_eq!(session_login_scopes(&own), vec!["streaming".to_owned()]);
    assert_eq!(session_login_scopes(&ClientId::Shared), library_scope_list());
    assert_eq!(library_scope_list().len(), 11);
    assert_eq!(library_scope_list().last().map(String::as_str), Some("user-follow-read"));
}

#[test]
fn tokens_carry_on_as_the_login_left_them() {
    let own = ClientId::Own("mine".to_owned());
    assert_eq!(web_token_after(Some(1), &own, 2), Some(1));
    assert_eq!(web_token_after(None, &own, 2), None);
    assert_eq!(web_token_after(None, &ClientId::Shared, 2), Some(2));
    assert_eq!(refresh_after(Some("new".to_owned()), Some("old".to_owned())), Some("new".to_owned()));
    assert_eq!(refresh_after(Some(String::new()), Some("old".to_owned())), Some("old".to_owned()));
    assert_eq!(refresh_after(None, None), None);
    assert!(keeps_refresh("r"));
    assert!(!keeps_refresh(""));
    assert!(uses_own_app(&own, true));
    assert!(!uses_own_app(&own, false));
    assert!(!uses_own_app(&ClientId::Shared, true));
}

#[test]
fn a_login_failure_says_what_it_is() {
    assert_eq!(AuthError::Stale.describe(), "the connection to Spotify was lost; sign in again");
    assert_eq!(AuthError::OAuth("no".to_owned()).describe(), "browser login failed: no");
    assert_eq!(AuthError::Session("x".to_owned()).describe(), "cannot connect to Spotify: x");
}

#[test]
fn a_second_attempt_leaves_a_connected_session_alone() {
    assert_eq!(link_start(true, false), LinkStart::AlreadyUp, "a connected session needs no second connection");
    let own = ClientId::Own(COMPILED_CLIENT_ID.to_owned());
    let phases = link_phases(true, false, &own, false, true, true);
    assert_eq!(phases.last(), Some(&AuthPhase::Ready));
    assert_eq!(phases, vec![AuthPhase::CheckingCache, AuthPhase::Ready], "no browser was opened");
}

#[test]
fn a_login_reports_each_phase_it_reaches() {
    let own = ClientId::Own(COMPILED_CLIENT_ID.to_owned());
    assert_eq!(link_phases(true, true, &own, false, true, true), vec![AuthPhase::CheckingCache]);
    assert_eq!(
        link_phases(false, false, &own, false, true, true),
        vec![AuthPhase::CheckingCache, AuthPhase::WaitingForBrowser, AuthPhase::Connecting, AuthPhase::Ready]
    );
    assert_eq!(
        link_phases(false, false, &own, true, true, false),
        vec![AuthPhase::CheckingCache, AuthPhase::Connecting, AuthPhase::WaitingForPlayback, AuthPhase::Connecting, AuthPhase::Ready]
    );
    assert_eq!(
        link_phases(false, false, &ClientId::Shared, false, false, false),
        vec![AuthPhase::CheckingCache, AuthPhase::WaitingForPlayback, AuthPhase::Connecting, AuthPhase::Ready]
    );
}

#[test]
fn a_session_that_died_is_replaced_rather_than_connected_again() {
    assert!(is_dead(true, true), "a connected session that shut down is dead");
    assert_eq!(link_start(true, true), LinkStart::Stale, "a dropped session cannot be connected again in place");
}

#[test]
fn a_session_that_never_connected_is_not_dead() {
    assert!(!is_dead(false, false));
    assert!(!is_dead(false, true), "nothing was connected, so nothing died");
}

#[test]
fn a_replacement_needs_credentials_on_disk() {
    assert_eq!(relink_plan(true, false, false), RelinkPlan::Stale, "there is nothing to connect a new session with");
}

#[test]
fn a_healthy_session_is_left_alone() {
    assert_eq!(relink_plan(false, false, false), RelinkPlan::Healthy, "a session that is not invalid needs no replacement");
    assert_eq!(relink_plan(false, true, true), RelinkPlan::Healthy);
}
