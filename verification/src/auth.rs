//! How the application signs in, decided apart from doing it.
//!
//! There are two logins. The session streams audio; its reusable credential is only worth
//! anything if Spotify's own desktop identifier minted it, because `login5` refuses one a
//! registered application minted. The Web API reads and edits the library; Spotify's identifier
//! is shared by every librespot program and its quota is spent, so only an identifier this person
//! registered reads a library. The browser, the files and the session are the application's; this
//! decides what each run needs from them.

use vstd::prelude::*;

use crate::format::{trim, trimmed};
use crate::text::same_text;

verus! {

/// What the application asks permission for, for the library.
pub open spec fn library_scopes() -> Seq<Seq<char>> {
    seq![
        "streaming"@,
        "user-read-email"@,
        "user-read-private"@,
        "playlist-read-private"@,
        "playlist-read-collaborative"@,
        "playlist-modify-public"@,
        "playlist-modify-private"@,
        "user-library-read"@,
        "user-library-modify"@,
        "user-top-read"@,
        "user-follow-read"@,
    ]
}

/// What the session login asks permission for: streaming is the whole of it.
pub open spec fn session_scopes() -> Seq<Seq<char>> {
    seq!["streaming"@]
}

/// What stopped a login.
#[derive(Debug, PartialEq, Eq)]
pub enum AuthError {
    /// The browser flow failed, and why.
    OAuth(String),
    /// The session refused the credentials, or the network is down, and why.
    Session(String),
    /// The cache directory is unusable, and why.
    Cache(String),
    /// The thread that ran the browser flow ended early, and why.
    Join(String),
    /// The session died, and the disk holds nothing to build another one with.
    Stale,
}

/// What a login failure says of itself.
pub open spec fn auth_words(error: AuthError) -> Seq<char> {
    match error {
        AuthError::OAuth(m) => "browser login failed: "@ + m@,
        AuthError::Session(m) => "cannot connect to Spotify: "@ + m@,
        AuthError::Cache(m) => "cache directory: "@ + m@,
        AuthError::Join(m) => "login task ended: "@ + m@,
        AuthError::Stale => "the connection to Spotify was lost; sign in again"@,
    }
}

impl AuthError {
    /// What the failure says of itself.
    pub fn describe(&self) -> (text: String)
        ensures
            text@ == auth_words(*self),
    {
        let (head, tail) = match self {
            AuthError::OAuth(m) => ("browser login failed: ", m.as_str()),
            AuthError::Session(m) => ("cannot connect to Spotify: ", m.as_str()),
            AuthError::Cache(m) => ("cache directory: ", m.as_str()),
            AuthError::Join(m) => ("login task ended: ", m.as_str()),
            AuthError::Stale => ("the connection to Spotify was lost; sign in again", ""),
        };
        let mut text = head.to_owned();
        text.append(tail);
        proof {
            reveal_strlit("");
        }
        text
    }
}

/// How far a login has got. The interface shows one line per phase.
#[derive(Debug, PartialEq, Eq)]
pub enum AuthPhase {
    /// Looking for credentials on disk.
    CheckingCache,
    /// Waiting for the person to finish the library login in the browser.
    WaitingForBrowser,
    /// Waiting for the person to finish the playback login in the browser.
    WaitingForPlayback,
    /// Talking to Spotify.
    Connecting,
    /// Connected.
    Ready,
    /// Stopped, with the reason.
    Failed(String),
}

/// Which client identifier the login uses.
#[derive(Debug, PartialEq, Eq)]
pub enum ClientId {
    /// An identifier this person registered. The Web API works.
    Own(String),
    /// Spotify's desktop identifier. Audio plays and the Web API is rate limited.
    Shared,
}

/// The identifier a build uses, from the one the environment names, when it names one, or else
/// the one compiled in: without the white space at its ends, and the shared one when that leaves
/// nothing.
pub open spec fn resolved(from_env: Option<Seq<char>>, compiled: Seq<char>) -> Option<Seq<char>> {
    let candidate = trim(match from_env { Some(e) => e, None => compiled });
    if candidate.len() == 0 { None } else { Some(candidate) }
}

impl Clone for ClientId {
    fn clone(&self) -> (r: Self)
        ensures
            r == *self,
    {
        match self {
            ClientId::Own(id) => ClientId::Own(id.clone()),
            ClientId::Shared => ClientId::Shared,
        }
    }
}

impl ClientId {
    /// Which identifier a build uses: the environment's first, so a different account can be
    /// tried without a rebuild, then the one compiled in, then the shared one.
    pub fn resolve(from_env: Option<&str>, compiled: &str) -> (id: Self)
        ensures
            resolved(match from_env { Some(e) => Some(e@), None => None }, compiled@) is None ==> id is Shared,
            resolved(match from_env { Some(e) => Some(e@), None => None }, compiled@) matches Some(c)
                ==> (id matches ClientId::Own(own) && own@ == c),
    {
        let candidate = match from_env {
            Some(e) => trimmed(e),
            None => trimmed(compiled),
        };
        if candidate.as_str().is_empty() {
            ClientId::Shared
        } else {
            ClientId::Own(candidate)
        }
    }

    /// The identifier as text. The shared one is the identifier the streaming library's session
    /// carries by default, which the application reads from it and hands in as `shared`.
    pub fn as_str(&self, shared: &str) -> (text: String)
        ensures
            text@ == (match *self { ClientId::Own(id) => id@, ClientId::Shared => shared@ }),
    {
        match self {
            ClientId::Own(id) => id.clone(),
            ClientId::Shared => shared.to_owned(),
        }
    }

    /// Whether this identifier can reach the Web API without a shared quota.
    pub fn reaches_web_api(&self) -> (r: bool)
        ensures
            r == (*self is Own),
    {
        match self {
            ClientId::Own(_) => true,
            ClientId::Shared => false,
        }
    }
}

/// Whether a note names the identifier the session's credentials have to come from, which is
/// `session_id`. No note means no: a build that kept none predates the split, and `login5` will
/// refuse its credentials. A trailing newline is still the same identifier.
pub fn minted_the_session_way(noted: Option<&str>, session_id: &str) -> (ok: bool)
    ensures
        ok == (match noted { Some(n) => trim(n@) == session_id@, None => false }),
{
    match noted {
        Some(n) => {
            let t = trimmed(n);
            same_text(t.as_str(), session_id)
        },
        None => false,
    }
}

/// Whether the credentials on disk are ones the session can still use: there are some, and the
/// note beside them names the session's identifier.
pub fn credentials_usable(has_credentials: bool, noted: Option<&str>, session_id: &str) -> (ok: bool)
    ensures
        ok == (has_credentials && match noted { Some(n) => trim(n@) == session_id@, None => false }),
{
    has_credentials && minted_the_session_way(noted, session_id)
}

/// The refresh token kept on disk, when the identifier that minted it is the one in use; a
/// different identifier makes it useless.
pub fn refresh_for(stored_client_id: &str, stored_token: String, client: &ClientId, shared: &str) -> (token: Option<String>)
    ensures
        token is Some <==> stored_client_id@ == (match *client { ClientId::Own(id) => id@, ClientId::Shared => shared@ }),
        token matches Some(t) ==> t == stored_token,
{
    let current = client.as_str(shared);
    if same_text(stored_client_id, current.as_str()) {
        Some(stored_token)
    } else {
        None
    }
}

/// Whether a login is already on disk: both halves have to be there. The session reconnects
/// from usable credentials, and the Web API needs a refresh token beside them unless the build
/// has no identifier of its own.
pub fn signed_in(usable: bool, client: &ClientId, has_refresh: bool) -> (s: bool)
    ensures
        s == (usable && (!(*client is Own) || has_refresh)),
{
    usable && (!client.reaches_web_api() || has_refresh)
}

/// Whether a session connected one time and has since died. One that never connected is still
/// good: the first login owns it.
pub fn is_dead(linked: bool, invalid: bool) -> (dead: bool)
    ensures
        dead == (linked && invalid),
{
    linked && invalid
}

/// How a login attempt starts.
#[derive(Debug, Clone, Copy, PartialEq, Eq, Structural)]
pub enum LinkStart {
    /// The session connected before and has died: it cannot be connected again in place.
    Stale,
    /// The session is up. A second attempt is the Web API's business alone.
    AlreadyUp,
    /// Nothing is connected yet.
    Begin,
}

/// How a login attempt starts, given whether the session connected before and whether it has
/// been marked invalid since.
pub fn link_start(linked: bool, invalid: bool) -> (start: LinkStart)
    ensures
        linked && invalid ==> start == LinkStart::Stale,
        linked && !invalid ==> start == LinkStart::AlreadyUp,
        !linked ==> start == LinkStart::Begin,
{
    if linked {
        if invalid { LinkStart::Stale } else { LinkStart::AlreadyUp }
    } else {
        LinkStart::Begin
    }
}

/// The phases a login reports, in order, when it runs to its end. `linked` and `invalid` say
/// whether the session connected before and has died since; `browser` whether the browser opens
/// for the library; `stored_usable` whether credentials on disk can connect the session, and
/// `stored_connected` whether they did. A session that connected before and died reports that it
/// checks the cache and stops there, stale.
pub open spec fn login_phases(linked: bool, invalid: bool, browser: bool, stored_usable: bool, stored_connected: bool) -> Seq<AuthPhase> {
    if linked {
        if invalid { seq![AuthPhase::CheckingCache] } else { seq![AuthPhase::CheckingCache, AuthPhase::Ready] }
    } else {
        let opened = if browser {
            seq![AuthPhase::CheckingCache, AuthPhase::WaitingForBrowser]
        } else {
            seq![AuthPhase::CheckingCache]
        };
        if stored_usable && stored_connected {
            opened + seq![AuthPhase::Connecting, AuthPhase::Ready]
        } else if stored_usable {
            opened + seq![AuthPhase::Connecting, AuthPhase::WaitingForPlayback, AuthPhase::Connecting, AuthPhase::Ready]
        } else {
            opened + seq![AuthPhase::WaitingForPlayback, AuthPhase::Connecting, AuthPhase::Ready]
        }
    }
}

/// The phases a login reports, in order, when it runs to its end: the browser opens for the
/// library as [`wants_library_login`] says, and the session connects from the credentials on disk
/// when they are usable and connect, or else from a second browser login.
pub fn link_phases(linked: bool, invalid: bool, client: &ClientId, has_refresh: bool, stored_usable: bool, stored_connected: bool) -> (phases: Vec<AuthPhase>)
    ensures
        phases@ == login_phases(linked, invalid, *client is Own && !has_refresh, stored_usable, stored_connected),
{
    let mut phases: Vec<AuthPhase> = vec![AuthPhase::CheckingCache];
    if linked {
        if !invalid {
            phases.push(AuthPhase::Ready);
        }
        return phases;
    }
    if wants_library_login(client, has_refresh) {
        phases.push(AuthPhase::WaitingForBrowser);
    }
    if stored_usable {
        phases.push(AuthPhase::Connecting);
        if stored_connected {
            phases.push(AuthPhase::Ready);
            return phases;
        }
    }
    phases.push(AuthPhase::WaitingForPlayback);
    phases.push(AuthPhase::Connecting);
    phases.push(AuthPhase::Ready);
    phases
}

/// A login that does not find its session dead ends ready, and one that finds it connected and
/// well reports no more than that: it checks the cache and is ready, with no browser and no
/// second connection.
pub proof fn a_login_ends_ready(linked: bool, invalid: bool, browser: bool, stored_usable: bool, stored_connected: bool)
    ensures
        !(linked && invalid) ==> login_phases(linked, invalid, browser, stored_usable, stored_connected).last() == AuthPhase::Ready,
        linked && !invalid ==> login_phases(linked, invalid, browser, stored_usable, stored_connected) == seq![AuthPhase::CheckingCache, AuthPhase::Ready],
        linked && invalid ==> login_phases(linked, invalid, browser, stored_usable, stored_connected) == seq![AuthPhase::CheckingCache],
{
}

/// Whether the browser opens for the library: with an identifier of this person's own and no
/// refresh token on disk. Its refresh token outlives every run, so this happens once.
pub fn wants_library_login(client: &ClientId, has_refresh: bool) -> (wants: bool)
    ensures
        wants == (*client is Own && !has_refresh),
{
    client.reaches_web_api() && !has_refresh
}

/// Whether a refresh token the browser minted is worth keeping: an empty one is not.
pub fn keeps_refresh(refresh_token: &str) -> (keep: bool)
    ensures
        keep == (refresh_token@.len() > 0),
{
    !refresh_token.is_empty()
}

/// What the session's browser login asks permission for: streaming alone, unless the build reads
/// the library through the session too, which needs the library's scopes.
pub fn session_login_scopes(client: &ClientId) -> (scopes: Vec<String>)
    ensures
        scopes@.map_values(|s: String| s@) == (if *client is Own { session_scopes() } else { library_scopes() }),
{
    if client.reaches_web_api() {
        let v: Vec<String> = vec!["streaming".to_owned()];
        proof {
            reveal_strlit("streaming");
        }
        assert(v@.map_values(|s: String| s@) =~= session_scopes());
        v
    } else {
        library_scope_list()
    }
}

/// What the application asks permission for, for the library.
pub fn library_scope_list() -> (scopes: Vec<String>)
    ensures
        scopes@.map_values(|s: String| s@) == library_scopes(),
{
    let v: Vec<String> = vec![
        "streaming".to_owned(),
        "user-read-email".to_owned(),
        "user-read-private".to_owned(),
        "playlist-read-private".to_owned(),
        "playlist-read-collaborative".to_owned(),
        "playlist-modify-public".to_owned(),
        "playlist-modify-private".to_owned(),
        "user-library-read".to_owned(),
        "user-library-modify".to_owned(),
        "user-top-read".to_owned(),
        "user-follow-read".to_owned(),
    ];
    assert(v@.map_values(|s: String| s@) =~= library_scopes());
    v
}

/// The Web API token a finished login hands on: the one the library login minted, or, for a
/// build that reads the library through the session, the token that connected the session.
pub fn web_token_after<T>(web_token: Option<T>, client: &ClientId, session_token: T) -> (token: Option<T>)
    ensures
        web_token is Some ==> token == web_token,
        web_token is None && *client is Own ==> token is None,
        web_token is None && *client is Shared ==> token == Some(session_token),
{
    match web_token {
        Some(t) => Some(t),
        None => {
            if client.reaches_web_api() {
                None
            } else {
                Some(session_token)
            }
        },
    }
}

/// The refresh token a login leaves the application with: the one the browser just minted, when
/// it minted a non-empty one, or else the one that was on disk.
pub fn refresh_after(minted: Option<String>, stored: Option<String>) -> (token: Option<String>)
    ensures
        (minted matches Some(m) && m@.len() > 0) ==> token == minted,
        !(minted matches Some(m) && m@.len() > 0) ==> token == stored,
{
    match minted {
        Some(m) => {
            if m.as_str().is_empty() {
                stored
            } else {
                Some(m)
            }
        },
        None => stored,
    }
}

/// What replacing a dead session comes to.
#[derive(Debug, Clone, Copy, PartialEq, Eq, Structural)]
pub enum RelinkPlan {
    /// The session is well: nothing to do.
    Healthy,
    /// Nothing on disk can build another session: the browser is the only way back.
    Stale,
    /// Build a session from the credentials on disk, and connect it.
    Rebuild,
}

/// What replacing a session comes to: nothing while it is well; otherwise a new one, built from
/// credentials on disk that `login5` will still upgrade.
pub fn relink_plan(invalid: bool, usable: bool, has_stored: bool) -> (plan: RelinkPlan)
    ensures
        !invalid ==> plan == RelinkPlan::Healthy,
        invalid && !(usable && has_stored) ==> plan == RelinkPlan::Stale,
        invalid && usable && has_stored ==> plan == RelinkPlan::Rebuild,
{
    if !invalid {
        RelinkPlan::Healthy
    } else if !usable || !has_stored {
        RelinkPlan::Stale
    } else {
        RelinkPlan::Rebuild
    }
}

/// Whether the Web API takes its tokens from this person's own application: with an identifier
/// of their own and a refresh token to mint from. Otherwise the session gives them.
pub fn uses_own_app(client: &ClientId, has_refresh: bool) -> (own: bool)
    ensures
        own == (*client is Own && has_refresh),
{
    client.reaches_web_api() && has_refresh
}

} // verus!
