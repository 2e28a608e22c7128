//! Sign-in rules: return paths, OIDC callback checks, username claims and user ids.

use vstd::prelude::*;

use crate::text::{lemma_trim_idempotent, to_chars, trim, trim_bounds, trimmed};
use crate::types::{HttpStatus, Nullable, User};

verus! {

/// The text of a value with surrounding whitespace removed, when any is left.
pub trait NonEmpty {
    fn non_empty(&self) -> Option<&Self>;
}

impl NonEmpty for str {
    fn non_empty(&self) -> (r: Option<&str>)
        ensures
            match r {
                Some(v) => v@ == trim(self@) && v@.len() > 0,
                None => trim(self@).len() == 0,
            },
    {
        let v = to_chars(self);
        let (lo, hi) = trim_bounds(&v);
        if lo == hi {
            None
        } else {
            Some(self.substring_char(lo, hi))
        }
    }
}

/// The view of an optional string.
pub open spec fn opt_view(value: Option<&str>) -> Option<Seq<char>> {
    match value {
        Some(v) => Some(v@),
        None => None,
    }
}

/// A path the frontend may be sent back to: trimmed, starting with one `/` (not `//`), on a
/// single line.
pub open spec fn is_safe_path(t: Seq<char>) -> bool {
    &&& t.len() > 0
    &&& t[0] == '/'
    &&& !(t.len() > 1 && t[1] == '/')
    &&& !t.contains('\n')
}

pub open spec fn spec_safe_return_to(value: Option<Seq<char>>) -> Option<Seq<char>> {
    match value {
        Some(v) => if is_safe_path(trim(v)) {
            Some(trim(v))
        } else {
            None
        },
        None => None,
    }
}

/// The return path of a login, trimmed, when it is a local absolute path.
pub fn safe_return_to(value: Option<&str>) -> (r: Option<String>)
    ensures
        match r {
            Some(s) => spec_safe_return_to(opt_view(value)) == Some(s@),
            None => spec_safe_return_to(opt_view(value)) is None,
        },
{
    match value {
        None => None,
        Some(v) => {
            let t = trimmed(v);
            let chars = to_chars(t.as_str());
            let n = chars.len();
            if n == 0 || chars[0] != '/' || (n > 1 && chars[1] == '/') {
                return None;
            }
            let mut i: usize = 0;
            while i < n
                invariant
                    n == chars@.len(),
                    chars@ == trim(v@),
                    opt_view(value) == Some(v@),
                    i <= n,
                    forall|k: int| 0 <= k < i ==> chars@[k] != '\n',
                decreases n - i,
            {
                if chars[i] == '\n' {
                    assert(chars@.contains('\n'));
                    return None;
                }
                i += 1;
            }
            Some(t)
        },
    }
}

/// A return path that was accepted once is accepted again, unchanged.
pub proof fn law_safe_return_to_idempotent(value: Option<Seq<char>>)
    requires
        spec_safe_return_to(value) is Some,
    ensures
        spec_safe_return_to(spec_safe_return_to(value)) == spec_safe_return_to(value),
{
    lemma_trim_idempotent(value->0);
}

// ---- OIDC callback ----

/// What a login stores in the session until the provider calls back.
#[derive(Debug, Clone)]
pub struct OidcSessionState {
    pub state: String,
    pub nonce: String,
    pub pkce_verifier: String,
    pub return_to: String,
    pub state_created_at: i64,
}

/// How long, in seconds, a login may take from start to callback.
pub const OIDC_STATE_TTL_SECS: i64 = 600;

/// Whether chrono can represent the UTC instant `secs` seconds after the Unix epoch: its day
/// lies between January 1 of year -262143 and December 31 of year 262142, chrono's date range.
pub open spec fn chrono_accepts_timestamp(secs: i64) -> bool {
    -8_334_601_228_800 <= secs <= 8_210_266_876_799
}

/// Trusted: `chrono::DateTime::from_timestamp(secs, 0)` returns `Some` exactly when the day of
/// `secs` (`secs.div_euclid(86_400)`) falls in chrono's date range, the seconds stated by
/// `chrono_accepts_timestamp`.
#[verifier::external_body]
fn timestamp_representable(secs: i64) -> (r: bool)
    ensures
        r == chrono_accepts_timestamp(secs),
{
    chrono::DateTime::from_timestamp(secs, 0).is_some()
}

/// Trusted: `chrono::Utc::now()`, as whole seconds since the Unix epoch and the nanoseconds
/// past them. It reads the clock: nothing is stated of the values.
#[verifier::external_body]
fn utc_now() -> (r: (i64, u32)) {
    let now = chrono::Utc::now();
    (now.timestamp(), now.timestamp_subsec_nanos())
}

/// A login started at `created_at` (whole seconds) is fresh at `now_secs` + `now_nanos`: its
/// start is representable, not in the future, and at most the TTL ago.
pub open spec fn spec_state_fresh(representable: bool, created_at: i64, now_secs: i64, now_nanos: u32) -> bool {
    &&& representable
    &&& (now_secs - created_at) * 1_000_000_000 + now_nanos >= 0
    &&& (now_secs - created_at) * 1_000_000_000 + now_nanos <= OIDC_STATE_TTL_SECS * 1_000_000_000
}

/// Whether a login started at `created_at` is still fresh at the given instant.
pub fn state_is_fresh(representable: bool, created_at: i64, now_secs: i64, now_nanos: u32) -> (r:
    bool)
    ensures
        r == spec_state_fresh(representable, created_at, now_secs, now_nanos),
{
    let age: i128 = (now_secs as i128 - created_at as i128) * 1_000_000_000 + now_nanos as i128;
    representable && age >= 0 && age <= (OIDC_STATE_TTL_SECS as i128) * 1_000_000_000
}

/// The callback may exchange its code: OIDC is on, a login is pending and fresh, the returned
/// state is the stored one, and the provider reported no error.
pub open spec fn callback_accepted(
    oidc_enabled: bool,
    session: Option<OidcSessionState>,
    fresh: bool,
    state: Option<Seq<char>>,
    has_error: bool,
) -> bool {
    &&& oidc_enabled
    &&& session is Some
    &&& fresh
    &&& state == Some(session->0.state@)
    &&& !has_error
}

/// The authorization code to exchange at `now`, or `None` when the callback must send the
/// browser back with a login error.
pub fn callback_code_at(
    oidc_enabled: bool,
    session: &Option<OidcSessionState>,
    state: Option<&str>,
    has_error: bool,
    code: Option<String>,
    now_secs: i64,
    now_nanos: u32,
) -> (r: Option<String>)
    ensures
        r == if session is Some && callback_accepted(
            oidc_enabled,
            *session,
            spec_state_fresh(
                chrono_accepts_timestamp(session->0.state_created_at),
                session->0.state_created_at,
                now_secs,
                now_nanos,
            ),
            opt_view(state),
            has_error,
        ) {
            code
        } else {
            None
        },
{
    if !oidc_enabled {
        return None;
    }
    match session {
        None => None,
        Some(s) => {
            let representable = timestamp_representable(s.state_created_at);
            let fresh = state_is_fresh(representable, s.state_created_at, now_secs, now_nanos);
            let state_matches = match state {
                Some(actual) => crate::text::str_eq(s.state.as_str(), actual),
                None => false,
            };
            if fresh && state_matches && !has_error {
                code
            } else {
                None
            }
        },
    }
}

/// The authorization code to exchange now, or `None` when the callback must send the browser
/// back with a login error. The clock is read: what is stated holds whatever time it gives.
pub fn callback_code(
    oidc_enabled: bool,
    session: &Option<OidcSessionState>,
    state: Option<&str>,
    has_error: bool,
    code: Option<String>,
) -> (r: Option<String>)
    ensures
        r is Some ==> r == code && oidc_enabled && session is Some && chrono_accepts_timestamp(
            session->0.state_created_at,
        ) && opt_view(state) == Some(session->0.state@) && !has_error,
{
    let (now_secs, now_nanos) = utc_now();
    callback_code_at(oidc_enabled, session, state, has_error, code, now_secs, now_nanos)
}

/// Where the callback sends the browser back to: the pending login's return path, if any.
pub fn pending_return_to(session: &Option<OidcSessionState>) -> (r: Option<String>)
    ensures
        match r {
            Some(p) => session is Some && p@ == session->0.return_to@,
            None => session is None,
        },
{
    match session {
        Some(s) => Some(s.return_to.clone()),
        None => None,
    }
}

// ---- usernames ----

/// A claim that may carry one value per language: the value without a language tag, and the
/// tagged values in the order the claim lists them.
#[derive(Debug, Clone)]
pub struct LocalizedText {
    pub default: Option<String>,
    pub localized: Vec<String>,
}

/// The claims a username is taken from.
#[derive(Debug, Clone)]
pub struct UsernameClaims {
    pub preferred_username: Option<String>,
    pub name: Option<LocalizedText>,
    pub nickname: Option<LocalizedText>,
    pub given_name: Option<LocalizedText>,
    pub family_name: Option<LocalizedText>,
}

/// The trimmed text of a claim, when any is left.
pub open spec fn spec_claim_text(value: Option<Seq<char>>) -> Option<Seq<char>> {
    match value {
        Some(v) => if trim(v).len() > 0 {
            Some(trim(v))
        } else {
            None
        },
        None => None,
    }
}

/// The value of a localized claim: the untagged one, else the first tagged one.
pub open spec fn spec_localized_value(claim: Option<LocalizedText>) -> Option<Seq<char>> {
    match claim {
        None => None,
        Some(c) => match c.default {
            Some(d) => Some(d@),
            None => if c.localized@.len() > 0 {
                Some(c.localized@[0]@)
            } else {
                None
            },
        },
    }
}

/// The username: the first of the preferred username, name, nickname, given name and family
/// name whose text is not blank, trimmed.
pub open spec fn spec_resolve_username(c: UsernameClaims) -> Option<Seq<char>> {
    let preferred = spec_claim_text(
        match c.preferred_username {
            Some(p) => Some(p@),
            None => None,
        },
    );
    let name = spec_claim_text(spec_localized_value(c.name));
    let nickname = spec_claim_text(spec_localized_value(c.nickname));
    let given = spec_claim_text(spec_localized_value(c.given_name));
    let family = spec_claim_text(spec_localized_value(c.family_name));
    if preferred is Some {
        preferred
    } else if name is Some {
        name
    } else if nickname is Some {
        nickname
    } else if given is Some {
        given
    } else {
        family
    }
}

/// The trimmed text of a claim, when any is left.
pub fn claim_text(value: Option<&String>) -> (r: Option<String>)
    ensures
        match r {
            Some(t) => spec_claim_text(
                match value {
                    Some(v) => Some(v@),
                    None => None,
                },
            ) == Some(t@),
            None => spec_claim_text(
                match value {
                    Some(v) => Some(v@),
                    None => None,
                },
            ) is None,
        },
{
    match value {
        Some(v) => match v.as_str().non_empty() {
            Some(t) => Some(t.to_owned()),
            None => None,
        },
        None => None,
    }
}

/// The trimmed text of a localized claim's value, when any is left.
pub fn localized_claim_text(claim: Option<&LocalizedText>) -> (r: Option<String>)
    ensures
        match r {
            Some(t) => spec_claim_text(
                spec_localized_value(
                    match claim {
                        Some(c) => Some(*c),
                        None => None,
                    },
                ),
            ) == Some(t@),
            None => spec_claim_text(
                spec_localized_value(
                    match claim {
                        Some(c) => Some(*c),
                        None => None,
                    },
                ),
            ) is None,
        },
{
    match claim {
        None => None,
        Some(c) => match &c.default {
            Some(d) => claim_text(Some(d)),
            None => if c.localized.len() > 0 {
                claim_text(Some(&c.localized[0]))
            } else {
                None
            },
        },
    }
}

impl UsernameClaims {
    /// The username the claims give: the first of the preferred username, name, nickname,
    /// given name and family name that is not blank, trimmed.
    pub fn resolve_username(&self) -> (r: Option<String>)
        ensures
            match r {
                Some(u) => spec_resolve_username(*self) == Some(u@),
                None => spec_resolve_username(*self) is None,
            },
    {
        let preferred = claim_text(
            match &self.preferred_username {
                Some(p) => Some(p),
                None => None,
            },
        );
        if preferred.is_some() {
            return preferred;
        }
        let name = localized_claim_text(
            match &self.name {
                Some(c) => Some(c),
                None => None,
            },
        );
        if name.is_some() {
            return name;
        }
        let nickname = localized_claim_text(
            match &self.nickname {
                Some(c) => Some(c),
                None => None,
            },
        );
        if nickname.is_some() {
            return nickname;
        }
        let given = localized_claim_text(
            match &self.given_name {
                Some(c) => Some(c),
                None => None,
            },
        );
        if given.is_some() {
            return given;
        }
        localized_claim_text(
            match &self.family_name {
                Some(c) => Some(c),
                None => None,
            },
        )
    }
}

/// The name given to an OIDC user whose claims carry no username.
pub fn fallback_oidc_username() -> (r: &'static str)
    ensures
        r@ == "OIDC user"@,
{
    "OIDC user"
}

/// The username of an OIDC user: the one the claims give, else the fallback name.
pub fn username_or_fallback(found: Option<String>) -> (r: String)
    ensures
        r@ == match found {
            Some(u) => u@,
            None => "OIDC user"@,
        },
{
    match found {
        Some(u) => u,
        None => fallback_oidc_username().to_owned(),
    }
}

// ---- user ids ----

/// A character a user id may hold: a lowercase ASCII letter, a digit, `_` or `-`.
pub open spec fn user_id_char(c: char) -> bool {
    ('a' <= c && c <= 'z') || ('0' <= c && c <= '9') || c == '_' || c == '-'
}

/// A user id: 1 to 128 characters, each a lowercase ASCII letter, a digit, `_` or `-`.
pub open spec fn spec_valid_user_id(s: Seq<char>) -> bool {
    &&& 1 <= s.len() <= 128
    &&& forall|i: int| 0 <= i < s.len() ==> user_id_char(#[trigger] s[i])
}

/// Whether a requested user id may be signed in with developer authentication.
pub fn valid_user_id(user_id: &str) -> (r: bool)
    ensures
        r == spec_valid_user_id(user_id@),
{
    let chars = to_chars(user_id);
    let n = chars.len();
    if n == 0 || n > 128 {
        return false;
    }
    let mut i: usize = 0;
    while i < n
        invariant
            n == chars@.len(),
            chars@ == user_id@,
            i <= n,
            forall|k: int| 0 <= k < i ==> user_id_char(#[trigger] chars@[k]),
        decreases n - i,
    {
        let c = chars[i];
        if !(('a' <= c && c <= 'z') || ('0' <= c && c <= '9') || c == '_' || c == '-') {
            return false;
        }
        i += 1;
    }
    true
}

/// A lowercase hexadecimal digit.
pub open spec fn lower_hex(c: char) -> bool {
    ('0' <= c && c <= '9') || ('a' <= c && c <= 'f')
}

/// The hyphenated lowercase form of a UUID: 36 characters, hyphens at 8, 13, 18 and 23,
/// lowercase hexadecimal digits elsewhere.
pub open spec fn hyphenated_uuid(s: Seq<char>) -> bool {
    &&& s.len() == 36
    &&& forall|i: int|
        0 <= i < 36 ==> if i == 8 || i == 13 || i == 18 || i == 23 {
            #[trigger] s[i] == '-'
        } else {
            lower_hex(s[i])
        }
}

/// Trusted: `uuid::Uuid::new_v4()` formatted with `Display`, which writes the hyphenated
/// lowercase form. The UUID is random: only its form is stated.
#[verifier::external_body]
fn random_uuid_text() -> (r: String)
    ensures
        hyphenated_uuid(r@),
{
    uuid::Uuid::new_v4().to_string()
}

/// A fresh public user id for an OIDC identity: `oidc_` and a random UUID.
pub fn new_oidc_user_id() -> (r: String)
    ensures
        r@.len() == 41,
        r@.subrange(0, 5) == "oidc_"@,
        hyphenated_uuid(r@.subrange(5, 41)),
{
    let id = random_uuid_text();
    let r = "oidc_".to_owned().concat(id.as_str());
    proof {
        reveal_strlit("oidc_");
        assert(r@.subrange(0, 5) =~= "oidc_"@);
        assert(r@.subrange(5, 41) =~= id@);
    }
    r
}

/// Every public id given to an OIDC identity is also a valid user id.
pub proof fn law_oidc_user_ids_are_valid(id: Seq<char>)
    requires
        id.len() == 41,
        id.subrange(0, 5) == "oidc_"@,
        hyphenated_uuid(id.subrange(5, 41)),
    ensures
        spec_valid_user_id(id),
{
    reveal_strlit("oidc_");
    assert forall|i: int| 0 <= i < id.len() implies user_id_char(#[trigger] id[i]) by {
        if i < 5 {
            assert(id[i] == id.subrange(0, 5)[i]);
        } else {
            let u = id.subrange(5, 41);
            assert(id[i] == u[i - 5]);
            assert(u[i - 5] == '-' || lower_hex(u[i - 5]));
        }
    }
}

// ---- sessions ----

/// The user a session belongs to, if any.
#[derive(Debug, Clone)]
pub struct SessionInfo {
    pub user: Nullable<User>,
}

/// Which sign-in methods are offered.
#[derive(Debug, Clone, Copy, PartialEq, Eq, Structural)]
pub struct AuthConfigInfo {
    pub oidc_enabled: bool,
    pub developer_auth_enabled: bool,
}

/// The body of a developer sign-in.
#[derive(Debug, Clone)]
pub struct CreateSession {
    pub user_id: String,
}

/// A browser redirect, to the identity provider or back to the frontend.
#[derive(Debug, Clone, Copy, PartialEq, Eq, Structural)]
pub enum AuthRedirectResponse {
    Redirect,
}

/// A developer sign-in is answered 404 while developer authentication is off, and 400 for a
/// user id that is not valid.
pub fn check_create_session(developer_auth_enabled: bool, user_id: &str) -> (r: Result<
    (),
    HttpStatus,
>)
    ensures
        r == if !developer_auth_enabled {
            Err::<(), HttpStatus>(HttpStatus::NotFound)
        } else if !spec_valid_user_id(user_id@) {
            Err(HttpStatus::BadRequest)
        } else {
            Ok(())
        },
{
    if !developer_auth_enabled {
        Err(HttpStatus::NotFound)
    } else if !valid_user_id(user_id) {
        Err(HttpStatus::BadRequest)
    } else {
        Ok(())
    }
}

/// A session is stale when it names a user that no longer exists; it is then cleared.
pub fn session_is_stale(stored_user: Option<i64>, user_found: bool) -> (r: bool)
    ensures
        r == (stored_user is Some && !user_found),
{
    stored_user.is_some() && !user_found
}

// ---- configured URLs ----

/// What `url::Url::parse` makes of `s`: the parser's message when it is not an absolute URL,
/// else the URL's scheme and whether it has a host.
pub uninterp spec fn url_scheme_host(s: Seq<char>) -> Result<(Seq<char>, bool), Seq<char>>;

/// Trusted: parses `s` with `url::Url::parse` (through `openidconnect::url`) and reports the
/// scheme and whether `host_str` is present, or the parse error's message. The result is
/// `url_scheme_host(s@)`, a function of `s` alone; the URL grammar is not restated.
#[verifier::external_body]
fn parse_absolute_url(s: &str) -> (r: Result<(String, bool), String>)
    ensures
        match r {
            Ok((scheme, has_host)) => url_scheme_host(s@) == Ok::<(Seq<char>, bool), Seq<char>>(
                (scheme@, has_host),
            ),
            Err(message) => url_scheme_host(s@) == Err::<(Seq<char>, bool), Seq<char>>(message@),
        },
{
    match openidconnect::url::Url::parse(s) {
        Ok(url) => Ok((url.scheme().to_owned(), url.host_str().is_some())),
        Err(error) => Err(error.to_string()),
    }
}

/// The verdict on a configured URL named `name`.
pub open spec fn spec_parse_url(parsed: Result<(Seq<char>, bool), Seq<char>>, name: Seq<char>) -> Result<(), Seq<char>> {
    match parsed {
        Err(m) => Err(name + " is invalid: "@ + m),
        Ok((scheme, has_host)) => if (scheme == "http"@ || scheme == "https"@) && has_host {
            Ok(())
        } else {
            Err(name + " must be an absolute HTTP(S) URL"@)
        },
    }
}

/// A configured URL must be an absolute HTTP(S) URL with a host; the error names the setting.
pub fn parse_url(value: &str, name: &str) -> (r: Result<(), String>)
    ensures
        match r {
            Ok(_) => spec_parse_url(url_scheme_host(value@), name@) == Ok::<(), Seq<char>>(()),
            Err(m) => spec_parse_url(url_scheme_host(value@), name@) == Err::<(), Seq<char>>(m@),
        },
{
    match parse_absolute_url(value) {
        Err(message) => Err(name.to_owned().concat(" is invalid: ").concat(message.as_str())),
        Ok((scheme, has_host)) => {
            if (crate::text::str_eq(scheme.as_str(), "http") || crate::text::str_eq(
                scheme.as_str(),
                "https",
            )) && has_host {
                Ok(())
            } else {
                Err(name.to_owned().concat(" must be an absolute HTTP(S) URL"))
            }
        },
    }
}

// ---- the frontend redirect ----

/// What `url::Url::parse` of `url`, then `set_path(path)`, `set_query(None)` and
/// `set_fragment(None)`, serializes to; `None` when `url` does not parse.
pub uninterp spec fn url_with_path(url: Seq<char>, path: Seq<char>) -> Option<Seq<char>>;

/// Trusted: parses `url` with `url::Url::parse` (through `openidconnect::url`), replaces its
/// path by `path` and drops its query and fragment, and serializes it. The result is
/// `url_with_path(url@, path@)`, a function of the two strings alone; the URL grammar and
/// the path encoding are not restated.
#[verifier::external_body]
fn replace_url_path(url: &str, path: &str) -> (r: Option<String>)
    ensures
        r.deep_view() == url_with_path(url@, path@),
{
    let mut parsed = openidconnect::url::Url::parse(url).ok()?;
    parsed.set_path(path);
    parsed.set_query(None);
    parsed.set_fragment(None);
    Some(parsed.to_string())
}

/// What `url::Url::parse` of `url`, then `query_pairs_mut().append_pair(name, value)`,
/// serializes to; `None` when `url` does not parse.
pub uninterp spec fn url_with_query_pair(url: Seq<char>, name: Seq<char>, value: Seq<char>) -> Option<
    Seq<char>,
>;

/// Trusted: parses `url` with `url::Url::parse` (through `openidconnect::url`), appends the
/// form-encoded query pair `name=value` and serializes it. The result is
/// `url_with_query_pair(url@, name@, value@)`, a function of the three strings alone; the
/// encoding is not restated.
#[verifier::external_body]
fn append_query_pair(url: &str, name: &str, value: &str) -> (r: Option<String>)
    ensures
        r.deep_view() == url_with_query_pair(url@, name@, value@),
{
    let mut parsed = openidconnect::url::Url::parse(url).ok()?;
    parsed.query_pairs_mut().append_pair(name, value);
    Some(parsed.to_string())
}

/// `u`, or `fallback` when there is none.
pub open spec fn or_keep(u: Option<Seq<char>>, fallback: Seq<char>) -> Seq<char> {
    match u {
        Some(v) => v,
        None => fallback,
    }
}

/// Where the browser goes after a login: the configured frontend URL, with its path replaced
/// by the login's return path when that path is safe, and with `authError=oidc_login_failed`
/// appended when the login failed. A step whose URL does not parse leaves its input as it is.
pub open spec fn spec_frontend_location(post_login: Seq<char>, return_to: Option<Seq<char>>, error: bool) -> Seq<
    char,
> {
    let base = match spec_safe_return_to(return_to) {
        Some(p) => or_keep(url_with_path(post_login, p), post_login),
        None => post_login,
    };
    if error {
        or_keep(url_with_query_pair(base, "authError"@, "oidc_login_failed"@), base)
    } else {
        base
    }
}

/// The location the callback sends the browser back to.
pub fn frontend_redirect_location(post_login: &str, return_to: Option<&str>, error: bool) -> (r:
    String)
    ensures
        r@ == spec_frontend_location(post_login@, opt_view(return_to), error),
{
    let base = match safe_return_to(return_to) {
        Some(path) => match replace_url_path(post_login, path.as_str()) {
            Some(u) => u,
            None => post_login.to_owned(),
        },
        None => post_login.to_owned(),
    };
    if error {
        match append_query_pair(base.as_str(), "authError", "oidc_login_failed") {
            Some(u) => u,
            None => base,
        }
    } else {
        base
    }
}

} // verus!
