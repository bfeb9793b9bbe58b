//! Who may do what: sessions of the administrator and tokens of devices.
use crate::clock::instant_after;
use crate::config::Config;
use crate::error::AppError;
use crate::ids::{id_value, read_id};
use crate::protocol::opt_text;
use crate::secrets::{hash_token, random_secret, token_digest, url_base64};
use crate::state::{session_expiry, AdminSession, AppState, AppView, LoginWindow};
use crate::text;
use vstd::prelude::*;

verus! {

/// A header of a request: absent, present without being plain text, or a text.
#[derive(Debug, Clone, PartialEq, Eq)]
pub enum Header {
    Absent,
    Opaque,
    Text(String),
}

impl Header {
    /// The text of the header, where it has one.
    pub open spec fn value(self) -> Option<Seq<char>> {
        match self {
            Header::Text(s) => Some(s@),
            _ => None,
        }
    }

    /// The text of the header, where it has one.
    pub fn text(&self) -> (r: Option<&str>)
        ensures
            (match r {
                Some(s) => Some(s@),
                None => None,
            }) == self.value(),
    {
        match self {
            Header::Text(s) => Some(s.as_str()),
            _ => None,
        }
    }
}

/// The headers that the relay reads.
#[derive(Debug, Clone, PartialEq, Eq)]
pub struct Headers {
    pub cookie: Header,
    pub csrf_token: Header,
    pub origin: Header,
    pub host: Header,
    pub authorization: Header,
    pub real_ip: Header,
    pub forwarded_for: Header,
    pub forwarded_host: Header,
}

/// The method of a request.
#[derive(Debug, Clone, Copy, PartialEq, Eq, Structural)]
pub enum Method {
    Get,
    Head,
    Options,
    Post,
    Put,
    Patch,
    Delete,
    Other,
}

impl Method {
    /// Whether the method only reads.
    pub open spec fn reads(self) -> bool {
        self == Method::Get || self == Method::Head || self == Method::Options
    }

    /// Whether the method only reads.
    pub fn is_read(&self) -> (r: bool)
        ensures
            r == self.reads(),
    {
        match self {
            Method::Get => true,
            Method::Head => true,
            Method::Options => true,
            _ => false,
        }
    }
}

/// A device that has shown its token.
#[derive(Debug, Clone, PartialEq, Eq)]
pub struct DeviceIdentity {
    pub id: u128,
    pub name: String,
}

/// What is stored of a device.
#[derive(Debug, Clone, PartialEq, Eq)]
pub struct StoredDevice {
    pub id: String,
    pub name: String,
    pub token_hash: String,
    pub revoked: bool,
}

/// The authority that `http` reads from the text of a URI.
pub uninterp spec fn uri_authority(text: Seq<char>) -> Option<Seq<char>>;

/// `http::Uri` read from text, and `http::Uri::authority`: the authority, where the text is a URI
/// that has one.
#[verifier::external_body]
fn read_authority(text: &str) -> (r: Option<String>)
    ensures
        opt_text(r) == uri_authority(text@),
{
    text.parse::<http::Uri>().ok().and_then(|uri| uri.authority().map(|a| a.as_str().to_owned()))
}

/// The window of attempts after one more attempt; nothing where the attempt is refused.
pub open spec fn login_step(window: Option<LoginWindow>, now: u128) -> Option<LoginWindow> {
    match window {
        Some(w) => if now > w.started_at + 60_000_000_000 {
            Some(LoginWindow { started_at: now, attempts: 1 })
        } else if w.attempts >= 5 {
            None
        } else {
            Some(LoginWindow { attempts: (w.attempts + 1) as u8, ..w })
        },
        None => Some(LoginWindow { started_at: now, attempts: 1 }),
    }
}

/// Whether a source may try to log in now; counts the attempt.
pub fn login_allowed(state: &mut AppState, key: &str, now: u128) -> (r: bool)
    requires
        old(state).wf(),
    ensures
        final(state).wf(),
        r == (login_step(old(state)@.login_attempts.get(key@), now) is Some),
        final(state)@ == (AppView {
            login_attempts: match login_step(old(state)@.login_attempts.get(key@), now) {
                Some(w) => old(state)@.login_attempts.insert(key@, w),
                None => old(state)@.login_attempts,
            },
            ..old(state)@
        }),
        (r, final(state)@) == attempted(old(state)@, key@, now),
{
    let id = key.to_owned();
    let window: LoginWindow = match state.login_attempts.get(&id) {
        Some(window) => {
            if now > window.started_at && now - window.started_at > 60_000_000_000 {
                LoginWindow { started_at: now, attempts: 1 }
            } else if window.attempts >= 5 {
                return false;
            } else {
                LoginWindow { started_at: window.started_at, attempts: window.attempts + 1 }
            }
        },
        None => LoginWindow { started_at: now, attempts: 1 },
    };
    state.login_attempts.insert(id, window);
    true
}

/// How many of a run of attempts from one source are let through.
pub open spec fn let_through(window: Option<LoginWindow>, times: Seq<u128>) -> nat
    decreases times.len(),
{
    if times.len() == 0 {
        0
    } else {
        match login_step(window, times[0]) {
            Some(w) => 1 + let_through(Some(w), times.skip(1)),
            None => let_through(window, times.skip(1)),
        }
    }
}

proof fn lemma_let_through(w: LoginWindow, times: Seq<u128>)
    requires
        w.attempts <= 5,
        forall|i: int|
            0 <= i < times.len() ==> #[trigger] times[i] <= w.started_at + 60_000_000_000,
    ensures
        let_through(Some(w), times) == if times.len() <= 5 - w.attempts {
            times.len() as int
        } else {
            5 - w.attempts
        },
    decreases times.len(),
{
    if times.len() > 0 {
        let rest = times.skip(1);
        assert forall|i: int| 0 <= i < rest.len() implies #[trigger] rest[i] <= w.started_at
            + 60_000_000_000 by {
            assert(rest[i] == times[i + 1]);
        }
        match login_step(Some(w), times[0]) {
            Some(next) => lemma_let_through(next, rest),
            None => lemma_let_through(w, rest),
        }
    }
}

/// Within a minute of its first attempt a source gets five attempts, and no more.
pub proof fn law_five_attempts_a_minute(times: Seq<u128>)
    requires
        times.len() > 0,
        forall|i: int| 0 <= i < times.len() ==> #[trigger] times[i] <= times[0] + 60_000_000_000,
    ensures
        let_through(None, times) == if times.len() < 5 {
            times.len()
        } else {
            5
        },
{
    let rest = times.skip(1);
    assert forall|i: int| 0 <= i < rest.len() implies #[trigger] rest[i] <= times[0]
        + 60_000_000_000 by {
        assert(rest[i] == times[i + 1]);
    }
    lemma_let_through(LoginWindow { started_at: times[0], attempts: 1 }, rest);
}

/// More than a minute after the first attempt the count starts anew.
pub proof fn law_attempts_start_anew(window: LoginWindow, now: u128)
    requires
        now > window.started_at + 60_000_000_000,
    ensures
        login_step(Some(window), now) == login_step(None, now),
        login_step(None, now) is Some,
{
}

/// Opens a session under a given identifier, with a given token against forged requests.
pub fn open_session(
    state: &mut AppState,
    session_id: String,
    csrf_token: String,
    username: String,
    now: u128,
)
    requires
        old(state).wf(),
        instant_after(now, old(state).config.session_ttl) <= u128::MAX,
    ensures
        final(state).wf(),
        final(state)@ == (AppView {
            sessions: old(state)@.sessions.insert(
                session_id@,
                AdminSession {
                    username,
                    csrf_token,
                    expires_at: instant_after(now, old(state).config.session_ttl) as u128,
                },
            ),
            ..old(state)@
        }),
{
    let expires_at = session_expiry(now, state.config.session_ttl);
    state.sessions.insert(session_id, AdminSession { username, csrf_token, expires_at });
}

/// Opens a session under a new random identifier; hands back the identifier and the token against
/// forged requests, which is random too.
pub fn create_session(state: &mut AppState, username: String, now: u128) -> (r: (String, String))
    requires
        old(state).wf(),
        instant_after(now, old(state).config.session_ttl) <= u128::MAX,
    ensures
        final(state).wf(),
        exists|id: Seq<u8>| id.len() == 32 && r.0@ == #[trigger] url_base64(id),
        exists|csrf: Seq<u8>| csrf.len() == 24 && r.1@ == #[trigger] url_base64(csrf),
        final(state)@ == (AppView {
            sessions: old(state)@.sessions.insert(
                r.0@,
                AdminSession {
                    username,
                    csrf_token: r.1,
                    expires_at: instant_after(now, old(state).config.session_ttl) as u128,
                },
            ),
            ..old(state)@
        }),
{
    let session_id = random_secret(32);
    let csrf_token = random_secret(24);
    open_session(state, session_id.clone(), csrf_token.clone(), username, now);
    (session_id, csrf_token)
}

/// What a cookie carries at its end.
pub open spec fn secure_mark(config: Config) -> Seq<char> {
    if config.secure_cookies {
        "; Secure"@
    } else {
        ""@
    }
}

/// The cookie of a session.
pub open spec fn session_cookie_text(config: Config, session_id: Seq<char>) -> Seq<char> {
    "tb_session="@ + session_id + "; Path=/; HttpOnly; SameSite=Strict; Max-Age="@ + text::decimal(
        config.session_ttl as nat,
    ) + secure_mark(config)
}

/// The cookie that clears a session.
pub open spec fn clear_cookie_text(config: Config) -> Seq<char> {
    "tb_session=; Path=/; HttpOnly; SameSite=Strict; Max-Age=0"@ + secure_mark(config)
}

/// The cookie of a session.
pub fn session_cookie(config: &Config, session_id: &str) -> (r: String)
    ensures
        r@ == session_cookie_text(*config, session_id@),
{
    let mut out: String = "tb_session=".to_owned();
    out.append(session_id);
    out.append("; Path=/; HttpOnly; SameSite=Strict; Max-Age=");
    out.append(text::decimal_text(config.session_ttl).as_str());
    if config.secure_cookies {
        out.append("; Secure");
    } else {
        out.append("");
    }
    out
}

/// The cookie that clears a session.
pub fn clear_session_cookie(config: &Config) -> (r: String)
    ensures
        r@ == clear_cookie_text(*config),
{
    let mut out: String = "tb_session=; Path=/; HttpOnly; SameSite=Strict; Max-Age=0".to_owned();
    if config.secure_cookies {
        out.append("; Secure");
    } else {
        out.append("");
    }
    out
}

/// The value of the first cookie with a name among the parts of a cookie header.
pub open spec fn cookie_among(parts: Seq<Seq<char>>, name: Seq<char>) -> Option<Seq<char>>
    decreases parts.len(),
{
    if parts.len() == 0 {
        None
    } else {
        let part = text::trimmed(parts[0]);
        if part.contains('=') && text::before(part, '=') == name {
            Some(text::after(part, '='))
        } else {
            cookie_among(parts.skip(1), name)
        }
    }
}

/// The value of the first cookie with a name.
pub open spec fn cookie_of(header: Header, name: Seq<char>) -> Option<Seq<char>> {
    match header.value() {
        Some(s) => cookie_among(text::parts(s, ';'), name),
        None => None,
    }
}

/// The value of the first cookie with a name.
pub fn cookie_value(header: &Header, name: &str) -> (r: Option<String>)
    ensures
        opt_text(r) == cookie_of(*header, name@),
{
    let value = match header.text() {
        Some(s) => s,
        None => {
            return None;
        },
    };
    let parts = text::split(value, ';');
    let ghost all = text::views(parts@);
    let mut i: usize = 0;
    assert(all.skip(0) =~= all);
    while i < parts.len()
        invariant
            i <= parts@.len(),
            all == text::views(parts@),
            header.value() == Some(value@),
            all == text::parts(value@, ';'),
            cookie_among(all, name@) == cookie_among(all.skip(i as int), name@),
        decreases parts@.len() - i,
    {
        let ghost rest = all.skip(i as int);
        assert(rest[0] == parts@[i as int]@);
        assert(rest.skip(1) =~= all.skip(i + 1));
        if let Some((key, found)) = text::split_once(text::trim(parts[i]), '=') {
            if text::same(key, name) {
                return Some(found.to_owned());
            }
        }
        i += 1;
    }
    None
}

/// Whether the authority of an origin is the host that the request names.
pub open spec fn same_authority(authority: Option<Seq<char>>, host: Seq<char>) -> bool {
    match authority {
        Some(a) => text::lower(a) == text::lower(host),
        None => false,
    }
}

/// Whether the authority of an origin is the host that the request names, whatever the case of
/// their letters.
pub fn origin_matches(authority: &Option<String>, host: &str) -> (r: bool)
    ensures
        r == same_authority(opt_text(*authority), host@),
{
    match authority {
        Some(a) => text::same(
            text::to_lower(a.as_str()).as_str(),
            text::to_lower(host).as_str(),
        ),
        None => false,
    }
}

/// The host that a request names, or nothing.
pub open spec fn host_of(h: Headers) -> Seq<char> {
    match h.host.value() {
        Some(s) => s,
        None => ""@,
    }
}

/// Whether a request comes from a page of the relay itself, as far as it tells.
pub open spec fn origin_ok(h: Headers) -> bool {
    match h.origin.value() {
        Some(origin) => same_authority(uri_authority(origin), host_of(h)),
        None => true,
    }
}

/// The session that admits a request, or the error that answers it.
pub open spec fn admin_check(s: AppView, h: Headers, m: Method, now: u128) -> Result<
    AdminSession,
    AppError,
> {
    match cookie_of(h.cookie, "tb_session"@) {
        None => Err(AppError::Unauthorized),
        Some(id) => if !s.sessions.contains_key(id) || s.sessions[id].expires_at <= now {
            Err(AppError::Unauthorized)
        } else if !m.reads() && (h.csrf_token.value() != Some(s.sessions[id].csrf_token@)
            || !origin_ok(h)) {
            Err(AppError::Forbidden)
        } else {
            Ok(s.sessions[id])
        },
    }
}

/// The sessions after a request was checked: a session that has ended leaves.
pub open spec fn sessions_after(s: AppView, h: Headers, now: u128) -> Map<Seq<char>, AdminSession> {
    match cookie_of(h.cookie, "tb_session"@) {
        Some(id) => if s.sessions.contains_key(id) && s.sessions[id].expires_at <= now {
            s.sessions.remove(id)
        } else {
            s.sessions
        },
        None => s.sessions,
    }
}

/// Admits a request of the administrator; hands back the name and the token against forged
/// requests.
pub fn require_admin(state: &mut AppState, headers: &Headers, method: Method, now: u128) -> (r:
    Result<(String, String), AppError>)
    requires
        old(state).wf(),
    ensures
        final(state).wf(),
        final(state)@ == (AppView {
            sessions: sessions_after(old(state)@, *headers, now),
            ..old(state)@
        }),
        match admin_check(old(state)@, *headers, method, now) {
            Ok(session) => r == Ok::<(String, String), AppError>(
                (session.username, session.csrf_token),
            ),
            Err(e) => r == Err::<(String, String), AppError>(e),
        },
{
    let session_id = match cookie_value(&headers.cookie, "tb_session") {
        Some(id) => id,
        None => {
            return Err(AppError::Unauthorized);
        },
    };
    let (username, csrf_token, expired) = match state.sessions.get(&session_id) {
        Some(session) => (
            session.username.clone(),
            session.csrf_token.clone(),
            session.expires_at <= now,
        ),
        None => {
            return Err(AppError::Unauthorized);
        },
    };
    if expired {
        state.sessions.remove(&session_id);
        return Err(AppError::Unauthorized);
    }
    if !method.is_read() {
        match headers.csrf_token.text() {
            Some(csrf) => if !text::same(csrf, csrf_token.as_str()) {
                return Err(AppError::Forbidden);
            },
            None => {
                return Err(AppError::Forbidden);
            },
        }
        if let Some(origin) = headers.origin.text() {
            let host = match headers.host.text() {
                Some(host) => host,
                None => "",
            };
            if !origin_matches(&read_authority(origin), host) {
                return Err(AppError::Forbidden);
            }
        }
    }
    Ok((username, csrf_token))
}

/// Ends the session that a request names.
pub fn remove_session(state: &mut AppState, headers: &Headers)
    requires
        old(state).wf(),
    ensures
        final(state).wf(),
        final(state)@ == (AppView {
            sessions: match cookie_of(headers.cookie, "tb_session"@) {
                Some(id) => old(state)@.sessions.remove(id),
                None => old(state)@.sessions,
            },
            ..old(state)@
        }),
{
    if let Some(id) = cookie_value(&headers.cookie, "tb_session") {
        state.sessions.remove(&id);
    }
}

/// The token that a request shows.
pub open spec fn bearer_of(h: Headers) -> Option<Seq<char>> {
    match h.authorization.value() {
        Some(s) => if text::has_prefix(s, "Bearer "@) {
            Some(s.skip("Bearer "@.len() as int))
        } else {
            None
        },
        None => None,
    }
}

/// The digest under which the device of a request is stored.
pub fn device_key(headers: &Headers) -> (r: Result<String, AppError>)
    ensures
        match bearer_of(*headers) {
            Some(token) => r matches Ok(key) && key@ == token_digest(token),
            None => r == Err::<String, AppError>(AppError::Unauthorized),
        },
{
    match headers.authorization.text() {
        Some(value) => match text::strip_prefix(value, "Bearer ") {
            Some(token) => Ok(hash_token(token)),
            None => Err(AppError::Unauthorized),
        },
        None => Err(AppError::Unauthorized),
    }
}

/// The place of the first device that is stored under a digest and was not revoked, or the number of
/// devices.
pub open spec fn device_place(rows: Seq<StoredDevice>, key: Seq<char>) -> nat
    decreases rows.len(),
{
    if rows.len() == 0 || (rows[0].token_hash@ == key && !rows[0].revoked) {
        0
    } else {
        1 + device_place(rows.skip(1), key)
    }
}

/// The identifier and the name of the device that is stored under a digest and may come in.
pub open spec fn device_under(rows: Seq<StoredDevice>, key: Seq<char>) -> Option<(u128, Seq<char>)> {
    let place = device_place(rows, key) as int;
    if place < rows.len() && id_value(rows[place].id@) is Some {
        Some((id_value(rows[place].id@)->0, rows[place].name@))
    } else {
        None
    }
}

/// The device that makes a request.
pub open spec fn caller_of(rows: Seq<StoredDevice>, h: Headers) -> Option<(u128, Seq<char>)> {
    match bearer_of(h) {
        Some(token) => device_under(rows, token_digest(token)),
        None => None,
    }
}

/// The device that is stored under a digest and may come in. One that was revoked may not.
pub fn find_device(rows: &Vec<StoredDevice>, key: &str) -> (r: Option<DeviceIdentity>)
    ensures
        (match r {
            Some(device) => Some((device.id, device.name@)),
            None => None,
        }) == device_under(rows@, key@),
{
    let mut i: usize = 0;
    assert(rows@.skip(0) =~= rows@);
    while i < rows.len()
        invariant
            i <= rows@.len(),
            device_place(rows@, key@) == i + device_place(rows@.skip(i as int), key@),
        decreases rows@.len() - i,
    {
        assert(rows@.skip(i as int)[0] == rows@[i as int]);
        assert(rows@.skip(i as int).skip(1) =~= rows@.skip(i + 1));
        if text::same(rows[i].token_hash.as_str(), key) && !rows[i].revoked {
            return match read_id(rows[i].id.as_str()) {
                Ok(id) => Some(DeviceIdentity { id, name: rows[i].name.clone() }),
                Err(_) => None,
            };
        }
        i += 1;
    }
    None
}

/// The device that makes a request: the one that is stored under the digest of the token that the
/// request shows.
pub fn require_device(rows: &Vec<StoredDevice>, headers: &Headers) -> (r: Result<
    DeviceIdentity,
    AppError,
>)
    ensures
        match caller_of(rows@, *headers) {
            Some((id, name)) => r matches Ok(device) && device.id == id && device.name@ == name,
            None => r == Err::<DeviceIdentity, AppError>(AppError::Unauthorized),
        },
{
    match device_key(headers) {
        Ok(key) => match find_device(rows, key.as_str()) {
            Some(device) => Ok(device),
            None => Err(AppError::Unauthorized),
        },
        Err(_) => Err(AppError::Unauthorized),
    }
}

/// A device is found at the first place that holds it.
pub proof fn lemma_device_place(rows: Seq<StoredDevice>, key: Seq<char>, place: int)
    requires
        0 <= place <= rows.len(),
        place < rows.len() ==> rows[place].token_hash@ == key && !rows[place].revoked,
        forall|i: int|
            0 <= i < place ==> (#[trigger] rows[i]).token_hash@ != key || rows[i].revoked,
    ensures
        device_place(rows, key) == place,
    decreases rows.len(),
{
    if place > 0 {
        assert(rows[0].token_hash@ != key || rows[0].revoked);
        assert forall|i: int| 0 <= i < place - 1 implies (#[trigger] rows.skip(1)[i]).token_hash@
            != key || rows.skip(1)[i].revoked by {
            assert(rows.skip(1)[i] == rows[i + 1]);
        }
        lemma_device_place(rows.skip(1), key, place - 1);
    }
}

/// What holds of the place of a device.
pub proof fn lemma_device_found(rows: Seq<StoredDevice>, key: Seq<char>)
    ensures
        device_place(rows, key) <= rows.len(),
        device_place(rows, key) < rows.len() ==> {
            let row = rows[device_place(rows, key) as int];
            row.token_hash@ == key && !row.revoked
        },
        forall|i: int|
            0 <= i < device_place(rows, key) ==> (#[trigger] rows[i]).token_hash@ != key
                || rows[i].revoked,
    decreases rows.len(),
{
    if rows.len() > 0 && (rows[0].token_hash@ != key || rows[0].revoked) {
        lemma_device_found(rows.skip(1), key);
        assert forall|i: int| 0 <= i < device_place(rows, key) implies (
        #[trigger] rows[i]).token_hash@ != key || rows[i].revoked by {
            if i > 0 {
                assert(rows[i] == rows.skip(1)[i - 1]);
            }
        }
    }
}

/// A device that was revoked is not let in: nobody comes in with a token whose digest is stored for
/// revoked devices alone.
pub proof fn law_revoked_devices_are_kept_out(rows: Seq<StoredDevice>, key: Seq<char>)
    requires
        forall|i: int|
            0 <= i < rows.len() && (#[trigger] rows[i]).token_hash@ == key ==> rows[i].revoked,
    ensures
        device_under(rows, key) is None,
{
    lemma_device_place(rows, key, rows.len() as int);
}

/// A request that changes something is admitted only with the token against forged requests of
/// its session, and, where it tells its origin, only from the relay's own pages.
pub proof fn law_changes_need_the_csrf_token(s: AppView, h: Headers, m: Method, now: u128)
    requires
        !m.reads(),
        admin_check(s, h, m, now) is Ok,
    ensures
        h.csrf_token.value() == Some(admin_check(s, h, m, now)->Ok_0.csrf_token@),
        origin_ok(h),
{
}

/// A session admits nobody once its time is over.
pub proof fn law_sessions_end(s: AppView, h: Headers, m: Method, now: u128)
    requires
        cookie_of(h.cookie, "tb_session"@) matches Some(id) ==> s.sessions.contains_key(id)
            ==> s.sessions[id].expires_at <= now,
    ensures
        admin_check(s, h, m, now) == Err::<AdminSession, AppError>(AppError::Unauthorized),
{
}

/// After a logout the same request is not admitted, whatever its method and time.
pub proof fn law_logout_ends_the_session(s: AppView, t: AppView, h: Headers, m: Method, now: u128)
    requires
        t.sessions == (match cookie_of(h.cookie, "tb_session"@) {
            Some(id) => s.sessions.remove(id),
            None => s.sessions,
        }),
    ensures
        admin_check(t, h, m, now) == Err::<AdminSession, AppError>(AppError::Unauthorized),
{
}

/// Where no session is left, nobody is admitted.
pub proof fn law_without_sessions_nobody_is_admitted(s: AppView, h: Headers, m: Method, now: u128)
    requires
        s.sessions == Map::<Seq<char>, AdminSession>::empty(),
    ensures
        admin_check(s, h, m, now) == Err::<AdminSession, AppError>(AppError::Unauthorized),
{
}

/// A session that was just opened admits the requests that carry its cookie until it ends:
/// requests that read at once, and requests that change something with its token and no foreign
/// origin.
pub proof fn law_new_session_admits(
    s: AppView,
    id: Seq<char>,
    session: AdminSession,
    h: Headers,
    m: Method,
    now: u128,
)
    requires
        cookie_of(h.cookie, "tb_session"@) == Some(id),
        now < session.expires_at,
        m.reads() || (h.csrf_token.value() == Some(session.csrf_token@) && origin_ok(h)),
    ensures
        admin_check(
            AppView { sessions: s.sessions.insert(id, session), ..s },
            h,
            m,
            now,
        ) == Ok::<AdminSession, AppError>(session),
{
}

/// The characters of a secret are letters, digits, hyphens and underscores.
proof fn lemma_secret_chars(bytes: Seq<u8>, i: int)
    requires
        0 <= i < url_base64(bytes).len(),
    ensures
        url_base64(bytes)[i] != ';',
        url_base64(bytes)[i] != '=',
        !text::is_white(url_base64(bytes)[i]),
{
    crate::secrets::lemma_sextet(bytes, i);
}

/// What a client hands back of the cookie of a session, the part before the first semicolon, names
/// that session.
pub proof fn law_session_cookie_is_read_back(config: Config, bytes: Seq<u8>, h: Header)
    requires
        h.value() == Some(
            text::before(session_cookie_text(config, url_base64(bytes)), ';'),
        ),
    ensures
        cookie_of(h, "tb_session"@) == Some(url_base64(bytes)),
{
    let id = url_base64(bytes);
    let key = "tb_session"@;
    let cookie = "tb_session="@ + id;
    let all = session_cookie_text(config, id);
    reveal_strlit("tb_session");
    reveal_strlit("tb_session=");
    reveal_strlit("; Path=/; HttpOnly; SameSite=Strict; Max-Age=");
    assert forall|i: int| 0 <= i < cookie.len() implies cookie[i] != ';' && !text::is_white(
        cookie[i],
    ) && (cookie[i] == '=' ==> i == 10) by {
        if i >= 11 {
            lemma_secret_chars(bytes, i - 11);
            assert(cookie[i] == id[i - 11]);
        }
    }
    text::lemma_first_at(all, ';');
    assert(all[cookie.len() as int] == ';');
    assert forall|i: int| 0 <= i < cookie.len() implies all[i] == cookie[i] by {}
    let n = text::first_at(all, ';') as int;
    assert(all.contains(';'));
    assert(n == cookie.len()) by {
        if n < cookie.len() {
            assert(all[n] == cookie[n]);
        }
        if n > cookie.len() {
            assert(all[cookie.len() as int] != ';');
        }
    }
    let sent = text::before(all, ';');
    assert(sent =~= cookie);
    assert(!sent.contains(';')) by {
        if sent.contains(';') {
            let i = sent.index_of(';');
            assert(sent[i] == ';');
        }
    }
    assert(text::parts(sent, ';') =~= seq![sent]);
    assert(text::trimmed(sent) == sent);
    text::lemma_first_at(sent, '=');
    assert(sent[10] == '=');
    assert(sent.contains('='));
    let m = text::first_at(sent, '=') as int;
    assert(m == 10) by {
        if m > 10 {
            assert(sent[10] != '=');
        }
    }
    assert(text::before(sent, '=') =~= key);
    assert(text::after(sent, '=') =~= id);
}

/// The methods that change nothing are GET, HEAD and OPTIONS.
pub proof fn law_reading_methods(m: Method)
    ensures
        m.reads() <==> m is Get || m is Head || m is Options,
{
}

/// A request with an origin is from the relay's own pages where the authority of the origin is the
/// host that was asked, whatever the case of the letters; one without an origin is taken.
pub proof fn law_origins(h: Headers)
    ensures
        h.origin.value() is None ==> origin_ok(h),
        h.origin.value() matches Some(origin) ==> {
            &&& uri_authority(origin) is None ==> !origin_ok(h)
            &&& uri_authority(origin) matches Some(a) ==> h.host.value() matches Some(host) ==> (a
                == host ==> origin_ok(h)) && (text::lower(a) != text::lower(host) ==> !origin_ok(h))
        },
{
}

/// A request is admitted with the session that its cookie names, while that lasts: reading needs
/// nothing more, changing also the token of that session against forged requests and an origin of
/// the relay's own. Without such a session it is not authenticated, without the rest it is forbidden.
pub proof fn law_sessions_admit(s: AppView, h: Headers, m: Method, now: u128)
    ensures
        ({
            let r = admin_check(s, h, m, now);
            match cookie_of(h.cookie, "tb_session"@) {
                None => r == Err::<AdminSession, AppError>(AppError::Unauthorized),
                Some(id) => {
                    let live = s.sessions.contains_key(id) && now < s.sessions[id].expires_at;
                    let read = m is Get || m is Head || m is Options;
                    let proved = h.csrf_token.value() == Some(s.sessions[id].csrf_token@)
                        && origin_ok(h);
                    &&& !live ==> r == Err::<AdminSession, AppError>(AppError::Unauthorized)
                    &&& live && (read || proved) ==> r == Ok::<AdminSession, AppError>(
                        s.sessions[id],
                    )
                    &&& live && !read && !proved ==> r == Err::<AdminSession, AppError>(
                        AppError::Forbidden,
                    )
                },
            }
        }),
{
}

/// Checking a request ends its own session where its time is over, and no other.
pub proof fn law_only_sessions_that_are_over_end(s: AppView, h: Headers, now: u128, id: Seq<char>)
    ensures
        sessions_after(s, h, now).contains_key(id) ==> s.sessions.contains_key(id)
            && sessions_after(s, h, now)[id] == s.sessions[id],
        s.sessions.contains_key(id) && !sessions_after(s, h, now).contains_key(id) ==> cookie_of(
            h.cookie,
            "tb_session"@,
        ) == Some(id) && s.sessions[id].expires_at <= now,
        s.sessions.contains_key(id) && cookie_of(h.cookie, "tb_session"@) == Some(id)
            && s.sessions[id].expires_at <= now ==> !sessions_after(s, h, now).contains_key(id),
{
}

/// A cookie is found by its name, alone, before others and behind others.
pub proof fn law_cookies_are_found(name: Seq<char>, value: Seq<char>, other: Seq<char>, h: Header)
    requires
        name.len() > 0,
        !name.contains('='),
        !name.contains(';'),
        !value.contains(';'),
        !text::is_white(name[0]),
        value.len() > 0,
        !text::is_white(value.last()),
        !other.contains(';'),
        other.contains('='),
        text::trimmed(other) == other,
        other.len() > 0,
        text::before(other, '=') != name,
    ensures
        h.value() == Some(name + seq!['='] + value) ==> cookie_of(h, name) == Some(value),
        h.value() == Some(name + seq!['='] + value + seq![';'] + other) ==> cookie_of(h, name)
            == Some(value),
        h.value() == Some(other + seq![';'] + (name + seq!['='] + value)) ==> cookie_of(h, name)
            == Some(value),
        h.value() == Some(other) ==> cookie_of(h, name) is None,
{
    let pair = name + seq!['='] + value;
    assert forall|i: int| 0 <= i < pair.len() implies pair[i] != ';' by {
        if i < name.len() {
            assert(pair[i] == name[i]);
            assert(name.contains(name[i]));
        } else if i > name.len() {
            assert(pair[i] == value[i - name.len() - 1]);
            assert(value.contains(value[i - name.len() - 1]));
        }
    }
    assert(pair[0] == name[0]);
    assert(pair.last() == value.last());
    assert(text::trimmed(pair) == pair);
    crate::readback::lemma_cut(name, '=', value);
    crate::readback::lemma_cut(pair, ';', other);
    crate::readback::lemma_cut(other, ';', pair);
    reveal_with_fuel(cookie_among, 3);
    assert(text::parts(pair, ';') =~= seq![pair]);
    assert(text::parts(other, ';') =~= seq![other]);
    let front = pair + seq![';'] + other;
    let behind = other + seq![';'] + pair;
    assert(text::parts(front, ';') =~= seq![pair, other]);
    assert(text::parts(behind, ';') =~= seq![other, pair]);
    assert(seq![other, pair].skip(1) =~= seq![pair]);
    assert(seq![other].skip(1) =~= Seq::<Seq<char>>::empty());
}

/// The token of a device stands behind `Bearer` and a space; another header shows none.
pub proof fn law_bearer_tokens(h: Headers, token: Seq<char>)
    ensures
        h.authorization.value() == Some("Bearer "@ + token) ==> bearer_of(h) == Some(token),
        h.authorization.value() is None ==> bearer_of(h) is None,
        bearer_of(h) matches Some(t) ==> h.authorization.value() == Some("Bearer "@ + t),
{
    let p = "Bearer "@;
    let s = p + token;
    assert(s.take(p.len() as int) =~= p);
    assert(s.skip(p.len() as int) =~= token);
    if h.authorization.value() is Some {
        let v = h.authorization.value()->0;
        if text::has_prefix(v, p) {
            assert(v =~= v.take(p.len() as int) + v.skip(p.len() as int));
        }
    }
}

/// The device behind a digest is one that is stored under it and was not revoked, the first of them;
/// where there is one, it is found, with the identifier and the name that are stored.
pub proof fn law_devices_are_found(rows: Seq<StoredDevice>, key: Seq<char>, i: int)
    requires
        0 <= i < rows.len(),
        rows[i].token_hash@ == key,
        !rows[i].revoked,
        forall|k: int| 0 <= k < rows.len() && k != i ==> (#[trigger] rows[k]).token_hash@ != key,
    ensures
        id_value(rows[i].id@) matches Some(id) ==> device_under(rows, key) == Some(
            (id, rows[i].name@),
        ),
        id_value(rows[i].id@) is None ==> device_under(rows, key) is None,
{
    lemma_device_place(rows, key, i);
}

/// Whether a text stands somewhere in another is seen from the place where it stands.
proof fn lemma_holds_at(s: Seq<char>, pattern: Seq<char>, i: int)
    requires
        0 <= i <= s.len() - pattern.len(),
        s.subrange(i, i + pattern.len()) == pattern,
    ensures
        text::holds(s, pattern),
    decreases i,
{
    if i == 0 {
        assert(s.take(pattern.len() as int) =~= s.subrange(0, pattern.len() as int));
    } else {
        assert(s.skip(1).subrange(i - 1, i - 1 + pattern.len()) =~= s.subrange(
            i,
            i + pattern.len(),
        ));
        lemma_holds_at(s.skip(1), pattern, i - 1);
    }
}

/// The cookie of a session is kept from scripts and from other sites, and lasts as long as the
/// session; it goes over encrypted connections alone where the relay asks for that. The cookie that
/// clears it has the same marks, and is over at once.
pub proof fn law_cookies_are_guarded(config: Config, id: Seq<char>)
    ensures
        text::has_prefix(session_cookie_text(config, id), "tb_session="@ + id + ";"@),
        text::holds(session_cookie_text(config, id), "; HttpOnly"@),
        text::holds(session_cookie_text(config, id), "; SameSite=Strict"@),
        text::holds(
            session_cookie_text(config, id),
            "; Max-Age="@ + text::decimal(config.session_ttl as nat),
        ),
        config.secure_cookies ==> text::has_suffix(session_cookie_text(config, id), "; Secure"@),
        config.secure_cookies ==> text::has_suffix(clear_cookie_text(config), "; Secure"@),
        text::has_prefix(clear_cookie_text(config), "tb_session=;"@),
        text::holds(clear_cookie_text(config), "; HttpOnly"@),
        text::holds(clear_cookie_text(config), "; SameSite=Strict"@),
        text::holds(clear_cookie_text(config), "; Max-Age=0"@),
{
    reveal_strlit("tb_session=");
    reveal_strlit(";");
    reveal_strlit("; Path=/; HttpOnly; SameSite=Strict; Max-Age=");
    reveal_strlit("tb_session=; Path=/; HttpOnly; SameSite=Strict; Max-Age=0");
    reveal_strlit("; HttpOnly");
    reveal_strlit("; SameSite=Strict");
    reveal_strlit("; Max-Age=");
    reveal_strlit("; Max-Age=0");
    reveal_strlit("; Secure");
    reveal_strlit("tb_session=;");
    reveal_strlit("");
    let (a, b) = ("tb_session="@, "; Path=/; HttpOnly; SameSite=Strict; Max-Age="@);
    let n = text::decimal(config.session_ttl as nat);
    let s = session_cookie_text(config, id);
    let k = (a.len() + id.len()) as int;
    assert(s =~= a + id + b + n + secure_mark(config));
    assert(s.take(k + 1) =~= a + id + ";"@);
    assert(b.subrange(8, 18) =~= "; HttpOnly"@);
    assert(s.subrange(k + 8, k + 18) =~= "; HttpOnly"@);
    lemma_holds_at(s, "; HttpOnly"@, k + 8);
    assert(b.subrange(18, 35) =~= "; SameSite=Strict"@);
    assert(s.subrange(k + 18, k + 35) =~= "; SameSite=Strict"@);
    lemma_holds_at(s, "; SameSite=Strict"@, k + 18);
    let m = "; Max-Age="@ + n;
    assert(b.subrange(35, 45) =~= "; Max-Age="@);
    assert(s.subrange(k + 35, k + 35 + m.len()) =~= m);
    lemma_holds_at(s, m, k + 35);
    let c = "tb_session=; Path=/; HttpOnly; SameSite=Strict; Max-Age=0"@;
    let t = clear_cookie_text(config);
    assert(t.take(12) =~= "tb_session=;"@);
    assert(c.subrange(19, 29) =~= "; HttpOnly"@);
    assert(t.subrange(19, 29) =~= "; HttpOnly"@);
    lemma_holds_at(t, "; HttpOnly"@, 19);
    assert(t.subrange(29, 46) =~= "; SameSite=Strict"@);
    lemma_holds_at(t, "; SameSite=Strict"@, 29);
    assert(t.subrange(46, 57) =~= "; Max-Age=0"@);
    lemma_holds_at(t, "; Max-Age=0"@, 46);
    if config.secure_cookies {
        assert(s.skip(s.len() - 8) =~= "; Secure"@);
        assert(t.skip(t.len() - 8) =~= "; Secure"@);
    }
}

/// Whether a source may try to sign in now, and what is known of its attempts then.
pub open spec fn attempted(s: AppView, key: Seq<char>, now: u128) -> (bool, AppView) {
    match login_step(s.login_attempts.get(key), now) {
        Some(w) => (true, AppView { login_attempts: s.login_attempts.insert(key, w), ..s }),
        None => (false, s),
    }
}

/// The attempts of a source count for it alone: a source that is new may try whatever others did, the
/// fifth attempt within a minute is the last one, and other sources keep their own count.
pub proof fn law_sources_are_limited_apart(
    s: AppView,
    key: Seq<char>,
    other: Seq<char>,
    now: u128,
)
    ensures
        !s.login_attempts.contains_key(key) ==> attempted(s, key, now).0,
        s.login_attempts.contains_key(key) && s.login_attempts[key].attempts >= 5 && now
            <= s.login_attempts[key].started_at + 60_000_000_000 ==> !attempted(s, key, now).0,
        s.login_attempts.contains_key(key) && s.login_attempts[key].attempts < 5 ==> attempted(
            s,
            key,
            now,
        ).0,
        other != key ==> attempted(s, key, now).1.login_attempts.contains_key(other)
            == s.login_attempts.contains_key(other),
        other != key && s.login_attempts.contains_key(other) ==> attempted(
            s,
            key,
            now,
        ).1.login_attempts[other] == s.login_attempts[other],
        attempted(s, key, now).1.sessions == s.sessions,
        attempted(s, key, now).0 ==> attempted(s, key, now).1.login_attempts.contains_key(key),
{
}

/// A request with an origin that does not say which host it asks is not from the relay's own pages.
pub proof fn law_origins_need_a_host(h: Headers, origin: Seq<char>, a: Seq<char>)
    requires
        h.origin.value() == Some(origin),
        uri_authority(origin) == Some(a),
        a.len() > 0,
        h.host.value() is None,
    ensures
        !origin_ok(h),
{
    reveal_strlit("");
    assert(text::lower(a).len() == a.len());
    assert(text::lower(""@).len() == 0);
}

/// A cookie carries nothing behind its life time where the relay does not ask for encryption.
pub proof fn law_cookies_end_with_their_life(config: Config, id: Seq<char>)
    requires
        !config.secure_cookies,
    ensures
        text::has_suffix(
            session_cookie_text(config, id),
            "; Max-Age="@ + text::decimal(config.session_ttl as nat),
        ),
        text::has_suffix(clear_cookie_text(config), "; Max-Age=0"@),
{
    reveal_strlit("tb_session=; Path=/; HttpOnly; SameSite=Strict; Max-Age=0");
    reveal_strlit("; Path=/; HttpOnly; SameSite=Strict; Max-Age=");
    reveal_strlit("; Max-Age=");
    reveal_strlit("; Max-Age=0");
    reveal_strlit("");
    let b = "; Path=/; HttpOnly; SameSite=Strict; Max-Age="@;
    let n = text::decimal(config.session_ttl as nat);
    let s = session_cookie_text(config, id);
    let m = "; Max-Age="@ + n;
    assert(s =~= "tb_session="@ + id + b + n);
    assert(b.skip(b.len() - 10) =~= "; Max-Age="@);
    assert(s.skip(s.len() - m.len()) =~= m);
    let t = clear_cookie_text(config);
    assert(t.skip(t.len() - 11) =~= "; Max-Age=0"@);
}

} // verus!
