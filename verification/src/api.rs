//! What the requests of the console and of the agents do.
use crate::auth::{
    admin_check, bearer_of, caller_of, clear_cookie_text, clear_session_cookie, cookie_of,
    device_place, device_under, law_revoked_devices_are_kept_out, lemma_device_found,
    lemma_device_place, login_allowed, login_step, open_session, remove_session, require_admin,
    session_cookie, session_cookie_text, sessions_after, Header, Headers, Method, StoredDevice,
};
use crate::carrier::{relay_capabilities, server_capabilities};
use crate::clock::{
    days_before, days_fit, instant_after, read_time, time_error, time_text, time_value, write_time,
};
use crate::config::Config;
use crate::error::{bad, bad_request, fault, AppError};
use crate::gateway::{
    forwarded_ip, listens, parse_forwarded_ip, reconcile_listener, stop_listener, ListenerChange,
};
use crate::ids::{id_error, id_text, id_value, new_id, read_id, write_id};
use crate::net::{self, any_contains, any_covers, ip_string, ip_text, normalize_ip, unmapped, IpAddr};
use crate::protocol::{
    opt_text, tunnel_views, ActiveConnection, AgentEnrollmentResponse, ApiError, AuditEntry,
    CreateDeviceRequest, Device, DeviceTokenResponse, LoginRequest, LoginResponse, MetricsSnapshot,
    Timestamp, Tunnel, TunnelKind, TunnelStatus, TunnelView,
};
use crate::registry::{retained, Registry};
use crate::rows::{
    answers_one, get_by_hostname, host_count, host_place, hostname_is_enabled, TunnelRow,
};
use crate::secrets::{
    argon2_accepts, hash_of, hash_password, hash_token, hashable, random_secret, standard_base64,
    token_digest, url_base64, verify_password,
};
use crate::socket::SocketAddr;
use crate::state::{
    inc, metrics_of, AdminSession, AppState, AppView, Counters, PendingConnection,
};
use crate::text;
use crate::transport_identity::{certificate_base64, fingerprint, TransportIdentity};
use vstd::prelude::*;
use vstd::utf8::encode_utf8;

verus! {

// The audit log.
/// A line for the audit log.
#[derive(Debug, Clone, PartialEq, Eq)]
pub struct Audit {
    pub action: String,
    pub subject: String,
    pub detail: String,
}

/// Whether a line says what was done, to what, and how.
pub open spec fn notes(a: Audit, action: Seq<char>, subject: Seq<char>, detail: Seq<char>) -> bool {
    a.action@ == action && a.subject@ == subject && a.detail@ == detail
}

/// A line for the audit log.
pub fn audit(action: &str, subject: &str, detail: &str) -> (r: Audit)
    ensures
        notes(r, action@, subject@, detail@),
{
    Audit { action: action.to_owned(), subject: subject.to_owned(), detail: detail.to_owned() }
}

/// Who asks for a change.
#[derive(Debug, Clone, PartialEq, Eq)]
pub enum Actor {
    Administrator(String),
    Device(String),
}

/// What an actor is called in the audit log.
pub open spec fn called(actor: Actor) -> Seq<char> {
    match actor {
        Actor::Administrator(name) => name@,
        Actor::Device(name) => "device "@ + name@,
    }
}

/// What an actor did, for the audit log.
fn done_by(verb: &str, actor: &Actor) -> (r: String)
    ensures
        r@ == verb@ + called(*actor),
{
    let mut out: String = verb.to_owned();
    match actor {
        Actor::Administrator(name) => {
            out.append(name.as_str());
        },
        Actor::Device(name) => {
            let device = text::join("device ", name.as_str());
            out.append(device.as_str());
        },
    }
    out
}

// The administrator.
/// The administrator, as a request that was admitted shows.
#[derive(Debug, Clone, PartialEq, Eq)]
pub struct Admin {
    username: String,
    csrf_token: String,
}

impl Admin {
    /// The name of the administrator.
    pub closed spec fn name(self) -> String {
        self.username
    }

    /// The token against forged requests of the session.
    pub closed spec fn token(self) -> String {
        self.csrf_token
    }

    /// The name as an actor.
    pub fn actor(&self) -> (r: Actor)
        ensures
            r == Actor::Administrator(self.name()),
    {
        Actor::Administrator(self.username.clone())
    }
}

/// Admits a request of the administrator.
pub fn authorize(state: &mut AppState, headers: &Headers, method: Method, now: u128) -> (r: Result<
    Admin,
    AppError,
>)
    requires
        old(state).wf(),
    ensures
        final(state).wf(),
        final(state)@ == (AppView {
            sessions: sessions_after(old(state)@, *headers, now),
            ..old(state)@
        }),
        match admin_check(old(state)@, *headers, method, now) {
            Ok(session) => r matches Ok(admin) && admin.name() == session.username && admin.token()
                == session.csrf_token,
            Err(e) => r == Err::<Admin, AppError>(e),
        },
{
    match require_admin(state, headers, method, now) {
        Ok((username, csrf_token)) => Ok(Admin { username, csrf_token }),
        Err(e) => Err(e),
    }
}

/// The address that counts for the rate of login attempts.
pub open spec fn rate_ip(h: Headers, peer: IpAddr) -> IpAddr {
    let direct = match h.real_ip.value() {
        Some(s) => net::ip_value(s),
        None => None,
    };
    match (direct, forwarded_ip(h.forwarded_for.value())) {
        (Some(ip), _) => ip,
        (None, Some(ip)) => ip,
        (None, None) => peer,
    }
}

/// The key that counts for the rate of login attempts.
pub fn rate_key(headers: &Headers, peer: IpAddr) -> (r: String)
    ensures
        r@ == ip_text(rate_ip(*headers, peer)),
{
    let direct: Option<IpAddr> = match headers.real_ip.text() {
        Some(value) => net::parse_ip(value),
        None => None,
    };
    let ip: IpAddr = match direct {
        Some(ip) => ip,
        None => match parse_forwarded_ip(headers.forwarded_for.text()) {
            Some(ip) => ip,
            None => peer,
        },
    };
    ip_string(ip)
}

/// The answer to a source that tries too often.
pub fn rate_limited() -> (r: (u16, ApiError))
    ensures
        r.0 == 429,
        r.1.code@ == "rate_limited"@,
        r.1.message@ == "Try again in one minute"@,
{
    (
        429,
        ApiError {
            code: "rate_limited".to_owned(),
            message: "Try again in one minute".to_owned(),
        },
    )
}

/// Lets a source try to log in: hands back the key of the source, or the answer to one that tries
/// too often.
pub fn begin_login(state: &mut AppState, headers: &Headers, peer: IpAddr, now: u128) -> (r: Result<
    String,
    (u16, ApiError),
>)
    requires
        old(state).wf(),
    ensures
        final(state).wf(),
        ({
            let key = ip_text(rate_ip(*headers, peer));
            let window = login_step(old(state)@.login_attempts.get(key), now);
            match window {
                Some(w) => {
                    &&& r matches Ok(k)
                    &&& k@ == key
                    &&& final(state)@ == (AppView {
                        login_attempts: old(state)@.login_attempts.insert(key, w),
                        ..old(state)@
                    })
                },
                None => {
                    &&& r matches Err((status, error))
                    &&& status == 429
                    &&& error.code@ == "rate_limited"@
                    &&& error.message@ == "Try again in one minute"@
                    &&& final(state)@ == old(state)@
                },
            }
        }),
{
    let key = rate_key(headers, peer);
    if login_allowed(state, key.as_str(), now) {
        Ok(key)
    } else {
        Err(rate_limited())
    }
}

/// What becomes of a login.
#[derive(Debug, Clone, PartialEq, Eq)]
pub enum LoginOutcome {
    Denied(Audit),
    Granted { response: LoginResponse, cookie: String, audit: Audit },
}

/// What a login leaves and answers, given the identifier and the token of the session that it opens.
pub open spec fn login_done(
    s: AppView,
    t: AppView,
    r: LoginOutcome,
    key: Seq<char>,
    username: String,
    valid: bool,
    session_id: Seq<char>,
    csrf: Seq<char>,
    now: u128,
) -> bool {
    if valid {
        &&& r matches LoginOutcome::Granted { response, cookie, audit }
        &&& response.username == username
        &&& response.csrf_token@ == csrf
        &&& cookie@ == session_cookie_text(s.config, session_id)
        &&& notes(audit, "auth.login"@, username@, "administrator signed in"@)
        &&& t == AppView {
            login_attempts: s.login_attempts.remove(key),
            sessions: s.sessions.insert(
                session_id,
                AdminSession {
                    username,
                    csrf_token: response.csrf_token,
                    expires_at: instant_after(now, s.config.session_ttl) as u128,
                },
            ),
            ..s
        }
    } else {
        &&& r matches LoginOutcome::Denied(audit)
        &&& notes(audit, "auth.login_failed"@, username@, "invalid credentials"@)
        &&& t == s
    }
}

/// Ends a login whose password was checked, with a given identifier and token for the session.
pub fn login_as(
    state: &mut AppState,
    key: &String,
    username: String,
    valid: bool,
    session_id: String,
    csrf_token: String,
    now: u128,
) -> (r: LoginOutcome)
    requires
        old(state).wf(),
        instant_after(now, old(state).config.session_ttl) <= u128::MAX,
    ensures
        final(state).wf(),
        login_done(
            old(state)@,
            final(state)@,
            r,
            key@,
            username,
            valid,
            session_id@,
            csrf_token@,
            now,
        ),
{
    if !valid {
        return LoginOutcome::Denied(
            audit("auth.login_failed", username.as_str(), "invalid credentials"),
        );
    }
    state.login_attempts.remove(key);
    let cookie = session_cookie(&state.config, session_id.as_str());
    open_session(state, session_id, csrf_token.clone(), username.clone(), now);
    let line = audit("auth.login", username.as_str(), "administrator signed in");
    LoginOutcome::Granted { response: LoginResponse { username, csrf_token }, cookie, audit: line }
}

/// Whether a password fits what is stored of the administrator.
pub open spec fn password_fits(stored: Option<String>, password: Seq<char>) -> bool {
    match stored {
        Some(hash) => argon2_accepts(hash@, encode_utf8(password)),
        None => false,
    }
}

/// Logs the administrator in, given what is stored under the name.
pub fn login(
    state: &mut AppState,
    key: &String,
    request: LoginRequest,
    stored: Option<String>,
    now: u128,
) -> (r: LoginOutcome)
    requires
        old(state).wf(),
        instant_after(now, old(state).config.session_ttl) <= u128::MAX,
    ensures
        final(state).wf(),
        exists|id: Seq<u8>, csrf: Seq<u8>|
            {
                &&& id.len() == 32
                &&& csrf.len() == 24
                &&& login_done(
                    old(state)@,
                    final(state)@,
                    r,
                    key@,
                    request.username,
                    password_fits(stored, request.password@),
                    #[trigger] url_base64(id),
                    #[trigger] url_base64(csrf),
                    now,
                )
            },
{
    let valid: bool = match &stored {
        Some(hash) => verify_password(hash.as_str(), request.password.as_str()),
        None => false,
    };
    let session_id = random_secret(32);
    let csrf_token = random_secret(24);
    login_as(state, key, request.username, valid, session_id, csrf_token, now)
}

/// The password that was hashed signs in: that of the first launch, and one that it was changed to.
pub proof fn law_hashed_passwords_sign_in(
    s: AppView,
    t: AppView,
    r: LoginOutcome,
    key: Seq<char>,
    request: LoginRequest,
    hash: String,
    session_id: Seq<char>,
    csrf_token: Seq<char>,
    now: u128,
)
    requires
        hash_of(hash@, request.password@),
        login_done(
            s,
            t,
            r,
            key,
            request.username,
            password_fits(Some(hash), request.password@),
            session_id,
            csrf_token,
            now,
        ),
    ensures
        r is Granted,
{
}

/// Ends the session of a request; hands back the line for the audit log and the cookie that clears
/// the session.
pub fn logout(state: &mut AppState, headers: &Headers, now: u128) -> (r: Result<
    (Audit, String),
    AppError,
>)
    requires
        old(state).wf(),
    ensures
        final(state).wf(),
        match admin_check(old(state)@, *headers, Method::Post, now) {
            Ok(session) => {
                &&& r matches Ok((line, cookie))
                &&& notes(line, "auth.logout"@, session.username@, "administrator signed out"@)
                &&& cookie@ == clear_cookie_text(old(state)@.config)
                &&& final(state)@ == (AppView {
                    sessions: old(state)@.sessions.remove(
                        cookie_of(headers.cookie, "tb_session"@)->0,
                    ),
                    ..old(state)@
                })
            },
            Err(e) => {
                &&& r == Err::<(Audit, String), AppError>(e)
                &&& final(state)@ == (AppView {
                    sessions: sessions_after(old(state)@, *headers, now),
                    ..old(state)@
                })
            },
        },
        signed_out(r, old(state)@, final(state)@, *headers, now),
{
    match require_admin(state, headers, Method::Post, now) {
        Ok((username, _)) => {
            remove_session(state, headers);
            let line = audit("auth.logout", username.as_str(), "administrator signed out");
            let cookie = clear_session_cookie(&state.config);
            Ok((line, cookie))
        },
        Err(e) => Err(e),
    }
}

/// What the administrator learns about the session.
pub fn me(admin: Admin) -> (r: LoginResponse)
    ensures
        r == (LoginResponse { username: admin.name(), csrf_token: admin.token() }),
{
    LoginResponse { username: admin.username, csrf_token: admin.csrf_token }
}

/// The request to change the password.
#[derive(Debug, Clone)]
pub struct ChangePasswordRequest {
    pub current_password: String,
    pub new_password: String,
}

/// Whether a password has twelve characters or more.
pub open spec fn long_enough(password: Seq<char>) -> bool {
    password.len() >= 12
}

/// Checks the new password of a request.
pub fn check_new_password(request: &ChangePasswordRequest) -> (r: Result<(), AppError>)
    ensures
        r is Ok <==> long_enough(request.new_password@),
        r matches Err(e) ==> bad(e, "new password must contain at least 12 characters"@),
{
    if request.new_password.as_str().unicode_len() < 12 {
        Err(bad_request("new password must contain at least 12 characters"))
    } else {
        Ok(())
    }
}

/// The hash to store for a new password, given the one that is stored.
pub fn change_password(admin: &Admin, request: &ChangePasswordRequest, stored: &str) -> (r: Result<
    (String, Audit),
    AppError,
>)
    ensures
        !long_enough(request.new_password@) ==> (r matches Err(e) && bad(
            e,
            "new password must contain at least 12 characters"@,
        )),
        long_enough(request.new_password@) && !argon2_accepts(
            stored@,
            encode_utf8(request.current_password@),
        ) ==> r == Err::<(String, Audit), AppError>(AppError::Unauthorized),
        long_enough(request.new_password@) && argon2_accepts(
            stored@,
            encode_utf8(request.current_password@),
        ) ==> (match r {
            Ok((hash, line)) => hashable(request.new_password@) && hash_of(
                hash@,
                request.new_password@,
            ) && notes(
                line,
                "auth.password_change"@,
                admin.name()@,
                "administrator password changed"@,
            ),
            Err(e) => !hashable(request.new_password@) && fault(e, "invalid password"@),
        }),
        repassworded(r, *request, stored@),
{
    match check_new_password(request) {
        Ok(_) => {},
        Err(e) => {
            return Err(e);
        },
    }
    if !verify_password(stored, request.current_password.as_str()) {
        return Err(AppError::Unauthorized);
    }
    match hash_password(request.new_password.as_str()) {
        Ok(hash) => Ok(
            (
                hash,
                audit(
                    "auth.password_change",
                    admin.username.as_str(),
                    "administrator password changed",
                ),
            ),
        ),
        Err(e) => Err(e),
    }
}

/// Ends all sessions once a new password is stored; hands back the cookie that clears a session.
pub fn password_changed(state: &mut AppState) -> (r: String)
    requires
        old(state).wf(),
    ensures
        final(state).wf(),
        final(state)@ == (AppView { sessions: Map::empty(), ..old(state)@ }),
        r@ == clear_cookie_text(old(state)@.config),
        final(state)@ == without_sessions(old(state)@),
{
    state.sessions = Registry::new();
    clear_session_cookie(&state.config)
}

// Devices.
/// What is stored of a device, for the console.
#[derive(Debug, Clone, PartialEq, Eq)]
pub struct DeviceListRow {
    pub id: String,
    pub name: String,
    pub revoked: bool,
    pub last_seen_at: Option<String>,
    pub created_at: String,
}

/// The time that a stored text names.
pub fn parse_time(value: &str) -> (r: Result<Timestamp, AppError>)
    ensures
        match time_value(value@) {
            Some(t) => r == Ok::<Timestamp, AppError>(t),
            None => r matches Err(e) && fault(e, time_error(value@)),
        },
{
    match read_time(value) {
        Ok(t) => Ok(t),
        Err(e) => Err(AppError::Internal(e)),
    }
}

/// Whether an optional text names a time, if it is there.
pub open spec fn optional_time_ok(value: Option<String>) -> bool {
    value matches Some(s) ==> time_value(s@) is Some
}

/// The time that an optional text names.
pub open spec fn optional_time(value: Option<String>) -> Option<Timestamp> {
    match value {
        Some(s) => time_value(s@),
        None => None,
    }
}

/// The time that a stored text names, where there is one.
pub fn parse_optional_time(value: &Option<String>) -> (r: Result<Option<Timestamp>, AppError>)
    ensures
        if optional_time_ok(*value) {
            r == Ok::<Option<Timestamp>, AppError>(optional_time(*value))
        } else {
            r matches Err(e) && fault(e, time_error(value->0@))
        },
{
    match value {
        Some(s) => match parse_time(s.as_str()) {
            Ok(t) => Ok(Some(t)),
            Err(e) => Err(e),
        },
        None => Ok(None),
    }
}

/// What is wrong with the row of a device.
pub open spec fn device_fault(row: DeviceListRow) -> Option<Seq<char>> {
    if id_value(row.id@) is None {
        Some(id_error(row.id@))
    } else if !optional_time_ok(row.last_seen_at) {
        Some(time_error(row.last_seen_at->0@))
    } else if time_value(row.created_at@) is None {
        Some(time_error(row.created_at@))
    } else {
        None
    }
}

/// Whether a device is the one of a row, as the relay knows it.
pub open spec fn device_shown(d: Device, row: DeviceListRow, s: AppView) -> bool {
    &&& id_value(row.id@) == Some(d.id)
    &&& d.name@ == row.name@
    &&& d.online == s.agents.contains_key(d.id)
    &&& d.revoked == row.revoked
    &&& d.last_seen_at == optional_time(row.last_seen_at)
    &&& time_value(row.created_at@) == Some(d.created_at)
}

/// The place of the first faulty row, or the number of rows.
pub open spec fn first_device_fault(rows: Seq<DeviceListRow>) -> nat
    decreases rows.len(),
{
    if rows.len() == 0 || device_fault(rows[0]) is Some {
        0
    } else {
        1 + first_device_fault(rows.skip(1))
    }
}

/// Reads the row of a device.
fn device_of(state: &AppState, row: &DeviceListRow) -> (r: Result<Device, AppError>)
    requires
        state.wf(),
    ensures
        match device_fault(*row) {
            Some(reason) => r matches Err(e) && fault(e, reason),
            None => r matches Ok(d) && device_shown(d, *row, state@),
        },
{
    let id = match read_id(row.id.as_str()) {
        Ok(id) => id,
        Err(e) => {
            return Err(AppError::Internal(e));
        },
    };
    let last_seen_at = match parse_optional_time(&row.last_seen_at) {
        Ok(t) => t,
        Err(e) => {
            return Err(e);
        },
    };
    let created_at = match parse_time(row.created_at.as_str()) {
        Ok(t) => t,
        Err(e) => {
            return Err(e);
        },
    };
    Ok(
        Device {
            id,
            name: row.name.clone(),
            online: state.agents.contains_key(&id),
            revoked: row.revoked,
            last_seen_at,
            created_at,
        },
    )
}

/// The devices, for the console.
pub fn list_devices(state: &AppState, admin: &Admin, rows: &Vec<DeviceListRow>) -> (r: Result<
    Vec<Device>,
    AppError,
>)
    requires
        state.wf(),
    ensures
        ({
            let place = first_device_fault(rows@) as int;
            if place < rows@.len() {
                r matches Err(e) && fault(e, device_fault(rows@[place])->0)
            } else {
                &&& r matches Ok(list)
                &&& list@.len() == rows@.len()
                &&& forall|i: int|
                    0 <= i < rows@.len() ==> device_shown(#[trigger] list@[i], rows@[i], state@)
            }
        }),
{
    let mut out: Vec<Device> = Vec::new();
    let mut i: usize = 0;
    assert(rows@.skip(0) =~= rows@);
    while i < rows.len()
        invariant
            i <= rows@.len(),
            state.wf(),
            out@.len() == i,
            first_device_fault(rows@) == i + first_device_fault(rows@.skip(i as int)),
            forall|k: int| 0 <= k < i ==> device_shown(#[trigger] out@[k], rows@[k], state@),
        decreases rows@.len() - i,
    {
        assert(rows@.skip(i as int)[0] == rows@[i as int]);
        assert(rows@.skip(i as int).skip(1) =~= rows@.skip(i + 1));
        match device_of(state, &rows[i]) {
            Ok(device) => out.push(device),
            Err(e) => {
                return Err(e);
            },
        }
        i += 1;
    }
    Ok(out)
}

/// A new device: what is stored of it, what its owner is shown once, and the line for the audit log.
#[derive(Debug, Clone, PartialEq, Eq)]
pub struct NewDevice {
    pub id: String,
    pub name: String,
    pub token_hash: String,
    pub created_at: String,
    pub response: DeviceTokenResponse,
    pub audit: Audit,
}

/// Whether a name has 1 to 80 characters.
pub open spec fn name_ok(name: Seq<char>) -> bool {
    1 <= name.len() <= 80
}

/// Whether this is the device that a request asks for, with an identifier and a token.
pub open spec fn device_made(
    d: NewDevice,
    admin: Admin,
    request: CreateDeviceRequest,
    id: u128,
    token: Seq<char>,
    now: Timestamp,
) -> bool {
    &&& d.id@ == id_text(id)
    &&& id_value(d.id@) == Some(id)
    &&& d.name@ == text::trimmed(request.name@)
    &&& d.token_hash@ == token_digest(token)
    &&& d.created_at@ == time_text(now)
    &&& d.response.id == id
    &&& d.response.name@ == text::trimmed(request.name@)
    &&& d.response.token@ == token
    &&& d.response.created_at == now
    &&& notes(d.audit, "device.create"@, id_text(id), "created by "@ + admin.name()@)
}

/// Makes the device that a request asks for, with a given identifier and token.
pub fn create_device_as(
    admin: &Admin,
    request: CreateDeviceRequest,
    id: u128,
    token: String,
    now: Timestamp,
) -> (r: Result<NewDevice, AppError>)
    requires
        now.valid(),
    ensures
        r is Ok <==> name_ok(text::trimmed(request.name@)),
        r matches Ok(d) ==> device_made(d, *admin, request, id, token@, now),
        r matches Err(e) ==> bad(e, "device name must contain 1 to 80 characters"@),
{
    let name = text::trim(request.name.as_str());
    let count: usize = name.unicode_len();
    if count == 0 || count > 80 {
        return Err(bad_request("device name must contain 1 to 80 characters"));
    }
    let key = write_id(id);
    let line = audit(
        "device.create",
        key.as_str(),
        text::join("created by ", admin.username.as_str()).as_str(),
    );
    Ok(
        NewDevice {
            id: key,
            name: name.to_owned(),
            token_hash: hash_token(token.as_str()),
            created_at: write_time(now),
            response: DeviceTokenResponse { id, name: name.to_owned(), token, created_at: now },
            audit: line,
        },
    )
}

/// Makes the device that a request asks for, with a new random identifier and token.
pub fn create_device(admin: &Admin, request: CreateDeviceRequest, now: Timestamp) -> (r: Result<
    NewDevice,
    AppError,
>)
    requires
        now.valid(),
    ensures
        r is Ok <==> name_ok(text::trimmed(request.name@)),
        r matches Ok(d) ==> exists|bytes: Seq<u8>|
            bytes.len() == 32 && device_made(
                d,
                *admin,
                request,
                d.response.id,
                #[trigger] url_base64(bytes),
                now,
            ),
        r matches Err(e) ==> bad(e, "device name must contain 1 to 80 characters"@),
{
    let id = new_id();
    let token = random_secret(32);
    create_device_as(admin, request, id, token, now)
}

/// Of a token only its digest is kept: what is stored and noted of a device is the same for every
/// token with that digest.
pub proof fn law_tokens_are_kept_as_digests(
    a: NewDevice,
    b: NewDevice,
    admin: Admin,
    request: CreateDeviceRequest,
    id: u128,
    token: Seq<char>,
    other: Seq<char>,
    now: Timestamp,
)
    requires
        device_made(a, admin, request, id, token, now),
        device_made(b, admin, request, id, other, now),
        token_digest(token) == token_digest(other),
    ensures
        a.id@ == b.id@,
        a.name@ == b.name@,
        a.token_hash@ == b.token_hash@,
        a.created_at@ == b.created_at@,
        a.audit.action@ == b.audit.action@,
        a.audit.subject@ == b.audit.subject@,
        a.audit.detail@ == b.audit.detail@,
{
}

/// Whether a stored device is one that was made: it has not been revoked.
pub open spec fn keeps(row: StoredDevice, d: NewDevice) -> bool {
    row.id@ == d.id@ && row.name@ == d.name@ && row.token_hash@ == d.token_hash@ && !row.revoked
}

/// What is stored of a device that was made.
pub fn stored_device(device: &NewDevice) -> (r: StoredDevice)
    ensures
        keeps(r, *device),
{
    StoredDevice {
        id: device.id.clone(),
        name: device.name.clone(),
        token_hash: device.token_hash.clone(),
        revoked: false,
    }
}

/// The device whose token was shown once is let in with that token, once it is stored: a request
/// that bears the token is taken for that device, and what the relay knows of a request with a
/// token of another digest stays the same. No two devices are stored under one digest.
pub proof fn law_new_devices_are_let_in(
    d: NewDevice,
    admin: Admin,
    request: CreateDeviceRequest,
    id: u128,
    token: Seq<char>,
    now: Timestamp,
    rows: Seq<StoredDevice>,
    row: StoredDevice,
    h: Headers,
)
    requires
        device_made(d, admin, request, id, token, now),
        keeps(row, d),
        forall|i: int| 0 <= i < rows.len() ==> (#[trigger] rows[i]).token_hash@ != d.token_hash@,
    ensures
        h.authorization.value() == Some("Bearer "@ + d.response.token@) ==> caller_of(
            rows.push(row),
            h,
        ) == Some((id, text::trimmed(request.name@))),
        bearer_of(h) matches Some(other) ==> token_digest(other) != d.token_hash@ ==> caller_of(
            rows.push(row),
            h,
        ) == caller_of(rows, h),
{
    let all = rows.push(row);
    if h.authorization.value() == Some("Bearer "@ + d.response.token@) {
        let s = "Bearer "@ + token;
        let p = "Bearer "@;
        assert(s.take(p.len() as int) =~= p);
        assert(s.skip(p.len() as int) =~= token);
        assert forall|i: int| 0 <= i < rows.len() implies (#[trigger] all[i]).token_hash@
            != d.token_hash@ by {
            assert(all[i] == rows[i]);
        }
        lemma_device_place(all, d.token_hash@, rows.len() as int);
        assert(all[rows.len() as int] == row);
    }
    if let Some(other) = bearer_of(h) {
        let key = token_digest(other);
        if key != d.token_hash@ {
            lemma_device_found(rows, key);
            let place = device_place(rows, key) as int;
            assert forall|i: int| 0 <= i < place implies (#[trigger] all[i]).token_hash@ != key
                || all[i].revoked by {
                assert(all[i] == rows[i]);
            }
            if place < rows.len() {
                assert(all[place] == rows[place]);
                lemma_device_place(all, key, place);
            } else {
                assert(all[rows.len() as int] == row);
                lemma_device_place(all, key, all.len() as int);
            }
        }
    }
}

/// What is known once a device is revoked: it is not attached any more.
pub open spec fn without_agent(s: AppView, id: u128) -> AppView {
    AppView { agents: s.agents.remove(id), ..s }
}

/// Revokes a device, given how many rows that changed; hands back the carrier to drop and the line
/// for the audit log.
pub fn revoke_device(state: &mut AppState, admin: &Admin, id: u128, changed: u64) -> (r: Result<
    (Option<u64>, Audit),
    AppError,
>)
    requires
        old(state).wf(),
    ensures
        final(state).wf(),
        if changed == 0 {
            r == Err::<(Option<u64>, Audit), AppError>(AppError::NotFound) && final(state)@
                == old(state)@
        } else {
            &&& r matches Ok((drop, line))
            &&& drop == (if old(state)@.agents.contains_key(id) {
                Some(old(state)@.agents[id].channel)
            } else {
                None::<u64>
            })
            &&& notes(line, "device.revoke"@, id_text(id), "revoked by "@ + admin.name()@)
            &&& final(state)@ == without_agent(old(state)@, id)
        },
        dropped(r, old(state)@, final(state)@, id, changed),
{
    if changed == 0 {
        return Err(AppError::NotFound);
    }
    let drop: Option<u64> = match state.agents.remove(&id) {
        Some(peer) => Some(peer.channel),
        None => None,
    };
    let line = audit(
        "device.revoke",
        write_id(id).as_str(),
        text::join("revoked by ", admin.username.as_str()).as_str(),
    );
    Ok((drop, line))
}

/// A device that was revoked is not attached, takes no stream, and its token lets nobody in.
pub proof fn law_revoked_devices_are_out(
    s: AppView,
    id: u128,
    rows: Seq<StoredDevice>,
    key: Seq<char>,
    flow: crate::gateway::Flow,
    t: TunnelView,
    ip: IpAddr,
)
    requires
        forall|i: int|
            0 <= i < rows.len() && (#[trigger] rows[i]).token_hash@ == key ==> rows[i].revoked,
        t.agent_id == id,
    ensures
        !without_agent(s, id).agents.contains_key(id),
        device_under(rows, key) is None,
        crate::gateway::admission(flow, without_agent(s, id), t, ip).1 is Err,
{
    law_revoked_devices_are_kept_out(rows, key);
}

/// Checks whether a device may be deleted for good: it is there and was revoked.
pub fn check_delete(revoked: Option<bool>) -> (r: Result<(), AppError>)
    ensures
        match revoked {
            None => r == Err::<(), AppError>(AppError::NotFound),
            Some(false) => r matches Err(e) && bad(e, "请先撤销设备，再永久删除"@),
            Some(true) => r is Ok,
        },
        r is Ok <==> deletable(revoked),
{
    match revoked {
        None => Err(AppError::NotFound),
        Some(revoked) => if revoked {
            Ok(())
        } else {
            Err(bad_request("请先撤销设备，再永久删除"))
        },
    }
}

/// The place of the first stored text that names no identifier, or the number of texts.
pub open spec fn first_bad_id(rows: Seq<Seq<char>>) -> nat
    decreases rows.len(),
{
    if rows.len() == 0 || id_value(rows[0]) is None {
        0
    } else {
        1 + first_bad_id(rows.skip(1))
    }
}

/// The identifiers of the tunnels of a device.
pub fn tunnel_ids(rows: &Vec<String>) -> (r: Result<Vec<u128>, AppError>)
    ensures
        ({
            let all = crate::rows::strings(rows@);
            let place = first_bad_id(all) as int;
            if place < all.len() {
                r matches Err(e) && fault(e, id_error(all[place]))
            } else {
                &&& r matches Ok(list)
                &&& list@.len() == all.len()
                &&& forall|i: int|
                    0 <= i < all.len() ==> Some(#[trigger] list@[i]) == id_value(all[i])
            }
        }),
{
    let ghost all = crate::rows::strings(rows@);
    let mut out: Vec<u128> = Vec::new();
    let mut i: usize = 0;
    assert(all.skip(0) =~= all);
    while i < rows.len()
        invariant
            i <= rows@.len(),
            all == crate::rows::strings(rows@),
            out@.len() == i,
            first_bad_id(all) == i + first_bad_id(all.skip(i as int)),
            forall|k: int| 0 <= k < i ==> Some(#[trigger] out@[k]) == id_value(all[k]),
        decreases rows@.len() - i,
    {
        assert(all.skip(i as int)[0] == rows@[i as int]@);
        assert(all.skip(i as int).skip(1) =~= all.skip(i + 1));
        match read_id(rows[i].as_str()) {
            Ok(id) => out.push(id),
            Err(e) => {
                return Err(AppError::Internal(e));
            },
        }
        i += 1;
    }
    Ok(out)
}

/// What to cancel of a device that was deleted: the listeners of its tunnels and its carrier.
#[derive(Debug, Clone, PartialEq, Eq)]
pub struct DeletedDevice {
    pub listeners: Vec<u64>,
    pub carrier: Option<u64>,
    pub audit: Audit,
}

/// The listeners that a list of tunnels has, in order, and each once.
pub open spec fn cancelled(listeners: Map<u128, u64>, ids: Seq<u128>) -> Seq<u64>
    decreases ids.len(),
{
    if ids.len() == 0 {
        Seq::empty()
    } else {
        let done = cancelled(listeners, ids.drop_last());
        if listeners.remove_keys(ids.drop_last().to_set()).contains_key(ids.last()) {
            done.push(listeners[ids.last()])
        } else {
            done
        }
    }
}

/// Deletes a device for good, given how many rows of devices that removed.
pub fn delete_device_permanently(
    state: &mut AppState,
    admin: &Admin,
    id: u128,
    tunnels: &Vec<u128>,
    removed: u64,
) -> (r: Result<DeletedDevice, AppError>)
    requires
        old(state).wf(),
    ensures
        final(state).wf(),
        if removed == 0 {
            r == Err::<DeletedDevice, AppError>(AppError::NotFound) && final(state)@ == old(state)@
        } else {
            &&& r matches Ok(d)
            &&& d.listeners@ == cancelled(old(state)@.listeners, tunnels@)
            &&& d.carrier == (if old(state)@.agents.contains_key(id) {
                Some(old(state)@.agents[id].channel)
            } else {
                None::<u64>
            })
            &&& notes(
                d.audit,
                "device.delete"@,
                id_text(id),
                "permanently deleted by "@ + admin.name()@,
            )
            &&& final(state)@ == (AppView {
                listeners: old(state)@.listeners.remove_keys(tunnels@.to_set()),
                agents: old(state)@.agents.remove(id),
                ..old(state)@
            })
        },
        deleted(r, old(state)@, final(state)@, id, tunnels@, removed),
{
    if removed == 0 {
        return Err(AppError::NotFound);
    }
    let ghost before = state@;
    let mut listeners: Vec<u64> = Vec::new();
    let mut i: usize = 0;
    assert(tunnels@.take(0) =~= Seq::<u128>::empty());
    assert(before.listeners.remove_keys(tunnels@.take(0).to_set()) =~= before.listeners);
    while i < tunnels.len()
        invariant
            i <= tunnels@.len(),
            state.wf(),
            listeners@ == cancelled(before.listeners, tunnels@.take(i as int)),
            state@ == (AppView {
                listeners: before.listeners.remove_keys(tunnels@.take(i as int).to_set()),
                ..before
            }),
        decreases tunnels@.len() - i,
    {
        let ghost done = tunnels@.take(i as int);
        let ghost next = tunnels@.take(i + 1);
        assert(next.drop_last() =~= done);
        assert(next =~= done.push(tunnels@[i as int]));
        assert(next.to_set() =~= done.to_set().insert(tunnels@[i as int])) by {
            assert forall|x: u128|
                next.to_set().contains(x) <==> done.to_set().insert(
                    tunnels@[i as int],
                ).contains(x) by {
                if done.contains(x) {
                    let j = done.index_of(x);
                    assert(next[j] == x);
                }
                if next.contains(x) {
                    let j = next.index_of(x);
                    if j < i {
                        assert(done[j] == x);
                    }
                }
                assert(next[i as int] == tunnels@[i as int]);
            }
        }
        if let Some(token) = stop_listener(state, tunnels[i]) {
            listeners.push(token);
        }
        assert(state.listeners@ =~= before.listeners.remove_keys(next.to_set()));
        i += 1;
    }
    assert(tunnels@.take(i as int) =~= tunnels@);
    let carrier: Option<u64> = match state.agents.remove(&id) {
        Some(peer) => Some(peer.channel),
        None => None,
    };
    let line = audit(
        "device.delete",
        write_id(id).as_str(),
        text::join("permanently deleted by ", admin.username.as_str()).as_str(),
    );
    Ok(DeletedDevice { listeners, carrier, audit: line })
}

// Tunnels.
/// The state of a tunnel as the relay knows it.
pub open spec fn live_status(s: AppView, t: TunnelView) -> TunnelStatus {
    if !t.enabled {
        TunnelStatus::Stopped
    } else if t.kind != TunnelKind::Web && !s.listeners.contains_key(t.id) {
        TunnelStatus::Error
    } else if !s.agents.contains_key(t.agent_id) {
        TunnelStatus::AgentOffline
    } else {
        TunnelStatus::Online
    }
}

/// A tunnel with its state.
pub open spec fn decorated(s: AppView, t: TunnelView) -> TunnelView {
    TunnelView { status: live_status(s, t), ..t }
}

/// Gives a tunnel its state.
pub fn decorate_tunnel(state: &AppState, tunnel: Tunnel) -> (r: Tunnel)
    requires
        state.wf(),
    ensures
        r@ == decorated(state@, tunnel@),
{
    let mut tunnel = tunnel;
    tunnel.status = if !tunnel.enabled {
        TunnelStatus::Stopped
    } else if tunnel.kind != TunnelKind::Web && !state.listeners.contains_key(&tunnel.id) {
        TunnelStatus::Error
    } else if !state.agents.contains_key(&tunnel.agent_id) {
        TunnelStatus::AgentOffline
    } else {
        TunnelStatus::Online
    };
    tunnel
}

/// Tunnels with their states.
pub open spec fn decorated_all(s: AppView, list: Seq<TunnelView>) -> Seq<TunnelView> {
    list.map_values(|t: TunnelView| decorated(s, t))
}

/// Gives tunnels their states.
pub fn decorate_tunnels(state: &AppState, values: &Vec<Tunnel>) -> (r: Vec<Tunnel>)
    requires
        state.wf(),
    ensures
        tunnel_views(r@) == decorated_all(state@, tunnel_views(values@)),
{
    let mut out: Vec<Tunnel> = Vec::new();
    let mut i: usize = 0;
    while i < values.len()
        invariant
            i <= values@.len(),
            state.wf(),
            out@.len() == i,
            forall|k: int| 0 <= k < i ==> (#[trigger] out@[k])@ == decorated(state@, values@[k]@),
        decreases values@.len() - i,
    {
        out.push(decorate_tunnel(state, values[i].copied()));
        i += 1;
    }
    assert(tunnel_views(out@) =~= decorated_all(state@, tunnel_views(values@)));
    out
}

/// What happened to a tunnel.
#[derive(Debug, Clone, Copy, PartialEq, Eq, Structural)]
pub enum TunnelAct {
    Create,
    Update,
    Delete,
}

/// The action and the verb of an act in the audit log.
pub open spec fn act_text(act: TunnelAct) -> (Seq<char>, Seq<char>) {
    match act {
        TunnelAct::Create => ("tunnel.create"@, "created by "@),
        TunnelAct::Update => ("tunnel.update"@, "updated by "@),
        TunnelAct::Delete => ("tunnel.delete"@, "deleted by "@),
    }
}

/// The line for the audit log of an act on a tunnel.
pub fn tunnel_audit(act: TunnelAct, id: u128, actor: &Actor) -> (r: Audit)
    ensures
        notes(r, act_text(act).0, id_text(id), act_text(act).1 + called(*actor)),
{
    let key = write_id(id);
    match act {
        TunnelAct::Create => audit(
            "tunnel.create",
            key.as_str(),
            done_by("created by ", actor).as_str(),
        ),
        TunnelAct::Update => audit(
            "tunnel.update",
            key.as_str(),
            done_by("updated by ", actor).as_str(),
        ),
        TunnelAct::Delete => audit(
            "tunnel.delete",
            key.as_str(),
            done_by("deleted by ", actor).as_str(),
        ),
    }
}

/// Follows a tunnel that was created or changed: what to do about its listener, and the line for
/// the audit log.
pub fn tunnel_changed(state: &mut AppState, tunnel: &Tunnel, act: TunnelAct, actor: &Actor) -> (r: (
    ListenerChange,
    Audit,
))
    requires
        old(state).wf(),
    ensures
        final(state).wf(),
        final(state)@ == (AppView {
            listeners: old(state)@.listeners.remove(tunnel.id),
            ..old(state)@
        }),
        r.0.cancel == old(state)@.listeners.get(tunnel.id),
        r.0.start == listens(tunnel@),
        notes(r.1, act_text(act).0, id_text(tunnel.id), act_text(act).1 + called(*actor)),
{
    let change = reconcile_listener(state, tunnel);
    (change, tunnel_audit(act, tunnel.id, actor))
}

/// Follows a tunnel that was deleted: the listener to cancel, and the line for the audit log.
pub fn tunnel_deleted(state: &mut AppState, id: u128, actor: &Actor) -> (r: (Option<u64>, Audit))
    requires
        old(state).wf(),
    ensures
        final(state).wf(),
        final(state)@ == (AppView {
            listeners: old(state)@.listeners.remove(id),
            ..old(state)@
        }),
        r.0 == old(state)@.listeners.get(id),
        notes(r.1, "tunnel.delete"@, id_text(id), "deleted by "@ + called(*actor)),
{
    let cancel = stop_listener(state, id);
    (cancel, tunnel_audit(TunnelAct::Delete, id, actor))
}

// What the console shows.
/// Whether a list holds the connections in progress, each once, in some order.
pub open spec fn lists_active(
    list: Seq<ActiveConnection>,
    keys: Seq<u128>,
    active: Map<u128, ActiveConnection>,
) -> bool {
    &&& keys.no_duplicates()
    &&& keys.len() == list.len()
    &&& forall|id: u128| active.contains_key(id) <==> keys.contains(id)
    &&& forall|i: int| 0 <= i < list.len() ==> #[trigger] list[i] == active[keys[i]]
}

/// The connections in progress.
pub fn list_connections(state: &AppState, admin: &Admin) -> (r: Vec<ActiveConnection>)
    requires
        state.wf(),
    ensures
        exists|keys: Seq<u128>| lists_active(r@, keys, state@.active),
{
    let mut out: Vec<ActiveConnection> = Vec::new();
    let ghost keys = state.active.key_list();
    proof {
        state.active.lemma_key_list();
    }
    let count: usize = state.active.keys().len();
    let mut i: usize = 0;
    while i < count
        invariant
            i <= count,
            state.wf(),
            keys == state.active.key_list(),
            count == keys.len(),
            out@.len() == i,
            forall|k: int| 0 <= k < i ==> #[trigger] out@[k] == state@.active[keys[k]],
        decreases count - i,
    {
        match state.active.at(i) {
            Some((_, c)) => out.push(c.copied()),
            None => {},
        }
        i += 1;
    }
    assert(lists_active(out@, keys, state@.active));
    out
}

/// How many lines of the audit log are shown: 100 where none are asked for, and from 1 to 500.
pub fn audit_limit(limit: Option<u16>) -> (r: u16)
    ensures
        1 <= r <= 500,
        limit is None ==> r == 100,
        limit matches Some(n) ==> r == (if n < 1 {
            1
        } else if n > 500 {
            500
        } else {
            n as int
        }),
        r == limited(limit),
{
    match limit {
        None => 100,
        Some(n) => if n < 1 {
            1
        } else if n > 500 {
            500
        } else {
            n
        },
    }
}

/// A row of the audit log.
#[derive(Debug, Clone, PartialEq, Eq)]
pub struct AuditRow {
    pub id: i64,
    pub action: String,
    pub subject: String,
    pub detail: String,
    pub created_at: String,
}

/// Whether an entry is the one of a row.
pub open spec fn entry_shown(e: AuditEntry, row: AuditRow) -> bool {
    &&& e.id == row.id
    &&& e.action@ == row.action@
    &&& e.subject@ == row.subject@
    &&& e.detail@ == row.detail@
    &&& time_value(row.created_at@) == Some(e.created_at)
}

/// The place of the first row without a time, or the number of rows.
pub open spec fn first_untimed(rows: Seq<AuditRow>) -> nat
    decreases rows.len(),
{
    if rows.len() == 0 || time_value(rows[0].created_at@) is None {
        0
    } else {
        1 + first_untimed(rows.skip(1))
    }
}

/// The lines of the audit log, for the console.
pub fn list_audit(admin: &Admin, rows: &Vec<AuditRow>) -> (r: Result<Vec<AuditEntry>, AppError>)
    ensures
        ({
            let place = first_untimed(rows@) as int;
            if place < rows@.len() {
                r matches Err(e) && fault(e, time_error(rows@[place].created_at@))
            } else {
                &&& r matches Ok(list)
                &&& list@.len() == rows@.len()
                &&& forall|i: int|
                    0 <= i < rows@.len() ==> entry_shown(#[trigger] list@[i], rows@[i])
            }
        }),
{
    let mut out: Vec<AuditEntry> = Vec::new();
    let mut i: usize = 0;
    assert(rows@.skip(0) =~= rows@);
    while i < rows.len()
        invariant
            i <= rows@.len(),
            out@.len() == i,
            first_untimed(rows@) == i + first_untimed(rows@.skip(i as int)),
            forall|k: int| 0 <= k < i ==> entry_shown(#[trigger] out@[k], rows@[k]),
        decreases rows@.len() - i,
    {
        assert(rows@.skip(i as int)[0] == rows@[i as int]);
        assert(rows@.skip(i as int).skip(1) =~= rows@.skip(i + 1));
        let row = &rows[i];
        match parse_time(row.created_at.as_str()) {
            Ok(created_at) => out.push(
                AuditEntry {
                    id: row.id,
                    action: row.action.clone(),
                    subject: row.subject.clone(),
                    detail: row.detail.clone(),
                    created_at,
                },
            ),
            Err(e) => {
                return Err(e);
            },
        }
        i += 1;
    }
    Ok(out)
}

/// The counters, for the console.
pub fn admin_metrics(state: &AppState, admin: &Admin) -> (r: MetricsSnapshot)
    requires
        state.wf(),
    ensures
        r == metrics_of(state@),
{
    state.metrics()
}

/// The settings that the console shows.
#[derive(Debug, Clone, PartialEq, Eq)]
pub struct ServerSettingsResponse {
    pub port_start: u16,
    pub port_end: u16,
    pub ticket_ttl_seconds: u64,
    pub connect_timeout_seconds: u64,
    pub idle_timeout_seconds: u64,
    pub audit_retention_days: i64,
    pub web_base_domain: String,
    pub quic_port: u16,
    pub kcp_port: u16,
}

/// The settings, for the console.
pub fn admin_settings(state: &AppState, admin: &Admin) -> (r: ServerSettingsResponse)
    ensures
        r == (ServerSettingsResponse {
            port_start: state.config.port_start,
            port_end: state.config.port_end,
            ticket_ttl_seconds: state.config.ticket_ttl,
            connect_timeout_seconds: state.config.connect_timeout,
            idle_timeout_seconds: state.config.idle_timeout,
            audit_retention_days: state.config.audit_retention_days,
            web_base_domain: state.config.web_base_domain,
            quic_port: state.config.quic_port,
            kcp_port: state.config.kcp_port,
        }),
        shows_settings(r, state.config),
{
    ServerSettingsResponse {
        port_start: state.config.port_start,
        port_end: state.config.port_end,
        ticket_ttl_seconds: state.config.ticket_ttl,
        connect_timeout_seconds: state.config.connect_timeout,
        idle_timeout_seconds: state.config.idle_timeout,
        audit_retention_days: state.config.audit_retention_days,
        web_base_domain: state.config.web_base_domain.clone(),
        quic_port: state.config.quic_port,
        kcp_port: state.config.kcp_port,
    }
}

// Agents and proxies.
/// What an agent learns when it enrols.
pub fn agent_enrollment(
    state: &AppState,
    tunnels: &Vec<Tunnel>,
    identity: Option<&TransportIdentity>,
) -> (r: Result<AgentEnrollmentResponse, AppError>)
    requires
        state.wf(),
    ensures
        r is Ok <==> identity is Some,
        r matches Ok(e) ==> {
            &&& tunnel_views(e.tunnels@) == decorated_all(state@, tunnel_views(tunnels@))
            &&& e.transport_fingerprint@ == identity->0.fingerprint@
            &&& e.transport_certificate_der@ == standard_base64(identity->0.certificate@)
            &&& e.quic_port == state.config.quic_port
            &&& e.kcp_port == state.config.kcp_port
            &&& relay_capabilities(e.capabilities)
        },
        r matches Err(e) ==> fault(e, "transport identity is not initialized"@),
        enrols(r, state@, tunnels@, identity),
{
    let transport_certificate_der = match certificate_base64(identity) {
        Ok(text) => text,
        Err(reason) => {
            return Err(AppError::Internal(reason));
        },
    };
    Ok(
        AgentEnrollmentResponse {
            tunnels: decorate_tunnels(state, tunnels),
            transport_fingerprint: fingerprint(identity),
            transport_certificate_der,
            quic_port: state.config.quic_port,
            kcp_port: state.config.kcp_port,
            capabilities: server_capabilities(),
        },
    )
}

/// Whether an address is one of a trusted proxy.
pub open spec fn trusted(config: Config, ip: IpAddr) -> bool {
    any_covers(config.trusted_proxy_cidrs@, unmapped(ip))
}

/// Checks that a request comes from a trusted proxy.
pub fn require_trusted_proxy(config: &Config, address: IpAddr) -> (r: Result<(), AppError>)
    requires
        config.wf(),
    ensures
        r is Ok <==> trusted(*config, address),
        r matches Err(e) ==> e == AppError::Forbidden,
{
    if any_contains(&config.trusted_proxy_cidrs, normalize_ip(address)) {
        Ok(())
    } else {
        Err(AppError::Forbidden)
    }
}

/// Whether a certificate may be had for a domain.
pub fn tls_ask(config: &Config, peer: IpAddr, domain: &str, rows: &Vec<TunnelRow>) -> (r: Result<
    (),
    AppError,
>)
    requires
        config.wf(),
    ensures
        r is Ok <==> trusted(*config, peer) && host_count(rows@, domain@) == 1,
        r matches Err(e) ==> e == AppError::Forbidden,
        r is Ok <==> certified(*config, peer, domain@, rows@),
{
    match require_trusted_proxy(config, peer) {
        Ok(_) => {},
        Err(e) => {
            return Err(e);
        },
    }
    if hostname_is_enabled(rows, domain) {
        Ok(())
    } else {
        Err(AppError::Forbidden)
    }
}

/// The host that a request to the proxy is for: the forwarded one where there is one, without its
/// port, in lower case.
pub open spec fn proxied_host(h: Headers) -> Option<Seq<char>> {
    let header = if h.forwarded_host is Absent {
        h.host
    } else {
        h.forwarded_host
    };
    match header.value() {
        Some(s) => Some(text::lower(text::before(s, ':'))),
        None => None,
    }
}

/// What a request to the proxy is for: the tunnel and the source.
pub open spec fn proxied(
    r: Result<(Tunnel, SocketAddr), AppError>,
    config: Config,
    proxy: IpAddr,
    h: Headers,
    rows: Seq<TunnelRow>,
) -> bool {
    if !trusted(config, proxy) {
        r == Err::<(Tunnel, SocketAddr), AppError>(AppError::Forbidden)
    } else if proxied_host(h) is None {
        r matches Err(e) && bad(e, "missing forwarded host"@)
    } else if forwarded_ip(h.forwarded_for.value()) is None {
        r matches Err(e) && bad(e, "missing forwarded source address"@)
    } else {
        let found = match r {
            Ok((tunnel, _)) => Ok::<Tunnel, AppError>(tunnel),
            Err(e) => Err::<Tunnel, AppError>(e),
        };
        &&& answers_one(found, rows, host_place(rows, proxied_host(h)->0))
        &&& r matches Ok((_, peer)) ==> peer == (SocketAddr {
            ip: forwarded_ip(h.forwarded_for.value())->0,
            port: 0,
            scope: 0,
        })
    }
}

/// Finds the tunnel and the source of a request to the proxy.
pub fn web_proxy(config: &Config, proxy: IpAddr, headers: &Headers, rows: &Vec<TunnelRow>) -> (r:
    Result<(Tunnel, SocketAddr), AppError>)
    requires
        config.wf(),
    ensures
        proxied(r, *config, proxy, *headers, rows@),
{
    match require_trusted_proxy(config, proxy) {
        Ok(_) => {},
        Err(e) => {
            return Err(e);
        },
    }
    let header = match &headers.forwarded_host {
        Header::Absent => &headers.host,
        _ => &headers.forwarded_host,
    };
    let hostname = match header.text() {
        Some(value) => text::to_lower(text::take_before(value, ':')),
        None => {
            return Err(bad_request("missing forwarded host"));
        },
    };
    let ip = match parse_forwarded_ip(headers.forwarded_for.text()) {
        Some(ip) => ip,
        None => {
            return Err(bad_request("missing forwarded source address"));
        },
    };
    match get_by_hostname(rows, hostname.as_str()) {
        Ok(tunnel) => Ok((tunnel, SocketAddr { ip, port: 0, scope: 0 })),
        Err(e) => Err(e),
    }
}

/// The answer where the target of a web tunnel cannot be reached.
pub fn target_unavailable() -> (r: (u16, String))
    ensures
        r.0 == 502,
        r.1@ == "Tunnel target is unavailable"@,
{
    (502, "Tunnel target is unavailable".to_owned())
}

/// The text that `http` writes of the URI that it reads from a text.
pub uninterp spec fn uri_text(text: Seq<char>) -> Option<Seq<char>>;

/// `http::Uri` read from text, and its `Display`: the text of the URI, where the text is one.
#[verifier::external_body]
fn read_uri(text: &str) -> (r: Option<String>)
    ensures
        opt_text(r) == uri_text(text@),
{
    text.parse::<http::Uri>().ok().map(|uri| uri.to_string())
}

/// The URI for which a visitor asked the proxy, which a web request is passed on with in place of
/// its own: the one that the proxy names, where it names one.
pub fn original_uri(header: &Header) -> (r: Option<String>)
    ensures
        opt_text(r) == (match header.value() {
            Some(text) => uri_text(text),
            None => None,
        }),
{
    match header.text() {
        Some(text) => read_uri(text),
        None => None,
    }
}

/// The headers of a web request that are for the relay alone, and are not passed on.
pub fn inner_headers() -> (r: Vec<&'static str>)
    ensures
        r@.len() == 3,
        r@[0]@ == "x-tunnelbridge-original-uri"@,
        r@[1]@ == "x-tunnelbridge-proxy"@,
        r@[2]@ == "x-real-ip"@,
{
    vec!["x-tunnelbridge-original-uri", "x-tunnelbridge-proxy", "x-real-ip"]
}

/// Counts a request that was passed on.
pub fn web_request_done(state: &mut AppState)
    requires
        old(state).wf(),
    ensures
        final(state).wf(),
        final(state)@ == (AppView {
            counters: Counters {
                http_requests: inc(old(state)@.counters.http_requests),
                ..old(state)@.counters
            },
            ..old(state)@
        }),
{
    state.counters.http_requests = state.counters.http_requests.wrapping_add(1);
}

/// Only a trusted proxy gets an answer about host names, and only about host names that are served.
pub proof fn law_strangers_learn_nothing(
    config: Config,
    proxy: IpAddr,
    h: Headers,
    rows: Seq<TunnelRow>,
    r: Result<(Tunnel, SocketAddr), AppError>,
)
    requires
        proxied(r, config, proxy, h, rows),
        !trusted(config, proxy),
    ensures
        r == Err::<(Tunnel, SocketAddr), AppError>(AppError::Forbidden),
{
}

// Upkeep.
/// What is left after the hourly upkeep: the sessions and the offers whose time is not over.
pub open spec fn cleaned(s: AppView, now: u128) -> AppView {
    AppView {
        sessions: retained(s.sessions, |session: AdminSession| session.expires_at > now),
        pending: retained(s.pending, |p: PendingConnection| p.expires_at > now),
        ..s
    }
}

/// Drops the sessions and the offers whose time is over; hands back the time before which records
/// are deleted.
pub fn cleanup(state: &mut AppState, now: u128, wall: Timestamp) -> (r: String)
    requires
        old(state).wf(),
        days_fit(wall, old(state).config.audit_retention_days),
    ensures
        final(state).wf(),
        final(state)@ == cleaned(old(state)@, now),
        exists|cutoff: Timestamp|
            cutoff.is_after(wall, -(old(state).config.audit_retention_days * 86_400)) && r@
                == #[trigger] time_text(cutoff),
{
    let keep_session = |session: &AdminSession| -> (keep: bool)
        ensures
            keep == (session.expires_at > now),
        { session.expires_at > now };
    state.sessions.retain(
        keep_session,
        Ghost(|session: AdminSession| session.expires_at > now),
    );
    let keep_pending = |pending: &PendingConnection| -> (keep: bool)
        ensures
            keep == (pending.expires_at > now),
        { pending.expires_at > now };
    state.pending.retain(keep_pending, Ghost(|p: PendingConnection| p.expires_at > now));
    let cutoff = days_before(wall, state.config.audit_retention_days);
    write_time(cutoff)
}

/// The upkeep ends nothing early: what could still be used before can be used after.
pub proof fn law_upkeep_ends_nothing_early(
    s: AppView,
    now: u128,
    h: Headers,
    m: Method,
    id: u128,
    agent_id: u128,
    ticket: Option<Seq<char>>,
    later: u128,
)
    requires
        now <= later,
    ensures
        admin_check(cleaned(s, now), h, m, later) == admin_check(s, h, m, later),
        crate::gateway::ack_counts(cleaned(s, now), id, agent_id, ticket, later)
            == crate::gateway::ack_counts(s, id, agent_id, ticket, later),
{
}

// What holds of the requests.
/// Attempts to sign in are counted by the address that a proxy names as the real one; else by the
/// first one that it forwards; else by the address of the peer.
pub proof fn law_attempts_are_counted_by_source(h: Headers, peer: IpAddr, ip: IpAddr, other: IpAddr)
    ensures
        h.real_ip.value() == Some(ip_text(ip)) ==> rate_ip(h, peer) == ip,
        h.real_ip.value() is None && h.forwarded_for.value() == Some(ip_text(other)) ==> rate_ip(
            h,
            peer,
        ) == other,
        h.real_ip.value() is None && h.forwarded_for.value() is None ==> rate_ip(h, peer) == peer,
{
    crate::readback::law_addresses_are_read_back(ip);
    crate::gateway::law_the_first_forwarded_address_counts(other, Seq::empty());
}

/// Signing in with the right password opens a session: it is the administrator's, it has the token
/// that was handed out, it lasts as long as sessions do, and the failed attempts of the source are
/// forgotten. The wrong password opens nothing and changes nothing.
pub proof fn law_the_right_password_opens_a_session(
    s: AppView,
    t: AppView,
    r: LoginOutcome,
    key: Seq<char>,
    username: String,
    valid: bool,
    session_id: Seq<char>,
    csrf: Seq<char>,
    now: u128,
    other: Seq<char>,
)
    requires
        login_done(s, t, r, key, username, valid, session_id, csrf, now),
        now + s.config.session_ttl * 1_000_000_000 <= u128::MAX,
    ensures
        r is Granted <==> valid,
        !valid ==> t == s,
        valid ==> {
            &&& t.sessions.contains_key(session_id)
            &&& t.sessions[session_id].username == username
            &&& t.sessions[session_id].csrf_token@ == csrf
            &&& t.sessions[session_id].expires_at == now + s.config.session_ttl * 1_000_000_000
            &&& r->response.csrf_token@ == csrf
            &&& r->response.username == username
            &&& !t.login_attempts.contains_key(key)
            &&& other != key ==> t.login_attempts.contains_key(other)
                == s.login_attempts.contains_key(other)
            &&& other != session_id && s.sessions.contains_key(other) ==> t.sessions.contains_key(
                other,
            ) && t.sessions[other] == s.sessions[other]
            &&& t == AppView { sessions: t.sessions, login_attempts: t.login_attempts, ..s }
        },
{
}

/// A new password needs twelve characters, whatever they are.
pub proof fn law_passwords_need_twelve_characters(password: Seq<char>)
    ensures
        long_enough(password) <==> password.len() > 11,
{
}

/// A device is listed as it is stored, and as online exactly while it is attached.
pub proof fn law_devices_are_listed_as_stored(d: Device, row: DeviceListRow, s: AppView)
    requires
        device_shown(d, row, s),
    ensures
        d.online <==> s.agents.contains_key(d.id),
        d.revoked == row.revoked,
        d.name@ == row.name@,
        id_value(row.id@) == Some(d.id),
        row.last_seen_at is None ==> d.last_seen_at is None,
        row.last_seen_at matches Some(text) ==> time_value(text@) == d.last_seen_at,
        time_value(row.created_at@) == Some(d.created_at),
{
}

/// A new device is what its request asks for: its token is shown once and kept as a digest, its name
/// is kept without white space around it, and it is known by one identifier.
pub proof fn law_new_devices_are_as_asked_for(
    d: NewDevice,
    admin: Admin,
    request: CreateDeviceRequest,
    id: u128,
    token: Seq<char>,
    now: Timestamp,
)
    requires
        device_made(d, admin, request, id, token, now),
    ensures
        d.response.id == id,
        id_value(d.id@) == Some(id),
        d.response.token@ == token,
        d.token_hash@ == token_digest(d.response.token@),
        d.name@ == text::trimmed(request.name@),
        d.response.name@ == d.name@,
        d.response.created_at == now,
        d.created_at@ == time_text(now),
        d.audit.subject@ == d.id@,
{
}

/// A name has 1 to 80 characters.
pub proof fn law_names(name: Seq<char>)
    ensures
        name_ok(name) <==> name.len() != 0 && name.len() < 81,
{
}

/// Whether a listener belongs to one of the tunnels.
pub open spec fn belongs(listeners: Map<u128, u64>, ids: Seq<u128>, token: u64) -> bool {
    exists|i: int|
        0 <= i < ids.len() && listeners.contains_key(#[trigger] ids[i]) && listeners[ids[i]] == token
}

/// Of the listeners those are cancelled that belong to one of the tunnels, and no others.
pub proof fn law_listeners_of_deleted_tunnels_are_cancelled(
    listeners: Map<u128, u64>,
    ids: Seq<u128>,
    token: u64,
)
    ensures
        cancelled(listeners, ids).contains(token) <==> belongs(listeners, ids, token),
        cancelled(listeners, ids).len() <= ids.len(),
    decreases ids.len(),
{
    if ids.len() > 0 {
        let start = ids.drop_last();
        let (all, done) = (cancelled(listeners, ids), cancelled(listeners, start));
        law_listeners_of_deleted_tunnels_are_cancelled(listeners, start, token);
        assert(ids.last() == ids[ids.len() - 1]);
        if belongs(listeners, start, token) {
            let i = choose|i: int|
                0 <= i < start.len() && listeners.contains_key(#[trigger] start[i])
                    && listeners[start[i]] == token;
            assert(ids[i] == start[i]);
            let k = done.index_of(token);
            assert(all[k] == done[k]);
        } else if belongs(listeners, ids, token) {
            let i = choose|i: int|
                0 <= i < ids.len() && listeners.contains_key(#[trigger] ids[i]) && listeners[ids[i]]
                    == token;
            if i < start.len() {
                assert(start[i] == ids[i]);
            } else if start.to_set().contains(ids.last()) {
                assert(start.contains(ids.last()));
                let j = start.index_of(ids.last());
                assert(start[j] == ids.last());
            } else {
                assert(all == done.push(token));
                assert(all[done.len() as int] == token);
            }
        }
        if all.contains(token) {
            let k = all.index_of(token);
            if k < done.len() {
                assert(done[k] == token);
            } else {
                assert(listeners.contains_key(ids[ids.len() - 1]));
            }
        }
    }
}

/// What is shown of a tunnel: it is stopped where it is not enabled; else it is in error where its
/// port has no listener; else its agent is offline, or it is online. A web tunnel needs no listener.
/// All else is shown as it is.
pub proof fn law_tunnels_are_shown_as_they_are(s: AppView, t: TunnelView)
    ensures
        !t.enabled ==> decorated(s, t).status == TunnelStatus::Stopped,
        t.enabled && t.kind == TunnelKind::Web && s.agents.contains_key(t.agent_id) ==> decorated(
            s,
            t,
        ).status == TunnelStatus::Online,
        t.enabled && t.kind == TunnelKind::Web && !s.agents.contains_key(t.agent_id) ==> decorated(
            s,
            t,
        ).status == TunnelStatus::AgentOffline,
        t.enabled && t.kind != TunnelKind::Web && !s.listeners.contains_key(t.id) ==> decorated(
            s,
            t,
        ).status == TunnelStatus::Error,
        t.enabled && t.kind != TunnelKind::Web && s.listeners.contains_key(t.id)
            && s.agents.contains_key(t.agent_id) ==> decorated(s, t).status == TunnelStatus::Online,
        t.enabled && t.kind != TunnelKind::Web && s.listeners.contains_key(t.id)
            && !s.agents.contains_key(t.agent_id) ==> decorated(s, t).status
            == TunnelStatus::AgentOffline,
        decorated(s, t) == (TunnelView { status: decorated(s, t).status, ..t }),
{
}

/// Each of a list of tunnels is shown, in order.
pub proof fn law_every_tunnel_is_shown(s: AppView, list: Seq<TunnelView>, i: int)
    ensures
        decorated_all(s, list).len() == list.len(),
        0 <= i < list.len() ==> decorated_all(s, list)[i] == decorated(s, list[i]),
{
}

/// The audit log tells what was done and by whom: a device is told from the administrator.
pub proof fn law_the_log_names_the_actor(act: TunnelAct, name: String)
    ensures
        called(Actor::Administrator(name)) == name@,
        called(Actor::Device(name)) == "device "@ + name@,
        act is Create ==> act_text(act) == ("tunnel.create"@, "created by "@),
        act is Update ==> act_text(act) == ("tunnel.update"@, "updated by "@),
        act is Delete ==> act_text(act) == ("tunnel.delete"@, "deleted by "@),
{
}

/// A proxy is trusted where some block of the settings covers its address, wherever the block stands
/// in the list, and nowhere else; an IPv4 address also where it is mapped into IPv6.
pub proof fn law_trusted_proxies(config: Config, v4: u32, i: int)
    ensures
        0 <= i < config.trusted_proxy_cidrs@.len() && config.trusted_proxy_cidrs@[i].covers(
            IpAddr::V4(v4),
        ) ==> trusted(config, IpAddr::V4(v4)) && trusted(
            config,
            IpAddr::V6((0xffff_0000_0000 + v4) as u128),
        ),
        trusted(config, IpAddr::V4(v4)) ==> exists|k: int|
            0 <= k < config.trusted_proxy_cidrs@.len() && (
            #[trigger] config.trusted_proxy_cidrs@[k]).covers(IpAddr::V4(v4)),
        config.trusted_proxy_cidrs@.len() == 0 ==> !trusted(config, IpAddr::V4(v4)),
{
    net::law_unmapped(IpAddr::V4(v4), v4);
}

/// The host that a visitor asked for is the one that the proxy forwards, or else that of the request;
/// without its port, and in lower case.
pub proof fn law_visitors_ask_for_hosts(h: Headers, host: Seq<char>, port: Seq<char>)
    requires
        !host.contains(':'),
    ensures
        h.forwarded_host.value() == Some(host) ==> proxied_host(h) == Some(text::lower(host)),
        h.forwarded_host.value() == Some(host + seq![':'] + port) ==> proxied_host(h) == Some(
            text::lower(host),
        ),
        h.forwarded_host is Absent && h.host.value() == Some(host) ==> proxied_host(h) == Some(
            text::lower(host),
        ),
        h.forwarded_host is Absent && h.host.value() == Some(host + seq![':'] + port)
            ==> proxied_host(h) == Some(text::lower(host)),
        h.forwarded_host is Opaque ==> proxied_host(h) is None,
        h.forwarded_host is Absent && h.host.value() is None ==> proxied_host(h) is None,
{
    crate::readback::lemma_cut(host, ':', port);
    text::lemma_first_at(host, ':');
    assert(text::before(host, ':') =~= host);
}

/// A web request that a trusted proxy passes on goes to the tunnel of the host that the visitor asked
/// for, with the address of the visitor as its source: the only one that the proxy names, or the
/// first of several.
pub proof fn law_web_requests_find_their_tunnel(
    r: Result<(Tunnel, SocketAddr), AppError>,
    config: Config,
    proxy: IpAddr,
    h: Headers,
    rows: Seq<TunnelRow>,
    host: Seq<char>,
    ip: IpAddr,
    rest: Seq<char>,
)
    requires
        proxied(r, config, proxy, h, rows),
        trusted(config, proxy),
        !host.contains(':'),
        h.forwarded_host.value() == Some(host),
        h.forwarded_for.value() == Some(ip_text(ip)) || h.forwarded_for.value() == Some(
            ip_text(ip) + seq![','] + rest,
        ),
    ensures
        ({
            let place = host_place(rows, text::lower(host)) as int;
            &&& place < rows.len() && crate::rows::row_fault(rows[place]) is None ==> (
            r matches Ok((tunnel, source)) && tunnel@ == crate::rows::tunnel_of(rows[place])
                && source.ip == ip && source.port == 0 && source.scope == 0)
            &&& place >= rows.len() ==> r == Err::<(Tunnel, SocketAddr), AppError>(
                AppError::NotFound,
            )
        }),
{
    law_visitors_ask_for_hosts(h, host, Seq::empty());
    crate::gateway::law_the_first_forwarded_address_counts(ip, rest);
}

/// Upkeep ends what is over and nothing else: of the sessions and the pending offers those stay whose
/// time is not up, as they are.
pub proof fn law_upkeep_ends_what_is_over(s: AppView, now: u128, session: Seq<char>, offer: u128)
    ensures
        cleaned(s, now).sessions.contains_key(session) <==> s.sessions.contains_key(session) && now
            < s.sessions[session].expires_at,
        cleaned(s, now).sessions.contains_key(session) ==> cleaned(s, now).sessions[session]
            == s.sessions[session],
        cleaned(s, now).pending.contains_key(offer) <==> s.pending.contains_key(offer) && now
            < s.pending[offer].expires_at,
        cleaned(s, now).pending.contains_key(offer) ==> cleaned(s, now).pending[offer]
            == s.pending[offer],
        cleaned(s, now) == (AppView {
            sessions: cleaned(s, now).sessions,
            pending: cleaned(s, now).pending,
            ..s
        }),
{
}

/// A connection in progress is listed once, as it is.
pub proof fn law_connections_are_listed_once(
    list: Seq<ActiveConnection>,
    keys: Seq<u128>,
    active: Map<u128, ActiveConnection>,
    id: u128,
)
    requires
        lists_active(list, keys, active),
    ensures
        active.contains_key(id) ==> exists|i: int|
            0 <= i < list.len() && #[trigger] list[i] == active[id],
        forall|i: int| 0 <= i < list.len() ==> active.contains_value(#[trigger] list[i]),
{
    if active.contains_key(id) {
        assert(keys.contains(id));
        let i = keys.index_of(id);
        assert(list[i] == active[keys[i]]);
    }
    assert forall|i: int| 0 <= i < list.len() implies active.contains_value(#[trigger] list[i]) by {
        assert(keys.contains(keys[i]));
        assert(active.contains_key(keys[i]));
    }
}

/// How many lines of the audit log are asked for.
pub open spec fn limited(limit: Option<u16>) -> u16 {
    match limit {
        None => 100,
        Some(n) => if n == 0 {
            1
        } else if n <= 500 {
            n
        } else {
            500
        },
    }
}

/// A hundred lines are shown where no number is asked for, else as many as are asked for, but at least
/// one and at most five hundred.
pub proof fn law_lines_are_limited(n: u16)
    ensures
        limited(None) == 100,
        1 <= n <= 500 ==> limited(Some(n)) == n,
        n > 500 ==> limited(Some(n)) == 500,
        limited(Some(0)) == 1,
{
}

/// Whether a device may be deleted for good, given whether it is there and was revoked.
pub open spec fn deletable(revoked: Option<bool>) -> bool {
    revoked is Some && revoked->0
}

/// Only a device that was revoked is deleted for good.
pub proof fn law_devices_are_revoked_first(revoked: Option<bool>)
    ensures
        deletable(revoked) <==> revoked == Some(true),
{
}

/// Whether a proxy may get a certificate for a domain.
pub open spec fn certified(
    config: Config,
    peer: IpAddr,
    domain: Seq<char>,
    rows: Seq<TunnelRow>,
) -> bool {
    host_count(rows, domain) == 1 && trusted(config, peer)
}

/// A certificate is granted to a trusted proxy, for a host name that one enabled web tunnel has; not to
/// others, and not for names that no tunnel serves.
pub proof fn law_certificates_need_a_tunnel(
    config: Config,
    peer: IpAddr,
    domain: Seq<char>,
    rows: Seq<TunnelRow>,
    row: TunnelRow,
)
    ensures
        !trusted(config, peer) ==> !certified(config, peer, domain, rows),
        !certified(config, peer, domain, Seq::empty()),
        trusted(config, peer) && crate::rows::serves_host(row, domain) ==> certified(
            config,
            peer,
            domain,
            seq![row],
        ),
        !crate::rows::serves_host(row, domain) ==> certified(config, peer, domain, rows.push(row))
            == certified(config, peer, domain, rows),
{
    assert(rows.push(row).drop_last() =~= rows);
    assert(seq![row].drop_last() =~= Seq::<TunnelRow>::empty());
    reveal_with_fuel(host_count, 3);
}

/// Whether a device was dropped once it was revoked.
pub open spec fn dropped(
    r: Result<(Option<u64>, Audit), AppError>,
    s: AppView,
    t: AppView,
    id: u128,
    changed: u64,
) -> bool {
    if changed > 0 {
        &&& r matches Ok((carrier, _))
        &&& carrier is Some <==> s.agents.contains_key(id)
        &&& carrier matches Some(channel) ==> channel == s.agents[id].channel
        &&& t == AppView { agents: s.agents.remove(id), ..s }
    } else {
        r is Err && t == s
    }
}

/// A device that is revoked loses its carrier at once and is not attached any more; every other device
/// keeps its own. Where there is no such device, nothing happens.
pub proof fn law_revoked_devices_are_dropped(
    r: Result<(Option<u64>, Audit), AppError>,
    s: AppView,
    t: AppView,
    id: u128,
    changed: u64,
    other: u128,
)
    requires
        dropped(r, s, t, id, changed),
    ensures
        r is Ok <==> changed > 0,
        changed == 0 ==> t == s,
        changed > 0 ==> !t.agents.contains_key(id),
        changed > 0 && s.agents.contains_key(id) ==> (r matches Ok((carrier, _)) && carrier == Some(
            s.agents[id].channel,
        )),
        other != id ==> t.agents.contains_key(other) == s.agents.contains_key(other),
        other != id && s.agents.contains_key(other) ==> t.agents[other] == s.agents[other],
        t.listeners == s.listeners && t.sessions == s.sessions && t.active == s.active,
{
}

/// Whether a device was deleted with its tunnels.
pub open spec fn deleted(
    r: Result<DeletedDevice, AppError>,
    s: AppView,
    t: AppView,
    id: u128,
    tunnels: Seq<u128>,
    removed: u64,
) -> bool {
    if removed > 0 {
        &&& r matches Ok(d)
        &&& d.listeners@ == cancelled(s.listeners, tunnels)
        &&& d.carrier is Some <==> s.agents.contains_key(id)
        &&& d.carrier matches Some(channel) ==> channel == s.agents[id].channel
        &&& t == AppView {
            agents: s.agents.remove(id),
            listeners: s.listeners.remove_keys(tunnels.to_set()),
            ..s
        }
    } else {
        r == Err::<DeletedDevice, AppError>(AppError::NotFound) && t == s
    }
}

/// A device that is deleted takes its carrier and the listeners of its tunnels with it, and leaves all
/// others alone.
pub proof fn law_deleted_devices_take_their_tunnels(
    r: Result<DeletedDevice, AppError>,
    s: AppView,
    t: AppView,
    id: u128,
    tunnels: Seq<u128>,
    removed: u64,
    i: int,
    other: u128,
)
    requires
        deleted(r, s, t, id, tunnels, removed),
    ensures
        r is Ok <==> removed > 0,
        removed == 0 ==> t == s,
        removed > 0 ==> !t.agents.contains_key(id),
        removed > 0 && 0 <= i < tunnels.len() ==> !t.listeners.contains_key(tunnels[i]),
        removed > 0 && 0 <= i < tunnels.len() && s.listeners.contains_key(tunnels[i]) ==> (
        r matches Ok(d) && d.listeners@.contains(s.listeners[tunnels[i]])),
        !tunnels.contains(other) ==> t.listeners.contains_key(other) == s.listeners.contains_key(
            other,
        ),
        other != id ==> t.agents.contains_key(other) == s.agents.contains_key(other),
{
    if removed > 0 {
        if 0 <= i < tunnels.len() {
            assert(tunnels.contains(tunnels[i]));
            assert(tunnels.to_set().contains(tunnels[i]));
            if s.listeners.contains_key(tunnels[i]) {
                assert(belongs(s.listeners, tunnels, s.listeners[tunnels[i]]));
                law_listeners_of_deleted_tunnels_are_cancelled(
                    s.listeners,
                    tunnels,
                    s.listeners[tunnels[i]],
                );
            }
        }
        if !tunnels.contains(other) {
            assert(!tunnels.to_set().contains(other));
        }
    }
}

/// Whether a result is the hash of a new password, or why there is none.
pub open spec fn repassworded(
    r: Result<(String, Audit), AppError>,
    request: ChangePasswordRequest,
    stored: Seq<char>,
) -> bool {
    let long = request.new_password@.len() >= 12;
    let known = argon2_accepts(stored, encode_utf8(request.current_password@));
    &&& r is Ok ==> long && known
    &&& r matches Ok((hash, _)) ==> hash_of(hash@, request.new_password@)
    &&& !long ==> (r matches Err(e) && e is BadRequest)
    &&& long && !known ==> r == Err::<(String, Audit), AppError>(AppError::Unauthorized)
    &&& long && known && hashable(request.new_password@) ==> r is Ok
}

/// A password is changed by whoever knows the present one, to one that is long enough, and to nothing
/// else: the hash that is stored then fits the new one.
pub proof fn law_passwords_are_changed_by_who_knows_them(
    r: Result<(String, Audit), AppError>,
    request: ChangePasswordRequest,
    stored: Seq<char>,
)
    requires
        repassworded(r, request, stored),
        hashable(request.new_password@),
    ensures
        r is Ok <==> request.new_password@.len() >= 12 && argon2_accepts(
            stored,
            encode_utf8(request.current_password@),
        ),
        r matches Ok((hash, _)) ==> argon2_accepts(hash@, encode_utf8(request.new_password@)),
{
}

/// Whether an answer is what an agent needs to enrol.
pub open spec fn enrols(
    r: Result<AgentEnrollmentResponse, AppError>,
    s: AppView,
    tunnels: Seq<Tunnel>,
    identity: Option<&TransportIdentity>,
) -> bool {
    match identity {
        Some(identity) => {
            &&& r matches Ok(e)
            &&& e.transport_fingerprint@ == identity.fingerprint@
            &&& e.transport_certificate_der@ == standard_base64(identity.certificate@)
            &&& e.quic_port == s.config.quic_port && e.kcp_port == s.config.kcp_port
            &&& tunnel_views(e.tunnels@) == decorated_all(s, tunnel_views(tunnels))
        },
        None => r is Err,
    }
}

/// An agent that enrols learns the certificate and the fingerprint of the relay, its ports, and its own
/// tunnels; with the certificate and the fingerprint it can make sure of the relay.
pub proof fn law_enrolment_hands_out_the_pin(
    r: Result<AgentEnrollmentResponse, AppError>,
    s: AppView,
    tunnels: Seq<Tunnel>,
    identity: TransportIdentity,
    i: int,
)
    requires
        enrols(r, s, tunnels, Some(&identity)),
        crate::transport_identity::identifies(
            Ok::<TransportIdentity, String>(identity),
            identity.certificate@,
            identity.private_key_pem,
        ),
    ensures
        r matches Ok(e) && crate::agent::pins(
            e.transport_certificate_der@,
            e.transport_fingerprint@,
            identity.certificate@,
        ) && e.quic_port == s.config.quic_port && e.kcp_port == s.config.kcp_port && (0 <= i
            < tunnels.len() ==> e.tunnels@[i].id == tunnels[i].id && e.tunnels@[i].local_port
            == tunnels[i].local_port),
{
    crate::agent::law_pins_are_taken_back(identity, identity.private_key_pem);
    let e = r->Ok_0;
    assert(tunnel_views(e.tunnels@).len() == tunnels.len());
    if 0 <= i < tunnels.len() {
        assert(tunnel_views(e.tunnels@)[i] == e.tunnels@[i]@);
        assert(tunnel_views(tunnels)[i] == tunnels[i]@);
        assert(e.tunnels@[i]@ == decorated(s, tunnels[i]@));
        assert(e.tunnels@[i]@.id == e.tunnels@[i].id);
        assert(e.tunnels@[i]@.local_port == e.tunnels@[i].local_port);
    }
}

/// Whether settings are shown.
pub open spec fn shows_settings(r: ServerSettingsResponse, config: Config) -> bool {
    &&& r.port_start == config.port_start && r.port_end == config.port_end
    &&& r.ticket_ttl_seconds == config.ticket_ttl
    &&& r.connect_timeout_seconds == config.connect_timeout
    &&& r.idle_timeout_seconds == config.idle_timeout
    &&& r.audit_retention_days == config.audit_retention_days
    &&& r.web_base_domain == config.web_base_domain
    &&& r.quic_port == config.quic_port && r.kcp_port == config.kcp_port
}

/// Each setting is shown under its own name.
pub proof fn law_settings_are_shown(r: ServerSettingsResponse, config: Config)
    requires
        shows_settings(r, config),
    ensures
        r.port_start == config.port_start,
        r.port_end == config.port_end,
        r.ticket_ttl_seconds == config.ticket_ttl,
        r.connect_timeout_seconds == config.connect_timeout,
        r.idle_timeout_seconds == config.idle_timeout,
        r.audit_retention_days == config.audit_retention_days,
        r.web_base_domain == config.web_base_domain,
        r.quic_port == config.quic_port,
        r.kcp_port == config.kcp_port,
{
}

/// Whether an administrator was signed out.
pub open spec fn signed_out(
    r: Result<(Audit, String), AppError>,
    s: AppView,
    t: AppView,
    h: Headers,
    now: u128,
) -> bool {
    match admin_check(s, h, Method::Post, now) {
        Ok(_) => {
            &&& r matches Ok((_, cookie))
            &&& cookie@ == clear_cookie_text(s.config)
            &&& cookie_of(h.cookie, "tb_session"@) matches Some(id) && t == (AppView {
                sessions: s.sessions.remove(id),
                ..s
            })
        },
        Err(e) => r == Err::<(Audit, String), AppError>(e) && t.agents == s.agents,
    }
}

/// Whoever signs out is not admitted any more with the same cookie, whatever the request; other sessions
/// stay.
pub proof fn law_signing_out_is_final(
    r: Result<(Audit, String), AppError>,
    s: AppView,
    t: AppView,
    h: Headers,
    now: u128,
    m: Method,
    later: u128,
    other: Seq<char>,
)
    requires
        signed_out(r, s, t, h, now),
        r is Ok,
    ensures
        admin_check(t, h, m, later) == Err::<AdminSession, AppError>(AppError::Unauthorized),
        cookie_of(h.cookie, "tb_session"@) != Some(other) ==> t.sessions.contains_key(other)
            == s.sessions.contains_key(other),
{
}

/// What is known once all sessions are ended.
pub open spec fn without_sessions(s: AppView) -> AppView {
    AppView { sessions: Map::empty(), ..s }
}

/// A new password ends every session: no request is admitted with an old one.
pub proof fn law_a_new_password_ends_every_session(s: AppView, h: Headers, m: Method, now: u128)
    ensures
        admin_check(without_sessions(s), h, m, now) == Err::<AdminSession, AppError>(
            AppError::Unauthorized,
        ),
        without_sessions(s).agents == s.agents && without_sessions(s).active == s.active,
{
}

/// The first row that cannot be shown is the one that is told of: all rows in front of it can be.
pub proof fn law_the_first_faulty_row_counts(
    devices: Seq<DeviceListRow>,
    lines: Seq<AuditRow>,
    ids: Seq<Seq<char>>,
    i: int,
)
    ensures
        first_device_fault(devices) <= devices.len(),
        0 <= i < first_device_fault(devices) ==> device_fault(devices[i]) is None,
        i == first_device_fault(devices) < devices.len() ==> device_fault(devices[i]) is Some,
        first_untimed(lines) <= lines.len(),
        0 <= i < first_untimed(lines) ==> time_value(lines[i].created_at@) is Some,
        i == first_untimed(lines) < lines.len() ==> time_value(lines[i].created_at@) is None,
        first_bad_id(ids) <= ids.len(),
        0 <= i < first_bad_id(ids) ==> id_value(ids[i]) is Some,
        i == first_bad_id(ids) < ids.len() ==> id_value(ids[i]) is None,
    decreases devices.len() + lines.len() + ids.len(),
{
    let d = if devices.len() > 0 {
        devices.skip(1)
    } else {
        devices
    };
    let l = if lines.len() > 0 {
        lines.skip(1)
    } else {
        lines
    };
    let t = if ids.len() > 0 {
        ids.skip(1)
    } else {
        ids
    };
    if devices.len() + lines.len() + ids.len() > 0 {
        law_the_first_faulty_row_counts(d, l, t, i - 1);
    }
}

/// A row of a device is faulty where its identifier or one of its times cannot be read.
pub proof fn law_faults_of_devices(row: DeviceListRow)
    ensures
        device_fault(row) is None <==> id_value(row.id@) is Some && time_value(
            row.created_at@,
        ) is Some && (row.last_seen_at matches Some(at) ==> time_value(at@) is Some),
        id_value(row.id@) is None ==> device_fault(row) == Some(id_error(row.id@)),
{
}

/// A line of the audit log shows what was stored.
pub proof fn law_lines_show_what_was_stored(e: AuditEntry, row: AuditRow)
    requires
        entry_shown(e, row),
    ensures
        e.id == row.id && e.action@ == row.action@ && e.subject@ == row.subject@ && e.detail@
            == row.detail@,
        time_value(row.created_at@) == Some(e.created_at),
{
}

/// Nobody signs in where no password is stored. Whoever does gets the cookie of the session that was
/// opened, with its token; whoever does not leaves all as it was.
pub proof fn law_sessions_have_their_cookie(
    s: AppView,
    t: AppView,
    r: LoginOutcome,
    key: Seq<char>,
    username: String,
    valid: bool,
    session_id: Seq<char>,
    csrf: Seq<char>,
    now: u128,
    password: Seq<char>,
)
    requires
        login_done(s, t, r, key, username, valid, session_id, csrf, now),
    ensures
        !password_fits(None, password),
        r is Granted <==> valid,
        r matches LoginOutcome::Granted { response, cookie, audit } ==> cookie@
            == session_cookie_text(s.config, session_id) && response.username == username
            && response.csrf_token@ == csrf && t.sessions.contains_key(session_id)
            && t.sessions[session_id].csrf_token@ == csrf && t.sessions[session_id].username
            == username && audit.action@ == "auth.login"@ && audit.subject@ == username@
            && audit.detail@ == "administrator signed in"@,
        r matches LoginOutcome::Denied(audit) ==> t == s && audit.action@ == "auth.login_failed"@
            && audit.subject@ == username@ && audit.detail@ == "invalid credentials"@,
{
}

/// A request of a visitor is refused where its proxy is not trusted, and otherwise where it does not say
/// which host it is for or where it comes from.
pub proof fn law_visitors_must_say_what_they_want(
    r: Result<(Tunnel, SocketAddr), AppError>,
    config: Config,
    proxy: IpAddr,
    h: Headers,
    rows: Seq<TunnelRow>,
)
    requires
        proxied(r, config, proxy, h, rows),
    ensures
        !trusted(config, proxy) ==> (r matches Err(e) && e.status() == 403),
        trusted(config, proxy) && proxied_host(h) is None ==> (r matches Err(e) && e.status() == 400
            && e.reply_message() == "missing forwarded host"@),
        trusted(config, proxy) && proxied_host(h) is Some && forwarded_ip(
            h.forwarded_for.value(),
        ) is None ==> (r matches Err(e) && e.status() == 400 && e.reply_message()
            == "missing forwarded source address"@),
        r matches Ok((_, peer)) ==> forwarded_ip(h.forwarded_for.value()) == Some(peer.ip)
            && peer.port == 0,
{
}

} // verus!
