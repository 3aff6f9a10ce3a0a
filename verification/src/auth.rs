//! Who may use the proxy: the decision on a request, from what it carries and
//! what the configuration asks for.
use vstd::prelude::*;
use vstd::string::StrSliceExecFns;

use crate::text::{contains_text, has_part, has_prefix, starts_with, text_eq};

verus! {

/// What the proxy asks a key for.
#[derive(Clone, Copy)]
pub enum ProxyAuthMode {
    /// For nothing.
    Off,
    /// For everything.
    Strict,
    /// For everything but health checks.
    AllExceptHealth,
}

/// The part of the configuration that says who may use the proxy.
pub struct ProxySecurityConfig {
    pub auth_mode: ProxyAuthMode,
    pub api_key: String,
    pub admin_password: Option<String>,
    pub allow_lan_access: bool,
    pub port: u16,
}

/// What the decision reads of a request: its method and path, and the values of
/// the headers `authorization`, `x-api-key` and `x-goog-api-key`.
pub struct AuthRequest {
    pub method: String,
    pub path: String,
    pub authorization: Option<Vec<u8>>,
    pub x_api_key: Option<Vec<u8>>,
    pub x_goog_api_key: Option<Vec<u8>>,
}

/// Why a request is denied.
#[derive(Clone, Copy, PartialEq, Eq, Structural, Debug)]
pub enum Denial {
    /// There is neither an API key nor an admin password to compare with.
    NothingSet,
    /// The request has no key, or a wrong one.
    WrongKey,
}

impl Denial {
    /// The HTTP status with which a denied request is answered.
    pub fn status(&self) -> (r: u16)
        ensures
            r == 401,
    {
        401
    }
}

/// Whether a header may hold this byte and still be read as text.
pub open spec fn visible(b: u8) -> bool {
    32 <= b < 127 || b == 9
}

/// The value of a header as text.
pub open spec fn header_text(value: Option<Seq<u8>>) -> Option<Seq<char>> {
    match value {
        Some(bytes) => if forall|i: int| 0 <= i < bytes.len() ==> visible(#[trigger] bytes[i]) {
            Some(bytes.map_values(|b: u8| b as char))
        } else {
            None
        },
        None => None,
    }
}

/// The value of a header as text; nothing, where a byte is not visible ASCII or a
/// tab.
pub fn read_header(value: &Option<Vec<u8>>) -> (r: Option<String>)
    ensures
        text_of_option(r) == header_text(bytes_of_option(*value)),
{
    match value {
        Some(bytes) => {
            let mut text = String::new();
            let mut i: usize = 0;
            let ghost whole = bytes@.map_values(|b: u8| b as char);
            assert(text@ =~= whole.take(0));
            while i < bytes.len()
                invariant
                    i <= bytes@.len(),
                    bytes_of_option(*value) == Some(bytes@),
                    whole == bytes@.map_values(|b: u8| b as char),
                    text@ == whole.take(i as int),
                    forall|k: int| 0 <= k < i ==> visible(#[trigger] bytes@[k]),
                decreases bytes.len() - i,
            {
                let b: u8 = bytes[i];
                if !((32 <= b && b < 127) || b == 9) {
                    assert(!visible(bytes@[i as int]));
                    return None;
                }
                text.push(b as char);
                assert(text@ =~= whole.take(i + 1));
                i = i + 1;
            }
            assert(whole.take(i as int) =~= whole);
            Some(text)
        },
        None => None,
    }
}

pub open spec fn bytes_of_option(value: Option<Vec<u8>>) -> Option<Seq<u8>> {
    match value {
        Some(bytes) => Some(bytes@),
        None => None,
    }
}

pub open spec fn text_of_option(value: Option<String>) -> Option<Seq<char>> {
    match value {
        Some(s) => Some(s@),
        None => None,
    }
}

/// The key in an `authorization` header: what follows `Bearer `, or all of it.
pub open spec fn bearer(s: Seq<char>) -> Seq<char> {
    if has_prefix(s, "Bearer "@) {
        s.skip(7)
    } else {
        s
    }
}

/// The key that a request carries: the first of the three headers that can be
/// read as text.
pub open spec fn key_of(request: AuthRequest) -> Option<Seq<char>> {
    match header_text(bytes_of_option(request.authorization)) {
        Some(s) => Some(bearer(s)),
        None => match header_text(bytes_of_option(request.x_api_key)) {
            Some(s) => Some(s),
            None => header_text(bytes_of_option(request.x_goog_api_key)),
        },
    }
}

/// The key that a request carries.
pub fn read_key(request: &AuthRequest) -> (r: Option<String>)
    ensures
        text_of_option(r) == key_of(*request),
{
    match read_header(&request.authorization) {
        Some(s) => {
            proof {
                reveal_strlit("Bearer ");
            }
            if starts_with(s.as_str(), "Bearer ") {
                let len = s.as_str().unicode_len();
                let key = s.as_str().substring_char(7, len);
                assert(key@ =~= s@.skip(7));
                Some(key.to_owned())
            } else {
                Some(s)
            }
        },
        None => match read_header(&request.x_api_key) {
            Some(s) => Some(s),
            None => read_header(&request.x_goog_api_key),
        },
    }
}

/// Whether the path is one of a health check.
pub open spec fn health_path(path: Seq<char>) -> bool {
    path == "/healthz"@ || path == "/api/health"@ || path == "/health"@
}

/// Whether the path is one of a health check.
pub fn is_health_check(path: &str) -> (r: bool)
    ensures
        r == health_path(path@),
{
    text_eq(path, "/healthz") || text_eq(path, "/api/health") || text_eq(path, "/health")
}

/// Whether a request with this method is a CORS preflight, which passes whatever
/// the configuration says.
pub fn is_preflight(method: &str) -> (r: bool)
    ensures
        r == (method@ == "OPTIONS"@),
{
    text_eq(method, "OPTIONS")
}

/// Whether requests for the path come so often that they are not worth a line in
/// the log.
pub fn is_heartbeat(path: &str) -> (r: bool)
    ensures
        r == (has_part(path@, "event_logging"@) || health_path(path@)),
{
    contains_text(path, "event_logging") || is_health_check(path)
}

/// Whether a request needs no key: a CORS preflight; anything, where keys are
/// switched off; and a health check, on the admin interface always, on the proxy
/// interface where the mode excepts it.
pub open spec fn needs_no_key(
    mode: ProxyAuthMode,
    request: AuthRequest,
    force_strict: bool,
) -> bool {
    ||| request.method@ == "OPTIONS"@
    ||| mode is Off
    ||| health_path(request.path@) && (force_strict || mode is AllExceptHealth)
}

/// The admin password, where one is set.
pub open spec fn password_of(security: ProxySecurityConfig) -> Option<Seq<char>> {
    match security.admin_password {
        Some(password) => if password@.len() > 0 {
            Some(password@)
        } else {
            None
        },
        None => None,
    }
}

/// The key that a request has to carry: on the admin interface the admin
/// password, where one is set; else the API key.
pub open spec fn expected_key(security: ProxySecurityConfig, force_strict: bool) -> Seq<char> {
    if force_strict && password_of(security) is Some {
        password_of(security)->0
    } else {
        security.api_key@
    }
}

/// The decision on a request.
pub open spec fn verdict(
    security: ProxySecurityConfig,
    mode: ProxyAuthMode,
    request: AuthRequest,
    force_strict: bool,
) -> Result<(), Denial> {
    if needs_no_key(mode, request, force_strict) {
        Ok(())
    } else if security.api_key@.len() == 0 && password_of(security) is None {
        Err(Denial::NothingSet)
    } else if key_of(request) == Some(expected_key(security, force_strict)) {
        Ok(())
    } else {
        Err(Denial::WrongKey)
    }
}

/// Decides on a request to the proxy interface. `mode` is the mode in effect.
pub fn auth_middleware(
    security: &ProxySecurityConfig,
    mode: ProxyAuthMode,
    request: &AuthRequest,
) -> (r: Result<(), Denial>)
    ensures
        r == verdict(*security, mode, *request, false),
{
    auth_middleware_internal(security, mode, request, false)
}

/// Decides on a request to the admin interface. `mode` is the mode in effect.
pub fn admin_auth_middleware(
    security: &ProxySecurityConfig,
    mode: ProxyAuthMode,
    request: &AuthRequest,
) -> (r: Result<(), Denial>)
    ensures
        r == verdict(*security, mode, *request, true),
{
    auth_middleware_internal(security, mode, request, true)
}

/// Decides on a request. `force_strict` stands for the admin interface.
pub fn auth_middleware_internal(
    security: &ProxySecurityConfig,
    mode: ProxyAuthMode,
    request: &AuthRequest,
    force_strict: bool,
) -> (r: Result<(), Denial>)
    ensures
        r == verdict(*security, mode, *request, force_strict),
{
    if is_preflight(request.method.as_str()) {
        return Ok(());
    }
    let is_health_check = is_health_check(request.path.as_str());
    match mode {
        ProxyAuthMode::Off => {
            return Ok(());
        },
        ProxyAuthMode::AllExceptHealth => {
            if is_health_check {
                return Ok(());
            }
        },
        ProxyAuthMode::Strict => {
            if force_strict && is_health_check {
                return Ok(());
            }
        },
    }
    let password: Option<&String> = match &security.admin_password {
        Some(password) => if password.as_str().is_empty() {
            None
        } else {
            Some(password)
        },
        None => None,
    };
    if security.api_key.as_str().is_empty() && password.is_none() {
        return Err(Denial::NothingSet);
    }
    let expected = match password {
        Some(password) => if force_strict {
            password.as_str()
        } else {
            security.api_key.as_str()
        },
        None => security.api_key.as_str(),
    };
    match read_key(request) {
        Some(key) => if text_eq(key.as_str(), expected) {
            Ok(())
        } else {
            Err(Denial::WrongKey)
        },
        None => Err(Denial::WrongKey),
    }
}

/// A CORS preflight passes, whatever the configuration asks for.
pub proof fn law_preflight_passes(
    security: ProxySecurityConfig,
    mode: ProxyAuthMode,
    request: AuthRequest,
    force_strict: bool,
)
    requires
        request.method@ == "OPTIONS"@,
    ensures
        verdict(security, mode, request, force_strict) is Ok,
{
}

/// Health checks pass on the admin interface in every mode, and on the proxy
/// interface in every mode but the strict one.
pub proof fn law_health_checks_pass(
    security: ProxySecurityConfig,
    mode: ProxyAuthMode,
    request: AuthRequest,
)
    requires
        health_path(request.path@),
    ensures
        verdict(security, mode, request, true) is Ok,
        mode !is Strict ==> verdict(security, mode, request, false) is Ok,
{
}

/// Where keys are switched off, everything passes, on the admin interface too.
pub proof fn law_off_lets_all_pass(
    security: ProxySecurityConfig,
    request: AuthRequest,
    force_strict: bool,
)
    ensures
        verdict(security, ProxyAuthMode::Off, request, force_strict) is Ok,
{
}

/// A request that needs a key and carries none is denied.
pub proof fn law_no_key_no_entry(
    security: ProxySecurityConfig,
    mode: ProxyAuthMode,
    request: AuthRequest,
    force_strict: bool,
)
    requires
        !needs_no_key(mode, request, force_strict),
        key_of(request) is None,
    ensures
        verdict(security, mode, request, force_strict) is Err,
{
}

/// While nothing is set to compare with, every request that needs a key is
/// denied, whatever it carries.
pub proof fn law_nothing_set_denies(
    security: ProxySecurityConfig,
    mode: ProxyAuthMode,
    request: AuthRequest,
    force_strict: bool,
)
    requires
        !needs_no_key(mode, request, force_strict),
        security.api_key@.len() == 0,
        password_of(security) is None,
    ensures
        verdict(security, mode, request, force_strict) == Err::<(), Denial>(Denial::NothingSet),
{
}

/// Where an admin password is set, it alone opens the admin interface: the API
/// key does not, unless it is the same.
pub proof fn law_password_goes_first(
    security: ProxySecurityConfig,
    mode: ProxyAuthMode,
    request: AuthRequest,
)
    requires
        !needs_no_key(mode, request, true),
        password_of(security) is Some,
    ensures
        verdict(security, mode, request, true) is Ok <==> key_of(request) == password_of(security),
{
}

/// Where no admin password is set, the API key opens the admin interface.
pub proof fn law_api_key_stands_in(
    security: ProxySecurityConfig,
    mode: ProxyAuthMode,
    request: AuthRequest,
)
    requires
        !needs_no_key(mode, request, true),
        password_of(security) is None,
        security.api_key@.len() > 0,
    ensures
        verdict(security, mode, request, true) is Ok <==> key_of(request) == Some(
            security.api_key@,
        ),
{
}

/// The API key alone opens the proxy interface; the admin password does not,
/// unless it is the same.
pub proof fn law_proxy_takes_the_api_key(
    security: ProxySecurityConfig,
    mode: ProxyAuthMode,
    request: AuthRequest,
)
    requires
        !needs_no_key(mode, request, false),
        security.api_key@.len() > 0 || password_of(security) is Some,
    ensures
        verdict(security, mode, request, false) is Ok <==> key_of(request) == Some(
            security.api_key@,
        ),
{
}

} // verus!
