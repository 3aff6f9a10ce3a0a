//! What holds of the decision on a request, over the bytes of its headers.
use vstd::prelude::*;

use crate::auth::{
    bytes_of_option, header_text, health_path, key_of, verdict, AuthRequest, Denial, ProxyAuthMode,
    ProxySecurityConfig,
};
use crate::text_laws::law_prefix;

verus! {

/// Whether the bytes are the text in ASCII, and each of them is a tab or can be
/// seen.
pub open spec fn spells(bytes: Seq<u8>, text: Seq<char>) -> bool {
    &&& bytes.len() == text.len()
    &&& forall|i: int|
        0 <= i < bytes.len() ==> (#[trigger] bytes[i] == 9 || 32 <= bytes[i] <= 126) && bytes[i]
            == text[i] as int
}

/// Whether there is no such header, or it has a byte that is neither a tab nor can
/// be seen.
pub open spec fn unreadable(value: Option<Vec<u8>>) -> bool {
    value matches Some(bytes) ==> exists|i: int|
        0 <= i < bytes@.len() && !(#[trigger] bytes@[i] == 9 || 32 <= bytes@[i] <= 126)
}

/// A header is read byte by byte, and only where all of it can be.
pub proof fn law_header(value: Option<Vec<u8>>, text: Seq<char>)
    ensures
        unreadable(value) ==> header_text(bytes_of_option(value)) is None,
        value is Some && spells(value->0@, text) ==> header_text(
            bytes_of_option(value),
        ) == Some(text),
{
    if value is Some && spells(value->0@, text) {
        assert(value->0@.map_values(|b: u8| b as char) =~= text);
    }
}

/// The `authorization` header goes first: a request carries what follows `Bearer `
/// in it, or all of it, whatever the other headers hold.
pub proof fn law_key_in_authorization(request: AuthRequest, text: Seq<char>, key: Seq<char>)
    requires
        request.authorization is Some,
        spells(request.authorization->0@, text),
    ensures
        text == "Bearer "@ + key ==> key_of(request) == Some(key),
        (forall|rest: Seq<char>| text != #[trigger] ("Bearer "@ + rest)) ==> key_of(request)
            == Some(text),
{
    law_header(request.authorization, text);
    law_prefix(text, "Bearer "@);
    reveal_strlit("Bearer ");
    assert("Bearer "@.len() == 7);
    if text == "Bearer "@ + key {
        assert(text.skip(7) =~= key);
    }
}

/// Without an `authorization` header that can be read, a request carries the text of
/// `x-api-key`; without both, that of `x-goog-api-key`; without all three, nothing.
pub proof fn law_key_in_other_headers(request: AuthRequest, text: Seq<char>)
    requires
        unreadable(request.authorization),
    ensures
        request.x_api_key is Some && spells(request.x_api_key->0@, text) ==> key_of(request)
            == Some(text),
        unreadable(request.x_api_key) && request.x_goog_api_key is Some && spells(
            request.x_goog_api_key->0@,
            text,
        ) ==> key_of(request) == Some(text),
        unreadable(request.x_api_key) && unreadable(request.x_goog_api_key) ==> key_of(request)
            is None,
{
    law_header(request.authorization, text);
    law_header(request.x_api_key, text);
    law_header(request.x_goog_api_key, text);
}

/// Health checks go to three paths, and to no other.
pub proof fn law_health_paths(path: Seq<char>)
    ensures
        health_path(path) <==> path == "/healthz"@ || path == "/api/health"@ || path == "/health"@,
{
}

/// Whether the request passes without a key: it is a CORS preflight, or keys are
/// switched off, or it is a health check that the interface excepts.
pub open spec fn passes_freely(mode: ProxyAuthMode, request: AuthRequest, admin: bool) -> bool {
    ||| request.method@ == "OPTIONS"@
    ||| mode == ProxyAuthMode::Off
    ||| {
        &&& request.path@ == "/healthz"@ || request.path@ == "/api/health"@ || request.path@
            == "/health"@
        &&& admin || mode == ProxyAuthMode::AllExceptHealth
    }
}

/// What decides on a request that does not pass freely: the key that it carries. On
/// the admin interface it has to be the admin password, where one is set, else the
/// API key; on the proxy interface the API key.
pub proof fn law_key_decides(
    security: ProxySecurityConfig,
    mode: ProxyAuthMode,
    request: AuthRequest,
    admin: bool,
)
    ensures
        ({
            let has_password = security.admin_password is Some && security.admin_password->0@.len()
                > 0;
            let r = verdict(security, mode, request, admin);
            &&& passes_freely(mode, request, admin) ==> r is Ok
            &&& !passes_freely(mode, request, admin) ==> {
                &&& security.api_key@.len() == 0 && !has_password ==> r == Err::<(), Denial>(
                    Denial::NothingSet,
                )
                &&& has_password && admin ==> {
                    &&& key_of(request) == Some(security.admin_password->0@) ==> r is Ok
                    &&& key_of(request) != Some(security.admin_password->0@) ==> r == Err::<
                        (),
                        Denial,
                    >(Denial::WrongKey)
                }
                &&& (has_password && !admin) || (!has_password && security.api_key@.len() > 0) ==> {
                    &&& key_of(request) == Some(security.api_key@) ==> r is Ok
                    &&& key_of(request) != Some(security.api_key@) ==> r == Err::<(), Denial>(
                        Denial::WrongKey,
                    )
                }
            }
        }),
{
}

/// The API key opens the proxy interface in every mode, in each of the three
/// headers, while the headers before are not there.
pub proof fn law_api_key_opens_the_proxy(
    security: ProxySecurityConfig,
    mode: ProxyAuthMode,
    request: AuthRequest,
    text: Seq<char>,
)
    requires
        security.api_key@.len() > 0,
        ({
            ||| request.authorization is Some && spells(request.authorization->0@, text) && text
                == "Bearer "@ + security.api_key@
            ||| request.authorization is None && request.x_api_key is Some && spells(
                request.x_api_key->0@,
                security.api_key@,
            )
            ||| request.authorization is None && request.x_api_key is None
                && request.x_goog_api_key is Some && spells(
                request.x_goog_api_key->0@,
                security.api_key@,
            )
        }),
    ensures
        verdict(security, mode, request, false) is Ok,
{
    if request.authorization is Some {
        law_key_in_authorization(request, text, security.api_key@);
    } else {
        law_key_in_other_headers(request, security.api_key@);
    }
    law_key_decides(security, mode, request, false);
}

/// A key that is not the one asked for opens nothing, in whichever header it is.
pub proof fn law_other_keys_do_not_open(
    security: ProxySecurityConfig,
    mode: ProxyAuthMode,
    request: AuthRequest,
    admin: bool,
    text: Seq<char>,
)
    requires
        !passes_freely(mode, request, admin),
        text != security.api_key@,
        security.admin_password is Some ==> text != security.admin_password->0@,
        ({
            ||| request.authorization is Some && (exists|sent: Seq<char>|
                #[trigger] spells(request.authorization->0@, sent) && sent == "Bearer "@ + text)
            ||| request.authorization is None && request.x_api_key is Some && spells(
                request.x_api_key->0@,
                text,
            )
            ||| request.authorization is None && request.x_api_key is None
                && request.x_goog_api_key is Some && spells(request.x_goog_api_key->0@, text)
        }),
    ensures
        verdict(security, mode, request, admin) is Err,
{
    if request.authorization is Some {
        let sent = choose|sent: Seq<char>|
            #[trigger] spells(request.authorization->0@, sent) && sent == "Bearer "@ + text;
        law_key_in_authorization(request, sent, text);
    } else {
        law_key_in_other_headers(request, text);
    }
    law_key_decides(security, mode, request, admin);
}

} // verus!
