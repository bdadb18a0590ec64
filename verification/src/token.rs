//! Exchanging the refresh credential for a bearer token.

use crate::error::{Error, ErrorKind, ErrorView};
use crate::json::{document_of, json_text, Json, JsonValue};
use vstd::prelude::*;
use vstd::string::StringExecFns;

verus! {

/// The address of the token endpoint.
pub const URL_REFRESH: &'static str = "https://oauth2.googleapis.com/token";

/// The address that the token request is posted to: the endpoint with the
/// client's id and secret, the refresh credential and the grant type as query
/// parameters.
pub open spec fn refresh_address(
    client_id: Seq<char>,
    client_secret: Seq<char>,
    refresh_token: Seq<char>,
) -> Seq<char> {
    "https://oauth2.googleapis.com/token"@ + "?client_id="@ + client_id + "&client_secret="@
        + client_secret + "&refresh_token="@ + refresh_token + "&grant_type=refresh_token"@
}

/// The address that the token request is posted to.
pub fn refresh_url(client_id: &str, client_secret: &str, refresh_token: &str) -> (url: String)
    ensures
        url@ == refresh_address(client_id@, client_secret@, refresh_token@),
{
    let mut url = String::from_str(URL_REFRESH);
    url.append("?client_id=");
    url.append(client_id);
    url.append("&client_secret=");
    url.append(client_secret);
    url.append("&refresh_token=");
    url.append(refresh_token);
    url.append("&grant_type=refresh_token");
    url
}

/// The `access_token` member of the token endpoint's answer, where the answer
/// is a JSON object and has one.
pub open spec fn access_token_of(body: Seq<u8>) -> Option<JsonValue> {
    document_of(body).member("access_token"@)
}

/// The error for an answer without `access_token`.
pub open spec fn no_access_token() -> ErrorView {
    ErrorView { kind: ErrorKind::Auth, message: "failed to get access_token"@ }
}

/// The bearer token that a member `access_token` stands for: the characters of
/// a string, and for a member of any other type its JSON text.
pub open spec fn token_text(member: JsonValue) -> Seq<char> {
    match member {
        JsonValue::Text(s) => s,
        other => json_text(other),
    }
}

/// Reads the bearer token off the decoded answer of the token endpoint: the
/// value of its member `access_token`. Without such a member the exchange has
/// failed.
pub fn read_token(answer: &Json) -> (res: Result<String, Error>)
    ensures
        match res {
            Ok(token) => answer@.member("access_token"@) is Some && token@ == token_text(
                answer@.member("access_token"@).unwrap(),
            ),
            Err(e) => answer@.member("access_token"@) is None && e@ == no_access_token(),
        },
{
    match answer.get("access_token") {
        Some(member) => match member.as_text() {
            Some(text) => Ok(text.clone()),
            None => Ok(member.encode()),
        },
        None => Err(Error::AuthError(String::from_str("failed to get access_token"))),
    }
}

/// Reads the bearer token off the token endpoint's answer.
///
/// The answer has to be a JSON object with a member `access_token`; without one
/// the exchange has failed. The token is the value of that member: for a string
/// its characters, without quotes.
pub fn refresh_token(body: &[u8]) -> (res: Result<String, Error>)
    ensures
        match res {
            Ok(token) => access_token_of(body@) is Some && token@ == token_text(
                access_token_of(body@).unwrap(),
            ),
            Err(e) => access_token_of(body@) is None && e@ == no_access_token(),
        },
{
    let answer = Json::read(body);
    read_token(&answer)
}

} // verus!
