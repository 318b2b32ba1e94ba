//! The authorization handshake with the service: a first request hands out
//! a token and the place of a partial key; a second one, carrying the token
//! and that key, activates the token for an area.
use vstd::prelude::*;
use crate::decimal::{decimal_usize, parse_usize};
use crate::http::{HttpRequest, SpecHttpRequest, push_header};

verus! {

/// The key from which the partial key is cut.
pub const FULL_KEY: [u8; 40] = [
    98, 99, 100, 49, 53, 49, 48, 55, 51, 99, 48, 51, 98, 51, 53, 50, 101, 49, 101, 102,
    50, 102, 100, 54, 54, 99, 51, 50, 50, 48, 57, 100, 97, 57, 99, 97, 48, 97, 102, 97,
];

/// What `base64::encode` returns for `bytes` (the standard alphabet, with padding).
pub uninterp spec fn base64_encoding(bytes: Seq<u8>) -> Seq<char>;

/// `base64::encode`. Claimed: the result is [`base64_encoding`] of the
/// bytes, four characters for every three bytes begun (`encoded_size` with
/// padding). Inputs whose encoded size overflows `usize` make it panic and
/// are refused.
#[verifier::external_body]
fn base64_encode(bytes: &[u8]) -> (encoded: String)
    requires
        bytes@.len() <= usize::MAX / 2,
    ensures
        encoded@ == base64_encoding(bytes@),
        encoded@.len() == 4 * ((bytes@.len() + 2) / 3),
{
    base64::encode(bytes)
}

/// The partial key: bytes `offset .. offset + length` of [`FULL_KEY`], in
/// base64. A range that reaches past the key's 40 bytes cannot be cut and
/// is refused by `requires`.
pub fn get_partialkey(offset: usize, length: usize) -> (key: String)
    requires
        offset + length <= 40,
    ensures
        key@ == base64_encoding(FULL_KEY@.subrange(offset as int, offset + length)),
        key@.len() == 4 * ((length + 2) / 3),
{
    let mut pkey: Vec<u8> = Vec::new();
    let end = offset + length;
    let mut j = offset;
    while j < end
        invariant
            offset <= j <= end,
            end == offset + length,
            end <= 40,
            pkey@ == FULL_KEY@.subrange(offset as int, j as int),
        decreases end - j,
    {
        pkey.push(FULL_KEY[j]);
        assert(pkey@ =~= FULL_KEY@.subrange(offset as int, j + 1));
        j = j + 1;
    }
    base64_encode(pkey.as_slice())
}

/// What `regex::Regex::new(pattern)` and `is_match(text)` give: `None` where
/// the pattern does not compile, else whether it matches somewhere in `text`.
pub uninterp spec fn regex_search(pattern: Seq<char>, text: Seq<char>) -> Option<bool>;

/// Whether `area` holds `JP` followed by one of `1`, `2`, `3`, `4`, `7`: what
/// the pattern `JP[1-47]` matches (the class `[1-47]` is the range `1-4`
/// and the character `7`).
pub open spec fn serves_area(area: Seq<char>) -> bool {
    exists|i: int| 0 <= i && i + 2 < area.len() && #[trigger] area[i] == 'J' && area[i + 1] == 'P'
        && (area[i + 2] == '1' || area[i + 2] == '2' || area[i + 2] == '3' || area[i + 2] == '4' || area[i + 2] == '7')
}

/// `regex::Regex::new(pattern)`, then `is_match(text)`. Claimed: the result
/// is [`regex_search`]; for the pattern `JP[1-47]`, which compiles, the
/// regex crate's documented syntax and its `is_match` ("a match anywhere
/// in the haystack") give [`serves_area`].
#[verifier::external_body]
fn regex_is_match(pattern: &str, text: &str) -> (found: Option<bool>)
    ensures
        found == regex_search(pattern@, text@),
        pattern@ == "JP[1-47]"@ ==> found == Some(serves_area(text@)),
{
    match regex::Regex::new(pattern) {
        Ok(re) => Some(re.is_match(text)),
        Err(_) => None,
    }
}

/// Whether the service hands out tokens for `area_id`.
pub fn is_served_area(area_id: &str) -> (served: bool)
    ensures
        served == serves_area(area_id@),
{
    match regex_is_match("JP[1-47]", area_id) {
        Some(found) => found,
        None => false,
    }
}

/// Why no token came out of the handshake.
#[derive(Clone, Copy, PartialEq, Eq, Structural, Debug)]
pub enum AuthError {
    /// The area id is not one the service serves.
    AreaNotServed,
    /// A request could not be sent or its answer not read.
    Transport,
    /// The service answered with a failure status.
    Rejected,
    /// A header of the first answer could not be read as text or as a number.
    BadHeader,
}

/// A header of an answer, as received.
pub enum HeaderField {
    /// The header is absent.
    Missing,
    /// The header is present but not visible ASCII text.
    Unreadable,
    Value(String),
}

pub enum SpecHeaderField {
    Missing,
    Unreadable,
    Value(Seq<char>),
}

impl View for HeaderField {
    type V = SpecHeaderField;

    open spec fn view(&self) -> SpecHeaderField {
        match self {
            HeaderField::Missing => SpecHeaderField::Missing,
            HeaderField::Unreadable => SpecHeaderField::Unreadable,
            HeaderField::Value(v) => SpecHeaderField::Value(v@),
        }
    }
}

/// The answer to the first request.
pub enum Auth1Reply {
    /// The request could not be sent.
    Failed,
    /// The status was not a success.
    Rejected,
    /// The status was a success; the headers holding the token, the key
    /// offset and the key length.
    Accepted { auth_token: HeaderField, key_offset: HeaderField, key_length: HeaderField },
}

pub enum SpecAuth1Reply {
    Failed,
    Rejected,
    Accepted { auth_token: SpecHeaderField, key_offset: SpecHeaderField, key_length: SpecHeaderField },
}

impl View for Auth1Reply {
    type V = SpecAuth1Reply;

    open spec fn view(&self) -> SpecAuth1Reply {
        match self {
            Auth1Reply::Failed => SpecAuth1Reply::Failed,
            Auth1Reply::Rejected => SpecAuth1Reply::Rejected,
            Auth1Reply::Accepted { auth_token, key_offset, key_length } => SpecAuth1Reply::Accepted {
                auth_token: auth_token@,
                key_offset: key_offset@,
                key_length: key_length@,
            },
        }
    }
}

/// The answer to the second request.
#[derive(Clone, Copy, PartialEq, Eq, Structural, Debug)]
pub enum Auth2Reply {
    /// The request could not be sent.
    Failed,
    /// The status was not a success.
    Rejected,
    /// The status was a success.
    Accepted,
}

/// Where the handshake for an area stands.
pub enum AuthFlow {
    /// The first request is to be sent (see [`AuthFlow::auth1_request`]).
    SendAuth1 { area_id: String },
    /// The second request is to be sent (see [`AuthFlow::auth2_request`]),
    /// with the location of `area_id` added by the caller.
    SendAuth2 { area_id: String, auth_token: String, partial_key: String },
    /// The handshake is over.
    Finished(Result<String, AuthError>),
}

pub enum SpecAuthFlow {
    SendAuth1 { area_id: Seq<char> },
    SendAuth2 { area_id: Seq<char>, auth_token: Seq<char>, partial_key: Seq<char> },
    Finished(Result<Seq<char>, AuthError>),
}

impl View for AuthFlow {
    type V = SpecAuthFlow;

    open spec fn view(&self) -> SpecAuthFlow {
        match self {
            AuthFlow::SendAuth1 { area_id } => SpecAuthFlow::SendAuth1 { area_id: area_id@ },
            AuthFlow::SendAuth2 { area_id, auth_token, partial_key } => SpecAuthFlow::SendAuth2 {
                area_id: area_id@,
                auth_token: auth_token@,
                partial_key: partial_key@,
            },
            AuthFlow::Finished(Ok(token)) => SpecAuthFlow::Finished(Ok(token@)),
            AuthFlow::Finished(Err(e)) => SpecAuthFlow::Finished(Err(*e)),
        }
    }
}

pub open spec fn auth_start(area: Seq<char>) -> SpecAuthFlow {
    if serves_area(area) {
        SpecAuthFlow::SendAuth1 { area_id: area }
    } else {
        SpecAuthFlow::Finished(Err(AuthError::AreaNotServed))
    }
}

/// Whether the first answer cannot be taken at all: a header that is read
/// is absent, or the key range reaches past [`FULL_KEY`]. Such answers
/// are refused (see [`AuthFlow::on_auth1`]).
pub open spec fn auth1_panics(reply: SpecAuth1Reply) -> bool {
    match reply {
        SpecAuth1Reply::Accepted { auth_token, key_offset, key_length } => match auth_token {
            SpecHeaderField::Missing => true,
            SpecHeaderField::Unreadable => false,
            SpecHeaderField::Value(_) => match key_offset {
                SpecHeaderField::Missing => true,
                SpecHeaderField::Unreadable => false,
                SpecHeaderField::Value(o) => match decimal_usize(o) {
                    None => false,
                    Some(offset) => match key_length {
                        SpecHeaderField::Missing => true,
                        SpecHeaderField::Unreadable => false,
                        SpecHeaderField::Value(l) => match decimal_usize(l) {
                            None => false,
                            Some(length) => offset + length > 40,
                        },
                    },
                },
            },
        },
        _ => false,
    }
}

/// The handshake after the first answer, for an answer that can be taken
/// (see [`auth1_panics`]).
pub open spec fn auth1_outcome(area: Seq<char>, reply: SpecAuth1Reply) -> SpecAuthFlow {
    match reply {
        SpecAuth1Reply::Failed => SpecAuthFlow::Finished(Err(AuthError::Transport)),
        SpecAuth1Reply::Rejected => SpecAuthFlow::Finished(Err(AuthError::Rejected)),
        SpecAuth1Reply::Accepted { auth_token, key_offset, key_length } => {
            match (auth_token, key_offset, key_length) {
                (SpecHeaderField::Value(t), SpecHeaderField::Value(o), SpecHeaderField::Value(l)) => {
                    match (decimal_usize(o), decimal_usize(l)) {
                        (Some(offset), Some(length)) => SpecAuthFlow::SendAuth2 {
                            area_id: area,
                            auth_token: t,
                            partial_key: base64_encoding(FULL_KEY@.subrange(offset as int, offset + length)),
                        },
                        _ => SpecAuthFlow::Finished(Err(AuthError::BadHeader)),
                    }
                },
                _ => SpecAuthFlow::Finished(Err(AuthError::BadHeader)),
            }
        },
    }
}

/// After an accepted first answer whose offset and length headers read as
/// `offset` and `length` (a range within the key), the handshake is to send
/// its second request with the answer's token and, as partial key, the
/// base64 of exactly the key bytes `offset .. offset + length`: the key
/// that [`get_partialkey`] gives for these numbers.
pub proof fn lemma_partial_key_follows_the_answer(area: Seq<char>, token: Seq<char>, offset_text: Seq<char>, length_text: Seq<char>, offset: usize, length: usize)
    requires
        decimal_usize(offset_text) == Some(offset),
        decimal_usize(length_text) == Some(length),
        offset + length <= 40,
    ensures
        auth1_outcome(area, SpecAuth1Reply::Accepted {
            auth_token: SpecHeaderField::Value(token),
            key_offset: SpecHeaderField::Value(offset_text),
            key_length: SpecHeaderField::Value(length_text),
        }) == (SpecAuthFlow::SendAuth2 {
            area_id: area,
            auth_token: token,
            partial_key: base64_encoding(FULL_KEY@.skip(offset as int).take(length as int)),
        }),
{
    assert(FULL_KEY@.skip(offset as int).take(length as int) =~= FULL_KEY@.subrange(offset as int, offset + length));
}

pub open spec fn auth2_outcome(token: Seq<char>, reply: Auth2Reply) -> SpecAuthFlow {
    match reply {
        Auth2Reply::Failed => SpecAuthFlow::Finished(Err(AuthError::Transport)),
        Auth2Reply::Rejected => SpecAuthFlow::Finished(Err(AuthError::Rejected)),
        Auth2Reply::Accepted => SpecAuthFlow::Finished(Ok(token)),
    }
}

/// The headers that identify this client to the service.
pub open spec fn auth1_spec_request() -> SpecHttpRequest {
    SpecHttpRequest {
        url: "https://radiko.jp/v2/api/auth1"@,
        headers: seq![
            ("X-Radiko-App"@, "aSmartPhone7o"@),
            ("X-Radiko-App-Version"@, "0.0.1"@),
            ("X-Radiko-Device"@, "Rust.radiko"@),
            ("X-Radiko-User"@, "dummy_user"@),
        ],
    }
}

/// The second request, with `location` (the area's coordinates, as the
/// caller writes them) as its location header.
pub open spec fn auth2_spec_request(auth_token: Seq<char>, partial_key: Seq<char>, location: Seq<char>) -> SpecHttpRequest {
    SpecHttpRequest {
        url: "https://radiko.jp/v2/api/auth2"@,
        headers: seq![
            ("X-Radiko-App"@, "aSmartPhone7o"@),
            ("X-Radiko-App-Version"@, "0.0.1"@),
            ("X-Radiko-AuthToken"@, auth_token),
            ("X-Radiko-Connection"@, "wifi"@),
            ("X-Radiko-Device"@, "Rust.radiko"@),
            ("X-Radiko-Location"@, location),
            ("X-Radiko-PartialKey"@, partial_key),
            ("X-Radiko-User"@, "dummy_user"@),
        ],
    }
}

/// Starts the handshake for `area_id`; it ends at once, with
/// [`AuthError::AreaNotServed`], for an area that the service does not serve.
pub fn get_auth_token(area_id: &String) -> (flow: AuthFlow)
    ensures
        flow@ == auth_start(area_id@),
{
    if is_served_area(area_id.as_str()) {
        AuthFlow::SendAuth1 { area_id: area_id.clone() }
    } else {
        AuthFlow::Finished(Err(AuthError::AreaNotServed))
    }
}

fn read_header_number(field: &HeaderField) -> (n: Option<Option<usize>>)
    ensures
        match field@ {
            SpecHeaderField::Missing => n is None,
            SpecHeaderField::Unreadable => n == Some(None::<usize>),
            SpecHeaderField::Value(v) => n == Some(decimal_usize(v)),
        },
{
    match field {
        HeaderField::Missing => None,
        HeaderField::Unreadable => Some(None),
        HeaderField::Value(v) => Some(parse_usize(v.as_str())),
    }
}

/// Whether the first answer cannot be taken (see [`auth1_panics`]); the
/// caller tests this before [`AuthFlow::on_auth1`].
pub fn auth1_reply_panics(reply: &Auth1Reply) -> (panics: bool)
    ensures
        panics == auth1_panics(reply@),
{
    match reply {
        Auth1Reply::Accepted { auth_token, key_offset, key_length } => match auth_token {
            HeaderField::Missing => true,
            HeaderField::Unreadable => false,
            HeaderField::Value(_) => match read_header_number(key_offset) {
                None => true,
                Some(None) => false,
                Some(Some(offset)) => match read_header_number(key_length) {
                    None => true,
                    Some(None) => false,
                    Some(Some(length)) => length > 40 || offset > 40 - length,
                },
            },
        },
        _ => false,
    }
}

impl AuthFlow {
    /// The first request.
    pub fn auth1_request() -> (request: HttpRequest)
        ensures
            request@ == auth1_spec_request(),
    {
        let mut headers: Vec<(String, String)> = Vec::new();
        push_header(&mut headers, "X-Radiko-App", "aSmartPhone7o");
        push_header(&mut headers, "X-Radiko-App-Version", "0.0.1");
        push_header(&mut headers, "X-Radiko-Device", "Rust.radiko");
        push_header(&mut headers, "X-Radiko-User", "dummy_user");
        let request = HttpRequest { url: "https://radiko.jp/v2/api/auth1".to_owned(), headers };
        assert(request@.headers =~= auth1_spec_request().headers);
        request
    }

    /// The second request, for a handshake that is waiting to send it;
    /// `location` is the text of the area's coordinates.
    pub fn auth2_request(&self, location: &String) -> (request: HttpRequest)
        requires
            self is SendAuth2,
        ensures
            self@ matches SpecAuthFlow::SendAuth2 { auth_token, partial_key, .. }
                && request@ == auth2_spec_request(auth_token, partial_key, location@),
    {
        match self {
            AuthFlow::SendAuth2 { auth_token, partial_key, .. } => {
                let mut headers: Vec<(String, String)> = Vec::new();
                push_header(&mut headers, "X-Radiko-App", "aSmartPhone7o");
                push_header(&mut headers, "X-Radiko-App-Version", "0.0.1");
                push_header(&mut headers, "X-Radiko-AuthToken", auth_token.as_str());
                push_header(&mut headers, "X-Radiko-Connection", "wifi");
                push_header(&mut headers, "X-Radiko-Device", "Rust.radiko");
                push_header(&mut headers, "X-Radiko-Location", location.as_str());
                push_header(&mut headers, "X-Radiko-PartialKey", partial_key.as_str());
                push_header(&mut headers, "X-Radiko-User", "dummy_user");
                let request = HttpRequest { url: "https://radiko.jp/v2/api/auth2".to_owned(), headers };
                assert(request@.headers =~= auth2_spec_request(auth_token@, partial_key@, location@).headers);
                request
            },
            _ => {
                proof { assert(false); }
                AuthFlow::auth1_request()
            },
        }
    }

    /// Takes the answer to the first request. Answers that cannot be taken
    /// (see [`auth1_panics`]) are refused by `requires`.
    pub fn on_auth1(self, reply: Auth1Reply) -> (next: AuthFlow)
        requires
            self is SendAuth1,
            !auth1_panics(reply@),
        ensures
            self@ matches SpecAuthFlow::SendAuth1 { area_id } && next@ == auth1_outcome(area_id, reply@),
    {
        let area_id = match self {
            AuthFlow::SendAuth1 { area_id } => area_id,
            _ => {
                proof { assert(false); }
                return self;
            },
        };
        match reply {
            Auth1Reply::Failed => AuthFlow::Finished(Err(AuthError::Transport)),
            Auth1Reply::Rejected => AuthFlow::Finished(Err(AuthError::Rejected)),
            Auth1Reply::Accepted { auth_token, key_offset, key_length } => {
                let auth_token = match auth_token {
                    HeaderField::Value(t) => t,
                    _ => return AuthFlow::Finished(Err(AuthError::BadHeader)),
                };
                let key_offset = match read_header_number(&key_offset) {
                    Some(Some(n)) => n,
                    _ => return AuthFlow::Finished(Err(AuthError::BadHeader)),
                };
                let key_length = match read_header_number(&key_length) {
                    Some(Some(n)) => n,
                    _ => return AuthFlow::Finished(Err(AuthError::BadHeader)),
                };
                let partial_key = get_partialkey(key_offset, key_length);
                AuthFlow::SendAuth2 { area_id, auth_token, partial_key }
            },
        }
    }

    /// Takes the answer to the second request.
    pub fn on_auth2(self, reply: Auth2Reply) -> (next: AuthFlow)
        requires
            self is SendAuth2,
        ensures
            self@ matches SpecAuthFlow::SendAuth2 { auth_token, .. } && next@ == auth2_outcome(auth_token, reply),
    {
        match self {
            AuthFlow::SendAuth2 { auth_token, .. } => match reply {
                Auth2Reply::Failed => AuthFlow::Finished(Err(AuthError::Transport)),
                Auth2Reply::Rejected => AuthFlow::Finished(Err(AuthError::Rejected)),
                Auth2Reply::Accepted => AuthFlow::Finished(Ok(auth_token)),
            },
            _ => {
                proof { assert(false); }
                self
            },
        }
    }
}

} // verus!
