use vstd::prelude::*;
use crate::anti_detection::{base64_standard, header_value_ok, headers_view, valid_header_value, Header};
use crate::config::DiscordConfig;
use crate::event::GatewayEvent;
use crate::config::{join_path, join, AuthConfig};
use crate::json::{as_str, as_u64, at, jo, jv, member, text_of, u64_of, Json, JsonValue};
use crate::keyring::TokenStore;
use crate::text::{
    chars_of, concat_str, copy_str, str_eq, string_from_chars, trim, trim_chars,
};
use base64::Engine;
use rsa::pkcs8::EncodePublicKey;
use sha2::Digest;

verus! {

// ---------------------------------------------------------------------------
// Finding the token
// ---------------------------------------------------------------------------

/// What the token file yields: its text without surrounding white space, unless that is empty.
pub open spec fn file_token(contents: Seq<char>) -> Option<Seq<char>> {
    if trim(contents).len() > 0 {
        Some(trim(contents))
    } else {
        None
    }
}

/// The token found once neither the environment nor the keyring gave one: the token file's,
/// when one is configured and exists (`file`: its contents or the reading error).
pub open spec fn token_from_file(
    config: AuthConfig,
    file: Option<Result<String, String>>,
) -> Result<Option<Seq<char>>, Seq<char>> {
    if config.token_file is Some {
        match file {
            Some(Ok(contents)) => Ok(file_token(contents@)),
            Some(Err(e)) => Err("Failed to read token file: "@ + e@),
            None => Ok(None),
        }
    } else {
        Ok(None)
    }
}

/// The model of an optional text result.
pub open spec fn token_view(r: Result<Option<String>, String>) -> Result<Option<Seq<char>>, Seq<char>> {
    match r {
        Ok(Some(t)) => Ok(Some(t@)),
        Ok(None) => Ok(None),
        Err(e) => Err(e@),
    }
}

/// The token after the keyring answered `reply` (when asked): a non-empty keyring token wins,
/// a keyring failure is an error, otherwise the token file decides.
pub open spec fn token_after_keyring(
    config: AuthConfig,
    reply: Option<Result<Option<String>, String>>,
    file: Option<Result<String, String>>,
) -> Result<Option<Seq<char>>, Seq<char>> {
    match reply {
        Some(Err(e)) => Err(e@),
        Some(Ok(Some(t))) => if t@.len() > 0 {
            Ok(Some(t@))
        } else {
            token_from_file(config, file)
        },
        _ => token_from_file(config, file),
    }
}

/// Picks the token once the keyring has answered (`reply`, or `None` when it was not asked).
pub fn choose_token(
    config: &AuthConfig,
    reply: Option<Result<Option<String>, String>>,
    file: Option<Result<String, String>>,
) -> (r: Result<Option<String>, String>)
    ensures
        token_view(r) == token_after_keyring(*config, reply, file),
{
    match reply {
        Some(Err(e)) => {
            return Err(e);
        },
        Some(Ok(Some(t))) => {
            if t.as_str().is_empty() {
            } else {
                return Ok(Some(t));
            }
        },
        _ => {},
    }
    if config.token_file.is_some() {
        match file {
            Some(Ok(contents)) => {
                let c = chars_of(contents.as_str());
                let trimmed = trim_chars(c.as_slice());
                if trimmed.len() > 0 {
                    return Ok(Some(string_from_chars(trimmed.as_slice())));
                }
            },
            Some(Err(e)) => {
                return Err(concat_str("Failed to read token file: ", e.as_str()));
            },
            None => {},
        }
    }
    Ok(None)
}

/// Finds the user's token, by priority: the `DISCORD_TOKEN` environment variable (`env_token`)
/// when not empty, then the keyring when the configured source is "keyring", then the token
/// file (`file`: its contents, or the reading error, when a token file is configured and
/// exists). `None` when no source has one.
pub fn retrieve_token<K: TokenStore>(
    config: &AuthConfig,
    keyring: &K,
    env_token: Option<String>,
    file: Option<Result<String, String>>,
) -> (r: Result<Option<String>, String>)
    ensures
        (env_token matches Some(t) && t@.len() > 0) ==> (r matches Ok(Some(s)) && s@
            == env_token->0@),
        !(env_token matches Some(t) && t@.len() > 0) && config.token_source@ != "keyring"@
            ==> token_view(r) == token_from_file(*config, file),
        !(env_token matches Some(t) && t@.len() > 0) && config.token_source@ == "keyring"@
            ==> exists|g: Result<Option<String>, String>|
            keyring.read_post(g) && token_view(r) == token_after_keyring(*config, Some(g), file),
{
    if let Some(token) = env_token {
        if !token.as_str().is_empty() {
            return Ok(Some(token));
        }
    }
    if str_eq(config.token_source.as_str(), "keyring") {
        let g = keyring.get_token();
        let ghost gg = g;
        let r = choose_token(config, Some(g), file);
        assert(keyring.read_post(gg) && token_view(r) == token_after_keyring(*config, Some(gg), file));
        r
    } else {
        choose_token(config, None, file)
    }
}

/// Stores a token in the keyring for later sessions: a write of the store.
pub fn store_token<K: TokenStore>(keyring: &mut K, token: &str) -> (r: Result<(), String>)
    ensures
        K::write_post(*old(keyring), *final(keyring), token@, r),
{
    keyring.set_token(token)
}

/// Deletes the stored token from the keyring: a deletion in the store.
pub fn delete_token<K: TokenStore>(keyring: &mut K) -> (r: Result<(), String>)
    ensures
        K::delete_post(*old(keyring), *final(keyring), r),
{
    keyring.delete_token()
}

/// A path with a leading `~/` resolved against the home directory: what follows is joined onto
/// it (an absolute rest replaces it). Other paths, or no home directory, leave it as it is.
pub open spec fn expand_home(path: Seq<char>, home: Option<Seq<char>>) -> Seq<char> {
    if path.len() >= 2 && path[0] == '~' && path[1] == '/' && home is Some {
        let rest = path.subrange(2, path.len() as int);
        if rest.len() > 0 && rest[0] == '/' {
            rest
        } else {
            join_path(home->0, rest)
        }
    } else {
        path
    }
}

/// Resolves a leading `~/` in `path` against the home directory `home`.
pub fn expand_home_with(path: &str, home: Option<String>) -> (r: String)
    ensures
        r@ == expand_home(path@, match home {
            Some(h) => Some(h@),
            None => None,
        }),
{
    let p = chars_of(path);
    if p.len() >= 2 && p[0] == '~' && p[1] == '/' {
        if let Some(h) = home {
            let rest_chars = vstd::slice::slice_subrange(p.as_slice(), 2, p.len());
            let rest = string_from_chars(rest_chars);
            if rest_chars.len() > 0 && rest_chars[0] == '/' {
                return rest;
            }
            return join(h.as_str(), rest.as_str());
        }
    }
    copy_str(path)
}

/// The home directory, from the `dirs` crate. Trusted: it depends on the platform and the
/// environment, so nothing is claimed of it; a path that is not valid UTF-8 is
/// read lossily.
#[verifier::external_body]
fn home_dir() -> Option<String> {
    dirs::home_dir().map(|p| p.to_string_lossy().into_owned())
}

/// Resolves a leading `~/` in a token file path against the user's home directory; other paths
/// stay as they are.
pub fn shellexpand(path: &str) -> (r: String)
    ensures
        exists|home: Option<Seq<char>>| r@ == expand_home(path@, home),
        !(path@.len() >= 2 && path@[0] == '~' && path@[1] == '/') ==> r@ == path@,
{
    expand_home_with(path, home_dir())
}

// ---------------------------------------------------------------------------
// E-mail and password login
// ---------------------------------------------------------------------------

/// What a login answered.
#[derive(Debug, Clone, PartialEq)]
pub enum LoginResponse {
    /// The login succeeded, with this token.
    Token(String),
    /// A second factor is needed, with this ticket.
    MfaRequired { ticket: String },
}

fn text_value(s: &str) -> (r: JsonValue)
    ensures
        jv(r) == Json::Str(s@),
{
    JsonValue::String(copy_str(s))
}

fn field(key: &str, value: JsonValue) -> (r: (String, JsonValue))
    ensures
        r.0@ == key@,
        r.1 == value,
{
    (copy_str(key), value)
}

/// The body of a login request.
pub open spec fn login_body_json(email: Seq<char>, password: Seq<char>) -> Json {
    Json::Object(
        seq![
            ("login"@, Json::Str(email)),
            ("password"@, Json::Str(password)),
            ("undelete"@, Json::Bool(false)),
            ("login_source"@, Json::Null),
            ("gift_code_sku_id"@, Json::Null),
        ],
    )
}

/// Builds the body of a login request.
pub fn login_body(email: &str, password: &str) -> (r: JsonValue)
    ensures
        jv(r) == login_body_json(email@, password@),
{
    let mut v: Vec<(String, JsonValue)> = Vec::new();
    v.push(field("login", text_value(email)));
    v.push(field("password", text_value(password)));
    v.push(field("undelete", JsonValue::Bool(false)));
    v.push(field("login_source", JsonValue::Null));
    v.push(field("gift_code_sku_id", JsonValue::Null));
    proof {
        crate::json::lemma_jentries_index(v@);
        assert(crate::json::jentries(v@) =~= login_body_json(email@, password@)->Object_0);
    }
    JsonValue::Object(v)
}

/// What a login answer means: an error status gives the answer's message (or "Login failed");
/// a token that is neither empty nor "null" logs in; else a ticket asks for a second factor.
pub open spec fn login_outcome(success: bool, body: Json) -> Result<
    (bool, Seq<char>),
    Seq<char>,
> {
    if !success {
        Err(
            match as_str(member(body, "message"@)) {
                Some(m) => m,
                None => "Login failed"@,
            },
        )
    } else if (as_str(member(body, "token"@)) matches Some(t) && t.len() > 0 && t != "null"@) {
        Ok((true, as_str(member(body, "token"@))->0))
    } else if as_str(member(body, "ticket"@)) is Some {
        Ok((false, as_str(member(body, "ticket"@))->0))
    } else {
        Err("Unexpected login response"@)
    }
}

/// Reads the answer to a login request: `success` is whether its status was a success.
pub fn interpret_login_response(success: bool, body: &JsonValue) -> (r: Result<LoginResponse, String>)
    ensures
        match r {
            Ok(LoginResponse::Token(t)) => login_outcome(success, jv(*body)) == Ok::<(bool, Seq<char>), Seq<char>>((true, t@)),
            Ok(LoginResponse::MfaRequired { ticket }) => login_outcome(success, jv(*body)) == Ok::<(bool, Seq<char>), Seq<char>>((false, ticket@)),
            Err(m) => login_outcome(success, jv(*body)) == Err::<(bool, Seq<char>), Seq<char>>(m@),
        },
{
    let b = Some(body);
    if !success {
        return Err(
            match text_of(at(b, "message")) {
                Some(m) => copy_str(m),
                None => String::from_str("Login failed"),
            },
        );
    }
    if let Some(token) = text_of(at(b, "token")) {
        if !token.is_empty() && !str_eq(token, "null") {
            return Ok(LoginResponse::Token(copy_str(token)));
        }
    }
    if let Some(ticket) = text_of(at(b, "ticket")) {
        return Ok(LoginResponse::MfaRequired { ticket: copy_str(ticket) });
    }
    Err(String::from_str("Unexpected login response"))
}

/// The body of a second-factor request.
pub open spec fn mfa_body_json(ticket: Seq<char>, code: Seq<char>) -> Json {
    Json::Object(
        seq![
            ("code"@, Json::Str(code)),
            ("ticket"@, Json::Str(ticket)),
            ("login_source"@, Json::Null),
            ("gift_code_sku_id"@, Json::Null),
        ],
    )
}

/// Builds the body of a second-factor (TOTP) request.
pub fn mfa_body(ticket: &str, code: &str) -> (r: JsonValue)
    ensures
        jv(r) == mfa_body_json(ticket@, code@),
{
    let mut v: Vec<(String, JsonValue)> = Vec::new();
    v.push(field("code", text_value(code)));
    v.push(field("ticket", text_value(ticket)));
    v.push(field("login_source", JsonValue::Null));
    v.push(field("gift_code_sku_id", JsonValue::Null));
    proof {
        crate::json::lemma_jentries_index(v@);
        assert(crate::json::jentries(v@) =~= mfa_body_json(ticket@, code@)->Object_0);
    }
    JsonValue::Object(v)
}

/// What a second-factor answer means: an error status gives its message (or "MFA verification
/// failed"); otherwise the token, which must be there.
pub open spec fn mfa_outcome(success: bool, body: Json) -> Result<Seq<char>, Seq<char>> {
    if !success {
        Err(
            match as_str(member(body, "message"@)) {
                Some(m) => m,
                None => "MFA verification failed"@,
            },
        )
    } else {
        match as_str(member(body, "token"@)) {
            Some(t) => Ok(t),
            None => Err("No token in MFA response"@),
        }
    }
}

/// Reads the answer to a second-factor request.
pub fn interpret_mfa_response(success: bool, body: &JsonValue) -> (r: Result<String, String>)
    ensures
        match r {
            Ok(t) => mfa_outcome(success, jv(*body)) == Ok::<Seq<char>, Seq<char>>(t@),
            Err(m) => mfa_outcome(success, jv(*body)) == Err::<Seq<char>, Seq<char>>(m@),
        },
{
    let b = Some(body);
    if !success {
        return Err(
            match text_of(at(b, "message")) {
                Some(m) => copy_str(m),
                None => String::from_str("MFA verification failed"),
            },
        );
    }
    match text_of(at(b, "token")) {
        Some(t) => Ok(copy_str(t)),
        None => Err(String::from_str("No token in MFA response")),
    }
}

// ---------------------------------------------------------------------------
// QR code login
// ---------------------------------------------------------------------------

#[verifier::external_type_specification]
#[verifier::external_body]
pub struct ExRsaPrivateKey(rsa::RsaPrivateKey);

/// Calls `rsa::RsaPrivateKey::new` with a 2048-bit size and the thread's random generator.
/// Trusted: the key is random, so nothing is claimed of it.
#[verifier::external_body]
fn generate_key() -> Option<rsa::RsaPrivateKey> {
    rsa::RsaPrivateKey::new(&mut rand::thread_rng(), 2048).ok()
}

/// The DER encoding of a key's public half, from `rsa`'s `to_public_key_der`. Trusted:
/// nothing is claimed of the bytes.
#[verifier::external_body]
fn public_key_der(key: &rsa::RsaPrivateKey) -> Option<Vec<u8>> {
    key.to_public_key().to_public_key_der().ok().map(|d| d.to_vec())
}

/// The SHA-256 digest of some bytes, as the `sha2` crate computes it.
pub uninterp spec fn sha256_digest(bytes: Seq<u8>) -> Seq<u8>;

/// Calls `sha2::Sha256::digest`. Trusted: the digest is the named function of the bytes and is
/// 32 bytes long.
#[verifier::external_body]
fn sha256(bytes: &[u8]) -> (r: Vec<u8>)
    ensures
        r@ == sha256_digest(bytes@),
        r@.len() == 32,
{
    sha2::Sha256::digest(bytes).to_vec()
}

/// What decoding standard base64 gives: the bytes whose standard, padded encoding is the
/// text (the encoding is one to one), or `None` when no bytes encode to it.
pub open spec fn base64_decoded(text: Seq<char>) -> Option<Seq<u8>> {
    if exists|b: Seq<u8>| base64_standard(b) == text {
        Some(choose|b: Seq<u8>| base64_standard(b) == text)
    } else {
        None
    }
}

/// Calls `base64::engine::general_purpose::STANDARD.decode`. Trusted: that engine requires
/// canonical padding and no stray trailing bits, so it accepts exactly the standard encodings
/// of byte strings and gives back the encoded bytes; `None` for any other text.
#[verifier::external_body]
fn base64_decode(text: &str) -> (r: Option<Vec<u8>>)
    ensures
        match r {
            Some(v) => base64_standard(v@) == text@ && base64_decoded(text@) == Some(v@),
            None => base64_decoded(text@) is None,
        },
{
    base64::engine::general_purpose::STANDARD.decode(text).ok()
}

/// The lines of a QR code for a text, as the `qrcode` crate renders it (two characters per
/// module, with a quiet zone).
pub uninterp spec fn qr_render(text: Seq<char>) -> Option<Seq<Seq<char>>>;

/// Renders a QR code with `qrcode::QrCode::new` and its character renderer. Trusted: the lines
/// are the named function of the text; `None` when the text does not fit in a code.
#[verifier::external_body]
fn qr_lines(text: &str) -> (r: Option<Vec<String>>)
    ensures
        match r {
            Some(lines) => qr_render(text@) == Some(lines@.map_values(|l: String| l@)),
            None => qr_render(text@) is None,
        },
{
    match qrcode::QrCode::new(text.as_bytes()) {
        Ok(code) => Some(
            code.render::<char>().quiet_zone(true).module_dimensions(2, 1).build().lines().map(
                |l| l.to_string(),
            ).collect(),
        ),
        Err(_) => None,
    }
}

/// Why a step of the QR code login failed.
#[derive(Debug, Clone, Copy, PartialEq, Eq, Structural)]
pub enum QrAuthError {
    KeyGeneration,
    KeyEncoding,
    Base64,
    Decryption,
    NotUtf8,
    QrCode,
}

/// The message of each QR login error.
pub open spec fn qr_error_text(e: QrAuthError) -> Seq<char> {
    match e {
        QrAuthError::KeyGeneration => "RSA key generation failed"@,
        QrAuthError::KeyEncoding => "Public key DER encoding failed"@,
        QrAuthError::Base64 => "Base64 decode failed"@,
        QrAuthError::Decryption => "RSA decryption failed"@,
        QrAuthError::NotUtf8 => "Decrypted payload is not UTF-8"@,
        QrAuthError::QrCode => "QR code generation failed"@,
    }
}

impl QrAuthError {
    /// The error's message.
    pub fn message(&self) -> (r: &'static str)
        ensures
            r@ == qr_error_text(*self),
    {
        proof {
            reveal_strlit("RSA key generation failed");
            reveal_strlit("Public key DER encoding failed");
            reveal_strlit("Base64 decode failed");
            reveal_strlit("RSA decryption failed");
            reveal_strlit("Decrypted payload is not UTF-8");
            reveal_strlit("QR code generation failed");
        }
        match self {
            QrAuthError::KeyGeneration => "RSA key generation failed",
            QrAuthError::KeyEncoding => "Public key DER encoding failed",
            QrAuthError::Base64 => "Base64 decode failed",
            QrAuthError::Decryption => "RSA decryption failed",
            QrAuthError::NotUtf8 => "Decrypted payload is not UTF-8",
            QrAuthError::QrCode => "QR code generation failed",
        }
    }
}

/// The proof of a decrypted nonce: the base64 of its SHA-256.
pub fn nonce_proof_of(nonce: &[u8]) -> (r: String)
    ensures
        r@ == base64_standard(sha256_digest(nonce@)),
{
    let hash = sha256(nonce);
    crate::anti_detection::base64_encode_bytes(hash.as_slice())
}

/// A decrypted payload read as UTF-8 text; `NotUtf8` when it is not.
pub fn payload_text(plain: Vec<u8>) -> (r: Result<String, QrAuthError>)
    ensures
        match r {
            Ok(t) => crate::gateway::utf8_decode(plain@) == Some(t@),
            Err(e) => e == QrAuthError::NotUtf8 && crate::gateway::utf8_decode(plain@) is None,
        },
{
    match crate::gateway::utf8_text(plain) {
        Some(t) => Ok(t),
        None => Err(QrAuthError::NotUtf8),
    }
}

/// What RSA-OAEP (over SHA-256, no label) decryption gives for a ciphertext under the key
/// pair whose public half has the DER encoding `public_der`, as the `rsa` crate computes it;
/// `None` when the ciphertext does not decrypt. RSA decryption inverts the public key's
/// permutation, so the plain text depends on the public key and the ciphertext alone.
pub uninterp spec fn oaep_plain(public_der: Seq<u8>, ciphertext: Seq<u8>) -> Option<Seq<u8>>;

/// Calls `rsa::RsaPrivateKey::decrypt` with OAEP padding over SHA-256 on the session's key
/// (no random source is involved). Trusted: the result is the named function of the
/// session's public DER and the ciphertext. The session's DER is its own key's public half:
/// the fields are private and `QrAuthSession::new`, the only constructor, takes the DER
/// from the key.
#[verifier::external_body]
fn oaep_decrypt(session: &QrAuthSession, data: &[u8]) -> (r: Option<Vec<u8>>)
    ensures
        match r {
            Some(v) => oaep_plain(session.der(), data@) == Some(v@),
            None => oaep_plain(session.der(), data@) is None,
        },
{
    session.private_key.decrypt(rsa::Oaep::new::<sha2::Sha256>(), data).ok()
}

/// What a base64 ciphertext decrypts to under the key pair with public DER `der`: `None`
/// when the text is not base64, `Some(None)` when it does not decrypt.
pub open spec fn qr_decrypted(der: Seq<u8>, text: Seq<char>) -> Option<Option<Seq<u8>>> {
    match base64_decoded(text) {
        Some(ct) => Some(oaep_plain(der, ct)),
        None => None,
    }
}

/// A QR code login in progress: a fresh RSA key pair and its fingerprint.
pub struct QrAuthSession {
    private_key: rsa::RsaPrivateKey,
    public_key_der: Vec<u8>,
    /// The base64 of the SHA-256 of the public key's DER encoding.
    pub fingerprint: String,
}

/// The address that the phone opens for a fingerprint.
pub open spec fn qr_url_of(fingerprint: Seq<char>) -> Seq<char> {
    "https://discord.com/ra/"@ + fingerprint
}

impl QrAuthSession {
    /// The DER encoding of the session's public key.
    pub closed spec fn der(&self) -> Seq<u8> {
        self.public_key_der@
    }

    /// The session's fingerprint.
    pub closed spec fn fp(&self) -> Seq<char> {
        self.fingerprint@
    }

    /// A session with a fresh 2048-bit RSA key pair; the fingerprint is the base64 of the
    /// SHA-256 of the public key's DER encoding. It fails only when the key cannot be made or
    /// its public half cannot be encoded.
    pub fn new() -> (r: Result<QrAuthSession, QrAuthError>)
        ensures
            r matches Ok(s) ==> s.fp() == base64_standard(sha256_digest(s.der())),
            r matches Err(e) ==> e == QrAuthError::KeyGeneration || e == QrAuthError::KeyEncoding,
    {
        let private_key = match generate_key() {
            Some(k) => k,
            None => {
                return Err(QrAuthError::KeyGeneration);
            },
        };
        let der = match public_key_der(&private_key) {
            Some(d) => d,
            None => {
                return Err(QrAuthError::KeyEncoding);
            },
        };
        let hash = sha256(der.as_slice());
        let fingerprint = crate::anti_detection::base64_encode_bytes(hash.as_slice());
        Ok(QrAuthSession { private_key, public_key_der: der, fingerprint })
    }

    /// The DER encoding of the public key.
    pub fn public_key_der(&self) -> (r: &Vec<u8>)
        ensures
            r@ == self.der(),
    {
        &self.public_key_der
    }

    /// The base64 public key for the "init" message.
    pub fn encoded_public_key(&self) -> (r: String)
        ensures
            r@ == base64_standard(self.der()),
    {
        crate::anti_detection::base64_encode_bytes(self.public_key_der.as_slice())
    }

    /// The address that the phone scans.
    pub fn qr_url(&self) -> (r: String)
        ensures
            r@ == qr_url_of(self.fp()),
    {
        concat_str("https://discord.com/ra/", self.fingerprint.as_str())
    }

    /// Decrypts a base64, RSA-OAEP encrypted payload into text: `Base64` exactly when the text
    /// is not base64, `Decryption` when the key does not decrypt it, and otherwise the
    /// decrypted bytes read as UTF-8 (`NotUtf8` when they are not).
    pub fn decrypt_payload(&self, encrypted_b64: &str) -> (r: Result<String, QrAuthError>)
        ensures
            match qr_decrypted(self.der(), encrypted_b64@) {
                None => r == Err::<String, QrAuthError>(QrAuthError::Base64),
                Some(None) => r == Err::<String, QrAuthError>(QrAuthError::Decryption),
                Some(Some(plain)) => match crate::gateway::utf8_decode(plain) {
                    Some(t) => r matches Ok(x) && x@ == t,
                    None => r == Err::<String, QrAuthError>(QrAuthError::NotUtf8),
                },
            },
    {
        let encrypted = match base64_decode(encrypted_b64) {
            Some(e) => e,
            None => {
                return Err(QrAuthError::Base64);
            },
        };
        let decrypted = match oaep_decrypt(self, encrypted.as_slice()) {
            Some(d) => d,
            None => {
                return Err(QrAuthError::Decryption);
            },
        };
        payload_text(decrypted)
    }

    /// The proof of the nonce: decrypt it, then the base64 of its SHA-256 (`nonce_proof_of`
    /// of the decrypted bytes). `Base64` exactly when the text is not base64, `Decryption`
    /// when the key does not decrypt it.
    pub fn compute_nonce_proof(&self, encrypted_nonce_b64: &str) -> (r: Result<String, QrAuthError>)
        ensures
            match qr_decrypted(self.der(), encrypted_nonce_b64@) {
                None => r == Err::<String, QrAuthError>(QrAuthError::Base64),
                Some(None) => r == Err::<String, QrAuthError>(QrAuthError::Decryption),
                Some(Some(nonce)) => r matches Ok(p) && p@ == base64_standard(sha256_digest(nonce)),
            },
    {
        let encrypted = match base64_decode(encrypted_nonce_b64) {
            Some(e) => e,
            None => {
                return Err(QrAuthError::Base64);
            },
        };
        let decrypted = match oaep_decrypt(self, encrypted.as_slice()) {
            Some(d) => d,
            None => {
                return Err(QrAuthError::Decryption);
            },
        };
        Ok(nonce_proof_of(decrypted.as_slice()))
    }

    /// The lines of the QR code of the session's address, for the terminal.
    pub fn generate_qr_lines(&self) -> (r: Result<Vec<String>, QrAuthError>)
        ensures
            match r {
                Ok(lines) => qr_render(qr_url_of(self.fp())) == Some(
                    lines@.map_values(|l: String| l@),
                ),
                Err(_) => qr_render(qr_url_of(self.fp())) is None,
            },
    {
        let url = self.qr_url();
        match qr_lines(url.as_str()) {
            Some(lines) => Ok(lines),
            None => Err(QrAuthError::QrCode),
        }
    }
}

/// A QR login message with an `op` and one text field.
pub open spec fn op_message(op: Seq<char>, key: Seq<char>, value: Seq<char>) -> Json {
    Json::Object(seq![("op"@, Json::Str(op)), (key, Json::Str(value))])
}

/// Builds the "init" message of the QR login.
pub fn build_qr_auth_init(encoded_public_key: &str) -> (r: JsonValue)
    ensures
        jv(r) == op_message("init"@, "encoded_public_key"@, encoded_public_key@),
{
    let mut v: Vec<(String, JsonValue)> = Vec::new();
    v.push(field("op", text_value("init")));
    v.push(field("encoded_public_key", text_value(encoded_public_key)));
    proof {
        crate::json::lemma_jentries_index(v@);
        assert(crate::json::jentries(v@) =~= op_message("init"@, "encoded_public_key"@, encoded_public_key@)->Object_0);
    }
    JsonValue::Object(v)
}

/// Builds the "nonce_proof" message of the QR login.
pub fn build_qr_auth_nonce_proof(proof: &str) -> (r: JsonValue)
    ensures
        jv(r) == op_message("nonce_proof"@, "proof"@, proof@),
{
    let mut v: Vec<(String, JsonValue)> = Vec::new();
    v.push(field("op", text_value("nonce_proof")));
    v.push(field("proof", text_value(proof)));
    proof {
        crate::json::lemma_jentries_index(v@);
        assert(crate::json::jentries(v@) =~= op_message("nonce_proof"@, "proof"@, proof@)->Object_0);
    }
    JsonValue::Object(v)
}

/// Builds the heartbeat message of the QR login.
pub fn build_qr_auth_heartbeat() -> (r: JsonValue)
    ensures
        jv(r) == Json::Object(seq![("op"@, Json::Str("heartbeat"@))]),
{
    let mut v: Vec<(String, JsonValue)> = Vec::new();
    v.push(field("op", text_value("heartbeat")));
    proof {
        crate::json::lemma_jentries_index(v@);
        assert(crate::json::jentries(v@) =~= seq![("op"@, Json::Str("heartbeat"@))]);
    }
    JsonValue::Object(v)
}

/// A message of the QR login server.
#[derive(Debug, Clone, PartialEq)]
pub enum QrAuthMessage {
    Hello { heartbeat_interval: u64, timeout_ms: u64 },
    NonceProof { encrypted_nonce: String },
    PendingRemoteInit { fingerprint: String },
    PendingTicket { encrypted_user_payload: String },
    PendingLogin { ticket: String },
    Cancel,
    Unknown { op: String },
}

/// A text member, or the empty text.
pub open spec fn text_member(j: Json, key: Seq<char>) -> Seq<char> {
    match as_str(member(j, key)) {
        Some(s) => s,
        None => Seq::empty(),
    }
}

/// Whether `m` is what a message of the QR login server says: by its `op` (empty when missing).
pub open spec fn qr_message_fits(m: QrAuthMessage, p: Json) -> bool {
    let op = text_member(p, "op"@);
    if op == "hello"@ {
        m == QrAuthMessage::Hello {
            heartbeat_interval: crate::event::or_u64(as_u64(member(p, "heartbeat_interval"@)), 0),
            timeout_ms: crate::event::or_u64(as_u64(member(p, "timeout_ms"@)), 0),
        }
    } else if op == "nonce_proof"@ {
        m matches QrAuthMessage::NonceProof { encrypted_nonce } && encrypted_nonce@ == text_member(
            p,
            "encrypted_nonce"@,
        )
    } else if op == "pending_remote_init"@ {
        m matches QrAuthMessage::PendingRemoteInit { fingerprint } && fingerprint@ == text_member(
            p,
            "fingerprint"@,
        )
    } else if op == "pending_ticket"@ {
        m matches QrAuthMessage::PendingTicket { encrypted_user_payload } && encrypted_user_payload@
            == text_member(p, "encrypted_user_payload"@)
    } else if op == "pending_login"@ {
        m matches QrAuthMessage::PendingLogin { ticket } && ticket@ == text_member(p, "ticket"@)
    } else if op == "cancel"@ {
        m is Cancel
    } else {
        m matches QrAuthMessage::Unknown { op: o } && o@ == op
    }
}

fn text_or_empty_of(v: Option<&JsonValue>) -> (r: String)
    ensures
        r@ == match as_str(jo(v)) {
            Some(s) => s,
            None => Seq::<char>::empty(),
        },
{
    match text_of(v) {
        Some(s) => copy_str(s),
        None => String::new(),
    }
}

/// Reads a message of the QR login server.
pub fn parse_qr_auth_message(payload: &JsonValue) -> (r: QrAuthMessage)
    ensures
        qr_message_fits(r, jv(*payload)),
{
    let p = Some(payload);
    let op = match text_of(at(p, "op")) {
        Some(s) => s,
        None => "",
    };
    proof {
        reveal_strlit("");
        assert(""@ =~= Seq::<char>::empty());
    }
    assert(op@ == text_member(jv(*payload), "op"@));
    if str_eq(op, "hello") {
        QrAuthMessage::Hello {
            heartbeat_interval: match u64_of(at(p, "heartbeat_interval")) {
                Some(v) => v,
                None => 0,
            },
            timeout_ms: match u64_of(at(p, "timeout_ms")) {
                Some(v) => v,
                None => 0,
            },
        }
    } else if str_eq(op, "nonce_proof") {
        QrAuthMessage::NonceProof { encrypted_nonce: text_or_empty_of(at(p, "encrypted_nonce")) }
    } else if str_eq(op, "pending_remote_init") {
        QrAuthMessage::PendingRemoteInit { fingerprint: text_or_empty_of(at(p, "fingerprint")) }
    } else if str_eq(op, "pending_ticket") {
        QrAuthMessage::PendingTicket {
            encrypted_user_payload: text_or_empty_of(at(p, "encrypted_user_payload")),
        }
    } else if str_eq(op, "pending_login") {
        QrAuthMessage::PendingLogin { ticket: text_or_empty_of(at(p, "ticket")) }
    } else if str_eq(op, "cancel") {
        QrAuthMessage::Cancel
    } else {
        QrAuthMessage::Unknown { op: copy_str(op) }
    }
}


// ---------------------------------------------------------------------------
// The QR login, step by step
// ---------------------------------------------------------------------------

/// How often the QR login sends a heartbeat when the hello gave no interval, in milliseconds.
pub const QR_DEFAULT_HEARTBEAT_MS: u64 = 41000;

/// The heartbeat interval of the QR login: the one the hello gives, else the default.
pub fn qr_heartbeat_interval_ms(hello: &QrAuthMessage) -> (r: u64)
    ensures
        r == match *hello {
            QrAuthMessage::Hello { heartbeat_interval, .. } => heartbeat_interval,
            _ => QR_DEFAULT_HEARTBEAT_MS,
        },
{
    match hello {
        QrAuthMessage::Hello { heartbeat_interval, .. } => *heartbeat_interval,
        _ => QR_DEFAULT_HEARTBEAT_MS,
    }
}

/// What the QR login does after a message of the remote-auth gateway.
#[derive(Debug)]
pub enum QrFlowStep {
    /// Send this message back.
    Send(JsonValue),
    /// Nothing to do yet.
    Wait,
    /// The user confirmed on the phone: exchange this ticket for the encrypted token.
    ExchangeTicket(String),
    /// The user cancelled on the phone.
    Cancelled,
}

/// The next step of the QR login after a message: a nonce challenge is answered with its
/// proof; a confirmed ticket is exchanged; a cancel ends the login; the user payload is
/// decrypted, and a failure to decrypt it ends the login; anything else waits.
pub fn qr_auth_step(session: &QrAuthSession, msg: &QrAuthMessage) -> (r: Result<QrFlowStep, QrAuthError>)
    ensures
        match *msg {
            QrAuthMessage::NonceProof { encrypted_nonce } => match qr_decrypted(
                session.der(),
                encrypted_nonce@,
            ) {
                None => r == Err::<QrFlowStep, QrAuthError>(QrAuthError::Base64),
                Some(None) => r == Err::<QrFlowStep, QrAuthError>(QrAuthError::Decryption),
                Some(Some(nonce)) => r matches Ok(QrFlowStep::Send(m)) && jv(m) == op_message(
                    "nonce_proof"@,
                    "proof"@,
                    base64_standard(sha256_digest(nonce)),
                ),
            },
            QrAuthMessage::PendingTicket { encrypted_user_payload } => match qr_decrypted(
                session.der(),
                encrypted_user_payload@,
            ) {
                None => r == Err::<QrFlowStep, QrAuthError>(QrAuthError::Base64),
                Some(None) => r == Err::<QrFlowStep, QrAuthError>(QrAuthError::Decryption),
                Some(Some(plain)) => if crate::gateway::utf8_decode(plain) is Some {
                    r matches Ok(QrFlowStep::Wait)
                } else {
                    r == Err::<QrFlowStep, QrAuthError>(QrAuthError::NotUtf8)
                },
            },
            QrAuthMessage::PendingLogin { ticket } => r matches Ok(QrFlowStep::ExchangeTicket(t))
                && t@ == ticket@,
            QrAuthMessage::Cancel => r matches Ok(QrFlowStep::Cancelled),
            _ => r matches Ok(QrFlowStep::Wait),
        },
{
    match msg {
        QrAuthMessage::NonceProof { encrypted_nonce } => {
            let proof = session.compute_nonce_proof(encrypted_nonce.as_str())?;
            Ok(QrFlowStep::Send(build_qr_auth_nonce_proof(proof.as_str())))
        },
        QrAuthMessage::PendingTicket { encrypted_user_payload } => {
            let _payload = session.decrypt_payload(encrypted_user_payload.as_str())?;
            Ok(QrFlowStep::Wait)
        },
        QrAuthMessage::PendingLogin { ticket } => Ok(QrFlowStep::ExchangeTicket(copy_str(ticket.as_str()))),
        QrAuthMessage::Cancel => Ok(QrFlowStep::Cancelled),
        _ => Ok(QrFlowStep::Wait),
    }
}

/// The path, under the API base, that exchanges a QR login ticket for the encrypted token.
pub const REMOTE_AUTH_LOGIN_PATH: &'static str = "/users/@me/remote-auth/login";

/// The body that exchanges a QR login ticket.
pub fn remote_auth_login_body(ticket: &str) -> (r: JsonValue)
    ensures
        jv(r) == Json::Object(seq![("ticket"@, Json::Str(ticket@))]),
{
    let mut v: Vec<(String, JsonValue)> = Vec::new();
    v.push(field("ticket", text_value(ticket)));
    proof {
        crate::json::lemma_jentries_index(v@);
        assert(crate::json::jentries(v@) =~= seq![("ticket"@, Json::Str(ticket@))]);
    }
    JsonValue::Object(v)
}

/// The encrypted token in the answer to a ticket exchange, if it has one.
pub fn encrypted_token_of(body: &JsonValue) -> (r: Option<String>)
    ensures
        match r {
            Some(t) => as_str(member(jv(*body), "encrypted_token"@)) == Some(t@),
            None => as_str(member(jv(*body), "encrypted_token"@)) is None,
        },
{
    match text_of(at(Some(body), "encrypted_token")) {
        Some(t) => Some(copy_str(t)),
        None => None,
    }
}

// ---------------------------------------------------------------------------
// Checking a token against the gateway
// ---------------------------------------------------------------------------

/// What a token check concludes from the gateway's first event and its answer to IDENTIFY:
/// nothing when the first event is not HELLO (the check failed); otherwise whether the
/// answer is READY (the token is valid).
pub fn token_validation_verdict(hello: &GatewayEvent, response: &GatewayEvent) -> (r: Option<bool>)
    ensures
        r == (if hello is Hello {
            Some(response is Ready)
        } else {
            None
        }),
{
    match hello {
        GatewayEvent::Hello { .. } => Some(
            match response {
                GatewayEvent::Ready(_) => true,
                _ => false,
            },
        ),
        _ => None,
    }
}

// ---------------------------------------------------------------------------
// Headers of the login requests
// ---------------------------------------------------------------------------

/// A header of the login requests could not be built.
#[derive(Debug, Clone, Copy, PartialEq, Eq, Structural)]
pub enum AuthHeaderError {
    /// The configured user agent cannot be a header value.
    InvalidUserAgent,
    /// The super properties cannot be a header value.
    InvalidSuperProperties,
}

/// The headers of unauthenticated requests (login, second factor, ticket exchange): the user
/// agent, the encoded super properties and the locale. Fails on the first value that cannot be
/// a header value.
pub fn auth_client_headers(config: &DiscordConfig, super_props: &str) -> (r: Result<
    Vec<Header>,
    AuthHeaderError,
>)
    ensures
        match r {
            Ok(h) => {
                &&& header_value_ok(config.browser_user_agent@)
                &&& header_value_ok(super_props@)
                &&& headers_view(h@) == seq![
                    ("User-Agent"@, config.browser_user_agent@),
                    ("X-Super-Properties"@, super_props@),
                    ("X-Discord-Locale"@, "en-US"@),
                ]
            },
            Err(e) => if !header_value_ok(config.browser_user_agent@) {
                e == AuthHeaderError::InvalidUserAgent
            } else {
                e == AuthHeaderError::InvalidSuperProperties && !header_value_ok(super_props@)
            },
        },
{
    if !valid_header_value(config.browser_user_agent.as_str()) {
        return Err(AuthHeaderError::InvalidUserAgent);
    }
    if !valid_header_value(super_props) {
        return Err(AuthHeaderError::InvalidSuperProperties);
    }
    let mut h: Vec<Header> = Vec::new();
    h.push(Header { name: copy_str("User-Agent"), value: copy_str(config.browser_user_agent.as_str()) });
    h.push(Header { name: copy_str("X-Super-Properties"), value: copy_str(super_props) });
    h.push(Header { name: copy_str("X-Discord-Locale"), value: copy_str("en-US") });
    assert(headers_view(h@) =~= seq![
        ("User-Agent"@, config.browser_user_agent@),
        ("X-Super-Properties"@, super_props@),
        ("X-Discord-Locale"@, "en-US"@),
    ]);
    Ok(h)
}

} // verus!
