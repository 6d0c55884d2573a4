//! Cookies of Chrome and its derivatives: the decryption state machine that
//! turns a stored value into text, caching the key it needed, and the
//! assembly of a cookie record from a row of the `cookies` table.
use crate::cookie::{same_site_from_code, same_site_of_code, Cookie};
use crate::crypto::{
    cbc_value_spec, decrypt_value, decrypt_value_gcm, derive_key_from_password, gcm_value_spec,
    is_tag_tampered, opt_bytes_view, pbkdf2_sha1_of, string_from_utf8, symmetric_salt, DecryptError,
    AEAD_NONCE_SIZE, AES256_KEY_LEN, DERIVED_KEY_LEN,
};
use crate::timestamp::{chrome_to_unix_nanos_spec, chrome_to_unix_timestamp_nanos};
use vstd::prelude::*;
use vstd::utf8::*;

verus! {

/// The Chromium-based browsers supported.
#[derive(Debug, Clone, Copy, PartialEq, Eq, Hash, Structural)]
pub enum ChromeVariant {
    Chromium,
    Chrome,
    Edge,
}

/// The platform whose key scheme applies.
#[derive(Debug, Clone, Copy, PartialEq, Eq, Hash, Structural)]
pub enum Platform {
    /// `v10` values use the key derived from the default password, `v11`
    /// values a key derived from the password in the secret service.
    Linux,
    /// Unix-like systems other than Linux and macOS: only `v10` values, with
    /// the key derived from the default password.
    OtherUnix,
    /// `v10` values use a key derived from the password in the keychain.
    MacOs,
    /// `v10` values use the AES-256-GCM key of the `Local State` file; other
    /// values are wrapped by DPAPI alone.
    Windows,
}

/// The version tag that precedes an encrypted value.
#[derive(Debug, Clone, Copy, PartialEq, Eq, Hash, Structural)]
pub enum KeyVariant {
    V10,
    V11,
}

/// Error returned when a cookie value cannot be turned into text.
#[derive(Debug, Clone, Copy, PartialEq, Eq, Structural)]
pub enum DecryptChromeCookieError {
    /// The cipher refused the value.
    CookieValueDecrypt { source: DecryptError },
    /// A value stored without encryption is not valid UTF-8.
    CookieValueUtf8Decode,
    /// The value is too short.
    InvalidInputLength,
    /// The `Local State` file holds no key.
    KeyNotFound,
    /// The key for the given tag could not be obtained.
    GetKey { key_variant: KeyVariant },
    /// The `Local State` file could not be read.
    LocalState,
}

/// How a stored value is to be turned into text.
#[derive(Debug, Clone, Copy, PartialEq, Eq, Structural)]
pub enum Scheme {
    /// Not encrypted: the bytes are the text.
    Plain,
    /// Wrapped by DPAPI as a whole.
    Dpapi,
    /// AES-128-CBC under the key derived from the default password.
    FixedCbc,
    /// AES-128-CBC under a key that must first be obtained.
    AcquiredCbc,
    /// AES-256-GCM under a key that must first be obtained.
    AcquiredGcm,
    /// A tag this platform has no key for.
    Unsupported { key_variant: KeyVariant },
}

/// Length of the version tag.
pub const HEADER_LEN: usize = 3;

/// The tag at the start of a stored value, if any.
pub open spec fn tag_of(v: Seq<u8>) -> Option<KeyVariant> {
    if v.len() >= 3 && v[0] == 118u8 && v[1] == 49u8 && v[2] == 48u8 {
        Some(KeyVariant::V10)
    } else if v.len() >= 3 && v[0] == 118u8 && v[1] == 49u8 && v[2] == 49u8 {
        Some(KeyVariant::V11)
    } else {
        None
    }
}

/// The scheme of a value with tag `tag` on `platform`.
pub open spec fn scheme_of(platform: Platform, tag: Option<KeyVariant>) -> Scheme {
    match (platform, tag) {
        (Platform::Linux, Some(KeyVariant::V11)) => Scheme::AcquiredCbc,
        (Platform::OtherUnix, Some(KeyVariant::V11)) => Scheme::Unsupported {
            key_variant: KeyVariant::V11,
        },
        (Platform::Linux, Some(KeyVariant::V10)) => Scheme::FixedCbc,
        (Platform::OtherUnix, Some(KeyVariant::V10)) => Scheme::FixedCbc,
        (Platform::MacOs, Some(KeyVariant::V10)) => Scheme::AcquiredCbc,
        (Platform::Windows, Some(KeyVariant::V10)) => Scheme::AcquiredGcm,
        (Platform::Windows, _) => Scheme::Dpapi,
        _ => Scheme::Plain,
    }
}

/// The key Chrome derives from its default password `peanuts`.
pub open spec fn chrome_v10_key() -> Seq<u8> {
    seq![253u8, 98, 31, 229, 162, 180, 2, 83, 157, 250, 20, 124, 169, 39, 39, 120]
}

/// The number of PBKDF2 rounds with which a platform derives its key from a
/// password.
pub open spec fn hash_rounds(platform: Platform) -> u32 {
    match platform {
        Platform::MacOs => 1003,
        _ => 1,
    }
}

/// What one decryption step yields.
pub enum StepView {
    Decrypted(Seq<char>),
    Failed(DecryptChromeCookieError),
    KeyNeeded,
    UnwrapWithDpapi,
}

/// The outcome of one attempt to turn a stored value into text.
#[derive(Debug)]
pub enum DecryptStep {
    /// The text of the value.
    Decrypted(String),
    /// The value cannot be turned into text.
    Failed(DecryptChromeCookieError),
    /// The platform's key must be obtained first (from the secret service,
    /// the keychain, or the `Local State` file and DPAPI) and handed to
    /// `provide_password` or `provide_key`; then the value can be tried again.
    KeyNeeded,
    /// The value is wrapped by DPAPI: unwrap it and hand the bytes to
    /// `decode_unwrapped`.
    UnwrapWithDpapi,
}

impl View for DecryptStep {
    type V = StepView;

    open spec fn view(&self) -> StepView {
        match self {
            DecryptStep::Decrypted(s) => StepView::Decrypted(s@),
            DecryptStep::Failed(e) => StepView::Failed(*e),
            DecryptStep::KeyNeeded => StepView::KeyNeeded,
            DecryptStep::UnwrapWithDpapi => StepView::UnwrapWithDpapi,
        }
    }
}

pub open spec fn from_decrypt(r: Result<Seq<char>, DecryptError>) -> StepView {
    match r {
        Ok(s) => StepView::Decrypted(s),
        Err(e) => StepView::Failed(DecryptChromeCookieError::CookieValueDecrypt { source: e }),
    }
}

/// What decrypting the stored value `v` gives on `platform`, with `key` the
/// key obtained so far.
pub open spec fn value_step(platform: Platform, key: Option<Seq<u8>>, v: Seq<u8>) -> StepView {
    let body = v.subrange(HEADER_LEN as int, v.len() as int);
    match scheme_of(platform, tag_of(v)) {
        Scheme::Plain => if valid_utf8(v) {
            StepView::Decrypted(decode_utf8(v))
        } else {
            StepView::Failed(DecryptChromeCookieError::CookieValueUtf8Decode)
        },
        Scheme::Dpapi => StepView::UnwrapWithDpapi,
        Scheme::FixedCbc => from_decrypt(cbc_value_spec(chrome_v10_key(), body)),
        Scheme::Unsupported { key_variant } => StepView::Failed(
            DecryptChromeCookieError::GetKey { key_variant },
        ),
        Scheme::AcquiredCbc => match key {
            None => StepView::KeyNeeded,
            Some(k) => from_decrypt(cbc_value_spec(k, body)),
        },
        Scheme::AcquiredGcm => match key {
            None => StepView::KeyNeeded,
            Some(k) => from_decrypt(gcm_value_spec(k, body)),
        },
    }
}

/// The tag at the start of a stored value.
fn tag(v: &[u8]) -> (r: Option<KeyVariant>)
    ensures
        r == tag_of(v@),
{
    if v.len() >= 3 && v[0] == 118u8 && v[1] == 49u8 && v[2] == 48u8 {
        Some(KeyVariant::V10)
    } else if v.len() >= 3 && v[0] == 118u8 && v[1] == 49u8 && v[2] == 49u8 {
        Some(KeyVariant::V11)
    } else {
        None
    }
}

/// How a value with tag `tag` is turned into text on `platform`.
pub fn scheme(platform: Platform, tag: Option<KeyVariant>) -> (r: Scheme)
    ensures
        r == scheme_of(platform, tag),
{
    match (platform, tag) {
        (Platform::Linux, Some(KeyVariant::V11)) => Scheme::AcquiredCbc,
        (Platform::OtherUnix, Some(KeyVariant::V11)) => Scheme::Unsupported {
            key_variant: KeyVariant::V11,
        },
        (Platform::Linux, Some(KeyVariant::V10)) => Scheme::FixedCbc,
        (Platform::OtherUnix, Some(KeyVariant::V10)) => Scheme::FixedCbc,
        (Platform::MacOs, Some(KeyVariant::V10)) => Scheme::AcquiredCbc,
        (Platform::Windows, Some(KeyVariant::V10)) => Scheme::AcquiredGcm,
        (Platform::Windows, _) => Scheme::Dpapi,
        _ => Scheme::Plain,
    }
}

/// The key Chrome derives from its default password `peanuts`.
pub fn chrome_v10_key_bytes() -> (r: Vec<u8>)
    ensures
        r@ == chrome_v10_key(),
{
    let r: Vec<u8> = vec![253u8, 98, 31, 229, 162, 180, 2, 83, 157, 250, 20, 124, 169, 39, 39, 120];
    assert(r@ =~= chrome_v10_key());
    r
}

fn step_from(r: Result<String, DecryptError>) -> (s: DecryptStep)
    ensures
        s@ == from_decrypt(crate::crypto::result_view(r)),
{
    match r {
        Ok(s) => DecryptStep::Decrypted(s),
        Err(e) => DecryptStep::Failed(DecryptChromeCookieError::CookieValueDecrypt { source: e }),
    }
}

/// Turns the stored values of one browser profile into text, obtaining the
/// key on first use and keeping it for the decryptor's lifetime.
pub struct ChromeDecryptor {
    platform: Platform,
    variant: ChromeVariant,
    key_cache: Option<Vec<u8>>,
}

impl ChromeDecryptor {
    pub closed spec fn platform_spec(&self) -> Platform {
        self.platform
    }

    pub closed spec fn variant_spec(&self) -> ChromeVariant {
        self.variant
    }

    /// The key obtained so far.
    pub closed spec fn key(&self) -> Option<Seq<u8>> {
        opt_bytes_view(self.key_cache)
    }

    /// A decryptor for `variant` on `platform`, with no key yet.
    pub fn new(platform: Platform, variant: ChromeVariant) -> (r: Self)
        ensures
            r.platform_spec() == platform,
            r.variant_spec() == variant,
            r.key() is None,
    {
        ChromeDecryptor { platform, variant, key_cache: None }
    }

    pub fn platform(&self) -> (r: Platform)
        ensures
            r == self.platform_spec(),
    {
        self.platform
    }

    pub fn variant(&self) -> (r: ChromeVariant)
        ensures
            r == self.variant_spec(),
    {
        self.variant
    }

    /// Whether the key has been obtained.
    pub fn has_key(&self) -> (r: bool)
        ensures
            r == self.key() is Some,
    {
        self.key_cache.is_some()
    }

    /// One attempt to turn the stored value `encrypted_value` into text.
    ///
    /// On Windows, a `v10` value whose ciphertext is a genuine encryption
    /// under the key but whose tag was changed fails with a decryption error.
    pub fn decrypt_cookie_value(&self, encrypted_value: &[u8]) -> (r: DecryptStep)
        ensures
            r@ == value_step(self.platform_spec(), self.key(), encrypted_value@),
            forall|plain: Seq<u8>|
                self.platform_spec() == Platform::Windows && self.key() is Some && self.key()->Some_0.len()
                    == AES256_KEY_LEN && tag_of(encrypted_value@) == Some(KeyVariant::V10)
                    && encrypted_value@.len() >= HEADER_LEN + AEAD_NONCE_SIZE && #[trigger] is_tag_tampered(
                    self.key()->Some_0,
                    encrypted_value@.subrange(HEADER_LEN as int, (HEADER_LEN + AEAD_NONCE_SIZE) as int),
                    plain,
                    encrypted_value@.subrange((HEADER_LEN + AEAD_NONCE_SIZE) as int, encrypted_value@.len() as int),
                ) ==> r@ == StepView::Failed(
                    DecryptChromeCookieError::CookieValueDecrypt { source: DecryptError::InvalidInput },
                ),
    {
        let v = encrypted_value;
        let ghost body = v@.subrange(HEADER_LEN as int, v@.len() as int);
        match scheme(self.platform, tag(v)) {
            Scheme::Plain => {
                let bytes = crate::crypto::slice_range(v, 0, v.len());
                assert(bytes@ =~= v@);
                match string_from_utf8(bytes) {
                    Some(s) => DecryptStep::Decrypted(s),
                    None => DecryptStep::Failed(DecryptChromeCookieError::CookieValueUtf8Decode),
                }
            },
            Scheme::Dpapi => DecryptStep::UnwrapWithDpapi,
            Scheme::Unsupported { key_variant } => DecryptStep::Failed(
                DecryptChromeCookieError::GetKey { key_variant },
            ),
            Scheme::FixedCbc => {
                let key = chrome_v10_key_bytes();
                let data = crate::crypto::slice_range(v, HEADER_LEN, v.len());
                step_from(decrypt_value(key.as_slice(), data.as_slice()))
            },
            Scheme::AcquiredCbc => match &self.key_cache {
                None => DecryptStep::KeyNeeded,
                Some(key) => {
                    let data = crate::crypto::slice_range(v, HEADER_LEN, v.len());
                    step_from(decrypt_value(key.as_slice(), data.as_slice()))
                },
            },
            Scheme::AcquiredGcm => match &self.key_cache {
                None => DecryptStep::KeyNeeded,
                Some(key) => {
                    let data = crate::crypto::slice_range(v, HEADER_LEN, v.len());
                    if data.len() >= AEAD_NONCE_SIZE {
                        assert(data@.subrange(0, AEAD_NONCE_SIZE as int) =~= v@.subrange(
                            HEADER_LEN as int,
                            (HEADER_LEN + AEAD_NONCE_SIZE) as int,
                        ));
                        assert(data@.subrange(AEAD_NONCE_SIZE as int, data@.len() as int) =~= v@.subrange(
                            (HEADER_LEN + AEAD_NONCE_SIZE) as int,
                            v@.len() as int,
                        ));
                    }
                    step_from(decrypt_value_gcm(key.as_slice(), data.as_slice()))
                },
            },
        }
    }

    /// One attempt to give the text of a row's value: the plaintext `value`
    /// column where `encrypted_value` is empty, else the decrypted value.
    pub fn cookie_value(&self, row: &ChromeCookie) -> (r: DecryptStep)
        ensures
            r@ == row_step(self.platform_spec(), self.key(), *row),
            row.encrypted_value@.len() == 0 ==> r@ == StepView::Decrypted(row.value@),
    {
        if row.encrypted_value.len() == 0 {
            DecryptStep::Decrypted(row.value.as_str().to_owned())
        } else {
            self.decrypt_cookie_value(row.encrypted_value.as_slice())
        }
    }

    /// Derive the 16-byte key from the password obtained from the secret
    /// service (Linux) or the keychain (macOS) and keep it. A key already
    /// obtained is kept as it is.
    pub fn provide_password(&mut self, password: &str)
        ensures
            final(self).platform_spec() == old(self).platform_spec(),
            final(self).variant_spec() == old(self).variant_spec(),
            old(self).key() is Some ==> final(self).key() == old(self).key(),
            old(self).key() is None ==> final(self).key() == pbkdf2_sha1_of(
                encode_utf8(password@),
                symmetric_salt(),
                hash_rounds(old(self).platform_spec()),
                DERIVED_KEY_LEN as nat,
            ),
            old(self).key() is None ==> (final(self).key() matches Some(k) && k.len() == DERIVED_KEY_LEN),
    {
        if self.key_cache.is_some() {
            return;
        }
        let rounds: u32 = match self.platform {
            Platform::MacOs => 1003,
            _ => 1,
        };
        self.key_cache = Some(derive_key_from_password(password, rounds));
    }

    /// Keep the key unwrapped from the `Local State` file (Windows). A key
    /// already obtained is kept as it is.
    pub fn provide_key(&mut self, key: Vec<u8>)
        ensures
            final(self).platform_spec() == old(self).platform_spec(),
            final(self).variant_spec() == old(self).variant_spec(),
            old(self).key() is Some ==> final(self).key() == old(self).key(),
            old(self).key() is None ==> final(self).key() == Some(key@),
    {
        if self.key_cache.is_none() {
            self.key_cache = Some(key);
        }
    }

    /// The text of a value that DPAPI unwrapped.
    pub fn decode_unwrapped(&self, bytes: Vec<u8>) -> (r: Result<String, DecryptChromeCookieError>)
        ensures
            r is Ok <==> valid_utf8(bytes@),
            r is Ok ==> r->Ok_0@ == decode_utf8(bytes@),
            r is Err ==> r->Err_0 == DecryptChromeCookieError::CookieValueUtf8Decode,
    {
        match string_from_utf8(bytes) {
            Some(s) => Ok(s),
            None => Err(DecryptChromeCookieError::CookieValueUtf8Decode),
        }
    }
}

/// Where a platform's key comes from.
#[derive(Debug, Clone, Copy, PartialEq, Eq, Structural)]
pub enum KeySource {
    /// A password in the secret service, under the application attribute of
    /// the variant (see `secret_service_application`); hand it to
    /// `provide_password`.
    SecretService,
    /// A password in the keychain, under the service and account of the
    /// variant (see `keychain_entry`); hand it to `provide_password`.
    Keychain,
    /// The `os_crypt.encrypted_key` of the `Local State` file: extract its
    /// blob with `encrypted_key_blob`, unwrap that with DPAPI and hand the
    /// result to `provide_key`.
    LocalState,
}

/// The key store of a platform that asks for a key.
pub open spec fn key_source_of(platform: Platform) -> KeySource {
    match platform {
        Platform::MacOs => KeySource::Keychain,
        Platform::Windows => KeySource::LocalState,
        _ => KeySource::SecretService,
    }
}

fn key_source_for(platform: Platform) -> (r: KeySource)
    ensures
        r == key_source_of(platform),
{
    match platform {
        Platform::MacOs => KeySource::Keychain,
        Platform::Windows => KeySource::LocalState,
        _ => KeySource::SecretService,
    }
}

/// The tag of the values whose key a platform obtains from its key store.
pub open spec fn key_variant_of(platform: Platform) -> KeyVariant {
    match platform {
        Platform::Linux => KeyVariant::V11,
        _ => KeyVariant::V10,
    }
}

fn key_variant_for(platform: Platform) -> (r: KeyVariant)
    ensures
        r == key_variant_of(platform),
{
    match platform {
        Platform::Linux => KeyVariant::V11,
        _ => KeyVariant::V10,
    }
}

/// Once a value has asked for the key and the key has been provided, no
/// value asks for it again: the key is obtained at most once per decryptor.
pub proof fn lemma_key_obtained_once(platform: Platform, first: Seq<u8>, second: Seq<u8>, key: Seq<u8>)
    requires
        value_step(platform, None, first) == StepView::KeyNeeded,
    ensures
        value_step(platform, Some(key), first) != StepView::KeyNeeded,
        value_step(platform, Some(key), second) != StepView::KeyNeeded,
{
}

/// The `application` attribute under which the secret service holds the
/// password of `variant` (Linux).
pub fn secret_service_application(variant: ChromeVariant) -> (r: &'static str)
    ensures
        variant == ChromeVariant::Chromium ==> r@ == "chromium"@,
        variant == ChromeVariant::Chrome ==> r@ == "chrome"@,
        variant == ChromeVariant::Edge ==> r@ == "edge"@,
{
    match variant {
        ChromeVariant::Chromium => "chromium",
        ChromeVariant::Chrome => "chrome",
        ChromeVariant::Edge => "edge",
    }
}

/// The service and account under which the keychain holds the password of
/// `variant` (macOS).
pub fn keychain_entry(variant: ChromeVariant) -> (r: (&'static str, &'static str))
    ensures
        variant == ChromeVariant::Chromium ==> r.0@ == "Chromium Safe Storage"@ && r.1@ == "Chromium"@,
        variant == ChromeVariant::Chrome ==> r.0@ == "Chrome Safe Storage"@ && r.1@ == "Chrome"@,
        variant == ChromeVariant::Edge ==> r.0@ == "Edge Safe Storage"@ && r.1@ == "Edge"@,
{
    match variant {
        ChromeVariant::Chromium => ("Chromium Safe Storage", "Chromium"),
        ChromeVariant::Chrome => ("Chrome Safe Storage", "Chrome"),
        ChromeVariant::Edge => ("Edge Safe Storage", "Edge"),
    }
}

/// The folder, under the platform's configuration (or, on Windows, local
/// data) directory, that holds the profiles of `variant`.
pub fn variant_base_folder(variant: ChromeVariant, platform: Platform) -> (r: &'static str)
    ensures
        (platform == Platform::Windows || platform == Platform::MacOs) ==> r@ == match variant {
            ChromeVariant::Chromium => "Chromium"@,
            ChromeVariant::Chrome => "Google/Chrome"@,
            ChromeVariant::Edge => "Microsoft/Edge"@,
        },
        (platform == Platform::Linux || platform == Platform::OtherUnix) ==> r@ == match variant {
            ChromeVariant::Chromium => "chromium"@,
            ChromeVariant::Chrome => "google-chrome"@,
            ChromeVariant::Edge => "microsoft-edge"@,
        },
{
    match (platform, variant) {
        (Platform::Windows, ChromeVariant::Chromium) | (Platform::MacOs, ChromeVariant::Chromium) => "Chromium",
        (Platform::Windows, ChromeVariant::Chrome) | (Platform::MacOs, ChromeVariant::Chrome) => "Google/Chrome",
        (Platform::Windows, ChromeVariant::Edge) | (Platform::MacOs, ChromeVariant::Edge) => "Microsoft/Edge",
        (_, ChromeVariant::Chromium) => "chromium",
        (_, ChromeVariant::Chrome) => "google-chrome",
        (_, ChromeVariant::Edge) => "microsoft-edge",
    }
}

/// Whether `c` carries the fields of `row`, its value aside.
pub open spec fn is_cookie_of_row(c: Cookie, row: ChromeCookie) -> bool {
    &&& c.name@ == row.name@
    &&& c.domain@ == row.host@
    &&& c.path@ == row.path@
    &&& c.expires_nanos == chrome_to_unix_nanos_spec(row.expires as int)
    &&& c.secure == row.secure
    &&& c.http_only == row.http_only
    &&& c.same_site == same_site_of_code(row.same_site as int)
}

/// What the value of a row gives: the plaintext column where the encrypted
/// one is empty, else the decryption of the encrypted one.
pub open spec fn row_step(platform: Platform, key: Option<Seq<u8>>, row: ChromeCookie) -> StepView {
    if row.encrypted_value@.len() == 0 {
        StepView::Decrypted(row.value@)
    } else {
        value_step(platform, key, row.encrypted_value@)
    }
}

/// Obtaining the key changes nothing for a row that did not need it.
pub proof fn lemma_key_keeps_settled_rows(platform: Platform, row: ChromeCookie, key: Seq<u8>)
    requires
        row_step(platform, None, row) != StepView::KeyNeeded,
    ensures
        row_step(platform, Some(key), row) == row_step(platform, None, row),
{
}

/// A row of the `cookies` table.
pub struct ChromeCookie {
    pub name: String,
    pub value: String,
    pub encrypted_value: Vec<u8>,
    pub host: String,
    pub path: String,
    /// Microseconds since the Windows epoch.
    pub expires: i64,
    pub secure: bool,
    pub same_site: i64,
    pub http_only: bool,
}

impl ChromeCookie {
    /// The cookie record of this row, with `value` the text of its value;
    /// the row is kept.
    pub fn to_cookie(&self, value: String) -> (r: Cookie)
        ensures
            is_cookie_of_row(r, *self),
            r.value == value,
    {
        Cookie {
            name: self.name.as_str().to_owned(),
            value,
            domain: self.host.as_str().to_owned(),
            path: self.path.as_str().to_owned(),
            expires_nanos: chrome_to_unix_timestamp_nanos(self.expires),
            secure: self.secure,
            http_only: self.http_only,
            same_site: same_site_from_code(self.same_site),
        }
    }

    /// The cookie record of this row, with `value` the text of its value.
    pub fn into_cookie(self, value: String) -> (r: Cookie)
        ensures
            r.name == self.name,
            r.value == value,
            r.domain == self.host,
            r.path == self.path,
            r.expires_nanos == chrome_to_unix_nanos_spec(self.expires as int),
            r.secure == self.secure,
            r.http_only == self.http_only,
            r.same_site == same_site_of_code(self.same_site as int),
    {
        Cookie {
            name: self.name,
            value,
            domain: self.host,
            path: self.path,
            expires_nanos: chrome_to_unix_timestamp_nanos(self.expires),
            secure: self.secure,
            http_only: self.http_only,
            same_site: same_site_from_code(self.same_site),
        }
    }
}

/// What a pass over the rows of a batch stopped on.
#[derive(Debug)]
pub enum BatchStep {
    /// Every row has become a cookie.
    Finished,
    /// The value of the row at `index` cannot be turned into text.
    Failed { index: usize, error: DecryptChromeCookieError },
    /// The key of values tagged `key_variant` must be obtained from `source`
    /// and provided before going on.
    KeyNeeded { source: KeySource, key_variant: KeyVariant },
    /// The value of the row at `index` must be unwrapped by DPAPI and handed
    /// to `provide_unwrapped`.
    UnwrapWithDpapi { index: usize },
}

/// Whether `c` is a valid cookie for `row`: it carries the row's fields, and
/// its value is the text of the row's value, or, for a value wrapped by
/// DPAPI, the text of the bytes `unwrapped` that DPAPI gave for it.
pub open spec fn is_done_row(
    platform: Platform,
    key: Option<Seq<u8>>,
    row: ChromeCookie,
    c: Cookie,
    unwrapped: Seq<u8>,
) -> bool {
    &&& is_cookie_of_row(c, row)
    &&& (row_step(platform, key, row) == StepView::Decrypted(c.value@) || (row_step(platform, key, row)
        == StepView::UnwrapWithDpapi && valid_utf8(unwrapped) && c.value@ == decode_utf8(unwrapped)))
}

/// The rows of one query on their way to becoming cookies, in order. A row
/// whose value cannot be turned into text stops the batch: there is no
/// partial result.
pub struct ChromeCookieBatch {
    decryptor: ChromeDecryptor,
    rows: Vec<ChromeCookie>,
    cookies: Vec<Cookie>,
    /// For each cookie done, what DPAPI unwrapped from its row's value (empty
    /// where DPAPI was not involved).
    unwrapped: Ghost<Seq<Seq<u8>>>,
}

impl ChromeCookieBatch {
    pub closed spec fn decryptor_spec(&self) -> ChromeDecryptor {
        self.decryptor
    }

    pub closed spec fn rows_spec(&self) -> Seq<ChromeCookie> {
        self.rows@
    }

    /// The cookies of the rows done so far: those of the first rows, in order.
    pub closed spec fn cookies_spec(&self) -> Seq<Cookie> {
        self.cookies@
    }

    /// What DPAPI unwrapped for each row done so far.
    pub closed spec fn unwrapped_spec(&self) -> Seq<Seq<u8>> {
        self.unwrapped@
    }

    pub open spec fn platform(&self) -> Platform {
        self.decryptor_spec().platform_spec()
    }

    pub open spec fn key(&self) -> Option<Seq<u8>> {
        self.decryptor_spec().key()
    }

    /// Each cookie done is valid for its row.
    pub open spec fn wf(&self) -> bool {
        &&& self.cookies_spec().len() <= self.rows_spec().len()
        &&& self.unwrapped_spec().len() == self.cookies_spec().len()
        &&& forall|k: int|
            0 <= k < self.cookies_spec().len() ==> is_done_row(
                self.platform(),
                self.key(),
                self.rows_spec()[k],
                #[trigger] self.cookies_spec()[k],
                self.unwrapped_spec()[k],
            )
    }

    /// Every cookie made from a row whose encrypted column is empty has the
    /// row's plaintext `value` column as its value, exactly.
    pub proof fn lemma_plain_rows_keep_value(&self)
        requires
            self.wf(),
        ensures
            forall|k: int|
                0 <= k < self.cookies_spec().len() && (#[trigger] self.rows_spec()[k]).encrypted_value@.len()
                    == 0 ==> self.cookies_spec()[k].value@ == self.rows_spec()[k].value@,
    {
        assert forall|k: int|
            0 <= k < self.cookies_spec().len() && (#[trigger] self.rows_spec()[k]).encrypted_value@.len()
                == 0 implies self.cookies_spec()[k].value@ == self.rows_spec()[k].value@ by {
            assert(is_done_row(
                self.platform(),
                self.key(),
                self.rows_spec()[k],
                self.cookies_spec()[k],
                self.unwrapped_spec()[k],
            ));
        }
    }

    /// A batch of `rows`, none done yet.
    pub fn new(decryptor: ChromeDecryptor, rows: Vec<ChromeCookie>) -> (r: Self)
        ensures
            r.wf(),
            r.decryptor_spec() == decryptor,
            r.rows_spec() == rows@,
            r.cookies_spec().len() == 0,
    {
        ChromeCookieBatch { decryptor, rows, cookies: Vec::new(), unwrapped: Ghost(Seq::empty()) }
    }

    pub fn platform_exec(&self) -> (r: Platform)
        ensures
            r == self.platform(),
    {
        self.decryptor.platform()
    }

    pub fn variant(&self) -> (r: ChromeVariant)
        ensures
            r == self.decryptor_spec().variant_spec(),
    {
        self.decryptor.variant()
    }

    /// The encrypted value of the row at `index`.
    pub fn encrypted_value(&self, index: usize) -> (r: &[u8])
        requires
            index < self.rows_spec().len(),
        ensures
            r@ == self.rows_spec()[index as int].encrypted_value@,
    {
        self.rows[index].encrypted_value.as_slice()
    }

    /// Turn rows into cookies, in order, until all are done or one needs
    /// outside work or fails.
    pub fn step(&mut self) -> (r: BatchStep)
        requires
            old(self).wf(),
        ensures
            final(self).wf(),
            final(self).decryptor_spec() == old(self).decryptor_spec(),
            final(self).rows_spec() == old(self).rows_spec(),
            old(self).cookies_spec().len() <= final(self).cookies_spec().len(),
            final(self).cookies_spec().subrange(0, old(self).cookies_spec().len() as int)
                == old(self).cookies_spec(),
            final(self).unwrapped_spec().subrange(0, old(self).cookies_spec().len() as int)
                == old(self).unwrapped_spec(),
            match r {
                BatchStep::Finished => final(self).cookies_spec().len() == final(self).rows_spec().len(),
                BatchStep::Failed { index, error } => index == final(self).cookies_spec().len()
                    && index < final(self).rows_spec().len() && row_step(
                    final(self).platform(),
                    final(self).key(),
                    final(self).rows_spec()[index as int],
                ) == StepView::Failed(error),
                BatchStep::KeyNeeded { source, key_variant } => final(self).cookies_spec().len()
                    < final(self).rows_spec().len() && row_step(
                    final(self).platform(),
                    final(self).key(),
                    final(self).rows_spec()[final(self).cookies_spec().len() as int],
                ) == StepView::KeyNeeded && final(self).key() is None && final(self).platform()
                    != Platform::OtherUnix && source == key_source_of(final(self).platform())
                    && key_variant == key_variant_of(final(self).platform()),
                BatchStep::UnwrapWithDpapi { index } => index == final(self).cookies_spec().len()
                    && index < final(self).rows_spec().len() && row_step(
                    final(self).platform(),
                    final(self).key(),
                    final(self).rows_spec()[index as int],
                ) == StepView::UnwrapWithDpapi,
            },
    {
        let ghost old_cookies = self.cookies@;
        let ghost old_unwrapped = self.unwrapped@;
        while self.cookies.len() < self.rows.len()
            invariant
                self.wf(),
                self.decryptor == old(self).decryptor,
                self.rows@ == old(self).rows@,
                old_cookies == old(self).cookies@,
                old_unwrapped == old(self).unwrapped@,
                old_cookies.len() <= self.cookies@.len(),
                self.cookies@.subrange(0, old_cookies.len() as int) == old_cookies,
                self.unwrapped@.subrange(0, old_cookies.len() as int) == old_unwrapped,
            decreases self.rows@.len() - self.cookies@.len(),
        {
            let i = self.cookies.len();
            let step = self.decryptor.cookie_value(&self.rows[i]);
            match step {
                DecryptStep::Decrypted(value) => {
                    let cookie = self.rows[i].to_cookie(value);
                    let ghost before = self.cookies@;
                    let ghost before_unwrapped = self.unwrapped@;
                    self.cookies.push(cookie);
                    self.unwrapped = Ghost(self.unwrapped@.push(Seq::empty()));
                    assert(self.cookies@.subrange(0, old_cookies.len() as int) =~= before.subrange(
                        0,
                        old_cookies.len() as int,
                    ));
                    assert(self.unwrapped@.subrange(0, old_cookies.len() as int)
                        =~= before_unwrapped.subrange(0, old_cookies.len() as int));
                    assert forall|k: int| 0 <= k < self.cookies@.len() implies is_done_row(
                        self.platform(),
                        self.key(),
                        self.rows_spec()[k],
                        #[trigger] self.cookies_spec()[k],
                        self.unwrapped_spec()[k],
                    ) by {
                        if k < before.len() {
                            assert(self.cookies@[k] == before[k]);
                            assert(self.unwrapped@[k] == before_unwrapped[k]);
                        }
                    }
                },
                DecryptStep::Failed(error) => {
                    return BatchStep::Failed { index: i, error };
                },
                DecryptStep::KeyNeeded => {
                    let platform = self.decryptor.platform();
                    return BatchStep::KeyNeeded {
                        source: key_source_for(platform),
                        key_variant: key_variant_for(platform),
                    };
                },
                DecryptStep::UnwrapWithDpapi => {
                    return BatchStep::UnwrapWithDpapi { index: i };
                },
            }
        }
        BatchStep::Finished
    }

    /// Hand over what DPAPI unwrapped from the value of the next row: where
    /// it is text, the row becomes a cookie with that value.
    pub fn provide_unwrapped(&mut self, bytes: Vec<u8>) -> (r: Result<(), DecryptChromeCookieError>)
        requires
            old(self).wf(),
            old(self).cookies_spec().len() < old(self).rows_spec().len(),
            row_step(
                old(self).platform(),
                old(self).key(),
                old(self).rows_spec()[old(self).cookies_spec().len() as int],
            ) == StepView::UnwrapWithDpapi,
        ensures
            final(self).wf(),
            final(self).decryptor_spec() == old(self).decryptor_spec(),
            final(self).rows_spec() == old(self).rows_spec(),
            r is Ok <==> valid_utf8(bytes@),
            r is Ok ==> final(self).cookies_spec().len() == old(self).cookies_spec().len() + 1
                && final(self).cookies_spec().subrange(0, old(self).cookies_spec().len() as int)
                == old(self).cookies_spec() && final(self).cookies_spec().last().value@ == decode_utf8(
                bytes@,
            ) && final(self).unwrapped_spec() == old(self).unwrapped_spec().push(bytes@),
            r is Err ==> final(self).cookies_spec() == old(self).cookies_spec()
                && final(self).unwrapped_spec() == old(self).unwrapped_spec()
                && r->Err_0 == DecryptChromeCookieError::CookieValueUtf8Decode,
    {
        let i = self.cookies.len();
        let ghost raw = bytes@;
        match self.decryptor.decode_unwrapped(bytes) {
            Ok(value) => {
                let cookie = self.rows[i].to_cookie(value);
                let ghost before = self.cookies@;
                let ghost before_unwrapped = self.unwrapped@;
                self.cookies.push(cookie);
                self.unwrapped = Ghost(self.unwrapped@.push(raw));
                assert(self.cookies@.subrange(0, before.len() as int) =~= before);
                assert forall|k: int| 0 <= k < self.cookies@.len() implies is_done_row(
                    self.platform(),
                    self.key(),
                    self.rows_spec()[k],
                    #[trigger] self.cookies_spec()[k],
                    self.unwrapped_spec()[k],
                ) by {
                    if k < before.len() {
                        assert(self.cookies@[k] == before[k]);
                        assert(self.unwrapped@[k] == before_unwrapped[k]);
                    }
                }
                Ok(())
            },
            Err(e) => Err(e),
        }
    }

    proof fn lemma_new_key_keeps_wf(&self, d: ChromeDecryptor)
        requires
            self.wf(),
            d.platform_spec() == self.platform(),
            self.key() is Some ==> d.key() == self.key(),
        ensures
            forall|k: int|
                0 <= k < self.cookies_spec().len() ==> row_step(d.platform_spec(), d.key(), self.rows_spec()[k])
                    == row_step(self.platform(), self.key(), #[trigger] self.rows_spec()[k]),
    {
        assert forall|k: int| 0 <= k < self.cookies_spec().len() implies row_step(
            d.platform_spec(),
            d.key(),
            self.rows_spec()[k],
        ) == row_step(self.platform(), self.key(), #[trigger] self.rows_spec()[k]) by {
            assert(is_done_row(
                self.platform(),
                self.key(),
                self.rows_spec()[k],
                self.cookies_spec()[k],
                self.unwrapped_spec()[k],
            ));
            if self.key() is None && d.key() is Some {
                lemma_key_keeps_settled_rows(self.platform(), self.rows_spec()[k], d.key()->Some_0);
            }
        }
    }

    /// Hand over the password obtained from the secret service or the
    /// keychain; see `ChromeDecryptor::provide_password`.
    pub fn provide_password(&mut self, password: &str)
        requires
            old(self).wf(),
        ensures
            final(self).wf(),
            final(self).rows_spec() == old(self).rows_spec(),
            final(self).cookies_spec() == old(self).cookies_spec(),
            final(self).unwrapped_spec() == old(self).unwrapped_spec(),
            final(self).platform() == old(self).platform(),
            final(self).decryptor_spec().variant_spec() == old(self).decryptor_spec().variant_spec(),
            old(self).key() is Some ==> final(self).key() == old(self).key(),
            old(self).key() is None ==> final(self).key() == pbkdf2_sha1_of(
                encode_utf8(password@),
                symmetric_salt(),
                hash_rounds(old(self).platform()),
                DERIVED_KEY_LEN as nat,
            ),
            old(self).key() is None ==> (final(self).key() matches Some(k) && k.len() == DERIVED_KEY_LEN),
    {
        self.decryptor.provide_password(password);
        proof {
            old(self).lemma_new_key_keeps_wf(self.decryptor);
        }
    }

    /// Hand over the key unwrapped from the `Local State` file; see
    /// `ChromeDecryptor::provide_key`.
    pub fn provide_key(&mut self, key: Vec<u8>)
        requires
            old(self).wf(),
        ensures
            final(self).wf(),
            final(self).rows_spec() == old(self).rows_spec(),
            final(self).cookies_spec() == old(self).cookies_spec(),
            final(self).unwrapped_spec() == old(self).unwrapped_spec(),
            final(self).platform() == old(self).platform(),
            final(self).decryptor_spec().variant_spec() == old(self).decryptor_spec().variant_spec(),
            old(self).key() is Some ==> final(self).key() == old(self).key(),
            old(self).key() is None ==> final(self).key() == Some(key@),
    {
        self.decryptor.provide_key(key);
        proof {
            old(self).lemma_new_key_keeps_wf(self.decryptor);
        }
    }

    /// The cookies of all the rows, once every row is done, and the
    /// decryptor with the key it obtained.
    pub fn into_parts(self) -> (r: (Vec<Cookie>, ChromeDecryptor))
        requires
            self.cookies_spec().len() == self.rows_spec().len(),
        ensures
            r.0@ == self.cookies_spec(),
            r.1 == self.decryptor_spec(),
    {
        (self.cookies, self.decryptor)
    }

    /// The decryptor, with the key it obtained, when the batch is given up.
    pub fn into_decryptor(self) -> (r: ChromeDecryptor)
        ensures
            r == self.decryptor_spec(),
    {
        self.decryptor
    }
}

} // verus!
