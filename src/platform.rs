use vstd::prelude::*;
use vstd::string::*;
use vstd::utf8::*;
use base64::prelude::BASE64_STANDARD;
use base64::Engine;
use crate::inventory::{copy_string, Inventory, InventoryView};
use crate::registry::{registry_wf, Registry};

verus! {

/// The values a tenant's context is made of.
pub struct PlatformView {
    pub tenant: Seq<char>,
    pub username: Seq<char>,
    pub password: Seq<char>,
    pub base_url: Seq<char>,
    pub inventory: InventoryView,
}

impl PlatformView {
    /// The API client is bound to the context's own identity and credentials.
    pub open spec fn wf(self) -> bool {
        self.inventory == platform_of(self.tenant, self.username, self.password, self.base_url).inventory
    }
}

/// The context of a tenant with the given credentials on the given platform.
pub open spec fn platform_of(
    tenant: Seq<char>,
    username: Seq<char>,
    password: Seq<char>,
    base_url: Seq<char>,
) -> PlatformView {
    PlatformView {
        tenant,
        username,
        password,
        base_url,
        inventory: InventoryView { base_url, tenant, username, password },
    }
}

/// One tenant's identity, credentials, platform address and API client.
/// A context is never changed once made: new credentials make a new one.
pub struct Platform {
    pub tenant: String,
    pub username: String,
    pub password: String,
    pub base_url: String,
    pub inventory_api: Inventory,
}

impl View for Platform {
    type V = PlatformView;

    open spec fn view(&self) -> PlatformView {
        PlatformView {
            tenant: self.tenant@,
            username: self.username@,
            password: self.password@,
            base_url: self.base_url@,
            inventory: self.inventory_api@,
        }
    }
}

impl Platform {
    /// The context of `tenant`, with an API client bound to the same values.
    pub fn new(tenant: &String, username: &String, password: &String, base_url: &String) -> (r: Platform)
        ensures
            r@ == platform_of(tenant@, username@, password@, base_url@),
            r@.wf(),
    {
        Platform {
            tenant: copy_string(tenant),
            username: copy_string(username),
            password: copy_string(password),
            base_url: copy_string(base_url),
            inventory_api: Inventory::new(base_url, tenant, username, password),
        }
    }

    /// A copy of this context, as handed to listeners and request handlers.
    pub fn duplicate(&self) -> (r: Platform)
        ensures
            r@ == self@,
    {
        Platform {
            tenant: copy_string(&self.tenant),
            username: copy_string(&self.username),
            password: copy_string(&self.password),
            base_url: copy_string(&self.base_url),
            inventory_api: self.inventory_api.duplicate(),
        }
    }
}

/// Why an inbound request could not be bound to a tenant.
#[derive(PartialEq, Eq, Structural, Clone, Copy, Debug)]
pub enum ResolutionError {
    MissingHeader,
    UnsupportedScheme,
    BadEncoding,
    MissingTenantPrefix,
    UnknownTenant,
}

/// A rejected request's credentials: the kind of failure, a message for the
/// client, and the decoder's own description where one failed.
pub struct HeaderProcessingError {
    pub kind: ResolutionError,
    pub message: String,
    pub detailed_message: Option<String>,
}

/// The bytes that a text in standard base64 encodes; none where the text is
/// not canonical, padded standard base64.
pub uninterp spec fn base64_decoded(s: Seq<char>) -> Option<Seq<u8>>;

/// The standard, padded base64 text of some bytes.
pub uninterp spec fn base64_encoded(b: Seq<u8>) -> Seq<char>;

/// Relies on base64's `STANDARD` engine `decode`: the encoded bytes, or the
/// description of the decode error.
#[verifier::external_body]
fn decode_base64(s: &str) -> (r: Result<Vec<u8>, String>)
    ensures
        r is Ok <==> base64_decoded(s@) is Some,
        r matches Ok(b) ==> base64_decoded(s@) == Some(b@),
{
    BASE64_STANDARD.decode(s).map_err(|e| e.to_string())
}

/// Relies on base64's `STANDARD` engine `encode`, whose output the same
/// engine decodes back to the input.
#[verifier::external_body]
fn encode_base64(b: &[u8]) -> (r: String)
    ensures
        r@ == base64_encoded(b@),
        base64_decoded(r@) == Some(b@),
{
    BASE64_STANDARD.encode(b)
}

/// Relies on `String::from_utf8`: the text when the bytes are valid UTF-8,
/// else the description of the error.
#[verifier::external_body]
fn utf8_text(b: Vec<u8>) -> (r: Result<String, String>)
    ensures
        r is Ok <==> valid_utf8(b@),
        r matches Ok(s) ==> s@ == decode_utf8(b@),
{
    String::from_utf8(b).map_err(|e| e.to_string())
}

pub open spec fn has_char(s: Seq<char>, c: char) -> bool {
    exists|i: int| 0 <= i < s.len() && s[i] == c
}

pub open spec fn is_first_index(s: Seq<char>, c: char, i: int) -> bool {
    0 <= i < s.len() && s[i] == c && forall|j: int| 0 <= j < i ==> s[j] != c
}

/// The position of the first `c` in `s`, where `s` has one.
pub open spec fn first_index(s: Seq<char>, c: char) -> int {
    choose|i: int| is_first_index(s, c, i)
}

pub proof fn lemma_first_index(s: Seq<char>, c: char, i: int)
    requires
        is_first_index(s, c, i),
    ensures
        first_index(s, c) == i,
{
    let k = first_index(s, c);
    assert(is_first_index(s, c, k));
    if k < i {
        assert(s[k] != c);
    }
    if i < k {
        assert(s[i] != c);
    }
}

/// The tenant identifier of decoded credentials: what stands before the first `/`.
pub open spec fn tenant_of(text: Seq<char>) -> Seq<char> {
    text.take(first_index(text, '/'))
}

/// The resolution of decoded credentials text against registry contents.
pub open spec fn resolve_text(text: Seq<char>, reg: Map<Seq<char>, PlatformView>) -> Result<PlatformView, ResolutionError> {
    if !has_char(text, '/') {
        Err(ResolutionError::MissingTenantPrefix)
    } else if !reg.contains_key(tenant_of(text)) {
        Err(ResolutionError::UnknownTenant)
    } else {
        Ok(reg[tenant_of(text)])
    }
}

/// The resolution of decoded credentials bytes against registry contents.
pub open spec fn resolve_bytes(b: Seq<u8>, reg: Map<Seq<char>, PlatformView>) -> Result<PlatformView, ResolutionError> {
    if !valid_utf8(b) {
        Err(ResolutionError::BadEncoding)
    } else {
        resolve_text(decode_utf8(b), reg)
    }
}

/// The scheme of an authorization header: what stands before the first space.
pub open spec fn scheme_of(h: Seq<char>) -> Seq<char> {
    if has_char(h, ' ') {
        h.take(first_index(h, ' '))
    } else {
        h
    }
}

/// The credentials of an authorization header: what follows the first space.
pub open spec fn payload_of(h: Seq<char>) -> Seq<char> {
    h.skip(first_index(h, ' ') + 1)
}

/// The resolution of an inbound authorization header against registry contents.
pub open spec fn resolve_header(header: Option<Seq<char>>, reg: Map<Seq<char>, PlatformView>) -> Result<
    PlatformView,
    ResolutionError,
> {
    match header {
        None => Err(ResolutionError::MissingHeader),
        Some(h) => if scheme_of(h) != "Basic"@ {
            Err(ResolutionError::UnsupportedScheme)
        } else if !has_char(h, ' ') {
            Err(ResolutionError::BadEncoding)
        } else {
            match base64_decoded(payload_of(h)) {
                None => Err(ResolutionError::BadEncoding),
                Some(b) => resolve_bytes(b, reg),
            }
        },
    }
}

/// What a resolution returned, as a context or a kind of failure.
pub open spec fn outcome(r: Result<Platform, HeaderProcessingError>) -> Result<PlatformView, ResolutionError> {
    match r {
        Ok(p) => Ok(p@),
        Err(e) => Err(e.kind),
    }
}

fn header_error(kind: ResolutionError, message: &str) -> (e: HeaderProcessingError)
    ensures
        e.kind == kind,
        e.message@ == message@,
        e.detailed_message is None,
{
    HeaderProcessingError { kind, message: String::from_str(message), detailed_message: None }
}

/// The position of the first `c` in `s`, if any.
pub fn find_char(s: &str, c: char) -> (r: Option<usize>)
    ensures
        r is None <==> !has_char(s@, c),
        r matches Some(i) ==> is_first_index(s@, c, i as int) && first_index(s@, c) == i,
{
    let n = s.unicode_len();
    let mut i: usize = 0;
    while i < n
        invariant
            n == s@.len(),
            0 <= i <= n,
            forall|j: int| 0 <= j < i ==> s@[j] != c,
        decreases n - i,
    {
        if s.get_char(i) == c {
            proof {
                lemma_first_index(s@, c, i as int);
            }
            return Some(i);
        }
        i += 1;
    }
    None
}

/// Resolves decoded credentials, `{tenant}/{user}:{password}`, to the
/// registered context of their tenant. Only the tenant is looked at.
pub fn resolve_decoded(decoded: Vec<u8>, registry: &Registry) -> (r: Result<Platform, HeaderProcessingError>)
    ensures
        outcome(r) == resolve_bytes(decoded@, registry@),
{
    let text = match utf8_text(decoded) {
        Ok(t) => t,
        Err(detail) => {
            return Err(
                HeaderProcessingError {
                    kind: ResolutionError::BadEncoding,
                    message: String::from_str("No UTF8 compatible string"),
                    detailed_message: Some(detail),
                },
            );
        },
    };
    let slash = match find_char(text.as_str(), '/') {
        Some(i) => i,
        None => {
            return Err(header_error(ResolutionError::MissingTenantPrefix, "Missing tenant prefix in credentials"));
        },
    };
    let tenant = text.as_str().substring_char(0, slash);
    match registry.get(tenant) {
        Some(p) => Ok(p),
        None => {
            let message = String::from_str("No subscription for tenant ").concat(tenant);
            Err(HeaderProcessingError { kind: ResolutionError::UnknownTenant, message, detailed_message: None })
        },
    }
}

/// Resolves the value of an inbound `Authorization` header, `Basic` and
/// base64 of `{tenant}/{user}:{password}`, to the registered context of the
/// tenant. Only the registry is read.
pub fn get_current_platform(auth_header: Option<&str>, registry: &Registry) -> (r: Result<Platform, HeaderProcessingError>)
    ensures
        outcome(r) == resolve_header(
            match auth_header {
                Some(h) => Some(h@),
                None => None,
            },
            registry@,
        ),
{
    let auth = match auth_header {
        Some(h) => h,
        None => {
            return Err(header_error(ResolutionError::MissingHeader, "Authorization header is missing"));
        },
    };
    let space = find_char(auth, ' ');
    let n = auth.unicode_len();
    let scheme = match space {
        Some(i) => auth.substring_char(0, i),
        None => auth,
    };
    if !str_equal(scheme, "Basic") {
        return Err(
            header_error(ResolutionError::UnsupportedScheme, "Authorization header must be basic authentication"),
        );
    }
    let payload = match space {
        Some(i) => auth.substring_char(i + 1, n),
        None => {
            return Err(
                header_error(ResolutionError::BadEncoding, "Missing base64 encoded part of authorization header"),
            );
        },
    };
    let decoded = match decode_base64(payload) {
        Ok(d) => d,
        Err(detail) => {
            return Err(
                HeaderProcessingError {
                    kind: ResolutionError::BadEncoding,
                    message: String::from_str("Couldn't decode authorization header"),
                    detailed_message: Some(detail),
                },
            );
        },
    };
    resolve_decoded(decoded, registry)
}

/// Whether two texts are equal.
pub fn str_equal(a: &str, b: &str) -> (r: bool)
    ensures
        r == (a@ == b@),
{
    let n = a.unicode_len();
    if n != b.unicode_len() {
        return false;
    }
    let mut i: usize = 0;
    while i < n
        invariant
            n == a@.len(),
            n == b@.len(),
            0 <= i <= n,
            forall|j: int| 0 <= j < i ==> a@[j] == b@[j],
        decreases n - i,
    {
        if a.get_char(i) != b.get_char(i) {
            return false;
        }
        i += 1;
    }
    assert(a@ =~= b@);
    true
}

/// The value of a Basic `Authorization` header for `user` and `password`:
/// `Basic ` and the base64 of `{user}:{password}`.
pub fn basic_auth_header(user: &str, password: &str) -> (r: String)
    ensures
        r@ == "Basic "@ + base64_encoded(encode_utf8(user@ + seq![':'] + password@)),
        base64_decoded(r@.skip(6)) == Some(encode_utf8(user@ + seq![':'] + password@)),
{
    proof {
        reveal_strlit(":");
        reveal_strlit("Basic ");
    }
    let credentials = String::from_str(user).concat(":").concat(password);
    assert(credentials@ =~= user@ + seq![':'] + password@);
    let bytes = credentials.as_str().as_bytes();
    assert(bytes@ == encode_utf8(credentials@));
    let encoded = encode_base64(bytes);
    let r = String::from_str("Basic ").concat(encoded.as_str());
    assert(r@.skip(6) =~= encoded@);
    r
}

/// The JSON body of a rejection: `{"message": "…", "detailedMessage": "…"}`.
pub open spec fn error_body_of(message: Seq<char>, detail: Seq<char>) -> Seq<char> {
    "{\"message\": \""@ + message + "\", \"detailedMessage\": \""@ + detail + "\"}"@
}

impl HeaderProcessingError {
    /// The body of the client-facing answer: the message and the detailed
    /// message, empty where there is none.
    pub fn error_body(&self) -> (r: String)
        ensures
            r@ == error_body_of(
                self.message@,
                match self.detailed_message {
                    Some(d) => d@,
                    None => Seq::empty(),
                },
            ),
    {
        let detail = match &self.detailed_message {
            Some(d) => copy_string(d),
            None => String::new(),
        };
        String::from_str("{\"message\": \"").concat(self.message.as_str()).concat(
            "\", \"detailedMessage\": \"",
        ).concat(detail.as_str()).concat("\"}")
    }
}

/// Credentials `{tenant}/{user}:{password}` sent as a Basic authorization
/// header resolve to the context registered for the tenant, and to
/// `UnknownTenant` once the tenant is unregistered. A tenant identifier that
/// itself holds a `/` is cut at it, so it is left out.
pub proof fn lemma_resolver_round_trip(
    tenant: Seq<char>,
    user: Seq<char>,
    password: Seq<char>,
    payload: Seq<char>,
    reg: Map<Seq<char>, PlatformView>,
)
    requires
        !has_char(tenant, '/'),
        base64_decoded(payload) == Some(encode_utf8(tenant + seq!['/'] + user + seq![':'] + password)),
        reg.contains_key(tenant),
        registry_wf(reg),
    ensures
        resolve_header(Some("Basic "@ + payload), reg) == Ok::<PlatformView, ResolutionError>(reg[tenant]),
        reg[tenant].tenant == tenant,
        resolve_header(Some("Basic "@ + payload), reg.remove(tenant)) == Err::<PlatformView, ResolutionError>(
            ResolutionError::UnknownTenant,
        ),
{
    broadcast use encode_utf8_decode_utf8, encode_utf8_valid_utf8;

    reveal_strlit("Basic ");
    reveal_strlit("Basic");
    let h = "Basic "@ + payload;
    assert(is_first_index(h, ' ', 5));
    lemma_first_index(h, ' ', 5);
    assert(scheme_of(h) =~= "Basic"@);
    assert(payload_of(h) =~= payload);
    let text = tenant + seq!['/'] + user + seq![':'] + password;
    assert(decode_utf8(encode_utf8(text)) == text);
    assert(is_first_index(text, '/', tenant.len() as int));
    lemma_first_index(text, '/', tenant.len() as int);
    assert(tenant_of(text) =~= tenant);
}

} // verus!
