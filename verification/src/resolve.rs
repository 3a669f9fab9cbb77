//! Reading an `Authorization` header value: which credential scheme it
//! carries and the credential itself.

use vstd::prelude::*;
use vstd::utf8::*;
use vstd::string::StringSliceAdditionalSpecFns;
use base64::Engine;
use crate::identity::AuthError;
use crate::text::{is_first_index_of, spec_trim, spec_trim_start, split_once, trim, trim_start};

verus! {

broadcast use vstd::utf8::group_utf8_lib;

/// ASCII lower-casing of one byte, as `u8::to_ascii_lowercase` does.
pub open spec fn ascii_lower(b: u8) -> u8 {
    if 65 <= b <= 90 {
        (b + 32) as u8
    } else {
        b
    }
}

/// Byte-wise equality up to ASCII case, as `str::eq_ignore_ascii_case` does.
pub open spec fn eq_ignore_ascii_case(a: Seq<u8>, b: Seq<u8>) -> bool {
    &&& a.len() == b.len()
    &&& forall|i: int| 0 <= i < a.len() ==> ascii_lower(a[i]) == ascii_lower(b[i])
}

/// The UTF-8 bytes of `header` begin with `scheme` (ignoring ASCII case)
/// followed by a space.
pub open spec fn scheme_prefix_matches(header: Seq<char>, scheme: Seq<char>) -> bool {
    let hb = encode_utf8(header);
    let sb = encode_utf8(scheme);
    &&& hb.len() > sb.len()
    &&& eq_ignore_ascii_case(hb.take(sb.len() as int), sb)
    &&& hb[sb.len() as int] == 0x20u8
}

/// The credential part that follows `<scheme> `, leading whitespace removed;
/// `None` when the header does not begin with the scheme and a space.
pub open spec fn spec_strip_scheme_prefix(header: Seq<char>, scheme: Seq<char>) -> Option<
    Seq<char>,
> {
    if scheme_prefix_matches(header, scheme) {
        Some(
            spec_trim_start(
                decode_utf8(encode_utf8(header).skip(encode_utf8(scheme).len() as int)),
            ),
        )
    } else {
        None
    }
}

/// View of an optional string slice.
pub open spec fn opt_str_view(o: Option<&str>) -> Option<Seq<char>> {
    match o {
        Some(s) => Some(s@),
        None => None,
    }
}

fn ascii_lower_byte(b: u8) -> (r: u8)
    ensures
        r == ascii_lower(b),
{
    if 65 <= b && b <= 90 {
        b + 32
    } else {
        b
    }
}

/// Strip a case-insensitive auth-scheme prefix (RFC 7235 section 2.1). The
/// scheme must be followed by a literal space; leading whitespace of the
/// credential is removed. Returns `None` when the header does not begin with
/// `<scheme> `, e.g. `"BearerToken abc"`, `""` or `"Bearer"` for `"Bearer"`,
/// including headers whose scheme-length cut falls inside a character.
pub fn strip_scheme_prefix<'a>(header: &'a str, scheme: &str) -> (r: Option<&'a str>)
    ensures
        opt_str_view(r) == spec_strip_scheme_prefix(header@, scheme@),
{
    let hb = header.as_bytes();
    let sb = scheme.as_bytes();
    let n = sb.len();
    if hb.len() <= n {
        return None;
    }
    let mut i: usize = 0;
    while i < n
        invariant
            hb@ == encode_utf8(header@),
            sb@ == encode_utf8(scheme@),
            n == sb@.len(),
            n < hb@.len(),
            0 <= i <= n,
            forall|j: int| 0 <= j < i ==> ascii_lower(hb@[j]) == ascii_lower(sb@[j]),
        decreases n - i,
    {
        if ascii_lower_byte(hb[i]) != ascii_lower_byte(sb[i]) {
            proof {
                assert(!eq_ignore_ascii_case(hb@.take(n as int), sb@)) by {
                    assert(hb@.take(n as int)[i as int] == hb@[i as int]);
                }
            }
            return None;
        }
        i = i + 1;
    }
    proof {
        assert(eq_ignore_ascii_case(hb@.take(n as int), sb@)) by {
            assert forall|j: int| 0 <= j < n implies ascii_lower(hb@.take(n as int)[j])
                == ascii_lower(sb@[j]) by {
                assert(hb@.take(n as int)[j] == hb@[j]);
            }
        }
    }
    if hb[n] != 0x20u8 {
        return None;
    }
    proof {
        // A space byte starts a character, so the cut falls on a boundary.
        assert(!is_continuation_byte(hb@[n as int]));
        assert(is_char_boundary(hb@, n as int));
    }
    let (_, rest) = header.split_at(n);
    proof {
        assert(rest.spec_bytes() =~= hb@.skip(n as int));
        assert(decode_utf8(encode_utf8(rest@)) == rest@);
    }
    Some(trim_start(rest))
}

/// The name of what `base64`'s standard engine decodes `input` to, `None`
/// when it rejects the input.
pub uninterp spec fn base64_standard_decoded(input: Seq<u8>) -> Option<Seq<u8>>;

/// Decode standard (padded) base64 with `base64::engine::general_purpose::STANDARD`.
/// Trusted: the result is the one `base64_standard_decoded` names for the input.
#[verifier::external_body]
fn base64_standard_decode(input: &[u8]) -> (r: Option<Vec<u8>>)
    ensures
        r is Some == base64_standard_decoded(input@) is Some,
        r matches Some(v) ==> base64_standard_decoded(input@) == Some(v@),
{
    base64::engine::general_purpose::STANDARD.decode(input).ok()
}

/// Read bytes as UTF-8 with `std::str::from_utf8`. Trusted: it succeeds
/// exactly on valid UTF-8 and the string's bytes are the input.
#[verifier::external_body]
fn utf8_str(bytes: &[u8]) -> (r: Option<&str>)
    ensures
        r is Some <==> valid_utf8(bytes@),
        r matches Some(s) ==> s.spec_bytes() == bytes@,
{
    std::str::from_utf8(bytes).ok()
}

/// A credential read from an `Authorization` header.
#[derive(Debug, Clone)]
pub enum Credentials {
    /// `Bearer <token>`.
    Bearer(String),
    /// `Basic <base64(client_id:secret)>`.
    Basic {
        /// Client identifier (the text before the first `:`).
        client_id: String,
        /// Client secret (the text after the first `:`).
        secret: String,
    },
}

/// The mathematical content of [`Credentials`].
pub enum CredentialsView {
    /// A bearer token.
    Bearer(Seq<char>),
    /// A client identifier and secret.
    Basic(Seq<char>, Seq<char>),
}

impl View for Credentials {
    type V = CredentialsView;

    open spec fn view(&self) -> CredentialsView {
        match self {
            Credentials::Bearer(t) => CredentialsView::Bearer(t@),
            Credentials::Basic { client_id, secret } => CredentialsView::Basic(
                client_id@,
                secret@,
            ),
        }
    }
}

/// `r` is the outcome `expected` describes.
pub open spec fn credentials_outcome(
    r: Result<Credentials, AuthError>,
    expected: Result<CredentialsView, AuthError>,
) -> bool {
    match (r, expected) {
        (Ok(c), Ok(v)) => c@ == v,
        (Err(e), Err(f)) => e == f,
        _ => false,
    }
}

/// The credentials in the text `user:secret`: split at the first `:`.
pub open spec fn spec_split_basic(s: Seq<char>) -> Result<CredentialsView, AuthError> {
    if s.contains(':') {
        let i = choose|i: int| is_first_index_of(s, ':', i);
        Ok(CredentialsView::Basic(s.take(i), s.skip(i + 1)))
    } else {
        Err(AuthError::MalformedHeader)
    }
}

/// The credentials carried by the decoded payload of a Basic header.
pub open spec fn spec_basic_payload(decoded: Option<Seq<u8>>) -> Result<CredentialsView, AuthError> {
    match decoded {
        None => Err(AuthError::MalformedHeader),
        Some(bytes) => if valid_utf8(bytes) {
            spec_split_basic(decode_utf8(bytes))
        } else {
            Err(AuthError::MalformedHeader)
        },
    }
}

/// The credentials an `Authorization` header value carries.
pub open spec fn spec_parse_authorization(header: Option<Seq<char>>) -> Result<
    CredentialsView,
    AuthError,
> {
    match header {
        None => Err(AuthError::MissingHeader),
        Some(h) => match spec_strip_scheme_prefix(h, "Bearer"@) {
            Some(token) => Ok(CredentialsView::Bearer(token)),
            None => match spec_strip_scheme_prefix(h, "Basic"@) {
                Some(b64) => spec_basic_payload(
                    base64_standard_decoded(encode_utf8(spec_trim(b64))),
                ),
                None => Err(AuthError::MalformedHeader),
            },
        },
    }
}

proof fn lemma_first_index_unique(s: Seq<char>, c: char, i: int, j: int)
    requires
        is_first_index_of(s, c, i),
        is_first_index_of(s, c, j),
    ensures
        i == j,
{
}

/// Read the decoded payload of a Basic credential: valid UTF-8 text that
/// holds a `:` separating the client identifier from the secret.
pub fn parse_basic_payload(decoded: Option<Vec<u8>>) -> (r: Result<Credentials, AuthError>)
    ensures
        credentials_outcome(
            r,
            spec_basic_payload(
                match decoded {
                    Some(v) => Some(v@),
                    None => None,
                },
            ),
        ),
{
    let bytes = match decoded {
        Some(b) => b,
        None => return Err(AuthError::MalformedHeader),
    };
    let s = match utf8_str(bytes.as_slice()) {
        Some(s) => s,
        None => return Err(AuthError::MalformedHeader),
    };
    proof {
        assert(decode_utf8(encode_utf8(s@)) == s@);
    }
    match split_once(s, ':') {
        Some((id, secret)) => {
            proof {
                let i = choose|i: int| is_first_index_of(s@, ':', i);
                let k = choose|k: int|
                    #![trigger is_first_index_of(s@, ':', k)]
                    is_first_index_of(s@, ':', k) && id@ == s@.take(k) && secret@ == s@.skip(
                        k + 1,
                    );
                lemma_first_index_unique(s@, ':', i, k);
            }
            Ok(Credentials::Basic { client_id: id.to_owned(), secret: secret.to_owned() })
        },
        None => Err(AuthError::MalformedHeader),
    }
}

/// Read the credentials of an `Authorization` header value:
/// no header is `MissingHeader`; `Bearer <jwt>` (scheme in any ASCII case)
/// gives the token; `Basic <base64(id:secret)>` gives the client identifier
/// and secret; anything else is `MalformedHeader`.
pub fn parse_authorization(header: Option<&str>) -> (r: Result<Credentials, AuthError>)
    ensures
        credentials_outcome(r, spec_parse_authorization(opt_str_view(header))),
        header is None ==> r matches Err(AuthError::MissingHeader),
        header matches Some(h) ==> (spec_strip_scheme_prefix(h@, "Bearer"@) matches Some(t) ==> (
        r matches Ok(Credentials::Bearer(x)) && x@ == t)),
{
    let h = match header {
        Some(h) => h,
        None => return Err(AuthError::MissingHeader),
    };
    match strip_scheme_prefix(h, "Bearer") {
        Some(token) => Ok(Credentials::Bearer(token.to_owned())),
        None => match strip_scheme_prefix(h, "Basic") {
            Some(b64) => {
                let t = trim(b64);
                let decoded = base64_standard_decode(t.as_bytes());
                parse_basic_payload(decoded)
            },
            None => Err(AuthError::MalformedHeader),
        },
    }
}

/// The scheme is matched without regard to ASCII case: two headers whose
/// bytes differ only in the case of the scheme part yield the same credential.
pub proof fn lemma_scheme_case_insensitive(h1: Seq<char>, h2: Seq<char>, scheme: Seq<char>)
    requires
        encode_utf8(h1).len() == encode_utf8(h2).len(),
        encode_utf8(scheme).len() < encode_utf8(h1).len(),
        forall|i: int|
            0 <= i < encode_utf8(scheme).len() ==> ascii_lower(#[trigger] encode_utf8(h1)[i])
                == ascii_lower(encode_utf8(h2)[i]),
        encode_utf8(h1).skip(encode_utf8(scheme).len() as int) == encode_utf8(h2).skip(
            encode_utf8(scheme).len() as int,
        ),
    ensures
        spec_strip_scheme_prefix(h1, scheme) == spec_strip_scheme_prefix(h2, scheme),
{
    let b1 = encode_utf8(h1);
    let b2 = encode_utf8(h2);
    let sb = encode_utf8(scheme);
    let n = sb.len() as int;
    assert(b1[n] == b1.skip(n)[0]);
    assert(b2[n] == b2.skip(n)[0]);
    if eq_ignore_ascii_case(b1.take(n), sb) {
        assert forall|i: int| 0 <= i < n implies ascii_lower(b2.take(n)[i]) == ascii_lower(sb[i]) by {
            assert(b1.take(n)[i] == b1[i]);
            assert(b2.take(n)[i] == b2[i]);
        }
    }
    if eq_ignore_ascii_case(b2.take(n), sb) {
        assert forall|i: int| 0 <= i < n implies ascii_lower(b1.take(n)[i]) == ascii_lower(sb[i]) by {
            assert(b1.take(n)[i] == b1[i]);
            assert(b2.take(n)[i] == b2[i]);
        }
    }
}

/// A Basic payload `id:secret` whose identifier holds no `:` reads back as
/// that identifier and secret; the secret may itself hold `:`.
pub proof fn lemma_basic_payload_round_trip(id: Seq<char>, secret: Seq<char>)
    requires
        !id.contains(':'),
    ensures
        spec_basic_payload(Some(encode_utf8(id + seq![':'] + secret))) == Ok::<
            CredentialsView,
            AuthError,
        >(CredentialsView::Basic(id, secret)),
{
    let s = id + seq![':'] + secret;
    assert(decode_utf8(encode_utf8(s)) == s);
    assert(valid_utf8(encode_utf8(s)));
    let n = id.len() as int;
    assert(s[n] == ':');
    assert(is_first_index_of(s, ':', n)) by {
        assert forall|j: int| 0 <= j < n implies s[j] != ':' by {
            assert(s[j] == id[j]);
        }
    }
    assert(s.contains(':'));
    let i = choose|i: int| is_first_index_of(s, ':', i);
    lemma_first_index_unique(s, ':', i, n);
    assert(s.take(n) =~= id);
    assert(s.skip(n + 1) =~= secret);
}

/// A header that carries `Bearer ` in any ASCII case, followed by a
/// credential, reads as that bearer credential: whenever the scheme can be
/// stripped, the result is the bearer token it leaves.
pub proof fn lemma_bearer_header_reads_as_bearer(h: Seq<char>, t: Seq<char>)
    requires
        spec_strip_scheme_prefix(h, "Bearer"@) == Some(t),
    ensures
        spec_parse_authorization(Some(h)) == Ok::<CredentialsView, AuthError>(
            CredentialsView::Bearer(t),
        ),
{
}

/// Two bearer headers that differ only in the ASCII case of the scheme
/// read as the same credentials (`bearer x`, `BEARER x` and `Bearer x`
/// all give the bearer token `x`).
pub proof fn lemma_authorization_scheme_case_insensitive(h1: Seq<char>, h2: Seq<char>)
    requires
        encode_utf8(h1).len() == encode_utf8(h2).len(),
        encode_utf8("Bearer"@).len() < encode_utf8(h1).len(),
        forall|i: int|
            0 <= i < encode_utf8("Bearer"@).len() ==> ascii_lower(#[trigger] encode_utf8(h1)[i])
                == ascii_lower(encode_utf8(h2)[i]),
        encode_utf8(h1).skip(encode_utf8("Bearer"@).len() as int) == encode_utf8(h2).skip(
            encode_utf8("Bearer"@).len() as int,
        ),
        spec_strip_scheme_prefix(h1, "Bearer"@) is Some,
    ensures
        spec_parse_authorization(Some(h1)) == spec_parse_authorization(Some(h2)),
        spec_parse_authorization(Some(h2)) == Ok::<CredentialsView, AuthError>(
            CredentialsView::Bearer(spec_strip_scheme_prefix(h1, "Bearer"@)->0),
        ),
{
    lemma_scheme_case_insensitive(h1, h2, "Bearer"@);
    lemma_bearer_header_reads_as_bearer(h1, spec_strip_scheme_prefix(h1, "Bearer"@)->0);
    lemma_bearer_header_reads_as_bearer(h2, spec_strip_scheme_prefix(h2, "Bearer"@)->0);
}

} // verus!
