//! The pure heart of the signed transport: the canonical signing input
//! and its HMAC-SHA1 signature, the body-integrity check against the
//! declared content MD5, status classification, and the interpretation
//! of a response body into a success or a classified error.

use vstd::prelude::*;
use vstd::utf8::{encode_utf8, decode_utf8, valid_utf8};
use vstd::string::StringExecFns;
use crate::error::{Error, ErrorCode, spec_service_error_kind, service_error_kind};
use crate::strings::str_eq;
use crate::protocol::{decode_pb_error, dec_pb_error};

verus! {

/// What the MD5 of a byte sequence is; decided by the bytes alone.
pub uninterp spec fn md5_of(s: Seq<u8>) -> Seq<u8>;

/// What the HMAC-SHA1 of a message under a key is; decided by the
/// arguments alone.
pub uninterp spec fn hmac_sha1_of(key: Seq<u8>, data: Seq<u8>) -> Seq<u8>;

/// What the standard padded base64 rendering of a byte sequence is;
/// decided by the bytes alone.
pub uninterp spec fn base64_of(s: Seq<u8>) -> Seq<char>;

/// What the RFC3339 rendering of an instant is; decided by the instant
/// alone.
pub uninterp spec fn rfc3339_of(secs: i64, nsecs: u32) -> Seq<char>;

/// Relies on `crypto::md5::Md5` through the `Digest` interface: the
/// 16-byte MD5 digest of the input.
#[verifier::external_body]
fn md5_digest(data: &[u8]) -> (r: Vec<u8>)
    ensures
        r@ == md5_of(data@),
        r@.len() == 16,
{
    let mut ctx = crypto::md5::Md5::new();
    crypto::digest::Digest::input(&mut ctx, data);
    let mut out = [0u8; 16];
    crypto::digest::Digest::result(&mut ctx, &mut out);
    out.to_vec()
}

/// Relies on `crypto::hmac::Hmac` over `crypto::sha1::Sha1` through the
/// `Mac` interface: the 20-byte HMAC-SHA1 of the input under the key.
#[verifier::external_body]
fn hmac_sha1(key: &[u8], data: &[u8]) -> (r: Vec<u8>)
    ensures
        r@ == hmac_sha1_of(key@, data@),
        r@.len() == 20,
{
    let mut h = crypto::hmac::Hmac::new(crypto::sha1::Sha1::new(), key);
    crypto::mac::Mac::input(&mut h, data);
    crypto::mac::Mac::result(&mut h).code().to_vec()
}

/// Relies on `base64::encode`: the standard padded base64 rendering of
/// the input.
#[verifier::external_body]
fn base64_encode(data: &[u8]) -> (r: String)
    ensures
        r@ == base64_of(data@),
{
    base64::encode(data)
}

/// Relies on `chrono::DateTime::from_timestamp` and the RFC3339 `Debug`
/// rendering of a UTC instant.  The range bound keeps the instant where
/// the calendar is defined, so the conversion cannot fail.
#[verifier::external_body]
fn rfc3339_render(secs: i64, nsecs: u32) -> (r: String)
    requires
        0 <= secs < 253402300800,
        nsecs < 1_000_000_000,
    ensures
        r@ == rfc3339_of(secs, nsecs),
{
    let tm = chrono::DateTime::<chrono::Utc>::from_timestamp(secs, nsecs).unwrap();
    format!("{:?}", tm)
}

/// The base64 MD5 of a request or response body, as carried in the
/// content-MD5 header.
pub fn content_md5(body: &[u8]) -> (r: String)
    ensures
        r@ == base64_of(md5_of(body@)),
{
    let digest = md5_digest(body);
    base64_encode(digest.as_slice())
}

/// The RFC3339 request date for a given instant in microseconds since
/// the Unix epoch, at microsecond precision; instants outside the
/// calendar's range are clamped to its origin.
pub fn request_date(micros: i64) -> (r: String)
    ensures
        micros < 0 || micros >= 253402300800000000 ==> r@ == rfc3339_of(0i64, 0u32),
        0 <= micros < 253402300800000000 ==> r@ == rfc3339_of(
            (micros / 1000000) as i64,
            (micros % 1000000 * 1000) as u32,
        ),
{
    if micros < 0 || micros >= 253402300800000000 {
        rfc3339_render(0, 0)
    } else {
        let secs = micros / 1000000;
        let nsecs = (micros % 1000000 * 1000) as u32;
        rfc3339_render(secs, nsecs)
    }
}

/// The signing headers in ascending name order: api version, access-key
/// id, the optional session token, instance name, request date, and the
/// body's base64 MD5.
pub open spec fn spec_signing_pairs(
    id: Seq<u8>,
    token: Option<Seq<u8>>,
    instance: Seq<char>,
    date: Seq<char>,
    md5: Seq<char>,
) -> Seq<(Seq<u8>, Seq<u8>)> {
    let base = seq![
        (encode_utf8("x-ots-accesskeyid"@), id),
        (encode_utf8("x-ots-apiversion"@), encode_utf8("2015-12-31"@)),
        (encode_utf8("x-ots-contentmd5"@), encode_utf8(md5)),
        (encode_utf8("x-ots-date"@), encode_utf8(date)),
        (encode_utf8("x-ots-instancename"@), encode_utf8(instance)),
    ];
    match token {
        Some(t) => base.push((encode_utf8("x-ots-ststoken"@), t)),
        None => base,
    }
}

/// The canonical signing input: the URL path, a fixed method block, and
/// each signing header rendered as `name:value` plus a newline, in the
/// order given.
pub open spec fn spec_sig_input(path: Seq<char>, pairs: Seq<(Seq<u8>, Seq<u8>)>) -> Seq<u8> {
    encode_utf8(path) + spec_post_block() + spec_pairs_bytes(pairs)
}

/// The fixed method block between the path and the headers: a newline,
/// `POST`, and two newlines.
pub open spec fn spec_post_block() -> Seq<u8> {
    seq![10u8, 80u8, 79u8, 83u8, 84u8, 10u8, 10u8]
}

/// The signing headers rendered one after the other.
pub open spec fn spec_pairs_bytes(pairs: Seq<(Seq<u8>, Seq<u8>)>) -> Seq<u8>
    decreases pairs.len(),
{
    if pairs.len() == 0 {
        Seq::<u8>::empty()
    } else {
        pairs[0].0 + seq![58u8] + pairs[0].1 + seq![10u8] + spec_pairs_bytes(pairs.drop_first())
    }
}

/// Appending one header pair appends its rendering.
proof fn lemma_pairs_bytes_push(pairs: Seq<(Seq<u8>, Seq<u8>)>, p: (Seq<u8>, Seq<u8>))
    ensures
        spec_pairs_bytes(pairs.push(p)) == spec_pairs_bytes(pairs) + (p.0 + seq![58u8] + p.1
            + seq![10u8]),
    decreases pairs.len(),
{
    let one = p.0 + seq![58u8] + p.1 + seq![10u8];
    if pairs.len() == 0 {
        assert(pairs.push(p)[0] == p);
        assert(pairs.push(p).drop_first() =~= Seq::<(Seq<u8>, Seq<u8>)>::empty());
        assert(spec_pairs_bytes(Seq::<(Seq<u8>, Seq<u8>)>::empty()) == Seq::<u8>::empty());
        assert(one + Seq::<u8>::empty() =~= one);
        assert(Seq::<u8>::empty() + one =~= one);
    } else {
        assert(pairs.push(p)[0] == pairs[0]);
        assert(pairs.push(p).drop_first() =~= pairs.drop_first().push(p));
        lemma_pairs_bytes_push(pairs.drop_first(), p);
        let head = pairs[0].0 + seq![58u8] + pairs[0].1 + seq![10u8];
        assert(head + (spec_pairs_bytes(pairs.drop_first()) + one) =~= (head + spec_pairs_bytes(
            pairs.drop_first(),
        )) + one);
    }
}

/// Builds the signing headers for a request, in ascending name order.
pub fn build_signing_pairs(
    cred_id: &Vec<u8>,
    token: &Option<Vec<u8>>,
    instance: &str,
    date: &str,
    md5: &str,
) -> (r: Vec<(Vec<u8>, Vec<u8>)>)
    ensures
        r.deep_view() == spec_signing_pairs(cred_id@, token.deep_view(), instance@, date@, md5@),
{
    let mut out: Vec<(Vec<u8>, Vec<u8>)> = Vec::new();
    out.push((str_bytes("x-ots-accesskeyid"), crate::strings::clone_bytes(cred_id)));
    out.push((str_bytes("x-ots-apiversion"), str_bytes("2015-12-31")));
    out.push((str_bytes("x-ots-contentmd5"), str_bytes_of(md5)));
    out.push((str_bytes("x-ots-date"), str_bytes_of(date)));
    out.push((str_bytes("x-ots-instancename"), str_bytes_of(instance)));
    match token {
        Some(t) => {
            out.push((str_bytes("x-ots-ststoken"), crate::strings::clone_bytes(t)));
        },
        None => (),
    }
    proof {
        assert(out.deep_view() =~~= spec_signing_pairs(
            cred_id@,
            token.deep_view(),
            instance@,
            date@,
            md5@,
        ));
    }
    out
}

/// The UTF-8 bytes of a string slice, as an owned vector.
fn str_bytes_of(s: &str) -> (r: Vec<u8>)
    ensures
        r@ == encode_utf8(s@),
{
    vstd::slice::slice_to_vec(s.as_bytes())
}

/// The UTF-8 bytes of a header-name literal.
fn str_bytes(s: &str) -> (r: Vec<u8>)
    ensures
        r@ == encode_utf8(s@),
{
    str_bytes_of(s)
}

/// Builds the canonical signing input for a request.
pub fn build_sig_input(path: &str, pairs: &Vec<(Vec<u8>, Vec<u8>)>) -> (r: Vec<u8>)
    ensures
        r@ == spec_sig_input(path@, pairs.deep_view()),
{
    let ghost dv = pairs.deep_view();
    let mut out: Vec<u8> = Vec::new();
    let path_bytes = path.as_bytes();
    let mut i: usize = 0;
    while i < path_bytes.len()
        invariant
            i <= path_bytes@.len(),
            out@ =~= path_bytes@.take(i as int),
        decreases path_bytes@.len() - i,
    {
        out.push(path_bytes[i]);
        i = i + 1;
        proof {
            assert(out@ =~= path_bytes@.take(i as int));
        }
    }
    proof {
        assert(path_bytes@.take(path_bytes@.len() as int) =~= path_bytes@);
    }
    out.push(10u8);
    out.push(80u8);
    out.push(79u8);
    out.push(83u8);
    out.push(84u8);
    out.push(10u8);
    out.push(10u8);
    proof {
        assert(out@ =~= encode_utf8(path@) + spec_post_block());
        assert(dv.take(0) =~= Seq::<(Seq<u8>, Seq<u8>)>::empty());
        assert(out@ + spec_pairs_bytes(dv.take(0)) =~= out@);
    }
    let mut j: usize = 0;
    while j < pairs.len()
        invariant
            j <= pairs@.len(),
            dv == pairs.deep_view(),
            dv.len() == pairs@.len(),
            out@ =~= encode_utf8(path@) + spec_post_block() + spec_pairs_bytes(dv.take(j as int)),
        decreases pairs@.len() - j,
    {
        let ghost out0 = out@;
        let name = &pairs[j].0;
        let value = &pairs[j].1;
        let mut k: usize = 0;
        while k < name.len()
            invariant
                k <= name@.len(),
                out@ =~= out0 + name@.take(k as int),
            decreases name@.len() - k,
        {
            out.push(name[k]);
            k = k + 1;
            proof {
                assert(out@ =~= out0 + name@.take(k as int));
            }
        }
        out.push(58u8);
        let ghost out1 = out@;
        let mut m: usize = 0;
        while m < value.len()
            invariant
                m <= value@.len(),
                out@ =~= out1 + value@.take(m as int),
            decreases value@.len() - m,
        {
            out.push(value[m]);
            m = m + 1;
            proof {
                assert(out@ =~= out1 + value@.take(m as int));
            }
        }
        out.push(10u8);
        j = j + 1;
        proof {
            assert(name@.take(name@.len() as int) =~= name@);
            assert(value@.take(value@.len() as int) =~= value@);
            assert(dv.take(j as int) =~= dv.take(j as int - 1).push(dv[j - 1]));
            lemma_pairs_bytes_push(dv.take(j as int - 1), dv[j - 1]);
            assert(dv[j - 1].0 == name@);
            assert(dv[j - 1].1 == value@);
            assert(out@ =~= encode_utf8(path@) + spec_post_block() + spec_pairs_bytes(
                dv.take(j as int),
            ));
        }
    }
    proof {
        assert(dv.take(dv.len() as int) =~= dv);
    }
    out
}

/// Signs a request: the base64 HMAC-SHA1 of the canonical signing input
/// under the shared secret, as carried in the signature header.
pub fn sign_request(path: &str, pairs: &Vec<(Vec<u8>, Vec<u8>)>, secret: &[u8]) -> (r: String)
    ensures
        r@ == base64_of(hmac_sha1_of(secret@, spec_sig_input(path@, pairs.deep_view()))),
{
    let input = build_sig_input(path, pairs);
    let mac = hmac_sha1(secret, input.as_slice());
    base64_encode(mac.as_slice())
}

/// How a response status is classified: success, the 502 middle-tier
/// failure, or a service-level error.
#[derive(Debug, Clone, Copy, PartialEq, Eq, Structural)]
pub enum StatusKind {
    Success,
    ErrorFromService,
    ErrorFromMiddle,
}

/// The status classification: 2xx is success, 502 the middle tier, any
/// other status a service error.
pub open spec fn spec_classify_status(status: u16) -> StatusKind {
    if 200 <= status < 300 {
        StatusKind::Success
    } else if status == 502 {
        StatusKind::ErrorFromMiddle
    } else {
        StatusKind::ErrorFromService
    }
}

/// Classifies a response status.
pub fn classify_status(status: u16) -> (r: StatusKind)
    ensures
        r == spec_classify_status(status),
{
    if 200 <= status && status < 300 {
        StatusKind::Success
    } else if status == 502 {
        StatusKind::ErrorFromMiddle
    } else {
        StatusKind::ErrorFromService
    }
}

/// Whether a declared content MD5 matches the body actually received;
/// an absent declaration passes.
pub open spec fn spec_body_md5_ok(declared: Option<Seq<char>>, body: Seq<u8>) -> bool {
    match declared {
        Some(d) => d == base64_of(md5_of(body)),
        None => true,
    }
}

/// Interprets a response: a body whose MD5 disagrees with the declared
/// content MD5 fails as corrupted before any decode; then a 2xx status
/// hands the body out for decoding, a 502 becomes the middle-tier error
/// carrying the body's text, and any other status is decoded as the
/// service's structured error payload and mapped to its kind.
pub fn interpret_response(status: u16, declared_md5: &Option<String>, body: Vec<u8>) -> (r: Result<
    Vec<u8>,
    Error,
>)
    ensures
        !spec_body_md5_ok(declared_md5.deep_view(), body@) ==> (r matches Err(e) && e.code
            == ErrorCode::CorruptedResponse),
        spec_body_md5_ok(declared_md5.deep_view(), body@) ==> match spec_classify_status(status) {
            StatusKind::Success => r matches Ok(b) && b@ == body@,
            StatusKind::ErrorFromMiddle => r matches Err(e) && e.code
                == ErrorCode::OTSServerUnavailable && (valid_utf8(body@) ==> e.message@
                == decode_utf8(body@)) && (!valid_utf8(body@) ==> e.message@
                == "middle-tier response body is not UTF-8"@),
            StatusKind::ErrorFromService => r matches Err(e) && (match dec_pb_error(
                body@,
                Seq::<char>::empty(),
                None,
            ) {
                Some((c, _)) => e.code == spec_service_error_kind(c),
                None => e.code == ErrorCode::CorruptedResponse,
            }),
        },
{
    match declared_md5 {
        Some(d) => {
            let actual = content_md5(body.as_slice());
            if !str_eq(d.as_str(), actual.as_str()) {
                return Err(
                    Error {
                        code: ErrorCode::CorruptedResponse,
                        message: String::from_str("Got a response, with corrupted body."),
                    },
                );
            }
        },
        None => (),
    }
    match classify_status(status) {
        StatusKind::Success => Ok(body),
        StatusKind::ErrorFromMiddle => {
            let message = match crate::strings::string_from_utf8(body) {
                Some(m) => m,
                None => String::from_str("middle-tier response body is not UTF-8"),
            };
            Err(Error { code: ErrorCode::OTSServerUnavailable, message })
        },
        StatusKind::ErrorFromService => {
            match decode_pb_error(body.as_slice()) {
                Ok((code, msg)) => {
                    let kind = service_error_kind(code.as_str());
                    let message = match msg {
                        Some(m) => m,
                        None => String::new(),
                    };
                    Err(Error { code: kind, message })
                },
                Err(e) => Err(e),
            }
        },
    }
}

} // verus!
