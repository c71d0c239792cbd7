use vstd::prelude::*;
use vstd::string::{StringExecFns, StringSliceAdditionalSpecFns};
use crate::error::{AppError, AppResult};
use crate::oss::{content_error, content_ok, validate_content, Channel};
use crate::profile::chars_equal;
use crate::text::{chars_of, slice_chars, trim, trim_chars};

verus! {

/// The MD5 digest of `data`, as `md5::compute` returns it.
pub uninterp spec fn md5_of(data: Seq<u8>) -> Seq<u8>;

/// The standard padded base64 encoding of `data`.
pub uninterp spec fn base64_of(data: Seq<u8>) -> Seq<char>;

/// The HMAC-SHA1 tag of `msg` under `key`.
pub uninterp spec fn hmac_sha1_of(key: Seq<u8>, msg: Seq<u8>) -> Seq<u8>;

/// Relies on `md5::compute`: the 16-byte MD5 digest of `data`.
#[verifier::external_body]
fn md5_digest(data: &[u8]) -> (r: Vec<u8>)
    ensures
        r@ == md5_of(data@),
        r@.len() == 16,
{
    md5::compute(data).0.to_vec()
}

/// Relies on base64's `Engine::encode` with the `STANDARD` engine.
#[verifier::external_body]
fn base64_encode(data: &[u8]) -> (r: String)
    ensures
        r@ == base64_of(data@),
{
    base64::Engine::encode(&base64::engine::general_purpose::STANDARD, data)
}

/// Relies on hmac's `Hmac<Sha1>` (`Mac::new_from_slice`, `update`,
/// `finalize`): the 20-byte HMAC-SHA1 tag. `new_from_slice` accepts a key of
/// any length for HMAC, so the `expect` never fires.
#[verifier::external_body]
fn hmac_sha1(key: &[u8], msg: &[u8]) -> (r: Vec<u8>)
    ensures
        r@ == hmac_sha1_of(key@, msg@),
        r@.len() == 20,
{
    let mut mac = <hmac::Hmac<sha1::Sha1> as hmac::Mac>::new_from_slice(key).expect(
        "HMAC accepts keys of any length",
    );
    hmac::Mac::update(&mut mac, msg);
    hmac::Mac::finalize(mac).into_bytes().to_vec()
}

/// The base64 text of the MD5 digest of `data` (the `Content-MD5` header).
pub fn md5_base64(data: &[u8]) -> (r: String)
    ensures
        r@ == base64_of(md5_of(data@)),
{
    let d = md5_digest(data);
    base64_encode(d.as_slice())
}

pub open spec fn bucket_host() -> Seq<char> {
    "Bucket.endpoint"@
}

pub open spec fn object_path_spec(c: Channel) -> Seq<char> {
    "hive2/dim/tmp_"@ + c.spec_name() + "_ids/"@ + c.spec_name() + ".txt"@
}

/// Where a channel's identifier list is stored in the bucket.
pub fn object_path(c: Channel) -> (r: String)
    ensures
        r@ == object_path_spec(c),
{
    let mut r = String::from_str("hive2/dim/tmp_");
    r.append(c.as_str());
    r.append("_ids/");
    r.append(c.as_str());
    r.append(".txt");
    r
}

pub open spec fn string_to_sign_spec(content_md5: Seq<char>, date: Seq<char>, c: Channel) -> Seq<char> {
    "PUT\n"@ + content_md5 + "\n"@ + "text/plain"@ + "\n"@ + date + "\n"@ + "/Bucket/"@
        + object_path_spec(c)
}

/// The canonical text that the request signature covers: verb, content MD5,
/// content type, date and the object's resource path, one per line.
pub fn string_to_sign(content_md5: &str, date: &str, c: Channel) -> (r: String)
    ensures
        r@ == string_to_sign_spec(content_md5@, date@, c),
{
    let mut r = String::from_str("PUT\n");
    r.append(content_md5);
    r.append("\n");
    r.append("text/plain");
    r.append("\n");
    r.append(date);
    r.append("\n");
    r.append("/Bucket/");
    let p = object_path(c);
    r.append(p.as_str());
    r
}

/// Everything the signed upload request carries.
pub struct UploadRequest {
    pub url: String,
    pub host: String,
    pub date: String,
    pub content_type: String,
    pub content_length: usize,
    pub content_md5: String,
    pub authorization: String,
}

/// The base64 HMAC-SHA1 signature of the request under `access_key`.
pub open spec fn signature_spec(access_key: &str, content: &str, date: Seq<char>, c: Channel) -> Seq<char> {
    base64_of(
        hmac_sha1_of(
            access_key.spec_bytes(),
            vstd::utf8::encode_utf8(
                string_to_sign_spec(base64_of(md5_of(content.spec_bytes())), date, c),
            ),
        ),
    )
}

/// Both credentials hold something other than whitespace.
pub open spec fn credentials_present(access_id: Seq<char>, access_key: Seq<char>) -> bool {
    trim(access_id).len() > 0 && trim(access_key).len() > 0
}

/// Checks the credentials and the content, then builds the signed request
/// that uploads `content` as the identifier list of channel `c`.
pub fn prepare_upload(access_id: &str, access_key: &str, content: &str, c: Channel, date: &str) -> (r: AppResult<UploadRequest>)
    ensures
        !credentials_present(access_id@, access_key@) ==> r == Err::<UploadRequest, AppError>(
            AppError::MissingCredentials,
        ),
        credentials_present(access_id@, access_key@) ==> (r is Ok <==> content_ok(content@)),
        credentials_present(access_id@, access_key@) ==> (r matches Err(e) ==> content_error(
            content@,
            e,
        )),
        r matches Ok(q) ==> {
            &&& q.host@ == bucket_host()
            &&& q.url@ == "https://"@ + bucket_host() + "/"@ + object_path_spec(c)
            &&& q.date@ == date@
            &&& q.content_type@ == "text/plain"@
            &&& q.content_length == content.spec_bytes().len()
            &&& q.content_md5@ == base64_of(md5_of(content.spec_bytes()))
            &&& q.authorization@ == "OSS "@ + access_id@ + ":"@ + signature_spec(access_key, content, date@, c)
        },
{
    let id = trim_chars(&chars_of(access_id));
    let key = trim_chars(&chars_of(access_key));
    if id.len() == 0 || key.len() == 0 {
        return Err(AppError::MissingCredentials);
    }
    match validate_content(content) {
        Err(e) => {
            return Err(e);
        },
        Ok(()) => {},
    }
    let content_md5 = md5_base64(content.as_bytes());
    let sts = string_to_sign(content_md5.as_str(), date, c);
    let tag = hmac_sha1(access_key.as_bytes(), sts.as_str().as_bytes());
    let signature = base64_encode(tag.as_slice());
    let mut authorization = String::from_str("OSS ");
    authorization.append(access_id);
    authorization.append(":");
    authorization.append(signature.as_str());
    let host = String::from_str("Bucket.endpoint");
    let mut url = String::from_str("https://");
    url.append(host.as_str());
    url.append("/");
    let p = object_path(c);
    url.append(p.as_str());
    Ok(UploadRequest {
        url,
        host,
        date: String::from_str(date),
        content_type: String::from_str("text/plain"),
        content_length: content.as_bytes().len(),
        content_md5,
        authorization,
    })
}

/// `p` occurs in `s`.
pub open spec fn has_substring(s: Seq<char>, p: Seq<char>) -> bool {
    exists|i: int| 0 <= i && i + p.len() <= s.len() && #[trigger] s.subrange(i, i + p.len()) == p
}

/// Whether `p` occurs in `s`.
pub fn contains_text(s: &str, p: &str) -> (r: bool)
    ensures
        r == has_substring(s@, p@),
{
    let cs = chars_of(s);
    let ps = chars_of(p);
    if ps.len() > cs.len() {
        return false;
    }
    let m = cs.len() - ps.len();
    let mut i: usize = 0;
    loop
        invariant
            cs@ == s@,
            ps@ == p@,
            ps@.len() <= cs@.len(),
            m == cs@.len() - ps@.len(),
            i <= m,
            forall|k: int| 0 <= k < i ==> #[trigger] s@.subrange(k, k + p@.len()) != p@,
        decreases m - i,
    {
        assert(i + ps@.len() <= cs@.len() && cs@.len() == cs.len() && ps@.len() == ps.len());
        let w = slice_chars(&cs, i, i + ps.len());
        if chars_equal(&w, &ps) {
            return true;
        }
        if i == m {
            proof {
                assert forall|k: int| 0 <= k && k + p@.len() <= s@.len() implies #[trigger] s@.subrange(k, k + p@.len()) != p@ by {
                    assert(k <= i);
                }
            }
            return false;
        }
        i = i + 1;
    }
}

pub open spec fn failure_kind(error_text: Seq<char>) -> AppError {
    if has_substring(error_text, "InvalidAccessKeyId"@) {
        AppError::InvalidAccessId
    } else if has_substring(error_text, "SignatureDoesNotMatch"@) {
        AppError::SignatureMismatch
    } else if has_substring(error_text, "NetworkingError"@) || has_substring(
        error_text,
        "Connection refused"@,
    ) {
        AppError::NetworkError
    } else {
        AppError::UploadFailed
    }
}

/// Classifies the storage service's error response.
pub fn classify_upload_failure(error_text: &str) -> (r: AppError)
    ensures
        r == failure_kind(error_text@),
{
    if contains_text(error_text, "InvalidAccessKeyId") {
        AppError::InvalidAccessId
    } else if contains_text(error_text, "SignatureDoesNotMatch") {
        AppError::SignatureMismatch
    } else if contains_text(error_text, "NetworkingError") || contains_text(error_text, "Connection refused") {
        AppError::NetworkError
    } else {
        AppError::UploadFailed
    }
}

/// The confirmation shown after a successful upload.
pub fn upload_success_message(c: Channel) -> (r: String)
    ensures
        r@ == "成功上传到 OSS 路径: "@ + bucket_host() + "/"@ + object_path_spec(c),
{
    let mut r = String::from_str("成功上传到 OSS 路径: ");
    r.append("Bucket.endpoint");
    r.append("/");
    let p = object_path(c);
    r.append(p.as_str());
    r
}

} // verus!
