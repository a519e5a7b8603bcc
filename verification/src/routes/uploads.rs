//! File uploads: the storage quota, the stored name and the URL and
//! markdown handed back.

use vstd::prelude::*;
use crate::text;
use crate::util;

verus! {

/// Bytes in a megabyte, as the quota counts them.
pub const MB: i64 = 1048576;

/// The content types that are embedded as a bare link rather than an image.
pub open spec fn is_video(m: Seq<char>) -> bool {
    ||| m == "video/mp4"@
    ||| m == "video/webm"@
    ||| m == "video/ogg"@
    ||| m == "video/quicktime"@
    ||| m == "video/x-msvideo"@
    ||| m == "video/x-flv"@
    ||| m == "video/x-matroska"@
}

/// The content type of an upload: as sent, or `application/octet-stream`.
pub fn upload_mimetype(content_type: String) -> (r: String)
    ensures
        r@ == (if content_type@.len() == 0 {
            "application/octet-stream"@
        } else {
            content_type@
        }),
{
    if content_type.as_str().is_empty() {
        String::from_str("application/octet-stream")
    } else {
        content_type
    }
}

/// The quota of a user in bytes fits an `i64`.
pub open spec fn quota_fits(limit_mb: i64) -> bool {
    i64::MIN <= limit_mb * MB <= i64::MAX
}

/// Refuses a single file larger than the user's quota.
pub fn size_error(limit_mb: i64, file_size: i64) -> (r: Option<String>)
    requires
        quota_fits(limit_mb),
    ensures
        match r {
            Some(m) => file_size > limit_mb * MB && m@ == "File exceeds size limit of "@
                + text::signed_decimal(limit_mb as int) + "MB"@,
            None => file_size <= limit_mb * MB,
        },
{
    let limit_bytes = limit_mb * MB;
    if file_size > limit_bytes {
        let mut m = String::from_str("File exceeds size limit of ");
        text::push_signed(&mut m, limit_mb);
        m.append("MB");
        Some(m)
    } else {
        None
    }
}

/// `a / b` rounded toward zero, as Rust divides.
pub open spec fn div_trunc(a: int, b: int) -> int {
    if a >= 0 {
        a / b
    } else {
        -((-a) / b)
    }
}

fn div_mb(a: i64) -> (r: i64)
    ensures
        r == div_trunc(a as int, MB as int),
{
    if a >= 0 {
        a / MB
    } else {
        let q: i64 = (-(a + 1)) / MB;
        let rem: i64 = (-(a + 1)) % MB;
        if rem == MB - 1 {
            assert((-(a + 1)) + 1 == (q + 1) * MB) by (nonlinear_arith)
                requires
                    -(a + 1) == q * MB + rem,
                    rem == MB - 1,
            ;
            assert(-a == (q + 1) * MB);
            assert((-a) / (MB as int) == q + 1) by (nonlinear_arith)
                requires
                    -a == (q + 1) * MB,
            ;
            -(q + 1)
        } else {
            assert((-a) / (MB as int) == q) by (nonlinear_arith)
                requires
                    -(a + 1) == q * MB + rem,
                    0 <= rem < MB - 1,
            ;
            -q
        }
    }
}

/// Refuses a file that would take the user's stored total over the quota.
pub fn quota_error(limit_mb: i64, file_size: i64, used: i64) -> (r: Option<String>)
    requires
        quota_fits(limit_mb),
        i64::MIN <= used + file_size <= i64::MAX,
    ensures
        match r {
            Some(m) => used + file_size > limit_mb * MB && m@ == "Insufficient storage. Used: "@
                + text::signed_decimal(div_trunc(used as int, MB as int)) + "MB / "@
                + text::signed_decimal(limit_mb as int) + "MB"@,
            None => used + file_size <= limit_mb * MB,
        },
{
    let limit_bytes = limit_mb * MB;
    if used + file_size > limit_bytes {
        let mut m = String::from_str("Insufficient storage. Used: ");
        text::push_signed(&mut m, div_mb(used));
        m.append("MB / ");
        text::push_signed(&mut m, limit_mb);
        m.append("MB");
        Some(m)
    } else {
        None
    }
}

/// The name an upload is stored under: the sanitised `{uuid}_{original}`.
pub fn stored_name(uuid: &str, original: &str) -> (r: String)
    ensures
        r@ == util::secure_filename_spec(uuid@ + seq!['_'] + original@),
{
    let mut joined = String::from_str(uuid);
    text::string_push(&mut joined, '_');
    joined.append(original);
    assert(joined@ =~= uuid@ + seq!['_'] + original@);
    util::secure_filename(joined.as_str())
}

/// The public URL of a stored upload: `http://{domain}/uploads/{name}`.
pub fn upload_url(domain: &str, name: &str) -> (r: String)
    ensures
        r@ == "http://"@ + domain@ + "/uploads/"@ + name@,
{
    let mut r = String::from_str("http://");
    r.append(domain);
    r.append("/uploads/");
    r.append(name);
    r
}

/// Whether a content type is one of the video types.
pub fn video_type(mimetype: &str) -> (r: bool)
    ensures
        r == is_video(mimetype@),
{
    let m = String::from_str(mimetype);
    m.eq(&String::from_str("video/mp4")) || m.eq(&String::from_str("video/webm")) || m.eq(
        &String::from_str("video/ogg"),
    ) || m.eq(&String::from_str("video/quicktime")) || m.eq(&String::from_str("video/x-msvideo"))
        || m.eq(&String::from_str("video/x-flv")) || m.eq(&String::from_str("video/x-matroska"))
}

/// The video types are exactly `video/mp4`, `video/webm`, `video/ogg`,
/// `video/quicktime`, `video/x-msvideo`, `video/x-flv` and
/// `video/x-matroska`; an upload of one of them is posted as its bare URL,
/// any other as an embedded image.
pub proof fn lemma_video_markdown(m: Seq<char>, url: Seq<char>)
    ensures
        ({
            let listed = m == "video/mp4"@ || m == "video/webm"@ || m == "video/ogg"@ || m
                == "video/quicktime"@ || m == "video/x-msvideo"@ || m == "video/x-flv"@ || m
                == "video/x-matroska"@;
            &&& is_video(m) <==> listed
            &&& listed ==> (if is_video(m) { url } else { "![image]("@ + url + ")"@ }) == url
            &&& !listed ==> (if is_video(m) { url } else { "![image]("@ + url + ")"@ }) == "![image]("@
                + url + ")"@
        }),
{
}

/// The markdown for an upload: a video by its bare URL, anything else as an image.
pub fn upload_markdown(mimetype: &str, url: &str) -> (r: String)
    ensures
        r@ == (if is_video(mimetype@) {
            url@
        } else {
            "![image]("@ + url@ + ")"@
        }),
{
    if video_type(mimetype) {
        String::from_str(url)
    } else {
        let mut r = String::from_str("![image](");
        r.append(url);
        r.append(")");
        r
    }
}

/// The sum of some sizes.
pub open spec fn sum(s: Seq<i64>) -> int
    decreases s.len(),
{
    if s.len() == 0 {
        0
    } else {
        sum(s.drop_last()) + s.last()
    }
}

/// The total size of a user's uploads (every running total fits an `i64`,
/// as the summing `Iterator::sum` needs).
pub fn total_size(sizes: &Vec<i64>) -> (r: i64)
    requires
        forall|k: int| 0 <= k <= sizes@.len() ==> i64::MIN <= #[trigger] sum(sizes@.take(k)) <= i64::MAX,
    ensures
        r == sum(sizes@),
{
    let mut t: i64 = 0;
    let mut i: usize = 0;
    assert(sizes@.take(0) =~= Seq::<i64>::empty());
    while i < sizes.len()
        invariant
            i <= sizes@.len(),
            t == sum(sizes@.take(i as int)),
            forall|k: int| 0 <= k <= sizes@.len() ==> i64::MIN <= #[trigger] sum(sizes@.take(k)) <= i64::MAX,
        decreases sizes@.len() - i,
    {
        assert(sizes@.take(i + 1).drop_last() =~= sizes@.take(i as int));
        assert(i64::MIN <= sum(sizes@.take(i + 1)) <= i64::MAX);
        t = t + sizes[i];
        i = i + 1;
    }
    assert(sizes@.take(sizes@.len() as int) =~= sizes@);
    t
}

/// Who may delete an upload: only its uploader.
pub fn delete_refusal(found: bool, owner: &str, me: &str) -> (r: Option<&'static str>)
    ensures
        match r {
            None => found && owner@ == me@,
            Some(m) => if !found {
                m@ == "Upload not found"@
            } else {
                owner@ != me@ && m@ == "Cannot delete other user's uploads"@
            },
        },
{
    if !found {
        return Some("Upload not found");
    }
    if String::from_str(owner).eq(&String::from_str(me)) {
        None
    } else {
        Some("Cannot delete other user's uploads")
    }
}

} // verus!
