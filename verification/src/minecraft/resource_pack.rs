//! Vanilla-compatible server resource-pack acknowledgement.
//!
//! Textures are not rendered here. The offered archive is still downloaded,
//! held to a size and time bound and to its optional SHA-1, and the same state
//! sequence as the vanilla client's is reported.
use crate::minecraft::nbt::Nbt;
use crate::minecraft::text::to_chars;
use crate::text_build::{push_char, same_text};
use sha1::{Digest, Sha1};
use vstd::prelude::*;

verus! {

pub const STATUS_SUCCESSFULLY_LOADED: i32 = 0;

pub const STATUS_DECLINED: i32 = 1;

pub const STATUS_FAILED_DOWNLOAD: i32 = 2;

pub const STATUS_ACCEPTED: i32 = 3;

pub const STATUS_DOWNLOADED: i32 = 4;

pub const STATUS_INVALID_URL: i32 = 5;

/// The largest archive that is accepted: a hundred mebibytes.
pub const MAX_RESOURCE_PACK_BYTES: u64 = 104_857_600;

/// How long a download may take, in seconds.
pub const DOWNLOAD_TIMEOUT_SECONDS: u64 = 60;

/// How many redirections a download may follow.
pub const MAX_REDIRECTS: usize = 5;

/// An archive that the server offers.
#[derive(Debug)]
pub struct PacketCommonAddResourcePack {
    pub uuid: u128,
    pub url: String,
    pub hash: String,
    pub forced: bool,
    pub prompt_message: Option<Nbt>,
}

/// The state of an offer, as the client reports it.
#[derive(Debug, Clone, Copy, PartialEq, Eq, Structural)]
pub struct PacketResourcePackReceive {
    pub uuid: u128,
    pub result: i32,
}

/// Why a download failed.
#[derive(Debug, Clone, Copy, PartialEq, Eq, Structural)]
pub enum Failure {
    ClientInitialization,
    Request,
    Status,
    MissingContentLength,
    TooLarge,
    Body,
    InvalidSize,
    InvalidSha1Field,
    Sha1Mismatch,
}

/// What was wrong with an offer.
#[derive(Debug, Clone, Copy, PartialEq, Eq, Structural)]
pub enum DownloadFailure {
    InvalidUrl,
    Failed(Failure),
}

impl Failure {
    /// What a failure is called.
    pub open spec fn text(self) -> Seq<char> {
        match self {
            Failure::ClientInitialization => "HTTP client initialization"@,
            Failure::Request => "HTTP request"@,
            Failure::Status => "HTTP status"@,
            Failure::MissingContentLength => "missing Content-Length"@,
            Failure::TooLarge => "pack exceeds 100 MiB limit"@,
            Failure::Body => "response body"@,
            Failure::InvalidSize => "invalid response size"@,
            Failure::InvalidSha1Field => "invalid SHA-1 field"@,
            Failure::Sha1Mismatch => "SHA-1 mismatch"@,
        }
    }

    /// What a failure is called.
    pub fn reason(self) -> (s: &'static str)
        ensures
            s@ == self.text(),
    {
        match self {
            Failure::ClientInitialization => "HTTP client initialization",
            Failure::Request => "HTTP request",
            Failure::Status => "HTTP status",
            Failure::MissingContentLength => "missing Content-Length",
            Failure::TooLarge => "pack exceeds 100 MiB limit",
            Failure::Body => "response body",
            Failure::InvalidSize => "invalid response size",
            Failure::InvalidSha1Field => "invalid SHA-1 field",
            Failure::Sha1Mismatch => "SHA-1 mismatch",
        }
    }
}

/// How a download ended.
#[derive(Debug, Clone, Copy, PartialEq, Eq, Structural)]
pub enum Download {
    /// This many bytes came.
    Done(u64),
    Failed(DownloadFailure),
    TimedOut,
}

/// What is reported once a download has ended.
pub open spec fn statuses_after(download: Download) -> Seq<i32> {
    match download {
        Download::Done(_) => seq![STATUS_DOWNLOADED, STATUS_SUCCESSFULLY_LOADED],
        Download::Failed(DownloadFailure::InvalidUrl) => seq![STATUS_INVALID_URL],
        Download::Failed(DownloadFailure::Failed(_)) => seq![STATUS_FAILED_DOWNLOAD],
        Download::TimedOut => seq![STATUS_FAILED_DOWNLOAD],
    }
}

/// All that is reported of an offer.
pub open spec fn all_statuses(accept: bool, download: Download) -> Seq<i32> {
    if accept {
        seq![STATUS_ACCEPTED] + statuses_after(download)
    } else {
        seq![STATUS_DECLINED]
    }
}

/// The first report on an offer; a download follows only where packs are
/// accepted.
pub fn answer_offer(pack: &PacketCommonAddResourcePack, accept_resource_packs: bool) -> (r:
    PacketResourcePackReceive)
    ensures
        r == (PacketResourcePackReceive {
            uuid: pack.uuid,
            result: if accept_resource_packs {
                STATUS_ACCEPTED
            } else {
                STATUS_DECLINED
            },
        }),
{
    PacketResourcePackReceive {
        uuid: pack.uuid,
        result: if accept_resource_packs {
            STATUS_ACCEPTED
        } else {
            STATUS_DECLINED
        },
    }
}

/// Reports on one archive.
pub open spec fn reports(uuid: u128, statuses: Seq<i32>) -> Seq<PacketResourcePackReceive> {
    Seq::new(statuses.len(), |i: int| PacketResourcePackReceive { uuid, result: statuses[i] })
}

/// The reports that follow a download.
pub fn report_download(uuid: u128, download: Download) -> (r: Vec<PacketResourcePackReceive>)
    ensures
        r@ == reports(uuid, statuses_after(download)),
{
    let mut out: Vec<PacketResourcePackReceive> = Vec::new();
    match download {
        Download::Done(_) => {
            out.push(PacketResourcePackReceive { uuid, result: STATUS_DOWNLOADED });
            out.push(PacketResourcePackReceive { uuid, result: STATUS_SUCCESSFULLY_LOADED });
        },
        Download::Failed(DownloadFailure::InvalidUrl) => {
            out.push(PacketResourcePackReceive { uuid, result: STATUS_INVALID_URL });
        },
        Download::Failed(DownloadFailure::Failed(_)) => {
            out.push(PacketResourcePackReceive { uuid, result: STATUS_FAILED_DOWNLOAD });
        },
        Download::TimedOut => {
            out.push(PacketResourcePackReceive { uuid, result: STATUS_FAILED_DOWNLOAD });
        },
    }
    assert(out@ =~= reports(uuid, statuses_after(download)));
    out
}

/// A declined offer has one report. Of an accepted one the first says so, the
/// last says how it ended, and it counts as loaded only where the download
/// succeeded.
pub proof fn law_every_offer_is_answered(accept: bool, download: Download)
    ensures
        !accept ==> all_statuses(accept, download) =~= seq![STATUS_DECLINED],
        accept ==> all_statuses(accept, download)[0] == STATUS_ACCEPTED,
        accept ==> (all_statuses(accept, download).last() == STATUS_SUCCESSFULLY_LOADED
            <==> download is Done),
{
}

/// What `url::Url::parse` makes of a text, as far as it is asked for: the
/// scheme, and whether there is a host.
pub uninterp spec fn parsed_url(url: Seq<char>) -> Option<(Seq<char>, bool)>;

/// `reqwest::Url::parse` reads a URL; of what it reads, the scheme and whether
/// it has a host are handed over. Both depend on the text alone, and are what
/// [`parsed_url`] names.
#[verifier::external_body]
fn parse_url(url: &str) -> (r: Option<(String, bool)>)
    ensures
        match (r, parsed_url(url@)) {
            (Some((scheme, host)), Some((s, h))) => scheme@ == s && host == h,
            (None, None) => true,
            _ => false,
        },
{
    match reqwest::Url::parse(url) {
        Ok(url) => Some((url.scheme().to_string(), url.host_str().is_some())),
        Err(_) => None,
    }
}

/// A place to download from: it speaks HTTP and has a host.
pub open spec fn is_web(scheme: Seq<char>, host: bool) -> bool {
    (scheme == "http"@ || scheme == "https"@) && host
}

/// Whether a scheme and a host make a place to download from.
pub fn is_web_address(scheme: &str, host: bool) -> (b: bool)
    ensures
        b == is_web(scheme@, host),
{
    (same_text(scheme, "http") || same_text(scheme, "https")) && host
}

/// Checks that an archive's URL is a place to download from.
pub fn check_url(url: &str) -> (res: Result<(), DownloadFailure>)
    ensures
        match res {
            Ok(_) => parsed_url(url@) matches Some((scheme, host)) && is_web(scheme, host),
            Err(e) => e == DownloadFailure::InvalidUrl && !(parsed_url(url@) matches Some(
                (scheme, host),
            ) && is_web(scheme, host)),
        },
{
    match parse_url(url) {
        Some((scheme, host)) => if is_web_address(scheme.as_str(), host) {
            Ok(())
        } else {
            Err(DownloadFailure::InvalidUrl)
        },
        None => Err(DownloadFailure::InvalidUrl),
    }
}

/// Checks the head of a response: it succeeded and declares a size within the
/// bound, which is handed back.
pub fn check_response(success: bool, content_length: Option<u64>) -> (res: Result<
    u64,
    DownloadFailure,
>)
    ensures
        res == (if !success {
            Err::<u64, DownloadFailure>(DownloadFailure::Failed(Failure::Status))
        } else {
            match content_length {
                None => Err(DownloadFailure::Failed(Failure::MissingContentLength)),
                Some(n) => if n > MAX_RESOURCE_PACK_BYTES {
                    Err(DownloadFailure::Failed(Failure::TooLarge))
                } else {
                    Ok(n)
                },
            }
        }),
{
    if !success {
        return Err(DownloadFailure::Failed(Failure::Status));
    }
    match content_length {
        None => Err(DownloadFailure::Failed(Failure::MissingContentLength)),
        Some(n) => if n > MAX_RESOURCE_PACK_BYTES {
            Err(DownloadFailure::Failed(Failure::TooLarge))
        } else {
            Ok(n)
        },
    }
}

/// The SHA-1 of bytes.
pub uninterp spec fn sha1_of(bytes: Seq<u8>) -> Seq<u8>;

/// `sha1::Sha1::digest` hashes bytes: twenty bytes, which depend on the input
/// alone and are what [`sha1_of`] names.
#[verifier::external_body]
fn sha1_digest(bytes: &[u8]) -> (digest: Vec<u8>)
    ensures
        digest@ == sha1_of(bytes@),
        digest@.len() == 20,
{
    Sha1::digest(bytes).to_vec()
}

/// Unicode's white space.
pub open spec fn is_space(c: char) -> bool {
    let n = c as u32;
    ||| 0x09 <= n <= 0x0D
    ||| n == 0x20
    ||| n == 0x85
    ||| n == 0xA0
    ||| n == 0x1680
    ||| 0x2000 <= n <= 0x200A
    ||| n == 0x2028
    ||| n == 0x2029
    ||| n == 0x202F
    ||| n == 0x205F
    ||| n == 0x3000
}

/// A text without the white space at its end.
pub open spec fn trimmed_end(s: Seq<char>) -> Seq<char>
    decreases s.len(),
{
    if s.len() > 0 && is_space(s.last()) {
        trimmed_end(s.drop_last())
    } else {
        s
    }
}

/// A text without the white space at its start.
pub open spec fn trimmed_start(s: Seq<char>) -> Seq<char>
    decreases s.len(),
{
    if s.len() > 0 && is_space(s[0]) {
        trimmed_start(s.drop_first())
    } else {
        s
    }
}

/// A text without the white space at either end.
pub open spec fn trimmed(s: Seq<char>) -> Seq<char> {
    trimmed_end(trimmed_start(s))
}

fn space(c: char) -> (b: bool)
    ensures
        b == is_space(c),
{
    let n: u32 = c as u32;
    (0x09 <= n && n <= 0x0D) || n == 0x20 || n == 0x85 || n == 0xA0 || n == 0x1680 || (0x2000 <= n
        && n <= 0x200A) || n == 0x2028 || n == 0x2029 || n == 0x202F || n == 0x205F || n == 0x3000
}

/// Takes the white space off both ends of a text.
pub fn trim(s: &str) -> (t: String)
    ensures
        t@ == trimmed(s@),
{
    let chars = to_chars(s);
    let mut start: usize = 0;
    assert(chars@.skip(0) =~= s@);
    while start < chars.len() && space(chars[start])
        invariant
            start <= chars@.len(),
            trimmed_start(chars@.skip(start as int)) == trimmed_start(s@),
        decreases chars@.len() - start,
    {
        assert(chars@.skip(start as int).drop_first() =~= chars@.skip(start + 1));
        start += 1;
    }
    let mut end: usize = chars.len();
    let ghost front = chars@.skip(start as int);
    assert(chars@.subrange(start as int, end as int) =~= front);
    while start < end && space(chars[end - 1])
        invariant
            start <= end <= chars@.len(),
            trimmed_end(chars@.subrange(start as int, end as int)) == trimmed_end(front),
        decreases end,
    {
        assert(chars@.subrange(start as int, end as int).drop_last() =~= chars@.subrange(
            start as int,
            end - 1,
        ));
        end -= 1;
    }
    let mut out: String = String::new();
    let mut i: usize = start;
    while i < end
        invariant
            start <= i <= end <= chars@.len(),
            out@ == chars@.subrange(start as int, i as int),
        decreases end - i,
    {
        push_char(&mut out, chars[i]);
        assert(out@ =~= chars@.subrange(start as int, i + 1));
        i += 1;
    }
    out
}

/// The value of a hexadecimal digit, in either case.
pub open spec fn hex_value(c: char) -> Option<u8> {
    if '0' <= c <= '9' {
        Some((c as u32 - 48) as u8)
    } else if 'a' <= c <= 'f' {
        Some((c as u32 - 87) as u8)
    } else if 'A' <= c <= 'F' {
        Some((c as u32 - 55) as u8)
    } else {
        None
    }
}

fn hex_digit_value(c: char) -> (v: Option<u8>)
    ensures
        v == hex_value(c),
        v matches Some(v) ==> v < 16,
{
    if '0' <= c && c <= '9' {
        Some((c as u32 - 48) as u8)
    } else if 'a' <= c && c <= 'f' {
        Some((c as u32 - 87) as u8)
    } else if 'A' <= c && c <= 'F' {
        Some((c as u32 - 55) as u8)
    } else {
        None
    }
}

/// A SHA-1 in writing: forty hexadecimal digits.
pub open spec fn is_sha1_text(s: Seq<char>) -> bool {
    s.len() == 40 && forall|i: int| 0 <= i < s.len() ==> hex_value(#[trigger] s[i]) is Some
}

/// Whether forty hexadecimal digits write these bytes.
pub open spec fn writes_bytes(s: Seq<char>, bytes: Seq<u8>) -> bool {
    &&& s.len() == 2 * bytes.len()
    &&& forall|i: int|
        0 <= i < bytes.len() ==> #[trigger] bytes[i] == 16 * hex_value(s[2 * i])->0 + hex_value(
            s[2 * i + 1],
        )->0
}

/// The verdict on a digest: an empty field asks for nothing.
pub open spec fn digest_verdict(field: Seq<char>, digest: Seq<u8>) -> Result<
    (),
    DownloadFailure,
> {
    if field.len() == 0 {
        Ok(())
    } else if !is_sha1_text(field) {
        Err(DownloadFailure::Failed(Failure::InvalidSha1Field))
    } else if !writes_bytes(field, digest) {
        Err(DownloadFailure::Failed(Failure::Sha1Mismatch))
    } else {
        Ok(())
    }
}

/// Holds a digest against the field, already trimmed, of an offer. An empty
/// field asks for nothing.
pub fn check_digest(field: &str, digest: &Vec<u8>) -> (res: Result<(), DownloadFailure>)
    requires
        digest@.len() == 20,
    ensures
        res == digest_verdict(field@, digest@),
{
    let chars = to_chars(field);
    if chars.len() == 0 {
        return Ok(());
    }
    if chars.len() != 40 {
        return Err(DownloadFailure::Failed(Failure::InvalidSha1Field));
    }
    let mut matches = true;
    let mut i: usize = 0;
    while i < 20
        invariant
            i <= 20,
            chars@ == field@,
            chars@.len() == 40,
            digest@.len() == 20,
            forall|k: int| 0 <= k < 2 * i ==> hex_value(#[trigger] chars@[k]) is Some,
            matches == (forall|k: int|
                0 <= k < i ==> #[trigger] digest@[k] == 16 * hex_value(chars@[2 * k])->0
                    + hex_value(chars@[2 * k + 1])->0),
        decreases 20 - i,
    {
        match (hex_digit_value(chars[2 * i]), hex_digit_value(chars[2 * i + 1])) {
            (Some(high), Some(low)) => {
                if digest[i] != 16 * high + low {
                    assert(digest@[i as int] != 16 * hex_value(chars@[2 * i as int])->0 + hex_value(
                        chars@[2 * i as int + 1],
                    )->0);
                    matches = false;
                }
                assert(hex_value(chars@[2 * i as int]) is Some);
                assert(hex_value(chars@[2 * i as int + 1]) is Some);
            },
            _ => {
                assert(!is_sha1_text(field@)) by {
                    assert(hex_value(chars@[2 * i as int]) is None || hex_value(
                        chars@[2 * i as int + 1],
                    ) is None);
                }
                return Err(DownloadFailure::Failed(Failure::InvalidSha1Field));
            },
        }
        i += 1;
    }
    if matches {
        Ok(())
    } else {
        Err(DownloadFailure::Failed(Failure::Sha1Mismatch))
    }
}

/// Checks the body of a response against the size that was declared and the
/// SHA-1 of the offer.
pub fn verify_body(body: &[u8], declared_size: u64, hash: &str) -> (res: Result<
    u64,
    DownloadFailure,
>)
    ensures
        res == (if body@.len() > MAX_RESOURCE_PACK_BYTES || body@.len() != declared_size {
            Err::<u64, DownloadFailure>(DownloadFailure::Failed(Failure::InvalidSize))
        } else {
            match digest_verdict(trimmed(hash@), sha1_of(body@)) {
                Ok(_) => Ok(body@.len() as u64),
                Err(e) => Err(e),
            }
        }),
{
    let size: u64 = body.len() as u64;
    if size > MAX_RESOURCE_PACK_BYTES || size != declared_size {
        return Err(DownloadFailure::Failed(Failure::InvalidSize));
    }
    let digest = sha1_digest(body);
    let field = trim(hash);
    match check_digest(field.as_str(), &digest) {
        Ok(_) => Ok(size),
        Err(e) => Err(e),
    }
}

} // verus!
