//! The decisions of the request pipeline: cache keys, upstream addresses, what each upstream
//! outcome turns into, and what a failure leaves in the negative cache.

use vstd::prelude::*;
use vstd::utf8::encode_utf8;
use crate::render::{svg_text, MAX_CELLS, generate_svg};
use crate::scan::index_of;
use crate::text::{decimal, push_decimal};
use crate::validation::{validate_input, validation, error_text, years_view, check_lines, lines, DAYS_PER_YEAR};

verus! {

/// Largest upstream file, in bytes, that is downloaded.
pub const MAX_FILE_SIZE: u64 = 1024;

/// A failure of the pipeline.
#[derive(Debug, Clone)]
pub enum AppError {
    RateLimitExceeded,
    GitHubFetchError(String),
    ValidationError(String),
    FileTooBig { size: u64, max: u64 },
    NotFound(String),
}

pub enum AppErrorView {
    RateLimitExceeded,
    GitHubFetchError(Seq<char>),
    ValidationError(Seq<char>),
    FileTooBig { size: nat, max: nat },
    NotFound(Seq<char>),
}

impl View for AppError {
    type V = AppErrorView;

    open spec fn view(&self) -> AppErrorView {
        match self {
            AppError::RateLimitExceeded => AppErrorView::RateLimitExceeded,
            AppError::GitHubFetchError(m) => AppErrorView::GitHubFetchError(m@),
            AppError::ValidationError(m) => AppErrorView::ValidationError(m@),
            AppError::FileTooBig { size, max } => AppErrorView::FileTooBig { size: *size as nat, max: *max as nat },
            AppError::NotFound(m) => AppErrorView::NotFound(m@),
        }
    }
}

/// The HTTP status of each failure.
pub open spec fn status_of(e: AppErrorView) -> u16 {
    match e {
        AppErrorView::RateLimitExceeded => 429,
        AppErrorView::GitHubFetchError(_) => 500,
        AppErrorView::ValidationError(_) => 400,
        AppErrorView::FileTooBig { .. } => 413,
        AppErrorView::NotFound(_) => 404,
    }
}

pub open spec fn too_big_text(size: nat, max: nat) -> Seq<char> {
    "File size "@ + decimal(size) + " bytes exceeds maximum allowed size of "@ + decimal(max) + " bytes"@
}

/// The description of a failure.
pub open spec fn description_of(e: AppErrorView) -> Seq<char> {
    match e {
        AppErrorView::RateLimitExceeded => "Rate limit exceeded"@,
        AppErrorView::GitHubFetchError(m) => "GitHub fetch error: "@ + m,
        AppErrorView::ValidationError(m) => "Validation error: "@ + m,
        AppErrorView::FileTooBig { size, max } => too_big_text(size, max),
        AppErrorView::NotFound(m) => "Not found: "@ + m,
    }
}

/// The body of the response that reports a failure.
pub open spec fn body_of(e: AppErrorView) -> Seq<char> {
    match e {
        AppErrorView::RateLimitExceeded => "Rate limit exceeded"@,
        AppErrorView::GitHubFetchError(m) => m,
        AppErrorView::ValidationError(m) => m,
        AppErrorView::FileTooBig { size, max } => too_big_text(size, max),
        AppErrorView::NotFound(m) => m,
    }
}

/// The message kept in the negative cache for a failure.
pub open spec fn cached_message_of(e: AppErrorView) -> Seq<char> {
    match e {
        AppErrorView::ValidationError(m) => m,
        _ => description_of(e),
    }
}

impl AppError {
    pub fn status(&self) -> (r: u16)
        ensures
            r == status_of(self@),
    {
        match self {
            AppError::RateLimitExceeded => 429,
            AppError::GitHubFetchError(_) => 500,
            AppError::ValidationError(_) => 400,
            AppError::FileTooBig { .. } => 413,
            AppError::NotFound(_) => 404,
        }
    }

    /// The human-readable description of the failure.
    pub fn message(&self) -> (r: String)
        ensures
            r@ == description_of(self@),
    {
        let mut out = String::new();
        match self {
            AppError::RateLimitExceeded => out.append("Rate limit exceeded"),
            AppError::GitHubFetchError(m) => {
                out.append("GitHub fetch error: ");
                out.append(m.as_str());
            },
            AppError::ValidationError(m) => {
                out.append("Validation error: ");
                out.append(m.as_str());
            },
            AppError::FileTooBig { size, max } => push_too_big(&mut out, *size, *max),
            AppError::NotFound(m) => {
                out.append("Not found: ");
                out.append(m.as_str());
            },
        }
        proof {
            assert(out@ =~= description_of(self@));
        }
        out
    }

    /// The response that reports the failure.
    pub fn reply(&self) -> (r: Reply)
        ensures
            r@ == (ReplyView::Failure { status: status_of(self@), body: body_of(self@) }),
    {
        let body = match self {
            AppError::RateLimitExceeded => String::from_str("Rate limit exceeded"),
            AppError::GitHubFetchError(m) => m.clone(),
            AppError::ValidationError(m) => m.clone(),
            AppError::FileTooBig { size, max } => {
                let mut out = String::new();
                push_too_big(&mut out, *size, *max);
                proof {
                    assert(out@ =~= too_big_text(*size as nat, *max as nat));
                }
                out
            },
            AppError::NotFound(m) => m.clone(),
        };
        Reply::Failure { status: self.status(), body }
    }

    /// The entry that records the failure in the negative cache.
    pub fn cached_failure(&self) -> (r: CachedFailure)
        ensures
            r.status == status_of(self@),
            r.message@ == cached_message_of(self@),
    {
        let message = match self {
            AppError::ValidationError(m) => m.clone(),
            _ => self.message(),
        };
        CachedFailure { status: self.status(), message }
    }
}

fn push_too_big(out: &mut String, size: u64, max: u64)
    ensures
        final(out)@ == old(out)@ + too_big_text(size as nat, max as nat),
{
    out.append("File size ");
    push_decimal(out, size);
    out.append(" bytes exceeds maximum allowed size of ");
    push_decimal(out, max);
    out.append(" bytes");
    proof {
        assert(final(out)@ =~= old(out)@ + too_big_text(size as nat, max as nat));
    }
}

/// A failure kept in the negative cache: its status and message.
#[derive(Debug, Clone)]
pub struct CachedFailure {
    pub status: u16,
    pub message: String,
}

/// A terminal response of the pipeline.
#[derive(Debug, Clone)]
pub enum Reply {
    Artifact { svg: String, cache_hit: bool },
    Failure { status: u16, body: String },
}

pub enum ReplyView {
    Artifact { svg: Seq<char>, cache_hit: bool },
    Failure { status: u16, body: Seq<char> },
}

impl View for Reply {
    type V = ReplyView;

    open spec fn view(&self) -> ReplyView {
        match self {
            Reply::Artifact { svg, cache_hit } => ReplyView::Artifact { svg: svg@, cache_hit: *cache_hit },
            Reply::Failure { status, body } => ReplyView::Failure { status: *status, body: body@ },
        }
    }
}

/// What upstream reports of a file: its size in bytes and where to download it.
#[derive(Debug, Clone)]
pub struct FileMetadata {
    pub size: u64,
    pub download_url: String,
}

/// Why an upstream call gave no usable answer.
#[derive(Debug, Clone)]
pub enum FetchError {
    /// Upstream answered 404.
    NotFound,
    /// The call failed or timed out; the transport's description.
    Transport(String),
    /// The answer could not be read; the decoder's description.
    Decode(String),
}

/// The identity of a rendered artifact, as one string.
pub open spec fn cache_key_of(user: Seq<char>, repo: Seq<char>, branch: Seq<char>, file: Seq<char>) -> Seq<char> {
    user + "/"@ + repo + "/"@ + branch + "/"@ + file
}

pub fn create_cache_key(user: &str, repo: &str, branch: &str, file: &str) -> (r: String)
    ensures
        r@ == cache_key_of(user@, repo@, branch@, file@),
{
    let mut key = String::from_str(user);
    key.append("/");
    key.append(repo);
    key.append("/");
    key.append(branch);
    key.append("/");
    key.append(file);
    key
}

/// The client identity: the first comma-separated part of the forwarded-for header, or
/// `unknown` when there is no usable header.
pub open spec fn client_identity_of(forwarded: Option<Seq<char>>) -> Seq<char> {
    match forwarded {
        None => "unknown"@,
        Some(h) => h.subrange(0, index_of(h, ',') as int),
    }
}

pub fn get_client_ip(forwarded: Option<&str>) -> (r: String)
    ensures
        r@ == client_identity_of(
            match forwarded {
                None => None,
                Some(h) => Some(h@),
            },
        ),
{
    match forwarded {
        None => String::from_str("unknown"),
        Some(h) => {
            let n = h.unicode_len();
            let mut i: usize = 0;
            while i < n && h.get_char(i) != ','
                invariant
                    n == h@.len(),
                    i <= n,
                    forall|k: int| 0 <= k < i ==> #[trigger] h@[k] != ',',
                decreases n - i,
            {
                i = i + 1;
            }
            proof {
                crate::scan::lemma_index_of(h@, ',', i as int);
            }
            String::from_str(h.substring_char(0, i))
        },
    }
}

/// The upstream file name of a requested resource: a `.svg` suffix is replaced by `.txt`,
/// any other name gets `.txt` appended.
pub open spec fn txt_name_of(file: Seq<char>) -> Seq<char> {
    if file.len() >= 4 && file.subrange(file.len() - 4, file.len() as int) == ".svg"@ {
        file.subrange(0, file.len() - 4) + ".txt"@
    } else {
        file + ".txt"@
    }
}

pub fn txt_file_name(file: &str) -> (r: String)
    ensures
        r@ == txt_name_of(file@),
{
    let n = file.unicode_len();
    let suffix = ".svg";
    proof {
        reveal_strlit(".svg");
    }
    assert(suffix@.len() == 4);
    let mut has_suffix = n >= 4;
    if has_suffix {
        let mut k: usize = 0;
        while k < 4
            invariant
                n == file@.len(),
                n >= 4,
                k <= 4,
                suffix@ == ".svg"@,
                suffix@.len() == 4,
                has_suffix == forall|j: int| 0 <= j < k ==> #[trigger] file@[n - 4 + j] == suffix@[j],
            decreases 4 - k,
        {
            if file.get_char(n - 4 + k) != suffix.get_char(k) {
                has_suffix = false;
            }
            k = k + 1;
        }
        proof {
            reveal_strlit(".svg");
            let t = file@.subrange(n - 4, n as int);
            if has_suffix {
                assert forall|j: int| 0 <= j < 4 implies t[j] == ".svg"@[j] by {
                    assert(file@[n - 4 + j] == suffix@[j]);
                }
                assert(t =~= ".svg"@);
            } else {
                let j = choose|j: int| 0 <= j < 4 && #[trigger] file@[n - 4 + j] != suffix@[j];
                assert(t[j] != ".svg"@[j]);
            }
        }
    }
    let mut out = if has_suffix {
        String::from_str(file.substring_char(0, n - 4))
    } else {
        String::from_str(file)
    };
    out.append(".txt");
    out
}

/// The upstream address of a file's metadata.
pub open spec fn metadata_url_of(user: Seq<char>, repo: Seq<char>, branch: Seq<char>, txt_file: Seq<char>) -> Seq<char> {
    "https://api.github.com/repos/"@ + user + "/"@ + repo + "/contents/"@ + txt_file + "?ref="@ + branch
}

pub fn metadata_url(user: &str, repo: &str, branch: &str, txt_file: &str) -> (r: String)
    ensures
        r@ == metadata_url_of(user@, repo@, branch@, txt_file@),
{
    let mut url = String::from_str("https://api.github.com/repos/");
    url.append(user);
    url.append("/");
    url.append(repo);
    url.append("/contents/");
    url.append(txt_file);
    url.append("?ref=");
    url.append(branch);
    proof {
        assert(url@ =~= metadata_url_of(user@, repo@, branch@, txt_file@));
    }
    url
}

pub enum FetchErrorView {
    NotFound,
    Transport(Seq<char>),
    Decode(Seq<char>),
}

impl View for FetchError {
    type V = FetchErrorView;

    open spec fn view(&self) -> FetchErrorView {
        match self {
            FetchError::NotFound => FetchErrorView::NotFound,
            FetchError::Transport(m) => FetchErrorView::Transport(m@),
            FetchError::Decode(m) => FetchErrorView::Decode(m@),
        }
    }
}

/// The failure of an upstream call to `url`; `decode_prefix` introduces a decoding failure.
pub open spec fn fetch_failure(url: Seq<char>, e: FetchErrorView, decode_prefix: Seq<char>) -> AppErrorView {
    match e {
        FetchErrorView::NotFound => AppErrorView::NotFound("File not found: "@ + url),
        FetchErrorView::Transport(m) => AppErrorView::GitHubFetchError(m),
        FetchErrorView::Decode(m) => AppErrorView::GitHubFetchError(decode_prefix + m),
    }
}

pub(crate) fn fetch_error(url: &String, e: FetchError, decode_prefix: &str) -> (r: AppError)
    ensures
        r@ == fetch_failure(url@, e@, decode_prefix@),
{
    match e {
        FetchError::NotFound => {
            let mut m = String::from_str("File not found: ");
            m.append(url.as_str());
            AppError::NotFound(m)
        },
        FetchError::Transport(m) => AppError::GitHubFetchError(m),
        FetchError::Decode(m) => {
            let mut t = String::from_str(decode_prefix);
            t.append(m.as_str());
            AppError::GitHubFetchError(t)
        },
    }
}

/// Where the metadata step leads: the download address, or the failure.
pub open spec fn metadata_outcome(url: Seq<char>, fetched: Result<(nat, Seq<char>), FetchErrorView>) -> Result<
    Seq<char>,
    AppErrorView,
> {
    match fetched {
        Err(e) => Err(fetch_failure(url, e, "Failed to parse metadata: "@)),
        Ok(m) => if m.0 > MAX_FILE_SIZE {
            Err(AppErrorView::FileTooBig { size: m.0, max: MAX_FILE_SIZE as nat })
        } else {
            Ok(m.1)
        },
    }
}

pub open spec fn metadata_view(r: Result<FileMetadata, FetchError>) -> Result<(nat, Seq<char>), FetchErrorView> {
    match r {
        Ok(m) => Ok((m.size as nat, m.download_url@)),
        Err(e) => Err(e@),
    }
}

pub open spec fn app_result_view(r: Result<String, AppError>) -> Result<Seq<char>, AppErrorView> {
    match r {
        Ok(s) => Ok(s@),
        Err(e) => Err(e@),
    }
}

/// Decides on the metadata fetched from `url`: a file over `MAX_FILE_SIZE` is refused before
/// anything is downloaded.
pub fn decide_metadata(url: &String, fetched: Result<FileMetadata, FetchError>) -> (r: Result<String, AppError>)
    ensures
        app_result_view(r) == metadata_outcome(url@, metadata_view(fetched)),
{
    match fetched {
        Err(e) => {
            proof {
                reveal_strlit("Failed to parse metadata: ");
            }
            Err(fetch_error(url, e, "Failed to parse metadata: "))
        },
        Ok(m) => {
            if m.size > MAX_FILE_SIZE {
                Err(AppError::FileTooBig { size: m.size, max: MAX_FILE_SIZE })
            } else {
                Ok(m.download_url)
            }
        },
    }
}

/// The rendering of validated text, or the validation failure.
pub open spec fn render_outcome(content: Seq<char>) -> Result<Seq<char>, AppErrorView> {
    match validation(content) {
        Err(e) => Err(AppErrorView::ValidationError(error_text(e))),
        Ok(ys) => Ok(svg_text(ys)),
    }
}

/// Where the content step leads: the rendered chart, or the failure.
pub open spec fn content_outcome(url: Seq<char>, fetched: Result<Seq<char>, FetchErrorView>) -> Result<
    Seq<char>,
    AppErrorView,
> {
    match fetched {
        Err(e) => Err(fetch_failure(url, e, "Failed to read response: "@)),
        Ok(c) => render_outcome(c),
    }
}

pub open spec fn content_view(r: Result<String, FetchError>) -> Result<Seq<char>, FetchErrorView> {
    match r {
        Ok(c) => Ok(c@),
        Err(e) => Err(e@),
    }
}

proof fn lemma_checked_years(ls: Seq<Seq<char>>)
    ensures
        check_lines(ls) is Ok ==> check_lines(ls)->Ok_0.len() <= ls.len() && forall|i: int|
            0 <= i < check_lines(ls)->Ok_0.len() ==> (#[trigger] check_lines(ls)->Ok_0[i]).1.len() == DAYS_PER_YEAR,
    decreases ls.len(),
{
    if ls.len() > 0 {
        lemma_checked_years(ls.drop_last());
    }
}

/// Whether the text validates to more than `MAX_CELLS` years.
pub open spec fn too_many_years(content: Seq<char>) -> bool {
    validation(content) is Ok && validation(content)->Ok_0.len() > MAX_CELLS
}

/// The failure for text too large to render: its size in UTF-8 bytes against `MAX_FILE_SIZE`.
pub open spec fn too_large_content(content: Seq<char>) -> AppErrorView {
    AppErrorView::FileTooBig { size: (encode_utf8(content).len() as usize) as nat, max: MAX_FILE_SIZE as nat }
}

/// Validates fetched text and renders it. A text of more than `MAX_CELLS` years, far beyond
/// `MAX_FILE_SIZE`, is refused as too large.
pub fn render_content(content: &str) -> (r: Result<String, AppError>)
    ensures
        !too_many_years(content@) ==> app_result_view(r) == render_outcome(content@),
        too_many_years(content@) ==> app_result_view(r) == Err::<Seq<char>, AppErrorView>(too_large_content(content@)),
        r is Err ==> !(r->Err_0@ is RateLimitExceeded),
{
    match validate_input(content) {
        Err(e) => Err(AppError::ValidationError(e.message())),
        Ok(years) => {
            proof {
                lemma_checked_years(lines(content@));
            }
            if years.len() > MAX_CELLS {
                return Err(AppError::FileTooBig { size: content.len() as u64, max: MAX_FILE_SIZE });
            }
            proof {
                assert forall|i: int| 0 <= i < years_view(years@).len() implies
                    #[trigger] years_view(years@)[i].1.len() <= MAX_CELLS by {
                }
            }
            Ok(generate_svg(years))
        },
    }
}

} // verus!
