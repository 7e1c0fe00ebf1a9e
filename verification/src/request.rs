//! Planning an HTTP request and the handling of its response.
use vstd::prelude::*;


verus! {

/// What a request produced: the status line, the formatted headers and the
/// body (or where the body was written).
pub struct FizzResult {
    pub status_code: String,
    pub headers: String,
    pub body: String,
}

/// A request to execute. `http_method` is the method token (`GET`, `POST`,
/// or any other token the HTTP client accepts).
pub struct ExecRequest {
    pub url: String,
    pub user_agent: String,
    pub verbose: bool,
    pub disable_cert_validation: bool,
    pub disable_hostname_validation: bool,
    pub post_data: String,
    pub http_method: String,
    pub progress_bar: bool,
}

/// Bodies longer than this many bytes are streamed to a file.
pub const LARGE_BODY_BYTES: u64 = 104647460;

/// The response body is streamed to a file (with a progress bar) when it is
/// larger than `LARGE_BODY_BYTES` or a progress bar was asked for.
pub fn downloads_to_file(content_length: u64, progress_bar: bool) -> (b: bool)
    ensures
        b == (content_length > LARGE_BODY_BYTES || progress_bar),
{
    content_length > LARGE_BODY_BYTES || progress_bar
}

/// The body to send with the request: the post data, unless it is empty.
pub fn request_body(exec: &ExecRequest) -> (body: Option<String>)
    ensures
        body is Some <==> exec.post_data@.len() > 0,
        body matches Some(b) ==> b@ == exec.post_data@,
{
    if exec.post_data.as_str().is_empty() {
        None
    } else {
        Some(exec.post_data.clone())
    }
}

/// The text after the last `/` of `s` (all of `s` where it has none), as
/// `s.split('/').last()` gives it.
pub open spec fn last_segment(s: Seq<char>) -> Seq<char>
    decreases s.len(),
{
    if s.len() == 0 {
        s
    } else if s.last() == '/' {
        Seq::empty()
    } else {
        last_segment(s.drop_last()).push(s.last())
    }
}

/// The file that a streamed body is written to: the last path segment of the
/// URL where it has more than one character, else `frizz.out.file`.
pub open spec fn download_file_name(url: Seq<char>) -> Seq<char> {
    if last_segment(url).len() > 1 {
        last_segment(url)
    } else {
        "frizz.out.file"@
    }
}

proof fn lemma_last_segment_has_no_slash(s: Seq<char>)
    ensures
        !last_segment(s).contains('/'),
    decreases s.len(),
{
    if s.len() > 0 && s.last() != '/' {
        lemma_last_segment_has_no_slash(s.drop_last());
        let l = last_segment(s.drop_last());
        assert forall|i: int| 0 <= i < l.push(s.last()).len() implies l.push(s.last())[i] != '/' by {
            if i < l.len() {
                assert(!l.contains('/'));
                assert(l[i] != '/');
            }
        }
    }
}

/// A streamed body is always written to a plain file name, never into a
/// directory: the name holds no `/`.
pub proof fn lemma_download_name_has_no_slash(url: Seq<char>)
    ensures
        !download_file_name(url).contains('/'),
{
    lemma_last_segment_has_no_slash(url);
    reveal_strlit("frizz.out.file");
    let d = "frizz.out.file"@;
    assert forall|i: int| 0 <= i < d.len() implies d[i] != '/' by {}
}

proof fn lemma_last_segment_after_slash(p: Seq<char>, s: Seq<char>)
    requires
        !s.contains('/'),
    ensures
        last_segment(p.push('/') + s) == s,
    decreases s.len(),
{
    let u = p.push('/') + s;
    if s.len() == 0 {
        assert(u =~= p.push('/'));
    } else {
        let init = s.drop_last();
        assert(!init.contains('/')) by {
            if init.contains('/') {
                let i = choose|i: int| 0 <= i < init.len() && init[i] == '/';
                assert(s[i] == '/');
            }
        }
        lemma_last_segment_after_slash(p, init);
        assert(u.drop_last() =~= p.push('/') + init);
        assert(u.last() == s.last());
        assert(s.last() != '/') by {
            assert(s[s.len() - 1] == s.last());
        }
        assert(init.push(s.last()) =~= s);
    }
}

/// A body is written to a file named after the last path segment of the URL:
/// where the URL is `p/s` with `s` free of `/` and longer than one character,
/// the file is named exactly `s`, every character of it kept; where `s` has
/// at most one character, the file is `frizz.out.file`.
pub proof fn lemma_download_name_is_last_segment(p: Seq<char>, s: Seq<char>)
    requires
        !s.contains('/'),
    ensures
        s.len() > 1 ==> download_file_name(p + "/"@ + s) == s,
        s.len() <= 1 ==> download_file_name(p + "/"@ + s) == "frizz.out.file"@,
{
    reveal_strlit("/");
    assert(p + "/"@ + s =~= p.push('/') + s);
    lemma_last_segment_after_slash(p, s);
}

/// The file name under which the body of `url` is written.
pub fn download_path(url: &str) -> (path: String)
    ensures
        path@ == download_file_name(url@),
{
    let c = crate::text::chars_of(url);
    let len = c.len();
    let mut j: usize = len;
    assert(c@.take(len as int) =~= c@);
    assert(c@.subrange(len as int, len as int) =~= Seq::<char>::empty());
    while j > 0 && c[j - 1] != '/'
        invariant
            len == c.len(),
            c@ == url@,
            j <= len,
            last_segment(c@.take(j as int)) + c@.subrange(j as int, len as int) == last_segment(c@),
        decreases j,
    {
        let ghost t = c@.take(j as int);
        assert(t.drop_last() =~= c@.take(j - 1));
        assert(t.last() == c@[j - 1]);
        assert(c@.subrange(j - 1, len as int) =~= seq![c@[j - 1]] + c@.subrange(j as int, len as int));
        assert(last_segment(c@.take(j - 1)).push(c@[j - 1]) + c@.subrange(j as int, len as int)
            =~= last_segment(c@.take(j - 1)) + c@.subrange(j - 1, len as int));
        j = j - 1;
    }
    proof {
        if j > 0 {
            let t = c@.take(j as int);
            assert(t.last() == c@[j - 1]);
        } else {
            assert(c@.take(0) =~= Seq::<char>::empty());
        }
        assert(last_segment(c@) =~= c@.subrange(j as int, len as int));
    }
    let seg = url.substring_char(j, len);
    if seg.unicode_len() > 1 {
        String::from_str(seg)
    } else {
        let d = "frizz.out.file";
        String::from_str(d)
    }
}

/// How the body of a response is taken in.
pub enum ResponsePlan {
    /// Stream the body into the file `path`, counting up to `total` bytes.
    StreamToFile { path: String, total: u64 },
    /// Read the body as text.
    ReadText,
}

/// Decides how to take in the body of the response to `exec`, whose
/// announced length is `content_length`: large bodies, or any body where a
/// progress bar was asked for, are streamed to the file that
/// `download_path` names; other bodies are read as text.
pub fn plan_response(exec: &ExecRequest, content_length: u64) -> (plan: ResponsePlan)
    ensures
        plan is StreamToFile <==> (content_length > LARGE_BODY_BYTES || exec.progress_bar),
        plan matches ResponsePlan::StreamToFile { path, total } ==> path@ == download_file_name(
            exec.url@,
        ) && total == content_length,
{
    if downloads_to_file(content_length, exec.progress_bar) {
        ResponsePlan::StreamToFile { path: download_path(exec.url.as_str()), total: content_length }
    } else {
        ResponsePlan::ReadText
    }
}

/// How far a streamed download has come, out of the announced total.
pub struct DownloadProgress {
    downloaded: u64,
    total: u64,
}

impl DownloadProgress {
    #[verifier::type_invariant]
    spec fn within_total(self) -> bool {
        self.downloaded <= self.total
    }

    /// The number of bytes counted so far.
    pub closed spec fn downloaded_spec(self) -> u64 {
        self.downloaded
    }

    /// The announced length of the body.
    pub closed spec fn total_spec(self) -> u64 {
        self.total
    }

    /// Nothing downloaded yet of `total` bytes.
    pub fn new(total: u64) -> (p: Self)
        ensures
            p.downloaded_spec() == 0,
            p.total_spec() == total,
    {
        DownloadProgress { downloaded: 0, total }
    }

    pub fn downloaded(&self) -> (d: u64)
        ensures
            d == self.downloaded_spec(),
            d <= self.total_spec(),
    {
        proof {
            use_type_invariant(self);
        }
        self.downloaded
    }

    pub fn total(&self) -> (t: u64)
        ensures
            t == self.total_spec(),
    {
        self.total
    }

    /// Counts a chunk of `chunk_len` bytes: the position becomes the smaller
    /// of the old position plus the chunk and the total, and is returned.
    pub fn advance(&mut self, chunk_len: u64) -> (position: u64)
        requires
            old(self).downloaded_spec() + chunk_len <= u64::MAX,
        ensures
            position == final(self).downloaded_spec(),
            final(self).total_spec() == old(self).total_spec(),
            position == if old(self).downloaded_spec() + chunk_len <= old(self).total_spec() {
                (old(self).downloaded_spec() + chunk_len) as u64
            } else {
                old(self).total_spec()
            },
            old(self).downloaded_spec() <= position <= final(self).total_spec(),
    {
        proof {
            use_type_invariant(&*self);
        }
        let sum = self.downloaded + chunk_len;
        let new = if sum < self.total {
            sum
        } else {
            self.total
        };
        self.downloaded = new;
        new
    }
}

/// The header block as shown to the user: `Headers:` and a new line, then the
/// formatted header map.
pub fn headers_text(formatted_headers: &str) -> (s: String)
    ensures
        s@ == "Headers:\n"@ + formatted_headers@,
{
    let mut s = String::from_str("Headers:\n");
    s.append(formatted_headers);
    s
}

/// The result of a request whose body was streamed to `path`.
pub fn download_result(status_code: String, formatted_headers: &str, path: &str) -> (r: FizzResult)
    ensures
        r.status_code == status_code,
        r.headers@ == "Headers:\n"@ + formatted_headers@,
        r.body@ == "written to ./"@ + path@,
{
    let mut body = String::from_str("written to ./");
    body.append(path);
    FizzResult { status_code, headers: headers_text(formatted_headers), body }
}

/// The result of a request whose body was read as text.
pub fn text_result(status_code: String, formatted_headers: &str, body: String) -> (r: FizzResult)
    ensures
        r.status_code == status_code,
        r.headers@ == "Headers:\n"@ + formatted_headers@,
        r.body == body,
{
    FizzResult { status_code, headers: headers_text(formatted_headers), body }
}

} // verus!
