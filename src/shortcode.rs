//! Finding a post's shortcode in a URL, and the lookup request built from it.
use vstd::prelude::*;
use crate::json::JsonValue;
use crate::normalize::{normalize, normalized, outcome_view};
use crate::post::{FetchError, Post, PostView};

verus! {

/// A post to fetch: the shortcode found in the URL a caller gave, empty when none was.
pub struct Instagram {
    pub url: String,
}

/// Building a post source from a URL.
pub trait Utils: Sized {
    /// The source for `url`, carrying its shortcode.
    fn new(url: &str) -> Self;

    /// The shortcode in `url`, if it names a post.
    fn regex(url: &str) -> Option<String>;
}

/// Ends a shortcode.
pub open spec fn is_stop(c: char) -> bool {
    c == '/' || c == '?' || c == '#'
}

/// `s` holds the word `w` from position `k` on.
pub open spec fn has_at(s: Seq<char>, k: int, w: Seq<char>) -> bool {
    0 <= k && k + w.len() <= s.len() && s.subrange(k, k + w.len()) == w
}

/// The path before a post's shortcode.
pub open spec fn post_path() -> Seq<char> {
    "instagram.com/p/"@
}

/// The path before a reel's shortcode.
pub open spec fn reel_path() -> Seq<char> {
    "instagram.com/reel/"@
}

/// Where the run of non-stop characters that starts at `i` ends.
pub open spec fn run_end(s: Seq<char>, i: int) -> int
    decreases s.len() - i,
{
    if 0 <= i < s.len() && !is_stop(s[i]) {
        run_end(s, i + 1)
    } else {
        i
    }
}

/// Where a shortcode would start if a post or reel path stood at `k`.
pub open spec fn code_start(s: Seq<char>, k: int) -> Option<int> {
    if has_at(s, k, post_path()) {
        Some(k + post_path().len())
    } else if has_at(s, k, reel_path()) {
        Some(k + reel_path().len())
    } else {
        None
    }
}

/// The shortcode of a match at `k`: a non-empty run after the path.
pub open spec fn code_at(s: Seq<char>, k: int) -> Option<Seq<char>> {
    match code_start(s, k) {
        Some(b) => if run_end(s, b) > b {
            Some(s.subrange(b, run_end(s, b)))
        } else {
            None
        },
        None => None,
    }
}

/// The shortcode of the first match at `k` or after.
pub open spec fn first_code(s: Seq<char>, k: int) -> Option<Seq<char>>
    decreases s.len() - k,
{
    if 0 <= k < s.len() {
        match code_at(s, k) {
            Some(c) => Some(c),
            None => first_code(s, k + 1),
        }
    } else {
        None
    }
}

/// The shortcode of a URL: that of the first post or reel path in it.
pub open spec fn shortcode_of(url: Seq<char>) -> Option<Seq<char>> {
    first_code(url, 0)
}

/// What a source made from `url` carries.
pub open spec fn carried(url: Seq<char>) -> Seq<char> {
    match shortcode_of(url) {
        Some(c) => c,
        None => Seq::empty(),
    }
}

/// The address of the post-lookup query for `code`.
pub open spec fn query_target(code: Seq<char>) -> Seq<char> {
    QUERY_HEAD@ + code + QUERY_TAIL@
}

/// The post-lookup query up to the shortcode.
pub const QUERY_HEAD: &'static str =
    "https://www.instagram.com/graphql/query/?query_hash=cf28bf5eb45d62d4dc8e77cdb99d750d&variables={%22shortcode%22:%22";

/// The post-lookup query after the shortcode.
pub const QUERY_TAIL: &'static str = "%22}";

/// What a fetch for a source carrying `code` asks for: nothing when the code is empty.
pub open spec fn fetch_target(code: Seq<char>) -> Option<Seq<char>> {
    if code.len() == 0 {
        None
    } else {
        Some(query_target(code))
    }
}

proof fn lemma_run_end(s: Seq<char>, i: int, e: int)
    requires
        0 <= i <= e <= s.len(),
        forall|j: int| i <= j < e ==> !is_stop(s[j]),
        e == s.len() || is_stop(s[e]),
    ensures
        run_end(s, i) == e,
    decreases e - i,
{
    if i < e {
        lemma_run_end(s, i + 1, e);
    }
}

proof fn lemma_skip_to(s: Seq<char>, k: int, p: int)
    requires
        0 <= k <= p,
        forall|j: int| k <= j < p ==> s[j] != 'i',
    ensures
        first_code(s, k) == first_code(s, p),
    decreases p - k,
{
    reveal_strlit("instagram.com/p/");
    reveal_strlit("instagram.com/reel/");
    if k < p {
        if k < s.len() {
            if has_at(s, k, post_path()) {
                assert(s.subrange(k, k + post_path().len())[0] == s[k]);
            }
            if has_at(s, k, reel_path()) {
                assert(s.subrange(k, k + reel_path().len())[0] == s[k]);
            }
        }
        lemma_skip_to(s, k + 1, p);
    }
}

/// A URL of the form `[http://|https://][www.]instagram.com/(p|reel)/<code><rest>`, with a
/// non-empty code free of `/`, `?` and `#`, and a rest that is empty or starts with one of
/// them, carries exactly that code.
pub proof fn lemma_post_url_code(
    scheme: Seq<char>,
    www: Seq<char>,
    path: Seq<char>,
    code: Seq<char>,
    rest: Seq<char>,
)
    requires
        scheme == Seq::<char>::empty() || scheme == "http://"@ || scheme == "https://"@,
        www == Seq::<char>::empty() || www == "www."@,
        path == post_path() || path == reel_path(),
        code.len() > 0,
        forall|i: int| 0 <= i < code.len() ==> !is_stop(code[i]),
        rest.len() == 0 || is_stop(rest[0]),
    ensures
        shortcode_of(scheme + www + path + code + rest) == Some(code),
        carried(scheme + www + path + code + rest) == code,
{
    reveal_strlit("http://");
    reveal_strlit("https://");
    reveal_strlit("www.");
    reveal_strlit("instagram.com/p/");
    reveal_strlit("instagram.com/reel/");
    let pre = scheme + www;
    let s = pre + path + code + rest;
    assert(scheme + www + path + code + rest == s);
    let p = pre.len() as int;
    let b = p + path.len();
    let e = b + code.len();
    assert forall|j: int| 0 <= j < p implies s[j] != 'i' by {
        assert(s[j] == pre[j]);
        if j < scheme.len() {
            assert(pre[j] == scheme[j]);
        } else {
            assert(pre[j] == www[j - scheme.len()]);
        }
    }
    lemma_skip_to(s, 0, p);
    assert(s.subrange(p, b) =~= path);
    if path == reel_path() {
        assert(s[p + 14] == 'r');
        assert(post_path()[14] == 'p');
        assert(s.subrange(p, p + post_path().len())[14] == s[p + 14]);
    }
    assert(code_start(s, p) == Some(b));
    assert forall|j: int| b <= j < e implies !is_stop(s[j]) by {
        assert(s[j] == code[j - b]);
    }
    if e < s.len() {
        assert(s[e] == rest[0]);
    }
    lemma_run_end(s, b, e);
    assert(s.subrange(b, e) =~= code);
}

proof fn lemma_no_code_from(s: Seq<char>, k: int)
    requires
        0 <= k,
        forall|j: int| !has_at(s, j, post_path()) && !has_at(s, j, reel_path()),
    ensures
        first_code(s, k) is None,
    decreases s.len() - k,
{
    if k < s.len() {
        assert(!has_at(s, k, post_path()) && !has_at(s, k, reel_path()));
        lemma_no_code_from(s, k + 1);
    }
}

/// A URL in which no post or reel path stands carries no shortcode, so a source made from
/// it asks for nothing: no request is made for it.
pub proof fn lemma_no_path_no_fetch(url: Seq<char>)
    requires
        forall|k: int| !has_at(url, k, post_path()) && !has_at(url, k, reel_path()),
    ensures
        shortcode_of(url) is None,
        fetch_target(carried(url)) is None,
{
    lemma_no_code_from(url, 0);
}

fn chars_of(s: &str) -> (r: Vec<char>)
    ensures
        r@ == s@,
{
    let n = s.unicode_len();
    let mut out: Vec<char> = Vec::new();
    let mut i: usize = 0;
    while i < n
        invariant
            n == s@.len(),
            i <= n,
            out@ == s@.subrange(0, i as int),
        decreases n - i,
    {
        out.push(s.get_char(i));
        i += 1;
        assert(out@ =~= s@.subrange(0, i as int));
    }
    assert(out@ =~= s@);
    out
}

fn word_at(s: &Vec<char>, k: usize, w: &str) -> (r: bool)
    ensures
        r == has_at(s@, k as int, w@),
{
    let m = w.unicode_len();
    if k > s.len() || m > s.len() - k {
        return false;
    }
    let mut j: usize = 0;
    while j < m
        invariant
            m == w@.len(),
            k + m <= s.len(),
            j <= m,
            forall|t: int| 0 <= t < j ==> s@[k + t] == w@[t],
        decreases m - j,
    {
        if s[k + j] != w.get_char(j) {
            assert(s@.subrange(k as int, k + m)[j as int] != w@[j as int]);
            return false;
        }
        j += 1;
    }
    assert(s@.subrange(k as int, k + m) =~= w@);
    true
}

fn find_code(url: &str) -> (r: Option<String>)
    ensures
        match r {
            Some(c) => shortcode_of(url@) == Some(c@),
            None => shortcode_of(url@) is None,
        },
{
    let s = chars_of(url);
    let n = s.len();
    let mut k: usize = 0;
    while k < n
        invariant
            s@ == url@,
            n == s@.len(),
            k <= n,
            shortcode_of(url@) == first_code(url@, k as int),
        decreases n - k,
    {
        let start: Option<usize> = if word_at(&s, k, "instagram.com/p/") {
            Some(k + "instagram.com/p/".unicode_len())
        } else if word_at(&s, k, "instagram.com/reel/") {
            Some(k + "instagram.com/reel/".unicode_len())
        } else {
            None
        };
        if let Some(b) = start {
            let mut e: usize = b;
            while e < n && !(s[e] == '/' || s[e] == '?' || s[e] == '#')
                invariant
                    s@ == url@,
                    n == s@.len(),
                    b <= e <= n,
                    run_end(url@, b as int) == run_end(url@, e as int),
                decreases n - e,
            {
                e += 1;
            }
            if e > b {
                return Some(url.substring_char(b, e).to_owned());
            }
        }
        k += 1;
    }
    None
}

impl Utils for Instagram {
    fn new(url: &str) -> (r: Self)
        ensures
            r.url@ == carried(url@),
    {
        Instagram { url: Instagram::regex(url).unwrap_or(String::new()) }
    }

    fn regex(url: &str) -> (r: Option<String>)
        ensures
            match r {
                Some(c) => shortcode_of(url@) == Some(c@),
                None => shortcode_of(url@) is None,
            },
    {
        find_code(url)
    }
}

impl Instagram {
    /// The address to fetch, or none when there is no shortcode and so nothing to fetch.
    pub fn query_url(&self) -> (r: Option<String>)
        ensures
            match r {
                Some(q) => fetch_target(self.url@) == Some(q@),
                None => fetch_target(self.url@) is None,
            },
    {
        if self.url.as_str().unicode_len() == 0 {
            return None;
        }
        let mut q = String::from_str(QUERY_HEAD);
        q.append(self.url.as_str());
        q.append(QUERY_TAIL);
        Some(q)
    }

    /// What a fetch yields once the endpoint has answered with `payload`, or failed to.
    pub fn finish(&self, payload: Result<JsonValue, FetchError>) -> (r: Result<Option<Post>, FetchError>)
        ensures
            match payload {
                Ok(root) => outcome_view(r) == normalized(root),
                Err(e) => r == Err::<Option<Post>, FetchError>(e),
            },
    {
        match payload {
            Ok(root) => normalize(&root),
            Err(e) => Err(e),
        }
    }
}

} // verus!
