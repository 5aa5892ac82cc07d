//! Browsing a template library source and importing the entries a user
//! picks: the source's URL forms, its manifest records and file tree, how an
//! entry is listed against what is installed, the aggregate listing, and the
//! catalogue cache. The network and the store are reached outside the
//! library.

use vstd::prelude::*;

use crate::crypto::{base64_std_decode, base64_std_decoded, base64_std_nopad_decode, base64_std_nopad_decoded};
use crate::json::{JsonValue, get_str, json_str};
use crate::model::{
    LibraryEntry, LibraryImportFailure, LibraryImportOutcome, LibraryImportResult,
    LibraryOverview, LibrarySourceStatus, TemplateImport, TemplateSubscription,
};
use crate::oidc::{opt_string_view, opt_view};
use crate::text::{
    append_chars, append_str, cat, char_is_ws, chars_ends_with, chars_eq, chars_lower, chars_of,
    chars_parse_u64, chars_starts_with, ends_with, is_ws, join, join_chars, lower,
    nonempty_trimmed, parse_u64, replace, replace_str, split, split_chars, split_trim_nonempty,
    starts_with, str_eq, string_of, string_views, strip_all, strip_suffixes, sub_chars, trim,
    trim_chars, views,
};
use vstd::utf8::encode_utf8;

verus! {

/// The most entries one source may contribute.
pub const MAX_LIBRARY_ENTRIES: usize = 2000;

/// The most entries the aggregate listing holds: four sources' worth.
pub const MAX_OVERVIEW_ENTRIES: usize = 8000;

/// Seconds a fetched catalogue stays usable.
pub const CATALOGUE_TTL_SECS: u64 = 90;

/// The manifest a library publishes at its root.
pub const MANIFEST_FILE: &'static str = "tpls_history.json";

/// The `User-Agent` of the library's requests.
pub const USER_AGENT: &'static str = "qdrust-subscription";

/// A GitHub repository a subscription points at.
#[derive(Clone, Debug, PartialEq, Eq)]
pub struct GitHubSource {
    pub owner: String,
    pub repo: String,
    pub branch: String,
}

/// The raw-content URL of a file of the repository.
pub open spec fn raw_url_of(s: GitHubSource, path: Seq<char>) -> Seq<char> {
    "https://raw.githubusercontent.com/"@ + s.owner@ + "/"@ + s.repo@ + "/"@ + s.branch@ + "/"@
        + path
}

/// The web URL of a file of the repository.
pub open spec fn blob_url_of(s: GitHubSource, path: Seq<char>) -> Seq<char> {
    "https://github.com/"@ + s.owner@ + "/"@ + s.repo@ + "/blob/"@ + s.branch@ + "/"@ + path
}

fn join_source(prefix: &str, s: &GitHubSource, middle: &str, path: &str) -> (r: String)
    ensures
        r@ == prefix@ + s.owner@ + "/"@ + s.repo@ + middle@ + s.branch@ + "/"@ + path@,
{
    let mut v: Vec<char> = Vec::new();
    append_str(&mut v, prefix);
    append_str(&mut v, s.owner.as_str());
    append_str(&mut v, "/");
    append_str(&mut v, s.repo.as_str());
    append_str(&mut v, middle);
    append_str(&mut v, s.branch.as_str());
    append_str(&mut v, "/");
    append_str(&mut v, path);
    string_of(v.as_slice())
}

impl GitHubSource {
    /// `https://raw.githubusercontent.com/{owner}/{repo}/{branch}/{path}`.
    pub fn raw_url(&self, path: &str) -> (r: String)
        ensures
            r@ == raw_url_of(*self, path@),
    {
        join_source("https://raw.githubusercontent.com/", self, "/", path)
    }

    /// `https://github.com/{owner}/{repo}/blob/{branch}/{path}`.
    pub fn blob_url(&self, path: &str) -> (r: String)
        ensures
            r@ == blob_url_of(*self, path@),
    {
        join_source("https://github.com/", self, "/blob/", path)
    }

    /// The GitHub API URL listing the whole tree of the branch.
    pub fn tree_url(&self) -> (r: String)
        ensures
            r@ == "https://api.github.com/repos/"@ + self.owner@ + "/"@ + self.repo@
                + "/git/trees/"@ + self.branch@ + "?recursive=1"@,
    {
        let mut v: Vec<char> = Vec::new();
        append_str(&mut v, "https://api.github.com/repos/");
        append_str(&mut v, self.owner.as_str());
        append_str(&mut v, "/");
        append_str(&mut v, self.repo.as_str());
        append_str(&mut v, "/git/trees/");
        append_str(&mut v, self.branch.as_str());
        append_str(&mut v, "?recursive=1");
        string_of(v.as_slice())
    }
}

/// The non-empty pieces, in order.
pub open spec fn nonempty(parts: Seq<Seq<char>>) -> Seq<Seq<char>>
    decreases parts.len(),
{
    if parts.len() == 0 {
        Seq::empty()
    } else if parts.last().len() == 0 {
        nonempty(parts.drop_last())
    } else {
        nonempty(parts.drop_last()).push(parts.last())
    }
}

/// The owner, repository and branch a GitHub URL names: the first two
/// non-empty path pieces after `https://github.com/` (the repository without
/// `.git`), and the piece after `tree` or `blob` as the branch (`HEAD`
/// otherwise).
pub open spec fn github_parts(url: Seq<char>) -> Option<(Seq<char>, Seq<char>, Seq<char>)> {
    let prefix = "https://github.com/"@;
    if !starts_with(url, prefix) {
        None
    } else {
        let parts = nonempty(split(url.skip(prefix.len() as int), "/"@));
        if parts.len() < 2 {
            None
        } else {
            let branch = if parts.len() >= 4 && (parts[2] == "tree"@ || parts[2] == "blob"@) {
                parts[3]
            } else {
                "HEAD"@
            };
            Some((parts[0], strip_suffixes(parts[1], ".git"@), branch))
        }
    }
}

fn nonempty_pieces(parts: Vec<Vec<char>>) -> (r: Vec<Vec<char>>)
    ensures
        views(r@) == nonempty(views(parts@)),
{
    let ghost pv = views(parts@);
    let mut r: Vec<Vec<char>> = Vec::new();
    let mut i: usize = 0;
    while i < parts.len()
        invariant
            i <= parts.len(),
            pv == views(parts@),
            views(r@) == nonempty(pv.take(i as int)),
        decreases parts.len() - i,
    {
        proof {
            assert(pv.take(i + 1).drop_last() =~= pv.take(i as int));
            assert(pv.take(i + 1).last() == parts@[i as int]@);
        }
        if parts[i].len() > 0 {
            let ghost before = r@;
            let piece = sub_chars(parts[i].as_slice(), 0, parts[i].len());
            assert(piece@ =~= parts@[i as int]@);
            r.push(piece);
            assert(views(r@) =~= views(before).push(parts@[i as int]@));
        }
        i = i + 1;
    }
    assert(pv.take(parts.len() as int) =~= pv);
    r
}

/// Parse a GitHub repository URL: the plain form and the `/tree/<branch>` /
/// `/blob/<branch>` forms; `None` for any other URL.
pub fn parse_github_url(url: &str) -> (r: Option<GitHubSource>)
    ensures
        match r {
            Some(s) => github_parts(url@) == Some((s.owner@, s.repo@, s.branch@)),
            None => github_parts(url@) is None,
        },
{
    let v = chars_of(url);
    let prefix = chars_of("https://github.com/");
    proof {
        reveal_strlit("https://github.com/");
    }
    if !chars_starts_with(v.as_slice(), prefix.as_slice()) {
        return None;
    }
    let rest = sub_chars(v.as_slice(), prefix.len(), v.len());
    assert(rest@ =~= url@.skip(19));
    let slash = chars_of("/");
    let parts = nonempty_pieces(split_chars(rest.as_slice(), slash.as_slice()));
    if parts.len() < 2 {
        return None;
    }
    let owner = string_of(parts[0].as_slice());
    let repo_text = string_of(parts[1].as_slice());
    proof {
        reveal_strlit(".git");
    }
    let repo = strip_all(repo_text.as_str(), ".git");
    let mut branch = String::from_str("HEAD");
    if parts.len() >= 4 {
        let tree = chars_of("tree");
        let blob = chars_of("blob");
        if chars_eq(parts[2].as_slice(), tree.as_slice()) || chars_eq(
            parts[2].as_slice(),
            blob.as_slice(),
        ) {
            branch = string_of(parts[3].as_slice());
        }
    }
    proof {
        assert(views(parts@)[0] == parts@[0]@);
        assert(views(parts@)[1] == parts@[1]@);
        if parts.len() >= 4 {
            assert(views(parts@)[2] == parts@[2]@);
            assert(views(parts@)[3] == parts@[3]@);
        }
    }
    Some(GitHubSource { owner, repo, branch })
}

/// A QD template file: `.har` or `.json` in any case, but not the manifest.
pub open spec fn is_template_path(path: Seq<char>) -> bool {
    let l = lower(path);
    (ends_with(l, ".har"@) || ends_with(l, ".json"@)) && !ends_with(l, MANIFEST_FILE@)
}

/// Whether a tree path is a QD template file.
pub fn looks_like_qd_template(path: &str) -> (r: bool)
    ensures
        r == is_template_path(path@),
{
    let v = chars_of(path);
    let l = chars_lower(v.as_slice());
    let har = chars_of(".har");
    let json = chars_of(".json");
    let manifest = chars_of(MANIFEST_FILE);
    (chars_ends_with(l.as_slice(), har.as_slice()) || chars_ends_with(l.as_slice(), json.as_slice()))
        && !chars_ends_with(l.as_slice(), manifest.as_slice())
}

/// The part after the last `/` (all of it when there is none).
pub open spec fn base_name(path: Seq<char>) -> Seq<char> {
    let i = crate::email::last_index_of(path, '/');
    if i < 0 {
        path
    } else {
        path.skip(i + 1)
    }
}

/// The file's name without its `.json` and then `.har` endings.
pub open spec fn stem_of(path: Seq<char>) -> Seq<char> {
    strip_suffixes(strip_suffixes(base_name(path), ".json"@), ".har"@)
}

fn last_slash(v: &[char]) -> (r: Option<usize>)
    ensures
        match r {
            Some(i) => crate::email::last_index_of(v@, '/') == i,
            None => crate::email::last_index_of(v@, '/') < 0,
        },
{
    let mut k: usize = v.len();
    assert(v@.take(k as int) =~= v@);
    while k > 0
        invariant
            k <= v.len(),
            crate::email::last_index_of(v@, '/') == crate::email::last_index_of(
                v@.take(k as int),
                '/',
            ),
        decreases k,
    {
        assert(v@.take(k as int).drop_last() =~= v@.take(k - 1));
        if v[k - 1] == '/' {
            return Some(k - 1);
        }
        k = k - 1;
    }
    None
}

/// The file name of a path without its `.json` / `.har` ending.
pub fn file_stem(path: &str) -> (r: String)
    ensures
        r@ == stem_of(path@),
{
    let v = chars_of(path);
    let base = match last_slash(v.as_slice()) {
        Some(i) => {
            proof {
                crate::email::lemma_last_index_of(v@, '/');
            }
            assert(i < v.len());
            let b = sub_chars(v.as_slice(), i + 1, v.len());
            assert(b@ =~= v@.skip(i + 1));
            b
        },
        None => v,
    };
    let b = string_of(base.as_slice());
    proof {
        reveal_strlit(".json");
        reveal_strlit(".har");
    }
    let a = strip_all(b.as_str(), ".json");
    strip_all(a.as_str(), ".har")
}

/// Whether `a` sorts before `b` character by character (the order of `str`
/// comparison, as UTF-8 bytes and code points sort alike).
pub open spec fn lex_less(a: Seq<char>, b: Seq<char>) -> bool
    decreases a.len(),
{
    if a.len() == 0 {
        b.len() > 0
    } else if b.len() == 0 {
        false
    } else if a[0] != b[0] {
        (a[0] as u32) < (b[0] as u32)
    } else {
        lex_less(a.drop_first(), b.drop_first())
    }
}

fn chars_less(a: &[char], b: &[char]) -> (r: bool)
    ensures
        r == lex_less(a@, b@),
{
    let mut i: usize = 0;
    assert(a@.skip(0) =~= a@);
    assert(b@.skip(0) =~= b@);
    while i < a.len() && i < b.len()
        invariant
            i <= a.len(),
            i <= b.len(),
            lex_less(a@, b@) == lex_less(a@.skip(i as int), b@.skip(i as int)),
        decreases a.len() - i,
    {
        assert(a@.skip(i as int)[0] == a@[i as int]);
        assert(b@.skip(i as int)[0] == b@[i as int]);
        if a[i] != b[i] {
            return (a[i] as u32) < (b[i] as u32);
        }
        assert(a@.skip(i as int).drop_first() =~= a@.skip(i + 1));
        assert(b@.skip(i as int).drop_first() =~= b@.skip(i + 1));
        i = i + 1;
    }
    i == a.len() && i < b.len()
}

/// Whether the upstream version is later than the installed one: both must
/// be known and not blank; trimmed, they compare as numbers when both parse,
/// and as text otherwise.
pub open spec fn newer_version(upstream: Option<Seq<char>>, installed: Option<Seq<char>>) -> bool {
    match (upstream, installed) {
        (Some(u), Some(i)) => {
            let (u, i) = (trim(u), trim(i));
            if u.len() == 0 || i.len() == 0 {
                false
            } else {
                match (parse_u64(u), parse_u64(i)) {
                    (Some(a), Some(b)) => a > b,
                    _ => lex_less(i, u),
                }
            }
        },
        _ => false,
    }
}

/// Whether `upstream` is a later revision than `installed`. An unknown local
/// version counts as up to date.
pub fn version_is_newer(upstream: Option<&str>, installed: Option<&str>) -> (r: bool)
    ensures
        r == newer_version(opt_view(upstream), opt_view(installed)),
{
    let (u, i) = match (upstream, installed) {
        (Some(u), Some(i)) => (u, i),
        _ => {
            return false;
        },
    };
    let uc = chars_of(u);
    let ic = chars_of(i);
    let ut = trim_chars(uc.as_slice());
    let it = trim_chars(ic.as_slice());
    if ut.len() == 0 || it.len() == 0 {
        return false;
    }
    match (chars_parse_u64(ut.as_slice()), chars_parse_u64(it.as_slice())) {
        (Some(a), Some(b)) => a > b,
        _ => chars_less(it.as_slice(), ut.as_slice()),
    }
}

/// A message cut to 4096 characters, with `...` when it was longer.
pub open spec fn bounded_text(message: Seq<char>) -> Seq<char> {
    if message.len() > 4096 {
        message.take(4096) + "..."@
    } else {
        message
    }
}

/// Bound an error message before it is stored or returned.
pub fn bounded(message: &str) -> (r: String)
    ensures
        r@ == bounded_text(message@),
{
    let v = chars_of(message);
    if v.len() > 4096 {
        let mut head = sub_chars(v.as_slice(), 0, 4096);
        assert(head@ =~= v@.take(4096));
        append_str(&mut head, "...");
        string_of(head.as_slice())
    } else {
        String::from_str(message)
    }
}

/// The characters of `s` that are not white space.
pub open spec fn without_ws(s: Seq<char>) -> Seq<char> {
    s.filter(|c: char| !is_ws(c))
}

/// What decoding embedded base64 yields: padded standard base64 of the text
/// without white space, else the unpadded form.
pub open spec fn base64_content(value: Seq<char>) -> Option<Seq<u8>> {
    let bytes = encode_utf8(without_ws(value));
    match base64_std_decoded(bytes) {
        Some(b) => Some(b),
        None => base64_std_nopad_decoded(bytes),
    }
}

/// Why embedded content could not be decoded.
#[derive(Clone, Copy, Debug, PartialEq, Eq, Structural)]
pub enum ContentError {
    /// Neither padded nor unpadded standard base64.
    NotBase64,
}

/// Decode the base64 a manifest embeds, tolerating white space and an
/// unpadded tail.
pub fn decode_base64(value: &str) -> (r: Result<Vec<u8>, ContentError>)
    ensures
        match r {
            Ok(b) => base64_content(value@) == Some(b@),
            Err(_) => base64_content(value@) is None,
        },
{
    let v = chars_of(value);
    let mut compact: Vec<char> = Vec::new();
    let mut i: usize = 0;
    while i < v.len()
        invariant
            i <= v.len(),
            compact@ == without_ws(v@.take(i as int)),
        decreases v.len() - i,
    {
        proof {
            reveal(Seq::filter);
            assert(v@.take(i + 1).drop_last() =~= v@.take(i as int));
        }
        if !char_is_ws(v[i]) {
            compact.push(v[i]);
        }
        i = i + 1;
    }
    assert(v@.take(v.len() as int) =~= v@);
    let text = string_of(compact.as_slice());
    match base64_std_decode(text.as_str().as_bytes()) {
        Some(b) => Ok(b),
        None => match base64_std_nopad_decode(text.as_str().as_bytes()) {
            Some(b) => Ok(b),
            None => Err(ContentError::NotBase64),
        },
    }
}

/// Where the tag opened before `k` closes: the first `>` at or after `k`,
/// or the end.
pub open spec fn close_at(s: Seq<char>, k: int) -> int
    decreases s.len() - k,
{
    if k < 0 || k >= s.len() {
        s.len() as int
    } else if s[k] == '>' {
        k
    } else {
        close_at(s, k + 1)
    }
}

pub proof fn lemma_close_at(s: Seq<char>, k: int)
    requires
        0 <= k <= s.len(),
    ensures
        k <= close_at(s, k) <= s.len(),
        close_at(s, k) < s.len() ==> s[close_at(s, k)] == '>',
        forall|m: int| k <= m < close_at(s, k) ==> s[m] != '>',
    decreases s.len() - k,
{
    if k < s.len() && s[k] != '>' {
        lemma_close_at(s, k + 1);
    }
}

/// How many leading `/` a tag has.
pub open spec fn leading_slashes(t: Seq<char>) -> nat
    decreases t.len(),
{
    if t.len() > 0 && t[0] == '/' {
        1 + leading_slashes(t.drop_first())
    } else {
        0
    }
}

/// The tag's text up to the first white space or `/`.
pub open spec fn name_part(t: Seq<char>) -> Seq<char>
    decreases t.len(),
{
    if t.len() == 0 || is_ws(t[0]) || t[0] == '/' {
        Seq::empty()
    } else {
        seq![t[0]] + name_part(t.drop_first())
    }
}

/// The lowercase name of a tag's inside (`/br`, `p class=..`, `br/`).
pub open spec fn tag_name(tag: Seq<char>) -> Seq<char> {
    lower(name_part(tag.skip(leading_slashes(tag) as int)))
}

/// Whether a tag breaks a line: `br`, `p`, `div` or `li`.
pub open spec fn is_block_tag(tag: Seq<char>) -> bool {
    let n = tag_name(tag);
    n == "br"@ || n == "p"@ || n == "div"@ || n == "li"@
}

/// The text of `s` from `i` on with tags dropped; a block tag leaves a
/// newline. An unclosed tag runs to the end.
pub open spec fn strip_from(s: Seq<char>, i: int) -> Seq<char>
    decreases s.len() - i,
{
    if i < 0 || i >= s.len() {
        Seq::empty()
    } else if s[i] != '<' {
        seq![s[i]] + strip_from(s, i + 1)
    } else {
        let c = close_at(s, i + 1);
        let j = if c > i {
            c
        } else {
            s.len() as int
        };
        (if is_block_tag(s.subrange(i + 1, j)) {
            seq!['\n']
        } else {
            Seq::empty()
        }) + if j < s.len() {
            strip_from(s, j + 1)
        } else {
            Seq::empty()
        }
    }
}

/// The entities a browser decodes, decoded in this order: `&nbsp;`,
/// `&amp;`, `&lt;`, `&gt;`, `&quot;`, `&#39;`.
pub open spec fn decode_entities(s: Seq<char>) -> Seq<char> {
    let a = replace(s, "&nbsp;"@, " "@);
    let b = replace(a, "&amp;"@, "&"@);
    let c = replace(b, "&lt;"@, "<"@);
    let d = replace(c, "&gt;"@, ">"@);
    let e = replace(d, "&quot;"@, "\""@);
    replace(e, "&#39;"@, "'"@)
}

/// Plain text of HTML-ish comments: tags dropped (block tags break lines),
/// entities decoded, then the lines trimmed, blank ones dropped, and joined.
pub open spec fn plain_of(html: Seq<char>) -> Seq<char> {
    join(nonempty_trimmed(split(decode_entities(strip_from(html, 0)), "\n"@)), "\n"@)
}

fn tag_is_block(tag: &[char]) -> (r: bool)
    ensures
        r == is_block_tag(tag@),
{
    let mut k: usize = 0;
    assert(tag@.skip(0) =~= tag@);
    while k < tag.len() && tag[k] == '/'
        invariant
            k <= tag.len(),
            leading_slashes(tag@) == k + leading_slashes(tag@.skip(k as int)),
        decreases tag.len() - k,
    {
        assert(tag@.skip(k as int)[0] == tag@[k as int]);
        assert(tag@.skip(k as int).drop_first() =~= tag@.skip(k + 1));
        k = k + 1;
    }
    assert(leading_slashes(tag@.skip(k as int)) == 0) by {
        if k < tag.len() {
            assert(tag@.skip(k as int)[0] == tag@[k as int]);
        }
    }
    let start = k;
    let ghost rest = tag@.skip(start as int);
    let mut e: usize = start;
    while e < tag.len() && !char_is_ws(tag[e]) && tag[e] != '/'
        invariant
            start <= e <= tag.len(),
            rest == tag@.skip(start as int),
            name_part(rest) == tag@.subrange(start as int, e as int) + name_part(tag@.skip(e as int)),
        decreases tag.len() - e,
    {
        assert(tag@.skip(e as int)[0] == tag@[e as int]);
        assert(tag@.skip(e as int).drop_first() =~= tag@.skip(e + 1));
        assert(tag@.subrange(start as int, e as int) + seq![tag@[e as int]] =~= tag@.subrange(
            start as int,
            e + 1,
        ));
        e = e + 1;
    }
    assert(name_part(tag@.skip(e as int)) =~= Seq::<char>::empty()) by {
        if e < tag.len() {
            assert(tag@.skip(e as int)[0] == tag@[e as int]);
        }
    }
    let name = sub_chars(tag, start, e);
    let l = chars_lower(name.as_slice());
    let br = chars_of("br");
    let p = chars_of("p");
    let div = chars_of("div");
    let li = chars_of("li");
    chars_eq(l.as_slice(), br.as_slice()) || chars_eq(l.as_slice(), p.as_slice()) || chars_eq(
        l.as_slice(),
        div.as_slice(),
    ) || chars_eq(l.as_slice(), li.as_slice())
}

fn strip_tags(v: &[char]) -> (r: Vec<char>)
    ensures
        r@ == strip_from(v@, 0),
{
    let mut out: Vec<char> = Vec::new();
    let mut i: usize = 0;
    while i < v.len()
        invariant
            i <= v.len(),
            strip_from(v@, 0) == out@ + strip_from(v@, i as int),
        decreases v.len() - i,
    {
        if v[i] != '<' {
            let ghost before = out@;
            out.push(v[i]);
            assert(before + strip_from(v@, i as int) =~= out@ + strip_from(v@, i + 1));
            i = i + 1;
        } else {
            proof {
                lemma_close_at(v@, i + 1);
            }
            let mut j: usize = i + 1;
            while j < v.len() && v[j] != '>'
                invariant
                    i + 1 <= j <= v.len(),
                    close_at(v@, i + 1) == close_at(v@, j as int),
                decreases v.len() - j,
            {
                j = j + 1;
            }
            assert(close_at(v@, j as int) == j);
            let tag = sub_chars(v, i + 1, j);
            let ghost before = out@;
            if tag_is_block(tag.as_slice()) {
                out.push('\n');
                assert(before + strip_from(v@, i as int) =~= out@ + strip_from(v@, j + 1));
            } else {
                assert(before + strip_from(v@, i as int) =~= out@ + strip_from(v@, j + 1));
            }
            if j < v.len() {
                i = j + 1;
            } else {
                assert(strip_from(v@, j + 1) =~= Seq::<char>::empty());
                i = v.len();
                assert(strip_from(v@, i as int) =~= Seq::<char>::empty());
            }
        }
    }
    assert(strip_from(v@, i as int) =~= Seq::<char>::empty());
    out
}

/// The strings joined with `sep` between them.
pub fn join_strings(parts: &Vec<String>, sep: &str) -> (r: String)
    ensures
        r@ == join(string_views(parts@), sep@),
{
    let mut vs: Vec<Vec<char>> = Vec::new();
    let mut i: usize = 0;
    while i < parts.len()
        invariant
            i <= parts.len(),
            views(vs@) == string_views(parts@.take(i as int)),
        decreases parts.len() - i,
    {
        let ghost before = vs@;
        vs.push(chars_of(parts[i].as_str()));
        assert(views(vs@) =~= views(before).push(parts@[i as int]@));
        assert(string_views(parts@.take(i + 1)) =~= string_views(parts@.take(i as int)).push(
            parts@[i as int]@,
        ));
        i = i + 1;
    }
    assert(parts@.take(parts.len() as int) =~= parts@);
    let s = chars_of(sep);
    let out = join_chars(&vs, s.as_slice());
    string_of(out.as_slice())
}

/// Reduce a manifest's HTML-ish `comments` to plain text lines.
pub fn plain_text(html: &str) -> (r: String)
    ensures
        r@ == plain_of(html@),
{
    proof {
        reveal_strlit("&nbsp;");
        reveal_strlit("&amp;");
        reveal_strlit("&lt;");
        reveal_strlit("&gt;");
        reveal_strlit("&quot;");
        reveal_strlit("&#39;");
    }
    let v = chars_of(html);
    let stripped = string_of(strip_tags(v.as_slice()).as_slice());
    let a = replace_str(stripped.as_str(), "&nbsp;", " ");
    let b = replace_str(a.as_str(), "&amp;", "&");
    let c = replace_str(b.as_str(), "&lt;", "<");
    let d = replace_str(c.as_str(), "&gt;", ">");
    let e = replace_str(d.as_str(), "&quot;", "\"");
    let f = replace_str(e.as_str(), "&#39;", "'");
    let lines = split_trim_nonempty(f.as_str(), "\n");
    join_strings(&lines, "\n")
}

/// One template a source offers, before its HAR is fetched.
#[derive(Clone, Debug)]
pub struct RawEntry {
    /// The manifest key, or the file stem of a scanned file; also the local
    /// template name.
    pub name: String,
    pub author: Option<String>,
    pub comments: Option<String>,
    pub version: Option<String>,
    pub date: Option<String>,
    pub filename: String,
    pub url: Option<String>,
    pub comment_url: Option<String>,
    /// Base64 HAR inlined by the manifest.
    pub content: Option<String>,
}

/// One record of a library's manifest, as published.
#[derive(Clone, Debug, Default)]
pub struct ManifestEntry {
    pub author: Option<String>,
    pub comments: Option<String>,
    pub version: Option<String>,
    pub date: Option<String>,
    pub filename: Option<String>,
    pub url: Option<String>,
    pub commenturl: Option<String>,
    pub content: Option<String>,
}

/// A value that is there and not blank.
pub open spec fn present(o: Option<String>) -> bool {
    match o {
        Some(s) => trim(s@).len() > 0,
        None => false,
    }
}

/// A value kept only when not blank (not trimmed).
pub open spec fn kept(o: Option<String>) -> Option<Seq<char>> {
    if present(o) {
        opt_string_view(o)
    } else {
        None
    }
}

/// The entry a manifest record becomes: none when it offers no inlined HAR,
/// no URL and no filename; otherwise named by its key, with its blank values
/// dropped and `{key}.har` as the filename when it has none.
pub open spec fn manifest_entry_ok(key: Seq<char>, e: ManifestEntry, r: RawEntry) -> bool {
    &&& r.name@ == key
    &&& opt_string_view(r.author) == kept(e.author)
    &&& opt_string_view(r.comments) == kept(e.comments)
    &&& opt_string_view(r.version) == kept(e.version)
    &&& opt_string_view(r.date) == kept(e.date)
    &&& r.filename@ == match e.filename {
        Some(f) => f@,
        None => key + ".har"@,
    }
    &&& opt_string_view(r.url) == kept(e.url)
    &&& opt_string_view(r.comment_url) == kept(e.commenturl)
    &&& opt_string_view(r.content) == kept(e.content)
}

fn keep(o: &Option<String>) -> (r: Option<String>)
    ensures
        opt_string_view(r) == kept(*o),
{
    match o {
        Some(s) => {
            let c = chars_of(s.as_str());
            let t = trim_chars(c.as_slice());
            if t.len() > 0 {
                Some(s.clone())
            } else {
                None
            }
        },
        None => None,
    }
}

fn is_present(o: &Option<String>) -> (r: bool)
    ensures
        r == present(*o),
{
    match o {
        Some(s) => {
            let c = chars_of(s.as_str());
            let t = trim_chars(c.as_slice());
            t.len() > 0
        },
        None => false,
    }
}

/// Turn one manifest record into an entry, dropping records that offer no
/// way to obtain the HAR.
pub fn manifest_raw_entry(key: &str, entry: &ManifestEntry) -> (r: Option<RawEntry>)
    ensures
        match r {
            Some(x) => (present(entry.content) || present(entry.url) || present(entry.filename))
                && manifest_entry_ok(key@, *entry, x),
            None => !(present(entry.content) || present(entry.url) || present(entry.filename)),
        },
{
    if !is_present(&entry.content) && !is_present(&entry.url) && !is_present(&entry.filename) {
        return None;
    }
    let filename = match &entry.filename {
        Some(f) => f.clone(),
        None => cat(key, ".har"),
    };
    Some(
        RawEntry {
            name: String::from_str(key),
            author: keep(&entry.author),
            comments: keep(&entry.comments),
            version: keep(&entry.version),
            date: keep(&entry.date),
            filename,
            url: keep(&entry.url),
            comment_url: keep(&entry.commenturl),
            content: keep(&entry.content),
        },
    )
}

/// A source's catalogue and how it was obtained.
#[derive(Clone, Debug)]
pub struct Catalogue {
    /// `manifest` or `files`.
    pub source_kind: &'static str,
    pub manifest_version: Option<String>,
    pub entries: Vec<RawEntry>,
}

/// Why a source yields no catalogue.
#[derive(Clone, Copy, Debug, PartialEq, Eq, Structural)]
pub enum CatalogueError {
    /// The manifest has no usable record.
    EmptyManifest,
    /// The GitHub tree reply has no `tree` array.
    NoTree,
    /// The repository holds no template file.
    NoTemplateFiles,
}

impl CatalogueError {
    /// The message the error reads as.
    pub fn message(&self) -> (r: &'static str)
        ensures
            r@ == match *self {
                CatalogueError::EmptyManifest => "tpls_history.json lists no usable templates"@,
                CatalogueError::NoTree => "GitHub tree response has no entries"@,
                CatalogueError::NoTemplateFiles => "no template files found in that repository"@,
            },
    {
        match self {
            CatalogueError::EmptyManifest => "tpls_history.json lists no usable templates",
            CatalogueError::NoTree => "GitHub tree response has no entries",
            CatalogueError::NoTemplateFiles => "no template files found in that repository",
        }
    }
}

/// The entries the first `MAX_LIBRARY_ENTRIES` manifest records yield, in
/// the manifest's (key) order.
pub open spec fn manifest_entries_ok(records: Seq<(String, ManifestEntry)>, entries: Seq<RawEntry>) -> bool
    decreases records.len(),
{
    if records.len() == 0 {
        entries.len() == 0
    } else {
        let (key, rec) = records.last();
        let usable = present(rec.content) || present(rec.url) || present(rec.filename);
        if usable {
            entries.len() > 0 && manifest_entry_ok(key@, rec, entries.last())
                && manifest_entries_ok(records.drop_last(), entries.drop_last())
        } else {
            manifest_entries_ok(records.drop_last(), entries)
        }
    }
}

/// The first `n` of a sequence (all of it when shorter).
pub open spec fn first_n<T>(s: Seq<T>, n: int) -> Seq<T> {
    if s.len() <= n {
        s
    } else {
        s.take(n)
    }
}

/// The catalogue of a manifest (its version and its records in key order):
/// the usable records among the first `MAX_LIBRARY_ENTRIES`, refused when
/// there is none.
pub fn manifest_catalogue(version: Option<String>, records: &Vec<(String, ManifestEntry)>) -> (r:
    Result<Catalogue, CatalogueError>)
    ensures
        match r {
            Ok(c) => c.source_kind@ == "manifest"@ && c.manifest_version == version
                && c.entries@.len() > 0 && manifest_entries_ok(first_n(records@, 2000), c.entries@),
            Err(e) => e == CatalogueError::EmptyManifest && manifest_entries_ok(
                first_n(records@, 2000),
                Seq::empty(),
            ),
        },
{
    let n: usize = if records.len() <= MAX_LIBRARY_ENTRIES {
        records.len()
    } else {
        MAX_LIBRARY_ENTRIES
    };
    let mut entries: Vec<RawEntry> = Vec::new();
    let mut i: usize = 0;
    while i < n
        invariant
            n <= records.len(),
            n == if records.len() <= 2000 { records.len() } else { 2000 },
            i <= n,
            manifest_entries_ok(records@.take(i as int), entries@),
        decreases n - i,
    {
        assert(records@.take(i + 1).drop_last() =~= records@.take(i as int));
        assert(records@.take(i + 1).last() == records@[i as int]);
        match manifest_raw_entry(records[i].0.as_str(), &records[i].1) {
            Some(x) => {
                let ghost before = entries@;
                entries.push(x);
                assert(entries@.drop_last() =~= before);
            },
            None => {},
        }
        i = i + 1;
    }
    assert(records@.take(n as int) =~= first_n(records@, 2000));
    if entries.len() == 0 {
        assert(entries@ =~= Seq::<RawEntry>::empty());
        return Err(CatalogueError::EmptyManifest);
    }
    Ok(Catalogue { source_kind: "manifest", manifest_version: version, entries })
}

/// The path of a tree item that is a template file: a `blob` with a string
/// `path` that looks like a template.
pub open spec fn template_path(item: JsonValue) -> Option<Seq<char>> {
    if json_str(item, "type"@) == Some("blob"@) {
        match json_str(item, "path"@) {
            Some(p) => if is_template_path(p) {
                Some(p)
            } else {
                None
            },
            None => None,
        }
    } else {
        None
    }
}

/// The template paths of tree items, in order.
pub open spec fn template_paths(items: Seq<JsonValue>) -> Seq<Seq<char>>
    decreases items.len(),
{
    if items.len() == 0 {
        Seq::empty()
    } else {
        match template_path(items.last()) {
            Some(p) => template_paths(items.drop_last()).push(p),
            None => template_paths(items.drop_last()),
        }
    }
}

/// The entry a scanned template file becomes: named by its stem, fetched
/// from its raw URL, linked to its page.
pub open spec fn scanned_entry_ok(s: GitHubSource, path: Seq<char>, r: RawEntry) -> bool {
    &&& r.name@ == stem_of(path)
    &&& r.author is None && r.comments is None && r.version is None && r.date is None
    &&& r.filename@ == path
    &&& opt_string_view(r.url) == Some(raw_url_of(s, path))
    &&& opt_string_view(r.comment_url) == Some(blob_url_of(s, path))
    &&& r.content is None
}

proof fn lemma_template_paths_grow(items: Seq<JsonValue>, i: int)
    requires
        0 <= i < items.len(),
    ensures
        template_paths(items.take(i + 1)) == match template_path(items[i]) {
            Some(p) => template_paths(items.take(i)).push(p),
            None => template_paths(items.take(i)),
        },
{
    assert(items.take(i + 1).drop_last() =~= items.take(i));
    assert(items.take(i + 1).last() == items[i]);
}

proof fn lemma_template_paths_prefix(items: Seq<JsonValue>, i: int, j: int)
    requires
        0 <= i <= j <= items.len(),
    ensures
        template_paths(items.take(i)).len() <= template_paths(items.take(j)).len(),
        template_paths(items.take(j)).take(template_paths(items.take(i)).len() as int)
            == template_paths(items.take(i)),
    decreases j - i,
{
    if i < j {
        lemma_template_paths_prefix(items, i, j - 1);
        lemma_template_paths_grow(items, j - 1);
        let a = template_paths(items.take(i));
        let b = template_paths(items.take(j - 1));
        let c = template_paths(items.take(j));
        if c.len() > b.len() {
            assert(c.take(a.len() as int) =~= b.take(a.len() as int));
        }
    } else {
        let a = template_paths(items.take(i));
        assert(a.take(a.len() as int) =~= a);
    }
}

/// The entries of a GitHub tree reply: the first `MAX_LIBRARY_ENTRIES`
/// template files, in tree order. Refused when the reply has no `tree`
/// array, or when the tree holds no template file.
pub fn tree_catalogue(source: &GitHubSource, reply: &JsonValue) -> (r: Result<
    Catalogue,
    CatalogueError,
>)
    ensures
        match reply.spec_get("tree"@) {
            Some(JsonValue::Array(items)) => {
                let paths = first_n(template_paths(items@), 2000);
                match r {
                    Ok(c) => c.source_kind@ == "files"@ && c.manifest_version is None
                        && paths.len() > 0 && c.entries@.len() == paths.len() && forall|k: int|
                        0 <= k < paths.len() ==> scanned_entry_ok(*source, paths[k], #[trigger] c.entries@[k]),
                    Err(e) => e == CatalogueError::NoTemplateFiles && paths.len() == 0,
                }
            },
            _ => r == Err::<Catalogue, CatalogueError>(CatalogueError::NoTree),
        },
{
    let items = match reply.get("tree") {
        Some(JsonValue::Array(items)) => items,
        _ => {
            return Err(CatalogueError::NoTree);
        },
    };
    let mut entries: Vec<RawEntry> = Vec::new();
    let mut i: usize = 0;
    let ghost all = template_paths(items@);
    while i < items.len()
        invariant
            i <= items.len(),
            all == template_paths(items@),
            entries@.len() <= 2000,
            entries@.len() == template_paths(items@.take(i as int)).len(),
            forall|k: int|
                0 <= k < entries@.len() ==> scanned_entry_ok(
                    *source,
                    template_paths(items@.take(i as int))[k],
                    #[trigger] entries@[k],
                ),
        ensures
            i <= items.len(),
            i == items.len() || entries@.len() >= 2000,
            entries@.len() <= 2000,
            entries@.len() == template_paths(items@.take(i as int)).len(),
            forall|k: int|
                0 <= k < entries@.len() ==> scanned_entry_ok(
                    *source,
                    template_paths(items@.take(i as int))[k],
                    #[trigger] entries@[k],
                ),
        decreases items.len() - i,
    {
        if entries.len() >= MAX_LIBRARY_ENTRIES {
            break;
        }
        proof {
            lemma_template_paths_grow(items@, i as int);
        }
        let item = &items[i];
        let is_blob = match get_str(item, "type") {
            Some(t) => str_eq(t.as_str(), "blob"),
            None => false,
        };
        if is_blob {
            match get_str(item, "path") {
                Some(path) => {
                    if looks_like_qd_template(path.as_str()) {
                        let ghost before = entries@;
                        let entry = RawEntry {
                            name: file_stem(path.as_str()),
                            author: None,
                            comments: None,
                            version: None,
                            date: None,
                            filename: path.clone(),
                            url: Some(source.raw_url(path.as_str())),
                            comment_url: Some(source.blob_url(path.as_str())),
                            content: None,
                        };
                        entries.push(entry);
                        assert forall|k: int| 0 <= k < entries@.len() implies scanned_entry_ok(
                            *source,
                            template_paths(items@.take(i + 1))[k],
                            #[trigger] entries@[k],
                        ) by {
                            if k < before.len() {
                                assert(entries@[k] == before[k]);
                            }
                        }
                    }
                },
                None => {},
            }
        }
        i = i + 1;
    }
    proof {
        lemma_template_paths_prefix(items@, i as int, items.len() as int);
        assert(items@.take(items.len() as int) =~= items@);
        let p = template_paths(items@.take(i as int));
        if i < items.len() {
            assert(entries@.len() >= 2000);
            assert(first_n(all, 2000) =~= p);
        } else {
            assert(first_n(all, 2000) =~= p);
        }
    }
    if entries.len() == 0 {
        return Err(CatalogueError::NoTemplateFiles);
    }
    Ok(Catalogue { source_kind: "files", manifest_version: None, entries })
}

/// A direct file URL as a one-entry catalogue, named by the file's stem.
pub fn direct_catalogue(url: &str) -> (r: Catalogue)
    ensures
        r.source_kind@ == "files"@,
        r.manifest_version is None,
        r.entries@.len() == 1,
        r.entries@[0].name@ == stem_of(url@),
        r.entries@[0].filename@ == stem_of(url@),
        r.entries@[0].author is None && r.entries@[0].comments is None,
        r.entries@[0].version is None && r.entries@[0].date is None,
        opt_string_view(r.entries@[0].url) == Some(url@),
        r.entries@[0].comment_url is None && r.entries@[0].content is None,
{
    let name = file_stem(url);
    let mut entries: Vec<RawEntry> = Vec::new();
    entries.push(
        RawEntry {
            filename: name.clone(),
            name,
            author: None,
            comments: None,
            version: None,
            date: None,
            url: Some(String::from_str(url)),
            comment_url: None,
            content: None,
        },
    );
    Catalogue { source_kind: "files", manifest_version: None, entries }
}

/// The import recorded last for an entry name (later records win, as when
/// they are collected into a map).
pub open spec fn last_import(imports: Seq<TemplateImport>, name: Seq<char>) -> Option<TemplateImport>
    decreases imports.len(),
{
    if imports.len() == 0 {
        None
    } else if imports.last().entry_name@ == name {
        Some(imports.last())
    } else {
        last_import(imports.drop_last(), name)
    }
}

/// The import linking an entry name, if any.
pub fn installed_import<'a>(imports: &'a Vec<TemplateImport>, name: &str) -> (r: Option<
    &'a TemplateImport,
>)
    ensures
        match r {
            Some(i) => last_import(imports@, name@) == Some(*i),
            None => last_import(imports@, name@) is None,
        },
{
    let mut k: usize = imports.len();
    assert(imports@.take(k as int) =~= imports@);
    while k > 0
        invariant
            k <= imports.len(),
            last_import(imports@, name@) == last_import(imports@.take(k as int), name@),
        decreases k,
    {
        assert(imports@.take(k as int).drop_last() =~= imports@.take(k - 1));
        assert(imports@.take(k as int).last() == imports@[k - 1]);
        if str_eq(imports[k - 1].entry_name.as_str(), name) {
            return Some(&imports[k - 1]);
        }
        k = k - 1;
    }
    None
}

/// How an entry is listed against its import (source fields aside): its
/// metadata, comments as plain text, whether and as what it is installed,
/// and whether upstream has a newer version.
pub open spec fn listed_ok(e: RawEntry, imp: Option<TemplateImport>, row: LibraryEntry) -> bool {
    &&& row.name@ == e.name@
    &&& opt_string_view(row.author) == opt_string_view(e.author)
    &&& opt_string_view(row.comments) == match e.comments {
        Some(c) => Some(plain_of(c@)),
        None => None,
    }
    &&& opt_string_view(row.version) == opt_string_view(e.version)
    &&& opt_string_view(row.date) == opt_string_view(e.date)
    &&& row.filename@ == e.filename@
    &&& opt_string_view(row.url) == opt_string_view(e.url)
    &&& opt_string_view(row.comment_url) == opt_string_view(e.comment_url)
    &&& row.installed == imp is Some
    &&& row.installed_template_id == match imp {
        Some(i) => Some(i.template_id),
        None => None,
    }
    &&& opt_string_view(row.installed_version) == match imp {
        Some(i) => opt_string_view(i.entry_version),
        None => None,
    }
    &&& row.update_available == (imp is Some && newer_version(
        opt_string_view(e.version),
        opt_string_view(imp.unwrap().entry_version),
    ))
}

fn as_str_opt(o: &Option<String>) -> (r: Option<&str>)
    ensures
        opt_view(r) == opt_string_view(*o),
{
    match o {
        Some(s) => Some(s.as_str()),
        None => None,
    }
}

/// List one entry against what is installed; a single source's listing
/// leaves the source fields empty.
pub fn library_entry(entry: &RawEntry, installed: Option<&TemplateImport>) -> (r: LibraryEntry)
    ensures
        listed_ok(
            *entry,
            match installed {
                Some(i) => Some(*i),
                None => None,
            },
            r,
        ),
        r.source_id is None,
        r.source_name is None,
{
    let installed_version: Option<String> = match installed {
        Some(i) => i.entry_version.clone(),
        None => None,
    };
    let update_available = match installed {
        Some(_) => version_is_newer(as_str_opt(&entry.version), as_str_opt(&installed_version)),
        None => false,
    };
    LibraryEntry {
        name: entry.name.clone(),
        author: entry.author.clone(),
        comments: match &entry.comments {
            Some(c) => Some(plain_text(c.as_str())),
            None => None,
        },
        version: entry.version.clone(),
        date: entry.date.clone(),
        filename: entry.filename.clone(),
        url: entry.url.clone(),
        comment_url: entry.comment_url.clone(),
        installed: installed.is_some(),
        installed_template_id: match installed {
            Some(i) => Some(i.template_id),
            None => None,
        },
        update_available,
        installed_version,
        source_id: None,
        source_name: None,
    }
}

/// What reading one source for the aggregate listing gave.
#[derive(Clone, Debug)]
pub enum SourceRead {
    /// Its catalogue, whether that came from the cache, and its imports.
    Read { catalogue: Catalogue, cached: bool, imports: Vec<TemplateImport> },
    /// Why it could not be read.
    Failed(String),
}

/// How many entries a read offers.
pub open spec fn read_len(r: SourceRead) -> nat {
    match r {
        SourceRead::Read { catalogue, .. } => catalogue.entries@.len(),
        SourceRead::Failed(_) => 0,
    }
}

/// How many rows the sources before `k` contribute, the listing holding at
/// most `MAX_OVERVIEW_ENTRIES`.
pub open spec fn taken_before(reads: Seq<SourceRead>, k: int) -> nat
    decreases k,
{
    if k <= 0 {
        0
    } else {
        let t = taken_before(reads, k - 1);
        let room = if t <= 8000 {
            (8000 - t) as nat
        } else {
            0
        };
        t + if read_len(reads[k - 1]) <= room {
            read_len(reads[k - 1])
        } else {
            room
        }
    }
}

/// How many rows source `k` contributes: its entries, up to the room left.
pub open spec fn contributed(reads: Seq<SourceRead>, k: int) -> nat {
    let t = taken_before(reads, k);
    let room = if t <= 8000 {
        (8000 - t) as nat
    } else {
        0
    };
    if read_len(reads[k]) <= room {
        read_len(reads[k])
    } else {
        room
    }
}

proof fn lemma_taken_bound(reads: Seq<SourceRead>, k: int)
    ensures
        taken_before(reads, k) <= 8000,
        k > 0 ==> taken_before(reads, k) == taken_before(reads, k - 1) + contributed(reads, k - 1),
    decreases k,
{
    if k > 0 {
        lemma_taken_bound(reads, k - 1);
    }
}

proof fn lemma_taken_mono(reads: Seq<SourceRead>, j: int, k: int)
    requires
        0 <= j < k,
    ensures
        taken_before(reads, j) + contributed(reads, j) <= taken_before(reads, k),
    decreases k - j,
{
    lemma_taken_bound(reads, k);
    if j + 1 < k {
        lemma_taken_mono(reads, j, k - 1);
        lemma_taken_bound(reads, k - 1);
    } else {
        lemma_taken_bound(reads, j + 1);
    }
}

/// The status row of a source: its id and name, then what its read gave (a
/// failure's message bounded).
pub open spec fn status_ok(sub: TemplateSubscription, read: SourceRead, count: nat, st: LibrarySourceStatus) -> bool {
    &&& st.subscription_id == sub.id
    &&& st.name@ == sub.name@
    &&& match read {
        SourceRead::Read { catalogue, cached, .. } => {
            &&& opt_string_view(st.source_kind) == Some(catalogue.source_kind@)
            &&& st.entries == count
            &&& st.cached == cached
            &&& st.error is None
        },
        SourceRead::Failed(msg) => {
            &&& st.source_kind is None
            &&& st.entries == 0
            &&& !st.cached
            &&& opt_string_view(st.error) == Some(bounded_text(msg@))
        },
    }
}

/// A row of the aggregate listing: entry `o` of the source's catalogue,
/// listed against its imports and naming its source.
pub open spec fn row_ok(sub: TemplateSubscription, read: SourceRead, o: int, row: LibraryEntry) -> bool {
    match read {
        SourceRead::Read { catalogue, imports, .. } => {
            &&& listed_ok(
                catalogue.entries@[o],
                last_import(imports@, catalogue.entries@[o].name@),
                row,
            )
            &&& row.source_id == Some(sub.id)
            &&& opt_string_view(row.source_name) == Some(sub.name@)
        },
        SourceRead::Failed(_) => false,
    }
}

/// The aggregate listing of every source, paired in order with what reading
/// it gave: each source's entries in turn, up to `MAX_OVERVIEW_ENTRIES` in
/// all (`truncated` says when some were left out), and a status row per
/// source, a failed read saying why instead of hiding the others.
pub fn overview_of(subscriptions: &Vec<TemplateSubscription>, reads: &Vec<SourceRead>) -> (r:
    LibraryOverview)
    ensures
        ({
            let n = if subscriptions@.len() <= reads@.len() {
                subscriptions@.len()
            } else {
                reads@.len()
            };
            &&& r.sources@.len() == n
            &&& forall|k: int|
                0 <= k < n ==> status_ok(
                    subscriptions@[k],
                    reads@[k],
                    contributed(reads@, k),
                    #[trigger] r.sources@[k],
                )
            &&& r.entries@.len() == taken_before(reads@, n as int)
            &&& forall|k: int, o: int|
                0 <= k < n && 0 <= o < contributed(reads@, k) ==> row_ok(
                    subscriptions@[k],
                    reads@[k],
                    o,
                    #[trigger] r.entries@[taken_before(reads@, k) + o],
                )
            &&& r.truncated == exists|k: int|
                0 <= k < n && read_len(reads@[k]) > #[trigger] contributed(reads@, k)
        }),
{
    let n: usize = if subscriptions.len() <= reads.len() {
        subscriptions.len()
    } else {
        reads.len()
    };
    let mut entries: Vec<LibraryEntry> = Vec::new();
    let mut sources: Vec<LibrarySourceStatus> = Vec::new();
    let mut truncated = false;
    let mut k: usize = 0;
    while k < n
        invariant
            n <= subscriptions.len(),
            n <= reads.len(),
            k <= n,
            sources@.len() == k,
            forall|j: int|
                0 <= j < k ==> status_ok(
                    subscriptions@[j],
                    reads@[j],
                    contributed(reads@, j),
                    #[trigger] sources@[j],
                ),
            entries@.len() == taken_before(reads@, k as int),
            forall|j: int, o: int|
                0 <= j < k && 0 <= o < contributed(reads@, j) ==> row_ok(
                    subscriptions@[j],
                    reads@[j],
                    o,
                    #[trigger] entries@[taken_before(reads@, j) + o],
                ),
            truncated == exists|j: int|
                0 <= j < k && read_len(reads@[j]) > #[trigger] contributed(reads@, j),
        decreases n - k,
    {
        proof {
            lemma_taken_bound(reads@, k as int);
            lemma_taken_bound(reads@, k + 1);
        }
        let sub = &subscriptions[k];
        let ghost t = entries@.len();
        let ghost old_entries = entries@;
        match &reads[k] {
            SourceRead::Read { catalogue, cached, imports } => {
                let mut contributed_count: usize = 0;
                let ghost before_entries = entries@;
                while contributed_count < catalogue.entries.len()
                    invariant
                        reads@[k as int] == (SourceRead::Read {
                            catalogue: *catalogue,
                            cached: *cached,
                            imports: *imports,
                        }),
                        t == taken_before(reads@, k as int),
                        t <= 8000,
                        contributed_count <= catalogue.entries@.len(),
                        t + contributed_count <= 8000,
                        entries@.len() == t + contributed_count,
                        forall|m: int| 0 <= m < t ==> entries@[m] == before_entries[m],
                        forall|o: int|
                            0 <= o < contributed_count ==> row_ok(
                                *sub,
                                reads@[k as int],
                                o,
                                #[trigger] entries@[t + o],
                            ),
                        *sub == subscriptions@[k as int],
                    ensures
                        contributed_count <= catalogue.entries@.len(),
                        entries@.len() == t + contributed_count,
                        contributed_count == contributed(reads@, k as int),
                        forall|m: int| 0 <= m < t ==> entries@[m] == before_entries[m],
                        forall|o: int|
                            0 <= o < contributed_count ==> row_ok(
                                *sub,
                                reads@[k as int],
                                o,
                                #[trigger] entries@[t + o],
                            ),
                    decreases catalogue.entries.len() - contributed_count,
                {
                    if entries.len() >= MAX_OVERVIEW_ENTRIES {
                        break;
                    }
                    let entry = &catalogue.entries[contributed_count];
                    let imp = installed_import(imports, entry.name.as_str());
                    let mut row = library_entry(entry, imp);
                    row.source_id = Some(sub.id);
                    row.source_name = Some(sub.name.clone());
                    entries.push(row);
                    contributed_count = contributed_count + 1;
                }
                if contributed_count < catalogue.entries.len() {
                    truncated = true;
                }
                sources.push(
                    LibrarySourceStatus {
                        subscription_id: sub.id,
                        name: sub.name.clone(),
                        source_kind: Some(String::from_str(catalogue.source_kind)),
                        entries: contributed_count,
                        cached: *cached,
                        error: None,
                    },
                );
            },
            SourceRead::Failed(msg) => {
                sources.push(
                    LibrarySourceStatus {
                        subscription_id: sub.id,
                        name: sub.name.clone(),
                        source_kind: None,
                        entries: 0,
                        cached: false,
                        error: Some(bounded(msg.as_str())),
                    },
                );
            },
        }
        proof {
            assert forall|j: int, o: int|
                0 <= j < k + 1 && 0 <= o < contributed(reads@, j) implies row_ok(
                subscriptions@[j],
                reads@[j],
                o,
                #[trigger] entries@[taken_before(reads@, j) + o],
            ) by {
                if j < k {
                    lemma_taken_mono(reads@, j, k as int);
                    assert(entries@[taken_before(reads@, j) + o] == old_entries[taken_before(reads@, j) + o]);
                }
            }
        }
        k = k + 1;
    }
    LibraryOverview { entries, sources, truncated }
}

/// The entry a catalogue offers under `name` (the last one, as when the
/// entries are collected into a map by name).
pub open spec fn entry_named(entries: Seq<RawEntry>, name: Seq<char>) -> Option<int>
    decreases entries.len(),
{
    if entries.len() == 0 {
        None
    } else if entries.last().name@ == name {
        Some(entries.len() - 1)
    } else {
        entry_named(entries.drop_last(), name)
    }
}

proof fn lemma_entry_named(entries: Seq<RawEntry>, name: Seq<char>)
    ensures
        match entry_named(entries, name) {
            Some(i) => 0 <= i < entries.len() && entries[i].name@ == name,
            None => true,
        },
    decreases entries.len(),
{
    if entries.len() > 0 && entries.last().name@ != name {
        lemma_entry_named(entries.drop_last(), name);
    }
}

/// The index of the entry a catalogue offers under `name`.
pub fn find_entry(catalogue: &Catalogue, name: &str) -> (r: Option<usize>)
    ensures
        match r {
            Some(i) => entry_named(catalogue.entries@, name@) == Some(i as int) && i
                < catalogue.entries@.len(),
            None => entry_named(catalogue.entries@, name@) is None,
        },
{
    let mut k: usize = catalogue.entries.len();
    assert(catalogue.entries@.take(k as int) =~= catalogue.entries@);
    while k > 0
        invariant
            k <= catalogue.entries.len(),
            entry_named(catalogue.entries@, name@) == entry_named(catalogue.entries@.take(k as int), name@),
        decreases k,
    {
        assert(catalogue.entries@.take(k as int).drop_last() =~= catalogue.entries@.take(k - 1));
        assert(catalogue.entries@.take(k as int).last() == catalogue.entries@[k - 1]);
        if str_eq(catalogue.entries[k - 1].name.as_str(), name) {
            assert(catalogue.entries@.take(k as int).len() == k);
            assert(entry_named(catalogue.entries@.take(k as int), name@) == Some(k - 1));
            return Some(k - 1);
        }
        k = k - 1;
    }
    None
}

/// One step of importing a selection.
#[derive(Clone, Copy, Debug, PartialEq, Eq, Structural)]
pub enum ImportStep {
    /// The name at this position of the selection is not offered.
    Missing(usize),
    /// Import catalogue entry `entry`, refreshing `linked` when the source
    /// already put it in a template.
    Import { entry: usize, linked: Option<i64> },
}

/// The positions of a selection left after dropping repeats (first
/// occurrences, in order).
pub open spec fn first_occurrences(names: Seq<String>, k: int) -> Seq<int>
    decreases k,
{
    if k <= 0 {
        Seq::empty()
    } else {
        let before = first_occurrences(names, k - 1);
        if exists|j: int| 0 <= j < k - 1 && #[trigger] names[j]@ == names[k - 1]@ {
            before
        } else {
            before.push(k - 1)
        }
    }
}

/// The step a selected name leads to.
pub open spec fn step_for(
    names: Seq<String>,
    pos: int,
    entries: Seq<RawEntry>,
    imports: Seq<TemplateImport>,
) -> ImportStep {
    match entry_named(entries, names[pos]@) {
        None => ImportStep::Missing(pos as usize),
        Some(i) => ImportStep::Import {
            entry: i as usize,
            linked: match last_import(imports, entries[i].name@) {
                Some(imp) => Some(imp.template_id),
                None => None,
            },
        },
    }
}

/// `steps` is the plan for the selection `names`: one step per distinct
/// name, in selection order.
pub open spec fn plan_of(
    names: Seq<String>,
    entries: Seq<RawEntry>,
    imports: Seq<TemplateImport>,
    steps: Seq<ImportStep>,
) -> bool {
    &&& steps.len() == first_occurrences(names, names.len() as int).len()
    &&& forall|m: int|
        0 <= m < steps.len() ==> #[trigger] steps[m] == step_for(
            names,
            first_occurrences(names, names.len() as int)[m],
            entries,
            imports,
        )
}

/// Why a selection cannot be imported.
#[derive(Clone, Copy, Debug, PartialEq, Eq, Structural)]
pub enum SelectionError {
    /// Nothing was selected.
    NothingSelected,
}

/// Plan the import of the selected names: one step per distinct name, in
/// selection order, each either missing from the catalogue or the entry to
/// import with the template it already updates. Refused when nothing is
/// selected.
pub fn import_plan(names: &Vec<String>, catalogue: &Catalogue, imports: &Vec<TemplateImport>) -> (r:
    Result<Vec<ImportStep>, SelectionError>)
    ensures
        match r {
            Err(e) => e == SelectionError::NothingSelected && names@.len() == 0,
            Ok(steps) => names@.len() > 0 && plan_of(names@, catalogue.entries@, imports@, steps@),
        },
{
    if names.len() == 0 {
        return Err(SelectionError::NothingSelected);
    }
    let mut steps: Vec<ImportStep> = Vec::new();
    let mut k: usize = 0;
    while k < names.len()
        invariant
            k <= names.len(),
            steps@.len() == first_occurrences(names@, k as int).len(),
            forall|m: int|
                0 <= m < steps@.len() ==> #[trigger] steps@[m] == step_for(
                    names@,
                    first_occurrences(names@, k as int)[m],
                    catalogue.entries@,
                    imports@,
                ),
        decreases names.len() - k,
    {
        let mut seen = false;
        let mut j: usize = 0;
        while j < k
            invariant
                j <= k,
                k < names.len(),
                seen == exists|x: int| 0 <= x < j && #[trigger] names@[x]@ == names@[k as int]@,
            decreases k - j,
        {
            if str_eq(names[j].as_str(), names[k].as_str()) {
                seen = true;
            }
            j = j + 1;
        }
        let ghost before = steps@;
        if !seen {
            let step = match find_entry(catalogue, names[k].as_str()) {
                None => ImportStep::Missing(k),
                Some(i) => {
                    proof {
                        lemma_entry_named(catalogue.entries@, names@[k as int]@);
                    }
                    let linked = match installed_import(imports, catalogue.entries[i].name.as_str()) {
                        Some(imp) => Some(imp.template_id),
                        None => None,
                    };
                    ImportStep::Import { entry: i, linked }
                },
            };
            steps.push(step);
            assert forall|m: int| 0 <= m < steps@.len() implies #[trigger] steps@[m] == step_for(
                names@,
                first_occurrences(names@, k + 1)[m],
                catalogue.entries@,
                imports@,
            ) by {
                if m < before.len() {
                    assert(steps@[m] == before[m]);
                }
            }
        }
        k = k + 1;
    }
    Ok(steps)
}

/// `after` is `before` with one more failure: `name`, which the source does
/// not offer.
pub open spec fn missing_recorded(
    before: LibraryImportResult,
    after: LibraryImportResult,
    name: Seq<char>,
) -> bool {
    &&& after.imported == before.imported
    &&& after.updated == before.updated
    &&& after.templates@ == before.templates@
    &&& after.failed@.len() == before.failed@.len() + 1
    &&& after.failed@.drop_last() == before.failed@
    &&& after.failed@.last().name@ == name
    &&& after.failed@.last().error@ == "this source does not offer that template"@
}

/// `after` is `before` with the outcome of importing the entry `entry_name`
/// (selected as `name`): one more template, counted as imported or updated,
/// or one more failure with the bounded error text.
pub open spec fn outcome_recorded(
    before: LibraryImportResult,
    after: LibraryImportResult,
    name: Seq<char>,
    entry_name: Seq<char>,
    outcome: Result<(i64, bool), String>,
) -> bool {
    match outcome {
        Ok((id, updated)) => {
            &&& after.imported == before.imported + if updated { 0int } else { 1int }
            &&& after.updated == before.updated + if updated { 1int } else { 0int }
            &&& after.failed@ == before.failed@
            &&& after.templates@.len() == before.templates@.len() + 1
            &&& after.templates@.drop_last() == before.templates@
            &&& after.templates@.last().name@ == entry_name
            &&& after.templates@.last().template_id == id
            &&& after.templates@.last().updated == updated
        },
        Err(msg) => {
            &&& after.imported == before.imported
            &&& after.updated == before.updated
            &&& after.templates@ == before.templates@
            &&& after.failed@.len() == before.failed@.len() + 1
            &&& after.failed@.drop_last() == before.failed@
            &&& after.failed@.last().name@ == name
            &&& after.failed@.last().error@ == bounded_text(msg@)
        },
    }
}

/// `after` is `before` with step `step` of a plan for `names` recorded: a
/// missing name as a failure, an import with its outcome.
pub open spec fn step_recorded(
    before: LibraryImportResult,
    after: LibraryImportResult,
    names: Seq<String>,
    entries: Seq<RawEntry>,
    step: ImportStep,
    outcome: Result<(i64, bool), String>,
) -> bool {
    match step {
        ImportStep::Missing(pos) => missing_recorded(before, after, names[pos as int]@),
        ImportStep::Import { entry, .. } => outcome_recorded(
            before,
            after,
            entries[entry as int].name@,
            entries[entry as int].name@,
            outcome,
        ),
    }
}

/// Record a selected name that the catalogue does not offer.
pub fn record_missing(result: &mut LibraryImportResult, name: &str)
    ensures
        missing_recorded(*old(result), *final(result), name@),
{
    result.failed.push(
        LibraryImportFailure {
            name: String::from_str(name),
            error: String::from_str("this source does not offer that template"),
        },
    );
    assert(result.failed@.drop_last() =~= old(result).failed@);
}

/// Record the outcome of importing entry `entry_name` (selected as `name`):
/// the template written and whether it was updated in place, or the error
/// (bounded).
pub fn record_outcome(
    result: &mut LibraryImportResult,
    name: &str,
    entry_name: &str,
    outcome: Result<(i64, bool), String>,
)
    requires
        old(result).imported < usize::MAX,
        old(result).updated < usize::MAX,
    ensures
        outcome_recorded(*old(result), *final(result), name@, entry_name@, outcome),
{
    match outcome {
        Ok((template_id, updated)) => {
            if updated {
                result.updated = result.updated + 1;
            } else {
                result.imported = result.imported + 1;
            }
            result.templates.push(
                LibraryImportOutcome { name: String::from_str(entry_name), template_id, updated },
            );
            assert(result.templates@.drop_last() =~= old(result).templates@);
        },
        Err(msg) => {
            result.failed.push(
                LibraryImportFailure { name: String::from_str(name), error: bounded(msg.as_str()) },
            );
            assert(result.failed@.drop_last() =~= old(result).failed@);
        },
    }
}

/// Where an entry's HAR comes from.
#[derive(Clone, Debug)]
pub enum HarSource {
    /// The decoded bytes the manifest inlines.
    Inline(Vec<u8>),
    /// The URL to download it from.
    Download(String),
}

/// Where an entry's HAR comes from: its inlined content when not blank
/// (decoded), else its URL, else the raw URL of its file in the repository;
/// otherwise the message saying why there is none.
pub open spec fn har_source_of(source: Option<GitHubSource>, e: RawEntry) -> Result<
    Result<Seq<u8>, Seq<char>>,
    Seq<char>,
> {
    if present(e.content) {
        match base64_content(e.content.unwrap()@) {
            Some(b) => Ok(Ok(b)),
            None => Err(e.name@ + " has unreadable content"@),
        }
    } else {
        match e.url {
            Some(u) => Ok(Err(u@)),
            None => match source {
                Some(s) => Ok(Err(raw_url_of(s, e.filename@))),
                None => Err(e.name@ + " has neither content nor a download URL"@),
            },
        }
    }
}

/// Resolve where an entry's HAR comes from.
pub fn har_source(source: Option<&GitHubSource>, entry: &RawEntry) -> (r: Result<HarSource, String>)
    ensures
        match r {
            Ok(HarSource::Inline(b)) => har_source_of(
                match source {
                    Some(s) => Some(*s),
                    None => None,
                },
                *entry,
            ) == Ok::<Result<Seq<u8>, Seq<char>>, Seq<char>>(Ok(b@)),
            Ok(HarSource::Download(u)) => har_source_of(
                match source {
                    Some(s) => Some(*s),
                    None => None,
                },
                *entry,
            ) == Ok::<Result<Seq<u8>, Seq<char>>, Seq<char>>(Err(u@)),
            Err(m) => har_source_of(
                match source {
                    Some(s) => Some(*s),
                    None => None,
                },
                *entry,
            ) == Err::<Result<Seq<u8>, Seq<char>>, Seq<char>>(m@),
        },
{
    if is_present(&entry.content) {
        let content = match &entry.content {
            Some(c) => c,
            None => {
                return Err(String::new());
            },
        };
        return match decode_base64(content.as_str()) {
            Ok(b) => Ok(HarSource::Inline(b)),
            Err(_) => Err(cat(entry.name.as_str(), " has unreadable content")),
        };
    }
    match &entry.url {
        Some(u) => Ok(HarSource::Download(u.clone())),
        None => match source {
            Some(s) => Ok(HarSource::Download(s.raw_url(entry.filename.as_str()))),
            None => Err(cat(entry.name.as_str(), " has neither content nor a download URL")),
        },
    }
}

/// The catalogue entry a preview or a save names, or why there is none:
/// `this source does not offer` and the name.
pub fn offered_entry(catalogue: &Catalogue, name: &str) -> (r: Result<usize, String>)
    ensures
        match r {
            Ok(i) => entry_named(catalogue.entries@, name@) == Some(i as int),
            Err(m) => entry_named(catalogue.entries@, name@) is None && m@
                == "this source does not offer "@ + name@,
        },
{
    match find_entry(catalogue, name) {
        Some(i) => Ok(i),
        None => {
            let mut m: Vec<char> = Vec::new();
            append_str(&mut m, "this source does not offer ");
            append_str(&mut m, name);
            Err(string_of(m.as_slice()))
        },
    }
}

/// What saving an edited preview checks before anything is written: a
/// template name that is not blank, then the entry `entry` the source still
/// offers (its index in the catalogue).
pub fn apply_target(catalogue: &Catalogue, name: &str, entry: &str) -> (r: Result<usize, String>)
    ensures
        trim(name@).len() == 0 ==> r is Err && r->Err_0@ == "the template needs a name"@,
        trim(name@).len() > 0 ==> match r {
            Ok(i) => entry_named(catalogue.entries@, entry@) == Some(i as int),
            Err(m) => entry_named(catalogue.entries@, entry@) is None && m@
                == "this source does not offer "@ + entry@,
        },
{
    match check_template_name(name) {
        Err(m) => Err(String::from_str(m)),
        Ok(()) => offered_entry(catalogue, entry),
    }
}

/// A template saved from a preview needs a name that is not blank.
pub fn check_template_name(name: &str) -> (r: Result<(), &'static str>)
    ensures
        match r {
            Ok(()) => trim(name@).len() > 0,
            Err(m) => trim(name@).len() == 0 && m@ == "the template needs a name"@,
        },
{
    let c = chars_of(name);
    let t = trim_chars(c.as_slice());
    if t.len() == 0 {
        Err("the template needs a name")
    } else {
        Ok(())
    }
}

/// Milliseconds from `then` to `now` (zero when `now` is earlier).
pub open spec fn elapsed_ms(now: u64, then: u64) -> int {
    if now >= then {
        now - then
    } else {
        0
    }
}

/// The last cached slot for `url`: when it was fetched and its catalogue.
pub open spec fn slot_for(slots: Seq<(String, u64, Catalogue)>, url: Seq<char>) -> Option<(u64, Catalogue)>
    decreases slots.len(),
{
    if slots.len() == 0 {
        None
    } else if slots.last().0@ == url {
        Some((slots.last().1, slots.last().2))
    } else {
        slot_for(slots.drop_last(), url)
    }
}

/// Whether a slot survives a store at `now` of `url`: still within the TTL
/// and for another source.
pub open spec fn survives(slot: (String, u64, Catalogue), now: u64, url: Seq<char>) -> bool {
    elapsed_ms(now, slot.1) < CATALOGUE_TTL_SECS * 1000 && slot.0@ != url
}

/// Catalogues shared across subscriptions, owners and requests, by source
/// URL, with the time (in milliseconds) each was fetched. Each URL has one
/// slot.
pub struct CatalogueCache {
    slots: Vec<(String, u64, Catalogue)>,
}

impl CatalogueCache {
    #[verifier::type_invariant]
    spec fn one_slot_per_url(self) -> bool {
        forall|i: int, j: int|
            0 <= i < j < self.slots@.len() ==> #[trigger] self.slots@[i].0@ != #[trigger] self.slots@[j].0@
    }

    /// The cached slots, in the order they were stored.
    pub closed spec fn slots(self) -> Seq<(String, u64, Catalogue)> {
        self.slots@
    }

    /// An empty cache.
    pub fn new() -> (r: Self)
        ensures
            r.slots().len() == 0,
    {
        CatalogueCache { slots: Vec::new() }
    }

    /// The cached catalogue of `url` when `max_age_ms` is not zero and it
    /// was fetched less than `max_age_ms` before `now_ms`.
    pub fn lookup(&self, url: &str, now_ms: u64, max_age_ms: u64) -> (r: Option<&Catalogue>)
        ensures
            match r {
                Some(c) => max_age_ms > 0 && slot_for(self.slots(), url@) is Some && elapsed_ms(
                    now_ms,
                    slot_for(self.slots(), url@).unwrap().0,
                ) < max_age_ms && *c == slot_for(self.slots(), url@).unwrap().1,
                None => max_age_ms == 0 || slot_for(self.slots(), url@) is None || elapsed_ms(
                    now_ms,
                    slot_for(self.slots(), url@).unwrap().0,
                ) >= max_age_ms,
            },
    {
        if max_age_ms == 0 {
            return None;
        }
        let mut k: usize = self.slots.len();
        assert(self.slots@.take(k as int) =~= self.slots@);
        while k > 0
            invariant
                k <= self.slots.len(),
                slot_for(self.slots@, url@) == slot_for(self.slots@.take(k as int), url@),
            decreases k,
        {
            assert(self.slots@.take(k as int).drop_last() =~= self.slots@.take(k - 1));
            assert(self.slots@.take(k as int).last() == self.slots@[k - 1]);
            if str_eq(self.slots[k - 1].0.as_str(), url) {
                let then = self.slots[k - 1].1;
                let elapsed: u64 = if now_ms >= then {
                    now_ms - then
                } else {
                    0
                };
                if elapsed < max_age_ms {
                    return Some(&self.slots[k - 1].2);
                } else {
                    return None;
                }
            }
            k = k - 1;
        }
        None
    }

    /// Store a freshly fetched catalogue of `url` at `now_ms`, dropping the
    /// slots older than the TTL and any earlier slot of `url`.
    pub fn store(&mut self, url: &str, now_ms: u64, catalogue: Catalogue)
        ensures
            final(self).slots().len() >= 1,
            final(self).slots().drop_last() == old(self).slots().filter(
                |x: (String, u64, Catalogue)| survives(x, now_ms, url@),
            ),
            final(self).slots().last().0@ == url@,
            final(self).slots().last().1 == now_ms,
            final(self).slots().last().2 == catalogue,
    {
        proof {
            use_type_invariant(&*self);
        }
        let ghost start = self.slots@;
        let mut old_slots: Vec<(String, u64, Catalogue)> = Vec::new();
        std::mem::swap(&mut old_slots, &mut self.slots);
        let mut kept: Vec<(String, u64, Catalogue)> = Vec::new();
        let ghost mut done: int = 0;
        while old_slots.len() > 0
            invariant
                0 <= done <= start.len(),
                old_slots@ == start.skip(done),
                kept@ == start.take(done).filter(
                    |x: (String, u64, Catalogue)| survives(x, now_ms, url@),
                ),
                forall|a: int, b: int|
                    0 <= a < b < start.len() ==> #[trigger] start[a].0@ != #[trigger] start[b].0@,
                forall|a: int, b: int|
                    0 <= a < b < kept@.len() ==> #[trigger] kept@[a].0@ != #[trigger] kept@[b].0@,
                forall|a: int| 0 <= a < kept@.len() ==> (#[trigger] kept@[a]).0@ != url@,
                forall|a: int|
                    0 <= a < kept@.len() ==> exists|m: int|
                        0 <= m < done && start[m].0@ == (#[trigger] kept@[a]).0@,
            decreases old_slots.len(),
        {
            let slot = old_slots.remove(0);
            proof {
                reveal(Seq::filter);
                assert(start.take(done + 1).drop_last() =~= start.take(done));
                assert(start.take(done + 1).last() == slot);
            }
            let then = slot.1;
            let elapsed: u64 = if now_ms >= then {
                now_ms - then
            } else {
                0
            };
            let fresh = elapsed < CATALOGUE_TTL_SECS * 1000;
            if fresh && !str_eq(slot.0.as_str(), url) {
                let ghost before_kept = kept@;
                kept.push(slot);
                proof {
                    assert forall|a: int| 0 <= a < kept@.len() implies exists|m: int|
                        0 <= m < done + 1 && start[m].0@ == (#[trigger] kept@[a]).0@ by {
                        if a < before_kept.len() {
                            assert(kept@[a] == before_kept[a]);
                        } else {
                            assert(start[done].0@ == kept@[a].0@);
                        }
                    }
                    assert forall|a: int, b: int|
                        0 <= a < b < kept@.len() implies #[trigger] kept@[a].0@ != #[trigger] kept@[b].0@ by {
                        if b == kept@.len() - 1 {
                            assert(kept@[a] == before_kept[a]);
                            let m = choose|m: int| 0 <= m < done && start[m].0@ == before_kept[a].0@;
                            assert(start[m].0@ != start[done].0@);
                        } else {
                            assert(kept@[a] == before_kept[a]);
                            assert(kept@[b] == before_kept[b]);
                        }
                    }
                }
            }
            proof {
                assert(start.skip(done).subrange(1, start.skip(done).len() as int) =~= start.skip(
                    done + 1,
                ));
                done = done + 1;
            }
        }
        proof {
            assert(start.take(done) =~= start);
        }
        let ghost before = kept@;
        kept.push((String::from_str(url), now_ms, catalogue));
        assert(kept@.drop_last() =~= before);
        proof {
            assert forall|i: int, j: int|
                0 <= i < j < kept@.len() implies #[trigger] kept@[i].0@ != #[trigger] kept@[j].0@ by {
                if j == kept@.len() - 1 {
                    assert(kept@[i] == before[i]);
                } else {
                    assert(kept@[i] == before[i]);
                    assert(kept@[j] == before[j]);
                }
            }
        }
        self.slots = kept;
    }
}

/// A catalogue just stored is what the cache gives back for its source
/// while it is younger than the age asked for.
pub proof fn law_cache_reads_back_a_store(
    slots: Seq<(String, u64, Catalogue)>,
    url: Seq<char>,
    fetched_ms: u64,
    catalogue: Catalogue,
    now_ms: u64,
    max_age_ms: u64,
)
    requires
        slots.len() >= 1,
        slots.last().0@ == url,
        slots.last().1 == fetched_ms,
        slots.last().2 == catalogue,
        max_age_ms > 0,
        elapsed_ms(now_ms, fetched_ms) < max_age_ms,
    ensures
        slot_for(slots, url) == Some((fetched_ms, catalogue)),
        elapsed_ms(now_ms, slot_for(slots, url).unwrap().0) < max_age_ms,
{
}

/// The aggregate listing never holds more than `MAX_OVERVIEW_ENTRIES` rows.
pub proof fn law_overview_is_bounded(reads: Seq<SourceRead>, n: int)
    ensures
        taken_before(reads, n) <= MAX_OVERVIEW_ENTRIES,
{
    lemma_taken_bound(reads, n);
}

proof fn lemma_lex_irreflexive(a: Seq<char>)
    ensures
        !lex_less(a, a),
    decreases a.len(),
{
    if a.len() > 0 {
        lemma_lex_irreflexive(a.drop_first());
    }
}

proof fn lemma_lex_asymmetric(a: Seq<char>, b: Seq<char>)
    ensures
        lex_less(a, b) ==> !lex_less(b, a),
    decreases a.len(),
{
    if a.len() > 0 && b.len() > 0 && a[0] == b[0] {
        lemma_lex_asymmetric(a.drop_first(), b.drop_first());
    }
}

/// No version is newer than itself.
pub proof fn law_version_not_newer_than_itself(v: Option<Seq<char>>)
    ensures
        !newer_version(v, v),
{
    match v {
        Some(x) => lemma_lex_irreflexive(trim(x)),
        None => {},
    }
}

/// Of two versions, at most one is newer than the other.
pub proof fn law_version_order_is_asymmetric(a: Option<Seq<char>>, b: Option<Seq<char>>)
    ensures
        newer_version(a, b) ==> !newer_version(b, a),
{
    match (a, b) {
        (Some(x), Some(y)) => {
            lemma_lex_asymmetric(trim(x), trim(y));
            lemma_lex_asymmetric(trim(y), trim(x));
        },
        _ => {},
    }
}

/// A bounded message is at most 4099 characters long.
pub proof fn law_bounded_length(message: Seq<char>)
    ensures
        bounded_text(message).len() <= 4099,
{
    reveal_strlit("...");
}

proof fn lemma_recorded_prefix(
    names: Seq<String>,
    entries: Seq<RawEntry>,
    steps: Seq<ImportStep>,
    outcomes: Seq<Result<(i64, bool), String>>,
    results: Seq<LibraryImportResult>,
    k: int,
)
    requires
        0 <= k <= steps.len(),
        outcomes.len() == steps.len(),
        results.len() == steps.len() + 1,
        results[0].templates@.len() == 0,
        results[0].failed@.len() == 0,
        results[0].imported == 0,
        results[0].updated == 0,
        forall|j: int|
            #![trigger steps[j]]
            0 <= j < steps.len() ==> step_recorded(
                results[j],
                results[j + 1],
                names,
                entries,
                steps[j],
                outcomes[j],
            ),
    ensures
        results[k].templates@.len() + results[k].failed@.len() == k,
        results[k].imported + results[k].updated == results[k].templates@.len(),
    decreases k,
{
    if k > 0 {
        lemma_recorded_prefix(names, entries, steps, outcomes, results, k - 1);
        assert(step_recorded(
            results[k - 1],
            results[k],
            names,
            entries,
            steps[k - 1],
            outcomes[k - 1],
        ));
    }
}

/// Importing a selection reports each distinct selected name exactly once:
/// when every step of the selection's plan is recorded in turn, starting
/// from an empty result, the templates and the failures together number the
/// distinct names, and the imported and updated counts add up to the
/// templates written.
pub proof fn law_each_selected_name_is_reported_once(
    names: Seq<String>,
    entries: Seq<RawEntry>,
    imports: Seq<TemplateImport>,
    steps: Seq<ImportStep>,
    outcomes: Seq<Result<(i64, bool), String>>,
    results: Seq<LibraryImportResult>,
)
    requires
        plan_of(names, entries, imports, steps),
        outcomes.len() == steps.len(),
        results.len() == steps.len() + 1,
        results[0].templates@.len() == 0,
        results[0].failed@.len() == 0,
        results[0].imported == 0,
        results[0].updated == 0,
        forall|j: int|
            #![trigger steps[j]]
            0 <= j < steps.len() ==> step_recorded(
                results[j],
                results[j + 1],
                names,
                entries,
                steps[j],
                outcomes[j],
            ),
    ensures
        results.last().templates@.len() + results.last().failed@.len() == first_occurrences(
            names,
            names.len() as int,
        ).len(),
        results.last().imported + results.last().updated == results.last().templates@.len(),
{
    lemma_recorded_prefix(names, entries, steps, outcomes, results, steps.len() as int);
}

/// Where an entry's HAR comes from, for every source and entry: inlined
/// content that is not blank is decoded and used; otherwise the entry's own
/// URL when it has one; otherwise, from a known GitHub source, the raw file
/// the entry names (`filename`) on the source's branch; and with none of
/// these the entry cannot be fetched.
pub proof fn law_har_comes_from_content_url_or_file(source: Option<GitHubSource>, e: RawEntry)
    ensures
        present(e.content) ==> (har_source_of(source, e) is Ok <==> base64_content(
            e.content.unwrap()@,
        ) is Some),
        present(e.content) && base64_content(e.content.unwrap()@) is Some ==> har_source_of(source, e)
            == Ok::<Result<Seq<u8>, Seq<char>>, Seq<char>>(Ok(base64_content(e.content.unwrap()@).unwrap())),
        !present(e.content) && e.url is Some ==> har_source_of(source, e) == Ok::<
            Result<Seq<u8>, Seq<char>>,
            Seq<char>,
        >(Err(e.url.unwrap()@)),
        !present(e.content) && e.url is None && source is Some ==> har_source_of(source, e) == Ok::<
            Result<Seq<u8>, Seq<char>>,
            Seq<char>,
        >(
            Err(
                "https://raw.githubusercontent.com/"@ + source.unwrap().owner@ + "/"@
                    + source.unwrap().repo@ + "/"@ + source.unwrap().branch@ + "/"@
                    + e.filename@,
            ),
        ),
        !present(e.content) && e.url is None && source is None ==> har_source_of(source, e) is Err,
{
}

} // verus!
