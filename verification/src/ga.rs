//! Injecting the Google Analytics snippet into served HTML pages when a key
//! is configured.

use vstd::prelude::*;

use crate::text::{
    append_chars, append_str, chars_contains, chars_of, contains, find_chars_from, find_from,
    string_of, sub_chars,
};

verus! {

/// Whether a response's `Content-Type` marks HTML.
pub fn is_html(content_type: Option<&str>) -> (r: bool)
    ensures
        r == match content_type {
            Some(t) => contains(t@, "text/html"@),
            None => false,
        },
{
    match content_type {
        Some(t) => {
            let v = chars_of(t);
            let p = chars_of("text/html");
            chars_contains(v.as_slice(), p.as_slice())
        },
        None => false,
    }
}

/// The snippet for `key`, ending with the `</head>` it replaces.
pub open spec fn ga_script(key: Seq<char>) -> Seq<char> {
    "<script async src=\"https://www.googletagmanager.com/gtag/js?id="@ + key
        + "\"></script>\n<script>\n  window.dataLayer = window.dataLayer || [];\n  function gtag() { dataLayer.push(arguments); }\n  gtag('js', new Date());\n  gtag('config', '"@
        + key + "');\n</script>\n</head>"@
}

/// The page with the snippet in place of its first `</head>`, or appended
/// on a new line when it has none.
pub open spec fn injected(html: Seq<char>, key: Seq<char>) -> Seq<char> {
    let i = find_from(html, "</head>"@, 0);
    if i >= 0 {
        html.take(i) + ga_script(key) + html.skip(i + 7)
    } else {
        html + "\n"@ + ga_script(key)
    }
}

fn script_for(key: &str) -> (r: Vec<char>)
    ensures
        r@ == ga_script(key@),
{
    let mut v: Vec<char> = Vec::new();
    append_str(&mut v, "<script async src=\"https://www.googletagmanager.com/gtag/js?id=");
    append_str(&mut v, key);
    append_str(
        &mut v,
        "\"></script>\n<script>\n  window.dataLayer = window.dataLayer || [];\n  function gtag() { dataLayer.push(arguments); }\n  gtag('js', new Date());\n  gtag('config', '",
    );
    append_str(&mut v, key);
    append_str(&mut v, "');\n</script>\n</head>");
    v
}

/// Inject the analytics snippet for `key` into an HTML page.
pub fn inject_ga(html: &str, key: &str) -> (r: String)
    ensures
        r@ == injected(html@, key@),
{
    proof {
        reveal_strlit("</head>");
    }
    let v = chars_of(html);
    let close = chars_of("</head>");
    let script = script_for(key);
    match find_chars_from(v.as_slice(), close.as_slice(), 0) {
        Some(i) => {
            proof {
                crate::text::lemma_find_from(v@, close@, 0);
                assert(close@.len() == 7);
            }
            assert(i + 7 <= v.len());
            let mut out = sub_chars(v.as_slice(), 0, i);
            append_chars(&mut out, script.as_slice());
            let tail = sub_chars(v.as_slice(), i + 7, v.len());
            append_chars(&mut out, tail.as_slice());
            string_of(out.as_slice())
        },
        None => {
            let mut out = v;
            append_str(&mut out, "\n");
            append_chars(&mut out, script.as_slice());
            string_of(out.as_slice())
        },
    }
}

/// The layer that puts [`InjectGaService`] in front of the served pages.
/// The key is read from the runtime settings at each request, so a change
/// takes effect without a restart.
#[derive(Clone, Copy, Debug)]
pub struct InjectGaLayer {}

impl InjectGaLayer {
    pub fn new() -> (r: Self) {
        InjectGaLayer {  }
    }

    /// The service for one request, with the key the settings hold now.
    pub fn service(&self, ga_key: Option<String>) -> (r: InjectGaService)
        ensures
            r.ga_key == ga_key,
    {
        InjectGaService { ga_key }
    }
}

/// Adds the analytics snippet to HTML responses when a key is configured.
#[derive(Clone, Debug)]
pub struct InjectGaService {
    pub ga_key: Option<String>,
}

impl InjectGaService {
    /// The body a response goes out with: `None` leaves it untouched (no key,
    /// or not HTML); otherwise the page with the snippet injected.
    pub fn call(&self, content_type: Option<&str>, body: &str) -> (r: Option<String>)
        ensures
            match r {
                Some(page) => self.ga_key is Some && is_html_type(content_type) && page@ == injected(
                    body@,
                    self.ga_key.unwrap()@,
                ),
                None => self.ga_key is None || !is_html_type(content_type),
            },
    {
        match &self.ga_key {
            None => None,
            Some(key) => if is_html(content_type) {
                Some(inject_ga(body, key.as_str()))
            } else {
                None
            },
        }
    }
}

/// Whether a `Content-Type` marks HTML.
pub open spec fn is_html_type(content_type: Option<&str>) -> bool {
    match content_type {
        Some(t) => contains(t@, "text/html"@),
        None => false,
    }
}

} // verus!
