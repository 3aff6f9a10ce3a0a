//! The browser's call back to the proxy at the end of an authorization: what it
//! brings, and the page that it is answered with.
use vstd::prelude::*;
use vstd::string::StringExecFns;
use vstd::utf8::{decode_utf8, valid_utf8};

use crate::text::{first_line, next_word, read_first_line, text_eq, words};

verus! {

/// What `String::from_utf8_lossy` makes of bytes.
pub uninterp spec fn lossy_text(bytes: Seq<u8>) -> Seq<char>;

/// `String::from_utf8_lossy` of std. What it makes of the bytes depends on them
/// alone, and of valid UTF-8 it makes the text that they encode. What stands in
/// the place of other bytes is left unsaid.
#[verifier::external_body]
fn text_of_bytes(bytes: &[u8]) -> (r: String)
    ensures
        r@ == lossy_text(bytes@),
        valid_utf8(bytes@) ==> r@ == decode_utf8(bytes@),
{
    String::from_utf8_lossy(bytes).into_owned()
}

/// The pairs in the query of a URL; nothing, where the text is no URL.
pub uninterp spec fn url_query(text: Seq<char>) -> Option<Seq<(Seq<char>, Seq<char>)>>;

pub open spec fn pair_views(pairs: Seq<(String, String)>) -> Seq<(Seq<char>, Seq<char>)> {
    pairs.map_values(|p: (String, String)| (p.0@, p.1@))
}

/// `Url::parse` of the crate `url`, and of its result `query_pairs`, each pair as
/// two texts. Whether the text is a URL, and which pairs its query has, depends
/// on the text alone.
#[verifier::external_body]
fn query_of_url(text: &str) -> (r: Option<Vec<(String, String)>>)
    ensures
        r is Some <==> url_query(text@) is Some,
        r matches Some(pairs) ==> url_query(text@) == Some(pair_views(pairs@)),
{
    url::Url::parse(text).ok().map(|url| url.query_pairs().into_owned().collect())
}

/// What a request is for: the second word of its first line.
pub open spec fn target_of(request: Seq<char>) -> Option<Seq<char>> {
    let line = words(first_line(request));
    if line.len() >= 2 {
        Some(line[1])
    } else {
        None
    }
}

/// What a request is for.
pub fn read_target<'a>(request: &'a str) -> (r: Option<&'a str>)
    ensures
        match r {
            Some(target) => target_of(request@) == Some(target@),
            None => target_of(request@) is None,
        },
{
    let line = read_first_line(request);
    match next_word(line) {
        Some((_, rest)) => match next_word(rest) {
            Some((word, _)) => Some(word),
            None => None,
        },
        None => None,
    }
}

/// The value of the first pair that is called `code`.
pub open spec fn code_of(pairs: Seq<(Seq<char>, Seq<char>)>) -> Option<Seq<char>>
    decreases pairs.len(),
{
    if pairs.len() == 0 {
        None
    } else if pairs[0].0 == "code"@ {
        Some(pairs[0].1)
    } else {
        code_of(pairs.drop_first())
    }
}

/// The value of the first pair that is called `code`.
pub fn read_code(pairs: &Vec<(String, String)>) -> (r: Option<String>)
    ensures
        match r {
            Some(code) => code_of(pair_views(pairs@)) == Some(code@),
            None => code_of(pair_views(pairs@)) is None,
        },
{
    let ghost all = pair_views(pairs@);
    let mut i: usize = 0;
    assert(all.skip(0) =~= all);
    while i < pairs.len()
        invariant
            i <= pairs@.len(),
            all == pair_views(pairs@),
            code_of(all) == code_of(all.skip(i as int)),
        decreases pairs.len() - i,
    {
        if text_eq(pairs[i].0.as_str(), "code") {
            return Some(pairs[i].1.clone());
        }
        assert(all.skip(i as int).drop_first() =~= all.skip(i + 1));
        i = i + 1;
    }
    None
}

/// The authorization code that a request brings.
pub open spec fn code_in_request(request: Seq<char>) -> Option<Seq<char>> {
    match target_of(request) {
        Some(path) => match url_query("http://localhost"@ + path) {
            Some(pairs) => code_of(pairs),
            None => None,
        },
        None => None,
    }
}

/// The authorization code that a request brings.
pub fn callback_code(request: &str) -> (r: Option<String>)
    ensures
        match r {
            Some(code) => code_in_request(request@) == Some(code@),
            None => code_in_request(request@) is None,
        },
{
    match read_target(request) {
        Some(path) => {
            let mut url = "http://localhost".to_owned();
            url.append(path);
            match query_of_url(url.as_str()) {
                Some(pairs) => read_code(&pairs),
                None => None,
            }
        },
        None => None,
    }
}

/// The page for an authorization that brought a code.
pub open spec fn success_page() -> Seq<char> {
    "HTTP/1.1 200 OK\r\nContent-Type: text/html; charset=utf-8\r\n\r\n\
    <html>\
    <body style='font-family: sans-serif; text-align: center; padding: 50px;'>\
    <h1 style='color: green;'>✅ Authorization Successful!</h1>\
    <p>You can close this window and return to the application.</p>\
    <script>setTimeout(function() { window.close(); }, 2000);</script>\
    </body>\
    </html>"@
}

/// The page for an authorization that brought none.
pub open spec fn fail_page() -> Seq<char> {
    "HTTP/1.1 400 Bad Request\r\nContent-Type: text/html; charset=utf-8\r\n\r\n\
    <html>\
    <body style='font-family: sans-serif; text-align: center; padding: 50px;'>\
    <h1 style='color: red;'>❌ Authorization Failed</h1>\
    <p>Failed to obtain Authorization Code. Please return to the app and try again.</p>\
    </body>\
    </html>"@
}

/// The HTTP answer to a callback that brought a code.
pub fn oauth_success_html() -> (r: &'static str)
    ensures
        r@ == success_page(),
{
    "HTTP/1.1 200 OK\r\nContent-Type: text/html; charset=utf-8\r\n\r\n\
    <html>\
    <body style='font-family: sans-serif; text-align: center; padding: 50px;'>\
    <h1 style='color: green;'>✅ Authorization Successful!</h1>\
    <p>You can close this window and return to the application.</p>\
    <script>setTimeout(function() { window.close(); }, 2000);</script>\
    </body>\
    </html>"
}

/// The HTTP answer to a callback that brought none.
pub fn oauth_fail_html() -> (r: &'static str)
    ensures
        r@ == fail_page(),
{
    "HTTP/1.1 400 Bad Request\r\nContent-Type: text/html; charset=utf-8\r\n\r\n\
    <html>\
    <body style='font-family: sans-serif; text-align: center; padding: 50px;'>\
    <h1 style='color: red;'>❌ Authorization Failed</h1>\
    <p>Failed to obtain Authorization Code. Please return to the app and try again.</p>\
    </body>\
    </html>"
}

/// A result whose value and error are texts.
pub open spec fn text_result(r: Result<String, String>) -> Result<Seq<char>, Seq<char>> {
    match r {
        Ok(s) => Ok(s@),
        Err(s) => Err(s@),
    }
}

/// What a callback leads to: what is handed on, and the page for the browser.
pub open spec fn callback_outcome(code: Option<Seq<char>>) -> (
    Result<Seq<char>, Seq<char>>,
    Seq<char>,
) {
    match code {
        Some(code) => (Ok(code), success_page()),
        None => (Err("Failed to get Authorization Code in callback"@), fail_page()),
    }
}

/// What a callback with that code, or without one, leads to.
pub fn callback_reply(code: Option<String>) -> (r: (Result<String, String>, &'static str))
    ensures
        (text_result(r.0), r.1@) == callback_outcome(
            match code {
                Some(s) => Some(s@),
                None => None,
            },
        ),
{
    match code {
        Some(code) => (Ok(code), oauth_success_html()),
        None => (
            Err("Failed to get Authorization Code in callback".to_owned()),
            oauth_fail_html(),
        ),
    }
}

/// Answers the request of a browser, given as the bytes that came in.
pub fn answer_callback(request: &[u8]) -> (r: (Result<String, String>, &'static str))
    ensures
        (text_result(r.0), r.1@) == callback_outcome(code_in_request(lossy_text(request@))),
        valid_utf8(request@) ==> (text_result(r.0), r.1@) == callback_outcome(
            code_in_request(decode_utf8(request@)),
        ),
{
    let text = text_of_bytes(request);
    callback_reply(callback_code(text.as_str()))
}

/// Claims the right to hand a result on. The first callback gets it, the ones
/// after it get nothing.
pub fn claim_sender<S>(slot: &mut Option<S>) -> (r: Option<S>)
    ensures
        r == *old(slot),
        *final(slot) is None,
{
    slot.take()
}

/// The browser is shown a success exactly where a code is handed on.
pub proof fn law_page_fits_outcome(code: Option<Seq<char>>)
    ensures
        callback_outcome(code).0 is Ok ==> callback_outcome(code).1 == success_page(),
        callback_outcome(code).0 is Err ==> callback_outcome(code).1 == fail_page(),
        callback_outcome(code).0 is Ok <==> code is Some,
{
}

/// What comes after the first line of a request makes no difference.
pub proof fn law_first_line_decides(line: Seq<char>, more: Seq<char>)
    requires
        !line.contains('\n'),
    ensures
        code_in_request(line.push('\n') + more) == code_in_request(line),
{
    lemma_first_line(line, more);
    lemma_whole_line(line);
}

proof fn lemma_first_line(line: Seq<char>, more: Seq<char>)
    requires
        !line.contains('\n'),
    ensures
        first_line(line.push('\n') + more) == line,
    decreases line.len(),
{
    let s = line.push('\n') + more;
    if line.len() == 0 {
        assert(s[0] == '\n');
        assert(first_line(s) =~= line);
    } else {
        assert(line.contains(line[0]));
        assert forall|c: char| line.drop_first().contains(c) implies line.contains(c) by {
            let i = choose|i: int| 0 <= i < line.drop_first().len() && line.drop_first()[i] == c;
            assert(line[i + 1] == c);
        }
        lemma_first_line(line.drop_first(), more);
        assert(s.drop_first() =~= line.drop_first().push('\n') + more);
        assert(first_line(s) =~= line);
    }
}

proof fn lemma_whole_line(line: Seq<char>)
    requires
        !line.contains('\n'),
    ensures
        first_line(line) == line,
    decreases line.len(),
{
    if line.len() > 0 {
        assert(line.contains(line[0]));
        assert forall|c: char| line.drop_first().contains(c) implies line.contains(c) by {
            let i = choose|i: int| 0 <= i < line.drop_first().len() && line.drop_first()[i] == c;
            assert(line[i + 1] == c);
        }
        lemma_whole_line(line.drop_first());
        assert(first_line(line) =~= line);
    } else {
        assert(first_line(line) =~= line);
    }
}

} // verus!
