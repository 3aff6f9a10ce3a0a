//! What holds of the browser's call back, over the text of its request.
use vstd::prelude::*;

use crate::callback::{
    callback_outcome, code_in_request, code_of, fail_page, success_page, target_of, url_query,
};
use crate::text::{white_space, words};
use crate::text_laws::{blank, is_word, law_first_line, law_words};

verus! {

/// A request is for the second word of its first line, whatever white space stands
/// around the words and whatever follows the line.
pub proof fn law_target(
    before: Seq<char>,
    method: Seq<char>,
    gap: Seq<char>,
    path: Seq<char>,
    rest: Seq<char>,
    more: Seq<char>,
)
    requires
        blank(before),
        is_word(method),
        blank(gap),
        gap.len() > 0,
        is_word(path),
        rest.len() > 0 ==> white_space(rest[0]),
        !(before + method + (gap + path + rest)).contains('\n'),
    ensures
        ({
            let line = before + method + (gap + path + rest);
            &&& target_of(line) == Some(path)
            &&& target_of(line.push('\n') + more) == Some(path)
        }),
{
    let line = before + method + (gap + path + rest);
    law_first_line(line, more);
    assert(white_space(gap[0]));
    assert((gap + path + rest)[0] == gap[0]);
    law_words(before, method, gap + path + rest);
    law_words(gap, path, rest);
    let all = words(line);
    assert(all == seq![method] + (seq![path] + words(rest)));
    assert(all[1] == path);
}

/// A first line with fewer than two words is for nothing.
pub proof fn law_no_target(
    before: Seq<char>,
    method: Seq<char>,
    after: Seq<char>,
    more: Seq<char>,
)
    requires
        blank(before),
        is_word(method),
        blank(after),
        !(before + method + after).contains('\n'),
        !before.contains('\n'),
    ensures
        target_of(before + method + after) is None,
        target_of((before + method + after).push('\n') + more) is None,
        target_of(before) is None,
        target_of(before.push('\n') + more) is None,
{
    let line = before + method + after;
    law_first_line(line, more);
    law_first_line(before, more);
    if after.len() > 0 {
        assert(white_space(after[0]));
    }
    law_words(before, method, after);
    law_words(after, method, Seq::empty());
    assert(words(line) =~= seq![method]);
}

/// The code is the value of the first pair that is called `code`, whatever stands
/// before and behind it; without such a pair there is none.
pub proof fn law_code(
    before: Seq<(Seq<char>, Seq<char>)>,
    code: Seq<char>,
    after: Seq<(Seq<char>, Seq<char>)>,
)
    requires
        forall|i: int| 0 <= i < before.len() ==> (#[trigger] before[i]).0 != "code"@,
    ensures
        code_of(before.push(("code"@, code)) + after) == Some(code),
        code_of(before) is None,
    decreases before.len(),
{
    let all = before.push(("code"@, code)) + after;
    if before.len() == 0 {
        assert(all[0] == ("code"@, code));
    } else {
        let rest = before.drop_first();
        assert(before[0].0 != "code"@);
        assert(all[0] == before[0]);
        assert forall|i: int| 0 <= i < rest.len() implies (#[trigger] rest[i]).0 != "code"@ by {
            assert(rest[i] == before[i + 1]);
        }
        law_code(rest, code, after);
        assert(all.drop_first() =~= rest.push(("code"@, code)) + after);
    }
}

/// A request brings the code in the query of what it is for, read as a path on
/// `localhost`.
pub proof fn law_code_in_request(request: Seq<char>, path: Seq<char>)
    ensures
        target_of(request) is None ==> code_in_request(request) is None,
        target_of(request) == Some(path) ==> match url_query("http://localhost"@ + path) {
            Some(pairs) => code_in_request(request) == code_of(pairs),
            None => code_in_request(request) is None,
        },
{
}

/// A code is handed on as it is, with the page for success; without one the caller
/// is told so, with the page for failure.
pub proof fn law_outcome(code: Seq<char>)
    ensures
        callback_outcome(Some(code)) == (Ok::<Seq<char>, Seq<char>>(code), success_page()),
        callback_outcome(None) == (
            Err::<Seq<char>, Seq<char>>("Failed to get Authorization Code in callback"@),
            fail_page(),
        ),
{
}

/// The answers to the browser, as they go over the wire.
pub proof fn law_pages()
    ensures
        success_page() == "HTTP/1.1 200 OK\r\nContent-Type: text/html; charset=utf-8\r\n\r\n\
    <html>\
    <body style='font-family: sans-serif; text-align: center; padding: 50px;'>\
    <h1 style='color: green;'>✅ Authorization Successful!</h1>\
    <p>You can close this window and return to the application.</p>\
    <script>setTimeout(function() { window.close(); }, 2000);</script>\
    </body>\
    </html>"@,
        fail_page() == "HTTP/1.1 400 Bad Request\r\nContent-Type: text/html; charset=utf-8\r\n\r\n\
    <html>\
    <body style='font-family: sans-serif; text-align: center; padding: 50px;'>\
    <h1 style='color: red;'>❌ Authorization Failed</h1>\
    <p>Failed to obtain Authorization Code. Please return to the app and try again.</p>\
    </body>\
    </html>"@,
{
}

} // verus!
