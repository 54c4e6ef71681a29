//! Signing in with Google: where the user is sent, and what comes back.
use vstd::prelude::*;
use vstd::string::*;
use vstd::utf8::encode_utf8;

use crate::account::text_result;
use crate::codec::{lossy_text, percent_encoded, url_encode, utf8_lossy};
use crate::mime::pair_texts;
use crate::number::{decimal, decimal_text, push_decimal};
use crate::text::{
    cat3, chars_of, contains_text, copy, find_char, find_one, lemma_find_char,
    lemma_find_char_unique, opt_text, same, stands_at, starts, string_of, texts,
};
use crate::words::{split_words, words};

verus! {

// ---------------------------------------------------------------------------
// Where the user is sent
// ---------------------------------------------------------------------------
/// Where Google sends the user back to.
pub open spec fn redirect_target(port: nat) -> Seq<char> {
    "http://127.0.0.1:"@ + decimal(port) + "/callback"@
}

/// Computes [`redirect_target`].
pub fn oauth_redirect_uri(port: u16) -> (r: String)
    ensures
        r@ == redirect_target(port as nat),
{
    let port = decimal_text(port as u64);
    cat3("http://127.0.0.1:", port.as_str(), "/callback")
}

/// What is asked for.
pub open spec fn oauth_scope() -> Seq<char> {
    "https://www.googleapis.com/auth/gmail.modify https://www.googleapis.com/auth/gmail.send"@
}

/// Where the user is sent to sign in.
pub open spec fn authorization_url(
    client_id: Seq<char>,
    redirect_uri: Seq<char>,
    state: Seq<char>,
) -> Seq<char> {
    "https://accounts.google.com/o/oauth2/v2/auth?client_id="@ + percent_encoded(client_id)
        + "&redirect_uri="@ + percent_encoded(redirect_uri) + "&response_type=code&scope="@
        + percent_encoded(oauth_scope()) + "&access_type=offline&prompt=consent&state="@
        + percent_encoded(state)
}

/// Computes [`authorization_url`].
pub fn oauth_authorization_url(client_id: &str, redirect_uri: &str, state: &str) -> (r: String)
    ensures
        r@ == authorization_url(client_id@, redirect_uri@, state@),
{
    let mut url = "https://accounts.google.com/o/oauth2/v2/auth?client_id=".to_owned();
    url.append(url_encode(client_id).as_str());
    url.append("&redirect_uri=");
    url.append(url_encode(redirect_uri).as_str());
    url.append("&response_type=code&scope=");
    url.append(
        url_encode(
            "https://www.googleapis.com/auth/gmail.modify https://www.googleapis.com/auth/gmail.send",
        ).as_str(),
    );
    url.append("&access_type=offline&prompt=consent&state=");
    url.append(url_encode(state).as_str());
    url
}

// ---------------------------------------------------------------------------
// What comes back
// ---------------------------------------------------------------------------
/// The pairs of names and values that a query string stands for.
pub uninterp spec fn form_pairs(query: Seq<char>) -> Seq<(Seq<char>, Seq<char>)>;

/// `form_urlencoded::parse` of the crate `url`, on the UTF-8 bytes of a query
/// string: the pairs in order, decoded.
#[verifier::external_body]
fn parse_form(query: &str) -> (r: Vec<(String, String)>)
    ensures
        pair_texts(r@) == form_pairs(query@),
{
    url::form_urlencoded::parse(query.as_bytes()).into_owned().collect()
}

/// The query string of a path: between the first question mark and the next hash
/// sign.
pub open spec fn query_string(path: Seq<char>) -> Option<Seq<char>> {
    match find_char(path, '?', 0) {
        Some(a) => match find_char(path, '#', a + 1) {
            Some(b) => Some(path.subrange(a + 1, b)),
            None => Some(path.skip(a + 1)),
        },
        None => None,
    }
}

/// The value of the first pair with a name.
pub open spec fn first_value(pairs: Seq<(Seq<char>, Seq<char>)>, name: Seq<char>) -> Option<Seq<char>>
    decreases pairs.len(),
{
    if pairs.len() == 0 {
        None
    } else if pairs[0].0 == name {
        Some(pairs[0].1)
    } else {
        first_value(pairs.skip(1), name)
    }
}

/// The parameter of a path with a name.
pub open spec fn path_param(path: Seq<char>, name: Seq<char>) -> Option<Seq<char>> {
    match query_string(path) {
        Some(query) => first_value(form_pairs(query), name),
        None => None,
    }
}

/// Computes [`query_string`].
pub fn path_query(path: &str) -> (r: Option<String>)
    ensures
        opt_text(r) == query_string(path@),
{
    let v = chars_of(path);
    let a = match find_one(&v, '?', 0) {
        Some(a) => a,
        None => {
            return None;
        },
    };
    match find_one(&v, '#', a + 1) {
        Some(b) => Some(string_of(&v, a + 1, b)),
        None => {
            assert(v@.subrange(a + 1, v.len() as int) =~= path@.skip(a + 1));
            Some(string_of(&v, a + 1, v.len()))
        },
    }
}

/// Computes [`first_value`].
pub fn find_value(pairs: &Vec<(String, String)>, name: &str) -> (r: Option<String>)
    ensures
        opt_text(r) == first_value(pair_texts(pairs@), name@),
{
    let ghost all = pair_texts(pairs@);
    let mut i: usize = 0;
    assert(all.skip(0) =~= all);
    while i < pairs.len()
        invariant
            i <= pairs.len(),
            all == pair_texts(pairs@),
            first_value(all.skip(i as int), name@) == first_value(all, name@),
        decreases pairs.len() - i,
    {
        assert(all.skip(i as int).skip(1) =~= all.skip(i + 1));
        if same(pairs[i].0.as_str(), name) {
            return Some(copy(&pairs[i].1));
        }
        i = i + 1;
    }
    None
}

/// Computes [`path_param`].
pub fn query_param(path: &str, name: &str) -> (r: Option<String>)
    ensures
        opt_text(r) == path_param(path@, name@),
{
    match path_query(path) {
        Some(query) => {
            let pairs = parse_form(query.as_str());
            find_value(&pairs, name)
        },
        None => None,
    }
}

/// What Google sends back with the user.
pub struct OAuthCallback {
    pub code: String,
    pub state: String,
}

/// Reads what Google sent back from the path of the request.
pub fn parse_oauth_callback_path(path: &str) -> (r: Result<OAuthCallback, String>)
    ensures
        match r {
            Ok(c) => path_param(path@, "code"@) == Some(c.code@) && path_param(path@, "state"@)
                == Some(c.state@),
            Err(e) => if path_param(path@, "code"@) is None {
                e@ == "OAuth callback missing code"@
            } else {
                path_param(path@, "state"@) is None && e@ == "OAuth callback missing state"@
            },
        },
{
    let code = match query_param(path, "code") {
        Some(code) => code,
        None => {
            return Err("OAuth callback missing code".to_owned());
        },
    };
    let state = match query_param(path, "state") {
        Some(state) => state,
        None => {
            return Err("OAuth callback missing state".to_owned());
        },
    };
    Ok(OAuthCallback { code, state })
}

/// The first line of a request.
pub open spec fn first_line(request: Seq<char>) -> Seq<char> {
    match find_char(request, '\n', 0) {
        Some(e) => request.take(e),
        None => request,
    }
}

/// The path of a request: the second word of its first line.
pub fn request_path(request: &str) -> (r: Result<String, String>)
    ensures
        match r {
            Ok(path) => words(first_line(request@)).len() >= 2 && path@ == words(
                first_line(request@),
            )[1],
            Err(e) => words(first_line(request@)).len() < 2 && e@ == "Bad OAuth callback"@,
        },
{
    let v = chars_of(request);
    let end: usize = match find_one(&v, '\n', 0) {
        Some(e) => e,
        None => v.len(),
    };
    let line = string_of(&v, 0, end);
    assert(line@ =~= first_line(request@));
    let parts = split_words(line.as_str());
    assert(parts.len() == texts(parts@).len());
    if parts.len() >= 2 {
        assert(texts(parts@)[1] == parts@[1]@);
        Ok(copy(&parts[1]))
    } else {
        Err("Bad OAuth callback".to_owned())
    }
}

// ---------------------------------------------------------------------------
// What is answered
// ---------------------------------------------------------------------------
/// The page that tells the user what happened.
pub open spec fn answer_body(message: Seq<char>) -> Seq<char> {
    "<html><body><h2>"@ + message + "</h2></body></html>"@
}

/// The answer to a request: a page, with its length in bytes.
pub open spec fn answer(status: Seq<char>, message: Seq<char>) -> Seq<char> {
    "HTTP/1.1 "@ + status + "\r\nContent-Type: text/html; charset=utf-8\r\nContent-Length: "@
        + decimal(encode_utf8(answer_body(message)).len()) + "\r\n\r\n"@ + answer_body(message)
}

/// Computes [`answer`].
pub fn oauth_response(status: &str, message: &str) -> (r: String)
    ensures
        r@ == answer(status@, message@),
{
    let body = cat3("<html><body><h2>", message, "</h2></body></html>");
    let mut r = cat3(
        "HTTP/1.1 ",
        status,
        "\r\nContent-Type: text/html; charset=utf-8\r\nContent-Length: ",
    );
    push_decimal(&mut r, body.as_str().as_bytes().len() as u64);
    r.append("\r\n\r\n");
    r.append(body.as_str());
    r
}

/// What a request from the browser comes to: the answer to it, where it gets one,
/// and the code to go on with, or an error.
pub struct OAuthOutcome {
    pub response: Option<String>,
    pub code: Result<String, String>,
}

/// The view of an [`OAuthOutcome`].
pub struct OutcomeView {
    pub response: Option<Seq<char>>,
    pub code: Result<Seq<char>, Seq<char>>,
}

impl View for OAuthOutcome {
    type V = OutcomeView;

    open spec fn view(&self) -> OutcomeView {
        OutcomeView { response: opt_text(self.response), code: text_result(self.code) }
    }
}

/// What a callback comes to: only one that carries the state that was sent out is
/// gone on with.
pub open spec fn judged(code: Seq<char>, state: Seq<char>, expected: Seq<char>) -> OutcomeView {
    if state == expected {
        OutcomeView {
            response: Some(answer("200 OK"@, "Mailwind connected. You can close this tab."@)),
            code: Ok(code),
        }
    } else {
        OutcomeView {
            response: Some(
                answer(
                    "400 Bad Request"@,
                    "Mailwind could not verify this OAuth request. Return to the app and try again."@,
                ),
            ),
            code: Err("OAuth state mismatch"@),
        }
    }
}

/// Computes [`judged`].
pub fn judge_callback(callback: OAuthCallback, expected_state: &str) -> (r: OAuthOutcome)
    ensures
        r@ == judged(callback.code@, callback.state@, expected_state@),
{
    if same(callback.state.as_str(), expected_state) {
        OAuthOutcome {
            response: Some(oauth_response("200 OK", "Mailwind connected. You can close this tab.")),
            code: Ok(callback.code),
        }
    } else {
        OAuthOutcome {
            response: Some(
                oauth_response(
                    "400 Bad Request",
                    "Mailwind could not verify this OAuth request. Return to the app and try again.",
                ),
            ),
            code: Err("OAuth state mismatch".to_owned()),
        }
    }
}

/// An error without an answer.
pub open spec fn unanswered(error: Seq<char>) -> OutcomeView {
    OutcomeView { response: None, code: Err(error) }
}

/// What a request from the browser comes to. One that is no callback gets no
/// answer.
pub open spec fn judged_request(request: Seq<char>, expected: Seq<char>) -> OutcomeView {
    let line = words(first_line(request));
    if line.len() < 2 {
        unanswered("Bad OAuth callback"@)
    } else {
        match (path_param(line[1], "code"@), path_param(line[1], "state"@)) {
            (None, _) => unanswered("OAuth callback missing code"@),
            (_, None) => unanswered("OAuth callback missing state"@),
            (Some(code), Some(state)) => judged(code, state, expected),
        }
    }
}

/// Computes [`judged_request`].
pub fn judge_request(request: &str, expected_state: &str) -> (r: OAuthOutcome)
    ensures
        r@ == judged_request(request@, expected_state@),
{
    let path = match request_path(request) {
        Ok(path) => path,
        Err(e) => {
            return OAuthOutcome { response: None, code: Err(e) };
        },
    };
    match parse_oauth_callback_path(path.as_str()) {
        Ok(callback) => judge_callback(callback, expected_state),
        Err(e) => OAuthOutcome { response: None, code: Err(e) },
    }
}

/// [`judge_request`] on the bytes that the browser sent.
pub fn judge_request_bytes(request: &[u8], expected_state: &str) -> (r: OAuthOutcome)
    ensures
        r@ == judged_request(utf8_lossy(request@), expected_state@),
{
    let text = lossy_text(request);
    judge_request(text.as_str(), expected_state)
}

/// Law: a code is accepted only from a request that carries the state that was
/// sent out.
pub proof fn only_the_expected_state_is_accepted(request: Seq<char>, expected: Seq<char>)
    requires
        judged_request(request, expected).code is Ok,
    ensures
        words(first_line(request)).len() >= 2,
        path_param(words(first_line(request))[1], "state"@) == Some(expected),
        path_param(words(first_line(request))[1], "code"@) == Some(
            judged_request(request, expected).code->Ok_0,
        ),
{
}

/// How often it is looked whether the user is back before that is given up.
pub open spec fn wait_limit() -> nat {
    1800
}

/// Waiting for the user to come back.
#[derive(Clone, Copy)]
pub struct OAuthWait {
    pub tries: u32,
}

impl OAuthWait {
    /// Nothing was tried yet.
    pub fn new() -> (r: OAuthWait)
        ensures
            r.tries == 0,
    {
        OAuthWait { tries: 0 }
    }

    /// Counts another look, unless there were enough.
    pub fn look(&mut self) -> (r: Result<(), String>)
        ensures
            match r {
                Ok(()) => old(self).tries < wait_limit() && final(self).tries == old(self).tries + 1,
                Err(e) => old(self).tries >= wait_limit() && final(self).tries == old(self).tries
                    && e@ == "Timed out waiting for Google OAuth callback"@,
            },
    {
        if self.tries >= 1800 {
            return Err("Timed out waiting for Google OAuth callback".to_owned());
        }
        self.tries = self.tries + 1;
        Ok(())
    }
}

proof fn lemma_url_part(front: Seq<char>, part: Seq<char>, back: Seq<char>)
    ensures
        contains_text(front + part + back, part),
{
    let s = front + part + back;
    let k = front.len() as int;
    assert(s.subrange(k, k + part.len()) =~= part);
    assert(stands_at(s, part, k));
}

/// Law: the user is sent to Google with what the sign-in needs: the client, the place
/// to come back to, the two rights that are asked for, and the state by which the user
/// is known again.
pub proof fn sign_in_names_what_it_needs(
    client_id: Seq<char>,
    redirect_uri: Seq<char>,
    state: Seq<char>,
)
    ensures
        ({
            let url = authorization_url(client_id, redirect_uri, state);
            &&& starts(url, "https://accounts.google.com/o/oauth2/v2/auth?client_id="@)
            &&& contains_text(
                url,
                "https://accounts.google.com/o/oauth2/v2/auth?client_id="@ + percent_encoded(
                    client_id,
                ),
            )
            &&& contains_text(url, "&redirect_uri="@ + percent_encoded(redirect_uri))
            &&& contains_text(
                url,
                "&response_type=code&scope="@ + percent_encoded(
                    "https://www.googleapis.com/auth/gmail.modify https://www.googleapis.com/auth/gmail.send"@,
                ),
            )
            &&& contains_text(
                url,
                "&access_type=offline&prompt=consent&state="@ + percent_encoded(state),
            )
            &&& url.skip(url.len() - percent_encoded(state).len()) == percent_encoded(state)
        }),
{
    let none = Seq::<char>::empty();
    let c = "https://accounts.google.com/o/oauth2/v2/auth?client_id="@ + percent_encoded(client_id);
    let r = "&redirect_uri="@ + percent_encoded(redirect_uri);
    let s = "&response_type=code&scope="@ + percent_encoded(oauth_scope());
    let t = "&access_type=offline&prompt=consent&state="@ + percent_encoded(state);
    let url = authorization_url(client_id, redirect_uri, state);
    assert(url =~= c + r + s + t);
    lemma_url_part(none, c, r + s + t);
    assert(none + c + (r + s + t) =~= url);
    lemma_url_part(c, r, s + t);
    assert(c + r + (s + t) =~= url);
    lemma_url_part(c + r, s, t);
    lemma_url_part(c + r + s, t, none);
    assert(c + r + s + t + none =~= url);
    assert(url.take("https://accounts.google.com/o/oauth2/v2/auth?client_id="@.len() as int)
        =~= "https://accounts.google.com/o/oauth2/v2/auth?client_id="@);
    assert(url.skip(url.len() - percent_encoded(state).len()) =~= percent_encoded(state));
}

/// Law: the query of a path is what stands behind the first question mark, up to the
/// next hash sign; a path without a question mark has none.
pub proof fn queries_stand_behind_the_question_mark(
    path: Seq<char>,
    query: Seq<char>,
    fragment: Seq<char>,
)
    requires
        forall|i: int| 0 <= i < path.len() ==> #[trigger] path[i] != '?',
        forall|i: int| 0 <= i < query.len() ==> #[trigger] query[i] != '#',
    ensures
        query_string(path) is None,
        query_string(path + seq!['?'] + query) == Some(query),
        query_string(path + seq!['?'] + query + seq!['#'] + fragment) == Some(query),
{
    let n = path.len() as int;
    lemma_find_char(path, '?', 0);
    let open = path + seq!['?'] + query;
    assert forall|j: int| 0 <= j < n implies open[j] != '?' by {
        assert(open[j] == path[j]);
    }
    lemma_find_char_unique(open, '?', 0, n);
    lemma_find_char(open, '#', n + 1);
    match find_char(open, '#', n + 1) {
        Some(k) => {
            assert(open[k] == query[k - n - 1]);
        },
        None => {},
    }
    assert(open.skip(n + 1) =~= query);
    let whole = path + seq!['?'] + query + seq!['#'] + fragment;
    assert forall|j: int| 0 <= j < n implies whole[j] != '?' by {
        assert(whole[j] == path[j]);
    }
    lemma_find_char_unique(whole, '?', 0, n);
    let m = n + 1 + query.len();
    assert forall|j: int| n + 1 <= j < m implies whole[j] != '#' by {
        assert(whole[j] == query[j - n - 1]);
    }
    lemma_find_char_unique(whole, '#', n + 1, m);
    assert(whole.subrange(n + 1, m) =~= query);
}

/// Law: of several parameters with one name the first counts, and one that is not
/// there has no value.
pub proof fn the_first_value_counts(
    pairs: Seq<(Seq<char>, Seq<char>)>,
    name: Seq<char>,
    k: int,
)
    requires
        0 <= k <= pairs.len(),
        forall|j: int| 0 <= j < k ==> (#[trigger] pairs[j]).0 != name,
        k < pairs.len() ==> pairs[k].0 == name,
    ensures
        k < pairs.len() ==> first_value(pairs, name) == Some(pairs[k].1),
        k == pairs.len() ==> first_value(pairs, name) is None,
    decreases pairs.len(),
{
    if k > 0 {
        assert(pairs[0].0 != name);
        let rest = pairs.skip(1);
        assert forall|j: int| 0 <= j < k - 1 implies (#[trigger] rest[j]).0 != name by {
            assert(rest[j] == pairs[j + 1]);
        }
        the_first_value_counts(rest, name, k - 1);
    }
}

/// Law: a request is judged by its first line alone. One that brings a code together
/// with the state that was sent out is gone on with, with that code, and the user is
/// told that all went well; with another state it is refused, and the user is told so.
pub proof fn callbacks_are_judged_by_their_state(
    line: Seq<char>,
    rest: Seq<char>,
    expected: Seq<char>,
)
    requires
        forall|i: int| 0 <= i < line.len() ==> #[trigger] line[i] != '\n',
    ensures
        judged_request(line + seq!['\n'] + rest, expected) == judged_request(line, expected),
        words(line).len() >= 2 && path_param(words(line)[1], "code"@) is Some && path_param(
            words(line)[1],
            "state"@,
        ) is Some ==> ({
            let outcome = judged_request(line, expected);
            let code = path_param(words(line)[1], "code"@)->Some_0;
            let state = path_param(words(line)[1], "state"@)->Some_0;
            &&& state == expected ==> outcome.code == Ok::<Seq<char>, Seq<char>>(code)
            &&& state == expected ==> outcome.response is Some && starts(
                outcome.response->Some_0,
                "HTTP/1.1 200 OK\r\n"@,
            )
            &&& state != expected ==> outcome.code is Err
            &&& state != expected ==> outcome.response is Some && starts(
                outcome.response->Some_0,
                "HTTP/1.1 400 Bad Request\r\n"@,
            )
        }),
        words(line).len() < 2 || path_param(words(line)[1], "code"@) is None || path_param(
            words(line)[1],
            "state"@,
        ) is None ==> judged_request(line, expected).code is Err && judged_request(
            line,
            expected,
        ).response is None,
{
    let request = line + seq!['\n'] + rest;
    let n = line.len() as int;
    assert forall|j: int| 0 <= j < n implies request[j] != '\n' by {
        assert(request[j] == line[j]);
    }
    lemma_find_char_unique(request, '\n', 0, n);
    lemma_find_char(line, '\n', 0);
    assert(request.take(n) =~= line);
    reveal_strlit("HTTP/1.1 ");
    reveal_strlit("200 OK");
    reveal_strlit("400 Bad Request");
    reveal_strlit("HTTP/1.1 200 OK\r\n");
    reveal_strlit("HTTP/1.1 400 Bad Request\r\n");
    reveal_strlit("\r\nContent-Type: text/html; charset=utf-8\r\nContent-Length: ");
    let good = answer("200 OK"@, "Mailwind connected. You can close this tab."@);
    assert(good.take("HTTP/1.1 200 OK\r\n"@.len() as int) =~= "HTTP/1.1 200 OK\r\n"@);
    let bad = answer(
        "400 Bad Request"@,
        "Mailwind could not verify this OAuth request. Return to the app and try again."@,
    );
    assert(bad.take("HTTP/1.1 400 Bad Request\r\n"@.len() as int)
        =~= "HTTP/1.1 400 Bad Request\r\n"@);
}

/// Law: an answer ends with the page that it announces, behind an empty line; the
/// page shows the message, and its length is given in bytes.
pub proof fn answers_announce_their_page(status: Seq<char>, message: Seq<char>)
    ensures
        ({
            let page = answer_body(message);
            let whole = answer(status, message);
            let end = "Content-Length: "@ + decimal(encode_utf8(page).len()) + "\r\n\r\n"@ + page;
            &&& contains_text(page, "<h2>"@ + message + "</h2>"@)
            &&& whole.len() >= end.len()
            &&& whole.skip(whole.len() - end.len()) == end
        }),
{
    reveal_strlit("<html><body><h2>");
    reveal_strlit("</h2></body></html>");
    reveal_strlit("<h2>");
    reveal_strlit("</h2>");
    reveal_strlit("<html><body>");
    reveal_strlit("</body></html>");
    let page = answer_body(message);
    let heading = "<h2>"@ + message + "</h2>"@;
    lemma_url_part("<html><body>"@, heading, "</body></html>"@);
    assert("<html><body>"@ + heading + "</body></html>"@ =~= page);
    reveal_strlit("Content-Length: ");
    reveal_strlit("\r\nContent-Type: text/html; charset=utf-8\r\n");
    reveal_strlit("\r\nContent-Type: text/html; charset=utf-8\r\nContent-Length: ");
    let whole = answer(status, message);
    let end = "Content-Length: "@ + decimal(encode_utf8(page).len()) + "\r\n\r\n"@ + page;
    let front = "HTTP/1.1 "@ + status + "\r\nContent-Type: text/html; charset=utf-8\r\n"@;
    assert("\r\nContent-Type: text/html; charset=utf-8\r\nContent-Length: "@
        =~= "\r\nContent-Type: text/html; charset=utf-8\r\n"@ + "Content-Length: "@);
    assert(whole =~= front + end);
    assert(whole.skip(whole.len() - end.len()) =~= end);
}

} // verus!
