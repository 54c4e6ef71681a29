//! Requests to Gmail and to Google's sign-in, and what their replies say.
use vstd::prelude::*;
use vstd::string::*;

use crate::account::{AccountView, StoredAccount};
use crate::codec::{
    base64_url_bytes, base64_url_encode, base64_url_padded_bytes, base64_url_text, bytes_result,
    decode_url_bytes, percent_encoded, stands_for, url_bytes, url_encode,
};
use crate::json::{array_value, field, integer_value, member, text_field, text_value, Json};
use crate::mime::{string_or, text_or};
use crate::msgid::ReplyContext;
use crate::number::{decimal, push_decimal};
use crate::text::{cat, cat3, copy, lower, opt_str, opt_text, texts, to_lower, trim, trimmed};

verus! {

// ---------------------------------------------------------------------------
// Addresses of requests
// ---------------------------------------------------------------------------
/// Where the messages of the signed-in user are.
pub open spec fn messages_url() -> Seq<char> {
    "https://gmail.googleapis.com/gmail/v1/users/me/messages"@
}

/// A parameter of a request, where it has a value.
pub open spec fn url_param(name: Seq<char>, value: Option<Seq<char>>) -> Seq<char> {
    match value {
        Some(v) => name + percent_encoded(v),
        None => Seq::empty(),
    }
}

/// The request for one page of a list of messages.
pub open spec fn list_url(
    page_size: nat,
    label: Option<Seq<char>>,
    query: Option<Seq<char>>,
    page_token: Option<Seq<char>>,
) -> Seq<char> {
    messages_url() + "?maxResults="@ + decimal(page_size) + url_param("&labelIds="@, label)
        + url_param("&q="@, query) + url_param("&pageToken="@, page_token)
}

/// Appends a parameter, where it has a value.
fn push_param(url: &mut String, name: &str, value: Option<&str>)
    ensures
        final(url)@ == old(url)@ + url_param(name@, opt_str(value)),
{
    let ghost before = url@;
    if let Some(value) = value {
        url.append(name);
        let encoded = url_encode(value);
        url.append(encoded.as_str());
    }
    assert(url@ =~= before + url_param(name@, opt_str(value)));
}

/// Computes [`list_url`].
pub fn gmail_list_url(
    page_size: u64,
    label: Option<&str>,
    query: Option<&str>,
    page_token: Option<&str>,
) -> (r: String)
    ensures
        r@ == list_url(page_size as nat, opt_str(label), opt_str(query), opt_str(page_token)),
{
    let mut url = cat(
        "https://gmail.googleapis.com/gmail/v1/users/me/messages",
        "?maxResults=",
    );
    push_decimal(&mut url, page_size);
    push_param(&mut url, "&labelIds=", label);
    push_param(&mut url, "&q=", query);
    push_param(&mut url, "&pageToken=", page_token);
    url
}

/// Where a message is.
pub open spec fn message_url(id: Seq<char>) -> Seq<char> {
    messages_url() + "/"@ + id
}

/// Computes [`message_url`].
pub fn gmail_message_url(id: &str) -> (r: String)
    ensures
        r@ == message_url(id@),
{
    cat3("https://gmail.googleapis.com/gmail/v1/users/me/messages", "/", id)
}

/// The request for a whole message.
pub fn gmail_full_message_url(id: &str) -> (r: String)
    ensures
        r@ == message_url(id@) + "?format=full"@,
{
    let url = gmail_message_url(id);
    cat(url.as_str(), "?format=full")
}

/// The request for an attachment of a message.
pub fn gmail_attachment_url(message_id: &str, attachment_id: &str) -> (r: String)
    ensures
        r@ == message_url(message_id@) + "/attachments/"@ + attachment_id@,
{
    let url = gmail_message_url(message_id);
    cat3(url.as_str(), "/attachments/", attachment_id)
}

/// The request that changes the labels of a message.
pub fn gmail_modify_url(id: &str) -> (r: String)
    ensures
        r@ == message_url(id@) + "/modify"@,
{
    let url = gmail_message_url(id);
    cat(url.as_str(), "/modify")
}

/// The request that deletes a message: for good, or into the trash.
pub fn gmail_delete_url(id: &str, permanent: bool) -> (r: String)
    ensures
        r@ == if permanent {
            message_url(id@)
        } else {
            message_url(id@) + "/trash"@
        },
{
    let url = gmail_message_url(id);
    if permanent {
        url
    } else {
        cat(url.as_str(), "/trash")
    }
}

// ---------------------------------------------------------------------------
// Lists of messages
// ---------------------------------------------------------------------------
/// The ids of the listed messages that have one, in order.
pub open spec fn ids_of(items: Seq<Json>) -> Seq<Seq<char>>
    decreases items.len(),
{
    if items.len() == 0 {
        Seq::empty()
    } else {
        let rest = ids_of(items.drop_last());
        match text_field(items.last(), "id"@) {
            Some(id) => rest.push(id),
            None => rest,
        }
    }
}

/// The ids on one page of a list; nothing where the page lists no messages at
/// all.
pub open spec fn page_ids(page: Json) -> Option<Seq<Seq<char>>> {
    match array_value(field(page, "messages"@)) {
        Some(items) => if items.len() == 0 {
            None
        } else {
            Some(ids_of(items))
        },
        None => None,
    }
}

/// Computes [`page_ids`].
pub fn gmail_page_ids(page: &Json) -> (r: Option<Vec<String>>)
    ensures
        match r {
            Some(ids) => page_ids(*page) == Some(texts(ids@)),
            None => page_ids(*page) is None,
        },
{
    let items = match page.list("messages") {
        Some(items) => items,
        None => {
            return None;
        },
    };
    if items.len() == 0 {
        return None;
    }
    let mut ids: Vec<String> = Vec::new();
    let mut i: usize = 0;
    assert(items@.take(0) =~= Seq::<Json>::empty());
    assert(texts(ids@) =~= ids_of(items@.take(0)));
    while i < items.len()
        invariant
            i <= items.len(),
            texts(ids@) == ids_of(items@.take(i as int)),
        decreases items.len() - i,
    {
        proof {
            assert(items@.take(i + 1).drop_last() =~= items@.take(i as int));
            assert(items@.take(i + 1).last() == items@[i as int]);
        }
        if let Some(id) = items[i].text("id") {
            let ghost before = texts(ids@);
            let ghost added = id@;
            ids.push(id);
            assert(texts(ids@) =~= before.push(added));
        }
        i = i + 1;
    }
    assert(items@.take(items.len() as int) =~= items@);
    Some(ids)
}

/// What asks for the next page of a list.
pub fn gmail_next_page(page: &Json) -> (r: Option<String>)
    ensures
        opt_text(r) == text_field(*page, "nextPageToken"@),
{
    page.text("nextPageToken")
}

// ---------------------------------------------------------------------------
// Signing in
// ---------------------------------------------------------------------------
/// What Google grants when a user has signed in.
pub struct TokenGrant {
    pub access_token: String,
    pub refresh_token: String,
    pub expires_in: i64,
}

/// How long a token is good for, in seconds; an hour where the reply does not say.
pub open spec fn lifetime(token: Json) -> i64 {
    match integer_value(field(token, "expires_in"@)) {
        Some(n) => n,
        None => 3600,
    }
}

/// Computes [`lifetime`].
fn lifetime_of(token: &Json) -> (r: i64)
    ensures
        r == lifetime(*token),
{
    match token.integer("expires_in") {
        Some(n) => n,
        None => 3600,
    }
}

/// What Google granted to a user who signed in: an access token, a refresh token
/// and a lifetime, or what is missing.
pub open spec fn grant_of(token: Json) -> Result<(Seq<char>, Seq<char>, i64), Seq<char>> {
    match (text_field(token, "access_token"@), text_field(token, "refresh_token"@)) {
        (None, _) => Err("Google did not return an access token"@),
        (_, None) => Err(
            "Google did not return a refresh token. Remove prior app consent and try again."@,
        ),
        (Some(access), Some(refresh)) => Ok((access, refresh, lifetime(token))),
    }
}

/// Computes [`grant_of`].
pub fn granted_tokens(token: &Json) -> (r: Result<TokenGrant, String>)
    ensures
        match r {
            Ok(g) => grant_of(*token) == Ok::<(Seq<char>, Seq<char>, i64), Seq<char>>(
                (g.access_token@, g.refresh_token@, g.expires_in),
            ),
            Err(e) => grant_of(*token) == Err::<(Seq<char>, Seq<char>, i64), Seq<char>>(e@),
        },
{
    let access_token = match token.text("access_token") {
        Some(t) => t,
        None => {
            return Err("Google did not return an access token".to_owned());
        },
    };
    let refresh_token = match token.text("refresh_token") {
        Some(t) => t,
        None => {
            return Err(
                "Google did not return a refresh token. Remove prior app consent and try again.".to_owned(),
            );
        },
    };
    Ok(TokenGrant { access_token, refresh_token, expires_in: lifetime_of(token) })
}

/// Reads the access token of a refresh, and how long it is good for.
pub fn refreshed_token(token: &Json) -> (r: Result<(String, i64), String>)
    ensures
        match r {
            Ok(t) => text_field(*token, "access_token"@) == Some(t.0@) && t.1 == lifetime(*token),
            Err(e) => text_field(*token, "access_token"@) is None && e@
                == "Google refresh did not return an access token"@,
        },
{
    match token.text("access_token") {
        Some(t) => Ok((t, lifetime_of(token))),
        None => Err("Google refresh did not return an access token".to_owned()),
    }
}

/// When a token that is good for `expires_in` seconds from `now` on is treated as
/// expired: a minute early.
pub fn token_expiry(now: i64, expires_in: i64) -> (r: i64)
    requires
        i64::MIN <= now + expires_in <= i64::MAX,
        i64::MIN <= now + expires_in - 60,
    ensures
        r == now + expires_in - 60,
{
    now + expires_in - 60
}

/// The address of the user in a profile, trimmed and in lower case.
pub open spec fn email_of(profile: Json) -> Seq<char> {
    lower(trim(text_or(text_field(profile, "emailAddress"@), "gmail-account"@)))
}

/// Computes [`email_of`].
pub fn profile_email(profile: &Json) -> (r: String)
    ensures
        r@ == email_of(*profile),
{
    let email = string_or(profile.text("emailAddress"), "gmail-account");
    let email = trimmed(email.as_str());
    to_lower(email.as_str())
}

/// How an access token is come by.
pub enum TokenPlan {
    /// The stored token is still good.
    Use(String),
    /// A new one is asked for.
    Refresh { refresh_token: String, client_id: String, client_secret: String },
}

/// The views of a [`TokenPlan`].
pub enum TokenPlanView {
    Use(Seq<char>),
    Refresh { refresh_token: Seq<char>, client_id: Seq<char>, client_secret: Seq<char> },
}

impl View for TokenPlan {
    type V = TokenPlanView;

    open spec fn view(&self) -> TokenPlanView {
        match *self {
            TokenPlan::Use(t) => TokenPlanView::Use(t@),
            TokenPlan::Refresh { refresh_token, client_id, client_secret } => TokenPlanView::Refresh {
                refresh_token: refresh_token@,
                client_id: client_id@,
                client_secret: client_secret@,
            },
        }
    }
}

/// The stored token is used while it is good for more than half a minute;
/// otherwise it is refreshed with what the account holds.
pub open spec fn token_plan(account: AccountView, now: int) -> Result<TokenPlanView, Seq<char>> {
    let expires_at = match account.token_expires_at {
        Some(t) => t as int,
        None => 0,
    };
    if expires_at > now + 30 {
        match account.access_token {
            Some(t) => Ok(TokenPlanView::Use(t)),
            None => Err("Missing Gmail access token"@),
        }
    } else {
        match (account.refresh_token, account.client_id, account.client_secret) {
            (None, _, _) => Err("Missing Gmail refresh token"@),
            (_, None, _) => Err("Missing Gmail client id"@),
            (_, _, None) => Err("Missing Gmail client secret"@),
            (Some(refresh_token), Some(client_id), Some(client_secret)) => Ok(
                TokenPlanView::Refresh { refresh_token, client_id, client_secret },
            ),
        }
    }
}

/// Computes [`token_plan`].
pub fn gmail_token_plan(account: &StoredAccount, now: i64) -> (r: Result<TokenPlan, String>)
    requires
        now + 30 <= i64::MAX,
    ensures
        match r {
            Ok(plan) => token_plan(account@, now as int) == Ok::<TokenPlanView, Seq<char>>(plan@),
            Err(e) => token_plan(account@, now as int) == Err::<TokenPlanView, Seq<char>>(e@),
        },
{
    let expires_at: i64 = match account.token_expires_at {
        Some(t) => t,
        None => 0,
    };
    if expires_at > now + 30 {
        return match &account.access_token {
            Some(t) => Ok(TokenPlan::Use(copy(t))),
            None => Err("Missing Gmail access token".to_owned()),
        };
    }
    let refresh_token = match &account.refresh_token {
        Some(t) => copy(t),
        None => {
            return Err("Missing Gmail refresh token".to_owned());
        },
    };
    let client_id = match &account.client_id {
        Some(t) => copy(t),
        None => {
            return Err("Missing Gmail client id".to_owned());
        },
    };
    let client_secret = match &account.client_secret {
        Some(t) => copy(t),
        None => {
            return Err("Missing Gmail client secret".to_owned());
        },
    };
    Ok(TokenPlan::Refresh { refresh_token, client_id, client_secret })
}

// ---------------------------------------------------------------------------
// Bodies of requests
// ---------------------------------------------------------------------------
/// The thread that a reply is sent into: that of the message it answers, where
/// this belongs to the same account.
pub open spec fn reply_thread(account_id: i64, reply: Option<ReplyContext>) -> Option<Seq<char>> {
    match reply {
        Some(r) => if r.account_id == account_id {
            Some(r.thread_id@)
        } else {
            None
        },
        None => None,
    }
}

/// The body of the request that sends a mail: the mail itself, encoded, and the
/// thread that it goes into.
pub fn gmail_send_body(raw: &[u8], account_id: i64, reply: &Option<ReplyContext>) -> (r: Json)
    requires
        raw@.len() / 3 * 4 + 4 <= isize::MAX,
    ensures
        text_field(r, "raw"@) == Some(base64_url_text(raw@)),
        stands_for(base64_url_text(raw@), raw@),
        text_field(r, "threadId"@) == reply_thread(account_id, *reply),
        r matches Json::Object(members) && members@.len() == (if reply_thread(
            account_id,
            *reply,
        ) is Some {
            2int
        } else {
            1
        }),
{
    let encoded = base64_url_encode(raw);
    let mut members: Vec<(String, Json)> = Vec::new();
    members.push(("raw".to_owned(), Json::Text(encoded)));
    if let Some(reply) = reply {
        if reply.account_id == account_id {
            members.push(("threadId".to_owned(), Json::Text(copy(&reply.thread_id))));
        }
    }
    proof {
        reveal_strlit("raw");
        reveal_strlit("threadId");
        assert("raw"@.len() != "threadId"@.len());
        assert(member(members@, "raw"@) == Some(members@[0].1));
        reveal_with_fuel(member, 3);
        if members@.len() == 2 {
            assert(members@.skip(1)[0] == members@[1]);
        } else {
            assert(members@.skip(1).len() == 0);
        }
    }
    Json::Object(members)
}

/// A body that asks for one label to be added or removed, and for nothing else.
pub open spec fn changes_label(body: Json, remove: bool, label: Seq<char>) -> bool {
    body matches Json::Object(members) && members@.len() == 1 && members@[0].0@ == (if remove {
        "removeLabelIds"@
    } else {
        "addLabelIds"@
    }) && (members@[0].1 matches Json::Array(labels) && labels@.len() == 1 && (
    labels@[0] matches Json::Text(t) && t@ == label))
}

/// The body of the request that adds or removes one label.
fn gmail_label_body(remove: bool, label: &str) -> (r: Json)
    ensures
        changes_label(r, remove, label@),
{
    let mut labels: Vec<Json> = Vec::new();
    labels.push(Json::Text(label.to_owned()));
    let name = if remove {
        "removeLabelIds".to_owned()
    } else {
        "addLabelIds".to_owned()
    };
    let mut members: Vec<(String, Json)> = Vec::new();
    members.push((name, Json::Array(labels)));
    Json::Object(members)
}

/// The body of the request that archives a message: it leaves the inbox.
pub fn gmail_archive_body() -> (r: Json)
    ensures
        changes_label(r, true, "INBOX"@),
{
    gmail_label_body(true, "INBOX")
}

/// The body of the request that marks a message as read or as unread.
pub fn gmail_read_body(is_read: bool) -> (r: Json)
    ensures
        changes_label(r, is_read, "UNREAD"@),
{
    gmail_label_body(is_read, "UNREAD")
}

/// The bytes of an attachment that Gmail returned.
pub open spec fn attachment_data(reply: Json) -> Result<Seq<u8>, Seq<char>> {
    match text_field(reply, "data"@) {
        Some(data) => url_bytes(data),
        None => Err("Gmail attachment response missing data"@),
    }
}

/// Computes [`attachment_data`].
pub fn gmail_attachment_data(reply: &Json) -> (r: Result<Vec<u8>, String>)
    ensures
        bytes_result(r) == attachment_data(*reply),
{
    match reply.text("data") {
        Some(data) => decode_url_bytes(data.as_str()),
        None => Err("Gmail attachment response missing data".to_owned()),
    }
}

// ---------------------------------------------------------------------------
// Laws
// ---------------------------------------------------------------------------
/// Law: a page lists the id of each of its messages, one after the other: the ids of
/// two runs of messages are those of the one and then those of the other, and a
/// message has the one id that it names.
pub proof fn pages_list_every_message(a: Seq<Json>, b: Seq<Json>, one: Json)
    ensures
        ids_of(a + b) == ids_of(a) + ids_of(b),
        ids_of(seq![one]) == match field(one, "id"@) {
            Some(Json::Text(id)) => seq![id@],
            _ => Seq::<Seq<char>>::empty(),
        },
    decreases b.len(),
{
    assert(seq![one].drop_last() =~= Seq::<Json>::empty());
    assert(ids_of(seq![one].drop_last()) =~= Seq::<Seq<char>>::empty());
    assert(ids_of(seq![one]) =~= match field(one, "id"@) {
        Some(Json::Text(id)) => seq![id@],
        _ => Seq::<Seq<char>>::empty(),
    });
    if b.len() == 0 {
        assert(a + b =~= a);
        assert(ids_of(a) + ids_of(b) =~= ids_of(a));
    } else {
        pages_list_every_message(a, b.drop_last(), one);
        assert((a + b).drop_last() =~= a + b.drop_last());
        assert((a + b).last() == b.last());
        assert(ids_of(a + b) =~= ids_of(a) + ids_of(b));
    }
}

/// Law: a page that lists messages gives the ids of all of them, and only a page
/// without any gives nothing.
pub proof fn a_page_with_messages_is_read(page: Json, items: Seq<Json>)
    requires
        array_value(field(page, "messages"@)) == Some(items),
    ensures
        items.len() > 0 ==> page_ids(page) == Some(ids_of(items)),
        items.len() == 0 ==> page_ids(page) is None,
{
}

/// Law: a stored token is used only while it is good for more than half a minute,
/// and then it is the one that the account holds. Any other time a new one is asked
/// for, with the refresh token and the client of that very account.
pub proof fn tokens_are_used_while_they_are_good(account: AccountView, now: int)
    ensures
        token_plan(account, now) matches Ok(TokenPlanView::Use(token)) ==> account.access_token
            == Some(token) && (match account.token_expires_at {
            Some(at) => at - now > 30,
            None => -now > 30,
        }),
        token_plan(account, now) matches Ok(
            TokenPlanView::Refresh { refresh_token, client_id, client_secret },
        ) ==> {
            &&& account.refresh_token == Some(refresh_token)
            &&& account.client_id == Some(client_id)
            &&& account.client_secret == Some(client_secret)
            &&& account.token_expires_at matches Some(at) ==> at - now <= 30 || now + 30 < 0
        },
        (account.token_expires_at matches Some(at) && at - now > 30) && account.access_token is Some
            ==> token_plan(account, now) == Ok::<TokenPlanView, Seq<char>>(
            TokenPlanView::Use(account.access_token->Some_0),
        ),
        now >= 0 && (account.token_expires_at matches Some(at) ==> at - now <= 30)
            && account.refresh_token is Some && account.client_id is Some
            && account.client_secret is Some ==> token_plan(account, now) is Ok,
{
}

/// Law: what Google grants is read from the reply: both tokens have to be there, and
/// a lifetime that is named counts.
pub proof fn grants_are_read_from_the_reply(token: Json)
    ensures
        grant_of(token) matches Ok((access, refresh, seconds)) ==> {
            &&& text_field(token, "access_token"@) == Some(access)
            &&& text_field(token, "refresh_token"@) == Some(refresh)
            &&& integer_value(field(token, "expires_in"@)) matches Some(n) ==> seconds == n
            &&& integer_value(field(token, "expires_in"@)) is None ==> seconds == 60 * 60
        },
        grant_of(token) is Err <==> text_field(token, "access_token"@) is None || text_field(
            token,
            "refresh_token"@,
        ) is None,
{
}

/// Law: a reply is sent into the thread of the message that it answers where this
/// belongs to the account that sends, and into no other.
pub proof fn replies_stay_in_their_account(account_id: i64, reply: Option<ReplyContext>)
    ensures
        reply_thread(account_id, reply) matches Some(thread) ==> reply matches Some(r)
            && r.account_id == account_id && r.thread_id@ == thread,
        (reply matches Some(r) && r.account_id == account_id) ==> reply_thread(account_id, reply)
            is Some,
{
}

/// Law: an address in a profile is known without the white space around it, and
/// whatever the case of its letters.
pub proof fn profiles_name_one_address(a: Json, b: Json, x: Seq<char>, y: Seq<char>)
    requires
        text_field(a, "emailAddress"@) == Some(x),
        text_field(b, "emailAddress"@) == Some(y),
    ensures
        email_of(a) == email_of(b) <==> lower(trim(x)) == lower(trim(y)),
        trim(x) == x && lower(x) == x ==> email_of(a) == x,
{
}

/// Law: requests for a message name that message, so two messages are asked for by
/// different requests.
pub proof fn requests_name_their_message(a: Seq<char>, b: Seq<char>)
    ensures
        message_url(a) == "https://gmail.googleapis.com/gmail/v1/users/me/messages"@ + "/"@ + a,
        message_url(a) == message_url(b) ==> a == b,
{
    let base = "https://gmail.googleapis.com/gmail/v1/users/me/messages"@ + "/"@;
    assert(message_url(a).skip(base.len() as int) =~= a);
    assert(message_url(b).skip(base.len() as int) =~= b);
}

/// Law: a request that changes a label names that label alone, and either adds it or
/// removes it.
pub proof fn label_requests_change_one_label(body: Json, label: Seq<char>)
    ensures
        changes_label(body, true, label) ==> array_value(field(body, "removeLabelIds"@)) is Some
            && field(body, "addLabelIds"@) is None && array_value(
            field(body, "removeLabelIds"@),
        )->Some_0.len() == 1 && text_value(
            Some(array_value(field(body, "removeLabelIds"@))->Some_0[0]),
        ) == Some(label),
        changes_label(body, false, label) ==> array_value(field(body, "addLabelIds"@)) is Some
            && field(body, "removeLabelIds"@) is None && array_value(
            field(body, "addLabelIds"@),
        )->Some_0.len() == 1 && text_value(
            Some(array_value(field(body, "addLabelIds"@))->Some_0[0]),
        ) == Some(label),
{
    reveal_strlit("removeLabelIds");
    reveal_strlit("addLabelIds");
    assert("removeLabelIds"@.len() != "addLabelIds"@.len());
    match body {
        Json::Object(members) => {
            if members@.len() == 1 {
                assert(members@.skip(1).len() == 0);
                reveal_with_fuel(member, 2);
            }
        },
        _ => {},
    }
}

/// Law: the bytes of an attachment are those that its data stand for, with or without
/// padding, and a reply without data is an error.
pub proof fn attachments_are_decoded(reply: Json, bytes: Seq<u8>)
    ensures
        text_field(reply, "data"@) is None ==> attachment_data(reply) is Err,
        text_field(reply, "data"@) matches Some(data) ==> (stands_for(data, bytes)
            ==> attachment_data(reply) == Ok::<Seq<u8>, Seq<char>>(bytes)) && (base64_url_bytes(
            data,
        ) is Err ==> attachment_data(reply) == base64_url_padded_bytes(data)),
{
}

/// Law: what an account lacks for its token is named, the first thing first.
pub proof fn missing_credentials_are_named(account: AccountView, now: int)
    requires
        now >= 0,
    ensures
        ({
            let r = token_plan(account, now);
            let good = account.token_expires_at is Some && account.token_expires_at->Some_0 - now
                > 30;
            &&& good && account.access_token is None ==> r == Err::<TokenPlanView, Seq<char>>(
                "Missing Gmail access token"@,
            )
            &&& !good && account.refresh_token is None ==> r == Err::<TokenPlanView, Seq<char>>(
                "Missing Gmail refresh token"@,
            )
            &&& !good && account.refresh_token is Some && account.client_id is None ==> r == Err::<
                TokenPlanView,
                Seq<char>,
            >("Missing Gmail client id"@)
            &&& !good && account.refresh_token is Some && account.client_id is Some
                && account.client_secret is None ==> r == Err::<TokenPlanView, Seq<char>>(
                "Missing Gmail client secret"@,
            )
        }),
{
}

/// Law: a request for a list asks for what was chosen: so many messages, those with a
/// label, those that a search finds, and the page that comes next; what was not chosen
/// is not asked for.
pub proof fn lists_ask_for_what_was_chosen(
    size: nat,
    label: Seq<char>,
    query: Seq<char>,
    token: Seq<char>,
)
    ensures
        list_url(size, None, None, None)
            == "https://gmail.googleapis.com/gmail/v1/users/me/messages?maxResults="@ + decimal(
            size,
        ),
        list_url(size, Some(label), None, None) == list_url(size, None, None, None)
            + "&labelIds="@ + percent_encoded(label),
        list_url(size, None, Some(query), None) == list_url(size, None, None, None) + "&q="@
            + percent_encoded(query),
        list_url(size, Some(label), None, Some(token)) == list_url(size, Some(label), None, None)
            + "&pageToken="@ + percent_encoded(token),
        list_url(size, None, Some(query), Some(token)) == list_url(size, None, Some(query), None)
            + "&pageToken="@ + percent_encoded(token),
{
    reveal_strlit("https://gmail.googleapis.com/gmail/v1/users/me/messages");
    reveal_strlit("?maxResults=");
    reveal_strlit("https://gmail.googleapis.com/gmail/v1/users/me/messages?maxResults=");
    assert("https://gmail.googleapis.com/gmail/v1/users/me/messages"@ + "?maxResults="@
        =~= "https://gmail.googleapis.com/gmail/v1/users/me/messages?maxResults="@);
    let bare = list_url(size, None, None, None);
    assert(bare =~= "https://gmail.googleapis.com/gmail/v1/users/me/messages?maxResults="@
        + decimal(size));
    assert(list_url(size, Some(label), None, None) =~= bare + "&labelIds="@ + percent_encoded(
        label,
    ));
    assert(list_url(size, None, Some(query), None) =~= bare + "&q="@ + percent_encoded(query));
    assert(list_url(size, Some(label), None, Some(token)) =~= list_url(
        size,
        Some(label),
        None,
        None,
    ) + "&pageToken="@ + percent_encoded(token));
    assert(list_url(size, None, Some(query), Some(token)) =~= list_url(
        size,
        None,
        Some(query),
        None,
    ) + "&pageToken="@ + percent_encoded(token));
}

} // verus!
