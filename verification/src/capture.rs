//! Request-side capture: which parts of an LLM request body (OpenAI or Anthropic
//! shape) give the model, the prompt and the one-line preview.
use vstd::prelude::*;

use crate::text::{append_str, decimal, decimal_string, str_eq};

verus! {

/// The most response bytes the proxy buffers for trace previews on cache misses.
pub const MAX_CAPTURE_BYTES: usize = 262144;

/// A JSON value.
pub enum Json {
    Null,
    Bool(bool),
    Number(String),
    Str(String),
    Array(Vec<Json>),
    Object(Vec<(String, Json)>),
}

/// The value of the first member named `key` among `members`.
pub open spec fn member(members: Seq<(String, Json)>, key: Seq<char>) -> Option<Json>
    decreases members.len(),
{
    if members.len() == 0 {
        None
    } else if members[0].0@ == key {
        Some(members[0].1)
    } else {
        member(members.drop_first(), key)
    }
}

/// The member `key` of an object; nothing for other values.
pub open spec fn field(j: Json, key: Seq<char>) -> Option<Json> {
    match j {
        Json::Object(members) => member(members@, key),
        _ => None,
    }
}

/// The items of an array value.
pub open spec fn array_items(j: Option<Json>) -> Option<Seq<Json>> {
    match j {
        Some(Json::Array(items)) => Some(items@),
        _ => None,
    }
}

/// The text of a string value.
pub open spec fn string_text(j: Option<Json>) -> Option<Seq<char>> {
    match j {
        Some(Json::Str(s)) => Some(s@),
        _ => None,
    }
}

proof fn lemma_member_skip(members: Seq<(String, Json)>, key: Seq<char>, i: int)
    requires
        0 <= i < members.len(),
        members[i].0@ != key,
    ensures
        member(members.skip(i), key) == member(members.skip(i + 1), key),
{
    assert(members.skip(i).drop_first() =~= members.skip(i + 1));
}

/// The member `key` of an object value.
pub fn get_field<'a>(j: &'a Json, key: &str) -> (r: Option<&'a Json>)
    ensures
        match r {
            Some(v) => field(*j, key@) == Some(*v),
            None => field(*j, key@) is None,
        },
{
    match j {
        Json::Object(members) => {
            let mut i: usize = 0;
            assert(members@.skip(0) =~= members@);
            while i < members.len()
                invariant
                    i <= members@.len(),
                    field(*j, key@) == member(members@, key@),
                    member(members@, key@) == member(members@.skip(i as int), key@),
                decreases members@.len() - i,
            {
                if str_eq(members[i].0.as_str(), key) {
                    let ghost rest = members@.skip(i as int);
                    assert(rest[0] == members@[i as int]);
                    assert(rest.len() > 0);
                    assert(rest[0].0@ == key@);
                    assert(member(rest, key@) == Some(rest[0].1));
                    return Some(&members[i].1);
                }
                proof {
                    lemma_member_skip(members@, key@, i as int);
                }
                i = i + 1;
            }
            assert(members@.skip(i as int) =~= Seq::<(String, Json)>::empty());
            None
        },
        _ => None,
    }
}

fn field_items<'a>(j: &'a Json, key: &str) -> (r: Option<&'a Vec<Json>>)
    ensures
        match r {
            Some(v) => array_items(field(*j, key@)) == Some(v@),
            None => array_items(field(*j, key@)) is None,
        },
{
    match get_field(j, key) {
        Some(Json::Array(items)) => Some(items),
        _ => None,
    }
}

fn field_text<'a>(j: &'a Json, key: &str) -> (r: Option<&'a String>)
    ensures
        match r {
            Some(s) => string_text(field(*j, key@)) == Some(s@),
            None => string_text(field(*j, key@)) is None,
        },
{
    match get_field(j, key) {
        Some(Json::Str(s)) => Some(s),
        _ => None,
    }
}

/// A string member of the request, or `"-"`: how the model and the request id
/// are read.
pub open spec fn text_or_dash(parsed: Option<Json>, key: Seq<char>) -> Seq<char> {
    match parsed {
        Some(v) => match string_text(field(v, key)) {
            Some(t) => t,
            None => "-"@,
        },
        None => "-"@,
    }
}

/// The model a request names (`"model"`), or `"-"`.
pub fn request_model(parsed: Option<&Json>) -> (r: String)
    ensures
        r@ == text_or_dash(
            match parsed {
                Some(v) => Some(*v),
                None => None,
            },
            "model"@,
        ),
{
    match parsed {
        Some(v) => match field_text(v, "model") {
            Some(t) => t.clone(),
            None => String::from_str("-"),
        },
        None => String::from_str("-"),
    }
}

/// The id a request carries (`"id"`), or `"-"`.
pub fn request_id(parsed: Option<&Json>) -> (r: String)
    ensures
        r@ == text_or_dash(
            match parsed {
                Some(v) => Some(*v),
                None => None,
            },
            "id"@,
        ),
{
    match parsed {
        Some(v) => match field_text(v, "id") {
            Some(t) => t.clone(),
            None => String::from_str("-"),
        },
        None => String::from_str("-"),
    }
}

/// The preview of a body that gives no text: `"-"` when empty, else its size.
pub fn fallback_preview(body_len: usize) -> (r: String)
    ensures
        r@ == (if body_len == 0 {
            "-"@
        } else {
            "<"@ + decimal(body_len as nat) + " bytes, non-JSON>"@
        }),
{
    if body_len == 0 {
        String::from_str("-")
    } else {
        let mut s = String::from_str("<");
        let n = decimal_string(body_len as u64);
        append_str(&mut s, n.as_str());
        append_str(&mut s, " bytes, non-JSON>");
        s
    }
}

/// Where a piece of prompt text comes from.
pub enum TextSource<'a> {
    /// A content value, rendered to text.
    Content(&'a Json),
    /// A plain string.
    Plain(&'a String),
}

/// Where a piece of prompt text comes from, as values.
pub enum SourceView {
    Content(Json),
    Plain(Seq<char>),
}

impl<'a> View for TextSource<'a> {
    type V = SourceView;

    open spec fn view(&self) -> SourceView {
        match self {
            TextSource::Content(j) => SourceView::Content(**j),
            TextSource::Plain(s) => SourceView::Plain(s@),
        }
    }
}

/// The messages of a request: `"messages"` when an array, else `"input"` when an array.
pub open spec fn message_list(v: Json) -> Option<Seq<Json>> {
    if array_items(field(v, "messages"@)) is Some {
        array_items(field(v, "messages"@))
    } else {
        array_items(field(v, "input"@))
    }
}

/// The source of the one-line preview, the most recent user text: in a message
/// list, the content of the last message whose role is `"user"` (or that message
/// itself when it has no content), nothing when no message is the user's;
/// without a message list, `"input"`, else the `"prompt"` string.
pub open spec fn preview_source(v: Json) -> Option<SourceView> {
    match message_list(v) {
        Some(items) => match last_user(items, items.len() as int) {
            Some(k) => Some(
                SourceView::Content(
                    match field(items[k], "content"@) {
                        Some(c) => c,
                        None => items[k],
                    },
                ),
            ),
            None => None,
        },
        None => match field(v, "input"@) {
            Some(i) => Some(SourceView::Content(i)),
            None => match string_text(field(v, "prompt"@)) {
                Some(p) => Some(SourceView::Plain(p)),
                None => None,
            },
        },
    }
}

/// The source of the one-line preview of a request.
pub fn last_text_source<'a>(v: &'a Json) -> (r: Option<TextSource<'a>>)
    ensures
        match r {
            Some(s) => preview_source(*v) == Some(s@),
            None => preview_source(*v) is None,
        },
{
    let list = match field_items(v, "messages") {
        Some(items) => Some(items),
        None => field_items(v, "input"),
    };
    match list {
        Some(items) => match last_user_message(items) {
            Some(m) => match get_field(m, "content") {
                Some(c) => Some(TextSource::Content(c)),
                None => Some(TextSource::Content(m)),
            },
            None => None,
        },
        None => match get_field(v, "input") {
            Some(i) => Some(TextSource::Content(i)),
            None => match field_text(v, "prompt") {
                Some(p) => Some(TextSource::Plain(p)),
                None => None,
            },
        },
    }
}

/// The role of a message, when it is a string.
pub open spec fn role_of(m: Json) -> Option<Seq<char>> {
    string_text(field(m, "role"@))
}

/// The contents of the system and developer messages, in order.
pub open spec fn system_contents(items: Seq<Json>) -> Seq<Json>
    decreases items.len(),
{
    if items.len() == 0 {
        Seq::empty()
    } else {
        let rest = system_contents(items.drop_last());
        let m = items.last();
        if (role_of(m) == Some("system"@) || role_of(m) == Some("developer"@)) && field(
            m,
            "content"@,
        ) is Some {
            rest.push(field(m, "content"@).unwrap())
        } else {
            rest
        }
    }
}

/// Where the system prompt comes from.
pub enum SystemPrompt<'a> {
    /// The `"system"` member.
    Field(&'a Json),
    /// The contents of the system and developer messages, joined by blank lines.
    Messages(Vec<&'a Json>),
    /// Nowhere: the system prompt is empty.
    Empty,
}

/// The source of the system prompt: `"system"`, else the system and developer
/// messages, else nothing.
pub open spec fn system_prompt_is(v: Json, s: SystemPrompt) -> bool {
    match field(v, "system"@) {
        Some(x) => s matches SystemPrompt::Field(f) && *f == x,
        None => match array_items(field(v, "messages"@)) {
            Some(items) => s matches SystemPrompt::Messages(list) && list@.map_values(|j: &Json| *j)
                == system_contents(items),
            None => s is Empty,
        },
    }
}

fn is_role(m: &Json, role: &str) -> (r: bool)
    ensures
        r == (role_of(*m) == Some(role@)),
{
    match field_text(m, "role") {
        Some(t) => str_eq(t.as_str(), role),
        None => false,
    }
}

/// The source of a request's system prompt.
pub fn system_prompt_source<'a>(v: &'a Json) -> (r: SystemPrompt<'a>)
    ensures
        system_prompt_is(*v, r),
{
    if let Some(s) = get_field(v, "system") {
        return SystemPrompt::Field(s);
    }
    match field_items(v, "messages") {
        Some(items) => {
            let mut out: Vec<&'a Json> = Vec::new();
            let mut i: usize = 0;
            while i < items.len()
                invariant
                    i <= items@.len(),
                    out@.map_values(|j: &Json| *j) == system_contents(items@.take(i as int)),
                decreases items@.len() - i,
            {
                let m = &items[i];
                assert(items@.take(i + 1).drop_last() =~= items@.take(i as int));
                if is_role(m, "system") || is_role(m, "developer") {
                    if let Some(c) = get_field(m, "content") {
                        out.push(c);
                        assert(out@.map_values(|j: &Json| *j) =~= system_contents(
                            items@.take(i as int),
                        ).push(*c));
                    }
                }
                i = i + 1;
            }
            assert(items@.take(items@.len() as int) =~= items@);
            SystemPrompt::Messages(out)
        },
        None => SystemPrompt::Empty,
    }
}

/// The index of the last message with role `"user"` among the first `n`.
pub open spec fn last_user(items: Seq<Json>, n: int) -> Option<int>
    decreases n,
{
    if n <= 0 {
        None
    } else if role_of(items[n - 1]) == Some("user"@) {
        Some(n - 1)
    } else {
        last_user(items, n - 1)
    }
}

/// The source of the user prompt: the content of the last user message, else
/// `"input"`, else the `"prompt"` string, else nothing.
pub open spec fn user_source(v: Json) -> Option<SourceView> {
    let from_messages = match array_items(field(v, "messages"@)) {
        Some(items) => match last_user(items, items.len() as int) {
            Some(k) => match field(items[k], "content"@) {
                Some(c) => Some(SourceView::Content(c)),
                None => None,
            },
            None => None,
        },
        None => None,
    };
    if from_messages is Some {
        from_messages
    } else {
        match field(v, "input"@) {
            Some(i) => Some(SourceView::Content(i)),
            None => match string_text(field(v, "prompt"@)) {
                Some(p) => Some(SourceView::Plain(p)),
                None => None,
            },
        }
    }
}

fn last_user_content<'a>(items: &'a Vec<Json>) -> (r: Option<&'a Json>)
    ensures
        match r {
            Some(c) => last_user(items@, items@.len() as int) matches Some(k) && field(
                items@[k],
                "content"@,
            ) == Some(*c),
            None => match last_user(items@, items@.len() as int) {
                Some(k) => field(items@[k], "content"@) is None,
                None => true,
            },
        },
{
    let mut n: usize = items.len();
    while n > 0
        invariant
            n <= items@.len(),
            last_user(items@, items@.len() as int) == last_user(items@, n as int),
        decreases n,
    {
        if is_role(&items[n - 1], "user") {
            return get_field(&items[n - 1], "content");
        }
        n = n - 1;
    }
    None
}

fn last_user_message<'a>(items: &'a Vec<Json>) -> (r: Option<&'a Json>)
    ensures
        match r {
            Some(m) => last_user(items@, items@.len() as int) matches Some(k) && items@[k] == *m,
            None => last_user(items@, items@.len() as int) is None,
        },
{
    let mut n: usize = items.len();
    while n > 0
        invariant
            n <= items@.len(),
            last_user(items@, items@.len() as int) == last_user(items@, n as int),
        decreases n,
    {
        if is_role(&items[n - 1], "user") {
            return Some(&items[n - 1]);
        }
        n = n - 1;
    }
    None
}

/// The source of a request's user prompt.
pub fn user_prompt_source<'a>(v: &'a Json) -> (r: Option<TextSource<'a>>)
    ensures
        match r {
            Some(s) => user_source(*v) == Some(s@),
            None => user_source(*v) is None,
        },
{
    if let Some(items) = field_items(v, "messages") {
        if let Some(c) = last_user_content(items) {
            return Some(TextSource::Content(c));
        }
    }
    match get_field(v, "input") {
        Some(i) => Some(TextSource::Content(i)),
        None => match field_text(v, "prompt") {
            Some(p) => Some(TextSource::Plain(p)),
            None => None,
        },
    }
}


proof fn lemma_last_user(items: Seq<Json>, n: int)
    requires
        0 <= n <= items.len(),
    ensures
        match last_user(items, n) {
            Some(k) => 0 <= k < n && role_of(items[k]) == Some("user"@) && forall|j: int|
                k < j < n ==> role_of(#[trigger] items[j]) != Some("user"@),
            None => forall|j: int| 0 <= j < n ==> role_of(#[trigger] items[j]) != Some("user"@),
        },
    decreases n,
{
    if n > 0 {
        lemma_last_user(items, n - 1);
    }
}

/// With a message list, the preview is taken from a user message and from no
/// earlier one: it is that message's content (or the message itself when it has
/// none), no later message is the user's, and there is a preview exactly when
/// some message is the user's.
pub proof fn law_preview_from_last_user_message(v: Json, items: Seq<Json>)
    requires
        message_list(v) == Some(items),
    ensures
        preview_source(v) is Some <==> exists|k: int|
            0 <= k < items.len() && role_of(#[trigger] items[k]) == Some("user"@),
        preview_source(v) is Some ==> exists|k: int|
            #![trigger items[k]]
            0 <= k < items.len() && role_of(items[k]) == Some("user"@) && (forall|j: int|
                k < j < items.len() ==> role_of(#[trigger] items[j]) != Some("user"@))
                && preview_source(v) == Some(
                SourceView::Content(
                    match field(items[k], "content"@) {
                        Some(c) => c,
                        None => items[k],
                    },
                ),
            ),
{
    lemma_last_user(items, items.len() as int);
}

/// The user prompt is the content of the last user message that has content,
/// when the `"messages"` list has one.
pub proof fn law_user_prompt_from_last_user_message(v: Json, items: Seq<Json>, k: int)
    requires
        array_items(field(v, "messages"@)) == Some(items),
        0 <= k < items.len(),
        role_of(items[k]) == Some("user"@),
        forall|j: int| k < j < items.len() ==> role_of(#[trigger] items[j]) != Some("user"@),
        field(items[k], "content"@) is Some,
    ensures
        user_source(v) == Some(SourceView::Content(field(items[k], "content"@).unwrap())),
{
    lemma_last_user(items, items.len() as int);
    let l = last_user(items, items.len() as int);
    assert(l == Some(k)) by {
        match l {
            Some(k2) => {
                if k2 < k {
                    assert(role_of(items[k]) != Some("user"@));
                } else if k2 > k {
                    assert(role_of(items[k2]) != Some("user"@));
                }
            },
            None => {
                assert(role_of(items[k]) != Some("user"@));
            },
        }
    }
}

} // verus!
