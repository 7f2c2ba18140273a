//! The resources: memos and prompts as markdown texts.

use vstd::prelude::*;

use crate::json::{only_texts, Json, JsonValue};
use crate::memos::{
    bare_id, id_of, no_query, result_view, ClientError, ClientView, Fault, Outgoing, OutgoingView,
};
use crate::outcome::{api_failure, api_failure_text};
use crate::prompts::{find_prompt, prompt_text, prompts_are_found_by_name, PROMPT_DEFS, PromptRow};
use crate::server::MemosServer;
use crate::text::{
    all_of, chars_of, concat2, concat3, join, joined, occurs, strip_prefix, stripped,
    stripping_takes_the_prefix, text_of, texts, trim, trim_end, trim_keeps_the_middle, trim_start,
    trimmed, CharClass,
};

verus! {

// ---------- memos as markdown ----------

/// The tags of a memo, as its front matter lists them.
pub open spec fn memo_tags(memo: JsonValue) -> Seq<char> {
    join(only_texts(memo.array_at("tags"@)), ", "@)
}

/// The front matter of a memo, line by line.
pub open spec fn front_matter(memo: JsonValue) -> Seq<Seq<char>> {
    let head = seq![
        "---"@,
        "uid: "@ + id_of(memo.text_or_empty("name"@)),
        "visibility: "@ + memo.text_or_empty("visibility"@),
    ];
    let pinned = if memo.flag("pinned"@) {
        seq!["pinned: true"@]
    } else {
        seq![]
    };
    let times = seq![
        "created: "@ + memo.text_or_empty("createTime"@),
        "updated: "@ + memo.text_or_empty("updateTime"@),
    ];
    let tags = if memo_tags(memo).len() > 0 {
        seq!["tags: ["@ + memo_tags(memo) + "]"@]
    } else {
        seq![]
    };
    head + pinned + times + tags + seq!["---"@]
}

/// A memo as markdown: its front matter, an empty line, and its content.
pub open spec fn markdown(memo: JsonValue) -> Seq<char> {
    join(front_matter(memo), "\n"@) + "\n\n"@ + memo.text_or_empty("content"@)
}

/// A memo as markdown. The API gives `name: "memos/UID"` (no `uid` field), so the
/// uid is read off the name.
pub fn memo_markdown(memo: &Json) -> (r: String)
    ensures
        r@ == markdown(memo@),
{
    let uid = bare_id(memo.text_or_empty("name").as_str());
    let tags = joined(memo.texts_at("tags").as_slice(), ", ");
    let mut lines: Vec<String> = Vec::new();
    lines.push("---".to_owned());
    lines.push(concat2("uid: ", uid.as_str()));
    lines.push(concat2("visibility: ", memo.text_or_empty("visibility").as_str()));
    if memo.flag("pinned") {
        lines.push("pinned: true".to_owned());
    }
    lines.push(concat2("created: ", memo.text_or_empty("createTime").as_str()));
    lines.push(concat2("updated: ", memo.text_or_empty("updateTime").as_str()));
    if !tags.as_str().is_empty() {
        lines.push(concat3("tags: [", tags.as_str(), "]"));
    }
    lines.push("---".to_owned());
    assert(texts(lines@) =~= front_matter(memo@));
    concat3(
        joined(lines.as_slice(), "\n").as_str(),
        "\n\n",
        memo.text_or_empty("content").as_str(),
    )
}

// ---------- listing ----------

/// A resource, or a template for the addresses of resources, as it is listed.
#[derive(Debug, PartialEq, Eq)]
pub struct ResourceInfo {
    pub uri: String,
    pub name: String,
    pub description: String,
    pub mime_type: String,
}

/// The mathematical value of a [`ResourceInfo`].
pub ghost struct ResourceView {
    pub uri: Seq<char>,
    pub name: Seq<char>,
    pub description: Seq<char>,
    pub mime_type: Seq<char>,
}

impl View for ResourceInfo {
    type V = ResourceView;

    open spec fn view(&self) -> ResourceView {
        ResourceView {
            uri: self.uri@,
            name: self.name@,
            description: self.description@,
            mime_type: self.mime_type@,
        }
    }
}

/// The values of some resources.
pub open spec fn resource_views(v: Seq<ResourceInfo>) -> Seq<ResourceView> {
    v.map_values(|r: ResourceInfo| r@)
}

/// The resource for a prompt.
pub open spec fn prompt_resource(row: PromptRow) -> ResourceView {
    ResourceView {
        uri: "memo://prompts/"@ + row.0@,
        name: "prompt-"@ + row.0@,
        description: "Prompt: "@ + row.1@,
        mime_type: "text/markdown"@,
    }
}

/// The resources that are listed: one for each prompt.
pub open spec fn listed_resources() -> Seq<ResourceView> {
    PROMPT_DEFS@.map_values(|row: PromptRow| prompt_resource(row))
}

impl MemosServer {
    /// The resources that are listed.
    pub fn list_memo_resources(&self) -> (r: Vec<ResourceInfo>)
        ensures
            resource_views(r@) == listed_resources(),
    {
        let defs = PROMPT_DEFS;
        let mut out: Vec<ResourceInfo> = Vec::new();
        let mut i: usize = 0;
        assert(resource_views(out@) =~= listed_resources().take(0));
        while i < defs.len()
            invariant
                i <= defs@.len(),
                defs@ == PROMPT_DEFS@,
                resource_views(out@) == listed_resources().take(i as int),
            decreases defs@.len() - i,
        {
            let ghost had = resource_views(out@);
            let info = ResourceInfo {
                uri: concat2("memo://prompts/", defs[i].0),
                name: concat2("prompt-", defs[i].0),
                description: concat2("Prompt: ", defs[i].1),
                mime_type: "text/markdown".to_owned(),
            };
            out.push(info);
            assert(resource_views(out@) =~= had.push(info@));
            assert(listed_resources()[i as int] == info@);
            assert(listed_resources().take(i + 1) =~= listed_resources().take(i as int).push(info@));
            i = i + 1;
        }
        assert(listed_resources().take(i as int) =~= listed_resources());
        out
    }
}

/// The template for the addresses of memos.
pub open spec fn memo_template() -> ResourceView {
    ResourceView {
        uri: "memo://memos/{uid}"@,
        name: "memo"@,
        description: "A memo by its UID"@,
        mime_type: "text/markdown"@,
    }
}

impl MemosServer {
    /// The templates that are listed.
    pub fn list_memo_resource_templates(&self) -> (r: Vec<ResourceInfo>)
        ensures
            resource_views(r@) == seq![memo_template()],
    {
        let info = ResourceInfo {
            uri: "memo://memos/{uid}".to_owned(),
            name: "memo".to_owned(),
            description: "A memo by its UID".to_owned(),
            mime_type: "text/markdown".to_owned(),
        };
        let r = vec![info];
        assert(resource_views(r@) =~= seq![memo_template()]);
        r
    }
}

// ---------- reading ----------

/// The contents of a resource.
#[derive(Debug, PartialEq, Eq)]
pub struct TextResource {
    pub uri: String,
    pub text: String,
    pub mime_type: String,
}

/// The mathematical value of a [`TextResource`].
pub ghost struct TextView {
    pub uri: Seq<char>,
    pub text: Seq<char>,
    pub mime_type: Seq<char>,
}

impl View for TextResource {
    type V = TextView;

    open spec fn view(&self) -> TextView {
        TextView { uri: self.uri@, text: self.text@, mime_type: self.mime_type@ }
    }
}

/// A markdown text under an address.
pub open spec fn markdown_text(uri: Seq<char>, text: Seq<char>) -> TextView {
    TextView { uri, text, mime_type: "text/markdown"@ }
}

/// A markdown text under an address.
pub fn text_resource(uri: &str, text: &str) -> (r: TextResource)
    ensures
        r@ == markdown_text(uri@, text@),
{
    TextResource {
        uri: uri.to_owned(),
        text: text.to_owned(),
        mime_type: "text/markdown".to_owned(),
    }
}

/// What is to be done to read a resource.
#[derive(Debug, PartialEq, Eq)]
pub enum ResourceRead {
    /// Nothing: these are its contents.
    Text(TextResource),
    /// Send this request; the reply holds the memo.
    Fetch(Outgoing),
    /// There is no such resource, for the reason given.
    Invalid(String),
}

/// The mathematical value of a [`ResourceRead`].
pub ghost enum Reading {
    Text(TextView),
    Fetch(OutgoingView),
    Invalid(Seq<char>),
}

impl View for ResourceRead {
    type V = Reading;

    open spec fn view(&self) -> Reading {
        match self {
            ResourceRead::Text(t) => Reading::Text(t@),
            ResourceRead::Fetch(o) => Reading::Fetch(o@),
            ResourceRead::Invalid(s) => Reading::Invalid(s@),
        }
    }
}

/// How a resource is read: a prompt from the list, a memo from the API.
pub open spec fn reading(client: ClientView, uri: Seq<char>) -> Reading {
    match strip_prefix(uri, "memo://prompts/"@) {
        Some(name) => match prompt_text(PROMPT_DEFS@, name) {
            Some(text) => Reading::Text(markdown_text(uri, text)),
            None => Reading::Invalid("unknown prompt: "@ + name),
        },
        None => match strip_prefix(uri, "memo://memos/"@) {
            Some(rest) => {
                let uid = trim(rest, CharClass::Only('/'));
                if uid.len() == 0 || uid.contains('/') {
                    Reading::Invalid("invalid memo URI: missing UID"@)
                } else {
                    Reading::Fetch(client.get("/api/v1/memos/"@ + uid, seq![]))
                }
            },
            None => Reading::Invalid("unknown resource: "@ + uri),
        },
    }
}

impl MemosServer {
    /// How a resource is read.
    pub fn read_memo_resource(&self, uri: &str) -> (r: ResourceRead)
        ensures
            r@ == reading(self@, uri@),
    {
        let v = chars_of(uri);
        if let Some(name) = stripped(v.as_slice(), "memo://prompts/") {
            let name = text_of(name);
            return match find_prompt(name.as_str()) {
                Some(text) => ResourceRead::Text(text_resource(uri, text)),
                None => ResourceRead::Invalid(concat2("unknown prompt: ", name.as_str())),
            };
        }
        if let Some(rest) = stripped(v.as_slice(), "memo://memos/") {
            let uid = trimmed(rest, CharClass::Only('/'));
            if uid.len() == 0 || occurs(uid, '/') {
                return ResourceRead::Invalid("invalid memo URI: missing UID".to_owned());
            }
            let path = concat2("/api/v1/memos/", text_of(uid).as_str());
            return ResourceRead::Fetch(self.client().get(path.as_str(), no_query()));
        }
        ResourceRead::Invalid(concat2("unknown resource: ", uri))
    }
}

/// The contents of a memo's resource, given what the request for the memo gave.
pub open spec fn memo_text(uri: Seq<char>, reply: Result<JsonValue, Fault>) -> Result<
    TextView,
    Seq<char>,
> {
    match reply {
        Ok(memo) => Ok(markdown_text(uri, markdown(memo))),
        Err(fault) => Err(api_failure(fault)),
    }
}

/// The view of a resource's contents, or why there are none.
pub open spec fn text_view(r: Result<TextResource, String>) -> Result<TextView, Seq<char>> {
    match r {
        Ok(t) => Ok(t@),
        Err(e) => Err(e@),
    }
}

/// The contents of a memo's resource, given what the request for the memo gave.
pub fn memo_resource(uri: &str, reply: Result<Json, ClientError>) -> (r: Result<
    TextResource,
    String,
>)
    ensures
        text_view(r) == memo_text(uri@, result_view(reply)),
{
    match reply {
        Ok(memo) => Ok(text_resource(uri, memo_markdown(&memo).as_str())),
        Err(e) => Err(api_failure_text(&e)),
    }
}

// ---------- laws ----------

/// Every resource that is listed can be read, and holds its prompt's text.
pub proof fn listed_resources_can_be_read(client: ClientView, i: int)
    requires
        0 <= i < listed_resources().len(),
    ensures
        reading(client, listed_resources()[i].uri) == Reading::Text(
            TextView {
                uri: listed_resources()[i].uri,
                text: PROMPT_DEFS@[i].2@,
                mime_type: listed_resources()[i].mime_type,
            },
        ),
{
    let name = PROMPT_DEFS@[i].0@;
    let uri = "memo://prompts/"@ + name;
    assert(uri.skip("memo://prompts/"@.len() as int) =~= name);
    assert("memo://prompts/"@.is_prefix_of(uri));
    prompts_are_found_by_name(i);
}

/// An address made from the template by a memo's UID is read by getting that
/// memo.
pub proof fn memo_addresses_are_fetched(client: ClientView, uid: Seq<char>)
    requires
        uid.len() > 0,
        !uid.contains('/'),
    ensures
        reading(client, "memo://memos/"@ + uid) == Reading::Fetch(
            client.get("/api/v1/memos/"@ + uid, seq![]),
        ),
{
    reveal_strlit("memo://prompts/");
    reveal_strlit("memo://memos/");
    let uri = "memo://memos/"@ + uid;
    assert(uri[7] == 'm');
    assert("memo://prompts/"@[7] == 'p');
    assert(!"memo://prompts/"@.is_prefix_of(uri));
    assert("memo://memos/"@.is_prefix_of(uri));
    assert(uri.skip("memo://memos/"@.len() as int) =~= uid);
    assert(uid.contains(uid[0]));
    assert(uid.contains(uid.last()));
    assert(trim_start(uid, CharClass::Only('/')) == uid);
    assert(trim_end(uid, CharClass::Only('/')) == uid);
}

/// What is fetched for an address is always one memo: the path has one segment
/// below the memos, and it is not empty.
pub proof fn fetched_paths_name_one_memo(client: ClientView, uri: Seq<char>)
    ensures
        reading(client, uri) matches Reading::Fetch(request) ==> exists|uid: Seq<char>|
            uid.len() > 0 && !uid.contains('/') && request == #[trigger] client.get(
                "/api/v1/memos/"@ + uid,
                seq![],
            ),
{
}

/// A memo's markdown ends in a line of dashes, an empty line, and the memo's content,
/// character for character, whatever else the memo holds.
pub proof fn markdown_ends_in_the_content(memo: JsonValue, content: Seq<char>)
    requires
        memo.get("content"@) == Some(JsonValue::Text(content)),
    ensures
        exists|front: Seq<char>| markdown(memo) == #[trigger] (front + "---\n\n"@ + content),
{
    reveal_strlit("---");
    reveal_strlit("\n\n");
    reveal_strlit("---\n\n");
    reveal_strlit("\n");
    let lines = front_matter(memo);
    let before = join(lines.drop_last(), "\n"@) + "\n"@;
    assert(lines.last() == "---"@);
    assert(lines.len() >= 2);
    assert(join(lines, "\n"@) == before + "---"@);
    assert("---\n\n"@ =~= "---"@ + "\n\n"@);
    assert(markdown(memo) =~= before + "---\n\n"@ + content);
}

/// The markdown of a memo depends on its name, visibility, pin, times, tags and content
/// alone.
pub proof fn markdown_depends_on_seven_members(a: JsonValue, b: JsonValue)
    requires
        a.get("name"@) == b.get("name"@),
        a.get("visibility"@) == b.get("visibility"@),
        a.get("pinned"@) == b.get("pinned"@),
        a.get("createTime"@) == b.get("createTime"@),
        a.get("updateTime"@) == b.get("updateTime"@),
        a.get("tags"@) == b.get("tags"@),
        a.get("content"@) == b.get("content"@),
    ensures
        markdown(a) == markdown(b),
{
    assert(front_matter(a) =~= front_matter(b));
}

/// The front matter of a memo: dashes, the id in its name, its visibility, that it is
/// pinned where it is, its times, its tags where it has some, and dashes again. Each
/// value stands in its line as it is.
pub proof fn front_matter_tells_of_the_memo(
    memo: JsonValue,
    name: Seq<char>,
    visibility: Seq<char>,
    created: Seq<char>,
    updated: Seq<char>,
)
    requires
        memo.get("name"@) == Some(JsonValue::Text(name)),
        memo.get("visibility"@) == Some(JsonValue::Text(visibility)),
        memo.get("createTime"@) == Some(JsonValue::Text(created)),
        memo.get("updateTime"@) == Some(JsonValue::Text(updated)),
    ensures
        ({
            let lines = front_matter(memo);
            let pinned = memo.get("pinned"@) == Some(JsonValue::Bool(true));
            let p: int = if pinned {
                1
            } else {
                0
            };
            let t: int = if memo_tags(memo).len() > 0 {
                1
            } else {
                0
            };
            &&& lines.len() == 6 + p + t
            &&& lines[0] == "---"@
            &&& lines[1] == "uid: "@ + id_of(name)
            &&& lines[2] == "visibility: "@ + visibility
            &&& pinned ==> lines[3] == "pinned: true"@
            &&& lines[3 + p] == "created: "@ + created
            &&& lines[4 + p] == "updated: "@ + updated
            &&& t == 1 ==> lines[5 + p] == "tags: ["@ + memo_tags(memo) + "]"@
            &&& lines.last() == "---"@
        }),
{
}

/// The tags in the front matter are the texts in the memo's list of tags, with commas
/// between them.
pub proof fn front_matter_lists_the_tags(memo: JsonValue, list: Seq<JsonValue>)
    requires
        memo.get("tags"@) == Some(JsonValue::Array(list)),
    ensures
        memo_tags(memo) == join(only_texts(list), seq![',', ' ']),
{
    reveal_strlit(", ");
    assert(", "@ =~= seq![',', ' ']);
}

/// The address of a prompt that there is none of is refused, and so is a memo's address
/// without a UID or with more than one segment, and any other address; the words end in
/// what was asked for.
pub proof fn unknown_addresses_are_refused(client: ClientView, name: Seq<char>, uri: Seq<char>)
    ensures
        prompt_text(PROMPT_DEFS@, name) is None ==> reading(client, "memo://prompts/"@ + name)
            == Reading::Invalid("unknown prompt: "@ + name),
        prompt_text(PROMPT_DEFS@, name) matches Some(text) ==> reading(
            client,
            "memo://prompts/"@ + name,
        ) == Reading::Text(
            TextView {
                uri: "memo://prompts/"@ + name,
                text,
                mime_type: "text/markdown"@,
            },
        ),
        !"memo://prompts/"@.is_prefix_of(uri) && !"memo://memos/"@.is_prefix_of(uri) ==> reading(
            client,
            uri,
        ) == Reading::Invalid("unknown resource: "@ + uri),
{
    stripping_takes_the_prefix("memo://prompts/"@, name, uri);
}

/// A memo's address is read by the UID in it, with or without slashes around; without
/// one, or with a slash inside, it is refused.
pub proof fn memo_addresses_need_one_uid(
    client: ClientView,
    front: Seq<char>,
    uid: Seq<char>,
    back: Seq<char>,
)
    requires
        all_of(front, CharClass::Only('/')),
        all_of(back, CharClass::Only('/')),
        uid.len() > 0 ==> uid[0] != '/' && uid.last() != '/',
    ensures
        uid.len() > 0 && !uid.contains('/') ==> reading(
            client,
            "memo://memos/"@ + (front + uid + back),
        ) == Reading::Fetch(client.get("/api/v1/memos/"@ + uid, seq![])),
        uid.len() == 0 || uid.contains('/') ==> reading(
            client,
            "memo://memos/"@ + (front + uid + back),
        ) == Reading::Invalid("invalid memo URI: missing UID"@),
{
    reveal_strlit("memo://prompts/");
    reveal_strlit("memo://memos/");
    let rest = front + uid + back;
    let uri = "memo://memos/"@ + rest;
    assert(uri[7] == 'm');
    assert("memo://prompts/"@[7] == 'p');
    assert(!"memo://prompts/"@.is_prefix_of(uri));
    stripping_takes_the_prefix("memo://memos/"@, rest, uri);
    trim_keeps_the_middle(front, uid, back, CharClass::Only('/'));
}

/// A memo that was fetched is given as its markdown under the address that was asked
/// for; a failure to fetch it is told.
pub proof fn fetched_memos_are_given_as_markdown(uri: Seq<char>, memo: JsonValue, fault: Fault)
    ensures
        memo_text(uri, Ok(memo)) matches Ok(text) && text.uri == uri && text.text == markdown(memo)
            && text.mime_type == "text/markdown"@,
        memo_text(uri, Err(fault)) == Err::<TextView, Seq<char>>(
            "memos api error: "@ + fault.message(),
        ),
{
}

/// There is one resource for each prompt, which carries its name and description.
pub proof fn each_prompt_has_its_resource(i: int)
    requires
        0 <= i < PROMPT_DEFS@.len(),
    ensures
        listed_resources().len() == PROMPT_DEFS@.len(),
        listed_resources()[i].uri == "memo://prompts/"@ + PROMPT_DEFS@[i].0@,
        listed_resources()[i].name == "prompt-"@ + PROMPT_DEFS@[i].0@,
        listed_resources()[i].description == "Prompt: "@ + PROMPT_DEFS@[i].1@,
        listed_resources()[i].mime_type == "text/markdown"@,
{
}

/// A member that a memo lacks, or that is no text, is shown as an empty text would be;
/// a pin that is not `true`, and a list of tags that is none, are not shown.
pub proof fn missing_members_are_shown_as_empty(a: JsonValue, b: JsonValue)
    requires
        a.text_or_empty("name"@) == b.text_or_empty("name"@),
        a.text_or_empty("visibility"@) == b.text_or_empty("visibility"@),
        a.flag("pinned"@) == b.flag("pinned"@),
        a.text_or_empty("createTime"@) == b.text_or_empty("createTime"@),
        a.text_or_empty("updateTime"@) == b.text_or_empty("updateTime"@),
        a.array_at("tags"@) == b.array_at("tags"@),
        a.text_or_empty("content"@) == b.text_or_empty("content"@),
    ensures
        markdown(a) == markdown(b),
{
    assert(front_matter(a) =~= front_matter(b));
}

} // verus!
