//! The request that each tool stands for.

use vstd::prelude::*;

use crate::catalog::{CURATED_TOOLS, ToolRow};
use crate::json::{items, JsonValue};
use crate::memos::{id_of, query_holds_exactly, query_of, ClientView, Method, OutgoingView};
use crate::outcome::{Answer, CallView};
use crate::params::{
    AttachmentRef, CreateAttachmentParams, CreateMemoCommentParams, CreateMemoParams,
    DeleteMemoReactionParams, EmptyParams, ListAttachmentsParams, ListMemosParams, MemoPageParams,
    MemoRef, SetMemoAttachmentsParams, SetMemoRelationsParams, ShortcutParams, UpdateMemoParams,
    UpsertMemoReactionParams,
};
use crate::text::{
    bool_text, decimal_int, join, lemma_split_tail, lemma_unsplit, lower_text, opt_text, split,
    texts,
};

verus! {

// ---------- parts of requests ----------

/// An optional number as a query value.
pub open spec fn opt_number(o: Option<i32>) -> Option<Seq<char>> {
    match o {
        Some(i) => Some(decimal_int(i as int)),
        None => None,
    }
}

/// An optional truth value as a query value.
pub open spec fn opt_bool(o: Option<bool>) -> Option<Seq<char>> {
    match o {
        Some(b) => Some(bool_text(b)),
        None => None,
    }
}

/// An optional text as a member of a body: no member where it is not given.
pub open spec fn text_member(key: Seq<char>, o: Option<String>) -> Seq<(Seq<char>, JsonValue)> {
    match o {
        Some(s) => seq![(key, JsonValue::Text(s@))],
        None => seq![],
    }
}

/// An optional truth value as a member of a body: no member where it is not
/// given.
pub open spec fn bool_member(key: Seq<char>, o: Option<bool>) -> Seq<(Seq<char>, JsonValue)> {
    match o {
        Some(b) => seq![(key, JsonValue::Bool(b))],
        None => seq![],
    }
}

/// A body that is an object with one text.
pub open spec fn name_object(name: Seq<char>) -> JsonValue {
    JsonValue::Object(seq![("name"@, JsonValue::Text(name))])
}

/// The path of a memo, or of something that belongs to it.
pub open spec fn memo_path(memo: Seq<char>, rest: Seq<char>) -> Seq<char> {
    "/api/v1/memos/"@ + id_of(memo) + rest
}

/// The name of a memo.
pub open spec fn memo_name(memo: Seq<char>) -> Seq<char> {
    "memos/"@ + id_of(memo)
}

/// An optional memo as a member of a body, by its name.
pub open spec fn memo_member(o: Option<String>) -> Seq<(Seq<char>, JsonValue)> {
    match o {
        Some(m) => seq![("memo"@, JsonValue::Text(memo_name(m@)))],
        None => seq![],
    }
}

/// The MIME type that goes with a file name extension.
pub open spec fn mime_for(extension: Seq<char>) -> Seq<char> {
    if extension == "jpg"@ || extension == "jpeg"@ {
        "image/jpeg"@
    } else if extension == "png"@ {
        "image/png"@
    } else if extension == "gif"@ {
        "image/gif"@
    } else if extension == "webp"@ {
        "image/webp"@
    } else if extension == "svg"@ {
        "image/svg+xml"@
    } else if extension == "pdf"@ {
        "application/pdf"@
    } else if extension == "mp3"@ {
        "audio/mpeg"@
    } else if extension == "mp4"@ {
        "video/mp4"@
    } else if extension == "txt"@ {
        "text/plain"@
    } else if extension == "md"@ {
        "text/markdown"@
    } else if extension == "json"@ {
        "application/json"@
    } else if extension == "csv"@ {
        "text/csv"@
    } else if extension == "zip"@ {
        "application/zip"@
    } else {
        "application/octet-stream"@
    }
}

/// The MIME type that a file name suggests: that of what follows the last dot,
/// in any letter case.
pub open spec fn mime_of(filename: Seq<char>) -> Seq<char> {
    mime_for(lower_text(split(filename, '.').last()))
}

/// The MIME type of an attachment: the one given, else what its file name
/// suggests.
pub open spec fn mime_type(given: Option<String>, filename: Seq<char>) -> Seq<char> {
    match given {
        Some(m) => m@,
        None => mime_of(filename),
    }
}

/// An attachment as a request names it: a name or a UID becomes an object with
/// the full name, anything else stays as it is.
pub open spec fn attachment_item(value: JsonValue) -> JsonValue {
    match value {
        JsonValue::Text(s) => name_object("attachments/"@ + id_of(s)),
        _ => value,
    }
}

/// A reference from one memo to another.
pub open spec fn reference(memo: Seq<char>, related: Seq<char>) -> JsonValue {
    JsonValue::Object(
        seq![
            ("memo"@, name_object(memo_name(memo))),
            ("relatedMemo"@, name_object(memo_name(related))),
            ("type"@, JsonValue::Text("REFERENCE"@)),
        ],
    )
}

/// The body of an update: the fields that are given.
pub open spec fn update_body(p: UpdateMemoParams) -> Seq<(Seq<char>, JsonValue)> {
    text_member("content"@, p.content) + text_member("visibility"@, p.visibility) + bool_member(
        "pinned"@,
        p.pinned,
    ) + text_member("state"@, p.state) + text_member("createTime"@, p.create_time) + text_member(
        "updateTime"@,
        p.update_time,
    )
}

/// The word, where a condition holds.
pub open spec fn word_if(word: Seq<char>, given: bool) -> Seq<Seq<char>> {
    if given {
        seq![word]
    } else {
        seq![]
    }
}

/// The update mask: the names of the fields that are given.
pub open spec fn update_mask(p: UpdateMemoParams) -> Seq<Seq<char>> {
    word_if("content"@, p.content is Some) + word_if("visibility"@, p.visibility is Some) + word_if(
        "pinned"@,
        p.pinned is Some,
    ) + word_if("state"@, p.state is Some) + word_if("create_time"@, p.create_time is Some)
        + word_if("update_time"@, p.update_time is Some)
}

// ---------- tools ----------

/// A tool call that is one request, with what the caller gave.
pub ghost enum ToolCall {
    ListMemos(ListMemosParams),
    CreateMemo(CreateMemoParams),
    GetMemo(MemoRef),
    UpdateMemo(UpdateMemoParams),
    DeleteMemo(MemoRef),
    ListMemoComments(MemoPageParams),
    CreateMemoComment(CreateMemoCommentParams),
    ListMemoAttachments(MemoRef),
    SetMemoAttachments(SetMemoAttachmentsParams),
    ListMemoReactions(MemoRef),
    UpsertMemoReaction(UpsertMemoReactionParams),
    DeleteMemoReaction(DeleteMemoReactionParams),
    ListMemoRelations(MemoRef),
    SetMemoRelations(SetMemoRelationsParams),
    ListAttachments(ListAttachmentsParams),
    CreateAttachment(CreateAttachmentParams),
    GetAttachment(AttachmentRef),
    DeleteAttachment(AttachmentRef),
    ListShortcuts(ShortcutParams),
    GetCurrentUser(EmptyParams),
}

impl ToolCall {
    /// The request that the call stands for.
    pub open spec fn request(self, client: ClientView) -> OutgoingView {
        match self {
            ToolCall::ListMemos(p) => client.get(
                "/api/v1/memos"@,
                query_of(
                    seq![
                        ("pageSize"@, opt_number(p.page_size)),
                        ("pageToken"@, opt_text(p.page_token)),
                        ("state"@, opt_text(p.state)),
                        ("orderBy"@, opt_text(p.order_by)),
                        ("filter"@, opt_text(p.filter)),
                        ("showDeleted"@, opt_bool(p.show_deleted)),
                    ],
                ),
            ),
            ToolCall::CreateMemo(p) => client.post(
                "/api/v1/memos"@,
                query_of(seq![("memoId"@, opt_text(p.memo_id))]),
                JsonValue::Object(
                    seq![("content"@, JsonValue::Text(p.content@))] + text_member(
                        "visibility"@,
                        p.visibility,
                    ) + bool_member("pinned"@, p.pinned) + text_member(
                        "createTime"@,
                        p.create_time,
                    ),
                ),
            ),
            ToolCall::GetMemo(p) => client.get(memo_path(p.memo@, ""@), seq![]),
            ToolCall::UpdateMemo(p) => client.patch(
                memo_path(p.memo@, ""@),
                seq![("updateMask"@, join(update_mask(p), ","@))],
                JsonValue::Object(update_body(p)),
            ),
            ToolCall::DeleteMemo(p) => client.delete(memo_path(p.memo@, ""@)),
            ToolCall::ListMemoComments(p) => client.get(
                memo_path(p.memo@, "/comments"@),
                query_of(
                    seq![
                        ("pageSize"@, opt_number(p.page_size)),
                        ("pageToken"@, opt_text(p.page_token)),
                        ("orderBy"@, opt_text(p.order_by)),
                    ],
                ),
            ),
            ToolCall::CreateMemoComment(p) => client.post(
                memo_path(p.memo@, "/comments"@),
                query_of(seq![("commentId"@, opt_text(p.comment_id))]),
                JsonValue::Object(seq![("content"@, JsonValue::Text(p.content@))]),
            ),
            ToolCall::ListMemoAttachments(p) => client.get(
                memo_path(p.memo@, "/attachments"@),
                seq![],
            ),
            ToolCall::SetMemoAttachments(p) => client.patch(
                memo_path(p.memo@, "/attachments"@),
                seq![],
                JsonValue::Object(
                    seq![
                        ("name"@, JsonValue::Text(memo_name(p.memo@))),
                        (
                            "attachments"@,
                            JsonValue::Array(
                                items(p.attachments@).map_values(
                                    |v: JsonValue| attachment_item(v),
                                ),
                            ),
                        ),
                    ],
                ),
            ),
            ToolCall::ListMemoReactions(p) => client.get(
                memo_path(p.memo@, "/reactions"@),
                seq![],
            ),
            ToolCall::UpsertMemoReaction(p) => client.post(
                memo_path(p.memo@, "/reactions"@),
                seq![],
                JsonValue::Object(
                    seq![
                        (
                            "reaction"@,
                            JsonValue::Object(
                                seq![
                                    ("contentId"@, JsonValue::Text(memo_name(p.memo@))),
                                    ("reactionType"@, JsonValue::Text(p.reaction_type@)),
                                ],
                            ),
                        ),
                    ],
                ),
            ),
            ToolCall::DeleteMemoReaction(p) => client.delete(
                memo_path(p.memo@, "/reactions/"@ + id_of(p.reaction@)),
            ),
            ToolCall::ListMemoRelations(p) => client.get(
                memo_path(p.memo@, "/relations"@),
                seq![],
            ),
            ToolCall::SetMemoRelations(p) => client.patch(
                memo_path(p.memo@, "/relations"@),
                seq![],
                JsonValue::Object(
                    seq![
                        ("name"@, JsonValue::Text(memo_name(p.memo@))),
                        (
                            "relations"@,
                            JsonValue::Array(
                                texts(p.related@).map_values(|t: Seq<char>| reference(p.memo@, t)),
                            ),
                        ),
                    ],
                ),
            ),
            ToolCall::ListAttachments(p) => client.get(
                "/api/v1/attachments"@,
                query_of(
                    seq![
                        ("pageSize"@, opt_number(p.page_size)),
                        ("pageToken"@, opt_text(p.page_token)),
                        ("filter"@, opt_text(p.filter)),
                        ("orderBy"@, opt_text(p.order_by)),
                    ],
                ),
            ),
            ToolCall::CreateAttachment(p) => client.post(
                "/api/v1/attachments"@,
                seq![],
                JsonValue::Object(
                    seq![
                        ("filename"@, JsonValue::Text(p.filename@)),
                        ("type"@, JsonValue::Text(mime_type(p.mime_type, p.filename@))),
                    ] + text_member("content"@, p.content) + text_member(
                        "externalLink"@,
                        p.external_link,
                    ) + memo_member(p.memo),
                ),
            ),
            ToolCall::GetAttachment(p) => client.get(
                "/api/v1/attachments/"@ + id_of(p.attachment@),
                seq![],
            ),
            ToolCall::DeleteAttachment(p) => client.delete(
                "/api/v1/attachments/"@ + id_of(p.attachment@),
            ),
            ToolCall::ListShortcuts(p) => client.get(
                "/api/v1/users/"@ + id_of(p.user@) + "/shortcuts"@,
                seq![],
            ),
            ToolCall::GetCurrentUser(_) => client.get("/api/v1/auth/me"@, seq![]),
        }
    }

    /// What the tool answers once the request has succeeded.
    pub open spec fn answer(self) -> Answer {
        match self {
            ToolCall::DeleteMemo(_) => Answer::Acknowledge,
            ToolCall::DeleteMemoReaction(_) => Answer::Acknowledge,
            ToolCall::DeleteAttachment(_) => Answer::Acknowledge,
            ToolCall::SetMemoAttachments(_) => Answer::ValueOrAcknowledge,
            ToolCall::SetMemoRelations(_) => Answer::ValueOrAcknowledge,
            _ => Answer::Value,
        }
    }

    /// The call as a whole.
    pub open spec fn call(self, client: ClientView) -> CallView {
        CallView { request: self.request(client), answer: self.answer() }
    }

    /// The tool's place in the catalog.
    pub open spec fn row(self) -> int {
        match self {
            ToolCall::ListMemos(_) => 0,
            ToolCall::CreateMemo(_) => 1,
            ToolCall::GetMemo(_) => 2,
            ToolCall::UpdateMemo(_) => 3,
            ToolCall::DeleteMemo(_) => 4,
            ToolCall::ListMemoComments(_) => 5,
            ToolCall::CreateMemoComment(_) => 6,
            ToolCall::ListMemoAttachments(_) => 7,
            ToolCall::SetMemoAttachments(_) => 8,
            ToolCall::ListMemoReactions(_) => 9,
            ToolCall::UpsertMemoReaction(_) => 10,
            ToolCall::DeleteMemoReaction(_) => 11,
            ToolCall::ListMemoRelations(_) => 12,
            ToolCall::SetMemoRelations(_) => 13,
            ToolCall::ListAttachments(_) => 14,
            ToolCall::CreateAttachment(_) => 15,
            ToolCall::GetAttachment(_) => 16,
            ToolCall::DeleteAttachment(_) => 17,
            ToolCall::ListShortcuts(_) => 18,
            ToolCall::GetCurrentUser(_) => 19,
        }
    }

    /// What the caller gave for the places in the tool's path, in order: the
    /// name of the place and the id that fills it.
    pub open spec fn fillings(self) -> Seq<(Seq<char>, Seq<char>)> {
        match self {
            ToolCall::GetMemo(p) => seq![("{memo}"@, id_of(p.memo@))],
            ToolCall::UpdateMemo(p) => seq![("{memo}"@, id_of(p.memo@))],
            ToolCall::DeleteMemo(p) => seq![("{memo}"@, id_of(p.memo@))],
            ToolCall::ListMemoComments(p) => seq![("{memo}"@, id_of(p.memo@))],
            ToolCall::CreateMemoComment(p) => seq![("{memo}"@, id_of(p.memo@))],
            ToolCall::ListMemoAttachments(p) => seq![("{memo}"@, id_of(p.memo@))],
            ToolCall::SetMemoAttachments(p) => seq![("{memo}"@, id_of(p.memo@))],
            ToolCall::ListMemoReactions(p) => seq![("{memo}"@, id_of(p.memo@))],
            ToolCall::UpsertMemoReaction(p) => seq![("{memo}"@, id_of(p.memo@))],
            ToolCall::DeleteMemoReaction(p) => seq![
                ("{memo}"@, id_of(p.memo@)),
                ("{reaction}"@, id_of(p.reaction@)),
            ],
            ToolCall::ListMemoRelations(p) => seq![("{memo}"@, id_of(p.memo@))],
            ToolCall::SetMemoRelations(p) => seq![("{memo}"@, id_of(p.memo@))],
            ToolCall::GetAttachment(p) => seq![("{attachment}"@, id_of(p.attachment@))],
            ToolCall::DeleteAttachment(p) => seq![("{attachment}"@, id_of(p.attachment@))],
            ToolCall::ListShortcuts(p) => seq![("{user}"@, id_of(p.user@))],
            _ => seq![],
        }
    }
}

// ---------- laws ----------

/// The name of a method.
pub open spec fn method_name(method: Method) -> Seq<char> {
    match method {
        Method::Get => "GET"@,
        Method::Post => "POST"@,
        Method::Patch => "PATCH"@,
        Method::Delete => "DELETE"@,
    }
}

/// The parts with the words between them.
pub open spec fn weave(parts: Seq<Seq<char>>, words: Seq<Seq<char>>) -> Seq<char>
    decreases words.len(),
{
    if words.len() == 0 {
        parts[0]
    } else {
        weave(parts.drop_last(), words.drop_last()) + words.last() + parts.last()
    }
}

/// Is the path the template with its places filled, in order?
pub open spec fn fills(
    template: Seq<char>,
    fillings: Seq<(Seq<char>, Seq<char>)>,
    path: Seq<char>,
) -> bool {
    let places = fillings.map_values(|f: (Seq<char>, Seq<char>)| f.0);
    let values = fillings.map_values(|f: (Seq<char>, Seq<char>)| f.1);
    exists|parts: Seq<Seq<char>>|
        parts.len() == fillings.len() + 1 && #[trigger] weave(parts, places) == template && weave(
            parts,
            values,
        ) == path
}

/// Does a request have the method of a tool, and its path with the places
/// filled?
pub open spec fn follows(
    row: ToolRow,
    client: ClientView,
    fillings: Seq<(Seq<char>, Seq<char>)>,
    request: OutgoingView,
) -> bool {
    &&& row.2@ == method_name(request.method)
    &&& exists|path: Seq<char>| #[trigger]
        fills(row.3@, fillings, path) && request.url == client.base_url + path
}

/// A template without places is its own path.
pub proof fn lemma_fills_none(template: Seq<char>)
    ensures
        fills(template, seq![], template),
{
    let none = Seq::<(Seq<char>, Seq<char>)>::empty();
    assert(none.map_values(|f: (Seq<char>, Seq<char>)| f.0) =~= seq![]);
    assert(none.map_values(|f: (Seq<char>, Seq<char>)| f.1) =~= seq![]);
    assert(weave(seq![template], seq![]) == template);
}

/// One word between two parts.
proof fn lemma_weave_one(head: Seq<char>, word: Seq<char>, tail: Seq<char>)
    ensures
        weave(seq![head, tail], seq![word]) == head + word + tail,
{
    assert(seq![head, tail].drop_last() =~= seq![head]);
    assert(seq![word].drop_last() =~= seq![]);
    assert(weave(seq![head], seq![]) == head);
}

/// A template with one place is filled by a value in that place.
proof fn lemma_fills_one(
    head: Seq<char>,
    place: Seq<char>,
    tail: Seq<char>,
    value: Seq<char>,
)
    ensures
        fills(head + place + tail, seq![(place, value)], head + value + tail),
{
    let fillings = seq![(place, value)];
    assert(fillings.map_values(|f: (Seq<char>, Seq<char>)| f.0) =~= seq![place]);
    assert(fillings.map_values(|f: (Seq<char>, Seq<char>)| f.1) =~= seq![value]);
    lemma_weave_one(head, place, tail);
    lemma_weave_one(head, value, tail);
}

/// A template with two places is filled by two values.
proof fn lemma_fills_two(
    head: Seq<char>,
    place: Seq<char>,
    middle: Seq<char>,
    second: Seq<char>,
    tail: Seq<char>,
    value: Seq<char>,
    other: Seq<char>,
)
    ensures
        fills(
            head + place + middle + second + tail,
            seq![(place, value), (second, other)],
            head + value + middle + other + tail,
        ),
{
    let fillings = seq![(place, value), (second, other)];
    let parts = seq![head, middle, tail];
    assert(fillings.map_values(|f: (Seq<char>, Seq<char>)| f.0) =~= seq![place, second]);
    assert(fillings.map_values(|f: (Seq<char>, Seq<char>)| f.1) =~= seq![value, other]);
    assert(parts.drop_last() =~= seq![head, middle]);
    assert(seq![place, second].drop_last() =~= seq![place]);
    assert(seq![value, other].drop_last() =~= seq![value]);
    lemma_weave_one(head, place, middle);
    lemma_weave_one(head, value, middle);
    assert(weave(parts, seq![place, second]) == head + place + middle + second + tail);
    assert(weave(parts, seq![value, other]) == head + value + middle + other + tail);
}

/// The templates of the paths of one memo.
pub proof fn lemma_memo_template(memo: Seq<char>, rest: Seq<char>)
    ensures
        fills(
            "/api/v1/memos/"@ + "{memo}"@ + rest,
            seq![("{memo}"@, id_of(memo))],
            memo_path(memo, rest),
        ),
{
    lemma_fills_one("/api/v1/memos/"@, "{memo}"@, rest, id_of(memo));
}

/// Every tool call sends the request that the catalog says: the method of its
/// tool, and its path with the caller's ids in their places.
pub proof fn calls_follow_the_catalog(client: ClientView, call: ToolCall)
    ensures
        follows(
            CURATED_TOOLS@[call.row()],
            client,
            call.fillings(),
            call.call(client).request,
        ),
{
    reveal_strlit("/api/v1/memos/");
    reveal_strlit("{memo}");
    reveal_strlit("/api/v1/memos/{memo}");
    reveal_strlit("");
    reveal_strlit("/comments");
    reveal_strlit("/api/v1/memos/{memo}/comments");
    reveal_strlit("/attachments");
    reveal_strlit("/api/v1/memos/{memo}/attachments");
    reveal_strlit("/reactions");
    reveal_strlit("/api/v1/memos/{memo}/reactions");
    reveal_strlit("/relations");
    reveal_strlit("/api/v1/memos/{memo}/relations");
    let request = call.request(client);
    let row = CURATED_TOOLS@[call.row()];
    assert("/api/v1/memos/"@ + "{memo}"@ + ""@ =~= "/api/v1/memos/{memo}"@);
    assert("/api/v1/memos/"@ + "{memo}"@ + "/comments"@ =~= "/api/v1/memos/{memo}/comments"@);
    assert("/api/v1/memos/"@ + "{memo}"@ + "/attachments"@ =~= "/api/v1/memos/{memo}/attachments"@);
    assert("/api/v1/memos/"@ + "{memo}"@ + "/reactions"@ =~= "/api/v1/memos/{memo}/reactions"@);
    assert("/api/v1/memos/"@ + "{memo}"@ + "/relations"@ =~= "/api/v1/memos/{memo}/relations"@);
    let path = match call {
        ToolCall::GetMemo(p) => {
            lemma_memo_template(p.memo@, ""@);
            memo_path(p.memo@, ""@)
        },
        ToolCall::UpdateMemo(p) => {
            lemma_memo_template(p.memo@, ""@);
            memo_path(p.memo@, ""@)
        },
        ToolCall::DeleteMemo(p) => {
            lemma_memo_template(p.memo@, ""@);
            memo_path(p.memo@, ""@)
        },
        ToolCall::ListMemoComments(p) => {
            lemma_memo_template(p.memo@, "/comments"@);
            memo_path(p.memo@, "/comments"@)
        },
        ToolCall::CreateMemoComment(p) => {
            lemma_memo_template(p.memo@, "/comments"@);
            memo_path(p.memo@, "/comments"@)
        },
        ToolCall::ListMemoAttachments(p) => {
            lemma_memo_template(p.memo@, "/attachments"@);
            memo_path(p.memo@, "/attachments"@)
        },
        ToolCall::SetMemoAttachments(p) => {
            lemma_memo_template(p.memo@, "/attachments"@);
            memo_path(p.memo@, "/attachments"@)
        },
        ToolCall::ListMemoReactions(p) => {
            lemma_memo_template(p.memo@, "/reactions"@);
            memo_path(p.memo@, "/reactions"@)
        },
        ToolCall::UpsertMemoReaction(p) => {
            lemma_memo_template(p.memo@, "/reactions"@);
            memo_path(p.memo@, "/reactions"@)
        },
        ToolCall::ListMemoRelations(p) => {
            lemma_memo_template(p.memo@, "/relations"@);
            memo_path(p.memo@, "/relations"@)
        },
        ToolCall::SetMemoRelations(p) => {
            lemma_memo_template(p.memo@, "/relations"@);
            memo_path(p.memo@, "/relations"@)
        },
        ToolCall::DeleteMemoReaction(p) => {
            reveal_strlit("/reactions/");
            reveal_strlit("{reaction}");
            reveal_strlit("/api/v1/memos/{memo}/reactions/{reaction}");
            let none = Seq::<char>::empty();
            assert("/api/v1/memos/"@ + "{memo}"@ + "/reactions/"@ + "{reaction}"@ + none
                =~= "/api/v1/memos/{memo}/reactions/{reaction}"@);
            lemma_fills_two(
                "/api/v1/memos/"@,
                "{memo}"@,
                "/reactions/"@,
                "{reaction}"@,
                none,
                id_of(p.memo@),
                id_of(p.reaction@),
            );
            assert("/api/v1/memos/"@ + id_of(p.memo@) + "/reactions/"@ + id_of(p.reaction@) + none
                =~= memo_path(p.memo@, "/reactions/"@ + id_of(p.reaction@)));
            memo_path(p.memo@, "/reactions/"@ + id_of(p.reaction@))
        },
        ToolCall::GetAttachment(p) => {
            lemma_attachment_template(p.attachment@);
            "/api/v1/attachments/"@ + id_of(p.attachment@)
        },
        ToolCall::DeleteAttachment(p) => {
            lemma_attachment_template(p.attachment@);
            "/api/v1/attachments/"@ + id_of(p.attachment@)
        },
        ToolCall::ListShortcuts(p) => {
            reveal_strlit("/api/v1/users/");
            reveal_strlit("{user}");
            reveal_strlit("/shortcuts");
            reveal_strlit("/api/v1/users/{user}/shortcuts");
            assert("/api/v1/users/"@ + "{user}"@ + "/shortcuts"@
                =~= "/api/v1/users/{user}/shortcuts"@);
            lemma_fills_one("/api/v1/users/"@, "{user}"@, "/shortcuts"@, id_of(p.user@));
            "/api/v1/users/"@ + id_of(p.user@) + "/shortcuts"@
        },
        _ => {
            lemma_fills_none(row.3@);
            row.3@
        },
    };
    assert(fills(row.3@, call.fillings(), path));
    assert(request.url == client.base_url + path);
}

/// The template of the path of one attachment.
proof fn lemma_attachment_template(attachment: Seq<char>)
    ensures
        fills(
            "/api/v1/attachments/{attachment}"@,
            seq![("{attachment}"@, id_of(attachment))],
            "/api/v1/attachments/"@ + id_of(attachment),
        ),
{
    reveal_strlit("/api/v1/attachments/");
    reveal_strlit("{attachment}");
    reveal_strlit("/api/v1/attachments/{attachment}");
    let none = Seq::<char>::empty();
    assert("/api/v1/attachments/"@ + "{attachment}"@ + none =~= "/api/v1/attachments/{attachment}"@);
    assert("/api/v1/attachments/"@ + id_of(attachment) + none =~= "/api/v1/attachments/"@ + id_of(
        attachment,
    ));
    lemma_fills_one("/api/v1/attachments/"@, "{attachment}"@, none, id_of(attachment));
}

/// A tool that the catalog calls read-only sends nothing but `GET`, without a
/// body; every other tool sends another method.
pub proof fn readonly_calls_only_get(client: ClientView, call: ToolCall)
    ensures
        CURATED_TOOLS@[call.row()].4 <==> call.call(client).request.method == Method::Get,
        CURATED_TOOLS@[call.row()].4 ==> call.call(client).request.body is None,
{
}

/// The field of a body that an update mask's word stands for.
pub open spec fn field_of(word: Seq<char>) -> Seq<char> {
    if word == "create_time"@ {
        "createTime"@
    } else if word == "update_time"@ {
        "updateTime"@
    } else {
        word
    }
}

/// An update's mask names exactly the fields of its body, in the same order, so
/// that no field is sent in vain and none is cleared unasked.
pub proof fn update_mask_names_the_body(p: UpdateMemoParams)
    ensures
        update_mask(p).len() == update_body(p).len(),
        forall|i: int|
            0 <= i < update_mask(p).len() ==> field_of(#[trigger] update_mask(p)[i])
                == update_body(p)[i].0,
{
    reveal_strlit("content");
    reveal_strlit("visibility");
    reveal_strlit("pinned");
    reveal_strlit("state");
    reveal_strlit("create_time");
    reveal_strlit("update_time");
    assert("content"@.len() == 7 && "visibility"@.len() == 10 && "pinned"@.len() == 6
        && "state"@.len() == 5);
    assert("create_time"@.len() == 11 && "update_time"@.len() == 11 && "create_time"@[0] == 'c'
        && "update_time"@[0] == 'u');
    let mask = update_mask(p);
    let body = update_body(p);
    let m1 = word_if("content"@, p.content is Some);
    let m2 = m1 + word_if("visibility"@, p.visibility is Some);
    let m3 = m2 + word_if("pinned"@, p.pinned is Some);
    let m4 = m3 + word_if("state"@, p.state is Some);
    let m5 = m4 + word_if("create_time"@, p.create_time is Some);
    let b1 = text_member("content"@, p.content);
    let b2 = b1 + text_member("visibility"@, p.visibility);
    let b3 = b2 + bool_member("pinned"@, p.pinned);
    let b4 = b3 + text_member("state"@, p.state);
    let b5 = b4 + text_member("createTime"@, p.create_time);
    assert(agree(m1, b1));
    lemma_agree(
        m1,
        b1,
        word_if("visibility"@, p.visibility is Some),
        text_member("visibility"@, p.visibility),
    );
    lemma_agree(
        m2,
        b2,
        word_if("pinned"@, p.pinned is Some),
        bool_member("pinned"@, p.pinned),
    );
    lemma_agree(
        m3,
        b3,
        word_if("state"@, p.state is Some),
        text_member("state"@, p.state),
    );
    lemma_agree(
        m4,
        b4,
        word_if("create_time"@, p.create_time is Some),
        text_member("createTime"@, p.create_time),
    );
    lemma_agree(
        m5,
        b5,
        word_if("update_time"@, p.update_time is Some),
        text_member("updateTime"@, p.update_time),
    );
}

/// Do the words of a mask stand for the fields of a body, one for one?
spec fn agree(mask: Seq<Seq<char>>, body: Seq<(Seq<char>, JsonValue)>) -> bool {
    &&& mask.len() == body.len()
    &&& forall|i: int| 0 <= i < mask.len() ==> field_of(#[trigger] mask[i]) == body[i].0
}

/// What agrees in two parts agrees as a whole.
proof fn lemma_agree(
    mask: Seq<Seq<char>>,
    body: Seq<(Seq<char>, JsonValue)>,
    more: Seq<Seq<char>>,
    fields: Seq<(Seq<char>, JsonValue)>,
)
    requires
        agree(mask, body),
        agree(more, fields),
    ensures
        agree(mask + more, body + fields),
{
    assert forall|i: int| 0 <= i < (mask + more).len() implies field_of(
        #[trigger] (mask + more)[i],
    ) == (body + fields)[i].0 by {
        if i < mask.len() {
            assert(field_of(mask[i]) == body[i].0);
        } else {
            assert(field_of(more[i - mask.len()]) == fields[i - mask.len()].0);
        }
    }
}

// ---------- laws on what calls carry ----------

/// A listing of memos carries each parameter that is given and not empty, as it is, and
/// nothing else.
pub proof fn memo_listings_carry_their_parameters(
    client: ClientView,
    p: ListMemosParams,
    key: Seq<char>,
    value: Seq<char>,
)
    ensures
        ToolCall::ListMemos(p).request(client).query.contains((key, value)) <==> value.len() > 0 && {
            ||| key == "pageSize"@ && opt_number(p.page_size) == Some(value)
            ||| key == "pageToken"@ && opt_text(p.page_token) == Some(value)
            ||| key == "state"@ && opt_text(p.state) == Some(value)
            ||| key == "orderBy"@ && opt_text(p.order_by) == Some(value)
            ||| key == "filter"@ && opt_text(p.filter) == Some(value)
            ||| key == "showDeleted"@ && opt_bool(p.show_deleted) == Some(value)
        },
{
    let params = seq![
        ("pageSize"@, opt_number(p.page_size)),
        ("pageToken"@, opt_text(p.page_token)),
        ("state"@, opt_text(p.state)),
        ("orderBy"@, opt_text(p.order_by)),
        ("filter"@, opt_text(p.filter)),
        ("showDeleted"@, opt_bool(p.show_deleted)),
    ];
    query_holds_exactly(params, key, value);
    let pair = (key, Some(value));
    if params.contains(pair) {
        let i = choose|i: int| 0 <= i < params.len() && params[i] == pair;
        assert(i == 0 || i == 1 || i == 2 || i == 3 || i == 4 || i == 5);
    }
    if key == "pageSize"@ && opt_number(p.page_size) == Some(value) {
        assert(params[0] == pair);
    }
    if key == "pageToken"@ && opt_text(p.page_token) == Some(value) {
        assert(params[1] == pair);
    }
    if key == "state"@ && opt_text(p.state) == Some(value) {
        assert(params[2] == pair);
    }
    if key == "orderBy"@ && opt_text(p.order_by) == Some(value) {
        assert(params[3] == pair);
    }
    if key == "filter"@ && opt_text(p.filter) == Some(value) {
        assert(params[4] == pair);
    }
    if key == "showDeleted"@ && opt_bool(p.show_deleted) == Some(value) {
        assert(params[5] == pair);
    }
}

/// A listing of comments carries each parameter that is given and not empty, as it is,
/// and nothing else.
pub proof fn comment_listings_carry_their_parameters(
    client: ClientView,
    p: MemoPageParams,
    key: Seq<char>,
    value: Seq<char>,
)
    ensures
        ToolCall::ListMemoComments(p).request(client).query.contains((key, value)) <==> value.len() > 0 && {
            ||| key == "pageSize"@ && opt_number(p.page_size) == Some(value)
            ||| key == "pageToken"@ && opt_text(p.page_token) == Some(value)
            ||| key == "orderBy"@ && opt_text(p.order_by) == Some(value)
        },
{
    let params = seq![
        ("pageSize"@, opt_number(p.page_size)),
        ("pageToken"@, opt_text(p.page_token)),
        ("orderBy"@, opt_text(p.order_by)),
    ];
    query_holds_exactly(params, key, value);
    let pair = (key, Some(value));
    if params.contains(pair) {
        let i = choose|i: int| 0 <= i < params.len() && params[i] == pair;
        assert(i == 0 || i == 1 || i == 2);
    }
    if key == "pageSize"@ && opt_number(p.page_size) == Some(value) {
        assert(params[0] == pair);
    }
    if key == "pageToken"@ && opt_text(p.page_token) == Some(value) {
        assert(params[1] == pair);
    }
    if key == "orderBy"@ && opt_text(p.order_by) == Some(value) {
        assert(params[2] == pair);
    }
}

/// A listing of attachments carries each parameter that is given and not empty, as it
/// is, and nothing else.
pub proof fn attachment_listings_carry_their_parameters(
    client: ClientView,
    p: ListAttachmentsParams,
    key: Seq<char>,
    value: Seq<char>,
)
    ensures
        ToolCall::ListAttachments(p).request(client).query.contains((key, value)) <==> value.len() > 0 && {
            ||| key == "pageSize"@ && opt_number(p.page_size) == Some(value)
            ||| key == "pageToken"@ && opt_text(p.page_token) == Some(value)
            ||| key == "filter"@ && opt_text(p.filter) == Some(value)
            ||| key == "orderBy"@ && opt_text(p.order_by) == Some(value)
        },
{
    let params = seq![
        ("pageSize"@, opt_number(p.page_size)),
        ("pageToken"@, opt_text(p.page_token)),
        ("filter"@, opt_text(p.filter)),
        ("orderBy"@, opt_text(p.order_by)),
    ];
    query_holds_exactly(params, key, value);
    let pair = (key, Some(value));
    if params.contains(pair) {
        let i = choose|i: int| 0 <= i < params.len() && params[i] == pair;
        assert(i == 0 || i == 1 || i == 2 || i == 3);
    }
    if key == "pageSize"@ && opt_number(p.page_size) == Some(value) {
        assert(params[0] == pair);
    }
    if key == "pageToken"@ && opt_text(p.page_token) == Some(value) {
        assert(params[1] == pair);
    }
    if key == "filter"@ && opt_text(p.filter) == Some(value) {
        assert(params[2] == pair);
    }
    if key == "orderBy"@ && opt_text(p.order_by) == Some(value) {
        assert(params[3] == pair);
    }
}

/// A new memo carries the UID that is given for it, in the query.
pub proof fn new_memos_carry_their_id(
    client: ClientView,
    p: CreateMemoParams,
    key: Seq<char>,
    value: Seq<char>,
)
    ensures
        ToolCall::CreateMemo(p).request(client).query.contains((key, value)) <==> value.len() > 0 && {
            ||| key == "memoId"@ && opt_text(p.memo_id) == Some(value)
        },
{
    let params = seq![
        ("memoId"@, opt_text(p.memo_id)),
    ];
    query_holds_exactly(params, key, value);
    let pair = (key, Some(value));
    if params.contains(pair) {
        let i = choose|i: int| 0 <= i < params.len() && params[i] == pair;
        assert(i == 0);
    }
    if key == "memoId"@ && opt_text(p.memo_id) == Some(value) {
        assert(params[0] == pair);
    }
}

/// A new comment carries the UID that is given for it, in the query.
pub proof fn new_comments_carry_their_id(
    client: ClientView,
    p: CreateMemoCommentParams,
    key: Seq<char>,
    value: Seq<char>,
)
    ensures
        ToolCall::CreateMemoComment(p).request(client).query.contains((key, value)) <==> value.len() > 0 && {
            ||| key == "commentId"@ && opt_text(p.comment_id) == Some(value)
        },
{
    let params = seq![
        ("commentId"@, opt_text(p.comment_id)),
    ];
    query_holds_exactly(params, key, value);
    let pair = (key, Some(value));
    if params.contains(pair) {
        let i = choose|i: int| 0 <= i < params.len() && params[i] == pair;
        assert(i == 0);
    }
    if key == "commentId"@ && opt_text(p.comment_id) == Some(value) {
        assert(params[0] == pair);
    }
}

/// Numbers and truth values in a query are written out.
pub proof fn query_values_are_written_out(n: i32, b: bool)
    ensures
        opt_number(Some(n)) == Some(decimal_int(n as int)),
        opt_number(None) is None,
        opt_bool(Some(b)) == Some(bool_text(b)),
        opt_bool(None) is None,
{
}

/// What is in two lists one after the other is in either.
proof fn lemma_in_either<A>(a: Seq<A>, b: Seq<A>, x: A)
    ensures
        (a + b).contains(x) <==> a.contains(x) || b.contains(x),
{
    if (a + b).contains(x) {
        let k = choose|k: int| 0 <= k < (a + b).len() && (a + b)[k] == x;
        if k < a.len() {
            assert(a[k] == x);
        } else {
            assert(b[k - a.len()] == x);
        }
    }
    if a.contains(x) {
        let k = choose|k: int| 0 <= k < a.len() && a[k] == x;
        assert((a + b)[k] == x);
    }
    if b.contains(x) {
        let k = choose|k: int| 0 <= k < b.len() && b[k] == x;
        assert((a + b)[a.len() + k] == x);
    }
}

/// Is the value this text, where one is given?
pub open spec fn is_given_text(value: JsonValue, o: Option<String>) -> bool {
    o matches Some(s) && value == JsonValue::Text(s@)
}

/// Is the value this truth value, where one is given?
pub open spec fn is_given_bool(value: JsonValue, o: Option<bool>) -> bool {
    o matches Some(b) && value == JsonValue::Bool(b)
}

/// An optional member is there exactly where it is given.
proof fn lemma_optional_members(
    name: Seq<char>,
    text: Option<String>,
    flag: Option<bool>,
    key: Seq<char>,
    value: JsonValue,
)
    ensures
        text_member(name, text).contains((key, value)) <==> key == name && is_given_text(
            value,
            text,
        ),
        bool_member(name, flag).contains((key, value)) <==> key == name && is_given_bool(
            value,
            flag,
        ),
{
    if let Some(s) = text {
        assert(text_member(name, text)[0] == (name, JsonValue::Text(s@)));
    }
    if let Some(b) = flag {
        assert(bool_member(name, flag)[0] == (name, JsonValue::Bool(b)));
    }
}

/// The body of a new memo holds its content, and each further field that is given, as
/// it is, and nothing else.
pub proof fn new_memos_carry_their_fields(
    client: ClientView,
    p: CreateMemoParams,
    key: Seq<char>,
    value: JsonValue,
)
    ensures
        ToolCall::CreateMemo(p).request(client).body matches Some(JsonValue::Object(members)) && (
        members.contains((key, value)) <==> {
            ||| key == "content"@ && value == JsonValue::Text(p.content@)
            ||| key == "visibility"@ && is_given_text(value, p.visibility)
            ||| key == "pinned"@ && is_given_bool(value, p.pinned)
            ||| key == "createTime"@ && is_given_text(value, p.create_time)
        }),
{
    let first = seq![("content"@, JsonValue::Text(p.content@))];
    let second = text_member("visibility"@, p.visibility);
    let third = bool_member("pinned"@, p.pinned);
    let fourth = text_member("createTime"@, p.create_time);
    let x = (key, value);
    assert(first.contains(x) <==> x == first[0]) by {
        assert(first[0] == first[0]);
    }
    lemma_in_either(first, second, x);
    lemma_in_either(first + second, third, x);
    lemma_in_either(first + second + third, fourth, x);
    lemma_optional_members("visibility"@, p.visibility, None, key, value);
    lemma_optional_members("pinned"@, None, p.pinned, key, value);
    lemma_optional_members("createTime"@, p.create_time, None, key, value);
}

/// The body of an update holds each field that is given, as it is, and nothing else;
/// the mask names exactly those fields.
pub proof fn updates_carry_their_fields(
    client: ClientView,
    p: UpdateMemoParams,
    key: Seq<char>,
    value: JsonValue,
    word: Seq<char>,
)
    ensures
        ToolCall::UpdateMemo(p).request(client).body matches Some(JsonValue::Object(members)) && (
        members.contains((key, value)) <==> {
            ||| key == "content"@ && is_given_text(value, p.content)
            ||| key == "visibility"@ && is_given_text(value, p.visibility)
            ||| key == "pinned"@ && is_given_bool(value, p.pinned)
            ||| key == "state"@ && is_given_text(value, p.state)
            ||| key == "createTime"@ && is_given_text(value, p.create_time)
            ||| key == "updateTime"@ && is_given_text(value, p.update_time)
        }),
        update_mask(p).contains(word) <==> {
            ||| word == "content"@ && p.content is Some
            ||| word == "visibility"@ && p.visibility is Some
            ||| word == "pinned"@ && p.pinned is Some
            ||| word == "state"@ && p.state is Some
            ||| word == "create_time"@ && p.create_time is Some
            ||| word == "update_time"@ && p.update_time is Some
        },
        ToolCall::UpdateMemo(p).request(client).query == seq![
            ("updateMask"@, join(update_mask(p), seq![','])),
        ],
{
    reveal_strlit(",");
    assert(","@ =~= seq![',']);
    let x = (key, value);
    let b1 = text_member("content"@, p.content);
    let b2 = text_member("visibility"@, p.visibility);
    let b3 = bool_member("pinned"@, p.pinned);
    let b4 = text_member("state"@, p.state);
    let b5 = text_member("createTime"@, p.create_time);
    let b6 = text_member("updateTime"@, p.update_time);
    lemma_in_either(b1, b2, x);
    lemma_in_either(b1 + b2, b3, x);
    lemma_in_either(b1 + b2 + b3, b4, x);
    lemma_in_either(b1 + b2 + b3 + b4, b5, x);
    lemma_in_either(b1 + b2 + b3 + b4 + b5, b6, x);
    lemma_optional_members("content"@, p.content, None, key, value);
    lemma_optional_members("visibility"@, p.visibility, None, key, value);
    lemma_optional_members("pinned"@, None, p.pinned, key, value);
    lemma_optional_members("state"@, p.state, None, key, value);
    lemma_optional_members("createTime"@, p.create_time, None, key, value);
    lemma_optional_members("updateTime"@, p.update_time, None, key, value);
    let m1 = word_if("content"@, p.content is Some);
    let m2 = word_if("visibility"@, p.visibility is Some);
    let m3 = word_if("pinned"@, p.pinned is Some);
    let m4 = word_if("state"@, p.state is Some);
    let m5 = word_if("create_time"@, p.create_time is Some);
    let m6 = word_if("update_time"@, p.update_time is Some);
    lemma_in_either(m1, m2, word);
    lemma_in_either(m1 + m2, m3, word);
    lemma_in_either(m1 + m2 + m3, m4, word);
    lemma_in_either(m1 + m2 + m3 + m4, m5, word);
    lemma_in_either(m1 + m2 + m3 + m4 + m5, m6, word);
    lemma_optional_word("content"@, p.content is Some, word);
    lemma_optional_word("visibility"@, p.visibility is Some, word);
    lemma_optional_word("pinned"@, p.pinned is Some, word);
    lemma_optional_word("state"@, p.state is Some, word);
    lemma_optional_word("create_time"@, p.create_time is Some, word);
    lemma_optional_word("update_time"@, p.update_time is Some, word);
}

/// An optional word is there exactly where the condition holds.
proof fn lemma_optional_word(name: Seq<char>, given: bool, word: Seq<char>)
    ensures
        word_if(name, given).contains(word) <==> given && word == name,
{
    if given {
        assert(word_if(name, given)[0] == name);
    }
}

/// The body of a new attachment holds its file name, the MIME type that is given or
/// else the one that the file name suggests, and each further field that is given, as it
/// is, with a memo by its full name; and nothing else.
pub proof fn new_attachments_carry_their_fields(
    client: ClientView,
    p: CreateAttachmentParams,
    key: Seq<char>,
    value: JsonValue,
)
    ensures
        ToolCall::CreateAttachment(p).request(client).body matches Some(
            JsonValue::Object(members),
        ) && (members.contains((key, value)) <==> {
            ||| key == "filename"@ && value == JsonValue::Text(p.filename@)
            ||| key == "type"@ && is_given_text(value, p.mime_type)
            ||| key == "type"@ && p.mime_type is None && value == JsonValue::Text(
                mime_of(p.filename@),
            )
            ||| key == "content"@ && is_given_text(value, p.content)
            ||| key == "externalLink"@ && is_given_text(value, p.external_link)
            ||| key == "memo"@ && (p.memo matches Some(m) && value == JsonValue::Text(
                "memos/"@ + id_of(m@),
            ))
        }),
        ToolCall::CreateAttachment(p).request(client).query.len() == 0,
{
    let x = (key, value);
    let first = seq![
        ("filename"@, JsonValue::Text(p.filename@)),
        ("type"@, JsonValue::Text(mime_type(p.mime_type, p.filename@))),
    ];
    assert(first.contains(x) <==> x == first[0] || x == first[1]) by {
        assert(first[0] == first[0] && first[1] == first[1]);
    }
    let second = text_member("content"@, p.content);
    let third = text_member("externalLink"@, p.external_link);
    let fourth = memo_member(p.memo);
    lemma_in_either(first, second, x);
    lemma_in_either(first + second, third, x);
    lemma_in_either(first + second + third, fourth, x);
    lemma_optional_members("content"@, p.content, None, key, value);
    lemma_optional_members("externalLink"@, p.external_link, None, key, value);
    if let Some(m) = p.memo {
        assert(fourth[0] == ("memo"@, JsonValue::Text("memos/"@ + id_of(m@))));
    }
}

/// A new comment's body is its content and nothing else.
pub proof fn new_comments_carry_their_content(client: ClientView, p: CreateMemoCommentParams)
    ensures
        ToolCall::CreateMemoComment(p).request(client).body matches Some(
            JsonValue::Object(members),
        ) && members.len() == 1 && members[0] == ("content"@, JsonValue::Text(p.content@)),
{
}

/// A reaction names the memo that it is on and has the type that is given.
pub proof fn reactions_name_their_memo(client: ClientView, p: UpsertMemoReactionParams)
    ensures
        ToolCall::UpsertMemoReaction(p).request(client).body matches Some(
            JsonValue::Object(members),
        ) && members.len() == 1 && members[0].0 == "reaction"@ && (
        members[0].1 matches JsonValue::Object(reaction) && {
            &&& reaction.len() == 2
            &&& reaction[0] == ("contentId"@, JsonValue::Text("memos/"@ + id_of(p.memo@)))
            &&& reaction[1] == ("reactionType"@, JsonValue::Text(p.reaction_type@))
        }),
        ToolCall::UpsertMemoReaction(p).request(client).query.len() == 0,
{
}

/// The attachments of a memo are replaced by those that are given, in order: a text by
/// the attachment that it names, anything else as it is.
pub proof fn attachments_are_set_as_given(
    client: ClientView,
    p: SetMemoAttachmentsParams,
    i: int,
)
    requires
        0 <= i < p.attachments@.len(),
    ensures
        ToolCall::SetMemoAttachments(p).request(client).body matches Some(
            JsonValue::Object(members),
        ) && {
            &&& members.len() == 2
            &&& members[0] == ("name"@, JsonValue::Text("memos/"@ + id_of(p.memo@)))
            &&& members[1].0 == "attachments"@
            &&& members[1].1 matches JsonValue::Array(list) && list.len() == p.attachments@.len()
                && (p.attachments@[i]@ matches JsonValue::Text(s) ==> list[i] == JsonValue::Object(
                seq![("name"@, JsonValue::Text("attachments/"@ + id_of(s)))],
            )) && (!(p.attachments@[i]@ is Text) ==> list[i] == p.attachments@[i]@)
        },
        ToolCall::SetMemoAttachments(p).request(client).query.len() == 0,
{
    assert(items(p.attachments@)[i] == p.attachments@[i]@);
}

/// The relations of a memo are replaced by references from it to the memos that are
/// given, in order.
pub proof fn relations_are_set_as_given(client: ClientView, p: SetMemoRelationsParams, i: int)
    requires
        0 <= i < p.related@.len(),
    ensures
        ToolCall::SetMemoRelations(p).request(client).body matches Some(
            JsonValue::Object(members),
        ) && {
            &&& members.len() == 2
            &&& members[0] == ("name"@, JsonValue::Text("memos/"@ + id_of(p.memo@)))
            &&& members[1].0 == "relations"@
            &&& members[1].1 matches JsonValue::Array(list) && list.len() == p.related@.len() && (
            list[i] matches JsonValue::Object(relation) && {
                &&& relation.len() == 3
                &&& relation[0].0 == "memo"@
                &&& relation[0].1 == JsonValue::Object(
                    seq![("name"@, JsonValue::Text("memos/"@ + id_of(p.memo@)))],
                )
                &&& relation[1].0 == "relatedMemo"@
                &&& relation[1].1 == JsonValue::Object(
                    seq![("name"@, JsonValue::Text("memos/"@ + id_of(p.related@[i]@)))],
                )
                &&& relation[2] == ("type"@, JsonValue::Text("REFERENCE"@))
            })
        },
        ToolCall::SetMemoRelations(p).request(client).query.len() == 0,
{
    assert(texts(p.related@)[i] == p.related@[i]@);
}

/// A tool that deletes acknowledges; a tool that replaces a set gives the API's value,
/// or acknowledges where that is null; every other tool gives the API's value.
pub proof fn tools_answer_by_what_they_do(client: ClientView, call: ToolCall)
    ensures
        call.call(client).answer == Answer::Acknowledge <==> call.request(client).method
            == Method::Delete,
        call.call(client).answer == Answer::ValueOrAcknowledge <==> call is SetMemoAttachments
            || call is SetMemoRelations,
        call.request(client).method == Method::Get || call.request(client).method == Method::Delete
            <==> call.request(client).body is None,
{
}

/// A file name suggests a MIME type by what follows its last dot alone, in any letter
/// case.
pub proof fn extensions_decide_the_mime_type(
    base: Seq<char>,
    extension: Seq<char>,
    other: Seq<char>,
)
    requires
        !extension.contains('.'),
        !other.contains('.'),
        lower_text(extension) == lower_text(other),
    ensures
        mime_of(base + seq!['.'] + extension) == mime_of(other),
{
    lemma_split_tail(base, '.', extension);
    assert(base + seq!['.'] + extension =~= base.push('.') + extension);
    assert forall|j: int| 0 <= j < extension.len() implies extension[j] != '.' by {
        assert(extension.contains(extension[j]));
    }
    assert forall|j: int| 0 <= j < other.len() implies other[j] != '.' by {
        assert(other.contains(other[j]));
    }
    lemma_unsplit(extension, '.');
    lemma_unsplit(other, '.');
}

/// These extensions have a MIME type of their own; every other is an octet stream.
pub proof fn known_extensions_have_their_mime_type(extension: Seq<char>)
    requires
        !extension.contains('.'),
    ensures
        lower_text(extension) == "jpg"@ ==> mime_of(extension) == "image/jpeg"@,
        lower_text(extension) == "jpeg"@ ==> mime_of(extension) == "image/jpeg"@,
        lower_text(extension) == "png"@ ==> mime_of(extension) == "image/png"@,
        lower_text(extension) == "gif"@ ==> mime_of(extension) == "image/gif"@,
        lower_text(extension) == "webp"@ ==> mime_of(extension) == "image/webp"@,
        lower_text(extension) == "svg"@ ==> mime_of(extension) == "image/svg+xml"@,
        lower_text(extension) == "pdf"@ ==> mime_of(extension) == "application/pdf"@,
        lower_text(extension) == "mp3"@ ==> mime_of(extension) == "audio/mpeg"@,
        lower_text(extension) == "mp4"@ ==> mime_of(extension) == "video/mp4"@,
        lower_text(extension) == "txt"@ ==> mime_of(extension) == "text/plain"@,
        lower_text(extension) == "md"@ ==> mime_of(extension) == "text/markdown"@,
        lower_text(extension) == "json"@ ==> mime_of(extension) == "application/json"@,
        lower_text(extension) == "csv"@ ==> mime_of(extension) == "text/csv"@,
        lower_text(extension) == "zip"@ ==> mime_of(extension) == "application/zip"@,
        lower_text(extension) != "jpg"@ && lower_text(extension) != "jpeg"@
            && lower_text(extension) != "png"@
            && lower_text(extension) != "gif"@
            && lower_text(extension) != "webp"@
            && lower_text(extension) != "svg"@
            && lower_text(extension) != "pdf"@
            && lower_text(extension) != "mp3"@
            && lower_text(extension) != "mp4"@
            && lower_text(extension) != "txt"@
            && lower_text(extension) != "md"@
            && lower_text(extension) != "json"@
            && lower_text(extension) != "csv"@
            && lower_text(extension) != "zip"@
            ==> mime_of(extension) == "application/octet-stream"@,
{
    assert forall|j: int| 0 <= j < extension.len() implies extension[j] != '.' by {
        assert(extension.contains(extension[j]));
    }
    lemma_unsplit(extension, '.');
    reveal_strlit("jpg");
    reveal_strlit("jpeg");
    reveal_strlit("png");
    reveal_strlit("gif");
    reveal_strlit("webp");
    reveal_strlit("svg");
    reveal_strlit("pdf");
    reveal_strlit("mp3");
    reveal_strlit("mp4");
    reveal_strlit("txt");
    reveal_strlit("md");
    reveal_strlit("json");
    reveal_strlit("csv");
    reveal_strlit("zip");
    assert("jpg"@.len() == 3 && "jpg"@[0] == 'j' && "jpg"@[1] == 'p' && "jpg"@[2] == 'g');
    assert("jpeg"@.len() == 4 && "jpeg"@[0] == 'j' && "jpeg"@[1] == 'p' && "jpeg"@[2] == 'e' && "jpeg"@[3] == 'g');
    assert("png"@.len() == 3 && "png"@[0] == 'p' && "png"@[1] == 'n' && "png"@[2] == 'g');
    assert("gif"@.len() == 3 && "gif"@[0] == 'g' && "gif"@[1] == 'i' && "gif"@[2] == 'f');
    assert("webp"@.len() == 4 && "webp"@[0] == 'w' && "webp"@[1] == 'e' && "webp"@[2] == 'b' && "webp"@[3] == 'p');
    assert("svg"@.len() == 3 && "svg"@[0] == 's' && "svg"@[1] == 'v' && "svg"@[2] == 'g');
    assert("pdf"@.len() == 3 && "pdf"@[0] == 'p' && "pdf"@[1] == 'd' && "pdf"@[2] == 'f');
    assert("mp3"@.len() == 3 && "mp3"@[0] == 'm' && "mp3"@[1] == 'p' && "mp3"@[2] == '3');
    assert("mp4"@.len() == 3 && "mp4"@[0] == 'm' && "mp4"@[1] == 'p' && "mp4"@[2] == '4');
    assert("txt"@.len() == 3 && "txt"@[0] == 't' && "txt"@[1] == 'x' && "txt"@[2] == 't');
    assert("md"@.len() == 2 && "md"@[0] == 'm' && "md"@[1] == 'd');
    assert("json"@.len() == 4 && "json"@[0] == 'j' && "json"@[1] == 's' && "json"@[2] == 'o' && "json"@[3] == 'n');
    assert("csv"@.len() == 3 && "csv"@[0] == 'c' && "csv"@[1] == 's' && "csv"@[2] == 'v');
    assert("zip"@.len() == 3 && "zip"@[0] == 'z' && "zip"@[1] == 'i' && "zip"@[2] == 'p');
}

} // verus!
