//! The tools of the server.
//!
//! Each tool turns what its caller gave into the request that is to be sent, and
//! what came back into the call's outcome. The two tools on tags list memos page
//! by page first; see [`crate::paging`], [`crate::tags`] and [`crate::rename`].

use vstd::hash_set::StringHashSet;
use vstd::prelude::*;

use crate::calls::{
    attachment_item, bool_member, fills, follows, lemma_fills_none, lemma_memo_template,
    memo_member, memo_name, memo_path, mime_of, mime_type, name_object, opt_bool, opt_number,
    reference, text_member, update_body, update_mask, word_if, ToolCall,
};
use crate::catalog::CURATED_TOOLS;
use crate::json::{items, members, no_members, put, put_text, Json, JsonValue};
use crate::memos::{
    bare_id, id_of, no_query, opt_query, pairs, param_views, ClientError, ClientView, MemosClient,
    Outgoing,
};
use crate::outcome::{api_fail, api_failure, ok_json, Answer, Call, Outcome, ToolOutcome};
use crate::paging::{Paging, PagingView};
use crate::params::{
    AttachmentRef, CreateAttachmentParams, CreateMemoCommentParams, CreateMemoParams,
    DeleteMemoReactionParams, EmptyParams, ListAttachmentsParams, ListMemosParams, ListTagsParams,
    MemoPageParams, MemoRef, RenameTagParams, SetMemoAttachmentsParams, SetMemoRelationsParams,
    ShortcutParams, UpdateMemoParams, UpsertMemoReactionParams,
};
use crate::rename::{
    bad_pattern, memo_patch, memo_patches, patch_views, rename_names, rename_pattern, sent_views,
    tag_filter, Renaming, RenamingView, TagPatch,
};
use crate::tags::{
    all_tags, is_tag_listing, listing_json, listing_value, rows_view, tag_listing, tags_of, TagUse,
};
use crate::text::{
    bool_word, chars_of, concat2, concat3, decimal_i32, equal, join, joined, last_piece,
    lowered_text, opt_text, texts, trim_end, CharClass,
};

verus! {

// ---------- parts of requests ----------

/// An optional number as a query value.
fn number_value(o: Option<i32>) -> (r: Option<String>)
    ensures
        opt_text(r) == opt_number(o),
{
    match o {
        Some(i) => Some(decimal_i32(i)),
        None => None,
    }
}

/// An optional truth value as a query value.
fn bool_value(o: Option<bool>) -> (r: Option<String>)
    ensures
        opt_text(r) == opt_bool(o),
{
    match o {
        Some(b) => Some(bool_word(b)),
        None => None,
    }
}

/// Adds an optional text to a body that is being built.
fn put_opt_text(entries: &mut Vec<(String, Json)>, key: &str, value: Option<String>)
    ensures
        members(final(entries)@) == members(old(entries)@) + text_member(key@, value),
{
    let ghost had = members(entries@);
    if let Some(s) = value {
        put(entries, key, Json::Text(s));
        assert(members(entries@) =~= had + text_member(key@, value));
    } else {
        assert(had + text_member(key@, value) =~= had);
    }
}

/// Adds an optional truth value to a body that is being built.
fn put_opt_bool(entries: &mut Vec<(String, Json)>, key: &str, value: Option<bool>)
    ensures
        members(final(entries)@) == members(old(entries)@) + bool_member(key@, value),
{
    let ghost had = members(entries@);
    if let Some(b) = value {
        put(entries, key, Json::Bool(b));
        assert(members(entries@) =~= had + bool_member(key@, value));
    } else {
        assert(had + bool_member(key@, value) =~= had);
    }
}

/// The path of a memo, or of something that belongs to it.
fn memo_path_of(memo: &str, rest: &str) -> (r: String)
    ensures
        r@ == memo_path(memo@, rest@),
{
    concat3("/api/v1/memos/", bare_id(memo).as_str(), rest)
}

/// The name of a memo.
fn memo_name_of(memo: &str) -> (r: String)
    ensures
        r@ == memo_name(memo@),
{
    concat2("memos/", bare_id(memo).as_str())
}

/// An object with a name.
fn named(name: &str) -> (r: Json)
    ensures
        r@ == name_object(name@),
{
    let mut entry = no_members();
    put_text(&mut entry, "name", name);
    assert(members(entry@) =~= seq![("name"@, JsonValue::Text(name@))]);
    Json::object(entry)
}

/// Does the extension agree with the word?
fn is_word(extension: &[char], word: &str) -> (r: bool)
    ensures
        r == (extension@ == word@),
{
    equal(extension, chars_of(word).as_slice())
}

/// The MIME type that a file name suggests.
pub fn guess_mime(filename: &str) -> (r: &'static str)
    ensures
        r@ == mime_of(filename@),
{
    let v = chars_of(filename);
    let lowered = lowered_text(last_piece(v.as_slice(), '.'));
    let e = lowered.as_slice();
    if is_word(e, "jpg") || is_word(e, "jpeg") {
        "image/jpeg"
    } else if is_word(e, "png") {
        "image/png"
    } else if is_word(e, "gif") {
        "image/gif"
    } else if is_word(e, "webp") {
        "image/webp"
    } else if is_word(e, "svg") {
        "image/svg+xml"
    } else if is_word(e, "pdf") {
        "application/pdf"
    } else if is_word(e, "mp3") {
        "audio/mpeg"
    } else if is_word(e, "mp4") {
        "video/mp4"
    } else if is_word(e, "txt") {
        "text/plain"
    } else if is_word(e, "md") {
        "text/markdown"
    } else if is_word(e, "json") {
        "application/json"
    } else if is_word(e, "csv") {
        "text/csv"
    } else if is_word(e, "zip") {
        "application/zip"
    } else {
        "application/octet-stream"
    }
}

// ---------- service ----------

/// The server: the tools, prompts and resources over one client.
#[derive(Clone, Debug)]
pub struct MemosServer {
    client: MemosClient,
}

impl View for MemosServer {
    type V = ClientView;

    closed spec fn view(&self) -> ClientView {
        self.client@
    }
}

impl MemosServer {
    /// A server for the API at `base_url`.
    pub fn new(base_url: String, token: String) -> (r: MemosServer)
        ensures
            r@ == (ClientView {
                base_url: trim_end(base_url@, CharClass::Only('/')),
                token: token@,
            }),
    {
        MemosServer { client: MemosClient::new(base_url, token) }
    }

    /// The client that requests are made with.
    pub fn client(&self) -> (r: &MemosClient)
        ensures
            r@ == self@,
    {
        &self.client
    }

    // ----- memos -----

    /// ListMemos lists readable non-comment memos with pagination and filter.
    pub fn memo_list_memos(&self, p: ListMemosParams) -> (r: Call)
        ensures
            r@ == ToolCall::ListMemos(p).call(self@),
    {
        let params = vec![
            ("pageSize", number_value(p.page_size)),
            ("pageToken", p.page_token),
            ("state", p.state),
            ("orderBy", p.order_by),
            ("filter", p.filter),
            ("showDeleted", bool_value(p.show_deleted)),
        ];
        assert(param_views(params@) =~= seq![
            ("pageSize"@, opt_number(p.page_size)),
            ("pageToken"@, opt_text(p.page_token)),
            ("state"@, opt_text(p.state)),
            ("orderBy"@, opt_text(p.order_by)),
            ("filter"@, opt_text(p.filter)),
            ("showDeleted"@, opt_bool(p.show_deleted)),
        ]);
        Call { request: self.client.get("/api/v1/memos", opt_query(params)), answer: Answer::Value }
    }

    /// CreateMemo creates a memo. `content` is required.
    pub fn memo_create_memo(&self, p: CreateMemoParams) -> (r: Call)
        ensures
            r@ == ToolCall::CreateMemo(p).call(self@),
    {
        let params = vec![("memoId", p.memo_id)];
        assert(param_views(params@) =~= seq![("memoId"@, opt_text(p.memo_id))]);
        let mut body = no_members();
        put_text(&mut body, "content", p.content.as_str());
        assert(members(body@) =~= seq![("content"@, JsonValue::Text(p.content@))]);
        put_opt_text(&mut body, "visibility", p.visibility);
        put_opt_bool(&mut body, "pinned", p.pinned);
        put_opt_text(&mut body, "createTime", p.create_time);
        let request = self.client.post_q("/api/v1/memos", opt_query(params), Json::object(body));
        Call { request, answer: Answer::Value }
    }

    /// GetMemo gets a memo by name (`memos/UID` or bare UID).
    pub fn memo_get_memo(&self, p: MemoRef) -> (r: Call)
        ensures
            r@ == ToolCall::GetMemo(p).call(self@),
    {
        let path = memo_path_of(p.memo.as_str(), "");
        Call { request: self.client.get(path.as_str(), no_query()), answer: Answer::Value }
    }

    /// UpdateMemo patches a memo. At least one field must be set: where none is,
    /// the call fails, and nothing is sent.
    pub fn memo_update_memo(&self, p: UpdateMemoParams) -> (r: Result<Call, ToolOutcome>)
        ensures
            r is Err <==> update_mask(p).len() == 0,
            r matches Ok(call) ==> call@ == ToolCall::UpdateMemo(p).call(self@),
            r matches Err(outcome) ==> outcome@ == Outcome::Failure(
                "at least one of content/visibility/pinned/state/create_time/update_time must be set"@,
            ),
    {
        let mut mask: Vec<String> = Vec::new();
        assert(texts(mask@) =~= seq![]);
        push_if(&mut mask, "content", p.content.is_some());
        push_if(&mut mask, "visibility", p.visibility.is_some());
        push_if(&mut mask, "pinned", p.pinned.is_some());
        push_if(&mut mask, "state", p.state.is_some());
        push_if(&mut mask, "create_time", p.create_time.is_some());
        push_if(&mut mask, "update_time", p.update_time.is_some());
        assert(texts(mask@) =~= update_mask(p));
        let mut body = no_members();
        put_opt_text(&mut body, "content", p.content);
        put_opt_text(&mut body, "visibility", p.visibility);
        put_opt_bool(&mut body, "pinned", p.pinned);
        put_opt_text(&mut body, "state", p.state);
        put_opt_text(&mut body, "createTime", p.create_time);
        put_opt_text(&mut body, "updateTime", p.update_time);
        assert(members(body@) =~= update_body(p));
        if mask.len() == 0 {
            return Err(
                ToolOutcome::Failure(
                    "at least one of content/visibility/pinned/state/create_time/update_time must be set".to_owned(),
                ),
            );
        }
        let path = memo_path_of(p.memo.as_str(), "");
        let query = vec![("updateMask".to_owned(), joined(mask.as_slice(), ","))];
        assert(pairs(query@) =~= seq![("updateMask"@, join(update_mask(p), ","@))]);
        let request = self.client.patch_q(path.as_str(), query, Json::object(body));
        Ok(Call { request, answer: Answer::Value })
    }

    /// DeleteMemo deletes a memo.
    pub fn memo_delete_memo(&self, p: MemoRef) -> (r: Call)
        ensures
            r@ == ToolCall::DeleteMemo(p).call(self@),
    {
        let path = memo_path_of(p.memo.as_str(), "");
        Call { request: self.client.delete(path.as_str()), answer: Answer::Acknowledge }
    }

    /// ListMemoComments lists comments of a memo.
    pub fn memo_list_memo_comments(&self, p: MemoPageParams) -> (r: Call)
        ensures
            r@ == ToolCall::ListMemoComments(p).call(self@),
    {
        let path = memo_path_of(p.memo.as_str(), "/comments");
        let params = vec![
            ("pageSize", number_value(p.page_size)),
            ("pageToken", p.page_token),
            ("orderBy", p.order_by),
        ];
        assert(param_views(params@) =~= seq![
            ("pageSize"@, opt_number(p.page_size)),
            ("pageToken"@, opt_text(p.page_token)),
            ("orderBy"@, opt_text(p.order_by)),
        ]);
        Call { request: self.client.get(path.as_str(), opt_query(params)), answer: Answer::Value }
    }

    /// CreateMemoComment creates a comment on a memo. `content` is required.
    pub fn memo_create_memo_comment(&self, p: CreateMemoCommentParams) -> (r: Call)
        ensures
            r@ == ToolCall::CreateMemoComment(p).call(self@),
    {
        let path = memo_path_of(p.memo.as_str(), "/comments");
        let params = vec![("commentId", p.comment_id)];
        assert(param_views(params@) =~= seq![("commentId"@, opt_text(p.comment_id))]);
        let mut body = no_members();
        put_text(&mut body, "content", p.content.as_str());
        assert(members(body@) =~= seq![("content"@, JsonValue::Text(p.content@))]);
        let request = self.client.post_q(path.as_str(), opt_query(params), Json::object(body));
        Call { request, answer: Answer::Value }
    }

    /// ListMemoAttachments lists attachments of a memo.
    pub fn memo_list_memo_attachments(&self, p: MemoRef) -> (r: Call)
        ensures
            r@ == ToolCall::ListMemoAttachments(p).call(self@),
    {
        let path = memo_path_of(p.memo.as_str(), "/attachments");
        Call { request: self.client.get(path.as_str(), no_query()), answer: Answer::Value }
    }

    /// SetMemoAttachments replaces the attachment set of a memo.
    pub fn memo_set_memo_attachments(&self, p: SetMemoAttachmentsParams) -> (r: Call)
        ensures
            r@ == ToolCall::SetMemoAttachments(p).call(self@),
    {
        let ghost wanted = items(p.attachments@).map_values(|v: JsonValue| attachment_item(v));
        let ghost given = p.attachments@;
        let mut list: Vec<Json> = Vec::new();
        assert(items(list@) =~= wanted.take(0));
        for a in it: p.attachments
            invariant
                it.seq() == given,
                wanted == items(given).map_values(|v: JsonValue| attachment_item(v)),
                items(list@) == wanted.take(it.index() as int),
        {
            let ghost had = items(list@);
            let ghost i = it.index() as int;
            assert(wanted[i] == attachment_item(a@));
            let item = match a {
                Json::Text(s) => named(
                    concat2("attachments/", bare_id(s.as_str()).as_str()).as_str(),
                ),
                other => other,
            };
            assert(item@ == attachment_item(a@));
            list.push(item);
            assert(items(list@) =~= had.push(item@));
            assert(wanted.take(i + 1) =~= wanted.take(i).push(wanted[i]));
        }
        assert(wanted.take(wanted.len() as int) =~= wanted);
        let mut body = no_members();
        put_text(&mut body, "name", memo_name_of(p.memo.as_str()).as_str());
        put(&mut body, "attachments", Json::array(list));
        assert(members(body@) =~= seq![
            ("name"@, JsonValue::Text(memo_name(p.memo@))),
            ("attachments"@, JsonValue::Array(wanted)),
        ]);
        let path = memo_path_of(p.memo.as_str(), "/attachments");
        let request = self.client.patch(path.as_str(), Json::object(body));
        Call { request, answer: Answer::ValueOrAcknowledge }
    }

    // ----- reactions -----

    /// ListMemoReactions lists reactions of a memo.
    pub fn memo_list_memo_reactions(&self, p: MemoRef) -> (r: Call)
        ensures
            r@ == ToolCall::ListMemoReactions(p).call(self@),
    {
        let path = memo_path_of(p.memo.as_str(), "/reactions");
        Call { request: self.client.get(path.as_str(), no_query()), answer: Answer::Value }
    }

    /// UpsertMemoReaction upserts a reaction (emoji) on a memo.
    pub fn memo_upsert_memo_reaction(&self, p: UpsertMemoReactionParams) -> (r: Call)
        ensures
            r@ == ToolCall::UpsertMemoReaction(p).call(self@),
    {
        let mut reaction = no_members();
        put_text(&mut reaction, "contentId", memo_name_of(p.memo.as_str()).as_str());
        put_text(&mut reaction, "reactionType", p.reaction_type.as_str());
        let ghost inner = seq![
            ("contentId"@, JsonValue::Text(memo_name(p.memo@))),
            ("reactionType"@, JsonValue::Text(p.reaction_type@)),
        ];
        assert(members(reaction@) =~= inner);
        let mut body = no_members();
        put(&mut body, "reaction", Json::object(reaction));
        assert(members(body@) =~= seq![("reaction"@, JsonValue::Object(inner))]);
        let path = memo_path_of(p.memo.as_str(), "/reactions");
        let request = self.client.post(path.as_str(), Json::object(body));
        Call { request, answer: Answer::Value }
    }

    /// DeleteMemoReaction deletes a reaction from a memo.
    pub fn memo_delete_memo_reaction(&self, p: DeleteMemoReactionParams) -> (r: Call)
        ensures
            r@ == ToolCall::DeleteMemoReaction(p).call(self@),
    {
        let rest = concat2("/reactions/", bare_id(p.reaction.as_str()).as_str());
        let path = memo_path_of(p.memo.as_str(), rest.as_str());
        Call { request: self.client.delete(path.as_str()), answer: Answer::Acknowledge }
    }

    // ----- relations -----

    /// ListMemoRelations lists relations of a memo.
    pub fn memo_list_memo_relations(&self, p: MemoRef) -> (r: Call)
        ensures
            r@ == ToolCall::ListMemoRelations(p).call(self@),
    {
        let path = memo_path_of(p.memo.as_str(), "/relations");
        Call { request: self.client.get(path.as_str(), no_query()), answer: Answer::Value }
    }

    /// SetMemoRelations replaces the REFERENCE relation set of a memo.
    pub fn memo_set_memo_relations(&self, p: SetMemoRelationsParams) -> (r: Call)
        ensures
            r@ == ToolCall::SetMemoRelations(p).call(self@),
    {
        let ghost wanted = texts(p.related@).map_values(|t: Seq<char>| reference(p.memo@, t));
        let mut list: Vec<Json> = Vec::new();
        let mut i: usize = 0;
        assert(items(list@) =~= wanted.take(0));
        while i < p.related.len()
            invariant
                i <= p.related@.len(),
                wanted == texts(p.related@).map_values(|t: Seq<char>| reference(p.memo@, t)),
                items(list@) == wanted.take(i as int),
            decreases p.related@.len() - i,
        {
            let ghost had = items(list@);
            let item = reference_json(p.memo.as_str(), p.related[i].as_str());
            list.push(item);
            assert(items(list@) =~= had.push(item@));
            assert(wanted[i as int] == item@);
            assert(wanted.take(i + 1) =~= wanted.take(i as int).push(wanted[i as int]));
            i = i + 1;
        }
        assert(wanted.take(i as int) =~= wanted);
        let mut body = no_members();
        put_text(&mut body, "name", memo_name_of(p.memo.as_str()).as_str());
        put(&mut body, "relations", Json::array(list));
        assert(members(body@) =~= seq![
            ("name"@, JsonValue::Text(memo_name(p.memo@))),
            ("relations"@, JsonValue::Array(wanted)),
        ]);
        let path = memo_path_of(p.memo.as_str(), "/relations");
        let request = self.client.patch(path.as_str(), Json::object(body));
        Call { request, answer: Answer::ValueOrAcknowledge }
    }

    // ----- attachments -----

    /// ListAttachments lists attachments with pagination and filter.
    pub fn attachment_list_attachments(&self, p: ListAttachmentsParams) -> (r: Call)
        ensures
            r@ == ToolCall::ListAttachments(p).call(self@),
    {
        let params = vec![
            ("pageSize", number_value(p.page_size)),
            ("pageToken", p.page_token),
            ("filter", p.filter),
            ("orderBy", p.order_by),
        ];
        assert(param_views(params@) =~= seq![
            ("pageSize"@, opt_number(p.page_size)),
            ("pageToken"@, opt_text(p.page_token)),
            ("filter"@, opt_text(p.filter)),
            ("orderBy"@, opt_text(p.order_by)),
        ]);
        let request = self.client.get("/api/v1/attachments", opt_query(params));
        Call { request, answer: Answer::Value }
    }

    /// CreateAttachment creates an attachment (base64 content or a link).
    pub fn attachment_create_attachment(&self, p: CreateAttachmentParams) -> (r: Call)
        ensures
            r@ == ToolCall::CreateAttachment(p).call(self@),
    {
        let mime = match p.mime_type {
            Some(m) => m,
            None => guess_mime(p.filename.as_str()).to_owned(),
        };
        let mut body = no_members();
        put_text(&mut body, "filename", p.filename.as_str());
        put_text(&mut body, "type", mime.as_str());
        assert(members(body@) =~= seq![
            ("filename"@, JsonValue::Text(p.filename@)),
            ("type"@, JsonValue::Text(mime_type(p.mime_type, p.filename@))),
        ]);
        put_opt_text(&mut body, "content", p.content);
        put_opt_text(&mut body, "externalLink", p.external_link);
        let ghost had = members(body@);
        if let Some(m) = &p.memo {
            put_text(&mut body, "memo", memo_name_of(m.as_str()).as_str());
        }
        assert(members(body@) =~= had + memo_member(p.memo));
        let request = self.client.post("/api/v1/attachments", Json::object(body));
        Call { request, answer: Answer::Value }
    }

    /// GetAttachment gets an attachment by name.
    pub fn attachment_get_attachment(&self, p: AttachmentRef) -> (r: Call)
        ensures
            r@ == ToolCall::GetAttachment(p).call(self@),
    {
        let path = concat2("/api/v1/attachments/", bare_id(p.attachment.as_str()).as_str());
        Call { request: self.client.get(path.as_str(), no_query()), answer: Answer::Value }
    }

    /// DeleteAttachment deletes an attachment.
    pub fn attachment_delete_attachment(&self, p: AttachmentRef) -> (r: Call)
        ensures
            r@ == ToolCall::DeleteAttachment(p).call(self@),
    {
        let path = concat2("/api/v1/attachments/", bare_id(p.attachment.as_str()).as_str());
        Call { request: self.client.delete(path.as_str()), answer: Answer::Acknowledge }
    }

    // ----- users -----

    /// ListShortcuts returns a user's saved shortcuts (reusable CEL filters).
    pub fn shortcut_list_shortcuts(&self, p: ShortcutParams) -> (r: Call)
        ensures
            r@ == ToolCall::ListShortcuts(p).call(self@),
    {
        let path = concat3("/api/v1/users/", bare_id(p.user.as_str()).as_str(), "/shortcuts");
        Call { request: self.client.get(path.as_str(), no_query()), answer: Answer::Value }
    }

    /// GetCurrentUser returns the current authenticated user (whoami).
    pub fn auth_get_current_user(&self, p: EmptyParams) -> (r: Call)
        ensures
            r@ == ToolCall::GetCurrentUser(p).call(self@),
    {
        Call { request: self.client.get("/api/v1/auth/me", no_query()), answer: Answer::Value }
    }
}

// ---------- tags ----------

/// Is a recursive listing asked for?
pub open spec fn is_recursive(p: ListTagsParams) -> bool {
    p.recursive == Some(true)
}

/// What a renaming is going to send.
#[derive(Debug)]
pub struct TagChanges {
    /// How many memos have the tag.
    pub matched: usize,
    /// The changes, in order.
    pub patches: Vec<TagPatch>,
}

impl MemosServer {
    /// A listing of all memos that a filter lets through, page by page.
    pub fn all_memos(&self, filter: Option<String>) -> (r: Paging)
        ensures
            r@ == PagingView::start(opt_text(filter)),
    {
        Paging::start(filter)
    }

    /// The request for the next page of a listing.
    pub fn page_request(&self, paging: &Paging) -> (r: Outgoing)
        ensures
            r@ == paging@.request(self@),
    {
        paging.request(&self.client)
    }

    /// List tags with usage counts. No parameters: top-level tags;
    /// `recursive=true`: every tag; `parent="x"`: children of x. This is the
    /// outcome, given all memos, or why they could not be read.
    pub fn tag_list_tags(&self, p: ListTagsParams, memos: Result<Vec<Json>, ClientError>) -> (r:
        ToolOutcome)
        ensures
            memos matches Err(e) ==> r@ == Outcome::Failure(api_failure(e@)),
            memos matches Ok(list) ==> exists|rows: Seq<TagUse>| #[trigger]
                is_tag_listing(
                    rows,
                    all_tags(items(list@)),
                    opt_text(p.parent),
                    is_recursive(p),
                ) && r@ == Outcome::Structured(listing_value(rows)),
    {
        let list = match memos {
            Ok(m) => m,
            Err(e) => return api_fail(e),
        };
        let recursive = match p.recursive {
            Some(b) => b,
            None => false,
        };
        let tags = tags_of(list.as_slice());
        let rows = tag_listing(tags.as_slice(), &p.parent, recursive);
        assert(is_tag_listing(
            rows_view(rows@),
            all_tags(items(list@)),
            opt_text(p.parent),
            is_recursive(p),
        ));
        ok_json(listing_json(rows.as_slice()))
    }

    /// Rename a tag across all memos by rewriting memo content: the renaming and
    /// the listing of the memos that have the tag, or the failure where the names
    /// cannot be renamed.
    pub fn tag_rename_tag(&self, p: RenameTagParams) -> (r: Result<
        (Renaming, Paging),
        ToolOutcome,
    >)
        ensures
            match rename_names(p.old_tag@, p.new_tag@) {
                Ok((from, to)) => r matches Ok(start) && start.0@ == (RenamingView { from, to })
                    && start.1@ == PagingView::start(Some(tag_filter(from))),
                Err(e) => r matches Err(outcome) && outcome@ == Outcome::Failure(e),
            },
    {
        match Renaming::start(p.old_tag.as_str(), p.new_tag.as_str()) {
            Ok(renaming) => {
                let paging = self.all_memos(Some(renaming.filter()));
                Ok((renaming, paging))
            },
            Err(e) => Err(ToolOutcome::Failure(e)),
        }
    }

    /// What a renaming is going to send, given the memos that have the tag, or
    /// why they could not be read. Fails where they could not, or where the
    /// matcher for the tag cannot be compiled.
    pub fn tag_rename_changes(
        &self,
        renaming: &Renaming,
        memos: Result<Vec<Json>, ClientError>,
    ) -> (r: Result<TagChanges, ToolOutcome>)
        ensures
            memos matches Err(e) ==> r matches Err(outcome) && outcome@ == Outcome::Failure(
                api_failure(e@),
            ),
            memos matches Ok(list) ==> match r {
                Ok(changes) => changes.matched == list@.len() && patch_views(changes.patches@)
                    == memo_patches(
                    self@,
                    rename_pattern(renaming@.from),
                    renaming@.to,
                    items(list@),
                ),
                Err(outcome) => exists|reason: Seq<char>|
                    outcome@ == Outcome::Failure(#[trigger] bad_pattern(reason)),
            },
    {
        let list = match memos {
            Ok(m) => m,
            Err(e) => return Err(api_fail(e)),
        };
        match renaming.plan(&self.client, list.as_slice()) {
            Ok(patches) => Ok(TagChanges { matched: list.len(), patches }),
            Err(e) => Err(ToolOutcome::Failure(e)),
        }
    }

    /// The outcome of a renaming, given what each change came to.
    pub fn tag_rename_report(
        &self,
        renaming: &Renaming,
        matched: usize,
        sent: &[(String, Result<Json, ClientError>)],
    ) -> (r: ToolOutcome)
        ensures
            r@ == Outcome::Structured(renaming@.report(matched as nat, sent_views(sent@))),
    {
        ok_json(renaming.report(matched, sent))
    }
}

/// The tools on tags send what the catalog says: the listing reads memos, and a
/// change goes to the memo that it is for.
pub proof fn tag_tools_follow_the_catalog(
    client: ClientView,
    paging: PagingView,
    memo: JsonValue,
    rewritten: Seq<char>,
)
    ensures
        follows(CURATED_TOOLS@[20], client, seq![], paging.request(client)),
        memo_patch(client, memo, rewritten) matches Some(patch) ==> follows(
            CURATED_TOOLS@[21],
            client,
            seq![("{memo}"@, id_of(patch.name))],
            patch.request,
        ),
{
    let row = CURATED_TOOLS@[20];
    lemma_fills_none("/api/v1/memos"@);
    assert(fills(row.3@, seq![], "/api/v1/memos"@));
    assert(paging.request(client).url == client.base_url + "/api/v1/memos"@);
    if let Some(patch) = memo_patch(client, memo, rewritten) {
        reveal_strlit("/api/v1/memos/");
        reveal_strlit("{memo}");
        reveal_strlit("/api/v1/memos/{memo}");
        let none = Seq::<char>::empty();
        assert("/api/v1/memos/"@ + "{memo}"@ + none =~= "/api/v1/memos/{memo}"@);
        assert(memo_path(patch.name, none) =~= "/api/v1/memos/"@ + id_of(patch.name));
        lemma_memo_template(patch.name, none);
        let row = CURATED_TOOLS@[21];
        assert(fills(
            row.3@,
            seq![("{memo}"@, id_of(patch.name))],
            memo_path(patch.name, none),
        ));
        assert(patch.request.url == client.base_url + memo_path(patch.name, none));
    }
}

// ---------- filtered tools ----------

/// The tools whose names are allowed, in order.
pub open spec fn allowed_tools<T>(tools: Seq<(String, T)>, allow: Set<Seq<char>>) -> Seq<
    (String, T),
> {
    tools.filter(|t: (String, T)| allow.contains(t.0@))
}

impl MemosServer {
    /// The tools whose names are allowed, in order, each given with its name.
    pub fn list_tools_filtered<T>(&self, tools: Vec<(String, T)>, allow: &StringHashSet) -> (r: Vec<
        T,
    >)
        ensures
            r@ == allowed_tools(tools@, allow@).map_values(|t: (String, T)| t.1),
    {
        let ghost all = tools@;
        let ghost pred = |t: (String, T)| allow@.contains(t.0@);
        let ghost second = |t: (String, T)| t.1;
        let mut out: Vec<T> = Vec::new();
        proof {
            reveal(Seq::filter);
            assert(out@ =~= all.take(0).filter(pred).map_values(second));
        }
        for t in it: tools
            invariant
                it.seq() == all,
                pred == (|t: (String, T)| allow@.contains(t.0@)),
                second == (|t: (String, T)| t.1),
                out@ == all.take(it.index() as int).filter(pred).map_values(second),
        {
            let ghost i = it.index() as int;
            let ghost kept = all.take(i).filter(pred);
            proof {
                reveal(Seq::filter);
                assert(all.take(i + 1).drop_last() =~= all.take(i));
            }
            if allow.contains(t.0.as_str()) {
                out.push(t.1);
                assert(kept.push(t).map_values(second) =~= kept.map_values(second).push(t.1));
            }
        }
        assert(all.take(all.len() as int) =~= all);
        out
    }
}

/// Adds a word to a list where a condition holds.
fn push_if(words: &mut Vec<String>, word: &str, given: bool)
    ensures
        texts(final(words)@) == texts(old(words)@) + word_if(word@, given),
{
    let ghost had = texts(words@);
    if given {
        words.push(word.to_owned());
    }
    assert(texts(words@) =~= had + word_if(word@, given));
}

/// A reference from one memo to another.
fn reference_json(memo: &str, related: &str) -> (r: Json)
    ensures
        r@ == reference(memo@, related@),
{
    let mut entry = no_members();
    put(&mut entry, "memo", named(memo_name_of(memo).as_str()));
    put(&mut entry, "relatedMemo", named(memo_name_of(related).as_str()));
    put_text(&mut entry, "type", "REFERENCE");
    let r = Json::object(entry);
    assert(r@->Object_0 =~= reference(memo@, related@)->Object_0);
    r
}

// ---------- laws ----------

/// The tools listed out of two lists are those out of the one, and then those out of the
/// other; a single tool is listed exactly where its name is allowed.
pub proof fn tools_are_listed_one_by_one<T>(
    a: Seq<(String, T)>,
    b: Seq<(String, T)>,
    tool: (String, T),
    allow: Set<Seq<char>>,
)
    ensures
        allowed_tools(a + b, allow) == allowed_tools(a, allow) + allowed_tools(b, allow),
        allowed_tools(seq![tool], allow) == if allow.contains(tool.0@) {
            seq![tool]
        } else {
            seq![]
        },
    decreases b.len(),
{
    reveal(Seq::filter);
    let none = Seq::<(String, T)>::empty();
    let pred = |t: (String, T)| allow.contains(t.0@);
    assert(seq![tool].drop_last() =~= none);
    assert(none.filter(pred) =~= none);
    assert(allowed_tools(seq![tool], allow) =~= if allow.contains(tool.0@) {
        seq![tool]
    } else {
        seq![]
    });
    if b.len() == 0 {
        assert(a + b =~= a);
        assert(allowed_tools(a, allow) + allowed_tools(b, allow) =~= allowed_tools(a, allow));
    } else {
        tools_are_listed_one_by_one(a, b.drop_last(), tool, allow);
        assert((a + b).drop_last() =~= a + b.drop_last());
        assert((a + b).last() == b.last());
        assert(allowed_tools(a + b, allow) =~= allowed_tools(a, allow) + allowed_tools(b, allow));
    }
}

/// A listing of tags is recursive exactly where that is asked for.
pub proof fn listings_are_recursive_on_request(p: ListTagsParams)
    ensures
        is_recursive(p) <==> (p.recursive matches Some(b) && b),
{
}

} // verus!
