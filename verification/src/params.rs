//! What callers give to tools and prompts.

use vstd::prelude::*;

use crate::json::Json;

verus! {

// ---------- tool parameters ----------

#[derive(Debug)]
pub struct ListMemosParams {
    pub page_size: Option<i32>,
    pub page_token: Option<String>,
    pub state: Option<String>,
    pub order_by: Option<String>,
    pub filter: Option<String>,
    pub show_deleted: Option<bool>,
}

#[derive(Debug)]
pub struct CreateMemoParams {
    /// Markdown content (required).
    pub content: String,
    /// The UID that the memo is to have; assigned by the server when omitted.
    pub memo_id: Option<String>,
    pub visibility: Option<String>,
    pub pinned: Option<bool>,
    pub create_time: Option<String>,
}

#[derive(Debug)]
pub struct MemoRef {
    /// `memos/UID` or bare UID.
    pub memo: String,
}

#[derive(Debug)]
pub struct UpdateMemoParams {
    pub memo: String,
    pub content: Option<String>,
    pub visibility: Option<String>,
    pub pinned: Option<bool>,
    pub state: Option<String>,
    pub create_time: Option<String>,
    pub update_time: Option<String>,
}

#[derive(Debug)]
pub struct MemoPageParams {
    pub memo: String,
    pub page_size: Option<i32>,
    pub page_token: Option<String>,
    pub order_by: Option<String>,
}

#[derive(Debug)]
pub struct CreateMemoCommentParams {
    pub memo: String,
    pub content: String,
    /// The UID that the comment is to have; assigned by the server when omitted.
    pub comment_id: Option<String>,
}

#[derive(Debug)]
pub struct SetMemoAttachmentsParams {
    pub memo: String,
    /// Attachment names (`attachments/UID`), bare UIDs, or full objects.
    pub attachments: Vec<Json>,
}

#[derive(Debug)]
pub struct UpsertMemoReactionParams {
    pub memo: String,
    /// Emoji / shortcode, e.g. `"+1"`.
    pub reaction_type: String,
}

#[derive(Debug)]
pub struct DeleteMemoReactionParams {
    pub memo: String,
    /// Reaction id (last segment of `memos/{uid}/reactions/{id}`).
    pub reaction: String,
}

#[derive(Debug)]
pub struct SetMemoRelationsParams {
    pub memo: String,
    /// Memos to reference (`memos/UID` or bare UID). Replaces the set.
    pub related: Vec<String>,
}

#[derive(Debug)]
pub struct ListAttachmentsParams {
    pub page_size: Option<i32>,
    pub page_token: Option<String>,
    pub filter: Option<String>,
    pub order_by: Option<String>,
}

#[derive(Debug)]
pub struct CreateAttachmentParams {
    pub filename: String,
    /// MIME type; guessed from extension when omitted.
    pub mime_type: Option<String>,
    /// Base64-encoded content.
    pub content: Option<String>,
    /// Where the content is, in place of the content itself.
    pub external_link: Option<String>,
    /// Link to a memo (`memos/UID` or bare UID).
    pub memo: Option<String>,
}

#[derive(Debug)]
pub struct AttachmentRef {
    pub attachment: String,
}

#[derive(Debug)]
pub struct ShortcutParams {
    /// `users/ID`, `users/username`, or bare segment.
    pub user: String,
}

#[derive(Debug)]
pub struct EmptyParams {}

impl Default for EmptyParams {
    fn default() -> (r: EmptyParams)
        ensures
            r == (EmptyParams {  }),
    {
        EmptyParams {  }
    }
}

#[derive(Debug)]
pub struct ListTagsParams {
    pub parent: Option<String>,
    pub recursive: Option<bool>,
}

#[derive(Debug)]
pub struct RenameTagParams {
    pub old_tag: String,
    pub new_tag: String,
}

// ---------- prompt arguments ----------

#[derive(Debug)]
pub struct CaptureArgs {
    pub content: String,
    pub tags: Option<String>,
    pub visibility: Option<String>,
}

#[derive(Debug)]
pub struct DigestArgs {
    pub period: Option<String>,
}

#[derive(Debug)]
pub struct RelationGraphArgs {
    pub memo: String,
}

} // verus!
