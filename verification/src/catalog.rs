//! The curated tools.
//!
//! Twenty tools stand for operations of the Memos API, one method and path
//! each. Two more work on tags, for which the API has no operation: tags come
//! from listing memos, and a rename rewrites memo contents.

use vstd::prelude::*;

use crate::text::{listed, texts};

verus! {

/// A tool: its name, operation id, method, path, whether it only reads, and its
/// toolset.
pub type ToolRow = (&'static str, &'static str, &'static str, &'static str, bool, &'static str);

/// (tool_name, operation_id, method, path, readonly, toolset)
pub const CURATED_TOOLS: [(&'static str, &'static str, &'static str, &'static str, bool, &'static str); 22] = [
    ("memo_list_memos", "MemoService_ListMemos", "GET", "/api/v1/memos", true, "memos"),
    ("memo_create_memo", "MemoService_CreateMemo", "POST", "/api/v1/memos", false, "memos"),
    ("memo_get_memo", "MemoService_GetMemo", "GET", "/api/v1/memos/{memo}", true, "memos"),
    ("memo_update_memo", "MemoService_UpdateMemo", "PATCH", "/api/v1/memos/{memo}", false, "memos"),
    ("memo_delete_memo", "MemoService_DeleteMemo", "DELETE", "/api/v1/memos/{memo}", false, "memos"),
    ("memo_list_memo_comments", "MemoService_ListMemoComments", "GET", "/api/v1/memos/{memo}/comments", true, "memos"),
    ("memo_create_memo_comment", "MemoService_CreateMemoComment", "POST", "/api/v1/memos/{memo}/comments", false, "memos"),
    ("memo_list_memo_attachments", "MemoService_ListMemoAttachments", "GET", "/api/v1/memos/{memo}/attachments", true, "attachments"),
    ("memo_set_memo_attachments", "MemoService_SetMemoAttachments", "PATCH", "/api/v1/memos/{memo}/attachments", false, "attachments"),
    ("memo_list_memo_reactions", "MemoService_ListMemoReactions", "GET", "/api/v1/memos/{memo}/reactions", true, "reactions"),
    ("memo_upsert_memo_reaction", "MemoService_UpsertMemoReaction", "POST", "/api/v1/memos/{memo}/reactions", false, "reactions"),
    ("memo_delete_memo_reaction", "MemoService_DeleteMemoReaction", "DELETE", "/api/v1/memos/{memo}/reactions/{reaction}", false, "reactions"),
    ("memo_list_memo_relations", "MemoService_ListMemoRelations", "GET", "/api/v1/memos/{memo}/relations", true, "relations"),
    ("memo_set_memo_relations", "MemoService_SetMemoRelations", "PATCH", "/api/v1/memos/{memo}/relations", false, "relations"),
    ("attachment_list_attachments", "AttachmentService_ListAttachments", "GET", "/api/v1/attachments", true, "attachments"),
    ("attachment_create_attachment", "AttachmentService_CreateAttachment", "POST", "/api/v1/attachments", false, "attachments"),
    ("attachment_get_attachment", "AttachmentService_GetAttachment", "GET", "/api/v1/attachments/{attachment}", true, "attachments"),
    ("attachment_delete_attachment", "AttachmentService_DeleteAttachment", "DELETE", "/api/v1/attachments/{attachment}", false, "attachments"),
    ("shortcut_list_shortcuts", "ShortcutService_ListShortcuts", "GET", "/api/v1/users/{user}/shortcuts", true, "memos"),
    ("auth_get_current_user", "AuthService_GetCurrentUser", "GET", "/api/v1/auth/me", true, "memos"),
    ("tag_list_tags", "-", "GET", "/api/v1/memos", true, "tags"),
    ("tag_rename_tag", "-", "PATCH", "/api/v1/memos/{memo}", false, "tags"),
];

/// Does a filter let a tool through? A read-only filter drops the tools that
/// write; a list of toolsets or of names, unless empty, drops what it does not
/// name; a list of exclusions drops what it names.
pub open spec fn admits(
    readonly: bool,
    toolsets: Seq<Seq<char>>,
    only: Seq<Seq<char>>,
    exclude: Seq<Seq<char>>,
    row: ToolRow,
) -> bool {
    &&& readonly ==> row.4
    &&& toolsets.len() == 0 || toolsets.contains(row.5@)
    &&& only.len() == 0 || only.contains(row.0@)
    &&& !exclude.contains(row.0@)
}

/// The names of the tools that a filter lets through, in catalog order.
pub open spec fn admitted(
    readonly: bool,
    toolsets: Seq<Seq<char>>,
    only: Seq<Seq<char>>,
    exclude: Seq<Seq<char>>,
) -> Seq<Seq<char>> {
    CURATED_TOOLS@.filter(
        |row: ToolRow| admits(readonly, toolsets, only, exclude, row),
    ).map_values(|row: ToolRow| row.0@)
}

/// The views of a list of tool names.
pub open spec fn names(v: Seq<&'static str>) -> Seq<Seq<char>> {
    v.map_values(|s: &'static str| s@)
}

/// Filter the tool list by readonly flag, toolsets, included and excluded
/// names.
pub fn filter_tools(
    readonly: bool,
    toolsets: &[String],
    only: &[String],
    exclude: &[String],
) -> (r: Vec<&'static str>)
    ensures
        names(r@) == admitted(readonly, texts(toolsets@), texts(only@), texts(exclude@)),
{
    let tools = CURATED_TOOLS;
    let ghost all = CURATED_TOOLS@;
    let ghost pred = |row: ToolRow|
        admits(readonly, texts(toolsets@), texts(only@), texts(exclude@), row);
    let ghost name = |row: ToolRow| row.0@;
    let mut out: Vec<&'static str> = Vec::new();
    let mut i: usize = 0;
    proof {
        reveal(Seq::filter);
        assert(names(out@) =~= all.take(0).filter(pred).map_values(name));
    }
    while i < tools.len()
        invariant
            i <= tools@.len(),
            tools@ == all,
            all == CURATED_TOOLS@,
            pred == (|row: ToolRow|
                admits(readonly, texts(toolsets@), texts(only@), texts(exclude@), row)),
            name == (|row: ToolRow| row.0@),
            names(out@) == all.take(i as int).filter(pred).map_values(name),
        decreases tools@.len() - i,
    {
        let row = tools[i];
        let ghost had = names(out@);
        let ghost kept = all.take(i as int).filter(pred);
        proof {
            reveal(Seq::filter);
            assert(all.take(i + 1).drop_last() =~= all.take(i as int));
        }
        if (!readonly || row.4) && (toolsets.len() == 0 || listed(toolsets, row.5)) && (
        only.len() == 0 || listed(only, row.0)) && !listed(exclude, row.0) {
            out.push(row.0);
            assert(names(out@) =~= had.push(row.0@));
            assert(kept.push(row).map_values(name) =~= kept.map_values(name).push(row.0@));
        }
        i = i + 1;
    }
    assert(all.take(i as int) =~= all);
    out
}

// ---------- laws ----------

/// A number read off a text: its length and three of its characters.
spec fn fingerprint(s: Seq<char>) -> int {
    s.len() + 1000 * (s[5] as int) + 1000000 * (s[11] as int) + 1000000000 * (s[s.len() - 7] as int)
}

/// The fingerprints of the tool names, in catalog order.
spec fn fingerprints() -> Seq<int> {
    seq![
        116101108015,
        116095099016,
        101109103013,
        116095117016,
        116095100016,
        111101108023,
        99095099024,
        99101108026,
        99109115025,
        97101108024,
        101095117025,
        101095100025,
        108101108024,
        108109115023,
        99108104027,
        97099104028,
        97103104025,
        97100104028,
        111115099023,
        110114103021,
        115103105013,
        97116101014,
    ]
}

/// The fingerprints are those of the names.
proof fn lemma_fingerprints()
    ensures
        fingerprints().len() == 22,
        forall|i: int|
            0 <= i < 22 ==> fingerprint((#[trigger] CURATED_TOOLS@[i]).0@) == fingerprints()[i],
{
    reveal_strlit("memo_list_memos");
    reveal_strlit("memo_create_memo");
    reveal_strlit("memo_get_memo");
    reveal_strlit("memo_update_memo");
    reveal_strlit("memo_delete_memo");
    reveal_strlit("memo_list_memo_comments");
    reveal_strlit("memo_create_memo_comment");
    reveal_strlit("memo_list_memo_attachments");
    reveal_strlit("memo_set_memo_attachments");
    reveal_strlit("memo_list_memo_reactions");
    reveal_strlit("memo_upsert_memo_reaction");
    reveal_strlit("memo_delete_memo_reaction");
    reveal_strlit("memo_list_memo_relations");
    reveal_strlit("memo_set_memo_relations");
    reveal_strlit("attachment_list_attachments");
    reveal_strlit("attachment_create_attachment");
    reveal_strlit("attachment_get_attachment");
    reveal_strlit("attachment_delete_attachment");
    reveal_strlit("shortcut_list_shortcuts");
    reveal_strlit("auth_get_current_user");
    reveal_strlit("tag_list_tags");
    reveal_strlit("tag_rename_tag");
    assert forall|i: int| 0 <= i < 22 implies fingerprint((#[trigger] CURATED_TOOLS@[i]).0@)
        == fingerprints()[i] by {
        assert(fingerprint("memo_list_memos"@) == fingerprints()[0]);
        assert(fingerprint("memo_create_memo"@) == fingerprints()[1]);
        assert(fingerprint("memo_get_memo"@) == fingerprints()[2]);
        assert(fingerprint("memo_update_memo"@) == fingerprints()[3]);
        assert(fingerprint("memo_delete_memo"@) == fingerprints()[4]);
        assert(fingerprint("memo_list_memo_comments"@) == fingerprints()[5]);
        assert(fingerprint("memo_create_memo_comment"@) == fingerprints()[6]);
        assert(fingerprint("memo_list_memo_attachments"@) == fingerprints()[7]);
        assert(fingerprint("memo_set_memo_attachments"@) == fingerprints()[8]);
        assert(fingerprint("memo_list_memo_reactions"@) == fingerprints()[9]);
        assert(fingerprint("memo_upsert_memo_reaction"@) == fingerprints()[10]);
        assert(fingerprint("memo_delete_memo_reaction"@) == fingerprints()[11]);
        assert(fingerprint("memo_list_memo_relations"@) == fingerprints()[12]);
        assert(fingerprint("memo_set_memo_relations"@) == fingerprints()[13]);
        assert(fingerprint("attachment_list_attachments"@) == fingerprints()[14]);
        assert(fingerprint("attachment_create_attachment"@) == fingerprints()[15]);
        assert(fingerprint("attachment_get_attachment"@) == fingerprints()[16]);
        assert(fingerprint("attachment_delete_attachment"@) == fingerprints()[17]);
        assert(fingerprint("shortcut_list_shortcuts"@) == fingerprints()[18]);
        assert(fingerprint("auth_get_current_user"@) == fingerprints()[19]);
        assert(fingerprint("tag_list_tags"@) == fingerprints()[20]);
        assert(fingerprint("tag_rename_tag"@) == fingerprints()[21]);
    }
}

/// No two tools have the same name.
pub proof fn tool_names_are_distinct(i: int, j: int)
    requires
        0 <= i < CURATED_TOOLS@.len(),
        0 <= j < CURATED_TOOLS@.len(),
        CURATED_TOOLS@[i].0@ == CURATED_TOOLS@[j].0@,
    ensures
        i == j,
{
    lemma_fingerprints();
    assert(CURATED_TOOLS@.len() == 22);
    assert(fingerprints()[i] == fingerprints()[j]);
}

/// There are twenty-two tools: twenty operations of the API, and two on tags.
pub proof fn catalog_has_twenty_operations_and_two_tag_tools()
    ensures
        CURATED_TOOLS@.len() == 22,
        forall|i: int|
            0 <= i < 22 ==> (((#[trigger] CURATED_TOOLS@[i]).1@ == "-"@) <==> i >= 20) && ((
            CURATED_TOOLS@[i].5@ == "tags"@) <==> i >= 20),
{
    reveal_strlit("-");
    reveal_strlit("memos");
    reveal_strlit("attachments");
    reveal_strlit("reactions");
    reveal_strlit("relations");
    reveal_strlit("tags");
    reveal_strlit("AttachmentService_CreateAttachment");
    reveal_strlit("AttachmentService_DeleteAttachment");
    reveal_strlit("AttachmentService_GetAttachment");
    reveal_strlit("AttachmentService_ListAttachments");
    reveal_strlit("AuthService_GetCurrentUser");
    reveal_strlit("MemoService_CreateMemo");
    reveal_strlit("MemoService_CreateMemoComment");
    reveal_strlit("MemoService_DeleteMemo");
    reveal_strlit("MemoService_DeleteMemoReaction");
    reveal_strlit("MemoService_GetMemo");
    reveal_strlit("MemoService_ListMemoAttachments");
    reveal_strlit("MemoService_ListMemoComments");
    reveal_strlit("MemoService_ListMemoReactions");
    reveal_strlit("MemoService_ListMemoRelations");
    reveal_strlit("MemoService_ListMemos");
    reveal_strlit("MemoService_SetMemoAttachments");
    reveal_strlit("MemoService_SetMemoRelations");
    reveal_strlit("MemoService_UpdateMemo");
    reveal_strlit("MemoService_UpsertMemoReaction");
    reveal_strlit("ShortcutService_ListShortcuts");
    assert("-"@.len() == 1 && "tags"@.len() == 4);
    assert("memos"@.len() == 5 && "attachments"@.len() == 11);
    assert("reactions"@.len() == 9 && "relations"@.len() == 9);
    assert("AttachmentService_CreateAttachment"@.len() > 1);
    assert("AttachmentService_DeleteAttachment"@.len() > 1);
    assert("AttachmentService_GetAttachment"@.len() > 1);
    assert("AttachmentService_ListAttachments"@.len() > 1);
    assert("AuthService_GetCurrentUser"@.len() > 1);
    assert("MemoService_CreateMemo"@.len() > 1);
    assert("MemoService_CreateMemoComment"@.len() > 1);
    assert("MemoService_DeleteMemo"@.len() > 1);
    assert("MemoService_DeleteMemoReaction"@.len() > 1);
    assert("MemoService_GetMemo"@.len() > 1);
    assert("MemoService_ListMemoAttachments"@.len() > 1);
    assert("MemoService_ListMemoComments"@.len() > 1);
    assert("MemoService_ListMemoReactions"@.len() > 1);
    assert("MemoService_ListMemoRelations"@.len() > 1);
    assert("MemoService_ListMemos"@.len() > 1);
    assert("MemoService_SetMemoAttachments"@.len() > 1);
    assert("MemoService_SetMemoRelations"@.len() > 1);
    assert("MemoService_UpdateMemo"@.len() > 1);
    assert("MemoService_UpsertMemoReaction"@.len() > 1);
    assert("ShortcutService_ListShortcuts"@.len() > 1);
}

/// A tool only reads exactly where its method is `GET`.
pub proof fn readonly_tools_are_the_gets(i: int)
    requires
        0 <= i < CURATED_TOOLS@.len(),
    ensures
        CURATED_TOOLS@[i].4 <==> CURATED_TOOLS@[i].2@ == "GET"@,
{
    reveal_strlit("GET");
    reveal_strlit("POST");
    reveal_strlit("PATCH");
    reveal_strlit("DELETE");
    assert("GET"@.len() == 3 && "POST"@.len() == 4 && "PATCH"@.len() == 5 && "DELETE"@.len() == 6);
}

/// A filtered list keeps exactly the items that pass.
pub proof fn lemma_filter_contains<A>(s: Seq<A>, pred: spec_fn(A) -> bool, x: A)
    ensures
        s.filter(pred).contains(x) <==> s.contains(x) && pred(x),
    decreases s.len(),
{
    reveal(Seq::filter);
    if s.len() > 0 {
        let rest = s.drop_last();
        lemma_filter_contains(rest, pred, x);
        assert(s =~= rest.push(s.last()));
        if rest.contains(x) {
            let i = choose|i: int| 0 <= i < rest.len() && rest[i] == x;
            assert(s[i] == x);
        }
        if s.contains(x) && !rest.contains(x) {
            let i = choose|i: int| 0 <= i < s.len() && s[i] == x;
            if i < rest.len() {
                assert(rest[i] == x);
            }
        }
        let kept = rest.filter(pred);
        if pred(s.last()) {
            assert(s.filter(pred) == kept.push(s.last()));
            assert(kept.push(s.last())[kept.len() as int] == s.last());
            if kept.contains(x) {
                let i = choose|i: int| 0 <= i < kept.len() && kept[i] == x;
                assert(kept.push(s.last())[i] == x);
            }
            if kept.push(s.last()).contains(x) && !kept.contains(x) {
                let i = choose|i: int|
                    0 <= i < kept.push(s.last()).len() && kept.push(s.last())[i] == x;
                if i < kept.len() {
                    assert(kept[i] == x);
                }
            }
        }
    }
}

/// A name passes a filter exactly where it is that of a tool that the filter
/// lets through.
pub proof fn admitted_exactly(
    readonly: bool,
    toolsets: Seq<Seq<char>>,
    only: Seq<Seq<char>>,
    exclude: Seq<Seq<char>>,
    name: Seq<char>,
)
    ensures
        admitted(readonly, toolsets, only, exclude).contains(name) <==> exists|i: int|
            0 <= i < CURATED_TOOLS@.len() && (#[trigger] CURATED_TOOLS@[i]).0@ == name && admits(
                readonly,
                toolsets,
                only,
                exclude,
                CURATED_TOOLS@[i],
            ),
{
    let pred = |row: ToolRow| admits(readonly, toolsets, only, exclude, row);
    let kept = CURATED_TOOLS@.filter(pred);
    let list = admitted(readonly, toolsets, only, exclude);
    assert(list.len() == kept.len());
    if list.contains(name) {
        let k = choose|k: int| 0 <= k < list.len() && list[k] == name;
        let row = kept[k];
        assert(kept.contains(row));
        lemma_filter_contains(CURATED_TOOLS@, pred, row);
        let i = choose|i: int| 0 <= i < CURATED_TOOLS@.len() && CURATED_TOOLS@[i] == row;
        assert(CURATED_TOOLS@[i].0@ == name);
    }
    if exists|i: int|
        0 <= i < CURATED_TOOLS@.len() && (#[trigger] CURATED_TOOLS@[i]).0@ == name && admits(
            readonly,
            toolsets,
            only,
            exclude,
            CURATED_TOOLS@[i],
        ) {
        let i = choose|i: int|
            0 <= i < CURATED_TOOLS@.len() && (#[trigger] CURATED_TOOLS@[i]).0@ == name && admits(
                readonly,
                toolsets,
                only,
                exclude,
                CURATED_TOOLS@[i],
            );
        let row = CURATED_TOOLS@[i];
        assert(CURATED_TOOLS@.contains(row));
        lemma_filter_contains(CURATED_TOOLS@, pred, row);
        let k = choose|k: int| 0 <= k < kept.len() && kept[k] == row;
        assert(list[k] == name);
    }
}

/// One step of filtering the catalog.
proof fn lemma_filter_step(pred: spec_fn(ToolRow) -> bool, n: int)
    requires
        0 <= n < CURATED_TOOLS@.len(),
    ensures
        CURATED_TOOLS@.take(n + 1).filter(pred) == if pred(CURATED_TOOLS@[n]) {
            CURATED_TOOLS@.take(n).filter(pred).push(CURATED_TOOLS@[n])
        } else {
            CURATED_TOOLS@.take(n).filter(pred)
        },
{
    reveal(Seq::filter);
    let next = CURATED_TOOLS@.take(n + 1);
    assert(next.drop_last() =~= CURATED_TOOLS@.take(n));
    assert(next.last() == CURATED_TOOLS@[n]);
}

/// Without other restrictions the read-only tools are these eleven.
pub proof fn readonly_catalog_has_eleven_tools()
    ensures
        admitted(true, seq![], seq![], seq![]) == seq![
            "memo_list_memos"@,
            "memo_get_memo"@,
            "memo_list_memo_comments"@,
            "memo_list_memo_attachments"@,
            "memo_list_memo_reactions"@,
            "memo_list_memo_relations"@,
            "attachment_list_attachments"@,
            "attachment_get_attachment"@,
            "shortcut_list_shortcuts"@,
            "auth_get_current_user"@,
            "tag_list_tags"@,
        ],
{
    let none = Seq::<Seq<char>>::empty();
    let pred = |row: ToolRow| admits(true, none, none, none, row);
    reveal(Seq::filter);
    assert(CURATED_TOOLS@.take(0).filter(pred) =~= seq![]);
    lemma_filter_step(pred, 0);
    lemma_filter_step(pred, 1);
    lemma_filter_step(pred, 2);
    lemma_filter_step(pred, 3);
    lemma_filter_step(pred, 4);
    lemma_filter_step(pred, 5);
    lemma_filter_step(pred, 6);
    lemma_filter_step(pred, 7);
    lemma_filter_step(pred, 8);
    lemma_filter_step(pred, 9);
    lemma_filter_step(pred, 10);
    lemma_filter_step(pred, 11);
    lemma_filter_step(pred, 12);
    lemma_filter_step(pred, 13);
    lemma_filter_step(pred, 14);
    lemma_filter_step(pred, 15);
    lemma_filter_step(pred, 16);
    lemma_filter_step(pred, 17);
    lemma_filter_step(pred, 18);
    lemma_filter_step(pred, 19);
    lemma_filter_step(pred, 20);
    lemma_filter_step(pred, 21);
    assert(CURATED_TOOLS@.take(22) =~= CURATED_TOOLS@);
    assert(CURATED_TOOLS@.filter(pred).len() == 11);
    assert(admitted(true, none, none, none) =~= seq![
        "memo_list_memos"@,
        "memo_get_memo"@,
        "memo_list_memo_comments"@,
        "memo_list_memo_attachments"@,
        "memo_list_memo_reactions"@,
        "memo_list_memo_relations"@,
        "attachment_list_attachments"@,
        "attachment_get_attachment"@,
        "shortcut_list_shortcuts"@,
        "auth_get_current_user"@,
        "tag_list_tags"@,
    ]);
}

/// Without any restriction the whole catalog is let through, in order.
pub proof fn unrestricted_catalog_is_whole()
    ensures
        admitted(false, seq![], seq![], seq![]) == CURATED_TOOLS@.map_values(
            |row: ToolRow| row.0@,
        ),
{
    let none = Seq::<Seq<char>>::empty();
    let pred = |row: ToolRow| admits(false, none, none, none, row);
    lemma_filter_all(CURATED_TOOLS@, pred);
}

/// Filtering by what holds of every item keeps the list.
proof fn lemma_filter_all<A>(s: Seq<A>, pred: spec_fn(A) -> bool)
    requires
        forall|i: int| 0 <= i < s.len() ==> pred(#[trigger] s[i]),
    ensures
        s.filter(pred) == s,
    decreases s.len(),
{
    reveal(Seq::filter);
    if s.len() > 0 {
        lemma_filter_all(s.drop_last(), pred);
        assert(s =~= s.drop_last().push(s.last()));
    }
}

/// A tool of the catalog passes exactly where its own row does.
proof fn lemma_admitted_row(
    readonly: bool,
    toolsets: Seq<Seq<char>>,
    only: Seq<Seq<char>>,
    exclude: Seq<Seq<char>>,
    i: int,
)
    requires
        0 <= i < CURATED_TOOLS@.len(),
    ensures
        admitted(readonly, toolsets, only, exclude).contains(CURATED_TOOLS@[i].0@) <==> admits(
            readonly,
            toolsets,
            only,
            exclude,
            CURATED_TOOLS@[i],
        ),
{
    let name = CURATED_TOOLS@[i].0@;
    admitted_exactly(readonly, toolsets, only, exclude, name);
    if admitted(readonly, toolsets, only, exclude).contains(name) {
        let k = choose|k: int|
            0 <= k < CURATED_TOOLS@.len() && (#[trigger] CURATED_TOOLS@[k]).0@ == name && admits(
                readonly,
                toolsets,
                only,
                exclude,
                CURATED_TOOLS@[k],
            );
        tool_names_are_distinct(i, k);
    }
}

/// With a list of toolsets and no other restriction, the tools let through are
/// exactly those whose toolset is in the list.
pub proof fn toolsets_choose_their_tools(toolsets: Seq<Seq<char>>, i: int)
    requires
        toolsets.len() > 0,
        0 <= i < CURATED_TOOLS@.len(),
    ensures
        admitted(false, toolsets, seq![], seq![]).contains(CURATED_TOOLS@[i].0@)
            <==> toolsets.contains(CURATED_TOOLS@[i].5@),
{
    lemma_admitted_row(false, toolsets, seq![], seq![], i);
}

/// With a list of names and no other restriction, the tools let through are exactly
/// those in the list.
pub proof fn names_choose_their_tools(only: Seq<Seq<char>>, i: int)
    requires
        only.len() > 0,
        0 <= i < CURATED_TOOLS@.len(),
    ensures
        admitted(false, seq![], only, seq![]).contains(CURATED_TOOLS@[i].0@) <==> only.contains(
            CURATED_TOOLS@[i].0@,
        ),
{
    lemma_admitted_row(false, seq![], only, seq![], i);
}

/// With exclusions and no other restriction, the tools let through are exactly those
/// that are not excluded.
pub proof fn exclusions_drop_their_tools(exclude: Seq<Seq<char>>, i: int)
    requires
        0 <= i < CURATED_TOOLS@.len(),
    ensures
        admitted(false, seq![], seq![], exclude).contains(CURATED_TOOLS@[i].0@)
            <==> !exclude.contains(CURATED_TOOLS@[i].0@),
{
    lemma_admitted_row(false, seq![], seq![], exclude, i);
}

/// Read-only and with no other restriction, the tools let through are exactly those
/// that only read.
pub proof fn readonly_drops_writing_tools(i: int)
    requires
        0 <= i < CURATED_TOOLS@.len(),
    ensures
        admitted(true, seq![], seq![], seq![]).contains(CURATED_TOOLS@[i].0@)
            <==> CURATED_TOOLS@[i].4,
{
    lemma_admitted_row(true, seq![], seq![], seq![], i);
}

/// Restrictions work independently: a tool passes several together exactly where it
/// passes each of them alone.
pub proof fn restrictions_work_independently(
    readonly: bool,
    toolsets: Seq<Seq<char>>,
    only: Seq<Seq<char>>,
    exclude: Seq<Seq<char>>,
    i: int,
)
    requires
        0 <= i < CURATED_TOOLS@.len(),
    ensures
        admitted(readonly, toolsets, only, exclude).contains(CURATED_TOOLS@[i].0@) <==> (admitted(
            readonly,
            seq![],
            seq![],
            seq![],
        ).contains(CURATED_TOOLS@[i].0@) && admitted(false, toolsets, seq![], seq![]).contains(
            CURATED_TOOLS@[i].0@,
        ) && admitted(false, seq![], only, seq![]).contains(CURATED_TOOLS@[i].0@) && admitted(
            false,
            seq![],
            seq![],
            exclude,
        ).contains(CURATED_TOOLS@[i].0@)),
{
    lemma_admitted_row(readonly, toolsets, only, exclude, i);
    lemma_admitted_row(readonly, seq![], seq![], seq![], i);
    lemma_admitted_row(false, toolsets, seq![], seq![], i);
    lemma_admitted_row(false, seq![], only, seq![], i);
    lemma_admitted_row(false, seq![], seq![], exclude, i);
}

/// Whatever the restrictions, only tools of the catalog pass, each at most once, in
/// catalog order.
pub proof fn admitted_tools_keep_catalog_order(
    readonly: bool,
    toolsets: Seq<Seq<char>>,
    only: Seq<Seq<char>>,
    exclude: Seq<Seq<char>>,
    a: int,
    b: int,
)
    requires
        0 <= a < b < admitted(readonly, toolsets, only, exclude).len(),
    ensures
        exists|i: int, j: int|
            0 <= i < j < CURATED_TOOLS@.len() && (#[trigger] CURATED_TOOLS@[i]).0@ == admitted(
                readonly,
                toolsets,
                only,
                exclude,
            )[a] && (#[trigger] CURATED_TOOLS@[j]).0@ == admitted(
                readonly,
                toolsets,
                only,
                exclude,
            )[b],
{
    let pred = |row: ToolRow| admits(readonly, toolsets, only, exclude, row);
    let list = admitted(readonly, toolsets, only, exclude);
    let kept = CURATED_TOOLS@.filter(pred);
    assert(list[a] == kept[a].0@ && list[b] == kept[b].0@);
    lemma_filter_order(CURATED_TOOLS@, pred, a, b);
    let (i, j) = choose|i: int, j: int|
        0 <= i < j < CURATED_TOOLS@.len() && #[trigger] CURATED_TOOLS@[i] == kept[a]
            && #[trigger] CURATED_TOOLS@[j] == kept[b];
    assert(CURATED_TOOLS@[i].0@ == list[a] && CURATED_TOOLS@[j].0@ == list[b]);
}

/// Filtering keeps the order.
proof fn lemma_filter_order<A>(s: Seq<A>, pred: spec_fn(A) -> bool, a: int, b: int)
    requires
        0 <= a < b < s.filter(pred).len(),
    ensures
        exists|i: int, j: int|
            0 <= i < j < s.len() && #[trigger] s[i] == s.filter(pred)[a] && #[trigger] s[j]
                == s.filter(pred)[b],
    decreases s.len(),
{
    reveal(Seq::filter);
    if s.len() > 0 {
        let rest = s.drop_last();
        let kept = rest.filter(pred);
        if b < kept.len() {
            lemma_filter_order(rest, pred, a, b);
            let (i, j) = choose|i: int, j: int|
                0 <= i < j < rest.len() && #[trigger] rest[i] == kept[a] && #[trigger] rest[j]
                    == kept[b];
            assert(s[i] == rest[i] && s[j] == rest[j]);
        } else {
            assert(kept.contains(kept[a]));
            lemma_filter_contains(rest, pred, kept[a]);
            let i = choose|i: int| 0 <= i < rest.len() && rest[i] == kept[a];
            let j = s.len() - 1;
            assert(s[i] == s.filter(pred)[a] && s[j] == s.filter(pred)[b]);
        }
    }
}

/// The names in a toolset, in catalog order.
spec fn names_in(toolset: Seq<char>, n: int) -> Seq<Seq<char>>
    decreases n,
{
    if n <= 0 {
        seq![]
    } else if CURATED_TOOLS@[n - 1].5@ == toolset {
        names_in(toolset, n - 1).push(CURATED_TOOLS@[n - 1].0@)
    } else {
        names_in(toolset, n - 1)
    }
}

/// One toolset lets its tools through, in catalog order.
proof fn lemma_names_in(toolset: Seq<char>, n: int)
    requires
        0 <= n <= CURATED_TOOLS@.len(),
    ensures
        CURATED_TOOLS@.take(n).filter(
            |row: ToolRow| admits(false, seq![toolset], seq![], seq![], row),
        ).map_values(|row: ToolRow| row.0@) == names_in(toolset, n),
    decreases n,
{
    let pred = |row: ToolRow| admits(false, seq![toolset], seq![], seq![], row);
    let name = |row: ToolRow| row.0@;
    if n == 0 {
        reveal(Seq::filter);
        assert(CURATED_TOOLS@.take(0).filter(pred).map_values(name) =~= seq![]);
    } else {
        lemma_names_in(toolset, n - 1);
        lemma_filter_step(pred, n - 1);
        let row = CURATED_TOOLS@[n - 1];
        let kept = CURATED_TOOLS@.take(n - 1).filter(pred);
        assert(seq![toolset].contains(row.5@) <==> row.5@ == toolset) by {
            assert(seq![toolset][0] == toolset);
        }
        assert(kept.push(row).map_values(name) =~= kept.map_values(name).push(row.0@));
    }
}

/// The toolsets and their tools.
pub proof fn toolsets_hold_these_tools()
    ensures
        admitted(false, seq!["memos"@], seq![], seq![]) == seq![
            "memo_list_memos"@,
            "memo_create_memo"@,
            "memo_get_memo"@,
            "memo_update_memo"@,
            "memo_delete_memo"@,
            "memo_list_memo_comments"@,
            "memo_create_memo_comment"@,
            "shortcut_list_shortcuts"@,
            "auth_get_current_user"@,
        ],
        admitted(false, seq!["attachments"@], seq![], seq![]) == seq![
            "memo_list_memo_attachments"@,
            "memo_set_memo_attachments"@,
            "attachment_list_attachments"@,
            "attachment_create_attachment"@,
            "attachment_get_attachment"@,
            "attachment_delete_attachment"@,
        ],
        admitted(false, seq!["reactions"@], seq![], seq![]) == seq![
            "memo_list_memo_reactions"@,
            "memo_upsert_memo_reaction"@,
            "memo_delete_memo_reaction"@,
        ],
        admitted(false, seq!["relations"@], seq![], seq![]) == seq![
            "memo_list_memo_relations"@,
            "memo_set_memo_relations"@,
        ],
        admitted(false, seq!["tags"@], seq![], seq![]) == seq![
            "tag_list_tags"@,
            "tag_rename_tag"@,
        ],
{
    reveal_strlit("memos");
    reveal_strlit("attachments");
    reveal_strlit("reactions");
    reveal_strlit("relations");
    reveal_strlit("tags");
    assert("memos"@.len() == 5 && "attachments"@.len() == 11 && "reactions"@.len() == 9
        && "relations"@.len() == 9 && "tags"@.len() == 4);
    assert("reactions"@[2] == 'a' && "relations"@[2] == 'l');
    assert(CURATED_TOOLS@.take(22) =~= CURATED_TOOLS@);
    reveal_with_fuel(names_in, 23);
    lemma_names_in("memos"@, 22);
    lemma_names_in("attachments"@, 22);
    lemma_names_in("reactions"@, 22);
    lemma_names_in("relations"@, 22);
    lemma_names_in("tags"@, 22);
    assert(names_in("memos"@, 22) =~= seq![
        "memo_list_memos"@,
        "memo_create_memo"@,
        "memo_get_memo"@,
        "memo_update_memo"@,
        "memo_delete_memo"@,
        "memo_list_memo_comments"@,
        "memo_create_memo_comment"@,
        "shortcut_list_shortcuts"@,
        "auth_get_current_user"@,
    ]);
    assert(names_in("attachments"@, 22) =~= seq![
        "memo_list_memo_attachments"@,
        "memo_set_memo_attachments"@,
        "attachment_list_attachments"@,
        "attachment_create_attachment"@,
        "attachment_get_attachment"@,
        "attachment_delete_attachment"@,
    ]);
    assert(names_in("reactions"@, 22) =~= seq![
        "memo_list_memo_reactions"@,
        "memo_upsert_memo_reaction"@,
        "memo_delete_memo_reaction"@,
    ]);
    assert(names_in("relations"@, 22) =~= seq![
        "memo_list_memo_relations"@,
        "memo_set_memo_relations"@,
    ]);
    assert(names_in("tags"@, 22) =~= seq![
        "tag_list_tags"@,
        "tag_rename_tag"@,
    ]);
}

} // verus!
