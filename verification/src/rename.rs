//! Renaming a tag: a rewrite of the contents of the memos that have it.

use vstd::prelude::*;

use crate::json::{items, members, no_members, put, put_text, Json, JsonValue};
use crate::memos::{
    bare_id, id_of, pairs, result_view, ClientError, ClientView, Fault, MemosClient, Outgoing,
    OutgoingView,
};
use crate::pattern::{compile, escape, escaped, regex_replaced, replace_all, Pattern};
use crate::text::{
    all_of, chars_of, concat2, concat3, decimal, decimal_u64, is_white_space, same, text_of, trim,
    trim_keeps_the_middle, trim_start, trim_start_keeps_the_rest, trimmed, trimmed_start, CharClass,
};

verus! {

// ---------- names and filter ----------

/// The name that is meant by a tag as a user writes it: without white space
/// around it and without `#` before it.
pub open spec fn tag_name(s: Seq<char>) -> Seq<char> {
    trim_start(trim(s, CharClass::Space), CharClass::Only('#'))
}

/// The name that is meant by a tag as a user writes it.
pub fn tag_name_of(s: &str) -> (r: String)
    ensures
        r@ == tag_name(s@),
{
    let v = chars_of(s);
    text_of(trimmed_start(trimmed(v.as_slice(), CharClass::Space), CharClass::Only('#')))
}

/// The old and the new name of a tag that is to be renamed, or why it cannot be.
pub open spec fn rename_names(old_tag: Seq<char>, new_tag: Seq<char>) -> Result<
    (Seq<char>, Seq<char>),
    Seq<char>,
> {
    let old_name = tag_name(old_tag);
    let new_name = tag_name(new_tag);
    if old_name.len() == 0 || new_name.len() == 0 {
        Err("old_tag and new_tag must be non-empty"@)
    } else if old_name == new_name {
        Err("old_tag and new_tag are identical"@)
    } else {
        Ok((old_name, new_name))
    }
}

/// The text with a backslash before each `"`.
pub open spec fn quoted(s: Seq<char>) -> Seq<char>
    decreases s.len(),
{
    if s.len() == 0 {
        seq![]
    } else if s.last() == '"' {
        quoted(s.drop_last()).push('\\').push('"')
    } else {
        quoted(s.drop_last()).push(s.last())
    }
}

/// The text with a backslash before each `"`.
fn quote(s: &str) -> (r: String)
    ensures
        r@ == quoted(s@),
{
    let v = chars_of(s);
    let mut out: String = String::new();
    let mut i: usize = 0;
    assert(quoted(v@.take(0)) =~= seq![]);
    while i < v.len()
        invariant
            i <= v@.len(),
            out@ == quoted(v@.take(i as int)),
        decreases v@.len() - i,
    {
        assert(v@.take(i + 1).drop_last() =~= v@.take(i as int));
        if v[i] == '"' {
            out.push('\\');
        }
        out.push(v[i]);
        i = i + 1;
    }
    assert(v@.take(i as int) =~= v@);
    out
}

/// The filter for the memos that have a tag.
pub open spec fn tag_filter(name: Seq<char>) -> Seq<char> {
    "tag in [\""@ + quoted(name) + "\"]"@
}

// ---------- rewriting ----------

/// The expression for a tag in a memo's content: `#` and the name; then any
/// segments below it, which are the first group; then a character that cannot
/// continue a tag, or the end, which is the second.
pub open spec fn rename_pattern(name: Seq<char>) -> Seq<char> {
    "#"@ + escaped(name) + "((?:/[\\w\\-]+)*)([^\\w\\-/]|$)"@
}

/// The text with each `$` doubled, which is how a replacement writes a `$` that
/// stands for itself.
pub open spec fn dollars_doubled(s: Seq<char>) -> Seq<char>
    decreases s.len(),
{
    if s.len() == 0 {
        seq![]
    } else if s.last() == '$' {
        dollars_doubled(s.drop_last()).push('$').push('$')
    } else {
        dollars_doubled(s.drop_last()).push(s.last())
    }
}

/// The text with each `$` doubled.
fn double_dollars(s: &str) -> (r: String)
    ensures
        r@ == dollars_doubled(s@),
{
    let v = chars_of(s);
    let mut out: String = String::new();
    let mut i: usize = 0;
    assert(dollars_doubled(v@.take(0)) =~= seq![]);
    while i < v.len()
        invariant
            i <= v@.len(),
            out@ == dollars_doubled(v@.take(i as int)),
        decreases v@.len() - i,
    {
        assert(v@.take(i + 1).drop_last() =~= v@.take(i as int));
        if v[i] == '$' {
            out.push('$');
        }
        out.push(v[i]);
        i = i + 1;
    }
    assert(v@.take(i as int) =~= v@);
    out
}

/// What a tag is replaced with: `#` and the new name, letter by letter, then the
/// segments below it and the character after it.
pub open spec fn rename_replacement(name: Seq<char>) -> Seq<char> {
    "#"@ + dollars_doubled(name) + "$1$2"@
}

/// The expression for a tag in a memo's content.
pub fn rename_source(name: &str) -> (r: String)
    ensures
        r@ == rename_pattern(name@),
{
    concat3("#", escape(name).as_str(), "((?:/[\\w\\-]+)*)([^\\w\\-/]|$)")
}

/// Compiled matcher for `#old` plus any `/child` suffix segments.
///
/// The trailing boundary character (or end of string) is captured and re-emitted
/// by [`apply_tag_rename`] as `$2`.
pub fn tag_rename_regex(name: &str) -> (r: Result<Pattern, String>)
    ensures
        r matches Ok(p) ==> p@ == rename_pattern(name@),
{
    compile(rename_source(name).as_str())
}

/// A content in which the tags that the matcher finds have the new name.
pub fn apply_tag_rename(matcher: &Pattern, content: &str, name: &str) -> (r: String)
    ensures
        r@ == regex_replaced(matcher@, content@, rename_replacement(name@)),
{
    replace_all(matcher, content, concat3("#", double_dollars(name).as_str(), "$1$2").as_str())
}

/// The change to one memo.
#[derive(Debug, PartialEq, Eq)]
pub struct TagPatch {
    /// The memo's name.
    pub name: String,
    pub request: Outgoing,
}

/// The mathematical value of a [`TagPatch`].
pub ghost struct PatchView {
    pub name: Seq<char>,
    pub request: OutgoingView,
}

impl View for TagPatch {
    type V = PatchView;

    open spec fn view(&self) -> PatchView {
        PatchView { name: self.name@, request: self.request@ }
    }
}

/// The change to a memo, given its content after the renaming: none where the
/// memo has no name or its content stays the same.
pub open spec fn memo_patch(client: ClientView, memo: JsonValue, rewritten: Seq<char>) -> Option<
    PatchView,
> {
    let name = memo.text_or_empty("name"@);
    if name.len() == 0 || rewritten == memo.text_or_empty("content"@) {
        None
    } else {
        Some(
            PatchView {
                name,
                request: client.patch(
                    "/api/v1/memos/"@ + id_of(name),
                    seq![("updateMask"@, "content"@)],
                    JsonValue::Object(seq![("content"@, JsonValue::Text(rewritten))]),
                ),
            },
        )
    }
}

/// The changes to some memos, in order, where a pattern finds the tags.
pub open spec fn memo_patches(
    client: ClientView,
    pattern: Seq<char>,
    new_name: Seq<char>,
    memos: Seq<JsonValue>,
) -> Seq<PatchView>
    decreases memos.len(),
{
    if memos.len() == 0 {
        seq![]
    } else {
        let before = memo_patches(client, pattern, new_name, memos.drop_last());
        let rewritten = regex_replaced(
            pattern,
            memos.last().text_or_empty("content"@),
            rename_replacement(new_name),
        );
        match memo_patch(client, memos.last(), rewritten) {
            Some(patch) => before.push(patch),
            None => before,
        }
    }
}

/// The view of an optional change.
pub open spec fn opt_patch(o: Option<TagPatch>) -> Option<PatchView> {
    match o {
        Some(p) => Some(p@),
        None => None,
    }
}

/// The values of some changes.
pub open spec fn patch_views(v: Seq<TagPatch>) -> Seq<PatchView> {
    v.map_values(|p: TagPatch| p@)
}

/// The change to a memo, given its content after the renaming.
pub fn patch_for(client: &MemosClient, memo: &Json, rewritten: &str) -> (r: Option<TagPatch>)
    ensures
        opt_patch(r) == memo_patch(client@, memo@, rewritten@),
{
    let name = memo.text_or_empty("name");
    let content = memo.text_or_empty("content");
    if name.as_str().is_empty() || same(rewritten, content.as_str()) {
        return None;
    }
    let path = concat2("/api/v1/memos/", bare_id(name.as_str()).as_str());
    let query = vec![("updateMask".to_owned(), "content".to_owned())];
    assert(pairs(query@) =~= seq![("updateMask"@, "content"@)]);
    let mut body = no_members();
    put_text(&mut body, "content", rewritten);
    assert(members(body@) =~= seq![("content"@, JsonValue::Text(rewritten@))]);
    let request = client.patch_q(path.as_str(), query, Json::object(body));
    Some(TagPatch { name, request })
}

/// The changes to some memos.
pub fn patches_for(
    client: &MemosClient,
    matcher: &Pattern,
    name: &str,
    memos: &[Json],
) -> (r: Vec<TagPatch>)
    ensures
        patch_views(r@) == memo_patches(client@, matcher@, name@, items(memos@)),
{
    let ghost all = items(memos@);
    let mut out: Vec<TagPatch> = Vec::new();
    let mut i: usize = 0;
    assert(patch_views(out@) =~= memo_patches(client@, matcher@, name@, all.take(0)));
    while i < memos.len()
        invariant
            i <= memos@.len(),
            all == items(memos@),
            patch_views(out@) == memo_patches(client@, matcher@, name@, all.take(i as int)),
        decreases memos@.len() - i,
    {
        let ghost had = patch_views(out@);
        assert(all.take(i + 1).drop_last() =~= all.take(i as int));
        assert(all.take(i + 1).last() == memos@[i as int]@);
        let content = memos[i].text_or_empty("content");
        let rewritten = apply_tag_rename(matcher, content.as_str(), name);
        if let Some(patch) = patch_for(client, &memos[i], rewritten.as_str()) {
            out.push(patch);
            assert(patch_views(out@) =~= had.push(patch@));
        }
        i = i + 1;
    }
    assert(all.take(i as int) =~= all);
    out
}

// ---------- the renaming as a whole ----------

/// A renaming that can be carried out.
#[derive(Debug, PartialEq, Eq)]
pub struct Renaming {
    from: String,
    to: String,
}

/// The mathematical value of a [`Renaming`].
pub ghost struct RenamingView {
    pub from: Seq<char>,
    pub to: Seq<char>,
}

impl View for Renaming {
    type V = RenamingView;

    closed spec fn view(&self) -> RenamingView {
        RenamingView { from: self.from@, to: self.to@ }
    }
}

/// The results of sending some changes, each with the memo's name.
pub open spec fn sent_views(v: Seq<(String, Result<Json, ClientError>)>) -> Seq<
    (Seq<char>, Result<JsonValue, Fault>),
> {
    v.map_values(|e: (String, Result<Json, ClientError>)| (e.0@, result_view(e.1)))
}

/// How many changes were made.
pub open spec fn updated(sent: Seq<(Seq<char>, Result<JsonValue, Fault>)>) -> nat
    decreases sent.len(),
{
    if sent.len() == 0 {
        0
    } else {
        updated(sent.drop_last()) + if sent.last().1 is Ok {
            1nat
        } else {
            0
        }
    }
}

/// The memos that could not be changed, in order, each with the reason.
pub open spec fn failures(sent: Seq<(Seq<char>, Result<JsonValue, Fault>)>) -> Seq<Seq<char>>
    decreases sent.len(),
{
    if sent.len() == 0 {
        seq![]
    } else {
        match sent.last().1 {
            Err(fault) => failures(sent.drop_last()).push(
                sent.last().0 + ": "@ + fault.message(),
            ),
            Ok(_) => failures(sent.drop_last()),
        }
    }
}

impl RenamingView {
    /// The report on a renaming: how many memos had the tag, how many were
    /// changed, and which could not be.
    pub open spec fn report(
        self,
        matched: nat,
        sent: Seq<(Seq<char>, Result<JsonValue, Fault>)>,
    ) -> JsonValue {
        JsonValue::Object(
            seq![
                ("renamed_from"@, JsonValue::Text(self.from)),
                ("renamed_to"@, JsonValue::Text(self.to)),
                ("memos_matched"@, JsonValue::Number(decimal(matched))),
                ("memos_updated"@, JsonValue::Number(decimal(updated(sent)))),
                (
                    "failures"@,
                    JsonValue::Array(failures(sent).map_values(|s: Seq<char>| JsonValue::Text(s))),
                ),
            ],
        )
    }
}

/// The renaming that is asked for, or why there is none.
pub open spec fn renaming_view(r: Result<Renaming, String>) -> Result<
    (Seq<char>, Seq<char>),
    Seq<char>,
> {
    match r {
        Ok(renaming) => Ok((renaming@.from, renaming@.to)),
        Err(e) => Err(e@),
    }
}

/// The words for an expression that cannot be compiled.
pub open spec fn bad_pattern(reason: Seq<char>) -> Seq<char> {
    "bad tag pattern: "@ + reason
}

impl Renaming {
    /// The renaming of one tag, as a user writes it, to another.
    pub fn start(old_tag: &str, new_tag: &str) -> (r: Result<Renaming, String>)
        ensures
            renaming_view(r) == rename_names(old_tag@, new_tag@),
    {
        let from = tag_name_of(old_tag);
        let to = tag_name_of(new_tag);
        if from.as_str().is_empty() || to.as_str().is_empty() {
            return Err("old_tag and new_tag must be non-empty".to_owned());
        }
        if same(from.as_str(), to.as_str()) {
            return Err("old_tag and new_tag are identical".to_owned());
        }
        Ok(Renaming { from, to })
    }

    /// The filter for the memos that have the tag.
    pub fn filter(&self) -> (r: String)
        ensures
            r@ == tag_filter(self@.from),
    {
        concat3("tag in [\"", quote(self.from.as_str()).as_str(), "\"]")
    }

    /// The changes to the memos, given the compiled matcher.
    pub fn plan_with(
        &self,
        client: &MemosClient,
        matcher: Result<Pattern, String>,
        memos: &[Json],
    ) -> (r: Result<Vec<TagPatch>, String>)
        ensures
            r is Ok <==> matcher is Ok,
            r matches Ok(v) ==> patch_views(v@) == memo_patches(
                client@,
                matcher->Ok_0@,
                self@.to,
                items(memos@),
            ),
            r matches Err(e) ==> e@ == bad_pattern(matcher->Err_0@),
    {
        match matcher {
            Ok(p) => Ok(patches_for(client, &p, self.to.as_str(), memos)),
            Err(e) => Err(concat2("bad tag pattern: ", e.as_str())),
        }
    }

    /// The changes to the memos. Where the matcher cannot be compiled, the words
    /// that say so.
    pub fn plan(&self, client: &MemosClient, memos: &[Json]) -> (r: Result<Vec<TagPatch>, String>)
        ensures
            r matches Ok(v) ==> patch_views(v@) == memo_patches(
                client@,
                rename_pattern(self@.from),
                self@.to,
                items(memos@),
            ),
            r matches Err(e) ==> exists|reason: Seq<char>| e@ == #[trigger] bad_pattern(reason),
    {
        self.plan_with(client, tag_rename_regex(self.from.as_str()), memos)
    }

    /// The report on the renaming.
    pub fn report(&self, matched: usize, sent: &[(String, Result<Json, ClientError>)]) -> (r: Json)
        ensures
            r@ == self@.report(matched as nat, sent_views(sent@)),
    {
        let ghost all = sent_views(sent@);
        let mut count: usize = 0;
        let mut failed: Vec<Json> = Vec::new();
        let mut i: usize = 0;
        let ghost text = |s: Seq<char>| JsonValue::Text(s);
        assert(items(failed@) =~= failures(all.take(0)).map_values(text));
        while i < sent.len()
            invariant
                i <= sent@.len(),
                all == sent_views(sent@),
                text == (|s: Seq<char>| JsonValue::Text(s)),
                count <= i,
                count == updated(all.take(i as int)),
                items(failed@) == failures(all.take(i as int)).map_values(text),
            decreases sent@.len() - i,
        {
            let ghost had = items(failed@);
            let ghost before = failures(all.take(i as int));
            assert(all.take(i + 1).drop_last() =~= all.take(i as int));
            assert(all.take(i + 1).last() == (sent@[i as int].0@, result_view(sent@[i as int].1)));
            match &sent[i].1 {
                Ok(_) => {
                    count = count + 1;
                },
                Err(e) => {
                    let line = concat3(sent[i].0.as_str(), ": ", e.message().as_str());
                    failed.push(Json::Text(line));
                    assert(items(failed@) =~= had.push(JsonValue::Text(line@)));
                    assert(before.push(line@).map_values(text) =~= had.push(
                        JsonValue::Text(line@),
                    ));
                },
            }
            i = i + 1;
        }
        assert(all.take(i as int) =~= all);
        let mut entry = no_members();
        put_text(&mut entry, "renamed_from", self.from.as_str());
        put_text(&mut entry, "renamed_to", self.to.as_str());
        put(&mut entry, "memos_matched", Json::Number(decimal_u64(matched as u64)));
        put(&mut entry, "memos_updated", Json::Number(decimal_u64(count as u64)));
        put(&mut entry, "failures", Json::array(failed));
        let r = Json::object(entry);
        assert(r@->Object_0 =~= self@.report(matched as nat, all)->Object_0);
        r
    }
}

// ---------- laws ----------

/// Every change that was sent is either counted as made or listed as failed.
pub proof fn report_accounts_for_every_change(sent: Seq<(Seq<char>, Result<JsonValue, Fault>)>)
    ensures
        updated(sent) + failures(sent).len() == sent.len(),
    decreases sent.len(),
{
    if sent.len() > 0 {
        report_accounts_for_every_change(sent.drop_last());
    }
}

/// Is this the change that rewrites the memo's content and nothing else of it, where
/// the memo has a name and the rewrite changes its content?
pub open spec fn rewrites(
    client: ClientView,
    pattern: Seq<char>,
    new_name: Seq<char>,
    memo: JsonValue,
    patch: PatchView,
) -> bool {
    let name = memo.text_or_empty("name"@);
    let content = memo.text_or_empty("content"@);
    let rewritten = regex_replaced(pattern, content, rename_replacement(new_name));
    &&& name.len() > 0
    &&& rewritten != content
    &&& patch.name == name
    &&& patch.request == client.patch(
        "/api/v1/memos/"@ + id_of(name),
        seq![("updateMask"@, "content"@)],
        JsonValue::Object(seq![("content"@, JsonValue::Text(rewritten))]),
    )
}

/// A renaming changes memos of the listing only, at most one request each: those
/// that have a name and whose content the rewrite changes. What is sent is the
/// rewritten content, and nothing else of the memo is touched.
pub proof fn patches_rewrite_contents_only(
    client: ClientView,
    pattern: Seq<char>,
    new_name: Seq<char>,
    memos: Seq<JsonValue>,
)
    ensures
        memo_patches(client, pattern, new_name, memos).len() <= memos.len(),
        forall|k: int|
            0 <= k < memo_patches(client, pattern, new_name, memos).len() ==> exists|i: int|
                0 <= i < memos.len() && rewrites(
                    client,
                    pattern,
                    new_name,
                    #[trigger] memos[i],
                    #[trigger] memo_patches(client, pattern, new_name, memos)[k],
                ),
    decreases memos.len(),
{
    if memos.len() > 0 {
        let rest = memos.drop_last();
        let all = memo_patches(client, pattern, new_name, memos);
        let before = memo_patches(client, pattern, new_name, rest);
        patches_rewrite_contents_only(client, pattern, new_name, rest);
        assert forall|k: int| 0 <= k < all.len() implies exists|i: int|
            0 <= i < memos.len() && rewrites(
                client,
                pattern,
                new_name,
                #[trigger] memos[i],
                #[trigger] all[k],
            ) by {
            if k < before.len() {
                assert(all[k] == before[k]);
                let i = choose|i: int|
                    0 <= i < rest.len() && rewrites(
                        client,
                        pattern,
                        new_name,
                        #[trigger] rest[i],
                        before[k],
                    );
                assert(memos[i] == rest[i]);
            } else {
                assert(memos[memos.len() - 1] == memos.last());
            }
        }
    }
}

/// A renaming leaves no memo out that it should change: each memo of the listing
/// that has a name and whose content the rewrite changes gets its request.
pub proof fn patches_miss_no_memo(
    client: ClientView,
    pattern: Seq<char>,
    new_name: Seq<char>,
    memos: Seq<JsonValue>,
    i: int,
)
    requires
        0 <= i < memos.len(),
        memos[i].text_or_empty("name"@).len() > 0,
        regex_replaced(
            pattern,
            memos[i].text_or_empty("content"@),
            rename_replacement(new_name),
        ) != memos[i].text_or_empty("content"@),
    ensures
        exists|k: int|
            0 <= k < memo_patches(client, pattern, new_name, memos).len() && Some(
                #[trigger] memo_patches(client, pattern, new_name, memos)[k],
            ) == memo_patch(
                client,
                memos[i],
                regex_replaced(
                    pattern,
                    memos[i].text_or_empty("content"@),
                    rename_replacement(new_name),
                ),
            ),
    decreases memos.len(),
{
    let all = memo_patches(client, pattern, new_name, memos);
    let before = memo_patches(client, pattern, new_name, memos.drop_last());
    let patch = memo_patch(
        client,
        memos[i],
        regex_replaced(
            pattern,
            memos[i].text_or_empty("content"@),
            rename_replacement(new_name),
        ),
    );
    if i == memos.len() - 1 {
        assert(all == before.push(patch->0));
        assert(Some(all[before.len() as int]) == patch);
    } else {
        patches_miss_no_memo(client, pattern, new_name, memos.drop_last(), i);
        let k = choose|k: int| 0 <= k < before.len() && Some(#[trigger] before[k]) == patch;
        assert(Some(all[k]) == patch);
    }
}

/// The filter for a tag without `"` in its name holds the name as it is.
pub proof fn plain_names_are_filtered_as_they_are(name: Seq<char>)
    requires
        !name.contains('"'),
    ensures
        tag_filter(name) == "tag in [\""@ + name + "\"]"@,
{
    lemma_unquoted(name);
}

/// A text without `"` has nothing to quote.
proof fn lemma_unquoted(s: Seq<char>)
    requires
        !s.contains('"'),
    ensures
        quoted(s) == s,
    decreases s.len(),
{
    if s.len() == 0 {
        assert(s =~= seq![]);
    } else {
        assert(s.contains(s.last()));
        assert forall|i: int| 0 <= i < s.drop_last().len() implies s.drop_last()[i] != '"' by {
            assert(s.contains(s[i]));
        }
        lemma_unquoted(s.drop_last());
        assert(s =~= s.drop_last().push(s.last()));
    }
}

/// A new name without `$` is put in place as it is.
pub proof fn plain_names_are_replaced_as_they_are(name: Seq<char>)
    requires
        !name.contains('$'),
    ensures
        rename_replacement(name) == "#"@ + name + "$1$2"@,
{
    lemma_undoubled(name);
}

/// A text without `$` has nothing to double.
proof fn lemma_undoubled(s: Seq<char>)
    requires
        !s.contains('$'),
    ensures
        dollars_doubled(s) == s,
    decreases s.len(),
{
    if s.len() == 0 {
        assert(s =~= seq![]);
    } else {
        assert(s.contains(s.last()));
        assert forall|i: int| 0 <= i < s.drop_last().len() implies s.drop_last()[i] != '$' by {
            assert(s.contains(s[i]));
        }
        lemma_undoubled(s.drop_last());
        assert(s =~= s.drop_last().push(s.last()));
    }
}

/// Names that a renaming accepts are not empty, differ from each other, and have
/// no `#` in front.
pub proof fn accepted_names_differ(old_tag: Seq<char>, new_tag: Seq<char>)
    requires
        rename_names(old_tag, new_tag) is Ok,
    ensures
        ({
            let (from, to) = rename_names(old_tag, new_tag)->Ok_0;
            from.len() > 0 && to.len() > 0 && from != to && from[0] != '#' && to[0] != '#'
        }),
{
    lemma_no_leading(trim(old_tag, CharClass::Space), '#');
    lemma_no_leading(trim(new_tag, CharClass::Space), '#');
}

/// Trimming a character at the start leaves none there.
proof fn lemma_no_leading(s: Seq<char>, c: char)
    ensures
        trim_start(s, CharClass::Only(c)).len() > 0 ==> trim_start(s, CharClass::Only(c))[0] != c,
    decreases s.len(),
{
    if s.len() > 0 && s[0] == c {
        lemma_no_leading(s.drop_first(), c);
    }
}

/// The name meant by a tag, with any number of `#` before it and white space around
/// it, is the tag itself, character for character.
pub proof fn tag_names_are_kept(
    front: Seq<char>,
    hashes: Seq<char>,
    name: Seq<char>,
    back: Seq<char>,
)
    requires
        all_of(front, CharClass::Space),
        all_of(hashes, CharClass::Only('#')),
        all_of(back, CharClass::Space),
        name.len() > 0,
        name[0] != '#',
        hashes.len() > 0 || !is_white_space(name[0]),
        !is_white_space(name.last()),
    ensures
        tag_name(front + hashes + name + back) == name,
{
    let middle = hashes + name;
    if hashes.len() > 0 {
        assert(CharClass::Only('#').holds(hashes[0]));
        assert(middle[0] == '#');
    } else {
        assert(middle[0] == name[0]);
    }
    assert(middle.last() == name.last());
    trim_keeps_the_middle(front, middle, back, CharClass::Space);
    assert(front + hashes + name + back =~= front + middle + back);
    trim_start_keeps_the_rest(hashes, name, CharClass::Only('#'));
}

/// White space with nothing but `#` in it means no tag.
pub proof fn bare_hashes_mean_no_tag(front: Seq<char>, hashes: Seq<char>, back: Seq<char>)
    requires
        all_of(front, CharClass::Space),
        all_of(hashes, CharClass::Only('#')),
        all_of(back, CharClass::Space),
    ensures
        tag_name(front + hashes + back) == Seq::<char>::empty(),
{
    if hashes.len() > 0 {
        assert(CharClass::Only('#').holds(hashes[0]));
        assert(CharClass::Only('#').holds(hashes[hashes.len() - 1]));
    }
    trim_keeps_the_middle(front, hashes, back, CharClass::Space);
    let none = Seq::<char>::empty();
    assert(hashes + none =~= hashes);
    trim_start_keeps_the_rest(hashes, none, CharClass::Only('#'));
}

/// Is this a text that means a tag as it stands? It is not empty, has no white space
/// at its ends, and does not begin with `#`.
pub open spec fn plain_tag(t: Seq<char>) -> bool {
    t.len() > 0 && !is_white_space(t[0]) && !is_white_space(t.last()) && t[0] != '#'
}

/// A renaming of one tag to another has exactly the names that were written, in
/// their letter case, with or without `#` and white space around them; it is refused
/// where the two are the same.
pub proof fn renaming_keeps_the_names(
    front: Seq<char>,
    hashes: Seq<char>,
    from: Seq<char>,
    back: Seq<char>,
    to: Seq<char>,
)
    requires
        all_of(front, CharClass::Space),
        all_of(hashes, CharClass::Only('#')),
        all_of(back, CharClass::Space),
        plain_tag(from),
        plain_tag(to),
    ensures
        from != to ==> rename_names(from, to) == Ok::<(Seq<char>, Seq<char>), Seq<char>>(
            (from, to),
        ),
        from == to ==> rename_names(from, to) == Err::<(Seq<char>, Seq<char>), Seq<char>>(
            "old_tag and new_tag are identical"@,
        ),
        rename_names(front + hashes + from + back, to) == rename_names(from, to),
        rename_names(from, front + hashes + to + back) == rename_names(from, to),
{
    let none = Seq::<char>::empty();
    tag_names_are_kept(none, none, from, none);
    tag_names_are_kept(none, none, to, none);
    assert(none + none + from + none =~= from);
    assert(none + none + to + none =~= to);
    tag_names_are_kept(front, hashes, from, back);
    tag_names_are_kept(front, hashes, to, back);
}

/// A renaming is refused where either tag is only `#` and white space.
pub proof fn renaming_needs_two_names(
    front: Seq<char>,
    hashes: Seq<char>,
    back: Seq<char>,
    other: Seq<char>,
)
    requires
        all_of(front, CharClass::Space),
        all_of(hashes, CharClass::Only('#')),
        all_of(back, CharClass::Space),
    ensures
        rename_names(front + hashes + back, other) == Err::<(Seq<char>, Seq<char>), Seq<char>>(
            "old_tag and new_tag must be non-empty"@,
        ),
        rename_names(other, front + hashes + back) == Err::<(Seq<char>, Seq<char>), Seq<char>>(
            "old_tag and new_tag must be non-empty"@,
        ),
{
    bare_hashes_mean_no_tag(front, hashes, back);
}

/// Quoting goes character by character: a `"` gets a backslash, and every other
/// character stays as it is.
pub proof fn quoting_goes_by_characters(a: Seq<char>, b: Seq<char>, c: char)
    ensures
        quoted(a + b) == quoted(a) + quoted(b),
        quoted(seq![c]) == if c == '"' {
            seq!['\\', '"']
        } else {
            seq![c]
        },
    decreases b.len(),
{
    assert(seq![c].drop_last() =~= seq![]);
    assert(quoted(Seq::<char>::empty()) =~= seq![]);
    assert(quoted(seq![c]) =~= if c == '"' {
        seq!['\\', '"']
    } else {
        seq![c]
    });
    if b.len() == 0 {
        assert(a + b =~= a);
        assert(quoted(a) + quoted(b) =~= quoted(a));
    } else {
        quoting_goes_by_characters(a, b.drop_last(), c);
        assert((a + b).drop_last() =~= a + b.drop_last());
        assert((a + b).last() == b.last());
        assert(quoted(a + b) =~= quoted(a) + quoted(b));
    }
}

/// Doubling goes character by character: a `$` is doubled, and every other character
/// stays as it is.
pub proof fn doubling_goes_by_characters(a: Seq<char>, b: Seq<char>, c: char)
    ensures
        dollars_doubled(a + b) == dollars_doubled(a) + dollars_doubled(b),
        dollars_doubled(seq![c]) == if c == '$' {
            seq!['$', '$']
        } else {
            seq![c]
        },
    decreases b.len(),
{
    assert(seq![c].drop_last() =~= seq![]);
    assert(dollars_doubled(Seq::<char>::empty()) =~= seq![]);
    assert(dollars_doubled(seq![c]) =~= if c == '$' {
        seq!['$', '$']
    } else {
        seq![c]
    });
    if b.len() == 0 {
        assert(a + b =~= a);
        assert(dollars_doubled(a) + dollars_doubled(b) =~= dollars_doubled(a));
    } else {
        doubling_goes_by_characters(a, b.drop_last(), c);
        assert((a + b).drop_last() =~= a + b.drop_last());
        assert((a + b).last() == b.last());
        assert(dollars_doubled(a + b) =~= dollars_doubled(a) + dollars_doubled(b));
    }
}

/// The filter, the expression and the replacement of two names differ in the names
/// alone: what stands before and after is the same for all.
pub proof fn names_stand_in_the_same_frame(a: Seq<char>, b: Seq<char>)
    ensures
        exists|head: Seq<char>, tail: Seq<char>|
            tag_filter(a) == #[trigger] (head + quoted(a) + tail) && tag_filter(b) == head + quoted(
                b,
            ) + tail && head.len() == 9 && tail.len() == 2,
        exists|head: Seq<char>, tail: Seq<char>|
            rename_pattern(a) == #[trigger] (head + escaped(a) + tail) && rename_pattern(b) == head
                + escaped(b) + tail && head == seq!['#'],
        exists|head: Seq<char>, tail: Seq<char>|
            rename_replacement(a) == #[trigger] (head + dollars_doubled(a) + tail)
                && rename_replacement(b) == head + dollars_doubled(b) + tail && head == seq!['#']
                && tail == seq!['$', '1', '$', '2'],
{
    reveal_strlit("tag in [\"");
    reveal_strlit("\"]");
    reveal_strlit("#");
    reveal_strlit("$1$2");
    let suffix = "((?:/[\\w\\-]+)*)([^\\w\\-/]|$)"@;
    assert("#"@ =~= seq!['#']);
    assert("$1$2"@ =~= seq!['$', '1', '$', '2']);
    assert(tag_filter(a) == "tag in [\""@ + quoted(a) + "\"]"@);
    assert(rename_pattern(a) == "#"@ + escaped(a) + suffix);
    assert(rename_replacement(a) == "#"@ + dollars_doubled(a) + "$1$2"@);
}

/// The changes to two lists of memos are those to the one, and then those to the
/// other.
pub proof fn patches_of_joined_lists(
    client: ClientView,
    pattern: Seq<char>,
    new_name: Seq<char>,
    a: Seq<JsonValue>,
    b: Seq<JsonValue>,
)
    ensures
        memo_patches(client, pattern, new_name, a + b) == memo_patches(client, pattern, new_name, a)
            + memo_patches(client, pattern, new_name, b),
    decreases b.len(),
{
    let left = memo_patches(client, pattern, new_name, a);
    if b.len() == 0 {
        assert(a + b =~= a);
        assert(left + memo_patches(client, pattern, new_name, b) =~= left);
    } else {
        patches_of_joined_lists(client, pattern, new_name, a, b.drop_last());
        assert((a + b).drop_last() =~= a + b.drop_last());
        assert((a + b).last() == b.last());
        assert(memo_patches(client, pattern, new_name, a + b) =~= left + memo_patches(
            client,
            pattern,
            new_name,
            b,
        ));
    }
}

/// What is reported of several changes is what is reported of each: one that was made
/// counts, and one that was not is listed under the memo's name with the reason.
pub proof fn reports_go_by_changes(
    a: Seq<(Seq<char>, Result<JsonValue, Fault>)>,
    b: Seq<(Seq<char>, Result<JsonValue, Fault>)>,
    name: Seq<char>,
    value: JsonValue,
    fault: Fault,
)
    ensures
        updated(a + b) == updated(a) + updated(b),
        failures(a + b) == failures(a) + failures(b),
        updated(seq![(name, Ok::<JsonValue, Fault>(value))]) == 1,
        failures(seq![(name, Ok::<JsonValue, Fault>(value))]).len() == 0,
        updated(seq![(name, Err::<JsonValue, Fault>(fault))]) == 0,
        failures(seq![(name, Err::<JsonValue, Fault>(fault))]) == seq![
            name + seq![':', ' '] + fault.message(),
        ],
    decreases b.len(),
{
    reveal_strlit(": ");
    assert(": "@ =~= seq![':', ' ']);
    let none = Seq::<(Seq<char>, Result<JsonValue, Fault>)>::empty();
    let one = seq![(name, Ok::<JsonValue, Fault>(value))];
    let other = seq![(name, Err::<JsonValue, Fault>(fault))];
    assert(one.drop_last() =~= none);
    assert(other.drop_last() =~= none);
    assert(updated(none) == 0);
    assert(failures(none) =~= seq![]);
    assert(failures(other) =~= seq![name + seq![':', ' '] + fault.message()]);
    if b.len() == 0 {
        assert(a + b =~= a);
        assert(failures(a) + failures(b) =~= failures(a));
    } else {
        reports_go_by_changes(a, b.drop_last(), name, value, fault);
        assert((a + b).drop_last() =~= a + b.drop_last());
        assert((a + b).last() == b.last());
        assert(failures(a + b) =~= failures(a) + failures(b));
    }
}

/// A report has five members, which say what was renamed to what, how many memos had
/// the tag, how many were changed, and which could not be.
pub proof fn reports_have_five_members(
    renaming: RenamingView,
    matched: nat,
    sent: Seq<(Seq<char>, Result<JsonValue, Fault>)>,
)
    ensures
        renaming.report(matched, sent) matches JsonValue::Object(members) && {
            &&& members.len() == 5
            &&& members[0].0 == "renamed_from"@ && members[0].1 == JsonValue::Text(renaming.from)
            &&& members[1].0 == "renamed_to"@ && members[1].1 == JsonValue::Text(renaming.to)
            &&& members[2].0 == "memos_matched"@ && members[2].1 == JsonValue::Number(
                decimal(matched),
            )
            &&& members[3].0 == "memos_updated"@ && members[3].1 == JsonValue::Number(
                decimal(updated(sent)),
            )
            &&& members[4].0 == "failures"@
            &&& members[4].1 matches JsonValue::Array(list) && list.len() == failures(sent).len()
                && forall|i: int|
                0 <= i < list.len() ==> #[trigger] list[i] == JsonValue::Text(failures(sent)[i])
        },
{
}

/// The words for an expression that cannot be compiled end in the reason.
pub proof fn bad_patterns_say_why(reason: Seq<char>)
    ensures
        bad_pattern(reason) == "bad tag pattern: "@ + reason,
{
}

} // verus!
