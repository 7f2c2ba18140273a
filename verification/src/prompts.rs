//! The prompts.

use vstd::prelude::*;

use crate::params::{CaptureArgs, DigestArgs, RelationGraphArgs};
use crate::rename::{tag_name, tag_name_of};
use crate::server::MemosServer;
use crate::text::{
    chars_of, concat2, concat3, decimal, decimal_u64, join, join_of_two_lists, join_undoes_split,
    joined, lemma_unsplit, opt_text, pieces_of, same, split, split_undoes_join, texts, trim,
    trimmed, CharClass,
};

verus! {

/// (name, description, text)
pub const PROMPT_DEFS: [(&'static str, &'static str, &'static str); 4] = [
    (
        "capture",
        "Quick-save a thought as a memo",
        "Create a memo with the provided content using the memo_create_memo tool.",
    ),
    (
        "digest",
        "Summarize memo activity for a time period",
        "Create a digest of my memo activity for the specified period.",
    ),
    (
        "tag_overview",
        "Review your tag system and organization",
        "Give me an overview of my tag system:\n1. Call tag_list_tags to get all top-level tags with counts\n2. For tags with children (hasChildren=true), call tag_list_tags with parent param to show the hierarchy\n3. Analyze and present:\n   - Tag hierarchy structure\n   - Most used vs rarely used tags\n   - Suggestions for cleanup (similar tags that could be merged, unused tags, etc.)",
    ),
    (
        "relation_graph",
        "Explore the relation graph starting from a memo",
        "Explore the relation graph starting from the specified memo:\n1. Call memo_get_memo to show the starting memo's content\n2. Call memo_list_memo_relations with the memo id to get relations\n3. For each connected memo, call memo_get_memo to understand its content\n4. Present:\n   - A text-based visualization of the graph structure\n   - Brief summary of each connected memo\n   - The themes and topics that connect these memos",
    ),
];

/// A prompt: its name, description and text.
pub type PromptRow = (&'static str, &'static str, &'static str);

/// The text of the first prompt with the given name.
pub open spec fn prompt_text(defs: Seq<PromptRow>, name: Seq<char>) -> Option<Seq<char>>
    decreases defs.len(),
{
    if defs.len() == 0 {
        None
    } else if defs[0].0@ == name {
        Some(defs[0].2@)
    } else {
        prompt_text(defs.drop_first(), name)
    }
}

/// The text of the prompt with the given name.
pub fn find_prompt(name: &str) -> (r: Option<&'static str>)
    ensures
        r is Some == prompt_text(PROMPT_DEFS@, name@) is Some,
        r matches Some(t) ==> prompt_text(PROMPT_DEFS@, name@) == Some(t@),
{
    let defs = PROMPT_DEFS;
    let mut i: usize = 0;
    assert(defs@.skip(0) =~= defs@);
    while i < defs.len()
        invariant
            i <= defs@.len(),
            defs@ == PROMPT_DEFS@,
            prompt_text(defs@, name@) == prompt_text(defs@.skip(i as int), name@),
        decreases defs@.len() - i,
    {
        if same(defs[i].0, name) {
            return Some(defs[i].2);
        }
        assert(defs@.skip(i as int).drop_first() =~= defs@.skip(i + 1));
        i = i + 1;
    }
    None
}

// ---------- messages ----------

/// A list of tags, as a user writes it, as hashtags.
pub open spec fn hashtags(tags: Seq<char>) -> Seq<char> {
    join(split(tags, ',').map_values(|t: Seq<char>| "#"@ + tag_name(t)), " "@)
}

/// The content to capture: with hashtags after it, where tags are given.
pub open spec fn captured(content: Seq<char>, tags: Option<Seq<char>>) -> Seq<char> {
    match tags {
        Some(t) => if trim(t, CharClass::Space).len() > 0 {
            content + "\n\n"@ + hashtags(t)
        } else {
            content
        },
        None => content,
    }
}

/// The visibility to capture with.
pub open spec fn capture_visibility(given: Option<Seq<char>>) -> Seq<char> {
    match given {
        Some(v) => v,
        None => "PRIVATE"@,
    }
}

/// How many days a period has.
pub open spec fn digest_days(period: Option<Seq<char>>) -> nat {
    if period == Some("today"@) {
        1
    } else if period == Some("month"@) {
        30
    } else {
        7
    }
}

/// The message that asks for a content to be captured.
pub open spec fn capture_message(visibility: Seq<char>, content: Seq<char>) -> Seq<char> {
    "Create a memo with the following content using the memo_create_memo tool. Visibility: "@
        + visibility + ".\n\nContent:\n"@ + content
}

/// The message that asks for a digest.
pub open spec fn digest_message(days: nat) -> Seq<char> {
    "Create a digest of my memo activity for the past "@ + decimal(days)
        + " days:\n1. Call memo_list_memos with a filter on created_ts to get recent memos\n2. Call tag_list_tags to see tag usage patterns\n3. Summarize total memos, key themes, and trends as a concise briefing"@
}

/// The message that asks for the relations of a memo.
pub open spec fn relation_graph_message(memo: Seq<char>) -> Seq<char> {
    "Explore the relation graph starting from memo "@ + memo
        + ":\n1. Call memo_get_memo to show the starting memo's content\n2. Call memo_list_memo_relations with the memo id to get relations\n3. For each connected memo, call memo_get_memo to understand its content\n4. Present a text-based visualization of the graph plus theme analysis"@
}

/// A list of tags, as a user writes it, as hashtags.
fn hashtags_of(tags: &str) -> (r: String)
    ensures
        r@ == hashtags(tags@),
{
    let v = chars_of(tags);
    let pieces = pieces_of(v.as_slice(), ',');
    let ghost wanted = split(tags@, ',').map_values(|t: Seq<char>| "#"@ + tag_name(t));
    let mut list: Vec<String> = Vec::new();
    let mut i: usize = 0;
    assert(texts(list@) =~= wanted.take(0));
    while i < pieces.len()
        invariant
            i <= pieces@.len(),
            texts(pieces@) == split(tags@, ','),
            wanted == split(tags@, ',').map_values(|t: Seq<char>| "#"@ + tag_name(t)),
            texts(list@) == wanted.take(i as int),
        decreases pieces@.len() - i,
    {
        let ghost had = texts(list@);
        let tag = concat2("#", tag_name_of(pieces[i].as_str()).as_str());
        assert(texts(pieces@)[i as int] == pieces@[i as int]@);
        assert(tag@ == wanted[i as int]);
        list.push(tag);
        assert(texts(list@) =~= had.push(tag@));
        assert(wanted.take(i + 1) =~= wanted.take(i as int).push(wanted[i as int]));
        i = i + 1;
    }
    assert(wanted.take(i as int) =~= wanted);
    joined(list.as_slice(), " ")
}

impl MemosServer {
    /// Quick-save a thought as a memo: the message for the user.
    pub fn capture(&self, a: CaptureArgs) -> (r: String)
        ensures
            r@ == capture_message(
                capture_visibility(opt_text(a.visibility)),
                captured(a.content@, opt_text(a.tags)),
            ),
    {
        let mut content = a.content;
        if let Some(tags) = &a.tags {
            let v = chars_of(tags.as_str());
            if trimmed(v.as_slice(), CharClass::Space).len() > 0 {
                content.append("\n\n");
                content.append(hashtags_of(tags.as_str()).as_str());
            }
        }
        let visibility = match a.visibility {
            Some(v) => v,
            None => "PRIVATE".to_owned(),
        };
        let mut s = concat3(
            "Create a memo with the following content using the memo_create_memo tool. Visibility: ",
            visibility.as_str(),
            ".\n\nContent:\n",
        );
        s.append(content.as_str());
        s
    }

    /// Summarize memo activity for a time period: the message for the user.
    pub fn digest(&self, a: DigestArgs) -> (r: String)
        ensures
            r@ == digest_message(digest_days(opt_text(a.period))),
    {
        let days: u64 = match &a.period {
            Some(p) => if same(p.as_str(), "today") {
                1
            } else if same(p.as_str(), "month") {
                30
            } else {
                7
            },
            None => 7,
        };
        proof {
            reveal_strlit("today");
            reveal_strlit("month");
            assert("today"@[0] == 't' && "month"@[0] == 'm');
        }
        concat3(
            "Create a digest of my memo activity for the past ",
            decimal_u64(days).as_str(),
            " days:\n1. Call memo_list_memos with a filter on created_ts to get recent memos\n2. Call tag_list_tags to see tag usage patterns\n3. Summarize total memos, key themes, and trends as a concise briefing",
        )
    }

    /// Review your tag system and organization: the message for the user.
    pub fn tag_overview(&self) -> (r: String)
        ensures
            r@ == PROMPT_DEFS@[2].2@,
    {
        let defs = PROMPT_DEFS;
        defs[2].2.to_owned()
    }

    /// Explore the relation graph starting from a memo: the message for the user.
    pub fn relation_graph(&self, a: RelationGraphArgs) -> (r: String)
        ensures
            r@ == relation_graph_message(a.memo@),
    {
        concat3(
            "Explore the relation graph starting from memo ",
            a.memo.as_str(),
            ":\n1. Call memo_get_memo to show the starting memo's content\n2. Call memo_list_memo_relations with the memo id to get relations\n3. For each connected memo, call memo_get_memo to understand its content\n4. Present a text-based visualization of the graph plus theme analysis",
        )
    }
}

// ---------- laws ----------

/// Each prompt is found by its name.
pub proof fn prompts_are_found_by_name(i: int)
    requires
        0 <= i < PROMPT_DEFS@.len(),
    ensures
        prompt_text(PROMPT_DEFS@, PROMPT_DEFS@[i].0@) == Some(PROMPT_DEFS@[i].2@),
{
    reveal_strlit("capture");
    reveal_strlit("digest");
    reveal_strlit("tag_overview");
    reveal_strlit("relation_graph");
    assert("capture"@.len() == 7 && "digest"@.len() == 6 && "tag_overview"@.len() == 12
        && "relation_graph"@.len() == 14);
    lemma_prompt_at(PROMPT_DEFS@, i);
}

/// A prompt is found by its name where no earlier one has that name.
proof fn lemma_prompt_at(defs: Seq<PromptRow>, i: int)
    requires
        0 <= i < defs.len(),
        forall|j: int| 0 <= j < i ==> (#[trigger] defs[j]).0@ != defs[i].0@,
    ensures
        prompt_text(defs, defs[i].0@) == Some(defs[i].2@),
    decreases i,
{
    if i > 0 {
        assert(defs[0].0@ != defs[i].0@);
        assert forall|j: int| 0 <= j < i - 1 implies (#[trigger] defs.drop_first()[j]).0@
            != defs.drop_first()[i - 1].0@ by {
            assert(defs[j + 1].0@ != defs[i].0@);
        }
        lemma_prompt_at(defs.drop_first(), i - 1);
    }
}

/// What is captured is the content as it is, with hashtags after an empty line where
/// tags are given that are not blank.
pub proof fn captured_content_is_kept(content: Seq<char>, tags: Seq<char>)
    ensures
        captured(content, None) == content,
        trim(tags, CharClass::Space).len() == 0 ==> captured(content, Some(tags)) == content,
        trim(tags, CharClass::Space).len() > 0 ==> captured(content, Some(tags)) == content + seq![
            '\n',
            '\n',
        ] + hashtags(tags),
{
    reveal_strlit("\n\n");
    assert("\n\n"@ =~= seq!['\n', '\n']);
}

/// Hashtags go by commas: two lists give those of the one, a space, and those of the
/// other; a single tag gives `#` and its name.
pub proof fn hashtags_go_by_commas(a: Seq<char>, b: Seq<char>, tag: Seq<char>)
    requires
        !tag.contains(','),
    ensures
        hashtags(a + seq![','] + b) == hashtags(a) + seq![' '] + hashtags(b),
        hashtags(tag) == seq!['#'] + tag_name(tag),
{
    reveal_strlit("#");
    reveal_strlit(" ");
    assert("#"@ =~= seq!['#']);
    assert(" "@ =~= seq![' ']);
    let mark = |t: Seq<char>| "#"@ + tag_name(t);
    join_undoes_split(a, ',');
    join_undoes_split(b, ',');
    let x = split(a, ',');
    let y = split(b, ',');
    join_of_two_lists(x, y, seq![',']);
    assert forall|i: int| 0 <= i < (x + y).len() implies !(#[trigger] (x + y)[i]).contains(',') by {
        if i < x.len() {
            assert((x + y)[i] == x[i]);
        } else {
            assert((x + y)[i] == y[i - x.len()]);
        }
    }
    split_undoes_join(x + y, ',');
    assert((x + y).map_values(mark) =~= x.map_values(mark) + y.map_values(mark));
    join_of_two_lists(x.map_values(mark), y.map_values(mark), " "@);
    assert forall|j: int| 0 <= j < tag.len() implies tag[j] != ',' by {
        assert(tag.contains(tag[j]));
    }
    lemma_unsplit(tag, ',');
    assert(seq![tag].map_values(mark) =~= seq![mark(tag)]);
}

/// A capture has the visibility that is given, or else `PRIVATE`.
pub proof fn given_visibility_is_kept(visibility: Seq<char>)
    ensures
        capture_visibility(Some(visibility)) == visibility,
        capture_visibility(None) == "PRIVATE"@,
{
}

/// A digest covers a day for `today`, thirty for `month`, and a week for every other
/// period and for none.
pub proof fn digests_cover_their_period(period: Seq<char>)
    ensures
        period == "today"@ ==> digest_days(Some(period)) == 1,
        period == "month"@ ==> digest_days(Some(period)) == 30,
        period != "today"@ && period != "month"@ ==> digest_days(Some(period)) == 7,
        digest_days(None) == 7,
{
    reveal_strlit("today");
    reveal_strlit("month");
    assert("today"@[0] == 't' && "month"@[0] == 'm');
}

/// A name that no prompt has finds none.
pub proof fn unknown_prompts_are_not_found(name: Seq<char>)
    requires
        forall|i: int| 0 <= i < PROMPT_DEFS@.len() ==> (#[trigger] PROMPT_DEFS@[i]).0@ != name,
    ensures
        prompt_text(PROMPT_DEFS@, name) is None,
{
    lemma_no_prompt(PROMPT_DEFS@, name);
}

/// A name that no prompt of a list has finds none in it.
proof fn lemma_no_prompt(defs: Seq<PromptRow>, name: Seq<char>)
    requires
        forall|i: int| 0 <= i < defs.len() ==> (#[trigger] defs[i]).0@ != name,
    ensures
        prompt_text(defs, name) is None,
    decreases defs.len(),
{
    if defs.len() > 0 {
        assert forall|i: int| 0 <= i < defs.drop_first().len() implies (
        #[trigger] defs.drop_first()[i]).0@ != name by {
            assert(defs[i + 1].0@ != name);
        }
        lemma_no_prompt(defs.drop_first(), name);
    }
}

/// Messages hold what they are about as it is, in a frame that is the same for all: a
/// visibility and a content, a number of days, a memo.
pub proof fn messages_hold_what_they_are_about(
    a: Seq<char>,
    b: Seq<char>,
    c: Seq<char>,
    d: Seq<char>,
    m: nat,
    n: nat,
)
    ensures
        exists|head: Seq<char>, middle: Seq<char>|
            capture_message(a, b) == #[trigger] (head + a + middle + b) && capture_message(c, d)
                == head + c + middle + d,
        exists|head: Seq<char>, tail: Seq<char>|
            digest_message(m) == #[trigger] (head + decimal(m) + tail) && digest_message(n) == head
                + decimal(n) + tail,
        exists|head: Seq<char>, tail: Seq<char>|
            relation_graph_message(a) == #[trigger] (head + a + tail) && relation_graph_message(b)
                == head + b + tail,
{
    let head =
        "Create a memo with the following content using the memo_create_memo tool. Visibility: "@;
    let middle = ".\n\nContent:\n"@;
    assert(capture_message(a, b) == head + a + middle + b);
    let head = "Create a digest of my memo activity for the past "@;
    let tail =
        " days:\n1. Call memo_list_memos with a filter on created_ts to get recent memos\n2. Call tag_list_tags to see tag usage patterns\n3. Summarize total memos, key themes, and trends as a concise briefing"@;
    assert(digest_message(m) == head + decimal(m) + tail);
    let head = "Explore the relation graph starting from memo "@;
    let tail =
        ":\n1. Call memo_get_memo to show the starting memo's content\n2. Call memo_list_memo_relations with the memo id to get relations\n3. For each connected memo, call memo_get_memo to understand its content\n4. Present a text-based visualization of the graph plus theme analysis"@;
    assert(relation_graph_message(a) == head + a + tail);
}

} // verus!
