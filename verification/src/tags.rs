//! Tag usage, counted from memos.

use vstd::hash_map::StringHashMap;
use vstd::hash_set::StringHashSet;
use vstd::prelude::*;
use vstd::slice::slice_subrange;

use crate::json::{
    items, members, no_members, only_texts, put, put_text, texts_are_kept, Json, JsonValue,
};
use crate::text::{
    begins, chars_of, decimal, decimal_u64, first_piece, lemma_first_at, lemma_first_piece,
    lemma_first_piece_clean, lemma_first_piece_ends, lemma_unsplit, opt_text, split, text_of, texts,
};

verus! {

// ---------- the order of names ----------

/// Does `a` come before `b` in the order of their characters' code points?
pub open spec fn text_less(a: Seq<char>, b: Seq<char>) -> bool
    decreases a.len(),
{
    if b.len() == 0 {
        false
    } else if a.len() == 0 {
        true
    } else if a[0] == b[0] {
        text_less(a.drop_first(), b.drop_first())
    } else {
        a[0] < b[0]
    }
}

/// Does `a` come before `b` in the order of their characters' code points?
pub fn text_before(a: &str, b: &str) -> (r: bool)
    ensures
        r == text_less(a@, b@),
{
    let x = chars_of(a);
    let y = chars_of(b);
    let mut i: usize = 0;
    assert(x@.skip(0) =~= x@);
    assert(y@.skip(0) =~= y@);
    while i < x.len() && i < y.len() && x[i] == y[i]
        invariant
            i <= x@.len(),
            i <= y@.len(),
            text_less(x@, y@) == text_less(x@.skip(i as int), y@.skip(i as int)),
        decreases x@.len() - i,
    {
        assert(x@.skip(i as int).drop_first() =~= x@.skip(i + 1));
        assert(y@.skip(i as int).drop_first() =~= y@.skip(i + 1));
        i = i + 1;
    }
    if i == y.len() {
        false
    } else if i == x.len() {
        true
    } else {
        x[i] < y[i]
    }
}

/// The order of texts is transitive.
pub proof fn text_less_is_transitive(a: Seq<char>, b: Seq<char>, c: Seq<char>)
    requires
        text_less(a, b),
        text_less(b, c),
    ensures
        text_less(a, c),
    decreases a.len(),
{
    if a.len() > 0 && a[0] == b[0] && b[0] == c[0] {
        text_less_is_transitive(a.drop_first(), b.drop_first(), c.drop_first());
    }
}

/// Of two different texts exactly one comes before the other.
pub proof fn text_less_is_total(a: Seq<char>, b: Seq<char>)
    ensures
        a == b ==> !text_less(a, b),
        a != b ==> (text_less(a, b) <==> !text_less(b, a)),
    decreases a.len(),
{
    if a.len() > 0 && b.len() > 0 {
        text_less_is_total(a.drop_first(), b.drop_first());
        if a[0] == b[0] && a.drop_first() == b.drop_first() {
            assert(a =~= seq![a[0]] + a.drop_first());
            assert(b =~= seq![b[0]] + b.drop_first());
        }
    } else if a.len() == 0 && b.len() == 0 {
        assert(a =~= b);
    }
}

// ---------- what is counted ----------

/// The tags of some memos, in order, as often as they occur.
pub open spec fn all_tags(memos: Seq<JsonValue>) -> Seq<Seq<char>>
    decreases memos.len(),
{
    if memos.len() == 0 {
        seq![]
    } else {
        all_tags(memos.drop_last()) + only_texts(memos.last().array_at("tags"@))
    }
}

/// The name that a tag counts for. Under a parent only the tags below it count.
/// A tag counts for itself where the listing is recursive, else for the tag at
/// the first level, that is, without what follows the first `/` of that level.
pub open spec fn tag_key(tag: Seq<char>, parent: Option<Seq<char>>, recursive: bool) -> Option<
    Seq<char>,
> {
    match parent {
        Some(p) => {
            let prefix = p.push('/');
            if !prefix.is_prefix_of(tag) {
                None
            } else if recursive {
                Some(tag)
            } else {
                Some(prefix + split(tag.skip(prefix.len() as int), '/')[0])
            }
        },
        None => if recursive {
            Some(tag)
        } else {
            Some(split(tag, '/')[0])
        },
    }
}

/// How many of the tags count for a name.
pub open spec fn uses(
    tags: Seq<Seq<char>>,
    parent: Option<Seq<char>>,
    recursive: bool,
    name: Seq<char>,
) -> nat
    decreases tags.len(),
{
    if tags.len() == 0 {
        0
    } else {
        uses(tags.drop_last(), parent, recursive, name) + if tag_key(
            tags.last(),
            parent,
            recursive,
        ) == Some(name) {
            1nat
        } else {
            0
        }
    }
}

/// Is there a tag below the name?
pub open spec fn has_children(tags: Seq<Seq<char>>, name: Seq<char>) -> bool {
    exists|i: int| 0 <= i < tags.len() && name.push('/').is_prefix_of(#[trigger] tags[i])
}

/// One line of a tag listing.
pub ghost struct TagUse {
    pub name: Seq<char>,
    pub count: nat,
    pub has_children: bool,
}

impl TagUse {
    /// The order of a listing: the most used first, and among those used equally
    /// the order of their names.
    pub open spec fn precedes(self, other: TagUse) -> bool {
        self.count > other.count || self.count == other.count && text_less(self.name, other.name)
    }

    /// The line as JSON.
    pub open spec fn value(self) -> JsonValue {
        let base = seq![
            ("name"@, JsonValue::Text(self.name)),
            ("count"@, JsonValue::Number(decimal(self.count))),
        ];
        JsonValue::Object(
            if self.has_children {
                base.push(("hasChildren"@, JsonValue::Bool(true)))
            } else {
                base
            },
        )
    }
}

/// Is this the listing of the tags? It has a line for each name that a tag
/// counts for, with the number of tags that do, in the order of listings.
pub open spec fn is_tag_listing(
    rows: Seq<TagUse>,
    tags: Seq<Seq<char>>,
    parent: Option<Seq<char>>,
    recursive: bool,
) -> bool {
    &&& forall|i: int, j: int|
        0 <= i < j < rows.len() ==> (#[trigger] rows[i]).precedes(#[trigger] rows[j])
    &&& forall|i: int|
        0 <= i < rows.len() ==> {
            &&& (#[trigger] rows[i]).count > 0
            &&& rows[i].count == uses(tags, parent, recursive, rows[i].name)
            &&& rows[i].has_children == has_children(tags, rows[i].name)
        }
    &&& forall|name: Seq<char>| #[trigger]
        uses(tags, parent, recursive, name) > 0 ==> exists|i: int|
            0 <= i < rows.len() && (#[trigger] rows[i]).name == name
}

/// A listing as JSON.
pub open spec fn listing_value(rows: Seq<TagUse>) -> JsonValue {
    JsonValue::Object(
        seq![("tags"@, JsonValue::Array(rows.map_values(|u: TagUse| u.value())))],
    )
}

// ---------- counting ----------

/// One line of a tag listing.
#[derive(Debug)]
pub struct TagRow {
    pub name: String,
    pub count: usize,
    pub has_children: bool,
}

impl View for TagRow {
    type V = TagUse;

    open spec fn view(&self) -> TagUse {
        TagUse { name: self.name@, count: self.count as nat, has_children: self.has_children }
    }
}

/// The values of some lines.
pub open spec fn rows_view(rows: Seq<TagRow>) -> Seq<TagUse> {
    rows.map_values(|r: TagRow| r@)
}

/// The tags of some memos.
pub fn tags_of(memos: &[Json]) -> (r: Vec<String>)
    ensures
        texts(r@) == all_tags(items(memos@)),
{
    let ghost all = items(memos@);
    let mut out: Vec<String> = Vec::new();
    let mut i: usize = 0;
    assert(texts(out@) =~= all_tags(all.take(0)));
    while i < memos.len()
        invariant
            i <= memos@.len(),
            all == items(memos@),
            texts(out@) == all_tags(all.take(i as int)),
        decreases memos@.len() - i,
    {
        let ghost had = texts(out@);
        assert(all.take(i + 1).drop_last() =~= all.take(i as int));
        assert(all.take(i + 1).last() == memos@[i as int]@);
        let mut more = memos[i].texts_at("tags");
        let ghost added = texts(more@);
        out.append(&mut more);
        assert(texts(out@) =~= had + added);
        i = i + 1;
    }
    assert(all.take(i as int) =~= all);
    out
}

/// The name that a tag counts for.
pub fn key_of(tag: &str, parent: &Option<String>, recursive: bool) -> (r: Option<String>)
    ensures
        opt_text(r) == tag_key(tag@, opt_text(*parent), recursive),
{
    let v = chars_of(tag);
    match parent {
        Some(p) => {
            let mut prefix = chars_of(p.as_str());
            prefix.push('/');
            if !begins(v.as_slice(), prefix.as_slice()) {
                None
            } else if recursive {
                Some(tag.to_owned())
            } else {
                let rest = slice_subrange(v.as_slice(), prefix.len(), v.len());
                assert(rest@ =~= v@.skip(prefix@.len() as int));
                let mut key = text_of(prefix.as_slice());
                key.append(text_of(first_piece(rest, '/')).as_str());
                Some(key)
            }
        },
        None => if recursive {
            Some(tag.to_owned())
        } else {
            Some(text_of(first_piece(v.as_slice(), '/')))
        },
    }
}

/// A name is counted at most once for each tag.
proof fn lemma_uses_bounded(
    tags: Seq<Seq<char>>,
    parent: Option<Seq<char>>,
    recursive: bool,
    name: Seq<char>,
)
    ensures
        uses(tags, parent, recursive, name) <= tags.len(),
    decreases tags.len(),
{
    if tags.len() > 0 {
        lemma_uses_bounded(tags.drop_last(), parent, recursive, name);
    }
}

/// The names that some tags stand below.
fn parents_of(tags: &[String]) -> (r: StringHashSet)
    ensures
        forall|name: Seq<char>| #[trigger] r@.contains(name) <==> has_children(texts(tags@), name),
{
    let ghost all = texts(tags@);
    let mut set = StringHashSet::new();
    let mut n: usize = 0;
    while n < tags.len()
        invariant
            n <= tags@.len(),
            all == texts(tags@),
            forall|name: Seq<char>| #[trigger]
                set@.contains(name) <==> has_children(all.take(n as int), name),
        decreases tags@.len() - n,
    {
        let tag = chars_of(tags[n].as_str());
        let ghost before = set@;
        let mut p: usize = 0;
        while p < tag.len()
            invariant
                p <= tag@.len(),
                forall|name: Seq<char>| #[trigger]
                    set@.contains(name) <==> before.contains(name) || exists|q: int|
                        0 <= q < p && #[trigger] tag@[q] == '/' && tag@.take(q) == name,
            decreases tag@.len() - p,
        {
            let ghost had = set@;
            if tag[p] == '/' {
                let name = text_of(slice_subrange(tag.as_slice(), 0, p));
                assert(name@ =~= tag@.take(p as int));
                set.insert(name);
            }
            proof {
                assert forall|name: Seq<char>| #[trigger] set@.contains(name) <==> before.contains(
                    name,
                ) || exists|q: int|
                    0 <= q < p + 1 && #[trigger] tag@[q] == '/' && tag@.take(q) == name by {
                    assert(had.contains(name) <==> before.contains(name) || exists|q: int|
                        0 <= q < p && #[trigger] tag@[q] == '/' && tag@.take(q) == name);
                    if tag@[p as int] == '/' && tag@.take(p as int) == name {
                        assert(set@.contains(name));
                    }
                    if set@.contains(name) && !had.contains(name) {
                        assert(tag@[p as int] == '/');
                    }
                }
            }
            p = p + 1;
        }
        proof {
            let next = all.take(n + 1);
            assert(tag@ == all[n as int]);
            assert forall|name: Seq<char>| #[trigger] set@.contains(name) <==> has_children(
                next,
                name,
            ) by {
                assert(before.contains(name) <==> has_children(all.take(n as int), name));
                if before.contains(name) {
                    let i = choose|i: int|
                        0 <= i < all.take(n as int).len() && name.push('/').is_prefix_of(
                            #[trigger] all.take(n as int)[i],
                        );
                    assert(name.push('/').is_prefix_of(next[i]));
                }
                if exists|q: int|
                    0 <= q < tag@.len() && #[trigger] tag@[q] == '/' && tag@.take(q) == name {
                    let q = choose|q: int|
                        0 <= q < tag@.len() && #[trigger] tag@[q] == '/' && tag@.take(q) == name;
                    assert(name.push('/') =~= tag@.take(q + 1));
                    assert(name.push('/').is_prefix_of(next[n as int]));
                }
                if has_children(next, name) {
                    let i = choose|i: int|
                        0 <= i < next.len() && name.push('/').is_prefix_of(#[trigger] next[i]);
                    if i < n {
                        assert(name.push('/').is_prefix_of(all.take(n as int)[i]));
                    } else {
                        let q = name.len() as int;
                        assert(tag@[q] == name.push('/')[q]);
                        assert(tag@.take(q) =~= name) by {
                            assert forall|k: int| 0 <= k < q implies tag@[k] == name[k] by {
                                assert(tag@[k] == name.push('/')[k]);
                            }
                        }
                    }
                }
            }
        }
        n = n + 1;
    }
    assert(all.take(n as int) =~= all);
    set
}

/// The lines of a listing, in no particular order.
fn tally(tags: &[String], parent: &Option<String>, recursive: bool) -> (r: Vec<TagRow>)
    ensures
        ({
            let rows = rows_view(r@);
            let all = texts(tags@);
            let p = opt_text(*parent);
            &&& forall|i: int, j: int|
                0 <= i < j < rows.len() ==> (#[trigger] rows[i]).name != (#[trigger] rows[j]).name
            &&& forall|i: int|
                0 <= i < rows.len() ==> {
                    &&& (#[trigger] rows[i]).count > 0
                    &&& rows[i].count == uses(all, p, recursive, rows[i].name)
                    &&& rows[i].has_children == has_children(all, rows[i].name)
                }
            &&& forall|name: Seq<char>| #[trigger]
                uses(all, p, recursive, name) > 0 ==> exists|i: int|
                    0 <= i < rows.len() && (#[trigger] rows[i]).name == name
        }),
{
    let ghost all = texts(tags@);
    let ghost par = opt_text(*parent);
    let parents = parents_of(tags);
    let mut rows: Vec<TagRow> = Vec::new();
    let mut place: StringHashMap<usize> = StringHashMap::new();
    let mut n: usize = 0;
    while n < tags.len()
        invariant
            n <= tags@.len(),
            all == texts(tags@),
            par == opt_text(*parent),
            forall|name: Seq<char>| #[trigger]
                parents@.contains(name) <==> has_children(all, name),
            forall|name: Seq<char>| #[trigger]
                place@.contains_key(name) <==> uses(all.take(n as int), par, recursive, name) > 0,
            forall|name: Seq<char>| #[trigger]
                place@.contains_key(name) ==> place@[name] < rows@.len() && rows@[place@[name]
                    as int].name@ == name,
            forall|i: int|
                0 <= i < rows@.len() ==> {
                    &&& place@.contains_key((#[trigger] rows@[i]).name@)
                    &&& place@[rows@[i].name@] == i
                    &&& rows@[i].count == uses(all.take(n as int), par, recursive, rows@[i].name@)
                    &&& rows@[i].has_children == has_children(all, rows@[i].name@)
                },
        decreases tags@.len() - n,
    {
        let ghost now = all.take(n as int);
        let ghost next = all.take(n + 1);
        let ghost rows0 = rows@;
        let ghost place0 = place@;
        proof {
            assert(next.drop_last() =~= now);
            assert(next.last() == tags@[n as int]@);
        }
        match key_of(tags[n].as_str(), parent, recursive) {
            Some(key) => {
                let ghost k = key@;
                match place.get(key.as_str()) {
                    Some(p) => {
                        let at: usize = *p;
                        proof {
                            lemma_uses_bounded(now, par, recursive, k);
                        }
                        let count: usize = rows[at].count + 1;
                        let inner = rows[at].has_children;
                        rows.set(at, TagRow { name: key, count, has_children: inner });
                        proof {
                            assert forall|i: int| 0 <= i < rows@.len() implies {
                                &&& place@.contains_key((#[trigger] rows@[i]).name@)
                                &&& place@[rows@[i].name@] == i
                                &&& rows@[i].count == uses(next, par, recursive, rows@[i].name@)
                                &&& rows@[i].has_children == has_children(all, rows@[i].name@)
                            } by {
                                assert(rows0[i].name@ == rows@[i].name@);
                                assert(place0.contains_key(rows0[i].name@));
                            }
                        }
                    },
                    None => {
                        let inner = parents.contains(key.as_str());
                        let at: usize = rows.len();
                        place.insert(key.clone(), at);
                        rows.push(TagRow { name: key, count: 1, has_children: inner });
                        proof {
                            assert(!place0.contains_key(k));
                            assert forall|i: int| 0 <= i < rows@.len() implies {
                                &&& place@.contains_key((#[trigger] rows@[i]).name@)
                                &&& place@[rows@[i].name@] == i
                                &&& rows@[i].count == uses(next, par, recursive, rows@[i].name@)
                                &&& rows@[i].has_children == has_children(all, rows@[i].name@)
                            } by {
                                if i < rows0.len() {
                                    assert(rows0[i].name@ == rows@[i].name@);
                                    assert(place0.contains_key(rows0[i].name@));
                                }
                            }
                            assert forall|name: Seq<char>| #[trigger]
                                place@.contains_key(name) implies place@[name] < rows@.len()
                                && rows@[place@[name] as int].name@ == name by {
                                if name != k {
                                    assert(place0.contains_key(name));
                                }
                            }
                            assert forall|name: Seq<char>| #[trigger]
                                place@.contains_key(name) <==> uses(next, par, recursive, name)
                                    > 0 by {
                                assert(place0.contains_key(name) <==> uses(
                                    now,
                                    par,
                                    recursive,
                                    name,
                                ) > 0);
                            }
                        }
                    },
                }
            },
            None => {},
        }
        n = n + 1;
    }
    assert(all.take(n as int) =~= all);
    proof {
        let view = rows_view(rows@);
        assert forall|i: int, j: int| 0 <= i < j < view.len() implies (#[trigger] view[i]).name != (
        #[trigger] view[j]).name by {
            assert(place@[rows@[i].name@] == i);
            assert(place@[rows@[j].name@] == j);
        }
        assert forall|i: int| 0 <= i < view.len() implies {
            &&& (#[trigger] view[i]).count > 0
            &&& view[i].count == uses(all, par, recursive, view[i].name)
            &&& view[i].has_children == has_children(all, view[i].name)
        } by {
            assert(place@.contains_key(rows@[i].name@));
        }
        assert forall|name: Seq<char>| #[trigger]
            uses(all, par, recursive, name) > 0 implies exists|i: int|
            0 <= i < view.len() && (#[trigger] view[i]).name == name by {
            assert(place@.contains_key(name));
            assert(view[place@[name] as int].name == name);
        }
    }
    rows
}

// ---------- listing ----------

/// Does the line `a` come before `b` in a listing?
fn row_precedes(a: &TagRow, b: &TagRow) -> (r: bool)
    ensures
        r == a@.precedes(b@),
{
    a.count > b.count || a.count == b.count && text_before(a.name.as_str(), b.name.as_str())
}

/// The order of listings is transitive.
proof fn lemma_precedes_transitive(a: TagUse, b: TagUse, c: TagUse)
    requires
        a.precedes(b),
        b.precedes(c),
    ensures
        a.precedes(c),
{
    if a.count == b.count && b.count == c.count {
        text_less_is_transitive(a.name, b.name, c.name);
    }
}

/// Of two lines with different names exactly one comes before the other.
proof fn lemma_precedes_total(a: TagUse, b: TagUse)
    ensures
        a.name != b.name ==> (a.precedes(b) <==> !b.precedes(a)),
        !a.precedes(a),
{
    text_less_is_total(a.name, b.name);
    text_less_is_total(a.name, a.name);
}

/// Are the lines in the order of listings?
spec fn in_order(rows: Seq<TagUse>) -> bool {
    forall|i: int, j: int|
        0 <= i < j < rows.len() ==> (#[trigger] rows[i]).precedes(#[trigger] rows[j])
}

/// Puts a line where it belongs in a listing.
fn insert_row(sorted: &mut Vec<TagRow>, row: TagRow)
    requires
        in_order(rows_view(old(sorted)@)),
        forall|i: int|
            0 <= i < old(sorted)@.len() ==> (#[trigger] rows_view(old(sorted)@)[i]).name
                != row.name@,
    ensures
        in_order(rows_view(final(sorted)@)),
        forall|u: TagUse| #[trigger]
            rows_view(final(sorted)@).contains(u) <==> u == row@ || rows_view(
                old(sorted)@,
            ).contains(u),
{
    let ghost had = rows_view(sorted@);
    let mut at: usize = 0;
    while at < sorted.len() && row_precedes(&sorted[at], &row)
        invariant
            at <= sorted@.len(),
            had == rows_view(sorted@),
            forall|i: int| 0 <= i < at ==> (#[trigger] had[i]).precedes(row@),
        decreases sorted@.len() - at,
    {
        assert(had[at as int] == sorted@[at as int]@);
        at = at + 1;
    }
    sorted.insert(at, row);
    proof {
        let now = rows_view(sorted@);
        assert(now =~= had.insert(at as int, row@));
        if at < had.len() {
            lemma_precedes_total(had[at as int], row@);
        }
        assert forall|i: int| at <= i < had.len() implies row@.precedes(#[trigger] had[i]) by {
            if i > at {
                lemma_precedes_transitive(row@, had[at as int], had[i]);
            }
        }
        assert forall|i: int, j: int| 0 <= i < j < now.len() implies (
        #[trigger] now[i]).precedes(#[trigger] now[j]) by {
            let a = if i < at {
                i
            } else {
                i - 1
            };
            let b = if j < at {
                j
            } else {
                j - 1
            };
            if i != at && j != at {
                assert(had[a].precedes(had[b]));
            }
        }
        assert forall|u: TagUse| #[trigger] now.contains(u) <==> u == row@ || had.contains(u) by {
            if now.contains(u) {
                let i = choose|i: int| 0 <= i < now.len() && now[i] == u;
                if i < at {
                    assert(had[i] == u);
                } else if i > at {
                    assert(had[i - 1] == u);
                }
            }
            if u == row@ {
                assert(now[at as int] == u);
            }
            if had.contains(u) {
                let i = choose|i: int| 0 <= i < had.len() && had[i] == u;
                if i < at {
                    assert(now[i] == u);
                } else {
                    assert(now[i + 1] == u);
                }
            }
        }
    }
}

/// The listing of the tags.
pub fn tag_listing(tags: &[String], parent: &Option<String>, recursive: bool) -> (r: Vec<TagRow>)
    ensures
        is_tag_listing(rows_view(r@), texts(tags@), opt_text(*parent), recursive),
{
    let mut rest = tally(tags, parent, recursive);
    let ghost all = rows_view(rest@);
    let mut sorted: Vec<TagRow> = Vec::new();
    assert(all.take(rest@.len() as int) =~= all);
    while rest.len() > 0
        invariant
            forall|i: int, j: int|
                0 <= i < j < all.len() ==> (#[trigger] all[i]).name != (#[trigger] all[j]).name,
            rest@.len() <= all.len(),
            rows_view(rest@) == all.take(rest@.len() as int),
            in_order(rows_view(sorted@)),
            forall|u: TagUse| #[trigger]
                rows_view(sorted@).contains(u) <==> all.skip(rest@.len() as int).contains(u),
        decreases rest@.len(),
    {
        let ghost n = rest@.len() as int;
        let ghost rest0 = rest@;
        let ghost had = rows_view(sorted@);
        match rest.pop() {
            Some(row) => {
                assert(row@ == all[n - 1]) by {
                    assert(rows_view(rest0)[n - 1] == row@);
                }
                assert forall|i: int| 0 <= i < sorted@.len() implies (#[trigger] had[i]).name
                    != row.name@ by {
                    assert(had.contains(had[i]));
                    let k = choose|k: int|
                        0 <= k < all.skip(n).len() && all.skip(n)[k] == had[i];
                    assert(all[n + k] == had[i]);
                }
                insert_row(&mut sorted, row);
                proof {
                    assert(rows_view(rest@) =~= all.take(n - 1));
                    let left = all.skip(n);
                    let now = all.skip(n - 1);
                    assert forall|u: TagUse| #[trigger]
                        rows_view(sorted@).contains(u) <==> now.contains(u) by {
                        assert(had.contains(u) <==> left.contains(u));
                        if left.contains(u) {
                            let k = choose|k: int| 0 <= k < left.len() && left[k] == u;
                            assert(now[k + 1] == u);
                        }
                        if u == all[n - 1] {
                            assert(now[0] == u);
                        }
                        if now.contains(u) {
                            let k = choose|k: int| 0 <= k < now.len() && now[k] == u;
                            if k > 0 {
                                assert(left[k - 1] == u);
                            }
                        }
                    }
                }
            },
            None => {},
        }
    }
    proof {
        let rows = rows_view(sorted@);
        assert(all.skip(0) =~= all);
        assert forall|i: int| 0 <= i < rows.len() implies {
            &&& (#[trigger] rows[i]).count > 0
            &&& rows[i].count == uses(texts(tags@), opt_text(*parent), recursive, rows[i].name)
            &&& rows[i].has_children == has_children(texts(tags@), rows[i].name)
        } by {
            assert(rows.contains(rows[i]));
            let k = choose|k: int| 0 <= k < all.len() && all[k] == rows[i];
            assert(all[k].count > 0);
        }
        assert forall|name: Seq<char>| #[trigger]
            uses(texts(tags@), opt_text(*parent), recursive, name) > 0 implies exists|i: int|
            0 <= i < rows.len() && (#[trigger] rows[i]).name == name by {
            let k = choose|k: int| 0 <= k < all.len() && (#[trigger] all[k]).name == name;
            assert(all.contains(all[k]));
            assert(rows.contains(all[k]));
            let i = choose|i: int| 0 <= i < rows.len() && rows[i] == all[k];
            assert(rows[i].name == name);
        }
    }
    sorted
}

impl TagRow {
    /// The line as JSON.
    pub fn json(&self) -> (r: Json)
        ensures
            r@ == self@.value(),
    {
        let mut entry = no_members();
        put_text(&mut entry, "name", self.name.as_str());
        put(&mut entry, "count", Json::Number(decimal_u64(self.count as u64)));
        let ghost base = seq![
            ("name"@, JsonValue::Text(self@.name)),
            ("count"@, JsonValue::Number(decimal(self@.count))),
        ];
        assert(members(entry@) =~= base);
        if self.has_children {
            put(&mut entry, "hasChildren", Json::Bool(true));
        }
        Json::object(entry)
    }
}

/// A listing as JSON.
pub fn listing_json(rows: &[TagRow]) -> (r: Json)
    ensures
        r@ == listing_value(rows_view(rows@)),
{
    let ghost values = rows_view(rows@).map_values(|u: TagUse| u.value());
    let mut list: Vec<Json> = Vec::new();
    let mut i: usize = 0;
    assert(items(list@) =~= values.take(0));
    while i < rows.len()
        invariant
            i <= rows@.len(),
            values == rows_view(rows@).map_values(|u: TagUse| u.value()),
            items(list@) == values.take(i as int),
        decreases rows@.len() - i,
    {
        let ghost had = items(list@);
        list.push(rows[i].json());
        assert(items(list@) =~= had.push(rows@[i as int]@.value()));
        assert(items(list@) =~= values.take(i + 1));
        i = i + 1;
    }
    assert(values.take(i as int) =~= values);
    let mut entry = no_members();
    put(&mut entry, "tags", Json::array(list));
    assert(members(entry@) =~= seq![("tags"@, JsonValue::Array(values))]);
    Json::object(entry)
}

// ---------- laws ----------

/// The tags of two lists of memos are those of the one, and then those of the
/// other, so that it does not matter how a listing is cut into pages.
pub proof fn tags_of_joined_lists(a: Seq<JsonValue>, b: Seq<JsonValue>)
    ensures
        all_tags(a + b) == all_tags(a) + all_tags(b),
    decreases b.len(),
{
    if b.len() == 0 {
        assert(a + b =~= a);
        assert(all_tags(a) + all_tags(b) =~= all_tags(a));
    } else {
        tags_of_joined_lists(a, b.drop_last());
        assert((a + b).drop_last() =~= a + b.drop_last());
        assert((a + b).last() == b.last());
        let last = only_texts(b.last().array_at("tags"@));
        assert(all_tags(a) + all_tags(b.drop_last()) + last =~= all_tags(a) + (all_tags(
            b.drop_last(),
        ) + last));
    }
}

/// Lists in the order of listings that hold the same lines are the same.
proof fn lemma_in_order_unique(a: Seq<TagUse>, b: Seq<TagUse>)
    requires
        in_order(a),
        in_order(b),
        forall|u: TagUse| #[trigger] a.contains(u) <==> b.contains(u),
    ensures
        a == b,
    decreases a.len(),
{
    if a.len() == 0 {
        if b.len() > 0 {
            assert(b.contains(b[0]));
            assert(a.contains(b[0]));
        }
        assert(a =~= b);
    } else {
        assert(a.contains(a[0]));
        assert(b.contains(a[0]));
        let j = choose|j: int| 0 <= j < b.len() && b[j] == a[0];
        assert(b.contains(b[0]));
        assert(a.contains(b[0]));
        let i = choose|i: int| 0 <= i < a.len() && a[i] == b[0];
        if i > 0 && j > 0 {
            assert(a[0].precedes(a[i]));
            assert(b[0].precedes(b[j]));
            lemma_precedes_transitive(a[0], b[0], a[0]);
            lemma_precedes_total(a[0], a[0]);
        }
        assert(a[0] == b[0]);
        let x = a.drop_first();
        let y = b.drop_first();
        assert forall|u: TagUse| #[trigger] x.contains(u) <==> y.contains(u) by {
            lemma_precedes_total(a[0], a[0]);
            if x.contains(u) {
                let k = choose|k: int| 0 <= k < x.len() && x[k] == u;
                assert(a[k + 1] == u);
                assert(a[0].precedes(a[k + 1]));
                assert(a.contains(u));
                assert(b.contains(u));
                let m = choose|m: int| 0 <= m < b.len() && b[m] == u;
                assert(y[m - 1] == u);
            }
            if y.contains(u) {
                let k = choose|k: int| 0 <= k < y.len() && y[k] == u;
                assert(b[k + 1] == u);
                assert(b[0].precedes(b[k + 1]));
                assert(b.contains(u));
                assert(a.contains(u));
                let m = choose|m: int| 0 <= m < a.len() && a[m] == u;
                assert(x[m - 1] == u);
            }
        }
        assert forall|i: int, j: int| 0 <= i < j < x.len() implies (#[trigger] x[i]).precedes(
            #[trigger] x[j],
        ) by {
            assert(a[i + 1].precedes(a[j + 1]));
        }
        assert forall|i: int, j: int| 0 <= i < j < y.len() implies (#[trigger] y[i]).precedes(
            #[trigger] y[j],
        ) by {
            assert(b[i + 1].precedes(b[j + 1]));
        }
        lemma_in_order_unique(x, y);
        assert(a =~= seq![a[0]] + x);
        assert(b =~= seq![b[0]] + y);
    }
}

/// A listing is determined by the tags and by what was asked for.
pub proof fn tag_listing_is_unique(
    a: Seq<TagUse>,
    b: Seq<TagUse>,
    tags: Seq<Seq<char>>,
    parent: Option<Seq<char>>,
    recursive: bool,
)
    requires
        is_tag_listing(a, tags, parent, recursive),
        is_tag_listing(b, tags, parent, recursive),
    ensures
        a == b,
{
    assert forall|u: TagUse| #[trigger] a.contains(u) <==> b.contains(u) by {
        if a.contains(u) {
            let i = choose|i: int| 0 <= i < a.len() && a[i] == u;
            assert(uses(tags, parent, recursive, a[i].name) > 0);
            let j = choose|j: int| 0 <= j < b.len() && (#[trigger] b[j]).name == a[i].name;
            assert(b[j] == u);
        }
        if b.contains(u) {
            let i = choose|i: int| 0 <= i < b.len() && b[i] == u;
            assert(uses(tags, parent, recursive, b[i].name) > 0);
            let j = choose|j: int| 0 <= j < a.len() && (#[trigger] a[j]).name == b[i].name;
            assert(a[j] == u);
        }
    }
    lemma_in_order_unique(a, b);
}

/// The counts of a listing, added up.
pub open spec fn total(rows: Seq<TagUse>) -> nat
    decreases rows.len(),
{
    if rows.len() == 0 {
        0
    } else {
        total(rows.drop_last()) + rows.last().count
    }
}

/// How many of the tags count for some name.
pub open spec fn counted(
    tags: Seq<Seq<char>>,
    parent: Option<Seq<char>>,
    recursive: bool,
) -> nat
    decreases tags.len(),
{
    if tags.len() == 0 {
        0
    } else {
        counted(tags.drop_last(), parent, recursive) + if tag_key(
            tags.last(),
            parent,
            recursive,
        ) is Some {
            1nat
        } else {
            0
        }
    }
}

/// The uses of several names, added up.
spec fn sum_uses(
    rows: Seq<TagUse>,
    tags: Seq<Seq<char>>,
    parent: Option<Seq<char>>,
    recursive: bool,
) -> nat
    decreases rows.len(),
{
    if rows.len() == 0 {
        0
    } else {
        sum_uses(rows.drop_last(), tags, parent, recursive) + uses(
            tags,
            parent,
            recursive,
            rows.last().name,
        )
    }
}

/// One more tag adds one to the sum where some line has its name, and nothing
/// where none has.
proof fn lemma_sum_step(
    rows: Seq<TagUse>,
    tags: Seq<Seq<char>>,
    parent: Option<Seq<char>>,
    recursive: bool,
)
    requires
        tags.len() > 0,
        forall|i: int, j: int|
            0 <= i < j < rows.len() ==> (#[trigger] rows[i]).name != (#[trigger] rows[j]).name,
    ensures
        ({
            let key = tag_key(tags.last(), parent, recursive);
            let found = exists|i: int|
                0 <= i < rows.len() && Some((#[trigger] rows[i]).name) == key;
            sum_uses(rows, tags, parent, recursive) == sum_uses(
                rows,
                tags.drop_last(),
                parent,
                recursive,
            ) + if found {
                1nat
            } else {
                0
            }
        }),
    decreases rows.len(),
{
    let key = tag_key(tags.last(), parent, recursive);
    if rows.len() > 0 {
        let rest = rows.drop_last();
        assert forall|i: int, j: int| 0 <= i < j < rest.len() implies (#[trigger] rest[i]).name != (
        #[trigger] rest[j]).name by {
            assert(rows[i].name != rows[j].name);
        }
        lemma_sum_step(rest, tags, parent, recursive);
        if exists|i: int| 0 <= i < rest.len() && Some((#[trigger] rest[i]).name) == key {
            let i = choose|i: int| 0 <= i < rest.len() && Some((#[trigger] rest[i]).name) == key;
            assert(Some(rows[i].name) == key);
            assert(rows[i].name != rows[rows.len() - 1].name);
        } else if Some(rows.last().name) == key {
            assert(Some(rows[rows.len() - 1].name) == key);
        } else {
            assert forall|i: int| 0 <= i < rows.len() implies Some((#[trigger] rows[i]).name)
                != key by {
                if i < rest.len() {
                    assert(Some(rest[i].name) != key);
                }
            }
        }
    }
}

/// Where each tag that counts has a line, and no two lines share a name, the
/// uses of the lines' names add up to the tags that count.
proof fn lemma_sum_uses(
    rows: Seq<TagUse>,
    tags: Seq<Seq<char>>,
    parent: Option<Seq<char>>,
    recursive: bool,
)
    requires
        forall|i: int, j: int|
            0 <= i < j < rows.len() ==> (#[trigger] rows[i]).name != (#[trigger] rows[j]).name,
        forall|name: Seq<char>| #[trigger]
            uses(tags, parent, recursive, name) > 0 ==> exists|i: int|
                0 <= i < rows.len() && (#[trigger] rows[i]).name == name,
    ensures
        sum_uses(rows, tags, parent, recursive) == counted(tags, parent, recursive),
    decreases tags.len(),
{
    if tags.len() == 0 {
        lemma_sum_of_none(rows, tags, parent, recursive);
    } else {
        assert forall|name: Seq<char>| #[trigger]
            uses(tags.drop_last(), parent, recursive, name) > 0 implies exists|i: int|
            0 <= i < rows.len() && (#[trigger] rows[i]).name == name by {
            assert(uses(tags, parent, recursive, name) > 0);
        }
        lemma_sum_uses(rows, tags.drop_last(), parent, recursive);
        lemma_sum_step(rows, tags, parent, recursive);
        let key = tag_key(tags.last(), parent, recursive);
        if key is Some {
            assert(uses(tags, parent, recursive, key->0) > 0);
            let i = choose|i: int| 0 <= i < rows.len() && (#[trigger] rows[i]).name == key->0;
            assert(Some(rows[i].name) == key);
        }
    }
}

/// No tags, no uses.
proof fn lemma_sum_of_none(
    rows: Seq<TagUse>,
    tags: Seq<Seq<char>>,
    parent: Option<Seq<char>>,
    recursive: bool,
)
    requires
        tags.len() == 0,
    ensures
        sum_uses(rows, tags, parent, recursive) == 0,
    decreases rows.len(),
{
    if rows.len() > 0 {
        lemma_sum_of_none(rows.drop_last(), tags, parent, recursive);
    }
}

/// The counts of lines that state their names' uses add up to those uses.
proof fn lemma_total(
    rows: Seq<TagUse>,
    tags: Seq<Seq<char>>,
    parent: Option<Seq<char>>,
    recursive: bool,
)
    requires
        forall|i: int|
            0 <= i < rows.len() ==> (#[trigger] rows[i]).count == uses(
                tags,
                parent,
                recursive,
                rows[i].name,
            ),
    ensures
        total(rows) == sum_uses(rows, tags, parent, recursive),
    decreases rows.len(),
{
    if rows.len() > 0 {
        let rest = rows.drop_last();
        assert forall|i: int| 0 <= i < rest.len() implies (#[trigger] rest[i]).count == uses(
            tags,
            parent,
            recursive,
            rest[i].name,
        ) by {
            assert(rows[i].count == uses(tags, parent, recursive, rows[i].name));
        }
        lemma_total(rest, tags, parent, recursive);
        assert(rows[rows.len() - 1].count == uses(tags, parent, recursive, rows.last().name));
    }
}

/// The counts of a listing add up to the tags that count: each of them counts
/// for one line.
pub proof fn listing_counts_every_tag_once(
    rows: Seq<TagUse>,
    tags: Seq<Seq<char>>,
    parent: Option<Seq<char>>,
    recursive: bool,
)
    requires
        is_tag_listing(rows, tags, parent, recursive),
    ensures
        total(rows) == counted(tags, parent, recursive),
{
    assert forall|i: int, j: int| 0 <= i < j < rows.len() implies (#[trigger] rows[i]).name != (
    #[trigger] rows[j]).name by {
        assert(rows[i].precedes(rows[j]));
        text_less_is_total(rows[i].name, rows[j].name);
    }
    lemma_sum_uses(rows, tags, parent, recursive);
    lemma_total(rows, tags, parent, recursive);
}

/// Without a parent every tag counts.
pub proof fn every_tag_counts_without_parent(tags: Seq<Seq<char>>, recursive: bool)
    ensures
        counted(tags, None, recursive) == tags.len(),
    decreases tags.len(),
{
    if tags.len() > 0 {
        every_tag_counts_without_parent(tags.drop_last(), recursive);
    }
}

/// A name is used exactly where some tag counts for it.
proof fn lemma_used(
    tags: Seq<Seq<char>>,
    parent: Option<Seq<char>>,
    recursive: bool,
    name: Seq<char>,
)
    ensures
        uses(tags, parent, recursive, name) > 0 <==> exists|i: int|
            0 <= i < tags.len() && tag_key(#[trigger] tags[i], parent, recursive) == Some(name),
    decreases tags.len(),
{
    if tags.len() > 0 {
        let rest = tags.drop_last();
        lemma_used(rest, parent, recursive, name);
        if exists|i: int|
            0 <= i < rest.len() && tag_key(#[trigger] rest[i], parent, recursive) == Some(name) {
            let i = choose|i: int|
                0 <= i < rest.len() && tag_key(#[trigger] rest[i], parent, recursive) == Some(name);
            assert(tag_key(tags[i], parent, recursive) == Some(name));
        }
        if exists|i: int|
            0 <= i < tags.len() && tag_key(#[trigger] tags[i], parent, recursive) == Some(name) {
            let i = choose|i: int|
                0 <= i < tags.len() && tag_key(#[trigger] tags[i], parent, recursive) == Some(name);
            if i < rest.len() {
                assert(tag_key(rest[i], parent, recursive) == Some(name));
            }
        }
        if tag_key(tags.last(), parent, recursive) == Some(name) {
            assert(tag_key(tags[tags.len() - 1], parent, recursive) == Some(name));
        }
    }
}

/// A recursive listing without a parent has a line for every tag, and for
/// nothing else.
pub proof fn recursive_listing_has_every_tag(
    rows: Seq<TagUse>,
    tags: Seq<Seq<char>>,
    name: Seq<char>,
)
    requires
        is_tag_listing(rows, tags, None, true),
    ensures
        tags.contains(name) <==> exists|i: int|
            0 <= i < rows.len() && (#[trigger] rows[i]).name == name,
{
    lemma_used(tags, None, true, name);
    if tags.contains(name) {
        let k = choose|k: int| 0 <= k < tags.len() && tags[k] == name;
        assert(tag_key(tags[k], None, true) == Some(name));
    }
    if exists|i: int| 0 <= i < rows.len() && (#[trigger] rows[i]).name == name {
        let i = choose|i: int| 0 <= i < rows.len() && (#[trigger] rows[i]).name == name;
        let k = choose|k: int|
            0 <= k < tags.len() && tag_key(#[trigger] tags[k], None, true) == Some(name);
        assert(tags[k] == name);
    }
}

/// A listing without a parent that is not recursive has top-level tags only:
/// what stands before the first `/` of some tag.
pub proof fn plain_listing_has_top_level_tags(
    rows: Seq<TagUse>,
    tags: Seq<Seq<char>>,
    i: int,
)
    requires
        is_tag_listing(rows, tags, None, false),
        0 <= i < rows.len(),
    ensures
        !rows[i].name.contains('/'),
        exists|k: int| 0 <= k < tags.len() && split(#[trigger] tags[k], '/')[0] == rows[i].name,
{
    let name = rows[i].name;
    lemma_used(tags, None, false, name);
    let k = choose|k: int|
        0 <= k < tags.len() && tag_key(#[trigger] tags[k], None, false) == Some(name);
    assert(split(tags[k], '/')[0] == name);
    lemma_first_piece_clean(tags[k], '/');
}

/// Under a parent every line of a listing stands below it, and, unless the
/// listing is recursive, one level below it.
pub proof fn listing_stands_below_its_parent(
    rows: Seq<TagUse>,
    tags: Seq<Seq<char>>,
    parent: Seq<char>,
    recursive: bool,
    i: int,
)
    requires
        is_tag_listing(rows, tags, Some(parent), recursive),
        0 <= i < rows.len(),
    ensures
        parent.push('/').is_prefix_of(rows[i].name),
        !recursive ==> !rows[i].name.skip(parent.len() as int + 1).contains('/'),
{
    let name = rows[i].name;
    let prefix = parent.push('/');
    lemma_used(tags, Some(parent), recursive, name);
    let k = choose|k: int|
        0 <= k < tags.len() && tag_key(#[trigger] tags[k], Some(parent), recursive) == Some(name);
    if !recursive {
        let rest = tags[k].skip(prefix.len() as int);
        lemma_first_piece_clean(rest, '/');
        assert(name.skip(parent.len() as int + 1) =~= split(rest, '/')[0]);
    }
}

// ---------- laws on what is counted ----------

/// Does the tag stand under the parent? Without a parent every tag does.
pub open spec fn stands_under(parent: Option<Seq<char>>, tag: Seq<char>) -> bool {
    parent matches Some(p) ==> p.push('/').is_prefix_of(tag)
}

/// The part of a tag that comes after the parent and its `/`.
pub open spec fn part_under(parent: Option<Seq<char>>, tag: Seq<char>) -> Seq<char> {
    match parent {
        Some(p) => tag.skip(p.len() as int + 1),
        None => tag,
    }
}

/// Is the tag this name, or one below it?
pub open spec fn at_or_below(name: Seq<char>, tag: Seq<char>) -> bool {
    tag == name || name.push('/').is_prefix_of(tag)
}

/// What a tag counts for, whatever the parent: nothing where the tag does not stand
/// under the parent; the tag itself in a recursive listing; else the one name that
/// the tag is at or below and that stands exactly one level under the parent.
pub proof fn tags_count_for_the_level_under_the_parent(
    tag: Seq<char>,
    parent: Option<Seq<char>>,
    recursive: bool,
    name: Seq<char>,
)
    ensures
        tag_key(tag, parent, recursive) is Some <==> stands_under(parent, tag),
        recursive && stands_under(parent, tag) ==> tag_key(tag, parent, recursive) == Some(tag),
        !recursive ==> (tag_key(tag, parent, recursive) == Some(name) <==> stands_under(parent, tag)
            && stands_under(parent, name) && at_or_below(name, tag) && !part_under(
            parent,
            name,
        ).contains('/')),
{
    if !recursive {
        match parent {
            None => lemma_first_piece_exact(tag, name),
            Some(p) => {
                let prefix = p.push('/');
                if prefix.is_prefix_of(tag) {
                    let rest = tag.skip(prefix.len() as int);
                    let key = prefix + split(rest, '/')[0];
                    assert(tag =~= prefix + rest);
                    if prefix.is_prefix_of(name) {
                        let tail = name.skip(prefix.len() as int);
                        assert(name =~= prefix + tail);
                        lemma_first_piece_exact(rest, tail);
                        assert(key == name <==> split(rest, '/')[0] == tail) by {
                            if key == name {
                                assert(key.skip(prefix.len() as int) =~= split(rest, '/')[0]);
                            }
                        }
                        lemma_below_under(prefix, tail, rest);
                    } else {
                        assert(prefix.is_prefix_of(key));
                    }
                }
            },
        }
    }
}

/// The first piece of a text is the one text without `/` that it is at or below.
proof fn lemma_first_piece_exact(tag: Seq<char>, name: Seq<char>)
    ensures
        split(tag, '/')[0] == name <==> at_or_below(name, tag) && !name.contains('/'),
{
    lemma_first_piece_clean(tag, '/');
    let piece = split(tag, '/')[0];
    if tag.contains('/') {
        lemma_first_piece_ends(tag, '/');
        let n = lemma_first_at(tag, '/');
        lemma_first_piece(tag, '/', n);
        assert(piece.push('/') =~= tag.take(n + 1));
        assert(piece.push('/').is_prefix_of(tag));
    } else {
        assert forall|j: int| 0 <= j < tag.len() implies tag[j] != '/' by {
            assert(tag.contains(tag[j]));
        }
        lemma_unsplit(tag, '/');
    }
    if at_or_below(name, tag) && !name.contains('/') {
        let n = name.len() as int;
        assert(name =~= tag.take(n)) by {
            if tag != name {
                assert forall|j: int| 0 <= j < n implies name[j] == tag[j] by {
                    assert(name.push('/')[j] == tag[j]);
                }
            }
        }
        if tag != name {
            assert(name.push('/')[n] == tag[n]);
        }
        assert forall|j: int| 0 <= j < n implies tag[j] != '/' by {
            assert(name.contains(name[j]));
            assert(name[j] == tag[j]);
        }
        lemma_first_piece(tag, '/', n);
    }
}

/// A common front makes no difference to what is at or below what.
proof fn lemma_below_under(front: Seq<char>, name: Seq<char>, tag: Seq<char>)
    ensures
        at_or_below(front + name, front + tag) <==> at_or_below(name, tag),
{
    let a = front + name;
    let b = front + tag;
    if a == b {
        assert(a.skip(front.len() as int) =~= name);
        assert(b.skip(front.len() as int) =~= tag);
    }
    if a.push('/').is_prefix_of(b) {
        assert forall|j: int| 0 <= j < name.push('/').len() implies name.push('/')[j] == tag[j] by {
            assert(a.push('/')[front.len() + j] == b[front.len() + j]);
        }
        assert(name.push('/') =~= tag.take(name.len() as int + 1));
    }
    if name.push('/').is_prefix_of(tag) {
        assert forall|j: int| 0 <= j < a.push('/').len() implies a.push('/')[j] == b[j] by {
            if j >= front.len() {
                assert(name.push('/')[j - front.len()] == tag[j - front.len()]);
            }
        }
        assert(a.push('/') =~= b.take(a.len() as int + 1));
    }
}

/// The uses of a name are the tags that count for it.
proof fn lemma_uses_filter(
    tags: Seq<Seq<char>>,
    parent: Option<Seq<char>>,
    recursive: bool,
    name: Seq<char>,
    pred: spec_fn(Seq<char>) -> bool,
)
    requires
        forall|i: int|
            0 <= i < tags.len() ==> (pred(#[trigger] tags[i]) <==> tag_key(
                tags[i],
                parent,
                recursive,
            ) == Some(name)),
    ensures
        uses(tags, parent, recursive, name) == tags.filter(pred).len(),
    decreases tags.len(),
{
    reveal(Seq::filter);
    if tags.len() > 0 {
        let rest = tags.drop_last();
        assert forall|i: int| 0 <= i < rest.len() implies (pred(#[trigger] rest[i]) <==> tag_key(
            rest[i],
            parent,
            recursive,
        ) == Some(name)) by {
            assert(rest[i] == tags[i]);
        }
        lemma_uses_filter(rest, parent, recursive, name, pred);
        assert(pred(tags[tags.len() - 1]) <==> tag_key(tags.last(), parent, recursive) == Some(
            name,
        ));
    }
}

/// A line's count is the number of tags that are its name, or, unless the listing is
/// recursive, that are its name or below it.
pub proof fn lines_count_their_tags(
    rows: Seq<TagUse>,
    tags: Seq<Seq<char>>,
    parent: Option<Seq<char>>,
    recursive: bool,
    i: int,
)
    requires
        is_tag_listing(rows, tags, parent, recursive),
        0 <= i < rows.len(),
    ensures
        rows[i].count > 0,
        recursive ==> rows[i].count == tags.filter(|t: Seq<char>| t == rows[i].name).len(),
        !recursive ==> rows[i].count == tags.filter(
            |t: Seq<char>| t == rows[i].name || rows[i].name.push('/').is_prefix_of(t),
        ).len(),
{
    let name = rows[i].name;
    let same_tag = |t: Seq<char>| t == rows[i].name;
    let below = |t: Seq<char>| t == rows[i].name || rows[i].name.push('/').is_prefix_of(t);
    lemma_used(tags, parent, recursive, name);
    let k = choose|k: int|
        0 <= k < tags.len() && tag_key(#[trigger] tags[k], parent, recursive) == Some(name);
    tags_count_for_the_level_under_the_parent(tags[k], parent, recursive, name);
    assert(stands_under(parent, name));
    assert forall|j: int| 0 <= j < tags.len() implies (if recursive {
        same_tag(#[trigger] tags[j])
    } else {
        below(tags[j])
    } <==> tag_key(tags[j], parent, recursive) == Some(name)) by {
        tags_count_for_the_level_under_the_parent(tags[j], parent, recursive, name);
        if !recursive && at_or_below(name, tags[j]) {
            lemma_under_below(parent, name, tags[j]);
        }
    }
    if recursive {
        lemma_uses_filter(tags, parent, recursive, name, same_tag);
    } else {
        lemma_uses_filter(tags, parent, recursive, name, below);
    }
}

/// What is at or below what stands under a parent stands under it too.
proof fn lemma_under_below(parent: Option<Seq<char>>, name: Seq<char>, tag: Seq<char>)
    requires
        stands_under(parent, name),
        at_or_below(name, tag),
    ensures
        stands_under(parent, tag),
{
    if let Some(p) = parent {
        let prefix = p.push('/');
        if tag != name {
            assert forall|j: int| 0 <= j < prefix.len() implies prefix[j] == tag[j] by {
                assert(prefix[j] == name[j]);
                assert(name.push('/')[j] == tag[j]);
            }
            assert(prefix =~= tag.take(prefix.len() as int));
        }
    }
}

/// Every tag under the parent has its line: that of the tag itself in a recursive
/// listing, else that of the name one level under the parent that it is at or below.
pub proof fn every_tag_has_its_line(
    rows: Seq<TagUse>,
    tags: Seq<Seq<char>>,
    parent: Option<Seq<char>>,
    recursive: bool,
    k: int,
)
    requires
        is_tag_listing(rows, tags, parent, recursive),
        0 <= k < tags.len(),
        stands_under(parent, tags[k]),
    ensures
        recursive ==> exists|i: int| 0 <= i < rows.len() && (#[trigger] rows[i]).name == tags[k],
        !recursive ==> exists|i: int|
            0 <= i < rows.len() && at_or_below((#[trigger] rows[i]).name, tags[k]) && stands_under(
                parent,
                rows[i].name,
            ) && !part_under(parent, rows[i].name).contains('/'),
{
    let name = tag_key(tags[k], parent, recursive)->0;
    tags_count_for_the_level_under_the_parent(tags[k], parent, recursive, name);
    lemma_used(tags, parent, recursive, name);
    assert(tag_key(tags[k], parent, recursive) == Some(name));
    assert(uses(tags, parent, recursive, name) > 0);
    let i = choose|i: int| 0 <= i < rows.len() && (#[trigger] rows[i]).name == name;
    assert(rows[i].name == name);
}

/// The counts of a listing add up to the number of tags under its parent.
pub proof fn counts_add_up_to_the_tags_under_the_parent(
    rows: Seq<TagUse>,
    tags: Seq<Seq<char>>,
    parent: Option<Seq<char>>,
    recursive: bool,
)
    requires
        is_tag_listing(rows, tags, parent, recursive),
    ensures
        parent is None ==> total(rows) == tags.len(),
        parent matches Some(p) ==> total(rows) == tags.filter(
            |t: Seq<char>| p.push('/').is_prefix_of(t),
        ).len(),
{
    listing_counts_every_tag_once(rows, tags, parent, recursive);
    match parent {
        None => every_tag_counts_without_parent(tags, recursive),
        Some(p) => {
            let pred = |t: Seq<char>| p.push('/').is_prefix_of(t);
            lemma_counted_filter(tags, p, recursive, pred);
        },
    }
}

/// The tags that count under a parent are those that begin with it and `/`.
proof fn lemma_counted_filter(
    tags: Seq<Seq<char>>,
    parent: Seq<char>,
    recursive: bool,
    pred: spec_fn(Seq<char>) -> bool,
)
    requires
        forall|t: Seq<char>| #[trigger] pred(t) <==> parent.push('/').is_prefix_of(t),
    ensures
        counted(tags, Some(parent), recursive) == tags.filter(pred).len(),
    decreases tags.len(),
{
    reveal(Seq::filter);
    if tags.len() > 0 {
        lemma_counted_filter(tags.drop_last(), parent, recursive, pred);
        assert(pred(tags.last()) <==> parent.push('/').is_prefix_of(tags.last()));
    }
}

/// A line says that a name has children exactly where some tag begins with the name
/// and `/`.
pub proof fn lines_tell_of_children(
    rows: Seq<TagUse>,
    tags: Seq<Seq<char>>,
    parent: Option<Seq<char>>,
    recursive: bool,
    i: int,
)
    requires
        is_tag_listing(rows, tags, parent, recursive),
        0 <= i < rows.len(),
    ensures
        rows[i].has_children <==> exists|k: int|
            0 <= k < tags.len() && rows[i].name.push('/').is_prefix_of(#[trigger] tags[k]),
{
}

/// A text comes before another exactly where it is a beginning of it, or where the
/// first character in which they differ is the smaller one.
pub proof fn text_order_is_decided_by_the_first_difference(a: Seq<char>, b: Seq<char>)
    ensures
        text_less(a, b) <==> exists|n: int|
            0 <= n <= a.len() && n < b.len() && #[trigger] a.take(n) == b.take(n) && (n == a.len()
                || a[n] < b[n]),
    decreases a.len(),
{
    if a.len() > 0 && b.len() > 0 && a[0] == b[0] {
        let x = a.drop_first();
        let y = b.drop_first();
        text_order_is_decided_by_the_first_difference(x, y);
        if text_less(x, y) {
            let n = choose|n: int|
                0 <= n <= x.len() && n < y.len() && #[trigger] x.take(n) == y.take(n) && (n
                    == x.len() || x[n] < y[n]);
            assert(a.take(n + 1) =~= seq![a[0]] + x.take(n));
            assert(b.take(n + 1) =~= seq![b[0]] + y.take(n));
        }
        if exists|n: int|
            0 <= n <= a.len() && n < b.len() && #[trigger] a.take(n) == b.take(n) && (n == a.len()
                || a[n] < b[n]) {
            let n = choose|n: int|
                0 <= n <= a.len() && n < b.len() && #[trigger] a.take(n) == b.take(n) && (n
                    == a.len() || a[n] < b[n]);
            assert(x.take(n - 1) =~= a.take(n).drop_first());
            assert(y.take(n - 1) =~= b.take(n).drop_first());
        }
    } else if a.len() > 0 && b.len() > 0 {
        if a[0] < b[0] {
            assert(a.take(0) =~= b.take(0));
        }
        assert forall|n: int| 0 < n <= a.len() && n < b.len() implies #[trigger] a.take(n)
            != b.take(n) by {
            assert(a.take(n)[0] == a[0]);
            assert(b.take(n)[0] == b[0]);
        }
    } else if b.len() > 0 {
        assert(a.take(0) =~= b.take(0));
    }
}

/// A listing goes from the most used to the least used, and among equals by name.
pub proof fn listings_go_by_count_then_name(
    rows: Seq<TagUse>,
    tags: Seq<Seq<char>>,
    parent: Option<Seq<char>>,
    recursive: bool,
    i: int,
    j: int,
)
    requires
        is_tag_listing(rows, tags, parent, recursive),
        0 <= i < j < rows.len(),
    ensures
        rows[i].count >= rows[j].count,
        rows[i].count == rows[j].count ==> text_less(rows[i].name, rows[j].name),
        rows[i].name != rows[j].name,
{
    assert(rows[i].precedes(rows[j]));
    text_less_is_total(rows[i].name, rows[j].name);
    if rows[i].name == rows[j].name {
        assert(rows[i].count == rows[j].count);
    }
}

/// A listing's JSON has one item for each line, in order: its name, its count, and
/// that it has children where it has.
pub proof fn listing_items_are_its_lines(rows: Seq<TagUse>, i: int)
    requires
        0 <= i < rows.len(),
    ensures
        listing_value(rows) matches JsonValue::Object(members) && {
            &&& members.len() == 1
            &&& members[0].0 == "tags"@
            &&& members[0].1 matches JsonValue::Array(list) && list.len() == rows.len() && (
            list[i] matches JsonValue::Object(line) && {
                &&& line.len() == if rows[i].has_children {
                    3int
                } else {
                    2
                }
                &&& line[0] == ("name"@, JsonValue::Text(rows[i].name))
                &&& line[1] == ("count"@, JsonValue::Number(decimal(rows[i].count)))
                &&& rows[i].has_children ==> line[2] == ("hasChildren"@, JsonValue::Bool(true))
            })
        },
{
}

/// The tags of one memo are the texts in its list of tags.
pub proof fn tags_of_one_memo(memo: JsonValue, list: Seq<JsonValue>)
    requires
        memo.get("tags"@) == Some(JsonValue::Array(list)),
    ensures
        all_tags(seq![memo]) == only_texts(list),
        forall|k: int|
            0 <= k < list.len() ==> (#[trigger] list[k] matches JsonValue::Text(t) ==> all_tags(
                seq![memo],
            ).contains(t)),
{
    assert(seq![memo].drop_last() =~= seq![]);
    assert(all_tags(Seq::<JsonValue>::empty()) =~= seq![]);
    assert(all_tags(seq![memo]) =~= only_texts(list));
    assert forall|k: int| 0 <= k < list.len() implies (#[trigger] list[k] matches JsonValue::Text(
        t,
    ) ==> only_texts(list).contains(t)) by {
        if list[k] is Text {
            texts_are_kept(list, k);
        }
    }
}

/// A memo without a list of tags has none.
pub proof fn memos_without_tags_have_none(memo: JsonValue)
    requires
        !(memo.get("tags"@) matches Some(JsonValue::Array(_))),
    ensures
        all_tags(seq![memo]).len() == 0,
{
    assert(seq![memo].drop_last() =~= seq![]);
    assert(all_tags(Seq::<JsonValue>::empty()) =~= seq![]);
    assert(only_texts(memo.array_at("tags"@)) =~= seq![]);
}

} // verus!
