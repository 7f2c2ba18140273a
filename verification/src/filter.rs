//! Tool filtering: readonly / toolsets / names / exclusions.
//!
//! A filter comes from the `X-MCP-*` headers of a request and from the route
//! that it was sent to (`/mcp/readonly`, `/mcp/x/{toolsets}`, ...).

use vstd::hash_set::StringHashSet;
use vstd::prelude::*;

use crate::catalog::{
    admits, admitted, admitted_exactly, exclusions_drop_their_tools, filter_tools,
    lemma_filter_contains, names, names_choose_their_tools, readonly_drops_writing_tools,
    readonly_tools_are_the_gets, restrictions_work_independently, tool_names_are_distinct,
    toolsets_choose_their_tools, CURATED_TOOLS, ToolRow,
};
use crate::headers::{first_value, header_text, header_values};
use crate::memos::ClientView;
use crate::server::{allowed_tools, MemosServer};
use crate::text::{
    all_of, chars_of, concat3, equal, join, join_of_two_lists, join_undoes_split,
    lemma_split_joined, lemma_trim_twice, lemma_unsplit, listed, lower, lower_text, lowered_text,
    opt_text, pieces_of, same, split, split_undoes_join, texts, trim, trim_end,
    trim_keeps_the_middle, trim_start, trim_text, trimmed, CharClass,
};

verus! {

/// Which tools a request sees.
#[derive(Clone, Debug)]
pub struct ToolFilter {
    /// Only the tools that do not write.
    pub readonly: bool,
    /// The toolsets to choose from; all of them where the list is empty. No toolset
    /// has the empty name, so a list of that name alone lets no tool through.
    pub toolsets: Vec<String>,
    /// The names to choose from; all of them where the list is empty.
    pub only: Vec<String>,
    /// The names to leave out.
    pub exclude: Vec<String>,
}

/// The mathematical value of a [`ToolFilter`].
pub ghost struct FilterView {
    pub readonly: bool,
    pub toolsets: Seq<Seq<char>>,
    pub only: Seq<Seq<char>>,
    pub exclude: Seq<Seq<char>>,
}

impl View for ToolFilter {
    type V = FilterView;

    open spec fn view(&self) -> FilterView {
        FilterView {
            readonly: self.readonly,
            toolsets: texts(self.toolsets@),
            only: texts(self.only@),
            exclude: texts(self.exclude@),
        }
    }
}

impl FilterView {
    /// Does the filter let the tool through?
    pub open spec fn admits(self, row: ToolRow) -> bool {
        admits(self.readonly, self.toolsets, self.only, self.exclude, row)
    }

    /// The names of the tools that the filter lets through.
    pub open spec fn allowed(self) -> Set<Seq<char>> {
        admitted(self.readonly, self.toolsets, self.only, self.exclude).to_set()
    }

    /// The filter that lets everything through.
    pub open spec fn open_filter() -> FilterView {
        FilterView { readonly: false, toolsets: seq![], only: seq![], exclude: seq![] }
    }
}

impl Default for ToolFilter {
    fn default() -> (r: ToolFilter)
        ensures
            r@ == FilterView::open_filter(),
    {
        let r = ToolFilter {
            readonly: false,
            toolsets: Vec::new(),
            only: Vec::new(),
            exclude: Vec::new(),
        };
        assert(r@.toolsets =~= seq![]);
        assert(r@.only =~= seq![]);
        assert(r@.exclude =~= seq![]);
        r
    }
}

/// The entries of a comma-separated list, without white space around them and
/// without those that are empty.
pub open spec fn csv(s: Seq<char>) -> Seq<Seq<char>> {
    split(s, ',').map_values(|p: Seq<char>| trim(p, CharClass::Space)).filter(
        |p: Seq<char>| p.len() > 0,
    )
}

/// The entries of a comma-separated list.
pub fn split_csv(s: &str) -> (r: Vec<String>)
    ensures
        texts(r@) == csv(s@),
{
    let v = chars_of(s);
    let pieces = pieces_of(v.as_slice(), ',');
    let ghost entries = split(s@, ',').map_values(|p: Seq<char>| trim(p, CharClass::Space));
    let ghost nonempty = |p: Seq<char>| p.len() > 0;
    let mut out: Vec<String> = Vec::new();
    let mut i: usize = 0;
    proof {
        reveal(Seq::filter);
        assert(texts(out@) =~= entries.take(0).filter(nonempty));
    }
    while i < pieces.len()
        invariant
            i <= pieces@.len(),
            pieces@.len() == entries.len(),
            nonempty == (|p: Seq<char>| p.len() > 0),
            forall|j: int|
                0 <= j < entries.len() ==> #[trigger] entries[j] == trim(
                    pieces@[j]@,
                    CharClass::Space,
                ),
            texts(out@) == entries.take(i as int).filter(nonempty),
        decreases pieces@.len() - i,
    {
        let ghost had = texts(out@);
        proof {
            reveal(Seq::filter);
            assert(entries.take(i + 1).drop_last() =~= entries.take(i as int));
        }
        let entry = trim_text(pieces[i].as_str(), CharClass::Space);
        assert(entry@ == entries[i as int]);
        if !entry.as_str().is_empty() {
            out.push(entry);
            assert(texts(out@) =~= had.push(entry@));
        }
        i = i + 1;
    }
    assert(entries.take(i as int) =~= entries);
    out
}

/// The entries of a header's list; none where the header is absent.
pub open spec fn header_list(o: Option<Seq<char>>) -> Seq<Seq<char>> {
    match o {
        Some(s) => csv(s),
        None => seq![],
    }
}

/// Does a header say yes?
pub open spec fn header_flag(o: Option<Seq<char>>) -> bool {
    match o {
        Some(s) => lower_text(s) == "1"@ || lower_text(s) == "true"@ || lower_text(s) == "yes"@,
        None => false,
    }
}

/// The entries of a header's list.
fn list_of(o: Option<String>) -> (r: Vec<String>)
    ensures
        texts(r@) == header_list(opt_text(o)),
{
    match o {
        Some(s) => split_csv(s.as_str()),
        None => {
            let v: Vec<String> = Vec::new();
            assert(texts(v@) =~= seq![]);
            v
        },
    }
}

/// Does a header say yes?
fn flag_of(o: Option<String>) -> (r: bool)
    ensures
        r == header_flag(opt_text(o)),
{
    match o {
        Some(s) => {
            let v = chars_of(s.as_str());
            let word = lowered_text(v.as_slice());
            equal(word.as_slice(), chars_of("1").as_slice()) || equal(
                word.as_slice(),
                chars_of("true").as_slice(),
            ) || equal(word.as_slice(), chars_of("yes").as_slice())
        },
        None => false,
    }
}

/// The segments of a path, without `/` at its ends.
pub open spec fn segments(path: Seq<char>) -> Seq<Seq<char>> {
    split(trim(path, CharClass::Only('/')), '/')
}

/// Is the path a route to the read-only tools?
pub open spec fn route_is_readonly(path: Seq<char>) -> bool {
    let segs = segments(path);
    ||| segs == seq!["mcp"@, "readonly"@]
    ||| segs.len() == 4 && segs[0] == "mcp"@ && segs[1] == "x"@ && segs[3] == "readonly"@
}

/// The toolsets that a route names.
pub open spec fn route_toolsets(path: Seq<char>) -> Seq<Seq<char>> {
    let segs = segments(path);
    if (segs.len() == 3 || segs.len() == 4 && segs[3] == "readonly"@) && segs[0] == "mcp"@
        && segs[1] == "x"@ {
        csv(segs[2])
    } else {
        seq![]
    }
}

/// The toolsets that two lists leave, where an empty list leaves all of them: those
/// in both. Where both lists are given and share none, only the empty name is
/// left, which no toolset has.
pub open spec fn common_toolsets(a: Seq<Seq<char>>, b: Seq<Seq<char>>) -> Seq<Seq<char>> {
    let both = a.filter(|t: Seq<char>| b.contains(t));
    if b.len() == 0 {
        a
    } else if a.len() == 0 {
        b
    } else if both.len() == 0 {
        seq![seq![]]
    } else {
        both
    }
}

/// The toolsets that two lists leave.
fn common(a: Vec<String>, b: Vec<String>) -> (r: Vec<String>)
    ensures
        texts(r@) == common_toolsets(texts(a@), texts(b@)),
{
    if b.len() == 0 {
        return a;
    }
    if a.len() == 0 {
        return b;
    }
    let ghost all = texts(a@);
    let ghost shared = |t: Seq<char>| texts(b@).contains(t);
    let mut both: Vec<String> = Vec::new();
    let mut i: usize = 0;
    proof {
        reveal(Seq::filter);
        assert(texts(both@) =~= all.take(0).filter(shared));
    }
    while i < a.len()
        invariant
            i <= a@.len(),
            all == texts(a@),
            shared == (|t: Seq<char>| texts(b@).contains(t)),
            texts(both@) == all.take(i as int).filter(shared),
        decreases a@.len() - i,
    {
        let ghost had = texts(both@);
        proof {
            reveal(Seq::filter);
            assert(all.take(i + 1).drop_last() =~= all.take(i as int));
            assert(all.take(i + 1).last() == a@[i as int]@);
        }
        if listed(b.as_slice(), a[i].as_str()) {
            both.push(a[i].clone());
            assert(texts(both@) =~= had.push(a@[i as int]@));
        }
        i = i + 1;
    }
    assert(all.take(i as int) =~= all);
    assert(texts(both@).len() == both@.len());
    if both.len() == 0 {
        both.push(String::new());
        assert(texts(both@) =~= seq![seq![]]);
    }
    both
}

impl FilterView {
    /// The filter with what a route asks for added: the route can make it
    /// read-only, and where it names toolsets, a tool's toolset must be one of
    /// them as well.
    pub open spec fn with_path(self, path: Seq<char>) -> FilterView {
        FilterView {
            readonly: self.readonly || route_is_readonly(path),
            toolsets: common_toolsets(self.toolsets, route_toolsets(path)),
            only: self.only,
            exclude: self.exclude,
        }
    }

    /// The filter that the `X-MCP-*` headers of a request ask for.
    pub open spec fn of_headers(values: Map<Seq<char>, Seq<Seq<u8>>>) -> FilterView {
        FilterView {
            readonly: header_flag(header_text(values, "x-mcp-readonly"@)),
            toolsets: header_list(header_text(values, "x-mcp-toolsets"@)),
            only: header_list(header_text(values, "x-mcp-tools"@)),
            exclude: header_list(header_text(values, "x-mcp-exclude-tools"@)),
        }
    }
}

impl ToolFilter {
    /// The names of the tools that the filter lets through.
    pub fn allow_list(&self) -> (r: StringHashSet)
        ensures
            r@ == self@.allowed(),
    {
        let tools = filter_tools(
            self.readonly,
            self.toolsets.as_slice(),
            self.only.as_slice(),
            self.exclude.as_slice(),
        );
        let ghost all = names(tools@);
        let mut set = StringHashSet::new();
        let mut i: usize = 0;
        assert(set@ =~= all.take(0).to_set());
        while i < tools.len()
            invariant
                i <= tools@.len(),
                all == names(tools@),
                set@ == all.take(i as int).to_set(),
            decreases tools@.len() - i,
        {
            set.insert(tools[i].to_owned());
            proof {
                let next = all.take(i + 1);
                assert(next =~= all.take(i as int).push(all[i as int]));
                assert forall|x: Seq<char>| next.to_set().contains(x) == all.take(
                    i as int,
                ).to_set().insert(all[i as int]).contains(x) by {
                    if all.take(i as int).contains(x) {
                        let j = choose|j: int| 0 <= j < i && all.take(i as int)[j] == x;
                        assert(next[j] == x);
                    }
                    if x == all[i as int] {
                        assert(next[i as int] == x);
                    }
                    if next.contains(x) {
                        let j = choose|j: int| 0 <= j < next.len() && next[j] == x;
                        if j < i {
                            assert(all.take(i as int)[j] == x);
                        }
                    }
                }
                assert(next.to_set() =~= all.take(i as int).to_set().insert(all[i as int]));
            }
            i = i + 1;
        }
        assert(all.take(i as int) =~= all);
        set
    }

    /// The filter that the texts of the four headers ask for.
    pub fn from_texts(
        readonly: Option<String>,
        toolsets: Option<String>,
        tools: Option<String>,
        exclude: Option<String>,
    ) -> (r: ToolFilter)
        ensures
            r@ == (FilterView {
                readonly: header_flag(opt_text(readonly)),
                toolsets: header_list(opt_text(toolsets)),
                only: header_list(opt_text(tools)),
                exclude: header_list(opt_text(exclude)),
            }),
    {
        ToolFilter {
            readonly: flag_of(readonly),
            toolsets: list_of(toolsets),
            only: list_of(tools),
            exclude: list_of(exclude),
        }
    }

    /// Parse `X-MCP-Readonly`, `X-MCP-Toolsets`, `X-MCP-Tools`,
    /// `X-MCP-Exclude-Tools` headers into a filter.
    pub fn from_headers(headers: &http::HeaderMap<http::HeaderValue>) -> (r: ToolFilter)
        ensures
            r@ == FilterView::of_headers(header_values(*headers)),
    {
        proof {
            reveal_strlit("x-mcp-readonly");
            reveal_strlit("x-mcp-toolsets");
            reveal_strlit("x-mcp-tools");
            reveal_strlit("x-mcp-exclude-tools");
        }
        ToolFilter::from_texts(
            first_value(headers, "x-mcp-readonly"),
            first_value(headers, "x-mcp-toolsets"),
            first_value(headers, "x-mcp-tools"),
            first_value(headers, "x-mcp-exclude-tools"),
        )
    }

    /// Combine path-derived constraints (route aliases) with header filters.
    pub fn with_path(self, path: &str) -> (r: ToolFilter)
        ensures
            r@ == self@.with_path(path@),
    {
        let v = chars_of(path);
        let segs = pieces_of(trimmed(v.as_slice(), CharClass::Only('/')), '/');
        let ghost all = segments(path@);
        assert(texts(segs@) == all);
        assert(forall|j: int| 0 <= j < segs@.len() ==> #[trigger] all[j] == segs@[j]@);
        let mut filter = self;
        if segs.len() == 2 && same(segs[0].as_str(), "mcp") && same(segs[1].as_str(), "readonly") {
            assert(all =~= seq!["mcp"@, "readonly"@]);
            filter.readonly = true;
        } else if (segs.len() == 3 || segs.len() == 4 && same(segs[3].as_str(), "readonly"))
            && same(segs[0].as_str(), "mcp") && same(segs[1].as_str(), "x") {
            filter.toolsets = common(filter.toolsets, split_csv(segs[2].as_str()));
            if segs.len() == 4 {
                filter.readonly = true;
            }
        }
        filter
    }
}

/// The filter for a request: what its headers ask for and what its path adds.
pub fn request_filter(
    headers: &http::HeaderMap<http::HeaderValue>,
    path: &str,
) -> (r: ToolFilter)
    ensures
        r@ == FilterView::of_headers(header_values(*headers)).with_path(path@),
{
    ToolFilter::from_headers(headers).with_path(path)
}

// ---------- the server behind a filter ----------

/// A server of which only some tools can be seen and called. Prompts and
/// resources only read and pass through unfiltered.
pub struct FilteredServer {
    inner: MemosServer,
    allow: StringHashSet,
}

/// The mathematical value of a [`FilteredServer`].
pub ghost struct FilteredView {
    pub inner: ClientView,
    /// The names of the tools that can be seen and called.
    pub allow: Set<Seq<char>>,
}

impl View for FilteredServer {
    type V = FilteredView;

    closed spec fn view(&self) -> FilteredView {
        FilteredView { inner: self.inner@, allow: self.allow@ }
    }
}

/// Why a tool cannot be called: it can where its name is allowed.
pub open spec fn refusal(allow: Set<Seq<char>>, name: Seq<char>) -> Option<Seq<char>> {
    if allow.contains(name) {
        None
    } else {
        Some("tool '"@ + name + "' is not enabled for this endpoint"@)
    }
}

impl FilteredServer {
    /// The server with the tools that a filter lets through.
    pub fn new(inner: MemosServer, filter: &ToolFilter) -> (r: FilteredServer)
        ensures
            r@ == (FilteredView { inner: inner@, allow: filter@.allowed() }),
    {
        FilteredServer { inner, allow: filter.allow_list() }
    }

    /// The server behind the filter.
    pub fn inner(&self) -> (r: &MemosServer)
        ensures
            r@ == self@.inner,
    {
        &self.inner
    }

    /// The tools that can be seen, in order, out of those given with their names.
    pub fn list_tools<T>(&self, tools: Vec<(String, T)>) -> (r: Vec<T>)
        ensures
            r@ == allowed_tools(tools@, self@.allow).map_values(|t: (String, T)| t.1),
    {
        self.inner.list_tools_filtered(tools, &self.allow)
    }

    /// Why the tool with the given name cannot be called, if it cannot.
    pub fn refuse_call(&self, name: &str) -> (r: Option<String>)
        ensures
            opt_text(r) == refusal(self@.allow, name@),
    {
        if self.allow.contains(name) {
            None
        } else {
            Some(concat3("tool '", name, "' is not enabled for this endpoint"))
        }
    }
}

// ---------- laws ----------

/// What can be seen can be called, and what can be called can be seen.
pub proof fn listed_tools_are_the_callable_ones<T>(
    tools: Seq<(String, T)>,
    allow: Set<Seq<char>>,
    tool: (String, T),
)
    ensures
        allowed_tools(tools, allow).contains(tool) <==> tools.contains(tool) && refusal(
            allow,
            tool.0@,
        ) is None,
{
    lemma_filter_contains(tools, |t: (String, T)| allow.contains(t.0@), tool);
}

/// Where the tools given are at least those of the catalog, a call is refused
/// exactly where no tool of that name is listed, which is exactly where the filter
/// does not allow the name.
pub proof fn calls_are_refused_exactly_where_not_listed<T>(
    filter: FilterView,
    tools: Seq<(String, T)>,
    name: Seq<char>,
)
    requires
        forall|i: int|
            0 <= i < CURATED_TOOLS@.len() ==> exists|k: int|
                0 <= k < tools.len() && (#[trigger] tools[k]).0@ == (
                #[trigger] CURATED_TOOLS@[i]).0@,
    ensures
        refusal(filter.allowed(), name) is Some <==> !filter.allowed().contains(name),
        refusal(filter.allowed(), name) is Some <==> !exists|k: int|
            0 <= k < allowed_tools(tools, filter.allowed()).len() && (#[trigger] allowed_tools(
                tools,
                filter.allowed(),
            )[k]).0@ == name,
{
    let allow = filter.allowed();
    let list = allowed_tools(tools, allow);
    if allow.contains(name) {
        allowed_exactly(filter, name);
        let i = choose|i: int|
            0 <= i < CURATED_TOOLS@.len() && (#[trigger] CURATED_TOOLS@[i]).0@ == name
                && filter.admits(CURATED_TOOLS@[i]);
        let k = choose|k: int|
            0 <= k < tools.len() && (#[trigger] tools[k]).0@ == CURATED_TOOLS@[i].0@;
        assert(tools.contains(tools[k]));
        listed_tools_are_the_callable_ones(tools, allow, tools[k]);
        let j = choose|j: int| 0 <= j < list.len() && list[j] == tools[k];
        assert(list[j].0@ == name);
    }
    if exists|k: int| 0 <= k < list.len() && (#[trigger] list[k]).0@ == name {
        let k = choose|k: int| 0 <= k < list.len() && (#[trigger] list[k]).0@ == name;
        assert(list.contains(list[k]));
        listed_tools_are_the_callable_ones(tools, allow, list[k]);
    }
}

/// On a read-only route a call of a tool that writes is refused, whatever the
/// headers say.
pub proof fn readonly_route_refuses_writes(headers: FilterView, path: Seq<char>, i: int)
    requires
        route_is_readonly(path),
        0 <= i < CURATED_TOOLS@.len(),
        !CURATED_TOOLS@[i].4,
    ensures
        refusal(headers.with_path(path).allowed(), CURATED_TOOLS@[i].0@) == Some(
            "tool '"@ + CURATED_TOOLS@[i].0@ + "' is not enabled for this endpoint"@,
        ),
{
    if headers.with_path(path).allowed().contains(CURATED_TOOLS@[i].0@) {
        readonly_route_allows_only_reads(headers, path, i);
    }
}

/// A filter's allow list holds exactly the names of the tools that it lets
/// through.
pub proof fn allowed_exactly(f: FilterView, name: Seq<char>)
    ensures
        f.allowed().contains(name) <==> exists|i: int|
            0 <= i < CURATED_TOOLS@.len() && (#[trigger] CURATED_TOOLS@[i]).0@ == name && f.admits(
                CURATED_TOOLS@[i],
            ),
{
    admitted_exactly(f.readonly, f.toolsets, f.only, f.exclude, name);
    if f.allowed().contains(name) {
        let i = choose|i: int|
            0 <= i < CURATED_TOOLS@.len() && (#[trigger] CURATED_TOOLS@[i]).0@ == name && admits(
                f.readonly,
                f.toolsets,
                f.only,
                f.exclude,
                CURATED_TOOLS@[i],
            );
        assert(f.admits(CURATED_TOOLS@[i]));
    }
}

/// A filter that lets fewer tools through allows fewer names.
proof fn lemma_narrower(f: FilterView, g: FilterView)
    requires
        forall|i: int|
            0 <= i < CURATED_TOOLS@.len() && g.admits(#[trigger] CURATED_TOOLS@[i]) ==> f.admits(
                CURATED_TOOLS@[i],
            ),
    ensures
        g.allowed().subset_of(f.allowed()),
{
    assert forall|name: Seq<char>| g.allowed().contains(name) implies f.allowed().contains(
        name,
    ) by {
        allowed_exactly(f, name);
        allowed_exactly(g, name);
    }
}

/// A filter that is made read-only, gets more exclusions, or gets a list of
/// names where it had none, allows no tool that it did not allow before.
pub proof fn restrictions_narrow(
    f: FilterView,
    readonly: bool,
    only: Seq<Seq<char>>,
    exclude: Seq<Seq<char>>,
)
    requires
        only == f.only || f.only.len() == 0,
    ensures
        (FilterView {
            readonly: f.readonly || readonly,
            toolsets: f.toolsets,
            only,
            exclude: f.exclude + exclude,
        }).allowed().subset_of(f.allowed()),
{
    let g = FilterView {
        readonly: f.readonly || readonly,
        toolsets: f.toolsets,
        only,
        exclude: f.exclude + exclude,
    };
    assert forall|i: int|
        0 <= i < CURATED_TOOLS@.len() && g.admits(#[trigger] CURATED_TOOLS@[i]) implies f.admits(
        CURATED_TOOLS@[i],
    ) by {
        let name = CURATED_TOOLS@[i].0@;
        if f.exclude.contains(name) {
            let k = choose|k: int| 0 <= k < f.exclude.len() && f.exclude[k] == name;
            assert((f.exclude + exclude)[k] == name);
        }
    }
    lemma_narrower(f, g);
}

/// Does a list of toolsets, which leaves all of them where it is empty, leave this
/// one?
pub open spec fn leaves(toolsets: Seq<Seq<char>>, toolset: Seq<char>) -> bool {
    toolsets.len() == 0 || toolsets.contains(toolset)
}

/// What two lists of toolsets leave is what each of them leaves.
proof fn lemma_common(a: Seq<Seq<char>>, b: Seq<Seq<char>>, toolset: Seq<char>)
    requires
        toolset.len() > 0,
    ensures
        leaves(common_toolsets(a, b), toolset) <==> leaves(a, toolset) && leaves(b, toolset),
{
    let shared = |t: Seq<char>| b.contains(t);
    let both = a.filter(shared);
    lemma_filter_contains(a, shared, toolset);
    if a.len() > 0 && b.len() > 0 {
        if both.len() == 0 {
            assert(!both.contains(toolset));
            assert(seq![Seq::<char>::empty()][0].len() == 0);
        }
    }
}

/// Every tool's toolset has a name.
proof fn lemma_toolset_named(i: int)
    requires
        0 <= i < CURATED_TOOLS@.len(),
    ensures
        CURATED_TOOLS@[i].5@.len() > 0,
{
    reveal_strlit("memos");
    reveal_strlit("attachments");
    reveal_strlit("reactions");
    reveal_strlit("relations");
    reveal_strlit("tags");
    assert("memos"@.len() == 5 && "attachments"@.len() == 11 && "reactions"@.len() == 9
        && "relations"@.len() == 9 && "tags"@.len() == 4);
}

/// A tool passes the headers of a request together with its route exactly where it
/// passes each of them alone.
pub proof fn headers_and_route_must_both_admit(headers: FilterView, path: Seq<char>, i: int)
    requires
        0 <= i < CURATED_TOOLS@.len(),
    ensures
        headers.with_path(path).admits(CURATED_TOOLS@[i]) <==> headers.admits(CURATED_TOOLS@[i])
            && FilterView::open_filter().with_path(path).admits(CURATED_TOOLS@[i]),
{
    lemma_toolset_named(i);
    lemma_common(headers.toolsets, route_toolsets(path), CURATED_TOOLS@[i].5@);
    lemma_common(seq![], route_toolsets(path), CURATED_TOOLS@[i].5@);
}

/// Headers narrow the catalog of a route further: they never add a tool that the
/// route alone does not offer.
pub proof fn headers_narrow_route(headers: FilterView, path: Seq<char>)
    ensures
        headers.with_path(path).allowed().subset_of(
            FilterView::open_filter().with_path(path).allowed(),
        ),
{
    let f = FilterView::open_filter().with_path(path);
    let g = headers.with_path(path);
    assert forall|i: int|
        0 <= i < CURATED_TOOLS@.len() && g.admits(#[trigger] CURATED_TOOLS@[i]) implies f.admits(
        CURATED_TOOLS@[i],
    ) by {
        headers_and_route_must_both_admit(headers, path, i);
    }
    lemma_narrower(f, g);
}

/// A route narrows what the headers ask for: it never adds a tool that they alone
/// do not let through.
pub proof fn route_narrows_headers(headers: FilterView, path: Seq<char>)
    ensures
        headers.with_path(path).allowed().subset_of(headers.allowed()),
{
    let g = headers.with_path(path);
    assert forall|i: int|
        0 <= i < CURATED_TOOLS@.len() && g.admits(
            #[trigger] CURATED_TOOLS@[i],
        ) implies headers.admits(CURATED_TOOLS@[i]) by {
        headers_and_route_must_both_admit(headers, path, i);
    }
    lemma_narrower(headers, g);
}

/// On a read-only route no tool that writes is allowed, whatever the headers
/// say.
pub proof fn readonly_route_allows_only_reads(headers: FilterView, path: Seq<char>, i: int)
    requires
        route_is_readonly(path),
        0 <= i < CURATED_TOOLS@.len(),
        headers.with_path(path).allowed().contains(CURATED_TOOLS@[i].0@),
    ensures
        CURATED_TOOLS@[i].4,
{
    let f = headers.with_path(path);
    let name = CURATED_TOOLS@[i].0@;
    allowed_exactly(f, name);
    let k = choose|k: int|
        0 <= k < CURATED_TOOLS@.len() && (#[trigger] CURATED_TOOLS@[k]).0@ == name && f.admits(
            CURATED_TOOLS@[k],
        );
    tool_names_are_distinct(i, k);
}

/// An excluded tool is never allowed, whatever else asks for it.
pub proof fn excluded_tool_is_not_allowed(f: FilterView, name: Seq<char>)
    requires
        f.exclude.contains(name),
    ensures
        !f.allowed().contains(name),
{
    allowed_exactly(f, name);
}

/// Trimming `/` leaves alone a text that has none at its ends.
proof fn lemma_trim_slash(s: Seq<char>)
    requires
        s.len() > 0,
        s[0] != '/',
        s.last() != '/',
    ensures
        trim(s.insert(0, '/'), CharClass::Only('/')) == s,
{
    assert(s.insert(0, '/').drop_first() =~= s);
    assert(trim_start(s, CharClass::Only('/')) == s);
}

/// The entries of a comma-separated list are never empty and have no white space
/// around them.
pub proof fn list_entries_are_clean(s: Seq<char>, i: int)
    requires
        0 <= i < csv(s).len(),
    ensures
        csv(s)[i].len() > 0,
        trim(csv(s)[i], CharClass::Space) == csv(s)[i],
{
    let entries = split(s, ',').map_values(|p: Seq<char>| trim(p, CharClass::Space));
    let nonempty = |p: Seq<char>| p.len() > 0;
    let entry = csv(s)[i];
    assert(csv(s).contains(entry));
    lemma_filter_contains(entries, nonempty, entry);
    let k = choose|k: int| 0 <= k < entries.len() && entries[k] == entry;
    lemma_trim_twice(split(s, ',')[k], CharClass::Space);
}

/// The route `/mcp/x/{toolsets}` restricts a request to the toolsets that it
/// lists.
pub proof fn toolset_route_reads_back(toolsets: Seq<char>)
    requires
        !toolsets.contains('/'),
    ensures
        route_toolsets("/mcp/x/"@ + toolsets) == csv(toolsets),
        !route_is_readonly("/mcp/x/"@ + toolsets),
{
    reveal_strlit("/mcp/x/");
    reveal_strlit("mcp");
    reveal_strlit("x");
    reveal_strlit("readonly");
    let path = "/mcp/x/"@ + toolsets;
    lemma_unsplit("mcp"@, '/');
    lemma_split_joined("mcp"@, '/', "x"@);
    let route = "mcp"@.push('/') + "x"@;
    assert("x"@ != "readonly"@) by {
        assert("x"@.len() == 1);
    }
    if toolsets.len() == 0 {
        assert(route.push('/').insert(0, '/') =~= path);
        assert(path.drop_first() =~= route.push('/'));
        assert(trim_start(route.push('/'), CharClass::Only('/')) == route.push('/'));
        assert(route.push('/').drop_last() =~= route);
        assert(trim_end(route, CharClass::Only('/')) == route);
        assert(trim(path, CharClass::Only('/')) == route);
        assert(segments(path) == split(route, '/'));
        assert(segments(path).len() == 2);
        assert(segments(path)[1] == "x"@);
        assert(seq!["mcp"@, "readonly"@][1] == "readonly"@);
        assert(toolsets =~= seq![]);
        reveal(Seq::filter);
        assert(split(toolsets, ',') =~= seq![seq![]]);
        let entries = split(toolsets, ',').map_values(|p: Seq<char>| trim(p, CharClass::Space));
        assert(entries =~= seq![seq![]]);
        let nonempty = |p: Seq<char>| p.len() > 0;
        assert(entries.drop_last().filter(nonempty) =~= seq![]);
        assert(!nonempty(entries.last()));
        assert(entries.filter(nonempty) =~= seq![]);
    } else {
        let inner = route.push('/') + toolsets;
        assert(inner.insert(0, '/') =~= path);
        assert(toolsets.contains(toolsets.last()));
        lemma_trim_slash(inner);
        lemma_split_joined(route, '/', toolsets);
        assert(segments(path).len() == 3);
    }
}

/// The route `/mcp/x/{toolsets}/readonly` restricts a request to the toolsets
/// that it lists, and to the tools that only read.
pub proof fn readonly_toolset_route_reads_back(toolsets: Seq<char>)
    requires
        !toolsets.contains('/'),
    ensures
        route_toolsets("/mcp/x/"@ + toolsets + "/readonly"@) == csv(toolsets),
        route_is_readonly("/mcp/x/"@ + toolsets + "/readonly"@),
{
    reveal_strlit("/mcp/x/");
    reveal_strlit("mcp");
    reveal_strlit("x");
    reveal_strlit("readonly");
    reveal_strlit("/readonly");
    let path = "/mcp/x/"@ + toolsets + "/readonly"@;
    lemma_unsplit("mcp"@, '/');
    lemma_split_joined("mcp"@, '/', "x"@);
    let route = "mcp"@.push('/') + "x"@;
    lemma_split_joined(route, '/', toolsets);
    let longer = route.push('/') + toolsets;
    lemma_split_joined(longer, '/', "readonly"@);
    let inner = longer.push('/') + "readonly"@;
    assert(inner.insert(0, '/') =~= path);
    lemma_trim_slash(inner);
    assert(segments(path).len() == 4);
    assert(segments(path)[3] == "readonly"@);
}

// ---------- laws on single restrictions ----------

/// A filter that only names toolsets allows exactly the tools whose toolset it names.
pub proof fn toolset_filter_allows_its_tools(toolsets: Seq<Seq<char>>, i: int)
    requires
        toolsets.len() > 0,
        0 <= i < CURATED_TOOLS@.len(),
    ensures
        (FilterView { readonly: false, toolsets, only: seq![], exclude: seq![] }).allowed().contains(
            CURATED_TOOLS@[i].0@,
        ) <==> toolsets.contains(CURATED_TOOLS@[i].5@),
{
    toolsets_choose_their_tools(toolsets, i);
}

/// A filter that only names tools allows exactly those.
pub proof fn name_filter_allows_its_tools(only: Seq<Seq<char>>, i: int)
    requires
        only.len() > 0,
        0 <= i < CURATED_TOOLS@.len(),
    ensures
        (FilterView { readonly: false, toolsets: seq![], only, exclude: seq![] }).allowed().contains(
            CURATED_TOOLS@[i].0@,
        ) <==> only.contains(CURATED_TOOLS@[i].0@),
{
    names_choose_their_tools(only, i);
}

/// A filter that only excludes tools allows exactly the others.
pub proof fn exclusion_filter_allows_the_others(exclude: Seq<Seq<char>>, i: int)
    requires
        0 <= i < CURATED_TOOLS@.len(),
    ensures
        (FilterView {
            readonly: false,
            toolsets: seq![],
            only: seq![],
            exclude,
        }).allowed().contains(CURATED_TOOLS@[i].0@) <==> !exclude.contains(CURATED_TOOLS@[i].0@),
{
    exclusions_drop_their_tools(exclude, i);
}

/// A filter allows a tool of the catalog exactly where each of its restrictions does;
/// it allows nothing else.
pub proof fn filters_combine_their_restrictions(f: FilterView, i: int)
    requires
        0 <= i < CURATED_TOOLS@.len(),
    ensures
        f.allowed().contains(CURATED_TOOLS@[i].0@) <==> {
            &&& f.readonly ==> CURATED_TOOLS@[i].2@ == "GET"@
            &&& f.toolsets.len() == 0 || f.toolsets.contains(CURATED_TOOLS@[i].5@)
            &&& f.only.len() == 0 || f.only.contains(CURATED_TOOLS@[i].0@)
            &&& !f.exclude.contains(CURATED_TOOLS@[i].0@)
        },
        forall|name: Seq<char>| #[trigger]
            f.allowed().contains(name) ==> exists|k: int|
                0 <= k < CURATED_TOOLS@.len() && (#[trigger] CURATED_TOOLS@[k]).0@ == name,
{
    let none = Seq::<Seq<char>>::empty();
    restrictions_work_independently(f.readonly, f.toolsets, f.only, f.exclude, i);
    readonly_tools_are_the_gets(i);
    readonly_drops_writing_tools(i);
    exclusions_drop_their_tools(none, i);
    exclusions_drop_their_tools(f.exclude, i);
    if f.toolsets.len() > 0 {
        toolsets_choose_their_tools(f.toolsets, i);
    } else {
        assert(f.toolsets =~= none);
    }
    if f.only.len() > 0 {
        names_choose_their_tools(f.only, i);
    } else {
        assert(f.only =~= none);
    }
    assert forall|name: Seq<char>| #[trigger] f.allowed().contains(name) implies exists|k: int|
        0 <= k < CURATED_TOOLS@.len() && (#[trigger] CURATED_TOOLS@[k]).0@ == name by {
        allowed_exactly(f, name);
    }
}

// ---------- laws on headers and routes ----------

/// A list with a comma in it is the list before the comma and then the list after it;
/// a text without one is its only entry, trimmed, or none where it is blank.
pub proof fn lists_go_by_commas(a: Seq<char>, b: Seq<char>, entry: Seq<char>)
    requires
        !entry.contains(','),
    ensures
        csv(a + seq![','] + b) == csv(a) + csv(b),
        csv(entry) == if trim(entry, CharClass::Space).len() > 0 {
            seq![trim(entry, CharClass::Space)]
        } else {
            seq![]
        },
{
    let cut = |p: Seq<char>| trim(p, CharClass::Space);
    let nonempty = |p: Seq<char>| p.len() > 0;
    join_undoes_split(a, ',');
    join_undoes_split(b, ',');
    let x = split(a, ',');
    let y = split(b, ',');
    join_of_two_lists(x, y, seq![',']);
    assert forall|i: int| 0 <= i < (x + y).len() implies !(#[trigger] (x + y)[i]).contains(',') by {
        if i < x.len() {
            assert((x + y)[i] == x[i]);
        } else {
            assert((x + y)[i] == y[i - x.len()]);
        }
    }
    split_undoes_join(x + y, ',');
    assert(split(a + seq![','] + b, ',') == x + y);
    assert((x + y).map_values(cut) =~= x.map_values(cut) + y.map_values(cut));
    lemma_filter_joined(x.map_values(cut), y.map_values(cut), nonempty);
    assert forall|j: int| 0 <= j < entry.len() implies entry[j] != ',' by {
        assert(entry.contains(entry[j]));
    }
    lemma_unsplit(entry, ',');
    let one = seq![entry].map_values(cut);
    assert(one =~= seq![cut(entry)]);
    reveal(Seq::filter);
    assert(one.drop_last().filter(nonempty) =~= seq![]);
    assert(one.last() == cut(entry));
    assert(csv(entry) =~= if cut(entry).len() > 0 {
        seq![cut(entry)]
    } else {
        seq![]
    });
}

/// Filtering two lists one after the other filters each.
proof fn lemma_filter_joined<A>(a: Seq<A>, b: Seq<A>, pred: spec_fn(A) -> bool)
    ensures
        (a + b).filter(pred) == a.filter(pred) + b.filter(pred),
    decreases b.len(),
{
    reveal(Seq::filter);
    if b.len() == 0 {
        assert(a + b =~= a);
        assert(a.filter(pred) + b.filter(pred) =~= a.filter(pred));
    } else {
        lemma_filter_joined(a, b.drop_last(), pred);
        assert((a + b).drop_last() =~= a + b.drop_last());
        assert((a + b).last() == b.last());
        assert((a + b).filter(pred) =~= a.filter(pred) + b.filter(pred));
    }
}

/// Is the character this small letter or its capital?
pub open spec fn is_letter(c: char, small: char, capital: char) -> bool {
    c == small || c == capital
}

/// A header says yes with `1`, or with `true` or `yes` in any letter case, and with
/// nothing else.
pub proof fn headers_say_yes_in_three_words(s: Seq<char>)
    ensures
        header_flag(Some(s)) <==> {
            ||| s.len() == 1 && s[0] == '1'
            ||| s.len() == 4 && is_letter(s[0], 't', 'T') && is_letter(s[1], 'r', 'R') && is_letter(
                s[2],
                'u',
                'U',
            ) && is_letter(s[3], 'e', 'E')
            ||| s.len() == 3 && is_letter(s[0], 'y', 'Y') && is_letter(s[1], 'e', 'E') && is_letter(
                s[2],
                's',
                'S',
            )
        },
        !header_flag(None),
{
    reveal_strlit("1");
    reveal_strlit("true");
    reveal_strlit("yes");
    let low = lower_text(s);
    assert(low.len() == s.len());
    assert("1"@.len() == 1 && "1"@[0] == '1');
    assert("true"@.len() == 4 && "true"@[0] == 't' && "true"@[1] == 'r' && "true"@[2] == 'u'
        && "true"@[3] == 'e');
    assert("yes"@.len() == 3 && "yes"@[0] == 'y' && "yes"@[1] == 'e' && "yes"@[2] == 's');
    if s.len() == 1 {
        assert(low[0] == lower(s[0]));
        assert(low =~= "1"@ <==> low[0] == '1');
    }
    if s.len() == 4 {
        assert(low[0] == lower(s[0]) && low[1] == lower(s[1]) && low[2] == lower(s[2]) && low[3]
            == lower(s[3]));
        assert(low =~= "true"@ <==> low[0] == 't' && low[1] == 'r' && low[2] == 'u' && low[3]
            == 'e');
    }
    if s.len() == 3 {
        assert(low[0] == lower(s[0]) && low[1] == lower(s[1]) && low[2] == lower(s[2]));
        assert(low =~= "yes"@ <==> low[0] == 'y' && low[1] == 'e' && low[2] == 's');
    }
}

/// Each part of a filter comes from its own header, and a header that is absent
/// restricts nothing.
pub proof fn each_header_has_its_part(values: Map<Seq<char>, Seq<Seq<u8>>>)
    ensures
        ({
            let f = FilterView::of_headers(values);
            &&& header_text(values, "x-mcp-toolsets"@) matches Some(s) ==> f.toolsets == csv(s)
            &&& header_text(values, "x-mcp-toolsets"@) is None ==> f.toolsets.len() == 0
            &&& header_text(values, "x-mcp-tools"@) matches Some(s) ==> f.only == csv(s)
            &&& header_text(values, "x-mcp-tools"@) is None ==> f.only.len() == 0
            &&& header_text(values, "x-mcp-exclude-tools"@) matches Some(s) ==> f.exclude == csv(s)
            &&& header_text(values, "x-mcp-exclude-tools"@) is None ==> f.exclude.len() == 0
            &&& f.readonly == header_flag(header_text(values, "x-mcp-readonly"@))
        }),
{
}

/// Slashes around a path make no difference.
pub proof fn slashes_around_a_path_do_not_matter(
    f: FilterView,
    front: Seq<char>,
    path: Seq<char>,
    back: Seq<char>,
)
    requires
        all_of(front, CharClass::Only('/')),
        all_of(back, CharClass::Only('/')),
        path.len() > 0 ==> path[0] != '/' && path.last() != '/',
    ensures
        f.with_path(front + path + back) == f.with_path(path),
{
    let none = Seq::<char>::empty();
    trim_keeps_the_middle(front, path, back, CharClass::Only('/'));
    trim_keeps_the_middle(none, path, none, CharClass::Only('/'));
    assert(none + path + none =~= path);
}

/// A route changes a filter in two ways at most: it can make it read-only, and it can
/// restrict its toolsets. The path `mcp/readonly` does the first; `mcp/x/` with a list
/// does the second; with `/readonly` after the list it does both. Every other path
/// leaves the filter as it is.
pub proof fn routes_restrict_in_two_ways(f: FilterView, path: Seq<char>)
    ensures
        f.with_path(path).only == f.only,
        f.with_path(path).exclude == f.exclude,
        f.with_path(path).readonly <==> f.readonly || trim(path, CharClass::Only('/'))
            == "mcp/readonly"@ || exists|list: Seq<char>|
            !list.contains('/') && trim(path, CharClass::Only('/')) == #[trigger] ("mcp/x/"@ + list
                + "/readonly"@),
        f.with_path(path).toolsets != f.toolsets ==> exists|list: Seq<char>|
            !list.contains('/') && (trim(path, CharClass::Only('/')) == #[trigger] ("mcp/x/"@ + list)
                || trim(path, CharClass::Only('/')) == "mcp/x/"@ + list + "/readonly"@)
                && f.with_path(path).toolsets == common_toolsets(f.toolsets, csv(list)),
{
    reveal_strlit("mcp/readonly");
    reveal_strlit("mcp/x/");
    reveal_strlit("/readonly");
    reveal_strlit("mcp");
    reveal_strlit("x");
    reveal_strlit("readonly");
    let t = trim(path, CharClass::Only('/'));
    let segs = segments(path);
    join_undoes_split(t, '/');
    lemma_unsplit("mcp"@, '/');
    lemma_split_joined("mcp"@, '/', "readonly"@);
    lemma_split_joined("mcp"@, '/', "x"@);
    assert("mcp"@.push('/') + "readonly"@ =~= "mcp/readonly"@);
    assert(seq!["mcp"@].push("readonly"@) =~= seq!["mcp"@, "readonly"@]);
    // what the segments say of the path
    if segs == seq!["mcp"@, "readonly"@] {
        assert(segs.drop_last() =~= seq!["mcp"@]);
        assert(join(seq!["mcp"@], seq!['/']) == "mcp"@);
        assert(t =~= "mcp/readonly"@);
    }
    if segs.len() >= 3 && segs[0] == "mcp"@ && segs[1] == "x"@ {
        let two = segs.take(2);
        let three = segs.take(3);
        let list = segs[2];
        assert(two.drop_last() =~= seq!["mcp"@]);
        assert(join(seq!["mcp"@], seq!['/']) == "mcp"@);
        assert(join(two, seq!['/']) == "mcp"@ + seq!['/'] + "x"@);
        assert(three.drop_last() =~= two);
        assert(join(three, seq!['/']) == join(two, seq!['/']) + seq!['/'] + list);
        assert(join(three, seq!['/']) =~= "mcp/x/"@ + list);
        assert(!list.contains('/'));
        if segs.len() == 3 {
            assert(segs =~= three);
            assert(t == "mcp/x/"@ + list);
        }
        if segs.len() == 4 && segs[3] == "readonly"@ {
            assert(segs.drop_last() =~= three);
            assert(join(segs, seq!['/']) == join(three, seq!['/']) + seq!['/'] + "readonly"@);
            assert(t =~= "mcp/x/"@ + list + "/readonly"@);
        }
    }
    // what the path says of the segments
    assert forall|list: Seq<char>|
        !list.contains('/') && t == #[trigger] ("mcp/x/"@ + list
            + "/readonly"@) implies route_is_readonly(path) by {
        let route = "mcp"@.push('/') + "x"@;
        lemma_split_joined(route, '/', list);
        let longer = route.push('/') + list;
        lemma_split_joined(longer, '/', "readonly"@);
        assert(longer.push('/') + "readonly"@ =~= t);
        assert(segs == seq!["mcp"@].push("x"@).push(list).push("readonly"@));
    }
}

/// Where a route names toolsets, a tool passes only if its toolset is among them; and
/// where the filter named some too, only if it is among those as well.
pub proof fn routes_restrict_toolsets(f: FilterView, list: Seq<char>, i: int)
    requires
        !list.contains('/'),
        csv(list).len() > 0,
        0 <= i < CURATED_TOOLS@.len(),
    ensures
        f.with_path("/mcp/x/"@ + list).allowed().contains(CURATED_TOOLS@[i].0@)
            <==> f.allowed().contains(CURATED_TOOLS@[i].0@) && csv(list).contains(
            CURATED_TOOLS@[i].5@,
        ),
        f.with_path("/mcp/x/"@ + list + "/readonly"@).allowed().contains(CURATED_TOOLS@[i].0@)
            <==> f.allowed().contains(CURATED_TOOLS@[i].0@) && csv(list).contains(
            CURATED_TOOLS@[i].5@,
        ) && CURATED_TOOLS@[i].2@ == "GET"@,
{
    let plain = "/mcp/x/"@ + list;
    let reading = "/mcp/x/"@ + list + "/readonly"@;
    toolset_route_reads_back(list);
    readonly_toolset_route_reads_back(list);
    lemma_toolset_named(i);
    lemma_common(f.toolsets, csv(list), CURATED_TOOLS@[i].5@);
    filters_combine_their_restrictions(f, i);
    filters_combine_their_restrictions(f.with_path(plain), i);
    filters_combine_their_restrictions(f.with_path(reading), i);
}

/// A call is refused, with the tool's name in the words, exactly where the name is
/// not allowed.
pub proof fn refusals_name_the_tool(allow: Set<Seq<char>>, name: Seq<char>)
    ensures
        allow.contains(name) <==> refusal(allow, name) is None,
        refusal(allow, name) matches Some(words) ==> words == "tool '"@ + name
            + "' is not enabled for this endpoint"@,
{
}

} // verus!
