//! Reading all memos, page by page.

use vstd::prelude::*;

use crate::json::{items, Json, JsonValue};
use crate::memos::{
    opt_query, param_views, query_holds_exactly, query_of, ClientView, MemosClient, Method,
    Outgoing, OutgoingView,
};
use crate::text::opt_text;

verus! {

/// A listing of memos in progress.
#[derive(Debug)]
pub struct Paging {
    filter: Option<String>,
    token: Option<String>,
    memos: Vec<Json>,
}

/// The mathematical value of a [`Paging`].
pub ghost struct PagingView {
    /// The filter that the memos are listed by.
    pub filter: Option<Seq<char>>,
    /// Where the next page begins: none at the start and at the end.
    pub token: Option<Seq<char>>,
    /// The memos of the pages read so far.
    pub memos: Seq<JsonValue>,
}

impl View for Paging {
    type V = PagingView;

    closed spec fn view(&self) -> PagingView {
        PagingView {
            filter: opt_text(self.filter),
            token: opt_text(self.token),
            memos: items(self.memos@),
        }
    }
}

/// Where the page after this one begins: none where this is the last.
pub open spec fn next_token(page: JsonValue) -> Option<Seq<char>> {
    match page.text_at("nextPageToken"@) {
        Some(t) => if t.len() > 0 {
            Some(t)
        } else {
            None
        },
        None => None,
    }
}

/// The query for a page.
pub open spec fn page_query(filter: Option<Seq<char>>, token: Option<Seq<char>>) -> Seq<
    (Seq<char>, Seq<char>),
> {
    query_of(
        seq![("pageSize"@, Some("1000"@)), ("pageToken"@, token), ("filter"@, filter)],
    )
}

impl PagingView {
    /// The listing before its first page.
    pub open spec fn start(filter: Option<Seq<char>>) -> PagingView {
        PagingView { filter, token: None, memos: seq![] }
    }

    /// The request for the next page.
    pub open spec fn request(self, client: ClientView) -> OutgoingView {
        client.get("/api/v1/memos"@, page_query(self.filter, self.token))
    }

    /// The listing after one more page.
    pub open spec fn after(self, page: JsonValue) -> PagingView {
        PagingView {
            filter: self.filter,
            token: next_token(page),
            memos: self.memos + page.array_at("memos"@),
        }
    }

    /// The listing after several more pages.
    pub open spec fn after_all(self, pages: Seq<JsonValue>) -> PagingView
        decreases pages.len(),
    {
        if pages.len() == 0 {
            self
        } else {
            self.after_all(pages.drop_last()).after(pages.last())
        }
    }
}

impl Paging {
    /// The listing before its first page.
    pub fn start(filter: Option<String>) -> (r: Paging)
        ensures
            r@ == PagingView::start(opt_text(filter)),
    {
        let r = Paging { filter, token: None, memos: Vec::new() };
        assert(r@.memos =~= seq![]);
        r
    }

    /// The request for the next page.
    pub fn request(&self, client: &MemosClient) -> (r: Outgoing)
        ensures
            r@ == self@.request(client@),
    {
        let params = vec![
            ("pageSize", Some("1000".to_owned())),
            ("pageToken", self.token.clone()),
            ("filter", self.filter.clone()),
        ];
        assert(param_views(params@) =~= seq![
            ("pageSize"@, Some("1000"@)),
            ("pageToken"@, self@.token),
            ("filter"@, self@.filter),
        ]);
        client.get("/api/v1/memos", opt_query(params))
    }

    /// Takes a page in. Says whether there is another one.
    pub fn accept(&mut self, page: Json) -> (more: bool)
        ensures
            final(self)@ == old(self)@.after(page@),
            more == next_token(page@) is Some,
    {
        self.token = match page.text_at("nextPageToken") {
            Some(t) => if t.is_empty() {
                None
            } else {
                Some(t.to_owned())
            },
            None => None,
        };
        let ghost had = items(self.memos@);
        let mut more = page.take_array("memos");
        let ghost added = items(more@);
        self.memos.append(&mut more);
        assert(items(self.memos@) =~= had + added);
        self.token.is_some()
    }

    /// The memos of the pages read so far.
    pub fn into_memos(self) -> (r: Vec<Json>)
        ensures
            items(r@) == self@.memos,
    {
        self.memos
    }
}

// ---------- laws ----------

/// The memos of several pages, in order.
pub open spec fn page_memos(pages: Seq<JsonValue>) -> Seq<JsonValue>
    decreases pages.len(),
{
    if pages.len() == 0 {
        seq![]
    } else {
        page_memos(pages.drop_last()) + pages.last().array_at("memos"@)
    }
}

/// A listing collects the memos of all its pages, in order; it goes on exactly
/// where the last page names a next one, and its filter stays what it was.
pub proof fn paging_collects_every_page(filter: Option<Seq<char>>, pages: Seq<JsonValue>)
    ensures
        PagingView::start(filter).after_all(pages) == (PagingView {
            filter,
            token: if pages.len() == 0 {
                None
            } else {
                next_token(pages.last())
            },
            memos: page_memos(pages),
        }),
    decreases pages.len(),
{
    if pages.len() > 0 {
        paging_collects_every_page(filter, pages.drop_last());
    }
}

/// A listing asks for each page where the one before said that it begins, by the
/// same filter.
pub proof fn paging_follows_tokens(
    client: ClientView,
    filter: Option<Seq<char>>,
    pages: Seq<JsonValue>,
    k: int,
)
    requires
        0 <= k < pages.len(),
    ensures
        PagingView::start(filter).after_all(pages.take(k)).request(client) == client.get(
            "/api/v1/memos"@,
            page_query(
                filter,
                if k == 0 {
                    None
                } else {
                    next_token(pages[k - 1])
                },
            ),
        ),
{
    paging_collects_every_page(filter, pages.take(k));
    if k > 0 {
        assert(pages.take(k).last() == pages[k - 1]);
    }
}

/// A page names the next one exactly where its `nextPageToken` is a text that is not
/// empty, and then by that text.
pub proof fn pages_name_the_next(page: JsonValue, token: Seq<char>)
    ensures
        next_token(page) == Some(token) <==> token.len() > 0 && page.get("nextPageToken"@) == Some(
            JsonValue::Text(token),
        ),
{
}

/// The request for a page carries the filter and the token where they are given and
/// not empty, and the size of a page; and nothing else.
pub proof fn page_requests_carry_filter_and_token(
    client: ClientView,
    paging: PagingView,
    key: Seq<char>,
    value: Seq<char>,
)
    ensures
        paging.request(client).query.contains((key, value)) <==> value.len() > 0 && {
            ||| key == "pageSize"@ && value == "1000"@
            ||| key == "pageToken"@ && paging.token == Some(value)
            ||| key == "filter"@ && paging.filter == Some(value)
        },
        paging.request(client).method == Method::Get,
        paging.request(client).url == client.base_url + "/api/v1/memos"@,
{
    let params = seq![
        ("pageSize"@, Some("1000"@)),
        ("pageToken"@, paging.token),
        ("filter"@, paging.filter),
    ];
    query_holds_exactly(params, key, value);
    let pair = (key, Some(value));
    if params.contains(pair) {
        let i = choose|i: int| 0 <= i < params.len() && params[i] == pair;
        assert(i == 0 || i == 1 || i == 2);
    }
    if key == "pageSize"@ && value == "1000"@ {
        assert(params[0] == pair);
    }
    if key == "pageToken"@ && paging.token == Some(value) {
        assert(params[1] == pair);
    }
    if key == "filter"@ && paging.filter == Some(value) {
        assert(params[2] == pair);
    }
}

/// A page adds its memos after those read before, each as it is, and keeps the filter.
pub proof fn pages_add_their_memos(paging: PagingView, page: JsonValue, memos: Seq<JsonValue>)
    requires
        page.get("memos"@) == Some(JsonValue::Array(memos)),
    ensures
        paging.after(page).memos == paging.memos + memos,
        paging.after(page).filter == paging.filter,
{
}

/// A page without a list of memos adds none.
pub proof fn pages_without_memos_add_none(paging: PagingView, page: JsonValue)
    requires
        !(page.get("memos"@) matches Some(JsonValue::Array(_))),
    ensures
        paging.after(page).memos == paging.memos,
        paging.after(page).filter == paging.filter,
{
    assert(paging.memos + page.array_at("memos"@) =~= paging.memos);
}

} // verus!
