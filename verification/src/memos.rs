//! Requests to the Memos REST API and what its replies mean.
//!
//! The client here decides what is sent and how a reply is read. Sending the
//! bytes is the caller's part.

use vstd::prelude::*;

use crate::json::{Json, JsonValue};
use crate::text::{
    all_of, chars_of, concat2, decimal, decimal_u64, is_white_space, last_piece,
    lemma_last_piece_clean, lemma_split_tail, lemma_trim_end_shape, lemma_trim_shape,
    lemma_trim_twice, lemma_unsplit, opt_text, split, text_of, trim, trim_end,
    trim_keeps_the_middle, trimmed, trimmed_end, CharClass,
};

verus! {

// ---------- ids and queries ----------

/// The id in a resource name: what follows the last `/`, without white space
/// around it.
pub open spec fn id_of(name: Seq<char>) -> Seq<char> {
    trim(split(name, '/').last(), CharClass::Space)
}

/// Accept `memos/abc123` or bare `abc123`; strip to the bare id for path
/// params.
pub fn bare_id(value: &str) -> (r: String)
    ensures
        r@ == id_of(value@),
{
    let v = chars_of(value);
    text_of(trimmed(last_piece(v.as_slice(), '/'), CharClass::Space))
}

/// The query pairs for the parameters that are given and not empty, in order.
pub open spec fn query_of(params: Seq<(Seq<char>, Option<Seq<char>>)>) -> Seq<
    (Seq<char>, Seq<char>),
>
    decreases params.len(),
{
    if params.len() == 0 {
        seq![]
    } else {
        let before = query_of(params.drop_last());
        match params.last().1 {
            Some(s) => if s.len() > 0 {
                before.push((params.last().0, s))
            } else {
                before
            },
            None => before,
        }
    }
}

/// The views of optional parameters.
pub open spec fn param_views(params: Seq<(&str, Option<String>)>) -> Seq<
    (Seq<char>, Option<Seq<char>>),
> {
    params.map_values(|p: (&str, Option<String>)| (p.0@, opt_text(p.1)))
}

/// The views of name and value pairs.
pub open spec fn pairs(v: Seq<(String, String)>) -> Seq<(Seq<char>, Seq<char>)> {
    v.map_values(|p: (String, String)| (p.0@, p.1@))
}

/// Query pairs for the parameters that are given and not empty.
pub fn opt_query(params: Vec<(&str, Option<String>)>) -> (r: Vec<(String, String)>)
    ensures
        pairs(r@) == query_of(param_views(params@)),
{
    let mut out: Vec<(String, String)> = Vec::new();
    let ghost all = param_views(params@);
    let mut i: usize = 0;
    assert(pairs(out@) =~= query_of(all.take(0)));
    while i < params.len()
        invariant
            i <= params@.len(),
            all == param_views(params@),
            pairs(out@) == query_of(all.take(i as int)),
        decreases params@.len() - i,
    {
        let ghost had = pairs(out@);
        assert(all.take(i + 1).drop_last() =~= all.take(i as int));
        assert(all.take(i + 1).last() == (params@[i as int].0@, opt_text(params@[i as int].1)));
        if let Some(s) = &params[i].1 {
            if !s.as_str().is_empty() {
                out.push((params[i].0.to_owned(), s.clone()));
                assert(pairs(out@) =~= had.push((params@[i as int].0@, s@)));
            }
        }
        i = i + 1;
    }
    assert(all.take(i as int) =~= all);
    out
}

// ---------- requests ----------

/// An HTTP method that the API is called with.
#[derive(Debug, Clone, Copy, PartialEq, Eq, Structural)]
pub enum Method {
    Get,
    Post,
    Patch,
    Delete,
}

/// A request that is ready to be sent.
#[derive(Debug, PartialEq, Eq)]
pub struct Outgoing {
    pub method: Method,
    pub url: String,
    /// The token for `Authorization: Bearer`, if the request carries one.
    pub bearer: Option<String>,
    pub query: Vec<(String, String)>,
    pub body: Option<Json>,
}

/// The mathematical value of an [`Outgoing`].
pub ghost struct OutgoingView {
    pub method: Method,
    pub url: Seq<char>,
    pub bearer: Option<Seq<char>>,
    pub query: Seq<(Seq<char>, Seq<char>)>,
    pub body: Option<JsonValue>,
}

/// The value of an optional body.
pub open spec fn opt_json(o: Option<Json>) -> Option<JsonValue> {
    match o {
        Some(j) => Some(j@),
        None => None,
    }
}

impl View for Outgoing {
    type V = OutgoingView;

    open spec fn view(&self) -> OutgoingView {
        OutgoingView {
            method: self.method,
            url: self.url@,
            bearer: opt_text(self.bearer),
            query: pairs(self.query@),
            body: opt_json(self.body),
        }
    }
}

/// Where the API is and the token it is called with.
#[derive(Clone, Debug)]
pub struct MemosClient {
    base_url: String,
    token: String,
}

/// The mathematical value of a [`MemosClient`].
pub ghost struct ClientView {
    /// The base URL, without `/` at its end.
    pub base_url: Seq<char>,
    pub token: Seq<char>,
}

impl View for MemosClient {
    type V = ClientView;

    closed spec fn view(&self) -> ClientView {
        ClientView { base_url: self.base_url@, token: self.token@ }
    }
}

impl ClientView {
    /// The request with the given parts. It carries the token unless that is
    /// empty.
    pub open spec fn request(
        self,
        method: Method,
        path: Seq<char>,
        query: Seq<(Seq<char>, Seq<char>)>,
        body: Option<JsonValue>,
    ) -> OutgoingView {
        OutgoingView {
            method,
            url: self.base_url + path,
            bearer: if self.token.len() == 0 {
                None
            } else {
                Some(self.token)
            },
            query,
            body,
        }
    }

    /// A request that reads.
    pub open spec fn get(self, path: Seq<char>, query: Seq<(Seq<char>, Seq<char>)>) -> OutgoingView {
        self.request(Method::Get, path, query, None)
    }

    /// A request that creates.
    pub open spec fn post(
        self,
        path: Seq<char>,
        query: Seq<(Seq<char>, Seq<char>)>,
        body: JsonValue,
    ) -> OutgoingView {
        self.request(Method::Post, path, query, Some(body))
    }

    /// A request that changes.
    pub open spec fn patch(
        self,
        path: Seq<char>,
        query: Seq<(Seq<char>, Seq<char>)>,
        body: JsonValue,
    ) -> OutgoingView {
        self.request(Method::Patch, path, query, Some(body))
    }

    /// A request that deletes.
    pub open spec fn delete(self, path: Seq<char>) -> OutgoingView {
        self.request(Method::Delete, path, seq![], None)
    }
}

/// No query pairs.
pub fn no_query() -> (r: Vec<(String, String)>)
    ensures
        pairs(r@) == Seq::<(Seq<char>, Seq<char>)>::empty(),
{
    let v: Vec<(String, String)> = Vec::new();
    assert(pairs(v@) =~= Seq::<(Seq<char>, Seq<char>)>::empty());
    v
}

impl MemosClient {
    /// A client for the API at `base_url`.
    pub fn new(base_url: String, token: String) -> (r: MemosClient)
        ensures
            r@ == (ClientView {
                base_url: trim_end(base_url@, CharClass::Only('/')),
                token: token@,
            }),
    {
        let v = chars_of(base_url.as_str());
        MemosClient { base_url: text_of(trimmed_end(v.as_slice(), CharClass::Only('/'))), token }
    }

    /// The full URL of a path of the API.
    pub fn url(&self, path: &str) -> (r: String)
        ensures
            r@ == self@.base_url + path@,
    {
        concat2(self.base_url.as_str(), path)
    }

    /// The request with the given parts.
    pub fn request(
        &self,
        method: Method,
        path: &str,
        query: Vec<(String, String)>,
        body: Option<Json>,
    ) -> (r: Outgoing)
        ensures
            r@ == self@.request(method, path@, pairs(query@), opt_json(body)),
    {
        let bearer = if self.token.as_str().is_empty() {
            None
        } else {
            Some(self.token.clone())
        };
        Outgoing { method, url: self.url(path), bearer, query, body }
    }

    /// A request that reads.
    pub fn get(&self, path: &str, query: Vec<(String, String)>) -> (r: Outgoing)
        ensures
            r@ == self@.get(path@, pairs(query@)),
    {
        self.request(Method::Get, path, query, None)
    }

    /// A request that creates.
    pub fn post(&self, path: &str, body: Json) -> (r: Outgoing)
        ensures
            r@ == self@.post(path@, seq![], body@),
    {
        self.request(Method::Post, path, no_query(), Some(body))
    }

    /// A request that creates, with query pairs.
    pub fn post_q(&self, path: &str, query: Vec<(String, String)>, body: Json) -> (r: Outgoing)
        ensures
            r@ == self@.post(path@, pairs(query@), body@),
    {
        self.request(Method::Post, path, query, Some(body))
    }

    /// A request that changes.
    pub fn patch(&self, path: &str, body: Json) -> (r: Outgoing)
        ensures
            r@ == self@.patch(path@, seq![], body@),
    {
        self.request(Method::Patch, path, no_query(), Some(body))
    }

    /// A request that changes, with query pairs.
    pub fn patch_q(&self, path: &str, query: Vec<(String, String)>, body: Json) -> (r: Outgoing)
        ensures
            r@ == self@.patch(path@, pairs(query@), body@),
    {
        self.request(Method::Patch, path, query, Some(body))
    }

    /// A request that deletes.
    pub fn delete(&self, path: &str) -> (r: Outgoing)
        ensures
            r@ == self@.delete(path@),
    {
        self.request(Method::Delete, path, no_query(), None)
    }
}

// ---------- replies ----------

/// Why a request gave no value.
#[derive(Debug, PartialEq, Eq)]
pub enum ClientError {
    /// The request could not be sent.
    Send(String),
    /// The reply's body could not be read.
    Read(String),
    /// The reply's body is not JSON.
    Decode(String),
    /// The reply has a status other than success.
    Status(String),
}

/// The mathematical value of a [`ClientError`].
pub ghost enum Fault {
    Send(Seq<char>),
    Read(Seq<char>),
    Decode(Seq<char>),
    Status(Seq<char>),
}

impl View for ClientError {
    type V = Fault;

    open spec fn view(&self) -> Fault {
        match self {
            ClientError::Send(s) => Fault::Send(s@),
            ClientError::Read(s) => Fault::Read(s@),
            ClientError::Decode(s) => Fault::Decode(s@),
            ClientError::Status(s) => Fault::Status(s@),
        }
    }
}

impl Fault {
    /// What went wrong, in words, with the cause last.
    pub open spec fn message(self) -> Seq<char> {
        match self {
            Fault::Send(s) => "memos request failed: "@ + s,
            Fault::Read(s) => "read memos response: "@ + s,
            Fault::Decode(s) => "decode memos JSON response: "@ + s,
            Fault::Status(s) => s,
        }
    }
}

impl ClientError {
    /// What went wrong, in words, with the cause last.
    pub fn message(&self) -> (r: String)
        ensures
            r@ == self@.message(),
    {
        match self {
            ClientError::Send(s) => concat2("memos request failed: ", s.as_str()),
            ClientError::Read(s) => concat2("read memos response: ", s.as_str()),
            ClientError::Decode(s) => concat2("decode memos JSON response: ", s.as_str()),
            ClientError::Status(s) => s.clone(),
        }
    }
}

/// The standard reason phrase of an HTTP status code.
pub uninterp spec fn reason_phrase(code: u16) -> Option<Seq<char>>;

/// `http::StatusCode::canonical_reason`: the standard reason phrase of a status
/// code, from the table in the `http` crate. A code without a phrase, or outside
/// 100 to 999, has none.
#[verifier::external_body]
fn canonical_reason(code: u16) -> (r: Option<String>)
    ensures
        opt_text(r) == reason_phrase(code),
{
    http::StatusCode::from_u16(code).ok().and_then(|s| s.canonical_reason()).map(|s| s.to_string())
}

/// ASCII white space: space, tab, line feed, form feed, carriage return.
pub open spec fn is_blank_byte(b: u8) -> bool {
    b == 0x20 || b == 0x9 || b == 0xa || b == 0xc || b == 0xd
}

/// Does the body hold nothing but ASCII white space?
pub open spec fn is_blank(body: Seq<u8>) -> bool {
    forall|i: int| 0 <= i < body.len() ==> is_blank_byte(#[trigger] body[i])
}

/// Does the body hold nothing but ASCII white space?
pub fn blank(body: &[u8]) -> (r: bool)
    ensures
        r == is_blank(body@),
{
    let mut i: usize = 0;
    while i < body.len()
        invariant
            i <= body@.len(),
            forall|j: int| 0 <= j < i ==> is_blank_byte(#[trigger] body@[j]),
        decreases body@.len() - i,
    {
        let b: u8 = body[i];
        if !(b == 0x20 || b == 0x9 || b == 0xa || b == 0xc || b == 0xd) {
            assert(!is_blank_byte(body@[i as int]));
            return false;
        }
        i = i + 1;
    }
    true
}

/// What a reply with an error status says: its `message`, else its `error`,
/// else the reason phrase, else `error`.
pub open spec fn complaint(value: JsonValue, reason: Option<Seq<char>>) -> Seq<char> {
    match value.text_at("message"@) {
        Some(s) => s,
        None => match value.text_at("error"@) {
            Some(s) => s,
            None => match reason {
                Some(s) => s,
                None => "error"@,
            },
        },
    }
}

/// The text for a reply with an error status: the code, the code again with its
/// reason phrase, and the complaint.
pub open spec fn status_text(
    status: u16,
    reason: Option<Seq<char>>,
    value: JsonValue,
) -> Seq<char> {
    decimal(status as nat) + " "@ + decimal(status as nat) + " "@ + match reason {
        Some(s) => s,
        None => "<unknown status code>"@,
    } + ": "@ + complaint(value, reason)
}

/// What a reply means, given its status, the reason phrase of that status, its
/// body, and what a JSON decoder made of the body. A blank body is null,
/// whatever the decoder made of it; a body that is not JSON is an error, whatever
/// the status; after that the status decides.
pub open spec fn reply_meaning(
    status: u16,
    reason: Option<Seq<char>>,
    body: Seq<u8>,
    decoded: Result<JsonValue, Seq<char>>,
) -> Result<JsonValue, Fault> {
    match (if is_blank(body) {
        Ok(JsonValue::Null)
    } else {
        decoded
    }) {
        Err(e) => Err(Fault::Decode(e)),
        Ok(value) => if 200 <= status < 300 {
            Ok(value)
        } else {
            Err(Fault::Status(status_text(status, reason, value)))
        },
    }
}

/// The view of what a decoder made of a body.
pub open spec fn decoded_view(r: Result<Json, String>) -> Result<JsonValue, Seq<char>> {
    match r {
        Ok(j) => Ok(j@),
        Err(e) => Err(e@),
    }
}

/// The view of what a request gave.
pub open spec fn result_view(r: Result<Json, ClientError>) -> Result<JsonValue, Fault> {
    match r {
        Ok(j) => Ok(j@),
        Err(e) => Err(e@),
    }
}

/// Reads a reply whose status has the given reason phrase.
pub fn read_reply_with(
    status: u16,
    reason: Option<String>,
    body: &[u8],
    decoded: Result<Json, String>,
) -> (r: Result<Json, ClientError>)
    ensures
        result_view(r) == reply_meaning(status, opt_text(reason), body@, decoded_view(decoded)),
{
    let value = if blank(body) {
        Json::Null
    } else {
        match decoded {
            Ok(j) => j,
            Err(e) => return Err(ClientError::Decode(e)),
        }
    };
    if 200 <= status && status < 300 {
        return Ok(value);
    }
    let code = decimal_u64(status as u64);
    let mut s: String = code.clone();
    s.append(" ");
    s.append(code.as_str());
    s.append(" ");
    match &reason {
        Some(t) => s.append(t.as_str()),
        None => s.append("<unknown status code>"),
    }
    s.append(": ");
    match value.text_at("message") {
        Some(t) => s.append(t),
        None => match value.text_at("error") {
            Some(t) => s.append(t),
            None => match &reason {
                Some(t) => s.append(t.as_str()),
                None => s.append("error"),
            },
        },
    }
    Err(ClientError::Status(s))
}

/// Reads a reply: its status, its body, and what a JSON decoder made of the
/// body.
pub fn read_reply(status: u16, body: &[u8], decoded: Result<Json, String>) -> (r: Result<
    Json,
    ClientError,
>)
    ensures
        result_view(r) == reply_meaning(
            status,
            reason_phrase(status),
            body@,
            decoded_view(decoded),
        ),
{
    read_reply_with(status, canonical_reason(status), body, decoded)
}

// ---------- laws ----------

/// A resource name and its bare id name the same thing: whatever stands before
/// a `/` is dropped.
pub proof fn id_of_drops_collection(collection: Seq<char>, id: Seq<char>)
    ensures
        id_of(collection.push('/') + id) == id_of(id),
{
    lemma_split_tail(collection, '/', id);
}

/// A bare id is left as it is: taking the id twice changes nothing more.
pub proof fn id_of_is_idempotent(name: Seq<char>)
    ensures
        id_of(id_of(name)) == id_of(name),
{
    let id = id_of(name);
    id_of_is_one_segment(name);
    assert forall|i: int| 0 <= i < id.len() implies id[i] != '/' by {
        assert(id.contains(id[i]));
    }
    lemma_unsplit(id, '/');
    lemma_trim_twice(split(name, '/').last(), CharClass::Space);
}

/// An id never holds a `/`, so it fills exactly one segment of a path.
pub proof fn id_of_is_one_segment(name: Seq<char>)
    ensures
        !id_of(name).contains('/'),
{
    let last = split(name, '/').last();
    lemma_last_piece_clean(name, '/');
    lemma_trim_shape(last, CharClass::Space);
    let id = id_of(name);
    let (a, b) = choose|a: int, b: int|
        0 <= a <= b <= last.len() && id == #[trigger] last.subrange(a, b);
    assert forall|i: int| 0 <= i < id.len() implies id[i] != '/' by {
        assert(id[i] == last[a + i]);
    }
}

/// The base URL of a client never ends in `/`, so that a path follows it with
/// one.
pub proof fn base_url_ends_without_slash(base_url: Seq<char>)
    ensures
        trim_end(base_url, CharClass::Only('/')).len() > 0 ==> trim_end(
            base_url,
            CharClass::Only('/'),
        ).last() != '/',
{
    let n = lemma_trim_end_shape(base_url, CharClass::Only('/'));
}

/// A query never carries an empty value.
pub proof fn query_has_no_empty_value(params: Seq<(Seq<char>, Option<Seq<char>>)>)
    ensures
        forall|i: int| 0 <= i < query_of(params).len() ==> (#[trigger] query_of(params)[i]).1.len()
            > 0,
    decreases params.len(),
{
    if params.len() > 0 {
        let before = query_of(params.drop_last());
        query_has_no_empty_value(params.drop_last());
        assert forall|i: int| 0 <= i < query_of(params).len() implies (#[trigger] query_of(
            params,
        )[i]).1.len() > 0 by {
            if i < before.len() {
                assert(query_of(params)[i] == before[i]);
            }
        }
    }
}

/// A success is a reply with a status from 200 to 299 whose body is blank or
/// JSON; every other reply is an error.
pub proof fn reply_succeeds_exactly(
    status: u16,
    reason: Option<Seq<char>>,
    body: Seq<u8>,
    decoded: Result<JsonValue, Seq<char>>,
)
    ensures
        reply_meaning(status, reason, body, decoded) is Ok <==> 200 <= status < 300 && (is_blank(
            body,
        ) || decoded is Ok),
{
}

/// The id in a name is what stands after the last `/`, character for character, with
/// or without white space around it.
pub proof fn ids_are_kept(
    collection: Seq<char>,
    front: Seq<char>,
    id: Seq<char>,
    back: Seq<char>,
)
    requires
        all_of(front, CharClass::Space),
        all_of(back, CharClass::Space),
        !id.contains('/'),
        id.len() > 0 ==> !is_white_space(id[0]) && !is_white_space(id.last()),
    ensures
        id_of(collection + seq!['/'] + front + id + back) == id,
        id_of(front + id + back) == id,
{
    let tail = front + id + back;
    assert forall|j: int| 0 <= j < tail.len() implies tail[j] != '/' by {
        if j < front.len() {
            assert(tail[j] == front[j]);
            assert(CharClass::Space.holds(front[j]));
        } else if j < front.len() + id.len() {
            assert(tail[j] == id[j - front.len()]);
            assert(id.contains(id[j - front.len()]));
        } else {
            assert(tail[j] == back[j - front.len() - id.len()]);
            assert(CharClass::Space.holds(back[j - front.len() - id.len()]));
        }
    }
    lemma_unsplit(tail, '/');
    trim_keeps_the_middle(front, id, back, CharClass::Space);
    lemma_split_tail(collection, '/', tail);
    assert(collection + seq!['/'] + front + id + back =~= collection.push('/') + tail);
}

/// A query has exactly the parameters that are given and not empty, each under its
/// name with its value, in the order given.
pub proof fn queries_carry_what_is_given(
    a: Seq<(Seq<char>, Option<Seq<char>>)>,
    b: Seq<(Seq<char>, Option<Seq<char>>)>,
    key: Seq<char>,
    value: Seq<char>,
)
    ensures
        query_of(a + b) == query_of(a) + query_of(b),
        query_of(seq![(key, None::<Seq<char>>)]).len() == 0,
        query_of(seq![(key, Some(value))]) == if value.len() > 0 {
            seq![(key, value)]
        } else {
            seq![]
        },
    decreases b.len(),
{
    let none = Seq::<(Seq<char>, Option<Seq<char>>)>::empty();
    let absent = seq![(key, None::<Seq<char>>)];
    let given = seq![(key, Some(value))];
    assert(query_of(none) =~= seq![]);
    assert(absent.drop_last() =~= none);
    assert(given.drop_last() =~= none);
    assert(query_of(given) =~= if value.len() > 0 {
        seq![(key, value)]
    } else {
        seq![]
    });
    if b.len() == 0 {
        assert(a + b =~= a);
        assert(query_of(a) + query_of(b) =~= query_of(a));
    } else {
        queries_carry_what_is_given(a, b.drop_last(), key, value);
        assert((a + b).drop_last() =~= a + b.drop_last());
        assert((a + b).last() == b.last());
        assert(query_of(a + b) =~= query_of(a) + query_of(b));
    }
}

/// A pair is in a query exactly where the parameter is given with that value, which is
/// not empty.
pub proof fn query_holds_exactly(
    params: Seq<(Seq<char>, Option<Seq<char>>)>,
    key: Seq<char>,
    value: Seq<char>,
)
    ensures
        query_of(params).contains((key, value)) <==> value.len() > 0 && params.contains(
            (key, Some(value)),
        ),
    decreases params.len(),
{
    let all = query_of(params);
    if params.len() > 0 {
        let rest = params.drop_last();
        let before = query_of(rest);
        query_holds_exactly(rest, key, value);
        if rest.contains((key, Some(value))) {
            let i = choose|i: int| 0 <= i < rest.len() && rest[i] == (key, Some(value));
            assert(params[i] == (key, Some(value)));
        }
        if params.contains((key, Some(value))) && !rest.contains((key, Some(value))) {
            let i = choose|i: int| 0 <= i < params.len() && params[i] == (key, Some(value));
            if i < rest.len() {
                assert(rest[i] == (key, Some(value)));
            }
            assert(params.last() == (key, Some(value)));
            if value.len() > 0 {
                assert(all == before.push((key, value)));
                assert(all[before.len() as int] == (key, value));
            }
        }
        if before.contains((key, value)) {
            let i = choose|i: int| 0 <= i < before.len() && before[i] == (key, value);
            assert(all[i] == (key, value));
        }
        if all.contains((key, value)) && !before.contains((key, value)) {
            let i = choose|i: int| 0 <= i < all.len() && all[i] == (key, value);
            if i < before.len() {
                assert(before[i] == (key, value));
            }
            assert(params.last() == (key, Some(value)));
            assert(params[params.len() - 1] == (key, Some(value)));
        }
    }
}

/// A request is what was asked for: the method, the query and the body as they were
/// given, the path after the base URL, and the token unless that is empty.
pub proof fn requests_are_what_was_asked(
    client: ClientView,
    method: Method,
    path: Seq<char>,
    query: Seq<(Seq<char>, Seq<char>)>,
    body: JsonValue,
)
    ensures
        client.request(method, path, query, Some(body)).method == method,
        client.request(method, path, query, Some(body)).query == query,
        client.request(method, path, query, Some(body)).body == Some(body),
        client.request(method, path, query, Some(body)).url == client.base_url + path,
        client.request(method, path, query, None).body is None,
        client.token.len() > 0 ==> client.request(method, path, query, None).bearer == Some(
            client.token,
        ),
        client.token.len() == 0 ==> client.request(method, path, query, None).bearer is None,
        client.get(path, query) == client.request(Method::Get, path, query, None),
        client.post(path, query, body) == client.request(Method::Post, path, query, Some(body)),
        client.patch(path, query, body) == client.request(Method::Patch, path, query, Some(body)),
        client.delete(path) == client.request(Method::Delete, path, seq![], None),
{
}

/// A reply with a status of success means the very value that the decoder made of its
/// body, or null where the body is blank.
pub proof fn successful_replies_give_their_value(
    status: u16,
    reason: Option<Seq<char>>,
    body: Seq<u8>,
    value: JsonValue,
    decoded: Result<JsonValue, Seq<char>>,
)
    requires
        200 <= status < 300,
    ensures
        !is_blank(body) ==> reply_meaning(status, reason, body, Ok(value)) == Ok::<
            JsonValue,
            Fault,
        >(value),
        is_blank(body) ==> reply_meaning(status, reason, body, decoded) == Ok::<JsonValue, Fault>(
            JsonValue::Null,
        ),
{
}

/// A body is blank exactly where it has no byte but space, tab, line feed, form feed
/// and carriage return.
pub proof fn blank_bodies_hold_white_space_only(body: Seq<u8>)
    ensures
        is_blank(body) <==> forall|i: int|
            0 <= i < body.len() ==> {
                ||| (#[trigger] body[i]) == 32
                ||| body[i] == 9
                ||| body[i] == 10
                ||| body[i] == 12
                ||| body[i] == 13
            },
{
    if is_blank(body) {
        assert forall|i: int| 0 <= i < body.len() implies {
            ||| (#[trigger] body[i]) == 32
            ||| body[i] == 9
            ||| body[i] == 10
            ||| body[i] == 12
            ||| body[i] == 13
        } by {
            assert(is_blank_byte(body[i]));
        }
    }
}

/// A body that is not blank and not JSON is an error of decoding, with the decoder's
/// words, whatever the status.
pub proof fn undecoded_replies_say_why(
    status: u16,
    reason: Option<Seq<char>>,
    body: Seq<u8>,
    words: Seq<char>,
)
    requires
        !is_blank(body),
    ensures
        reply_meaning(status, reason, body, Err(words)) == Err::<JsonValue, Fault>(
            Fault::Decode(words),
        ),
{
}

/// A reply with another status is an error whose words begin with the code, name the
/// code and its reason, and end in what the API said: its `message`, or else its
/// `error`, or else the reason, where there is one.
pub proof fn failed_replies_say_what_the_api_said(
    status: u16,
    reason: Option<Seq<char>>,
    body: Seq<u8>,
    value: JsonValue,
)
    requires
        !(200 <= status < 300),
        !is_blank(body),
    ensures
        reply_meaning(status, reason, body, Ok(value)) matches Err(Fault::Status(words)) && {
            let code = decimal(status as nat);
            let shown = match reason {
                Some(r) => r,
                None => "<unknown status code>"@,
            };
            let front = code + seq![' '] + code + seq![' '] + shown + seq![':', ' '];
            let by_error = value.get("error"@);
            &&& value.get("message"@) matches Some(JsonValue::Text(m)) ==> words == front + m
            &&& !(value.get("message"@) matches Some(JsonValue::Text(_))) ==> {
                &&& by_error matches Some(JsonValue::Text(m)) ==> words == front + m
                &&& !(by_error matches Some(JsonValue::Text(_))) ==> words == front + match reason {
                    Some(r) => r,
                    None => "error"@,
                }
            }
        },
{
    reveal_strlit(" ");
    reveal_strlit(": ");
    assert(" "@ =~= seq![' ']);
    assert(": "@ =~= seq![':', ' ']);
}

/// The words for a failure end in its cause, and say at which step it happened.
pub proof fn messages_end_in_their_cause(cause: Seq<char>)
    ensures
        Fault::Send(cause).message() == "memos request failed: "@ + cause,
        Fault::Read(cause).message() == "read memos response: "@ + cause,
        Fault::Decode(cause).message() == "decode memos JSON response: "@ + cause,
        Fault::Status(cause).message() == cause,
{
}

} // verus!
