//! Which origins a request may come from.

use vstd::prelude::*;
use vstd::slice::slice_subrange;

use crate::headers::{first_value, header_text, header_values};
use crate::text::{
    chars_of, last_piece, lemma_split_nonempty, lemma_split_tail, lemma_unsplit, occurs, opt_text,
    same, split, text_of, trim_end, trimmed_end, CharClass,
};

verus! {

// ---------- the host of a `Host` header ----------

/// The position of the first `]:` in `s`, or the length of `s`.
pub open spec fn first_close(s: Seq<char>) -> int
    decreases s.len(),
{
    if s.len() < 2 {
        s.len() as int
    } else if s[0] == ']' && s[1] == ':' {
        0
    } else {
        1 + first_close(s.drop_first())
    }
}

/// Does the text consist of ASCII digits alone?
pub open spec fn is_digits(s: Seq<char>) -> bool {
    forall|i: int| 0 <= i < s.len() ==> '0' <= #[trigger] s[i] <= '9'
}

/// A host header without what stands before the last `@` and without a `[` at
/// its start.
pub open spec fn authority(host: Seq<char>) -> Seq<char> {
    let h = split(host, '@').last();
    if h.len() > 0 && h[0] == '[' {
        h.drop_first()
    } else {
        h
    }
}

/// The host that a host header names: the part before `]:`, or else the part
/// before the last `:` where only digits follow it, or else the whole; without
/// `]` at the end.
pub open spec fn host_part(host: Seq<char>) -> Seq<char> {
    let h = authority(host);
    let port = split(h, ':').last();
    let name = if first_close(h) < h.len() {
        h.take(first_close(h))
    } else if is_digits(port) {
        h.take(h.len() - port.len() - 1)
    } else {
        h
    };
    trim_end(name, CharClass::Only(']'))
}

/// Does the header name a host at all? It does not where it is empty or a bare
/// port.
pub open spec fn names_host(host: Seq<char>) -> bool {
    let h = authority(host);
    first_close(h) < h.len() || h.contains(':') || !is_digits(h)
}

/// The position of the first `]:`, or the length.
fn find_close(s: &[char]) -> (r: usize)
    ensures
        r == first_close(s@),
        r <= s@.len(),
{
    let mut i: usize = 0;
    assert(s@.skip(0) =~= s@);
    while i < s.len()
        invariant
            i <= s@.len(),
            first_close(s@) == i + first_close(s@.skip(i as int)),
        decreases s@.len() - i,
    {
        if s.len() - i < 2 {
            assert(s@.skip(i as int).len() == 1);
            return s.len();
        }
        if s[i] == ']' && s[i + 1] == ':' {
            return i;
        }
        assert(s@.skip(i as int).drop_first() =~= s@.skip(i + 1));
        i = i + 1;
    }
    i
}

/// Does the text consist of ASCII digits alone?
fn all_digits(s: &[char]) -> (r: bool)
    ensures
        r == is_digits(s@),
{
    let mut i: usize = 0;
    while i < s.len()
        invariant
            i <= s@.len(),
            forall|j: int| 0 <= j < i ==> '0' <= #[trigger] s@[j] <= '9',
        decreases s@.len() - i,
    {
        if !('0' <= s[i] && s[i] <= '9') {
            assert(!('0' <= s@[i as int] <= '9'));
            return false;
        }
        i = i + 1;
    }
    true
}

/// A host header without what stands before the last `@` and without a `[` at
/// its start.
fn authority_of(host: &[char]) -> (r: &[char])
    ensures
        r@ == authority(host@),
{
    let h = last_piece(host, '@');
    if h.len() > 0 && h[0] == '[' {
        let r = slice_subrange(h, 1, h.len());
        assert(r@ =~= h@.drop_first());
        r
    } else {
        h
    }
}

/// Does the header name a host at all?
pub fn has_host(host: &str) -> (r: bool)
    ensures
        r == names_host(host@),
{
    let v = chars_of(host);
    let h = authority_of(v.as_slice());
    find_close(h) < h.len() || occurs(h, ':') || !all_digits(h)
}

/// The last piece is shorter than the text where the separator occurs, and is
/// the text where it does not.
proof fn lemma_last_piece_len(s: Seq<char>, sep: char)
    ensures
        s.contains(sep) ==> split(s, sep).last().len() < s.len(),
        !s.contains(sep) ==> split(s, sep).last() == s,
    decreases s.len(),
{
    if !s.contains(sep) {
        assert forall|j: int| 0 <= j < s.len() implies s[j] != sep by {
            assert(s.contains(s[j]));
        }
        lemma_unsplit(s, sep);
    } else {
        lemma_split_nonempty(s.drop_last(), sep);
        if s.last() != sep {
            let i = choose|i: int| 0 <= i < s.len() && s[i] == sep;
            assert(s.drop_last()[i] == sep);
            lemma_last_piece_len(s.drop_last(), sep);
        }
    }
}

/// The host that a `Host` header names, which may be `example.com:5230`: the
/// host part only.
pub fn host_port_host(host: &str) -> (r: Option<String>)
    requires
        names_host(host@),
    ensures
        opt_text(r) == Some(host_part(host@)),
{
    let v = chars_of(host);
    let h = authority_of(v.as_slice());
    let close = find_close(h);
    let name = if close < h.len() {
        let n = slice_subrange(h, 0, close);
        assert(n@ =~= h@.take(close as int));
        n
    } else {
        let port = last_piece(h, ':');
        if all_digits(port) {
            proof {
                lemma_last_piece_len(h@, ':');
            }
            let n = slice_subrange(h, 0, h.len() - port.len() - 1);
            assert(n@ =~= h@.take(h@.len() - port@.len() - 1));
            n
        } else {
            h
        }
    };
    Some(text_of(trimmed_end(name, CharClass::Only(']'))))
}

// ---------- origins ----------

/// What is read of a URL.
#[derive(Debug, PartialEq, Eq)]
pub struct UrlParts {
    pub scheme: String,
    pub host: Option<String>,
}

/// The view of what was read of a text as a URL.
pub open spec fn parts_view(o: Option<UrlParts>) -> Option<(Seq<char>, Option<Seq<char>>)> {
    match o {
        Some(u) => Some((u.scheme@, opt_text(u.host))),
        None => None,
    }
}

/// The scheme and the host of an absolute URL; none where the text is not one.
pub uninterp spec fn url_parts(s: Seq<char>) -> Option<(Seq<char>, Option<Seq<char>>)>;

/// `url::Url::parse`, and `scheme` and `host_str` of what it gives: whether the
/// text is an absolute URL, and if so its scheme and its host, where it has one.
#[verifier::external_body]
fn parse_url(s: &str) -> (r: Option<UrlParts>)
    ensures
        parts_view(r) == url_parts(s@),
{
    let url = url::Url::parse(s).ok()?;
    Some(UrlParts { scheme: url.scheme().to_string(), host: url.host_str().map(|h| h.to_string()) })
}

/// Is there an `Origin` header with something in it?
pub open spec fn has_origin(origin: Option<Seq<char>>) -> bool {
    origin matches Some(o) && o.len() > 0
}

/// The host of what was read of an origin.
pub open spec fn url_host(parts: Option<(Seq<char>, Option<Seq<char>>)>) -> Option<Seq<char>> {
    match parts {
        Some(u) => u.1,
        None => None,
    }
}

/// The host of a URL without the brackets that an IPv6 address stands in.
pub open spec fn bare_host(host: Seq<char>) -> Seq<char> {
    if host.len() >= 2 && host[0] == '[' && host.last() == ']' {
        host.subrange(1, host.len() - 1)
    } else {
        host
    }
}

/// The host of a URL without the brackets that an IPv6 address stands in.
fn unbracketed(host: &str) -> (r: String)
    ensures
        r@ == bare_host(host@),
{
    let v = chars_of(host);
    let end: usize = v.len();
    if end >= 2 && v[0] == '[' && v[end - 1] == ']' {
        text_of(slice_subrange(v.as_slice(), 1, end - 1))
    } else {
        host.to_owned()
    }
}

/// Whether a request may come from an origin, given what was read of the origin
/// and of the instance's own URL. A request without an origin may. An origin
/// without a host may not. Any other may where its host is the one that the
/// request names, or that of the instance's URL, if there is one.
pub open spec fn origin_allowed(
    host: Seq<char>,
    origin: Option<Seq<char>>,
    origin_parts: Option<(Seq<char>, Option<Seq<char>>)>,
    instance_url: Seq<char>,
    instance_parts: Option<(Seq<char>, Option<Seq<char>>)>,
) -> bool {
    if !has_origin(origin) {
        true
    } else if url_host(origin_parts) is None {
        false
    } else if names_host(host) && bare_host(url_host(origin_parts)->0) == host_part(host) {
        true
    } else {
        instance_url.len() > 0 && url_host(origin_parts) == url_host(instance_parts)
    }
}

/// Whether a request may come from an origin, given what was read of the origin
/// and of the instance's own URL.
pub fn origin_matches(
    host: &str,
    origin: &str,
    origin_parts: Option<UrlParts>,
    instance_url: &str,
    instance_parts: Option<UrlParts>,
) -> (r: bool)
    ensures
        r == origin_allowed(
            host@,
            Some(origin@),
            parts_view(origin_parts),
            instance_url@,
            parts_view(instance_parts),
        ),
{
    if origin.is_empty() {
        return true;
    }
    let origin_host = match origin_parts {
        Some(u) => match u.host {
            Some(h) => h,
            None => return false,
        },
        None => return false,
    };
    if has_host(host) {
        if let Some(named) = host_port_host(host) {
            if same(unbracketed(origin_host.as_str()).as_str(), named.as_str()) {
                return true;
            }
        }
    }
    if instance_url.is_empty() {
        return false;
    }
    match instance_parts {
        Some(inst) => match inst.host {
            Some(h) => same(origin_host.as_str(), h.as_str()),
            None => false,
        },
        None => false,
    }
}

/// The view of an optional text slice.
pub open spec fn opt_str(o: Option<&str>) -> Option<Seq<char>> {
    match o {
        Some(s) => Some(s@),
        None => None,
    }
}

/// What is read of an origin.
pub open spec fn origin_parts(origin: Option<Seq<char>>) -> Option<(Seq<char>, Option<Seq<char>>)> {
    if has_origin(origin) {
        url_parts(origin->0)
    } else {
        None
    }
}

/// Allow empty origin (non-browser clients). Otherwise the Origin host must
/// equal the request Host, or match the configured instance URL host.
pub fn is_allowed_origin(host: &str, origin: Option<&str>, instance_url: &str) -> (r: bool)
    ensures
        r == origin_allowed(
            host@,
            opt_str(origin),
            origin_parts(opt_str(origin)),
            instance_url@,
            url_parts(instance_url@),
        ),
{
    match origin {
        Some(o) => origin_matches(host, o, parse_url(o), instance_url, parse_url(instance_url)),
        None => true,
    }
}

/// A header's text, or the empty text.
pub open spec fn text_or_empty(o: Option<Seq<char>>) -> Seq<char> {
    match o {
        Some(s) => s,
        None => seq![],
    }
}

/// Whether the request with these headers may go on: its `Host` and `Origin`
/// headers decide, with the instance's own URL.
pub fn check_request_origin(
    headers: &http::HeaderMap<http::HeaderValue>,
    instance_url: &str,
) -> (r: bool)
    ensures
        ({
            let host = text_or_empty(header_text(header_values(*headers), "host"@));
            let origin = header_text(header_values(*headers), "origin"@);
            r == origin_allowed(
                host,
                origin,
                origin_parts(origin),
                instance_url@,
                url_parts(instance_url@),
            )
        }),
{
    proof {
        reveal_strlit("host");
        reveal_strlit("origin");
    }
    let host = match first_value(headers, "host") {
        Some(s) => s,
        None => String::new(),
    };
    match &first_value(headers, "origin") {
        Some(o) => is_allowed_origin(host.as_str(), Some(o.as_str()), instance_url),
        None => is_allowed_origin(host.as_str(), None, instance_url),
    }
}

// ---------- laws ----------

/// A request without an origin may always go on.
pub proof fn absent_origin_is_allowed(
    host: Seq<char>,
    origin: Option<Seq<char>>,
    instance_url: Seq<char>,
)
    requires
        origin is None || origin->0.len() == 0,
    ensures
        origin_allowed(host, origin, origin_parts(origin), instance_url, url_parts(instance_url)),
{
}

/// An origin whose host is the one that the request names may go on.
pub proof fn same_host_is_allowed(host: Seq<char>, origin: Seq<char>, instance_url: Seq<char>)
    requires
        names_host(host),
        url_host(url_parts(origin)) is Some,
        bare_host(url_host(url_parts(origin))->0) == host_part(host),
    ensures
        origin_allowed(
            host,
            Some(origin),
            origin_parts(Some(origin)),
            instance_url,
            url_parts(instance_url),
        ),
{
}

/// An origin with the host of the instance's own URL may go on, whatever its
/// scheme, and whatever host the request names.
pub proof fn instance_origin_is_allowed(
    host: Seq<char>,
    origin: Seq<char>,
    instance_url: Seq<char>,
)
    requires
        instance_url.len() > 0,
        url_host(url_parts(origin)) is Some,
        url_host(url_parts(origin)) == url_host(url_parts(instance_url)),
    ensures
        origin_allowed(
            host,
            Some(origin),
            origin_parts(Some(origin)),
            instance_url,
            url_parts(instance_url),
        ),
{
}

/// A foreign origin is refused: what is allowed has the host that the request
/// names or that of the instance's URL. A request that names no host has none to
/// agree with.
pub proof fn foreign_origin_is_refused(
    host: Seq<char>,
    origin: Seq<char>,
    instance_url: Seq<char>,
)
    requires
        origin.len() > 0,
        url_host(url_parts(origin)) is None || !names_host(host) || bare_host(
            url_host(url_parts(origin))->0,
        ) != host_part(host),
        instance_url.len() == 0 || url_host(url_parts(instance_url)) is None || url_host(
            url_parts(origin),
        ) != url_host(url_parts(instance_url)),
    ensures
        !origin_allowed(
            host,
            Some(origin),
            url_parts(origin),
            instance_url,
            url_parts(instance_url),
        ),
{
}

/// A text without `]` has no `]:`.
proof fn lemma_no_close(s: Seq<char>)
    requires
        !s.contains(']'),
    ensures
        first_close(s) == s.len(),
    decreases s.len(),
{
    if s.len() >= 2 {
        assert(s.contains(s[0]));
        assert forall|c: char| s.drop_first().contains(c) implies s.contains(c) by {
            let i = choose|i: int| 0 <= i < s.drop_first().len() && s.drop_first()[i] == c;
            assert(s[i + 1] == c);
        }
        lemma_no_close(s.drop_first());
    }
}

/// A plain host name is what a host header with that name and a port names.
pub proof fn host_part_drops_port(name: Seq<char>, port: Seq<char>)
    requires
        !name.contains('@'),
        !name.contains('['),
        !name.contains(']'),
        is_digits(port),
    ensures
        names_host(name.push(':') + port),
        host_part(name.push(':') + port) == name,
{
    let host = name.push(':') + port;
    assert forall|i: int| 0 <= i < host.len() implies host[i] != '@' && host[i] != '[' && host[i]
        != ']' by {
        if i < name.len() {
            assert(name.contains(name[i]));
            assert(host[i] == name[i]);
        } else if i > name.len() {
            assert(host[i] == port[i - name.len() - 1]);
        }
    }
    lemma_unsplit(host, '@');
    assert(authority(host) == host);
    assert(!host.contains(']'));
    lemma_no_close(host);
    assert(host[name.len() as int] == ':');
    assert forall|i: int| 0 <= i < port.len() implies port[i] != ':' by {}
    lemma_unsplit(port, ':');
    lemma_split_tail(name, ':', port);
    assert(host.take(host.len() - port.len() - 1) =~= name);
    if name.len() > 0 {
        assert(name.contains(name.last()));
    }
}

/// The first `]:` is where it was put, after a text without `]`.
proof fn lemma_close_at(name: Seq<char>, rest: Seq<char>)
    requires
        !name.contains(']'),
    ensures
        first_close(name + seq![']', ':'] + rest) == name.len(),
    decreases name.len(),
{
    let s = name + seq![']', ':'] + rest;
    if name.len() > 0 {
        assert(s[0] == name[0]);
        assert(name.contains(name[0]));
        let tail = name.drop_first();
        assert forall|i: int| 0 <= i < tail.len() implies tail[i] != ']' by {
            assert(name.contains(name[i + 1]));
        }
        lemma_close_at(tail, rest);
        assert(s.drop_first() =~= tail + seq![']', ':'] + rest);
    }
}

/// An address in brackets, as an IPv6 address is written, is the same host in a
/// host header, whatever follows the brackets and a colon, as in a URL.
pub proof fn bracketed_hosts_agree(name: Seq<char>, port: Seq<char>)
    requires
        !name.contains('@'),
        !name.contains('['),
        !name.contains(']'),
        !port.contains('@'),
    ensures
        names_host(seq!['['] + name + seq![']', ':'] + port),
        host_part(seq!['['] + name + seq![']', ':'] + port) == name,
        names_host(seq!['['] + name + seq![']']),
        host_part(seq!['['] + name + seq![']']) == name,
        bare_host(seq!['['] + name + seq![']']) == name,
{
    assert forall|i: int| 0 <= i < name.len() implies name[i] != '@' && name[i] != ']' by {
        assert(name.contains(name[i]));
    }
    assert(trim_end(name, CharClass::Only(']')) == name);
    // with a port
    let host = seq!['['] + name + seq![']', ':'] + port;
    assert forall|i: int| 0 <= i < host.len() implies host[i] != '@' by {
        if i > name.len() + 2 {
            assert(host[i] == port[i - name.len() - 3]);
            assert(port.contains(port[i - name.len() - 3]));
        } else if 0 < i <= name.len() {
            assert(host[i] == name[i - 1]);
        }
    }
    lemma_unsplit(host, '@');
    let h = name + seq![']', ':'] + port;
    assert(host.drop_first() =~= h);
    lemma_close_at(name, port);
    assert(h.take(name.len() as int) =~= name);
    // without one
    let bare = seq!['['] + name + seq![']'];
    assert forall|i: int| 0 <= i < bare.len() implies bare[i] != '@' by {
        if 0 < i <= name.len() {
            assert(bare[i] == name[i - 1]);
        }
    }
    lemma_unsplit(bare, '@');
    let b = name.push(']');
    assert(bare.drop_first() =~= b);
    lemma_no_close_inside(name);
    assert(b[name.len() as int] == ']');
    assert(!is_digits(b));
    lemma_split_nonempty(name, ':');
    let tail = split(b, ':').last();
    assert(b.drop_last() =~= name);
    assert(tail.last() == ']');
    assert(!is_digits(tail)) by {
        assert(tail[tail.len() - 1] == ']');
    }
    assert(trim_end(b, CharClass::Only(']')) == name);
    assert(bare.subrange(1, bare.len() - 1) =~= name);
}

/// A text whose only `]` is its last character has no `]:`.
proof fn lemma_no_close_inside(name: Seq<char>)
    requires
        !name.contains(']'),
    ensures
        first_close(name.push(']')) == name.len() + 1,
    decreases name.len(),
{
    let s = name.push(']');
    if name.len() > 0 {
        assert(name.contains(name[0]));
        let tail = name.drop_first();
        assert forall|i: int| 0 <= i < tail.len() implies tail[i] != ']' by {
            assert(name.contains(name[i + 1]));
        }
        lemma_no_close_inside(tail);
        assert(s.drop_first() =~= tail.push(']'));
    }
}

/// A plain host name that is not a bare number is what a host header with that
/// name alone names.
pub proof fn host_part_keeps_name(name: Seq<char>)
    requires
        !name.contains('@'),
        !name.contains('['),
        !name.contains(']'),
        !name.contains(':'),
        !is_digits(name),
    ensures
        names_host(name),
        host_part(name) == name,
{
    assert forall|i: int| 0 <= i < name.len() implies name[i] != '@' && name[i] != ':' by {
        assert(name.contains(name[i]));
    }
    lemma_unsplit(name, '@');
    lemma_unsplit(name, ':');
    if name.len() > 0 {
        assert(name.contains(name[0]));
        assert(name.contains(name.last()));
    }
    lemma_no_close(name);
}

/// What stands before an `@` makes no difference to the host that a header names.
pub proof fn users_do_not_matter(user: Seq<char>, host: Seq<char>)
    ensures
        host_part(user + seq!['@'] + host) == host_part(host),
        names_host(user + seq!['@'] + host) == names_host(host),
{
    lemma_split_tail(user, '@', host);
    assert(user + seq!['@'] + host =~= user.push('@') + host);
}

/// A host that no brackets stand around is compared as it is.
pub proof fn hosts_without_brackets_are_kept(host: Seq<char>)
    requires
        host.len() == 0 || host[0] != '[' || host.last() != ']',
    ensures
        bare_host(host) == host,
{
}

/// A request from an origin whose host is the name in its host header may go on, with
/// a port or without one, and whatever the port and the scheme of the origin.
pub proof fn origin_of_the_named_host_is_allowed(
    name: Seq<char>,
    port: Seq<char>,
    origin: Seq<char>,
    instance_url: Seq<char>,
)
    requires
        !name.contains('@'),
        !name.contains('['),
        !name.contains(']'),
        !name.contains(':'),
        !is_digits(name),
        is_digits(port),
        url_parts(origin) matches Some(parts) && parts.1 == Some(name),
    ensures
        origin_allowed(
            name,
            Some(origin),
            origin_parts(Some(origin)),
            instance_url,
            url_parts(instance_url),
        ),
        origin_allowed(
            name + seq![':'] + port,
            Some(origin),
            origin_parts(Some(origin)),
            instance_url,
            url_parts(instance_url),
        ),
{
    host_part_keeps_name(name);
    host_part_drops_port(name, port);
    assert(name + seq![':'] + port =~= name.push(':') + port);
    if name.len() > 0 {
        assert(name.contains(name[0]));
    }
    hosts_without_brackets_are_kept(name);
}

/// A request from an origin whose host is another than the name in its host header is
/// refused where no instance is set up, with a port or without one.
pub proof fn origin_of_another_host_is_refused(
    name: Seq<char>,
    port: Seq<char>,
    origin: Seq<char>,
    other: Seq<char>,
)
    requires
        !name.contains('@'),
        !name.contains('['),
        !name.contains(']'),
        !name.contains(':'),
        !is_digits(name),
        is_digits(port),
        origin.len() > 0,
        other != name,
        other.len() == 0 || other[0] != '[',
        url_parts(origin) matches Some(parts) && parts.1 == Some(other),
    ensures
        !origin_allowed(name, Some(origin), origin_parts(Some(origin)), seq![], url_parts(seq![])),
        !origin_allowed(
            name + seq![':'] + port,
            Some(origin),
            origin_parts(Some(origin)),
            seq![],
            url_parts(seq![]),
        ),
{
    host_part_keeps_name(name);
    host_part_drops_port(name, port);
    assert(name + seq![':'] + port =~= name.push(':') + port);
    hosts_without_brackets_are_kept(other);
}

/// An origin that is not a URL, or has no host, is refused.
pub proof fn origin_without_host_is_refused(
    host: Seq<char>,
    origin: Seq<char>,
    instance_url: Seq<char>,
)
    requires
        origin.len() > 0,
        url_parts(origin) matches Some(parts) ==> parts.1 is None,
    ensures
        !origin_allowed(
            host,
            Some(origin),
            origin_parts(Some(origin)),
            instance_url,
            url_parts(instance_url),
        ),
{
}

/// A request names no host exactly where its header, without what stands before an `@`
/// and without a `[` in front, is empty or a bare number.
pub proof fn bare_numbers_name_no_host(digits: Seq<char>)
    requires
        is_digits(digits),
    ensures
        !names_host(digits),
        !names_host(seq!['['] + digits),
{
    let b = seq!['['] + digits;
    assert forall|i: int| 0 <= i < b.len() implies b[i] != '@' by {
        if i > 0 {
            assert(b[i] == digits[i - 1]);
        }
    }
    assert forall|i: int|
        0 <= i < digits.len() implies digits[i] != '@' && digits[i] != ']' && digits[i] != ':' by {}
    lemma_unsplit(digits, '@');
    lemma_unsplit(b, '@');
    assert(b.drop_first() =~= digits);
    lemma_no_close(digits);
    if digits.len() > 0 {
        assert('0' <= digits[0] <= '9');
    }
}

/// A host header without brackets whose part after the last `:` is not a number is
/// taken as a whole.
pub proof fn hosts_with_other_tails_are_kept(front: Seq<char>, tail: Seq<char>)
    requires
        !front.contains('@'),
        !front.contains('['),
        !front.contains(']'),
        !tail.contains('@'),
        !tail.contains('['),
        !tail.contains(']'),
        !tail.contains(':'),
        !is_digits(tail),
    ensures
        names_host(front + seq![':'] + tail),
        host_part(front + seq![':'] + tail) == front + seq![':'] + tail,
{
    let host = front + seq![':'] + tail;
    assert forall|i: int| 0 <= i < host.len() implies host[i] != '@' && host[i] != '[' && host[i]
        != ']' by {
        if i < front.len() {
            assert(front.contains(front[i]));
            assert(host[i] == front[i]);
        } else if i > front.len() {
            assert(tail.contains(tail[i - front.len() - 1]));
            assert(host[i] == tail[i - front.len() - 1]);
        }
    }
    lemma_unsplit(host, '@');
    lemma_no_close(host);
    assert(host[front.len() as int] == ':');
    assert forall|i: int| 0 <= i < tail.len() implies tail[i] != ':' by {
        assert(tail.contains(tail[i]));
    }
    lemma_unsplit(tail, ':');
    lemma_split_tail(front, ':', tail);
    assert(host =~= front.push(':') + tail);
}

} // verus!
