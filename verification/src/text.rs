//! Text as sequences of characters.
//!
//! Every contract in this crate speaks of a text through its view, a
//! `Seq<char>`. This module gives the vocabulary: trimming, splitting, joining,
//! comparing and printing numbers.

use vstd::prelude::*;
use vstd::slice::slice_subrange;

verus! {

/// `String::push` appends one character.
pub assume_specification[ String::push ](s: &mut String, c: char)
    ensures
        final(s)@ == old(s)@.push(c),
;

/// The views of a list of texts.
pub open spec fn texts(v: Seq<String>) -> Seq<Seq<char>> {
    v.map_values(|s: String| s@)
}

/// The view of an optional text.
pub open spec fn opt_text(o: Option<String>) -> Option<Seq<char>> {
    match o {
        Some(s) => Some(s@),
        None => None,
    }
}

/// The characters of a text.
pub fn chars_of(s: &str) -> (v: Vec<char>)
    ensures
        v@ == s@,
{
    let mut v: Vec<char> = Vec::new();
    for c in it: s.chars()
        invariant
            v@ == s@.take(it.index() as int),
            it.seq() == s@,
    {
        v.push(c);
    }
    v
}

/// The text made of some characters.
pub fn text_of(chars: &[char]) -> (s: String)
    ensures
        s@ == chars@,
{
    let mut s: String = String::new();
    let mut i: usize = 0;
    while i < chars.len()
        invariant
            i <= chars@.len(),
            s@ == chars@.take(i as int),
        decreases chars@.len() - i,
    {
        s.push(chars[i]);
        i = i + 1;
    }
    assert(chars@.take(i as int) =~= chars@);
    s
}

/// Do two character lists agree?
pub fn equal(a: &[char], b: &[char]) -> (r: bool)
    ensures
        r == (a@ == b@),
{
    if a.len() != b.len() {
        return false;
    }
    let mut i: usize = 0;
    while i < a.len()
        invariant
            i <= a@.len() == b@.len(),
            forall|j: int| 0 <= j < i ==> a@[j] == b@[j],
        decreases a@.len() - i,
    {
        if a[i] != b[i] {
            return false;
        }
        i = i + 1;
    }
    assert(a@ =~= b@);
    true
}

/// Do two texts agree?
pub fn same(a: &str, b: &str) -> (r: bool)
    ensures
        r == (a@ == b@),
{
    let x = chars_of(a);
    let y = chars_of(b);
    equal(x.as_slice(), y.as_slice())
}

/// Is the text `x` one of `list`?
pub fn listed(list: &[String], x: &str) -> (r: bool)
    ensures
        r == texts(list@).contains(x@),
{
    let mut i: usize = 0;
    while i < list.len()
        invariant
            i <= list@.len(),
            forall|j: int| 0 <= j < i ==> texts(list@)[j] != x@,
        decreases list@.len() - i,
    {
        if same(list[i].as_str(), x) {
            assert(texts(list@)[i as int] == x@);
            return true;
        }
        i = i + 1;
    }
    false
}

/// Concatenation of two texts.
pub fn concat2(a: &str, b: &str) -> (r: String)
    ensures
        r@ == a@ + b@,
{
    let mut s: String = a.to_owned();
    s.append(b);
    s
}

/// Concatenation of three texts.
pub fn concat3(a: &str, b: &str, c: &str) -> (r: String)
    ensures
        r@ == a@ + b@ + c@,
{
    let mut s: String = a.to_owned();
    s.append(b);
    s.append(c);
    s
}

// ---------- trimming ----------

/// A kind of character that trimming removes.
#[derive(Clone, Copy)]
pub enum CharClass {
    /// Unicode white space.
    Space,
    /// One given character.
    Only(char),
}

/// The characters with the Unicode property White_Space.
pub open spec fn is_white_space(c: char) -> bool {
    let n = c as u32;
    ||| 0x9 <= n <= 0xd
    ||| n == 0x20
    ||| n == 0x85
    ||| n == 0xa0
    ||| n == 0x1680
    ||| 0x2000 <= n <= 0x200a
    ||| n == 0x2028
    ||| n == 0x2029
    ||| n == 0x202f
    ||| n == 0x205f
    ||| n == 0x3000
}

/// Does the character have the Unicode property White_Space?
pub fn white_space(c: char) -> (r: bool)
    ensures
        r == is_white_space(c),
{
    let n: u32 = c as u32;
    (0x9 <= n && n <= 0xd) || n == 0x20 || n == 0x85 || n == 0xa0 || n == 0x1680 || (0x2000 <= n
        && n <= 0x200a) || n == 0x2028 || n == 0x2029 || n == 0x202f || n == 0x205f || n == 0x3000
}

impl CharClass {
    /// Is the character of this class?
    pub open spec fn holds(self, c: char) -> bool {
        match self {
            CharClass::Space => is_white_space(c),
            CharClass::Only(d) => c == d,
        }
    }

    /// Is the character of this class?
    pub fn test(self, c: char) -> (r: bool)
        ensures
            r == self.holds(c),
    {
        match self {
            CharClass::Space => white_space(c),
            CharClass::Only(d) => c == d,
        }
    }
}

/// `s` without the characters of the class at its start.
pub open spec fn trim_start(s: Seq<char>, class: CharClass) -> Seq<char>
    decreases s.len(),
{
    if s.len() > 0 && class.holds(s[0]) {
        trim_start(s.drop_first(), class)
    } else {
        s
    }
}

/// `s` without the characters of the class at its end.
pub open spec fn trim_end(s: Seq<char>, class: CharClass) -> Seq<char>
    decreases s.len(),
{
    if s.len() > 0 && class.holds(s.last()) {
        trim_end(s.drop_last(), class)
    } else {
        s
    }
}

/// `s` without the characters of the class at either end.
pub open spec fn trim(s: Seq<char>, class: CharClass) -> Seq<char> {
    trim_end(trim_start(s, class), class)
}

/// The part of `s` that is left when the class is trimmed from its start.
pub fn trimmed_start(s: &[char], class: CharClass) -> (r: &[char])
    ensures
        r@ == trim_start(s@, class),
{
    let mut i: usize = 0;
    assert(s@.skip(0) =~= s@);
    while i < s.len() && class.test(s[i])
        invariant
            i <= s@.len(),
            trim_start(s@, class) == trim_start(s@.skip(i as int), class),
        decreases s@.len() - i,
    {
        assert(s@.skip(i as int).drop_first() =~= s@.skip(i + 1));
        i = i + 1;
    }
    let r = slice_subrange(s, i, s.len());
    assert(r@ =~= s@.skip(i as int));
    r
}

/// The part of `s` that is left when the class is trimmed from its end.
pub fn trimmed_end(s: &[char], class: CharClass) -> (r: &[char])
    ensures
        r@ == trim_end(s@, class),
{
    let mut n: usize = s.len();
    assert(s@.take(n as int) =~= s@);
    while n > 0 && class.test(s[n - 1])
        invariant
            n <= s@.len(),
            trim_end(s@, class) == trim_end(s@.take(n as int), class),
        decreases n,
    {
        assert(s@.take(n as int).drop_last() =~= s@.take(n - 1));
        n = n - 1;
    }
    let r = slice_subrange(s, 0, n);
    assert(r@ =~= s@.take(n as int));
    r
}

/// The part of `s` that is left when the class is trimmed from both ends.
pub fn trimmed(s: &[char], class: CharClass) -> (r: &[char])
    ensures
        r@ == trim(s@, class),
{
    trimmed_end(trimmed_start(s, class), class)
}

/// A text without the characters of the class at either end.
pub fn trim_text(s: &str, class: CharClass) -> (r: String)
    ensures
        r@ == trim(s@, class),
{
    let v = chars_of(s);
    text_of(trimmed(v.as_slice(), class))
}

// ---------- splitting and joining ----------

/// The pieces of `s` between the occurrences of `sep`: always one more than
/// there are occurrences.
pub open spec fn split(s: Seq<char>, sep: char) -> Seq<Seq<char>>
    decreases s.len(),
{
    if s.len() == 0 {
        seq![seq![]]
    } else {
        let pieces = split(s.drop_last(), sep);
        if s.last() == sep {
            pieces.push(seq![])
        } else {
            pieces.drop_last().push(pieces.last().push(s.last()))
        }
    }
}

/// The pieces one after the other, with `sep` between them.
pub open spec fn join(pieces: Seq<Seq<char>>, sep: Seq<char>) -> Seq<char>
    decreases pieces.len(),
{
    if pieces.len() == 0 {
        seq![]
    } else if pieces.len() == 1 {
        pieces[0]
    } else {
        join(pieces.drop_last(), sep) + sep + pieces.last()
    }
}

/// A split has at least one piece.
pub proof fn lemma_split_nonempty(s: Seq<char>, sep: char)
    ensures
        split(s, sep).len() >= 1,
    decreases s.len(),
{
    if s.len() > 0 {
        lemma_split_nonempty(s.drop_last(), sep);
    }
}

/// The pieces of `s` between the occurrences of `sep`.
pub fn pieces_of(s: &[char], sep: char) -> (r: Vec<String>)
    ensures
        texts(r@) == split(s@, sep),
{
    let mut done: Vec<String> = Vec::new();
    let mut current: String = String::new();
    let mut i: usize = 0;
    assert(texts(done@).push(current@) =~= split(s@.take(0), sep)) by {
        assert(split(s@.take(0), sep) =~= seq![seq![]]);
    }
    while i < s.len()
        invariant
            i <= s@.len(),
            texts(done@).push(current@) == split(s@.take(i as int), sep),
        decreases s@.len() - i,
    {
        let ghost before = split(s@.take(i as int), sep);
        let ghost next = s@.take(i + 1);
        let ghost had = texts(done@);
        assert(next.drop_last() =~= s@.take(i as int));
        assert(next.last() == s@[i as int]);
        if s[i] == sep {
            let ghost piece = current@;
            done.push(current);
            current = String::new();
            assert(texts(done@) =~= had.push(piece));
            assert(texts(done@).push(current@) =~= before.push(seq![]));
        } else {
            current.push(s[i]);
            assert(before.drop_last() =~= had);
            assert(texts(done@).push(current@) =~= before.drop_last().push(
                before.last().push(s@[i as int]),
            ));
        }
        i = i + 1;
    }
    assert(s@.take(i as int) =~= s@);
    let ghost had = texts(done@);
    let ghost piece = current@;
    done.push(current);
    assert(texts(done@) =~= had.push(piece));
    done
}

/// The last piece of `s` between the occurrences of `sep`.
pub fn last_piece(s: &[char], sep: char) -> (r: &[char])
    ensures
        r@ == split(s@, sep).last(),
{
    let mut n: usize = s.len();
    while n > 0 && s[n - 1] != sep
        invariant
            n <= s@.len(),
            forall|j: int| n <= j < s@.len() ==> s@[j] != sep,
        decreases n,
    {
        n = n - 1;
    }
    proof {
        lemma_last_piece(s@, sep, n as int);
    }
    let r = slice_subrange(s, n, s.len());
    assert(r@ =~= s@.skip(n as int));
    r
}

/// What follows the last separator is the last piece.
proof fn lemma_last_piece(s: Seq<char>, sep: char, n: int)
    requires
        0 <= n <= s.len(),
        n == 0 || s[n - 1] == sep,
        forall|j: int| n <= j < s.len() ==> s[j] != sep,
    ensures
        split(s, sep).last() == s.skip(n),
    decreases s.len(),
{
    lemma_split_nonempty(s, sep);
    if n == s.len() {
        assert(s.skip(n) =~= seq![]);
    } else {
        lemma_last_piece(s.drop_last(), sep, n);
        lemma_split_nonempty(s.drop_last(), sep);
        assert(s.last() != sep);
        assert(s.skip(n) =~= s.drop_last().skip(n).push(s.last()));
    }
}

/// The first piece of `s` between the occurrences of `sep`.
pub fn first_piece(s: &[char], sep: char) -> (r: &[char])
    ensures
        r@ == split(s@, sep)[0],
{
    let mut n: usize = 0;
    while n < s.len() && s[n] != sep
        invariant
            n <= s@.len(),
            forall|j: int| 0 <= j < n ==> s@[j] != sep,
        decreases s@.len() - n,
    {
        n = n + 1;
    }
    proof {
        lemma_first_piece(s@, sep, n as int);
    }
    let r = slice_subrange(s, 0, n);
    assert(r@ =~= s@.take(n as int));
    r
}

/// What precedes the first separator is the first piece.
pub proof fn lemma_first_piece(s: Seq<char>, sep: char, n: int)
    requires
        0 <= n <= s.len(),
        n == s.len() || s[n] == sep,
        forall|j: int| 0 <= j < n ==> s[j] != sep,
    ensures
        split(s, sep)[0] == s.take(n),
    decreases s.len(),
{
    lemma_split_nonempty(s, sep);
    if s.len() == 0 {
        assert(s.take(n) =~= seq![]);
    } else if n == s.len() {
        lemma_split_nonempty(s.drop_last(), sep);
        lemma_first_piece(s.drop_last(), sep, n - 1);
        lemma_unsplit(s.drop_last(), sep);
        assert(s.last() != sep);
        assert(s.take(n) =~= s.drop_last().take(n - 1).push(s.last()));
    } else {
        lemma_split_nonempty(s.drop_last(), sep);
        lemma_first_piece(s.drop_last(), sep, n);
        if n < s.len() - 1 {
            lemma_split_count(s.drop_last(), sep, n);
        }
        assert(s.take(n) =~= s.drop_last().take(n));
    }
}

/// The first piece ends before any separator.
pub proof fn lemma_first_piece_len(s: Seq<char>, sep: char, i: int)
    requires
        0 <= i < s.len(),
        s[i] == sep,
    ensures
        split(s, sep)[0].len() <= i,
    decreases i,
{
    if forall|j: int| 0 <= j < i ==> s[j] != sep {
        lemma_first_piece(s, sep, i);
    } else {
        let j = choose|j: int| 0 <= j < i && s[j] == sep;
        lemma_first_piece_len(s, sep, j);
    }
}

/// Where there is a separator, one follows the first piece.
pub proof fn lemma_first_piece_ends(s: Seq<char>, sep: char)
    requires
        s.contains(sep),
    ensures
        split(s, sep)[0].len() < s.len(),
        s[split(s, sep)[0].len() as int] == sep,
{
    let n = lemma_first_at(s, sep);
    lemma_first_piece(s, sep, n);
}

/// The position of the first separator.
pub proof fn lemma_first_at(s: Seq<char>, sep: char) -> (n: int)
    requires
        s.contains(sep),
    ensures
        0 <= n < s.len(),
        s[n] == sep,
        forall|j: int| 0 <= j < n ==> s[j] != sep,
    decreases s.len(),
{
    if s.drop_last().contains(sep) {
        let n = lemma_first_at(s.drop_last(), sep);
        assert forall|j: int| 0 <= j < n implies s[j] != sep by {
            assert(s.drop_last()[j] != sep);
        }
        n
    } else {
        let k = choose|k: int| 0 <= k < s.len() && s[k] == sep;
        assert forall|j: int| 0 <= j < s.len() - 1 implies s[j] != sep by {
            assert(s.drop_last()[j] == s[j]);
        }
        s.len() - 1
    }
}

/// A text without the separator is its own only piece.
pub proof fn lemma_unsplit(s: Seq<char>, sep: char)
    requires
        forall|j: int| 0 <= j < s.len() ==> s[j] != sep,
    ensures
        split(s, sep) == seq![s],
    decreases s.len(),
{
    if s.len() == 0 {
        assert(s =~= seq![]);
    } else {
        lemma_unsplit(s.drop_last(), sep);
        assert(s =~= s.drop_last().push(s.last()));
        assert(split(s, sep) =~= seq![s]);
    }
}

/// A text with the separator has more than one piece.
proof fn lemma_split_count(s: Seq<char>, sep: char, n: int)
    requires
        0 <= n < s.len(),
        s[n] == sep,
    ensures
        split(s, sep).len() >= 2,
    decreases s.len(),
{
    lemma_split_nonempty(s.drop_last(), sep);
    if n < s.len() - 1 {
        lemma_split_count(s.drop_last(), sep, n);
    }
}

/// The last piece of a text that ends in `sep` and `tail` is that of `tail`.
pub proof fn lemma_split_tail(head: Seq<char>, sep: char, tail: Seq<char>)
    ensures
        split(head.push(sep) + tail, sep).last() == split(tail, sep).last(),
    decreases tail.len(),
{
    let s = head.push(sep) + tail;
    lemma_split_nonempty(s, sep);
    lemma_split_nonempty(tail, sep);
    if tail.len() == 0 {
        assert(s =~= head.push(sep));
        assert(tail =~= seq![]);
    } else {
        assert(s.drop_last() =~= head.push(sep) + tail.drop_last());
        lemma_split_tail(head, sep, tail.drop_last());
        lemma_split_nonempty(s.drop_last(), sep);
        lemma_split_nonempty(tail.drop_last(), sep);
    }
}

/// The last piece of a split holds no separator.
pub proof fn lemma_last_piece_clean(s: Seq<char>, sep: char)
    ensures
        forall|i: int|
            0 <= i < split(s, sep).last().len() ==> #[trigger] split(s, sep).last()[i] != sep,
    decreases s.len(),
{
    lemma_split_nonempty(s, sep);
    if s.len() > 0 {
        lemma_last_piece_clean(s.drop_last(), sep);
        lemma_split_nonempty(s.drop_last(), sep);
    }
}

/// Trimming takes a stretch out of a text and leaves no class character at
/// either end.
pub proof fn lemma_trim_shape(s: Seq<char>, class: CharClass)
    ensures
        exists|a: int, b: int| 0 <= a <= b <= s.len() && trim(s, class) == #[trigger] s.subrange(a, b),
        trim(s, class).len() > 0 ==> !class.holds(trim(s, class)[0]),
        trim(s, class).len() > 0 ==> !class.holds(trim(s, class).last()),
{
    let a = lemma_trim_start_shape(s, class);
    let m = trim_start(s, class);
    let n = lemma_trim_end_shape(m, class);
    assert(trim(s, class) =~= s.subrange(a, a + n));
}

/// Trimming the start leaves what follows the characters of the class.
pub proof fn lemma_trim_start_shape(s: Seq<char>, class: CharClass) -> (a: int)
    ensures
        0 <= a <= s.len(),
        trim_start(s, class) == s.subrange(a, s.len() as int),
        a < s.len() ==> !class.holds(s[a]),
    decreases s.len(),
{
    if s.len() > 0 && class.holds(s[0]) {
        let a = lemma_trim_start_shape(s.drop_first(), class);
        assert(s.drop_first().subrange(a, s.len() - 1) =~= s.subrange(a + 1, s.len() as int));
        a + 1
    } else {
        assert(s =~= s.subrange(0, s.len() as int));
        0
    }
}

/// Trimming the end leaves what precedes the characters of the class.
pub proof fn lemma_trim_end_shape(s: Seq<char>, class: CharClass) -> (n: int)
    ensures
        0 <= n <= s.len(),
        trim_end(s, class) == s.subrange(0, n),
        n > 0 ==> !class.holds(s[n - 1]),
    decreases s.len(),
{
    if s.len() > 0 && class.holds(s.last()) {
        let n = lemma_trim_end_shape(s.drop_last(), class);
        assert(s.drop_last().subrange(0, n) =~= s.subrange(0, n));
        n
    } else {
        assert(s =~= s.subrange(0, s.len() as int));
        s.len() as int
    }
}

/// Trimming twice changes nothing more.
pub proof fn lemma_trim_twice(s: Seq<char>, class: CharClass)
    ensures
        trim(trim(s, class), class) == trim(s, class),
{
    let t = trim(s, class);
    lemma_trim_shape(s, class);
    assert(trim_start(t, class) == t);
    assert(trim_end(t, class) == t);
}

/// The first piece of a split holds no separator.
pub proof fn lemma_first_piece_clean(s: Seq<char>, sep: char)
    ensures
        !split(s, sep)[0].contains(sep),
    decreases s.len(),
{
    lemma_split_nonempty(s, sep);
    if s.len() > 0 {
        let before = split(s.drop_last(), sep);
        lemma_first_piece_clean(s.drop_last(), sep);
        lemma_split_nonempty(s.drop_last(), sep);
        if s.last() != sep && before.len() == 1 {
            let piece = before[0].push(s.last());
            assert(split(s, sep)[0] == piece);
            assert forall|i: int| 0 <= i < piece.len() implies piece[i] != sep by {
                if i < before[0].len() {
                    assert(before[0].contains(before[0][i]));
                }
            }
        } else {
            assert(split(s, sep)[0] == before[0]);
        }
    }
}

/// Splitting what a separator joins to a piece without one adds that piece.
pub proof fn lemma_split_joined(a: Seq<char>, sep: char, b: Seq<char>)
    requires
        !b.contains(sep),
    ensures
        split(a.push(sep) + b, sep) == split(a, sep).push(b),
    decreases b.len(),
{
    let s = a.push(sep) + b;
    if b.len() == 0 {
        assert(s =~= a.push(sep));
        assert(s.drop_last() =~= a);
        assert(b =~= seq![]);
    } else {
        assert(s.drop_last() =~= a.push(sep) + b.drop_last());
        assert(b.contains(b.last()));
        assert forall|i: int| 0 <= i < b.drop_last().len() implies b.drop_last()[i] != sep by {
            assert(b.contains(b[i]));
        }
        lemma_split_joined(a, sep, b.drop_last());
        assert(b =~= b.drop_last().push(b.last()));
        let before = split(a, sep).push(b.drop_last());
        assert(before.drop_last() =~= split(a, sep));
    }
}

/// The texts one after the other, with `sep` between them.
pub fn joined(pieces: &[String], sep: &str) -> (r: String)
    ensures
        r@ == join(texts(pieces@), sep@),
{
    let mut s: String = String::new();
    let mut i: usize = 0;
    assert(join(texts(pieces@).take(0), sep@) =~= seq![]);
    while i < pieces.len()
        invariant
            i <= pieces@.len(),
            s@ == join(texts(pieces@).take(i as int), sep@),
        decreases pieces@.len() - i,
    {
        let ghost all = texts(pieces@);
        assert(all.take(i + 1).drop_last() =~= all.take(i as int));
        if i > 0 {
            s.append(sep);
        } else {
            assert(s@ + pieces@[0]@ =~= pieces@[0]@);
        }
        s.append(pieces[i].as_str());
        i = i + 1;
    }
    assert(texts(pieces@).take(i as int) =~= texts(pieces@));
    s
}

/// Does `s` begin with `prefix`?
pub fn begins(s: &[char], prefix: &[char]) -> (r: bool)
    ensures
        r == prefix@.is_prefix_of(s@),
{
    if prefix.len() > s.len() {
        return false;
    }
    let head = slice_subrange(s, 0, prefix.len());
    equal(head, prefix)
}

/// What follows `prefix` in `s`, when `s` begins with it.
pub open spec fn strip_prefix(s: Seq<char>, prefix: Seq<char>) -> Option<Seq<char>> {
    if prefix.is_prefix_of(s) {
        Some(s.skip(prefix.len() as int))
    } else {
        None
    }
}

/// What follows `prefix` in `s`, when `s` begins with it.
pub fn stripped<'a>(s: &'a [char], prefix: &str) -> (r: Option<&'a [char]>)
    ensures
        r is Some == strip_prefix(s@, prefix@) is Some,
        r matches Some(t) ==> strip_prefix(s@, prefix@) == Some(t@),
{
    let p = chars_of(prefix);
    if begins(s, p.as_slice()) {
        let t = slice_subrange(s, p.len(), s.len());
        assert(t@ =~= s@.skip(prefix@.len() as int));
        Some(t)
    } else {
        None
    }
}

/// Does the character occur in `s`?
pub fn occurs(s: &[char], c: char) -> (r: bool)
    ensures
        r == s@.contains(c),
{
    let mut i: usize = 0;
    while i < s.len()
        invariant
            i <= s@.len(),
            forall|j: int| 0 <= j < i ==> s@[j] != c,
        decreases s@.len() - i,
    {
        if s[i] == c {
            assert(s@[i as int] == c);
            return true;
        }
        i = i + 1;
    }
    false
}

// ---------- letter case ----------

/// The character with `A` to `Z` turned into `a` to `z`.
pub open spec fn lower(c: char) -> char {
    if 'A' <= c <= 'Z' {
        (c as u8 + 32) as char
    } else {
        c
    }
}

/// The text with `A` to `Z` turned into `a` to `z`.
pub open spec fn lower_text(s: Seq<char>) -> Seq<char> {
    s.map_values(|c: char| lower(c))
}

/// The character with `A` to `Z` turned into `a` to `z`.
pub fn lowered(c: char) -> (r: char)
    ensures
        r == lower(c),
{
    if 'A' <= c && c <= 'Z' {
        ((c as u8) + 32) as char
    } else {
        c
    }
}

/// The characters with `A` to `Z` turned into `a` to `z`.
pub fn lowered_text(s: &[char]) -> (r: Vec<char>)
    ensures
        r@ == lower_text(s@),
{
    let mut v: Vec<char> = Vec::new();
    let mut i: usize = 0;
    while i < s.len()
        invariant
            i <= s@.len(),
            v@ == lower_text(s@).take(i as int),
        decreases s@.len() - i,
    {
        v.push(lowered(s[i]));
        i = i + 1;
        assert(v@ =~= lower_text(s@).take(i as int));
    }
    assert(lower_text(s@).take(i as int) =~= lower_text(s@));
    v
}

// ---------- numbers ----------

/// The digit of a number below ten.
pub open spec fn digit(n: nat) -> char {
    (48 + n) as char
}

/// A number in decimal notation.
pub open spec fn decimal(n: nat) -> Seq<char>
    decreases n,
{
    if n < 10 {
        seq![digit(n)]
    } else {
        decimal(n / 10).push(digit(n % 10))
    }
}

/// A signed number in decimal notation.
pub open spec fn decimal_int(i: int) -> Seq<char> {
    if i < 0 {
        seq!['-'] + decimal((-i) as nat)
    } else {
        decimal(i as nat)
    }
}

/// A truth value as `true` or `false`.
pub open spec fn bool_text(b: bool) -> Seq<char> {
    if b {
        "true"@
    } else {
        "false"@
    }
}

/// A number in decimal notation.
pub fn decimal_u64(n: u64) -> (r: String)
    ensures
        r@ == decimal(n as nat),
    decreases n,
{
    if n < 10 {
        let mut s: String = String::new();
        s.push((48 + n as u8) as char);
        assert(s@ =~= decimal(n as nat));
        s
    } else {
        let mut s = decimal_u64(n / 10);
        s.push((48 + (n % 10) as u8) as char);
        s
    }
}

/// A signed number in decimal notation.
pub fn decimal_i32(i: i32) -> (r: String)
    ensures
        r@ == decimal_int(i as int),
{
    let wide: i64 = i as i64;
    if wide < 0 {
        let digits = decimal_u64((-wide) as u64);
        let mut s: String = String::new();
        s.push('-');
        s.append(digits.as_str());
        assert(s@ =~= seq!['-'] + digits@);
        s
    } else {
        decimal_u64(wide as u64)
    }
}

/// A truth value as `true` or `false`.
pub fn bool_word(b: bool) -> (r: String)
    ensures
        r@ == bool_text(b),
{
    if b {
        "true".to_owned()
    } else {
        "false".to_owned()
    }
}

// ---------- laws ----------

/// Is every character of the class?
pub open spec fn all_of(s: Seq<char>, class: CharClass) -> bool {
    forall|i: int| 0 <= i < s.len() ==> class.holds(#[trigger] s[i])
}

/// A class of one character holds that character and no other.
pub proof fn single_class_is_exact(c: char, d: char)
    ensures
        CharClass::Only(d).holds(c) <==> c == d,
{
}

/// Trimming the start takes off what is of the class, up to the first character
/// that is not, and keeps the rest as it is.
pub proof fn trim_start_keeps_the_rest(front: Seq<char>, rest: Seq<char>, class: CharClass)
    requires
        all_of(front, class),
        rest.len() > 0 ==> !class.holds(rest[0]),
    ensures
        trim_start(front + rest, class) == rest,
    decreases front.len(),
{
    let s = front + rest;
    if front.len() == 0 {
        assert(s =~= rest);
    } else {
        assert(s[0] == front[0]);
        assert forall|i: int| 0 <= i < front.drop_first().len() implies class.holds(
            #[trigger] front.drop_first()[i],
        ) by {
            assert(front.drop_first()[i] == front[i + 1]);
        }
        trim_start_keeps_the_rest(front.drop_first(), rest, class);
        assert(s.drop_first() =~= front.drop_first() + rest);
    }
}

/// Trimming the end takes off what is of the class, down to the last character
/// that is not, and keeps the rest as it is.
pub proof fn trim_end_keeps_the_rest(rest: Seq<char>, back: Seq<char>, class: CharClass)
    requires
        all_of(back, class),
        rest.len() > 0 ==> !class.holds(rest.last()),
    ensures
        trim_end(rest + back, class) == rest,
    decreases back.len(),
{
    let s = rest + back;
    if back.len() == 0 {
        assert(s =~= rest);
    } else {
        assert(s.last() == back[back.len() - 1]);
        assert forall|i: int| 0 <= i < back.drop_last().len() implies class.holds(
            #[trigger] back.drop_last()[i],
        ) by {
            assert(back.drop_last()[i] == back[i]);
        }
        trim_end_keeps_the_rest(rest, back.drop_last(), class);
        assert(s.drop_last() =~= rest + back.drop_last());
    }
}

/// Trimming gives back, character for character, a text with no character of the
/// class at its ends from that text with such characters around it.
pub proof fn trim_keeps_the_middle(
    front: Seq<char>,
    middle: Seq<char>,
    back: Seq<char>,
    class: CharClass,
)
    requires
        all_of(front, class),
        all_of(back, class),
        middle.len() > 0 ==> !class.holds(middle[0]) && !class.holds(middle.last()),
    ensures
        trim(front + middle + back, class) == middle,
{
    if middle.len() == 0 {
        let s = front + middle + back;
        let none = Seq::<char>::empty();
        assert(all_of(s, class)) by {
            assert forall|i: int| 0 <= i < s.len() implies class.holds(#[trigger] s[i]) by {
                if i < front.len() {
                    assert(s[i] == front[i]);
                } else {
                    assert(s[i] == back[i - front.len()]);
                }
            }
        }
        trim_start_keeps_the_rest(s, none, class);
        assert(s + none =~= s);
        assert(middle =~= none);
    } else {
        assert(front + middle + back =~= front + (middle + back));
        trim_start_keeps_the_rest(front, middle + back, class);
        trim_end_keeps_the_rest(middle, back, class);
    }
}

/// A split gives back the pieces that a separator was put between.
pub proof fn split_undoes_join(pieces: Seq<Seq<char>>, sep: char)
    requires
        pieces.len() > 0,
        forall|i: int| 0 <= i < pieces.len() ==> !(#[trigger] pieces[i]).contains(sep),
    ensures
        split(join(pieces, seq![sep]), sep) == pieces,
    decreases pieces.len(),
{
    if pieces.len() == 1 {
        assert forall|j: int| 0 <= j < pieces[0].len() implies pieces[0][j] != sep by {
            assert(pieces[0].contains(pieces[0][j]));
        }
        lemma_unsplit(pieces[0], sep);
        assert(pieces =~= seq![pieces[0]]);
    } else {
        let before = pieces.drop_last();
        assert forall|i: int| 0 <= i < before.len() implies !(#[trigger] before[i]).contains(
            sep,
        ) by {
            assert(before[i] == pieces[i]);
        }
        split_undoes_join(before, sep);
        assert(pieces[pieces.len() - 1] == pieces.last());
        let head = join(before, seq![sep]);
        lemma_split_joined(head, sep, pieces.last());
        assert(head + seq![sep] + pieces.last() =~= head.push(sep) + pieces.last());
        assert(pieces =~= before.push(pieces.last()));
    }
}

/// A join puts a text back together from the pieces of a split, none of which holds
/// the separator.
pub proof fn join_undoes_split(s: Seq<char>, sep: char)
    ensures
        join(split(s, sep), seq![sep]) == s,
        split(s, sep).len() > 0,
        forall|i: int| 0 <= i < split(s, sep).len() ==> !(#[trigger] split(s, sep)[i]).contains(sep),
    decreases s.len(),
{
    if s.len() == 0 {
        assert(split(s, sep) =~= seq![seq![]]);
        assert(s =~= seq![]);
    } else {
        let rest = s.drop_last();
        join_undoes_split(rest, sep);
        let before = split(rest, sep);
        let all = split(s, sep);
        if s.last() == sep {
            assert(all.drop_last() =~= before);
            assert(join(before, seq![sep]) + seq![sep] + Seq::<char>::empty() =~= s);
            assert forall|i: int| 0 <= i < all.len() implies !(#[trigger] all[i]).contains(
                sep,
            ) by {
                if i < before.len() {
                    assert(all[i] == before[i]);
                }
            }
        } else {
            let piece = before.last().push(s.last());
            assert(all.drop_last() =~= before.drop_last());
            if before.len() == 1 {
                assert(join(all, seq![sep]) == piece);
                assert(piece =~= s);
            } else {
                assert(join(before, seq![sep]) == join(before.drop_last(), seq![sep]) + seq![sep]
                    + before.last());
                let head = join(before.drop_last(), seq![sep]) + seq![sep];
                assert(all.len() == before.len());
                assert(all.last() == piece);
                assert(join(all, seq![sep]) == head + piece);
                assert(rest == head + before.last());
                assert(head + piece =~= rest.push(s.last()));
                assert(rest.push(s.last()) =~= s);
            }
            assert forall|i: int| 0 <= i < all.len() implies !(#[trigger] all[i]).contains(
                sep,
            ) by {
                if i < before.len() - 1 {
                    assert(all[i] == before[i]);
                } else {
                    assert(all[i] == piece);
                    assert(!before[before.len() - 1].contains(sep));
                    assert forall|j: int| 0 <= j < piece.len() implies piece[j] != sep by {
                        if j < before.last().len() {
                            assert(before.last().contains(before.last()[j]));
                        }
                    }
                }
            }
        }
    }
}

/// Joining puts the separator between neighbours and nowhere else.
pub proof fn join_of_two_lists(a: Seq<Seq<char>>, b: Seq<Seq<char>>, sep: Seq<char>)
    requires
        a.len() > 0,
        b.len() > 0,
    ensures
        join(a + b, sep) == join(a, sep) + sep + join(b, sep),
        join(seq![a[0]], sep) == a[0],
        join(Seq::<Seq<char>>::empty(), sep) == Seq::<char>::empty(),
    decreases b.len(),
{
    let all = a + b;
    assert(all.last() == b.last());
    if b.len() == 1 {
        assert(all.drop_last() =~= a);
    } else {
        join_of_two_lists(a, b.drop_last(), sep);
        assert(all.drop_last() =~= a + b.drop_last());
        assert(join(a, sep) + sep + join(b.drop_last(), sep) + sep + b.last() =~= join(a, sep) + sep
            + (join(b.drop_last(), sep) + sep + b.last()));
    }
}

/// Lowering changes `A` to `Z` alone, each to the letter 32 code points further on.
pub proof fn lowering_changes_capitals_alone(s: Seq<char>)
    ensures
        lower_text(s).len() == s.len(),
        forall|i: int|
            0 <= i < s.len() ==> (#[trigger] lower_text(s)[i]) as int == if 65 <= s[i] as int <= 90 {
                s[i] as int + 32
            } else {
                s[i] as int
            },
{
}

/// A prefix is stripped where the text begins with it, and then all of it and
/// nothing more is.
pub proof fn stripping_takes_the_prefix(prefix: Seq<char>, rest: Seq<char>, other: Seq<char>)
    ensures
        strip_prefix(prefix + rest, prefix) == Some(rest),
        strip_prefix(other, prefix) matches Some(tail) ==> other == prefix + tail,
{
    assert((prefix + rest).skip(prefix.len() as int) =~= rest);
    assert(prefix.is_prefix_of(prefix + rest));
    if prefix.is_prefix_of(other) {
        assert(other =~= prefix + other.skip(prefix.len() as int));
    }
}

/// A truth value is written as a word.
pub proof fn truth_values_are_words()
    ensures
        bool_text(true) == seq!['t', 'r', 'u', 'e'],
        bool_text(false) == seq!['f', 'a', 'l', 's', 'e'],
{
    reveal_strlit("true");
    reveal_strlit("false");
    assert(bool_text(true) =~= seq!['t', 'r', 'u', 'e']);
    assert(bool_text(false) =~= seq!['f', 'a', 'l', 's', 'e']);
}

} // verus!
