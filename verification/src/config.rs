//! How the server is set up.

use vstd::prelude::*;
use vstd::slice::slice_subrange;

use crate::origin::is_digits;
use crate::text::{chars_of, concat2, decimal, decimal_int, digit, listed, opt_text, texts};

verus! {

/// The number that a text of digits stands for.
pub open spec fn number(s: Seq<char>) -> nat
    decreases s.len(),
{
    if s.len() == 0 {
        0
    } else {
        10 * number(s.drop_last()) + (s.last() as nat - '0' as nat) as nat
    }
}

/// Is the text a port and nothing else? A port is a number up to 65535, with or
/// without `+` before it.
pub open spec fn is_port(s: Seq<char>) -> bool {
    let digits = if s.len() > 0 && s[0] == '+' {
        s.drop_first()
    } else {
        s
    };
    digits.len() > 0 && is_digits(digits) && number(digits) <= 65535
}

/// The address to listen on: a bare port means that port on all interfaces.
pub open spec fn bind_target(bind: Seq<char>) -> Seq<char> {
    if is_port(bind) {
        "0.0.0.0:"@ + bind
    } else {
        bind
    }
}

/// Is the text a number up to 65535, in digits?
fn small_number(s: &[char]) -> (r: bool)
    ensures
        r == (is_digits(s@) && number(s@) <= 65535),
{
    let mut n: u32 = 0;
    let mut large = false;
    let mut i: usize = 0;
    assert(s@.take(0) =~= seq![]);
    while i < s.len()
        invariant
            i <= s@.len(),
            forall|j: int| 0 <= j < i ==> '0' <= #[trigger] s@[j] <= '9',
            !large ==> n == number(s@.take(i as int)) && n <= 65535,
            large ==> number(s@.take(i as int)) > 65535,
        decreases s@.len() - i,
    {
        let c = s[i];
        if !('0' <= c && c <= '9') {
            assert(!('0' <= s@[i as int] <= '9'));
            return false;
        }
        assert(s@.take(i + 1).drop_last() =~= s@.take(i as int));
        if !large {
            n = 10 * n + (c as u32 - 48);
            large = n > 65535;
        }
        i = i + 1;
    }
    assert(s@.take(i as int) =~= s@);
    !large
}

/// The address to listen on: `host:port`, or a bare port, which means that port on
/// all interfaces.
pub fn bind_address(bind: &str) -> (r: String)
    ensures
        r@ == bind_target(bind@),
{
    let v = chars_of(bind);
    let end: usize = v.len();
    let digits = if end > 0 && v[0] == '+' {
        let d = slice_subrange(v.as_slice(), 1, end);
        assert(d@ =~= v@.drop_first());
        d
    } else {
        v.as_slice()
    };
    if digits.len() > 0 && small_number(digits) {
        concat2("0.0.0.0:", bind)
    } else {
        bind.to_owned()
    }
}

/// The token that stands in where a caller gives none: the first that is set, or
/// the empty text.
pub open spec fn token_setting(token: Option<Seq<char>>, access_token: Option<Seq<char>>) -> Seq<
    char,
> {
    match token {
        Some(t) => t,
        None => match access_token {
            Some(t) => t,
            None => seq![],
        },
    }
}

/// The token that stands in where a caller gives none: `MEMOS_TOKEN` where it is
/// set, else `MEMOS_ACCESS_TOKEN` where that is, else the empty text.
pub fn fallback_token(token: Option<String>, access_token: Option<String>) -> (r: String)
    ensures
        r@ == token_setting(opt_text(token), opt_text(access_token)),
{
    match token {
        Some(t) => t,
        None => match access_token {
            Some(t) => t,
            None => String::new(),
        },
    }
}

/// Does the server speak over standard input and output? It does where an argument
/// says `--stdio` or the variable `MEMOS_MCP_STDIO` is set.
pub fn wants_stdio(args: &[String], variable_set: bool) -> (r: bool)
    ensures
        r == (texts(args@).contains("--stdio"@) || variable_set),
{
    listed(args, "--stdio") || variable_set
}

/// The largest request body that is taken: 256 MiB, enough for large attachments.
pub const MAX_REQUEST_BYTES: usize = 268435456;

// ---------- laws ----------

/// An address with a colon, such as `host:port`, is left as it is.
pub proof fn full_addresses_are_kept(bind: Seq<char>)
    requires
        bind.contains(':'),
    ensures
        bind_target(bind) == bind,
{
    let i = choose|i: int| 0 <= i < bind.len() && bind[i] == ':';
    if bind[0] == '+' {
        assert(bind.drop_first()[i - 1] == ':');
    }
}

/// A number in decimal notation is read back as that number; it consists of digits,
/// and does not begin with `0` unless it is zero.
pub proof fn decimals_are_read_back(n: nat)
    ensures
        number(decimal(n)) == n,
        is_digits(decimal(n)),
        decimal(n).len() > 0,
        n > 0 ==> decimal(n)[0] != '0',
    decreases n,
{
    if n < 10 {
        let s = decimal(n);
        assert(s =~= seq![digit(n)]);
        assert(s.drop_last() =~= seq![]);
        assert(number(Seq::<char>::empty()) == 0);
    } else {
        decimals_are_read_back(n / 10);
        let front = decimal(n / 10);
        let s = decimal(n);
        assert(s.drop_last() =~= front);
        assert(s[0] == front[0]);
        assert(n == 10 * (n / 10) + n % 10);
        assert forall|i: int| 0 <= i < s.len() implies '0' <= #[trigger] s[i] <= '9' by {
            if i < front.len() {
                assert(s[i] == front[i]);
            }
        }
    }
}

/// A signed number is its decimal notation, with `-` before it where it is negative.
pub proof fn signed_decimals_carry_their_sign(n: nat)
    ensures
        decimal_int(n as int) == decimal(n),
        n > 0 ==> decimal_int(-(n as int)) == seq!['-'] + decimal(n),
{
}

/// A bare port, from 0 to 65535, is taken on all interfaces; a larger number is not a
/// port.
pub proof fn bare_ports_bind_everywhere(port: nat)
    ensures
        port <= 65535 ==> bind_target(decimal(port)) == "0.0.0.0:"@ + decimal(port),
        port > 65535 ==> bind_target(decimal(port)) == decimal(port),
{
    decimals_are_read_back(port);
    let s = decimal(port);
    assert('0' <= s[0] <= '9');
}

/// An address with anything but digits in it, and a sign before them, is left as it
/// is.
pub proof fn named_addresses_are_kept(bind: Seq<char>, i: int)
    requires
        0 <= i < bind.len(),
        !('0' <= bind[i] <= '9'),
        i > 0 || bind[0] != '+',
    ensures
        bind_target(bind) == bind,
{
    if bind[0] == '+' {
        assert(bind.drop_first()[i - 1] == bind[i]);
    }
}

/// The first token that is set is taken, even where it is empty.
pub proof fn first_token_set_is_taken(token: Seq<char>, access_token: Option<Seq<char>>)
    ensures
        token_setting(Some(token), access_token) == token,
        token_setting(None, Some(token)) == token,
        token_setting(None, None).len() == 0,
{
}

} // verus!
