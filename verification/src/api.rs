//! Settings of the simulation service.

use vstd::prelude::*;
use vstd::string::*;

verus! {

/// Service settings.
#[derive(Clone, Debug)]
pub struct ApiConfig {
    /// Session timeout in seconds.
    pub session_timeout_secs: u64,
    /// Largest number of concurrent sessions.
    pub max_sessions: usize,
    /// Allowed CORS origins (empty: allow all).
    pub cors_origins: Vec<String>,
    /// Whether to add request identifier headers.
    pub request_id_header: bool,
}

impl Default for ApiConfig {
    /// Sessions time out after 30 minutes, at most 100 at once, every origin
    /// allowed, request identifiers on.
    fn default() -> (r: Self)
        ensures
            r.session_timeout_secs == 1800,
            r.max_sessions == 100,
            r.cors_origins@.len() == 0,
            r.request_id_header,
    {
        ApiConfig {
            session_timeout_secs: 30 * 60,
            max_sessions: 100,
            cors_origins: Vec::new(),
            request_id_header: true,
        }
    }
}

/// Unicode white space (the `White_Space` property, as `char::is_whitespace`
/// has it).
pub open spec fn is_white_space(c: char) -> bool {
    ('\u{9}' <= c && c <= '\u{d}') || c == ' ' || c == '\u{85}' || c == '\u{a0}' || c == '\u{1680}'
        || ('\u{2000}' <= c && c <= '\u{200a}') || c == '\u{2028}' || c == '\u{2029}' || c
        == '\u{202f}' || c == '\u{205f}' || c == '\u{3000}'
}

/// How many white-space characters `s` starts with.
pub open spec fn leading_white(s: Seq<char>) -> nat
    decreases s.len(),
{
    if s.len() > 0 && is_white_space(s[0]) {
        1 + leading_white(s.drop_first())
    } else {
        0
    }
}

/// How many white-space characters `s` ends with.
pub open spec fn trailing_white(s: Seq<char>) -> nat
    decreases s.len(),
{
    if s.len() > 0 && is_white_space(s.last()) {
        1 + trailing_white(s.drop_last())
    } else {
        0
    }
}

/// `s` without leading and trailing white space.
pub open spec fn trimmed(s: Seq<char>) -> Seq<char> {
    let t = s.subrange(leading_white(s) as int, s.len() as int);
    t.subrange(0, t.len() - trailing_white(t))
}

/// The pieces of `s` between the separators `sep` (one piece more than
/// there are separators).
pub open spec fn split_pieces(s: Seq<char>, sep: char) -> Seq<Seq<char>>
    decreases s.len(),
{
    if s.len() == 0 {
        seq![Seq::<char>::empty()]
    } else {
        let rest = split_pieces(s.drop_last(), sep);
        if s.last() == sep {
            rest.push(Seq::<char>::empty())
        } else {
            rest.update(rest.len() - 1, rest.last().push(s.last()))
        }
    }
}

/// The number the decimal digits `s` spell.
pub open spec fn digits_value(s: Seq<char>) -> int
    decreases s.len(),
{
    if s.len() == 0 {
        0
    } else {
        digits_value(s.drop_last()) * 10 + (s.last() as int - '0' as int)
    }
}

/// Every character of `s` is a decimal digit.
pub open spec fn all_digits(s: Seq<char>) -> bool {
    forall|i: int| 0 <= i < s.len() ==> '0' <= #[trigger] s[i] && s[i] <= '9'
}

/// The value of an unsigned decimal number: digits, at least one, after an
/// optional `+`.
pub open spec fn unsigned_value(s: Seq<char>) -> Option<int> {
    let body = if s.len() > 0 && s[0] == '+' {
        s.drop_first()
    } else {
        s
    };
    if body.len() > 0 && all_digits(body) {
        Some(digits_value(body))
    } else {
        None
    }
}

/// `s` read as a `u64` the way `str::parse` reads one.
pub open spec fn parsed_u64(s: Seq<char>) -> Option<u64> {
    match unsigned_value(s) {
        Some(v) => if v <= u64::MAX {
            Some(v as u64)
        } else {
            None
        },
        None => None,
    }
}

/// `s` read as a `usize` the way `str::parse` reads one.
pub open spec fn parsed_usize(s: Seq<char>) -> Option<usize> {
    match unsigned_value(s) {
        Some(v) => if v <= usize::MAX {
            Some(v as usize)
        } else {
            None
        },
        None => None,
    }
}

/// Whether `c` is Unicode white space.
pub fn is_white_space_char(c: char) -> (r: bool)
    ensures
        r == is_white_space(c),
{
    ('\u{9}' <= c && c <= '\u{d}') || c == ' ' || c == '\u{85}' || c == '\u{a0}' || c == '\u{1680}'
        || ('\u{2000}' <= c && c <= '\u{200a}') || c == '\u{2028}' || c == '\u{2029}' || c
        == '\u{202f}' || c == '\u{205f}' || c == '\u{3000}'
}

/// `s` without leading and trailing white space.
pub fn trim_text(s: &str) -> (r: String)
    ensures
        r@ == trimmed(s@),
{
    let n = s.unicode_len();
    let mut a: usize = 0;
    assert(s@.subrange(0, n as int) =~= s@);
    while a < n && is_white_space_char(s.get_char(a))
        invariant
            n == s@.len(),
            a <= n,
            leading_white(s@) == a + leading_white(s@.subrange(a as int, n as int)),
        decreases n - a,
    {
        assert(s@.subrange(a as int, n as int).drop_first() =~= s@.subrange(a + 1, n as int));
        a = a + 1;
    }
    proof {
        if a == n {
            assert(leading_white(s@.subrange(a as int, n as int)) == 0);
        }
    }
    let ghost t = s@.subrange(a as int, n as int);
    let mut b: usize = n;
    while b > a && is_white_space_char(s.get_char(b - 1))
        invariant
            n == s@.len(),
            a <= b <= n,
            t == s@.subrange(a as int, n as int),
            trailing_white(t) == (n - b) + trailing_white(s@.subrange(a as int, b as int)),
        decreases b - a,
    {
        assert(s@.subrange(a as int, b as int).drop_last() =~= s@.subrange(a as int, b - 1));
        b = b - 1;
    }
    assert(t.subrange(0, t.len() - trailing_white(t)) =~= s@.subrange(a as int, b as int));
    String::from_str(s.substring_char(a, b))
}

/// Splitting a text one character longer: a separator starts a new piece,
/// any other character goes to the end of the last piece.
proof fn lemma_split_step(s: Seq<char>, sep: char, i: int)
    requires
        0 <= i < s.len(),
    ensures
        split_pieces(s.take(i + 1), sep) == if s[i] == sep {
            split_pieces(s.take(i), sep).push(Seq::<char>::empty())
        } else {
            let rest = split_pieces(s.take(i), sep);
            rest.update(rest.len() - 1, rest.last().push(s[i]))
        },
{
    assert(s.take(i + 1).drop_last() =~= s.take(i));
}

/// A split always has a last piece.
proof fn lemma_split_nonempty(s: Seq<char>, sep: char)
    ensures
        split_pieces(s, sep).len() > 0,
    decreases s.len(),
{
    if s.len() > 0 {
        lemma_split_nonempty(s.drop_last(), sep);
    }
}

/// The pieces of `s` between the separators `sep`, each without leading
/// and trailing white space.
pub fn split_trimmed(s: &str, sep: char) -> (r: Vec<String>)
    ensures
        r@.map_values(|x: String| x@) == split_pieces(s@, sep).map_values(|p: Seq<char>| trimmed(p)),
{
    let n = s.unicode_len();
    let mut r: Vec<String> = Vec::new();
    let mut start: usize = 0;
    let mut i: usize = 0;
    while i < n
        invariant
            n == s@.len(),
            start <= i <= n,
            split_pieces(s@.take(i as int), sep).len() > 0,
            r@.map_values(|x: String| x@) == split_pieces(s@.take(i as int), sep).drop_last().map_values(
                |p: Seq<char>| trimmed(p),
            ),
            split_pieces(s@.take(i as int), sep).last() == s@.subrange(start as int, i as int),
        decreases n - i,
    {
        proof {
            lemma_split_step(s@, sep, i as int);
            lemma_split_nonempty(s@.take(i as int), sep);
        }
        let c = s.get_char(i);
        if c == sep {
            let piece = trim_text(s.substring_char(start, i));
            let ghost before = r@;
            r.push(piece);
            proof {
                let prev = split_pieces(s@.take(i as int), sep);
                let next = split_pieces(s@.take(i + 1), sep);
                assert(next == prev.push(Seq::<char>::empty()));
                assert(next.drop_last() =~= prev);
                assert(r@.map_values(|x: String| x@) =~= before.map_values(|x: String| x@).push(
                    trimmed(prev.last()),
                ));
                assert(prev.map_values(|p: Seq<char>| trimmed(p)) =~= prev.drop_last().map_values(
                    |p: Seq<char>| trimmed(p),
                ).push(trimmed(prev.last())));
                assert(s@.subrange(i + 1, i + 1) =~= Seq::<char>::empty());
            }
            start = i + 1;
        } else {
            proof {
                let prev = split_pieces(s@.take(i as int), sep);
                let next = split_pieces(s@.take(i + 1), sep);
                assert(next.drop_last() =~= prev.drop_last());
                assert(next.last() =~= s@.subrange(start as int, i + 1));
            }
        }
        i = i + 1;
    }
    let last = trim_text(s.substring_char(start, n));
    let ghost before = r@;
    r.push(last);
    proof {
        let all = split_pieces(s@.take(n as int), sep);
        assert(s@.take(n as int) =~= s@);
        assert(r@.map_values(|x: String| x@) =~= before.map_values(|x: String| x@).push(
            trimmed(all.last()),
        ));
        assert(all.map_values(|p: Seq<char>| trimmed(p)) =~= all.drop_last().map_values(
            |p: Seq<char>| trimmed(p),
        ).push(trimmed(all.last())));
    }
    r
}

/// More digits never make a smaller number.
proof fn lemma_digits_grow(s: Seq<char>, k: int)
    requires
        all_digits(s),
        0 <= k <= s.len(),
    ensures
        digits_value(s.take(k)) <= digits_value(s),
        0 <= digits_value(s.take(k)),
    decreases s.len() - k,
{
    if k < s.len() {
        lemma_digits_grow(s, k + 1);
        assert(s.take(k + 1).drop_last() =~= s.take(k));
        lemma_digits_nonnegative(s.take(k));
    } else {
        assert(s.take(k) =~= s);
        lemma_digits_nonnegative(s);
    }
}

proof fn lemma_digits_nonnegative(s: Seq<char>)
    requires
        all_digits(s),
    ensures
        0 <= digits_value(s),
    decreases s.len(),
{
    if s.len() > 0 {
        lemma_digits_nonnegative(s.drop_last());
    }
}

/// `s` read as an unsigned decimal number the way `str::parse::<u64>`
/// reads one: an optional `+`, then at least one digit; `None` for
/// anything else or a number above `u64::MAX`.
pub fn parse_u64_text(s: &str) -> (r: Option<u64>)
    ensures
        r == parsed_u64(s@),
{
    let n = s.unicode_len();
    let mut start: usize = 0;
    if n > 0 && s.get_char(0) == '+' {
        start = 1;
    }
    let ghost body = if s@.len() > 0 && s@[0] == '+' {
        s@.drop_first()
    } else {
        s@
    };
    assert(body =~= s@.subrange(start as int, n as int));
    if start == n {
        return None;
    }
    let mut value: u64 = 0;
    let mut i: usize = start;
    while i < n
        invariant
            n == s@.len(),
            start < n,
            start <= i <= n,
            body == s@.subrange(start as int, n as int),
            body == (if s@.len() > 0 && s@[0] == '+' {
                s@.drop_first()
            } else {
                s@
            }),
            all_digits(body.take(i - start)),
            value == digits_value(body.take(i - start)),
        decreases n - i,
    {
        let c = s.get_char(i);
        if c < '0' || c > '9' {
            assert(body[i - start] == c);
            assert(!all_digits(body));
            assert(unsigned_value(s@) is None);
            return None;
        }
        let d: u64 = (c as u32 - '0' as u32) as u64;
        let ghost next = body.take(i - start + 1);
        assert(next.drop_last() =~= body.take(i - start));
        assert(next.last() == c);
        assert(all_digits(next));
        if value > (u64::MAX - d) / 10 {
            proof {
                assert(value * 10 + d > u64::MAX) by (nonlinear_arith)
                    requires
                        value > (u64::MAX - d) / 10,
                        d <= 9,
                ;
                assert(digits_value(next) == value * 10 + d);
                assert(digits_value(next) > u64::MAX);
                if all_digits(body) {
                    lemma_digits_grow(body, i - start + 1);
                    assert(unsigned_value(s@) == Some(digits_value(body)));
                } else {
                    assert(unsigned_value(s@) is None);
                }
            }
            return None;
        }
        value = value * 10 + d;
        i = i + 1;
    }
    assert(body.take(n - start) =~= body);
    Some(value)
}

/// `s` read as a `usize` the way `str::parse::<usize>` reads one.
pub fn parse_usize_text(s: &str) -> (r: Option<usize>)
    ensures
        r == parsed_usize(s@),
{
    match parse_u64_text(s) {
        Some(v) => {
            proof {
                let body = if s@.len() > 0 && s@[0] == '+' {
                    s@.drop_first()
                } else {
                    s@
                };
                lemma_digits_nonnegative(body);
            }
            if v as u128 <= usize::MAX as u128 {
                Some(v as usize)
            } else {
                None
            }
        },
        None => {
            proof {
                if unsigned_value(s@) is Some {
                    assert(unsigned_value(s@)->0 > u64::MAX);
                    assert(usize::MAX <= u64::MAX);
                }
            }
            None
        },
    }
}

/// The service settings from the texts of the three settings, each absent
/// or present: the session timeout in seconds (30 minutes when absent or
/// not a number), the largest number of sessions (100 likewise) and the
/// comma-separated allowed origins, each trimmed (none when absent).
/// Request identifier headers are on.
pub fn config_from_settings(
    session_timeout: Option<&str>,
    max_sessions: Option<&str>,
    cors_origins: Option<&str>,
) -> (r: ApiConfig)
    ensures
        r.session_timeout_secs == match session_timeout {
            Some(t) => match parsed_u64(t@) {
                Some(v) => v,
                None => 1800,
            },
            None => 1800,
        },
        r.max_sessions == match max_sessions {
            Some(t) => match parsed_usize(t@) {
                Some(v) => v,
                None => 100,
            },
            None => 100,
        },
        r.cors_origins@.map_values(|x: String| x@) == match cors_origins {
            Some(o) => split_pieces(o@, ',').map_values(|p: Seq<char>| trimmed(p)),
            None => Seq::<Seq<char>>::empty(),
        },
        r.request_id_header,
{
    let session_timeout_secs = match session_timeout {
        Some(t) => match parse_u64_text(t) {
            Some(v) => v,
            None => 30 * 60,
        },
        None => 30 * 60,
    };
    let max_sessions = match max_sessions {
        Some(t) => match parse_usize_text(t) {
            Some(v) => v,
            None => 100,
        },
        None => 100,
    };
    let cors_origins = match cors_origins {
        Some(o) => split_trimmed(o, ','),
        None => {
            let v: Vec<String> = Vec::new();
            assert(v@.map_values(|x: String| x@) =~= Seq::<Seq<char>>::empty());
            v
        },
    };
    ApiConfig { session_timeout_secs, max_sessions, cors_origins, request_id_header: true }
}

} // verus!
