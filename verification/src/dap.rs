//! The Debug Adapter Protocol as the editor speaks it: messages framed by a
//! `Content-Length` header, requests and events numbered in sequence, and
//! responses matched back to their requests.
use vstd::prelude::*;
use crate::json::{JsonNumber, JsonNumberView, JsonValue, JsonView, json_get, json_str};
use crate::text::{chars_of, concat, ends_with, ends_with_spec, owned, starts_with_spec};
use crate::render::{decimal, u64_text};

verus! {

/// The header that frames a message body of `len` bytes.
pub open spec fn frame_header_spec(len: nat) -> Seq<char> {
    "Content-Length: "@ + decimal(len) + "\r\n\r\n"@
}

/// The header that frames a message body of `body_len` bytes.
pub fn frame_header(body_len: usize) -> (r: String)
    ensures
        r@ == frame_header_spec(body_len as nat),
{
    let n = u64_text(body_len as u64);
    let front = concat("Content-Length: ", n.as_str());
    concat(front.as_str(), "\r\n\r\n")
}

/// The number of bytes `c` takes in UTF-8.
pub open spec fn utf8_width(c: char) -> nat {
    if (c as u32) < 0x80 {
        1
    } else if (c as u32) < 0x800 {
        2
    } else if (c as u32) < 0x10000 {
        3
    } else {
        4
    }
}

/// The number of bytes `s` takes in UTF-8.
pub open spec fn utf8_len(s: Seq<char>) -> nat
    decreases s.len(),
{
    if s.len() == 0 {
        0
    } else {
        utf8_len(s.drop_last()) + utf8_width(s.last())
    }
}

/// How far a header read byte by byte has come.
pub enum HeaderState {
    /// More bytes are needed.
    Incomplete,
    /// The blank line that ends the header has been read.
    Complete,
    /// The header passed 4096 bytes without ending: the adapter is dropped.
    TooLong,
}

/// The state of a header read so far.
pub open spec fn header_state_spec(buf: Seq<char>) -> HeaderState {
    if ends_with_spec(buf, "\r\n\r\n"@) {
        HeaderState::Complete
    } else if utf8_len(buf) > 4096 {
        HeaderState::TooLong
    } else {
        HeaderState::Incomplete
    }
}

proof fn lemma_utf8_len_grows(s: Seq<char>, k: int)
    requires
        0 <= k <= s.len(),
    ensures
        utf8_len(s.take(k)) <= utf8_len(s),
    decreases s.len() - k,
{
    if k < s.len() {
        assert(s.take(k + 1).drop_last() =~= s.take(k));
        lemma_utf8_len_grows(s, k + 1);
    } else {
        assert(s.take(k) =~= s);
    }
}

/// The state of the header read so far.
pub fn header_state(buf: &str) -> (r: HeaderState)
    ensures
        r == header_state_spec(buf@),
{
    if ends_with(buf, "\r\n\r\n") {
        return HeaderState::Complete;
    }
    let cs = chars_of(buf);
    let mut n: u64 = 0;
    let mut i: usize = 0;
    assert(cs@.take(0) =~= Seq::<char>::empty());
    while i < cs.len() && n <= 4096
        invariant
            i <= cs@.len(),
            cs@ == buf@,
            n == utf8_len(cs@.take(i as int)),
            n <= 4100,
        decreases cs@.len() - i,
    {
        assert(cs@.take(i + 1).drop_last() =~= cs@.take(i as int));
        let c = cs[i] as u32;
        if c < 0x80 {
            n = n + 1;
        } else if c < 0x800 {
            n = n + 2;
        } else if c < 0x10000 {
            n = n + 3;
        } else {
            n = n + 4;
        }
        i = i + 1;
    }
    proof {
        lemma_utf8_len_grows(cs@, i as int);
        if i == cs@.len() {
            assert(cs@.take(i as int) =~= cs@);
        }
    }
    if n > 4096 {
        HeaderState::TooLong
    } else {
        HeaderState::Incomplete
    }
}

/// Whether `c` has Unicode's `White_Space` property (std `char::is_whitespace`).
pub open spec fn is_whitespace(c: char) -> bool {
    let u = c as u32;
    (0x9 <= u <= 0xd) || u == 0x20 || u == 0x85 || u == 0xa0 || u == 0x1680 || (0x2000 <= u <= 0x200a) || u
        == 0x2028 || u == 0x2029 || u == 0x202f || u == 0x205f || u == 0x3000
}

fn whitespace(c: char) -> (r: bool)
    ensures
        r == is_whitespace(c),
{
    let u = c as u32;
    (0x9 <= u && u <= 0xd) || u == 0x20 || u == 0x85 || u == 0xa0 || u == 0x1680 || (0x2000 <= u && u <= 0x200a)
        || u == 0x2028 || u == 0x2029 || u == 0x202f || u == 0x205f || u == 0x3000
}

/// `s` without leading whitespace.
pub open spec fn trim_start_spec(s: Seq<char>) -> Seq<char>
    decreases s.len(),
{
    if s.len() > 0 && is_whitespace(s[0]) {
        trim_start_spec(s.drop_first())
    } else {
        s
    }
}

/// `s` without trailing whitespace.
pub open spec fn trim_end_spec(s: Seq<char>) -> Seq<char>
    decreases s.len(),
{
    if s.len() > 0 && is_whitespace(s.last()) {
        trim_end_spec(s.drop_last())
    } else {
        s
    }
}

/// `s` without leading or trailing whitespace (std `str::trim`).
pub open spec fn trim_spec(s: Seq<char>) -> Seq<char> {
    trim_end_spec(trim_start_spec(s))
}

/// The value of a run of decimal digits.
pub open spec fn digits_value(d: Seq<char>) -> nat
    decreases d.len(),
{
    if d.len() == 0 {
        0
    } else {
        digits_value(d.drop_last()) * 10 + (d.last() as u32 - '0' as u32) as nat
    }
}

pub open spec fn is_digit(c: char) -> bool {
    '0' as u32 <= c as u32 <= '9' as u32
}

/// `s` read as a `usize` the way std's `str::parse` reads one: an optional
/// `+`, then at least one decimal digit and nothing else, of a value that
/// fits.
pub open spec fn parse_usize_spec(s: Seq<char>) -> Option<nat> {
    let d = unsigned_part(s);
    if d.len() > 0 && all_digits(d) && digits_value(d) <= usize::MAX {
        Some(digits_value(d))
    } else {
        None
    }
}

/// `s` without a leading `+`.
pub open spec fn unsigned_part(s: Seq<char>) -> Seq<char> {
    if s.len() > 0 && s[0] == '+' {
        s.drop_first()
    } else {
        s
    }
}

pub open spec fn all_digits(d: Seq<char>) -> bool {
    forall|i: int| 0 <= i < d.len() ==> is_digit(#[trigger] d[i])
}

/// The position of the first `\r\n` in `s`, or its length when there is none.
pub open spec fn first_crlf(s: Seq<char>) -> int
    decreases s.len(),
{
    if s.len() < 2 {
        s.len() as int
    } else if s[0] == '\r' && s[1] == '\n' {
        0
    } else {
        1 + first_crlf(s.drop_first())
    }
}

/// `s` split at each `\r\n` (std `str::split("\r\n")`).
pub open spec fn header_lines(s: Seq<char>) -> Seq<Seq<char>>
    decreases s.len(),
{
    let i = first_crlf(s);
    if i < 0 || i + 2 > s.len() {
        seq![s]
    } else {
        seq![s.take(i)] + header_lines(s.skip(i + 2))
    }
}

/// The length a header line gives, if it is a `Content-Length` line: its
/// value, or 0 when that does not read as a number.
pub open spec fn line_length(line: Seq<char>) -> Option<nat> {
    if starts_with_spec(line, "Content-Length: "@) {
        match parse_usize_spec(trim_spec(line.skip(16))) {
            Some(n) => Some(n),
            None => Some(0),
        }
    } else {
        None
    }
}

/// The length the last `Content-Length` line among `lines` gives, `acc` when
/// there is none.
pub open spec fn length_from(lines: Seq<Seq<char>>, acc: nat) -> nat
    decreases lines.len(),
{
    if lines.len() == 0 {
        acc
    } else {
        length_from(
            lines.drop_first(),
            match line_length(lines[0]) {
                Some(n) => n,
                None => acc,
            },
        )
    }
}

/// The body length a header announces: what its last `Content-Length` line
/// gives, 0 when it has none.
pub open spec fn content_length_spec(header: Seq<char>) -> nat {
    length_from(header_lines(header), 0)
}

} // verus!

verus! {

/// Where the first `\r\n` at or after `from` starts, or the length.
fn find_crlf(cs: &Vec<char>, from: usize) -> (r: usize)
    requires
        from <= cs@.len(),
    ensures
        from <= r <= cs@.len(),
        r < cs@.len() ==> r + 2 <= cs@.len(),
        r - from == first_crlf(cs@.skip(from as int)),
{
    let mut j = from;
    while j < cs.len()
        invariant
            from <= j <= cs@.len(),
            first_crlf(cs@.skip(from as int)) == (j - from) + first_crlf(cs@.skip(j as int)),
        decreases cs@.len() - j,
    {
        if j + 1 >= cs.len() {
            assert(cs@.skip(j as int).len() < 2);
            return cs.len();
        }
        if cs[j] == '\r' && cs[j + 1] == '\n' {
            assert(cs@.skip(j as int)[0] == cs@[j as int]);
            assert(cs@.skip(j as int)[1] == cs@[j + 1]);
            return j;
        }
        assert(cs@.skip(j as int)[0] == cs@[j as int]);
        assert(cs@.skip(j as int)[1] == cs@[j + 1]);
        assert(cs@.skip(j as int).drop_first() =~= cs@.skip(j + 1));
        j = j + 1;
    }
    assert(cs@.skip(j as int).len() == 0);
    j
}

proof fn lemma_trim_start_skip(x: Seq<char>, k: int)
    requires
        0 <= k <= x.len(),
        forall|i: int| 0 <= i < k ==> is_whitespace(#[trigger] x[i]),
    ensures
        trim_start_spec(x) == trim_start_spec(x.skip(k)),
    decreases k,
{
    if k > 0 {
        assert(x.skip(1) =~= x.drop_first());
        lemma_trim_start_skip(x.drop_first(), k - 1);
        assert(x.drop_first().skip(k - 1) =~= x.skip(k));
    } else {
        assert(x.skip(0) =~= x);
    }
}

proof fn lemma_trim_end_take(x: Seq<char>, k: int)
    requires
        0 <= k <= x.len(),
        forall|i: int| k <= i < x.len() ==> is_whitespace(#[trigger] x[i]),
    ensures
        trim_end_spec(x) == trim_end_spec(x.take(k)),
    decreases x.len() - k,
{
    if k < x.len() {
        lemma_trim_end_take(x.drop_last(), k);
        assert(x.drop_last().take(k) =~= x.take(k));
    } else {
        assert(x.take(k) =~= x);
    }
}

proof fn lemma_digits_grow(d: Seq<char>, k: int)
    requires
        0 <= k <= d.len(),
        forall|i: int| 0 <= i < d.len() ==> is_digit(#[trigger] d[i]),
    ensures
        digits_value(d.take(k)) <= digits_value(d),
    decreases d.len() - k,
{
    if k < d.len() {
        assert(d.take(k + 1).drop_last() =~= d.take(k));
        assert(d.take(k + 1).last() == d[k]);
        lemma_digits_grow(d, k + 1);
    } else {
        assert(d.take(k) =~= d);
    }
}

/// `t` read as a `usize`, where `t` is `cs[lo..hi]`.
fn parse_usize_range(cs: &Vec<char>, lo: usize, hi: usize) -> (r: Option<usize>)
    requires
        lo <= hi <= cs@.len(),
    ensures
        match parse_usize_spec(cs@.subrange(lo as int, hi as int)) {
            Some(n) => r == Some(n as usize),
            None => r is None,
        },
{
    let ghost t = cs@.subrange(lo as int, hi as int);
    let mut a = lo;
    if a < hi && cs[a] == '+' {
        a = a + 1;
    }
    let ghost d = cs@.subrange(a as int, hi as int);
    assert(d =~= unsigned_part(t));
    if a == hi {
        return None;
    }
    let mut i = a;
    while i < hi
        invariant
            a <= i <= hi <= cs@.len(),
            d == cs@.subrange(a as int, hi as int),
            t == cs@.subrange(lo as int, hi as int),
            d == unsigned_part(t),
            d.len() > 0,
            forall|k: int| 0 <= k < i - a ==> is_digit(#[trigger] d[k]),
        decreases hi - i,
    {
        let u = cs[i] as u32;
        if !(48 <= u && u <= 57) {
            assert(d[i - a] == cs@[i as int]);
            assert(!is_digit(d[i - a]));
            assert(!all_digits(d));
            return None;
        }
        i = i + 1;
    }
    let mut v: usize = 0;
    let mut k = a;
    assert(d.take(0) =~= Seq::<char>::empty());
    while k < hi
        invariant
            a <= k <= hi <= cs@.len(),
            d == cs@.subrange(a as int, hi as int),
            t == cs@.subrange(lo as int, hi as int),
            d == unsigned_part(t),
            d.len() > 0,
            forall|m: int| 0 <= m < d.len() ==> is_digit(#[trigger] d[m]),
            v == digits_value(d.take(k - a)),
        decreases hi - k,
    {
        assert(d.take(k - a + 1).drop_last() =~= d.take(k - a));
        assert(d.take(k - a + 1).last() == cs@[k as int]);
        let digit = (cs[k] as u32 - '0' as u32) as usize;
        match v.checked_mul(10) {
            Some(m) => match m.checked_add(digit) {
                Some(n) => {
                    v = n;
                },
                None => {
                    proof {
                        lemma_digits_grow(d, k - a + 1);
                    }
                    return None;
                },
            },
            None => {
                proof {
                    lemma_digits_grow(d, k - a + 1);
                }
                return None;
            },
        }
        k = k + 1;
    }
    assert(d.take(d.len() as int) =~= d);
    Some(v)
}

/// The length the header line `cs[lo..hi]` gives, if it is a `Content-Length` line.
fn line_length_range(cs: &Vec<char>, lo: usize, hi: usize) -> (r: Option<usize>)
    requires
        lo <= hi <= cs@.len(),
    ensures
        match line_length(cs@.subrange(lo as int, hi as int)) {
            Some(n) => r == Some(n as usize),
            None => r is None,
        },
{
    let ghost line = cs@.subrange(lo as int, hi as int);
    let prefix = chars_of("Content-Length: ");
    proof {
        reveal_strlit("Content-Length: ");
    }
    assert(prefix@.len() == 16);
    if hi - lo < 16 {
        return None;
    }
    let mut j: usize = 0;
    while j < 16
        invariant
            j <= 16,
            lo + 16 <= hi <= cs@.len(),
            prefix@ == "Content-Length: "@,
            prefix@.len() == 16,
            line == cs@.subrange(lo as int, hi as int),
            forall|k: int| 0 <= k < j ==> cs@[lo + k] == prefix@[k],
        decreases 16 - j,
    {
        if cs[lo + j] != prefix[j] {
            assert(line.subrange(0, 16)[j as int] != prefix@[j as int]);
            return None;
        }
        j = j + 1;
    }
    assert(line.subrange(0, 16) =~= prefix@);
    let ghost x = line.skip(16);
    let mut a = lo + 16;
    while a < hi && whitespace(cs[a])
        invariant
            lo + 16 <= a <= hi <= cs@.len(),
            x == cs@.subrange(lo + 16, hi as int),
            forall|k: int| 0 <= k < a - lo - 16 ==> is_whitespace(#[trigger] x[k]),
        decreases hi - a,
    {
        a = a + 1;
    }
    proof {
        assert(x =~= cs@.subrange(lo + 16, hi as int));
        lemma_trim_start_skip(x, a - lo - 16);
        assert(x.skip(a - lo - 16) =~= cs@.subrange(a as int, hi as int));
        if a < hi {
            assert(x.skip(a - lo - 16)[0] == cs@[a as int]);
        }
    }
    let ghost y = cs@.subrange(a as int, hi as int);
    assert(trim_start_spec(x) == y);
    let mut b = hi;
    while b > a && whitespace(cs[b - 1])
        invariant
            a <= b <= hi <= cs@.len(),
            y == cs@.subrange(a as int, hi as int),
            forall|k: int| b - a <= k < y.len() ==> is_whitespace(#[trigger] y[k]),
        decreases b,
    {
        b = b - 1;
    }
    proof {
        lemma_trim_end_take(y, b - a);
        assert(y.take(b - a) =~= cs@.subrange(a as int, b as int));
        if b > a {
            assert(y.take(b - a).last() == cs@[b - 1]);
        }
    }
    match parse_usize_range(cs, a, b) {
        Some(n) => Some(n),
        None => Some(0),
    }
}

/// The body length a header announces: what its last `Content-Length` line
/// gives, 0 when it has none.
pub fn content_length(header: &str) -> (r: usize)
    ensures
        r == content_length_spec(header@),
{
    let cs = chars_of(header);
    let mut start: usize = 0;
    let mut acc: usize = 0;
    assert(cs@.skip(0) =~= cs@);
    loop
        invariant
            start <= cs@.len(),
            cs@ == header@,
            content_length_spec(header@) == length_from(header_lines(cs@.skip(start as int)), acc as nat),
        decreases cs@.len() - start,
    {
        let ghost rest = cs@.skip(start as int);
        let j = find_crlf(&cs, start);
        let ll = line_length_range(&cs, start, j);
        if j >= cs.len() || cs.len() - j < 2 {
            assert(header_lines(rest) == seq![rest]);
            assert(rest =~= cs@.subrange(start as int, j as int));
            assert(seq![rest].drop_first() =~= Seq::<Seq<char>>::empty());
            let res = match ll {
                Some(n) => n,
                None => acc,
            };
            assert(length_from(Seq::<Seq<char>>::empty(), res as nat) == res);
            assert(length_from(seq![rest], acc as nat) == length_from(seq![rest].drop_first(), res as nat));
            return res;
        }
        assert(rest.take(j - start) =~= cs@.subrange(start as int, j as int));
        assert(rest.skip(j - start + 2) =~= cs@.skip(j + 2));
        assert((seq![rest.take(j - start)] + header_lines(rest.skip(j - start + 2))).drop_first() =~= header_lines(
            rest.skip(j - start + 2),
        ));
        acc = match ll {
            Some(n) => n,
            None => acc,
        };
        start = j + 2;
    }
}

} // verus!

verus! {

proof fn lemma_digit_char_value(x: int)
    requires
        0 <= x < 10,
    ensures
        is_digit(crate::render::digit_char(x)),
        crate::render::digit_char(x) as u32 - '0' as u32 == x,
{
}

proof fn lemma_decimal_digits(n: nat)
    ensures
        decimal(n).len() > 0,
        all_digits(decimal(n)),
        digits_value(decimal(n)) == n,
    decreases n,
{
    let d = decimal(n);
    if n < 10 {
        assert(d == seq![crate::render::digit_char(n as int)]);
        assert(d.drop_last() =~= Seq::<char>::empty());
        lemma_digit_char_value(n as int);
        assert(digits_value(d.drop_last()) == 0);
        assert(d.last() == crate::render::digit_char(n as int));
        assert(digits_value(d) == digits_value(d.drop_last()) * 10 + (d.last() as u32 - '0' as u32) as nat);
    } else {
        lemma_decimal_digits(n / 10);
        lemma_digit_char_value((n % 10) as int);
        assert(d.drop_last() =~= decimal(n / 10));
        assert(d.last() == crate::render::digit_char((n % 10) as int));
        assert(n == (n / 10) * 10 + n % 10);
        assert(digits_value(d) == digits_value(d.drop_last()) * 10 + (d.last() as u32 - '0' as u32) as nat);
        assert forall|i: int| 0 <= i < d.len() implies is_digit(#[trigger] d[i]) by {
            if i < d.len() - 1 {
                assert(d[i] == decimal(n / 10)[i]);
            }
        }
    }
}

proof fn lemma_first_crlf_at(s: Seq<char>, k: int)
    requires
        0 <= k,
        k + 2 <= s.len(),
        s[k] == '\r',
        s[k + 1] == '\n',
        forall|i: int| 0 <= i < k ==> #[trigger] s[i] != '\r',
    ensures
        first_crlf(s) == k,
    decreases k,
{
    if k > 0 {
        lemma_first_crlf_at(s.drop_first(), k - 1);
    }
}

/// A frame's header reads back as the length it was written for.
pub proof fn lemma_frame_header_round_trip(len: nat)
    requires
        len <= usize::MAX,
    ensures
        content_length_spec(frame_header_spec(len)) == len,
{
    let p = "Content-Length: "@;
    let d = decimal(len);
    let e = "\r\n\r\n"@;
    reveal_strlit("Content-Length: ");
    reveal_strlit("\r\n\r\n");
    let h = frame_header_spec(len);
    lemma_decimal_digits(len);
    let k: int = 16 + d.len() as int;
    assert(h.len() == k + 4);
    assert forall|i: int| 0 <= i < k implies #[trigger] h[i] != '\r' by {
        if i < 16 {
            assert(h[i] == p[i]);
        } else {
            assert(h[i] == d[i - 16]);
            assert(is_digit(d[i - 16]));
        }
    }
    assert(h[k] == e[0]);
    assert(h[k + 1] == e[1]);
    lemma_first_crlf_at(h, k);
    let line = h.take(k);
    let rest = h.skip(k + 2);
    assert(rest =~= seq!['\r', '\n']);
    assert(first_crlf(rest) == 0);
    assert(rest.skip(2) =~= Seq::<char>::empty());
    let empty = Seq::<char>::empty();
    assert(first_crlf(empty) == 0);
    assert(header_lines(empty) == seq![empty]);
    assert(rest.take(0) =~= empty);
    assert(header_lines(rest) =~= seq![empty] + seq![empty]);
    assert(header_lines(h) =~= seq![line] + header_lines(rest));
    assert(line.subrange(0, 16) =~= p);
    assert(line.skip(16) =~= d);
    assert(trim_start_spec(d) == d) by {
        assert(!is_whitespace(d[0])) by {
            assert(is_digit(d[0]));
        }
    }
    assert(trim_end_spec(d) == d) by {
        assert(!is_whitespace(d.last())) by {
            assert(is_digit(d[d.len() - 1]));
        }
    }
    assert(unsigned_part(d) == d) by {
        assert(is_digit(d[0]));
    }
    assert(line_length(line) == Some(len));
    assert(line_length(empty) is None);
    let ls = header_lines(h);
    assert(ls.drop_first() =~= seq![empty, empty]);
    assert(seq![empty, empty].drop_first() =~= seq![empty]);
    assert(seq![empty].drop_first() =~= Seq::<Seq<char>>::empty());
    assert(length_from(Seq::<Seq<char>>::empty(), len) == len);
    assert(length_from(seq![empty], len) == len);
    assert(length_from(seq![empty, empty], len) == len);
}

} // verus!

verus! {

use crate::debug::SourceBreakpoint;
use crate::json::{lemma_view_object, lemma_view_array, member_views, array_views};

/// A JSON integer as `serde_json` holds an `i64`: non-negative values as
/// unsigned numbers.
pub open spec fn int_json(n: int) -> JsonView {
    if n >= 0 {
        JsonView::Number(JsonNumberView::PosInt(n as u64))
    } else {
        JsonView::Number(JsonNumberView::NegInt(n as i64))
    }
}

fn int_value(n: i64) -> (r: JsonValue)
    ensures
        r@ == int_json(n as int),
{
    if n >= 0 {
        JsonValue::Number(JsonNumber::PosInt(n as u64))
    } else {
        JsonValue::Number(JsonNumber::NegInt(n))
    }
}

fn str_value(s: &str) -> (r: JsonValue)
    ensures
        r@ == JsonView::Str(s@),
{
    JsonValue::Str(owned(s))
}

fn opt_str_value(s: &Option<String>) -> (r: JsonValue)
    ensures
        r@ == match s {
            Some(t) => JsonView::Str(t@),
            None => JsonView::Null,
        },
{
    match s {
        Some(t) => JsonValue::Str(t.clone()),
        None => JsonValue::Null,
    }
}

fn object(members: Vec<(String, JsonValue)>) -> (r: JsonValue)
    ensures
        r@ == JsonView::Object(member_views(members@)),
{
    let r = JsonValue::Object(members);
    proof {
        lemma_view_object(members);
    }
    r
}

/// A request message as the adapter receives it: the members in key order,
/// `arguments` only when there are some.
pub open spec fn request_spec(seq: int, command: Seq<char>, arguments: Option<JsonView>) -> JsonView {
    let rest = seq![
        ("command"@, JsonView::Str(command)),
        ("seq"@, int_json(seq)),
        ("type"@, JsonView::Str("request"@)),
    ];
    JsonView::Object(
        match arguments {
            Some(a) => seq![("arguments"@, a)] + rest,
            None => rest,
        },
    )
}

/// An event message: the members in key order, `body` only when there is one.
pub open spec fn event_spec(seq: int, event: Seq<char>, body: Option<JsonView>) -> JsonView {
    let rest = seq![
        ("event"@, JsonView::Str(event)),
        ("seq"@, int_json(seq)),
        ("type"@, JsonView::Str("event"@)),
    ];
    JsonView::Object(
        match body {
            Some(b) => seq![("body"@, b)] + rest,
            None => rest,
        },
    )
}

/// The request numbered `seq` running `command`.
pub fn dap_request(seq: i32, command: &str, arguments: Option<JsonValue>) -> (r: JsonValue)
    ensures
        r@ == request_spec(
            seq as int,
            command@,
            match arguments {
                Some(a) => Some(a@),
                None => None,
            },
        ),
{
    let mut members: Vec<(String, JsonValue)> = Vec::new();
    match arguments {
        Some(a) => members.push((owned("arguments"), a)),
        None => {},
    }
    members.push((owned("command"), str_value(command)));
    members.push((owned("seq"), int_value(seq as i64)));
    members.push((owned("type"), str_value("request")));
    let r = object(members);
    assert(member_views(members@) =~= request_spec(
        seq as int,
        command@,
        match arguments {
            Some(a) => Some(a@),
            None => None,
        },
    )->Object_0);
    r
}

/// The event numbered `seq` named `event`.
pub fn dap_event(seq: i32, event: &str, body: Option<JsonValue>) -> (r: JsonValue)
    ensures
        r@ == event_spec(
            seq as int,
            event@,
            match body {
                Some(b) => Some(b@),
                None => None,
            },
        ),
{
    let mut members: Vec<(String, JsonValue)> = Vec::new();
    match body {
        Some(b) => members.push((owned("body"), b)),
        None => {},
    }
    members.push((owned("event"), str_value(event)));
    members.push((owned("seq"), int_value(seq as i64)));
    members.push((owned("type"), str_value("event")));
    let r = object(members);
    assert(member_views(members@) =~= event_spec(
        seq as int,
        event@,
        match body {
            Some(b) => Some(b@),
            None => None,
        },
    )->Object_0);
    r
}

/// The numbering of the messages sent to one adapter.
pub struct DapSequence {
    value: i32,
}

impl DapSequence {
    /// The number of the last message sent.
    pub closed spec fn last(&self) -> int {
        self.value as int
    }

    pub fn new() -> (r: Self)
        ensures
            r.last() == 0,
    {
        DapSequence { value: 0 }
    }

    /// Whether another message can be numbered.
    pub fn can_advance(&self) -> (r: bool)
        ensures
            r == (self.last() < i32::MAX),
    {
        self.value < i32::MAX
    }

    /// The number of the next message: one more than the last.
    pub fn next_sequence(&mut self) -> (r: i32)
        requires
            old(self).last() < i32::MAX,
        ensures
            r == old(self).last() + 1,
            final(self).last() == r,
    {
        self.value = self.value + 1;
        self.value
    }
}

/// `serde_json`'s `as_i64`: an integer that fits, of a number.
pub open spec fn as_i64_spec(v: Option<JsonView>) -> Option<i64> {
    match v {
        Some(JsonView::Number(JsonNumberView::PosInt(n))) => if n <= i64::MAX {
            Some(n as i64)
        } else {
            None
        },
        Some(JsonView::Number(JsonNumberView::NegInt(n))) => Some(n),
        _ => None,
    }
}

/// What a message from the adapter answers: for a response, the request it
/// answers (its `request_seq`, as the `i32` requests are numbered by) and
/// the outcome, the response's body on success, else its message.
pub open spec fn response_outcome_spec(msg: JsonView) -> Option<(i32, Result<JsonView, Seq<char>>)> {
    if json_str(json_get(msg, "type"@)) == Some("response"@) && as_i64_spec(json_get(msg, "request_seq"@)) is Some {
        let seq = as_i64_spec(json_get(msg, "request_seq"@)).unwrap() as i32;
        if json_get(msg, "success"@) == Some(JsonView::Bool(true)) {
            Some((seq, Ok(match json_get(msg, "body"@) {
                Some(b) => b,
                None => JsonView::Null,
            })))
        } else {
            Some((seq, Err("DAP error: "@ + match json_str(json_get(msg, "message"@)) {
                Some(m) => m,
                None => "Unknown error"@,
            })))
        }
    } else {
        None
    }
}

/// What a message from the adapter answers, if it is a response.
pub fn response_outcome(msg: &JsonValue) -> (r: Option<(i32, Result<JsonValue, String>)>)
    ensures
        match response_outcome_spec(msg@) {
            None => r is None,
            Some((seq, Ok(b))) => r matches Some((s, Ok(v))) && s == seq && v@ == b,
            Some((seq, Err(e))) => r matches Some((s, Err(m))) && s == seq && m@ == e,
        },
{
    let is_response = match msg.get("type") {
        Some(t) => match t.as_str() {
            Some(s) => crate::text::str_eq(s, "response"),
            None => false,
        },
        None => false,
    };
    if !is_response {
        return None;
    }
    let seq: i64 = match msg.get("request_seq") {
        Some(JsonValue::Number(JsonNumber::PosInt(n))) => {
            if *n <= i64::MAX as u64 {
                *n as i64
            } else {
                return None;
            }
        },
        Some(JsonValue::Number(JsonNumber::NegInt(n))) => *n,
        _ => return None,
    };
    let seq32 = seq as i32;
    let success = match msg.get("success") {
        Some(JsonValue::Bool(b)) => *b,
        _ => false,
    };
    if success {
        let body = match msg.get("body") {
            Some(b) => b.duplicate(),
            None => JsonValue::Null,
        };
        Some((seq32, Ok(body)))
    } else {
        let message = match msg.get("message") {
            Some(m) => match m.as_str() {
                Some(s) => owned(s),
                None => owned("Unknown error"),
            },
            None => owned("Unknown error"),
        };
        Some((seq32, Err(concat("DAP error: ", message.as_str()))))
    }
}

/// The arguments of the `initialize` request for an adapter of `adapter_type`.
pub fn initialize_arguments(adapter_type: &str) -> (r: JsonValue)
    ensures
        r@ == JsonView::Object(seq![
            ("adapterID"@, JsonView::Str(adapter_type@)),
            ("clientID"@, JsonView::Str("dscode"@)),
            ("clientName"@, JsonView::Str("DSCode"@)),
            ("columnsStartAt1"@, JsonView::Bool(true)),
            ("linesStartAt1"@, JsonView::Bool(true)),
            ("pathFormat"@, JsonView::Str("path"@)),
            ("supportsRunInTerminalRequest"@, JsonView::Bool(true)),
            ("supportsVariablePaging"@, JsonView::Bool(true)),
            ("supportsVariableType"@, JsonView::Bool(true)),
        ]),
{
    let members = vec![
        (owned("adapterID"), str_value(adapter_type)),
        (owned("clientID"), str_value("dscode")),
        (owned("clientName"), str_value("DSCode")),
        (owned("columnsStartAt1"), JsonValue::Bool(true)),
        (owned("linesStartAt1"), JsonValue::Bool(true)),
        (owned("pathFormat"), str_value("path")),
        (owned("supportsRunInTerminalRequest"), JsonValue::Bool(true)),
        (owned("supportsVariablePaging"), JsonValue::Bool(true)),
        (owned("supportsVariableType"), JsonValue::Bool(true)),
    ];
    let r = object(members);
    assert(member_views(members@) =~= seq![
        ("adapterID"@, JsonView::Str(adapter_type@)),
        ("clientID"@, JsonView::Str("dscode"@)),
        ("clientName"@, JsonView::Str("DSCode"@)),
        ("columnsStartAt1"@, JsonView::Bool(true)),
        ("linesStartAt1"@, JsonView::Bool(true)),
        ("pathFormat"@, JsonView::Str("path"@)),
        ("supportsRunInTerminalRequest"@, JsonView::Bool(true)),
        ("supportsVariablePaging"@, JsonView::Bool(true)),
        ("supportsVariableType"@, JsonView::Bool(true)),
    ]);
    r
}

/// The arguments of a request about one thread (`continue`, `pause`, `next`, ...).
pub fn thread_arguments(thread_id: i32) -> (r: JsonValue)
    ensures
        r@ == JsonView::Object(seq![("threadId"@, int_json(thread_id as int))]),
{
    let members = vec![(owned("threadId"), int_value(thread_id as i64))];
    let r = object(members);
    assert(member_views(members@) =~= seq![("threadId"@, int_json(thread_id as int))]);
    r
}

/// A source breakpoint as it is sent: its members in key order, absent
/// optional members as `null`.
pub open spec fn source_breakpoint_json(b: SourceBreakpoint) -> JsonView {
    JsonView::Object(seq![
        ("column"@, match b.column { Some(c) => int_json(c as int), None => JsonView::Null }),
        ("condition"@, match b.condition { Some(c) => JsonView::Str(c@), None => JsonView::Null }),
        ("hitCondition"@, match b.hit_condition { Some(c) => JsonView::Str(c@), None => JsonView::Null }),
        ("line"@, int_json(b.line as int)),
        ("logMessage"@, match b.log_message { Some(c) => JsonView::Str(c@), None => JsonView::Null }),
    ])
}

fn source_breakpoint_value(b: &SourceBreakpoint) -> (r: JsonValue)
    ensures
        r@ == source_breakpoint_json(*b),
{
    let members = vec![
        (owned("column"), match b.column { Some(c) => int_value(c), None => JsonValue::Null }),
        (owned("condition"), opt_str_value(&b.condition)),
        (owned("hitCondition"), opt_str_value(&b.hit_condition)),
        (owned("line"), int_value(b.line)),
        (owned("logMessage"), opt_str_value(&b.log_message)),
    ];
    let r = object(members);
    assert(member_views(members@) =~= source_breakpoint_json(*b)->Object_0);
    r
}

/// The arguments of a `setBreakpoints` request.
pub fn set_breakpoints_arguments(source: JsonValue, breakpoints: &Vec<SourceBreakpoint>) -> (r: JsonValue)
    ensures
        r@ == JsonView::Object(seq![
            ("breakpoints"@, JsonView::Array(breakpoints@.map_values(|b: SourceBreakpoint| source_breakpoint_json(b)))),
            ("source"@, source@),
        ]),
{
    let mut items: Vec<JsonValue> = Vec::new();
    let mut i: usize = 0;
    while i < breakpoints.len()
        invariant
            i <= breakpoints@.len(),
            items@.len() == i,
            forall|k: int| 0 <= k < i ==> (#[trigger] items@[k])@ == source_breakpoint_json(breakpoints@[k]),
        decreases breakpoints@.len() - i,
    {
        items.push(source_breakpoint_value(&breakpoints[i]));
        i = i + 1;
    }
    let ghost sv = source@;
    let arr = JsonValue::Array(items);
    proof {
        lemma_view_array(items);
        assert(array_views(items@) =~= breakpoints@.map_values(|b: SourceBreakpoint| source_breakpoint_json(b)));
    }
    let members = vec![(owned("breakpoints"), arr), (owned("source"), source)];
    let r = object(members);
    assert(member_views(members@) =~= seq![
        ("breakpoints"@, JsonView::Array(breakpoints@.map_values(|b: SourceBreakpoint| source_breakpoint_json(b)))),
        ("source"@, sv),
    ]);
    r
}

/// The breakpoints a `setBreakpoints` response body lists.
pub fn breakpoints_in_response(body: &JsonValue) -> (r: Result<Vec<JsonValue>, String>)
    ensures
        match json_get(body@, "breakpoints"@) {
            Some(JsonView::Array(items)) => r matches Ok(v) && array_views(v@) == items,
            _ => r matches Err(e) && e@ == "Invalid setBreakpoints response"@,
        },
{
    match body.get("breakpoints") {
        Some(JsonValue::Array(items)) => {
            proof {
                lemma_view_array(*items);
            }
            let mut out: Vec<JsonValue> = Vec::new();
            let mut i: usize = 0;
            while i < items.len()
                invariant
                    i <= items@.len(),
                    out@.len() == i,
                    forall|k: int| 0 <= k < i ==> (#[trigger] out@[k])@ == items@[k]@,
                decreases items@.len() - i,
            {
                out.push(items[i].duplicate());
                i = i + 1;
            }
            assert(array_views(out@) =~= array_views(items@));
            Ok(out)
        },
        _ => Err(owned("Invalid setBreakpoints response")),
    }
}

} // verus!
