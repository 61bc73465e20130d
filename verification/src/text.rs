//! Text primitives: whitespace trimming, byte order, decimal numerals, column
//! padding and hexadecimal digits, each with its mathematical definition.

use vstd::prelude::*;
use vstd::string::*;
use vstd::utf8::*;

verus! {

/// `String::push` appends the character at the end of the string.
pub assume_specification[ String::push ](s: &mut String, ch: char)
    ensures
        final(s)@ == old(s)@.push(ch),
;

/// The characters with the Unicode property `White_Space`.
pub open spec fn is_white_space(c: char) -> bool {
    ||| '\u{0009}' <= c <= '\u{000D}'
    ||| c == '\u{0020}'
    ||| c == '\u{0085}'
    ||| c == '\u{00A0}'
    ||| c == '\u{1680}'
    ||| '\u{2000}' <= c <= '\u{200A}'
    ||| c == '\u{2028}'
    ||| c == '\u{2029}'
    ||| c == '\u{202F}'
    ||| c == '\u{205F}'
    ||| c == '\u{3000}'
}

/// `s` without its leading whitespace.
pub open spec fn trim_start(s: Seq<char>) -> Seq<char>
    decreases s.len(),
{
    if s.len() > 0 && is_white_space(s.first()) {
        trim_start(s.drop_first())
    } else {
        s
    }
}

/// `s` without its trailing whitespace.
pub open spec fn trim_end(s: Seq<char>) -> Seq<char>
    decreases s.len(),
{
    if s.len() > 0 && is_white_space(s.last()) {
        trim_end(s.drop_last())
    } else {
        s
    }
}

/// `s` without the whitespace around it.
pub open spec fn trimmed(s: Seq<char>) -> Seq<char> {
    trim_end(trim_start(s))
}

/// Whether `c` is Unicode whitespace.
pub fn is_whitespace(c: char) -> (white: bool)
    ensures
        white == is_white_space(c),
{
    ('\u{0009}' <= c && c <= '\u{000D}') || c == '\u{0020}' || c == '\u{0085}' || c == '\u{00A0}'
        || c == '\u{1680}' || ('\u{2000}' <= c && c <= '\u{200A}') || c == '\u{2028}' || c
        == '\u{2029}' || c == '\u{202F}' || c == '\u{205F}' || c == '\u{3000}'
}

/// The characters of `s`, in order.
pub fn chars_of(s: &str) -> (chars: Vec<char>)
    ensures
        chars@ == s@,
{
    let mut chars: Vec<char> = Vec::new();
    for c in it: s.chars()
        invariant
            chars@ == s@.take(it.index() as int),
            it.seq() == s@,
    {
        chars.push(c);
    }
    chars
}

/// `s` without the whitespace around it.
pub fn trim(s: &str) -> (inner: &str)
    ensures
        inner@ == trimmed(s@),
{
    let chars = chars_of(s);
    let mut from: usize = 0;
    assert(s@.skip(0) == s@);
    while from < chars.len() && is_whitespace(chars[from])
        invariant
            chars@ == s@,
            from <= chars.len(),
            trim_start(s@) == trim_start(s@.skip(from as int)),
        decreases chars.len() - from,
    {
        assert(s@.skip(from as int).drop_first() == s@.skip(from + 1));
        from += 1;
    }
    let ghost rest = s@.skip(from as int);
    assert(trim_start(s@) == rest);
    let mut to: usize = chars.len();
    assert(rest == s@.subrange(from as int, to as int));
    while from < to && is_whitespace(chars[to - 1])
        invariant
            chars@ == s@,
            from <= to <= chars.len(),
            trim_end(rest) == trim_end(s@.subrange(from as int, to as int)),
        decreases to - from,
    {
        let ghost now = s@.subrange(from as int, to as int);
        assert(now.drop_last() == s@.subrange(from as int, to - 1));
        to -= 1;
    }
    s.substring_char(from, to)
}

proof fn trim_start_stops_at_text(s: Seq<char>)
    ensures
        trim_start(s).len() > 0 ==> !is_white_space(trim_start(s).first()),
    decreases s.len(),
{
    if s.len() > 0 && is_white_space(s.first()) {
        trim_start_stops_at_text(s.drop_first());
    }
}

proof fn trim_end_keeps_the_first(s: Seq<char>)
    ensures
        trim_end(s).len() > 0 ==> s.len() > 0 && trim_end(s).first() == s.first(),
    decreases s.len(),
{
    if s.len() > 0 && is_white_space(s.last()) {
        trim_end_keeps_the_first(s.drop_last());
    }
}

/// Trimmed text that is not empty does not start with whitespace.
pub proof fn trimmed_text_starts_with_text(s: Seq<char>)
    ensures
        trimmed(s).len() > 0 ==> !is_white_space(trimmed(s).first()),
{
    trim_start_stops_at_text(s);
    trim_end_keeps_the_first(trim_start(s));
}

/// Text that does not start with whitespace keeps its first character when it
/// is trimmed.
pub proof fn trimming_keeps_the_first_of_text(s: Seq<char>)
    requires
        s.len() > 0,
        !is_white_space(s.first()),
    ensures
        trimmed(s).len() > 0,
        trimmed(s).first() == s.first(),
    decreases s.len(),
{
    if is_white_space(s.last()) {
        assert(s.len() > 1);
        assert(s.drop_last().first() == s.first());
        trimming_keeps_the_first_of_text(s.drop_last());
    }
}

/// `s` up to its first `stop`, all of it when it has none.
pub open spec fn up_to(s: Seq<char>, stop: char) -> Seq<char>
    decreases s.len(),
{
    if s.len() == 0 || s.first() == stop {
        Seq::empty()
    } else {
        seq![s.first()] + up_to(s.drop_first(), stop)
    }
}

/// `s` up to its first `stop`, all of it when it has none.
pub fn head_of(s: &str, stop: char) -> (head: &str)
    ensures
        head@ == up_to(s@, stop),
        head@.len() <= s@.len(),
{
    let chars = chars_of(s);
    let mut end: usize = 0;
    assert(s@.skip(0) == s@);
    while end < chars.len() && chars[end] != stop
        invariant
            chars@ == s@,
            end <= chars.len(),
            up_to(s@, stop) == s@.take(end as int) + up_to(s@.skip(end as int), stop),
        decreases chars.len() - end,
    {
        let ghost rest = s@.skip(end as int);
        assert(rest.drop_first() == s@.skip(end + 1));
        assert(s@.take(end + 1) == s@.take(end as int).push(rest.first()));
        end += 1;
    }
    s.substring_char(0, end)
}

/// Whether `a` and `b` are the same text.
pub fn same_text(a: &str, b: &str) -> (same: bool)
    ensures
        same == (a@ == b@),
{
    a.to_owned() == b.to_owned()
}

/// Lexicographic order on byte strings: `a` comes strictly before `b`.
pub open spec fn bytes_before(a: Seq<u8>, b: Seq<u8>) -> bool
    decreases a.len(),
{
    if b.len() == 0 {
        false
    } else if a.len() == 0 {
        true
    } else if a[0] != b[0] {
        a[0] < b[0]
    } else {
        bytes_before(a.drop_first(), b.drop_first())
    }
}

/// The order of strings: `a` comes strictly before `b` in the byte order of
/// their UTF-8 encodings.
pub open spec fn text_before(a: Seq<char>, b: Seq<char>) -> bool {
    bytes_before(encode_utf8(a), encode_utf8(b))
}

/// Whether `a` comes strictly before `b` in the order of strings.
pub fn str_before(a: &str, b: &str) -> (before: bool)
    ensures
        before == text_before(a@, b@),
{
    let x = a.as_bytes();
    let y = b.as_bytes();
    let mut i: usize = 0;
    assert(x@.skip(0) == x@ && y@.skip(0) == y@);
    while i < x.len() && i < y.len() && x[i] == y[i]
        invariant
            i <= x@.len(),
            i <= y@.len(),
            bytes_before(x@, y@) == bytes_before(x@.skip(i as int), y@.skip(i as int)),
        decreases x.len() - i,
    {
        assert(x@.skip(i as int).drop_first() == x@.skip(i + 1));
        assert(y@.skip(i as int).drop_first() == y@.skip(i + 1));
        i += 1;
    }
    if i == y.len() {
        false
    } else if i == x.len() {
        true
    } else {
        x[i] < y[i]
    }
}

/// No byte string comes before itself.
proof fn bytes_before_irreflexive(a: Seq<u8>)
    ensures
        !bytes_before(a, a),
    decreases a.len(),
{
    if a.len() > 0 {
        bytes_before_irreflexive(a.drop_first());
    }
}

/// The byte order is transitive.
proof fn bytes_before_transitive(a: Seq<u8>, b: Seq<u8>, c: Seq<u8>)
    requires
        bytes_before(a, b),
        bytes_before(b, c),
    ensures
        bytes_before(a, c),
    decreases a.len(),
{
    if a.len() > 0 && a[0] == b[0] && b[0] == c[0] {
        bytes_before_transitive(a.drop_first(), b.drop_first(), c.drop_first());
    }
}

/// Two byte strings of which neither comes first are equal.
proof fn bytes_before_total(a: Seq<u8>, b: Seq<u8>)
    requires
        !bytes_before(a, b),
        !bytes_before(b, a),
    ensures
        a == b,
    decreases a.len(),
{
    if a.len() == 0 || b.len() == 0 {
        assert(a == b);
    } else {
        bytes_before_total(a.drop_first(), b.drop_first());
        assert(a == seq![a[0]] + a.drop_first());
        assert(b == seq![b[0]] + b.drop_first());
    }
}

/// The order of strings is a strict total order: it is irreflexive and
/// transitive, and of two different strings one comes first.
pub proof fn text_order_is_strict_and_total(a: Seq<char>, b: Seq<char>, c: Seq<char>)
    ensures
        !text_before(a, a),
        text_before(a, b) && text_before(b, c) ==> text_before(a, c),
        a != b ==> text_before(a, b) || text_before(b, a),
{
    bytes_before_irreflexive(encode_utf8(a));
    if text_before(a, b) && text_before(b, c) {
        bytes_before_transitive(encode_utf8(a), encode_utf8(b), encode_utf8(c));
    }
    if !text_before(a, b) && !text_before(b, a) {
        bytes_before_total(encode_utf8(a), encode_utf8(b));
        encode_utf8_decode_utf8(a);
        encode_utf8_decode_utf8(b);
    }
}

/// The digit character of `d`, for `d` below ten.
pub open spec fn digit(d: nat) -> char {
    (48 + d) as char
}

/// The decimal numeral of `n`, without leading zeros.
pub open spec fn decimal(n: nat) -> Seq<char>
    decreases n,
{
    if n < 10 {
        seq![digit(n)]
    } else {
        decimal(n / 10).push(digit(n % 10))
    }
}

/// The decimal numeral of `n`.
pub fn decimal_of(n: u64) -> (numeral: String)
    ensures
        numeral@ == decimal(n as nat),
    decreases n,
{
    let last: char = (48u8 + (n % 10) as u8) as char;
    let mut numeral = if n < 10 {
        String::new()
    } else {
        decimal_of(n / 10)
    };
    numeral.push(last);
    numeral
}

/// `s` followed by as many spaces as it takes to fill `width` columns.
pub open spec fn left_aligned(s: Seq<char>, width: nat) -> Seq<char> {
    if s.len() < width {
        s + Seq::new((width - s.len()) as nat, |i: int| ' ')
    } else {
        s
    }
}

/// `s` preceded by as many spaces as it takes to fill `width` columns.
pub open spec fn right_aligned(s: Seq<char>, width: nat) -> Seq<char> {
    if s.len() < width {
        Seq::new((width - s.len()) as nat, |i: int| ' ') + s
    } else {
        s
    }
}

/// `n` spaces.
fn spaces(n: usize) -> (blank: String)
    ensures
        blank@ == Seq::new(n as nat, |i: int| ' '),
{
    let mut blank = String::new();
    for i in 0..n
        invariant
            blank@ == Seq::new(i as nat, |i: int| ' '),
    {
        blank.push(' ');
    }
    blank
}

/// Left-aligns `s` in `width` columns.
pub fn pad_right(s: &str, width: usize) -> (padded: String)
    ensures
        padded@ == left_aligned(s@, width as nat),
{
    let len = s.unicode_len();
    let mut padded = s.to_owned();
    if len < width {
        padded.append(spaces(width - len).as_str());
    }
    padded
}

/// Right-aligns `s` in `width` columns.
pub fn pad_left(s: &str, width: usize) -> (padded: String)
    ensures
        padded@ == right_aligned(s@, width as nat),
{
    let len = s.unicode_len();
    if len < width {
        let mut padded = spaces(width - len);
        padded.append(s);
        padded
    } else {
        s.to_owned()
    }
}

/// The lower-case hexadecimal digit of `d`, for `d` below sixteen.
pub open spec fn hex_digit(d: int) -> u8 {
    if d < 10 {
        (48 + d) as u8
    } else {
        (87 + d) as u8
    }
}

/// The lower-case hexadecimal digits of a byte string, as ASCII bytes: two for
/// each byte, the high half first.
pub open spec fn hex(bytes: Seq<u8>) -> Seq<u8> {
    Seq::new(
        2 * bytes.len(),
        |i: int|
            if i % 2 == 0 {
                hex_digit(bytes[i / 2] as int / 16)
            } else {
                hex_digit(bytes[i / 2] as int % 16)
            },
    )
}

/// The lower-case hexadecimal digit of `d`.
fn hex_digit_of(d: u8) -> (digit: u8)
    requires
        d < 16,
    ensures
        digit == hex_digit(d as int),
{
    if d < 10 {
        48 + d
    } else {
        87 + d
    }
}

/// Appends the lower-case hexadecimal digits of `bytes` to `out`.
pub fn push_hex(out: &mut Vec<u8>, bytes: &[u8])
    ensures
        final(out)@ == old(out)@ + hex(bytes@),
{
    for i in 0..bytes.len()
        invariant
            out@ == old(out)@ + hex(bytes@).take(2 * i),
    {
        out.push(hex_digit_of(bytes[i] / 16));
        out.push(hex_digit_of(bytes[i] % 16));
    }
    assert(hex(bytes@).take(2 * bytes@.len() as int) == hex(bytes@));
}

/// Hexadecimal digits are never a path separator, and two byte strings with
/// the same digits are equal.
pub proof fn hex_is_injective(a: Seq<u8>, b: Seq<u8>)
    ensures
        hex(a) == hex(b) ==> a == b,
        forall|i: int| 0 <= i < hex(a).len() ==> hex(a)[i] != 47u8,
{
    if hex(a) == hex(b) {
        assert(hex(a).len() == 2 * a.len() && hex(b).len() == 2 * b.len());
        assert forall|i: int| 0 <= i < a.len() implies a[i] == b[i] by {
            assert(hex(a)[2 * i] == hex(b)[2 * i]);
            assert(hex(a)[2 * i + 1] == hex(b)[2 * i + 1]);
        }
        assert(a == b);
    }
}

/// A path that starts at the root.
pub open spec fn is_absolute(path: Seq<u8>) -> bool {
    path.len() > 0 && path[0] == 47u8
}

/// The path `leaf` seen from `base`. A relative one lies below `base`, with a
/// separator in between unless `base` is empty or ends with one; an absolute
/// one stands for itself.
pub open spec fn joined(base: Seq<u8>, leaf: Seq<u8>) -> Seq<u8> {
    if is_absolute(leaf) {
        leaf
    } else if base.len() == 0 || base.last() == 47u8 {
        base + leaf
    } else {
        base.push(47u8) + leaf
    }
}

/// Extends the path `base` by the path `leaf`.
pub fn push_path(base: &mut Vec<u8>, leaf: &[u8])
    ensures
        final(base)@ == joined(old(base)@, leaf@),
{
    if leaf.len() > 0 && leaf[0] == 47u8 {
        base.clear();
    } else if base.len() > 0 && base[base.len() - 1] != 47u8 {
        base.push(47u8);
    }
    base.extend_from_slice(leaf);
}

/// Below one base, different relative paths are different paths.
pub proof fn joining_tells_leaves_apart(base: Seq<u8>, a: Seq<u8>, b: Seq<u8>)
    requires
        !is_absolute(a),
        !is_absolute(b),
    ensures
        joined(base, a) == joined(base, b) <==> a == b,
{
    let head = if base.len() == 0 || base.last() == 47u8 {
        base
    } else {
        base.push(47u8)
    };
    assert(joined(base, a) == head + a && joined(base, b) == head + b);
    if head + a == head + b {
        assert(a == (head + a).skip(head.len() as int));
        assert(b == (head + b).skip(head.len() as int));
    }
}

/// Where the leading whitespace of `s` ends.
proof fn start_of_text(s: Seq<char>) -> (from: int)
    ensures
        0 <= from <= s.len(),
        trim_start(s) == s.skip(from),
        forall|k: int| 0 <= k < from ==> is_white_space(#[trigger] s[k]),
        from < s.len() ==> !is_white_space(s[from]),
    decreases s.len(),
{
    if s.len() > 0 && is_white_space(s.first()) {
        let rest = s.drop_first();
        let from = start_of_text(rest) + 1;
        assert(rest.skip(from - 1) == s.skip(from));
        assert forall|k: int| 0 <= k < from implies is_white_space(#[trigger] s[k]) by {
            if k > 0 {
                assert(rest[k - 1] == s[k]);
            }
        }
        from
    } else {
        assert(s.skip(0) == s);
        0
    }
}

/// Where the trailing whitespace of `s` starts.
proof fn end_of_text(s: Seq<char>) -> (to: int)
    ensures
        0 <= to <= s.len(),
        trim_end(s) == s.take(to),
        forall|k: int| to <= k < s.len() ==> is_white_space(#[trigger] s[k]),
        to > 0 ==> !is_white_space(s[to - 1]),
    decreases s.len(),
{
    if s.len() > 0 && is_white_space(s.last()) {
        let rest = s.drop_last();
        let to = end_of_text(rest);
        assert(rest.take(to) == s.take(to));
        assert forall|k: int| to <= k < s.len() implies is_white_space(#[trigger] s[k]) by {
            if k < rest.len() {
                assert(rest[k] == s[k]);
            }
        }
        to
    } else {
        assert(s.take(s.len() as int) == s);
        s.len() as int
    }
}

/// Trimming takes off whitespace at both ends and nothing else, and leaves none
/// there; text that is all whitespace becomes empty.
pub proof fn trimming_strips_exactly_the_surrounding_whitespace(s: Seq<char>)
    ensures
        exists|from: int, to: int|
            {
                &&& 0 <= from <= to <= s.len()
                &&& trimmed(s) == #[trigger] s.subrange(from, to)
                &&& forall|k: int|
                    0 <= k < from || to <= k < s.len() ==> is_white_space(#[trigger] s[k])
                &&& from < to ==> !is_white_space(s[from]) && !is_white_space(s[to - 1])
            },
        trimmed(s).len() == 0 <==> forall|k: int|
            0 <= k < s.len() ==> is_white_space(#[trigger] s[k]),
{
    let from = start_of_text(s);
    let rest = s.skip(from);
    let len = end_of_text(rest);
    let to = from + len;
    assert(trimmed(s) == s.subrange(from, to));
    assert forall|k: int| 0 <= k < from || to <= k < s.len() implies is_white_space(
        #[trigger] s[k],
    ) by {
        if to <= k {
            assert(rest[k - from] == s[k]);
        }
    }
    if from < to {
        assert(rest[len - 1] == s[to - 1]);
    }
}

/// The head is what stands before the first stop: it holds none, and one
/// follows it unless it is the whole text.
pub proof fn a_head_ends_at_the_first_stop(s: Seq<char>, stop: char)
    ensures
        up_to(s, stop).len() <= s.len(),
        up_to(s, stop) == s.take(up_to(s, stop).len() as int),
        !up_to(s, stop).contains(stop),
        up_to(s, stop).len() < s.len() ==> s[up_to(s, stop).len() as int] == stop,
    decreases s.len(),
{
    let head = up_to(s, stop);
    if s.len() > 0 && s.first() != stop {
        let rest = s.drop_first();
        a_head_ends_at_the_first_stop(rest, stop);
        let inner = up_to(rest, stop);
        assert(head == s.take(head.len() as int)) by {
            assert forall|i: int| 0 <= i < head.len() implies head[i] == s[i] by {
                if i > 0 {
                    assert(head[i] == inner[i - 1]);
                    assert(inner[i - 1] == rest.take(inner.len() as int)[i - 1]);
                }
            }
        }
        assert(!head.contains(stop)) by {
            if head.contains(stop) {
                let i = head.index_of(stop);
                assert(head[i] == stop);
                assert(inner[i - 1] == stop);
            }
        }
    }
}

/// `a` and `b` agree on their first `k` bytes, where either `a` ends and `b`
/// goes on, or `a` goes on with the smaller byte.
pub open spec fn differ_at(a: Seq<u8>, b: Seq<u8>, k: int) -> bool {
    &&& 0 <= k <= a.len()
    &&& k < b.len()
    &&& a.take(k) == b.take(k)
    &&& k == a.len() || a[k] < b[k]
}

/// The byte order is lexicographic.
proof fn bytes_are_ordered_where_they_differ(a: Seq<u8>, b: Seq<u8>)
    ensures
        bytes_before(a, b) <==> exists|k: int| differ_at(a, b, k),
    decreases a.len(),
{
    if a.len() > 0 && b.len() > 0 && a[0] == b[0] {
        let (x, y) = (a.drop_first(), b.drop_first());
        bytes_are_ordered_where_they_differ(x, y);
        if bytes_before(a, b) {
            let k = choose|k: int| differ_at(x, y, k);
            assert(a.take(k + 1) == seq![a[0]] + x.take(k));
            assert(b.take(k + 1) == seq![b[0]] + y.take(k));
            assert(differ_at(a, b, k + 1));
        }
        if exists|k: int| differ_at(a, b, k) {
            let k = choose|k: int| differ_at(a, b, k);
            assert(k > 0);
            assert(x.take(k - 1) == a.take(k).drop_first());
            assert(y.take(k - 1) == b.take(k).drop_first());
            assert(differ_at(x, y, k - 1));
        }
    } else {
        if bytes_before(a, b) {
            assert(a.take(0) == b.take(0));
            assert(differ_at(a, b, 0));
        }
        if exists|k: int| differ_at(a, b, k) {
            let k = choose|k: int| differ_at(a, b, k);
            if k > 0 {
                assert(a.take(k)[0] == b.take(k)[0]);
            }
        }
    }
}

/// Strings are ordered where their UTF-8 encodings first differ.
pub proof fn text_is_ordered_where_it_differs(a: Seq<char>, b: Seq<char>)
    ensures
        text_before(a, b) <==> exists|k: int| differ_at(encode_utf8(a), encode_utf8(b), k),
{
    bytes_are_ordered_where_they_differ(encode_utf8(a), encode_utf8(b));
}

/// The number that a row of decimal digits denotes.
pub open spec fn numeral_value(numeral: Seq<char>) -> int
    decreases numeral.len(),
{
    if numeral.len() == 0 {
        0
    } else {
        10 * numeral_value(numeral.drop_last()) + (numeral.last() as int - '0' as int)
    }
}

/// A numeral is made of decimal digits, denotes its number and has no leading
/// zero.
pub proof fn a_numeral_denotes_its_number(n: nat)
    ensures
        numeral_value(decimal(n)) == n,
        decimal(n).len() > 0,
        forall|i: int| 0 <= i < decimal(n).len() ==> '0' <= #[trigger] decimal(n)[i] <= '9',
        decimal(n)[0] == '0' ==> decimal(n).len() == 1,
    decreases n,
{
    let numeral = decimal(n);
    if n < 10 {
        assert(numeral.drop_last() == Seq::<char>::empty());
        assert(numeral.last() == digit(n));
        assert(numeral_value(numeral.drop_last()) == 0);
    } else {
        a_numeral_denotes_its_number(n / 10);
        let head = decimal(n / 10);
        assert(numeral.drop_last() == head);
        assert(numeral[0] == head[0]);
        if head[0] == '0' {
            assert(head.drop_last() == Seq::<char>::empty());
            assert(numeral_value(head.drop_last()) == 0);
        }
        assert forall|i: int| 0 <= i < numeral.len() implies '0' <= #[trigger] numeral[i]
            <= '9' by {
            if i < head.len() {
                assert(numeral[i] == head[i]);
            }
        }
    }
}

/// Aligned text fills its columns with spaces, on the right when it is aligned
/// to the left and on the left when it is aligned to the right; text that is
/// wide enough stays as it is.
pub proof fn aligned_text_fills_its_columns(s: Seq<char>, width: nat)
    ensures
        ({
            let (left, right) = (left_aligned(s, width), right_aligned(s, width));
            let len = if s.len() < width {
                width
            } else {
                s.len()
            };
            &&& left.len() == len
            &&& left.take(s.len() as int) == s
            &&& forall|i: int| s.len() <= i < len ==> #[trigger] left[i] == ' '
            &&& right.len() == len
            &&& right.skip(len - s.len()) == s
            &&& forall|i: int| 0 <= i < len - s.len() ==> #[trigger] right[i] == ' '
        }),
{
    let (left, right) = (left_aligned(s, width), right_aligned(s, width));
    assert(left.take(s.len() as int) == s);
    assert(right.skip(right.len() - s.len()) == s);
}

/// The value of a lower-case hexadecimal digit.
pub open spec fn hex_value(digit: u8) -> int {
    if digit <= 57 {
        digit - 48
    } else {
        digit - 87
    }
}

/// Each byte can be read back from its two hexadecimal digits, which are
/// lower-case.
pub proof fn hexadecimal_digits_read_back(bytes: Seq<u8>, i: int)
    requires
        0 <= i < bytes.len(),
    ensures
        hex(bytes).len() == 2 * bytes.len(),
        16 * hex_value(hex(bytes)[2 * i]) + hex_value(hex(bytes)[2 * i + 1]) == bytes[i],
        forall|j: int|
            0 <= j < hex(bytes).len() ==> 48 <= #[trigger] hex(bytes)[j] <= 57 || 97 <= hex(
                bytes,
            )[j] <= 102,
{
    assert((2 * i) / 2 == i && (2 * i + 1) / 2 == i);
    assert((2 * i) % 2 == 0 && (2 * i + 1) % 2 == 1);
}

/// A relative path lies below its base: the base, then at most one slash, then
/// the path. The slash is there unless the base is empty or ends with one. A
/// path that starts with a slash replaces the base.
pub proof fn a_relative_path_lies_below_its_base(base: Seq<u8>, leaf: Seq<u8>)
    ensures
        leaf.len() > 0 && leaf[0] == 47u8 ==> joined(base, leaf) == leaf,
        leaf.len() == 0 || leaf[0] != 47u8 ==> {
            let path = joined(base, leaf);
            let between = path.len() - leaf.len();
            &&& path.take(base.len() as int) == base
            &&& path.skip(between) == leaf
            &&& between == base.len() || between == base.len() + 1 && path[base.len() as int]
                == 47u8
            &&& between == base.len() <==> base.len() == 0 || base.last() == 47u8
        },
{
    let path = joined(base, leaf);
    if leaf.len() == 0 || leaf[0] != 47u8 {
        assert(path.take(base.len() as int) == base);
        assert(path.skip(path.len() - leaf.len()) == leaf);
    }
}

} // verus!
