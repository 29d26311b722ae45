//! Small text helpers shared by the parsers and by the display strings:
//! decimal rendering, ASCII digit parsing, trimming and byte search.

use vstd::prelude::*;

verus! {

/// The decimal digit character of `d`, for `d < 10`.
pub open spec fn digit_char(d: nat) -> char {
    if d == 0 { '0' }
    else if d == 1 { '1' }
    else if d == 2 { '2' }
    else if d == 3 { '3' }
    else if d == 4 { '4' }
    else if d == 5 { '5' }
    else if d == 6 { '6' }
    else if d == 7 { '7' }
    else if d == 8 { '8' }
    else { '9' }
}

/// The decimal rendering of `n`, most significant digit first, no padding.
pub open spec fn decimal(n: nat) -> Seq<char>
    decreases n,
{
    if n < 10 {
        seq![digit_char(n)]
    } else {
        decimal(n / 10).push(digit_char(n % 10))
    }
}

/// A number below ten takes one digit, and one of ten or more takes more.
pub proof fn lemma_decimal_len(n: nat)
    ensures
        n < 10 ==> decimal(n).len() == 1,
        n >= 10 ==> decimal(n).len() > 1,
    decreases n,
{
    if n >= 10 {
        lemma_decimal_len(n / 10);
    }
}

/// Appends the digit `d` to `s`.
fn push_digit(s: &mut String, d: u8)
    requires
        d < 10,
    ensures
        final(s)@ == old(s)@.push(digit_char(d as nat)),
{
    proof {
        reveal_strlit("0");
        reveal_strlit("1");
        reveal_strlit("2");
        reveal_strlit("3");
        reveal_strlit("4");
        reveal_strlit("5");
        reveal_strlit("6");
        reveal_strlit("7");
        reveal_strlit("8");
        reveal_strlit("9");
    }
    let digit = match d {
        0 => "0",
        1 => "1",
        2 => "2",
        3 => "3",
        4 => "4",
        5 => "5",
        6 => "6",
        7 => "7",
        8 => "8",
        _ => "9",
    };
    s.append(digit);
}

/// Appends the decimal rendering of `n` to `s`, as `to_string` writes it.
pub fn push_decimal_u64(s: &mut String, n: u64)
    ensures
        final(s)@ == old(s)@ + decimal(n as nat),
    decreases n,
{
    let ghost s0 = s@;
    if n >= 10 {
        push_decimal_u64(s, n / 10);
    }
    push_digit(s, (n % 10) as u8);
    assert(s@ =~= s0 + decimal(n as nat));
}

/// Appends the decimal rendering of `n` to `s`, as `u8::to_string` writes it.
pub fn push_decimal_u8(s: &mut String, n: u8)
    ensures
        final(s)@ == old(s)@ + decimal(n as nat),
{
    let ghost s0 = s@;
    if n >= 100 {
        push_digit(s, n / 100);
        push_digit(s, (n / 10) % 10);
        push_digit(s, n % 10);
        assert(decimal(n as nat) =~= seq![digit_char((n / 100) as nat), digit_char(((n / 10) % 10) as nat), digit_char((n % 10) as nat)]) by {
            assert(decimal((n / 10) as nat) == decimal((n / 100) as nat).push(digit_char(((n / 10) % 10) as nat)));
        }
    } else if n >= 10 {
        push_digit(s, n / 10);
        push_digit(s, n % 10);
        assert(decimal(n as nat) =~= seq![digit_char((n / 10) as nat), digit_char((n % 10) as nat)]) by {
            assert(decimal((n / 10) as nat) == seq![digit_char((n / 10) as nat)]);
        }
    } else {
        push_digit(s, n);
    }
    assert(s@ =~= s0 + decimal(n as nat));
}

} // verus!

verus! {

/// Whether `needle` occurs in `hay` as a contiguous run of bytes.
pub open spec fn contains_bytes(hay: Seq<u8>, needle: Seq<u8>) -> bool {
    exists|i: int| 0 <= i && i + needle.len() <= hay.len() && #[trigger] hay.subrange(i, i + needle.len()) == needle
}

/// Whether `needle` occurs at position `i` of `hay`.
pub open spec fn occurs_at(hay: Seq<u8>, needle: Seq<u8>, i: int) -> bool {
    0 <= i && i + needle.len() <= hay.len() && hay.subrange(i, i + needle.len()) == needle
}

/// Whether `needle` occurs at position `i` of `hay` (executable).
pub fn matches_at(hay: &[u8], needle: &[u8], i: usize) -> (r: bool)
    requires
        i + needle@.len() <= hay@.len(),
    ensures
        r == (hay@.subrange(i as int, i + needle@.len()) == needle@),
{
    let n = hay.len();
    let mut j: usize = 0;
    while j < needle.len()
        invariant
            n == hay@.len(),
            i + needle@.len() <= hay@.len(),
            j <= needle@.len(),
            forall|k: int| 0 <= k < j ==> hay@[i + k] == needle@[k],
        decreases needle@.len() - j,
    {
        if hay[i + j] != needle[j] {
            assert(hay@.subrange(i as int, i + needle@.len())[j as int] != needle@[j as int]);
            return false;
        }
        j = j + 1;
    }
    assert(hay@.subrange(i as int, i + needle@.len()) =~= needle@);
    true
}

/// Whether `needle` occurs in `hay` as a contiguous run of bytes.
pub fn find_bytes(hay: &[u8], needle: &[u8]) -> (r: bool)
    ensures
        r == contains_bytes(hay@, needle@),
{
    if needle.len() > hay.len() {
        return false;
    }
    let last = hay.len() - needle.len();
    let mut i: usize = 0;
    while i < last
        invariant
            i <= last,
            last + needle@.len() == hay@.len(),
            forall|k: int| 0 <= k < i ==> !occurs_at(hay@, needle@, k),
        decreases last - i,
    {
        if matches_at(hay, needle, i) {
            assert(occurs_at(hay@, needle@, i as int));
            return true;
        }
        i = i + 1;
    }
    if matches_at(hay, needle, last) {
        assert(occurs_at(hay@, needle@, last as int));
        return true;
    }
    assert forall|k: int| 0 <= k && k + needle@.len() <= hay@.len() implies #[trigger] hay@.subrange(k, k + needle@.len()) != needle@ by {
        assert(!occurs_at(hay@, needle@, k));
    }
    false
}

} // verus!

verus! {

/// Position of the first `c` in `b`, or `b.len()` when there is none.
pub open spec fn index_of(b: Seq<u8>, c: u8) -> int
    decreases b.len(),
{
    if b.len() == 0 {
        0
    } else if b[0] == c {
        0
    } else {
        1 + index_of(b.drop_first(), c)
    }
}

/// `index_of` lies within `0..=b.len()`, and what it points at is `c`.
pub proof fn lemma_index_of_bounds(b: Seq<u8>, c: u8)
    ensures
        0 <= index_of(b, c) <= b.len(),
        index_of(b, c) < b.len() ==> b[index_of(b, c)] == c,
        forall|k: int| 0 <= k < index_of(b, c) ==> b[k] != c,
    decreases b.len(),
{
    if b.len() > 0 && b[0] != c {
        lemma_index_of_bounds(b.drop_first(), c);
        assert forall|k: int| 0 <= k < index_of(b, c) implies b[k] != c by {
            if k > 0 {
                assert(b[k] == b.drop_first()[k - 1]);
            }
        }
    }
}

/// The first position holding `c`, characterised by what precedes it.
pub proof fn lemma_index_of_is(b: Seq<u8>, c: u8, i: int)
    requires
        0 <= i <= b.len(),
        i < b.len() ==> b[i] == c,
        forall|k: int| 0 <= k < i ==> b[k] != c,
    ensures
        index_of(b, c) == i,
    decreases i,
{
    if i > 0 {
        assert forall|k: int| 0 <= k < i - 1 implies b.drop_first()[k] != c by {
            assert(b.drop_first()[k] == b[k + 1]);
        }
        lemma_index_of_is(b.drop_first(), c, i - 1);
    }
}

/// Position of the first `c` between `from` and `to`, or `to`.
pub fn find_byte_from_to(b: &[u8], from: usize, to: usize, c: u8) -> (r: usize)
    requires
        from <= to <= b@.len(),
    ensures
        from <= r <= to,
        r - from == index_of(b@.subrange(from as int, to as int), c),
{
    let mut i = from;
    while i < to && b[i] != c
        invariant
            from <= i <= to <= b@.len(),
            forall|k: int| from <= k < i ==> b@[k] != c,
        decreases to - i,
    {
        i = i + 1;
    }
    proof {
        lemma_index_of_is(b@.subrange(from as int, to as int), c, i - from);
    }
    i
}

/// Whether a byte is one that `char::is_whitespace` accepts when it stands
/// alone: tab, line feed, vertical tab, form feed, carriage return, space.
pub open spec fn is_ascii_space(b: u8) -> bool {
    (9 <= b <= 13) || b == 32
}

/// Length of the UTF-8 encoding of a Unicode `White_Space` character at the
/// start of `b`, or 0 when `b` does not start with one. The multi-byte ones are
/// U+0085, U+00A0, U+1680, U+2000..=U+200A, U+2028, U+2029, U+202F, U+205F and
/// U+3000.
pub open spec fn ws_front(b: Seq<u8>) -> int {
    if b.len() >= 1 && is_ascii_space(b[0]) {
        1
    } else if b.len() >= 2 && b[0] == 0xC2 && (b[1] == 0x85 || b[1] == 0xA0) {
        2
    } else if b.len() >= 3 && is_ws3(b[0], b[1], b[2]) {
        3
    } else {
        0
    }
}

/// Whether three bytes encode one of the three-byte `White_Space` characters.
pub open spec fn is_ws3(b0: u8, b1: u8, b2: u8) -> bool {
    ||| (b0 == 0xE1 && b1 == 0x9A && b2 == 0x80)
    ||| (b0 == 0xE2 && b1 == 0x80 && ((0x80 <= b2 <= 0x8A) || b2 == 0xA8 || b2 == 0xA9 || b2 == 0xAF))
    ||| (b0 == 0xE2 && b1 == 0x81 && b2 == 0x9F)
    ||| (b0 == 0xE3 && b1 == 0x80 && b2 == 0x80)
}

/// Length of the UTF-8 encoding of a `White_Space` character at the end of
/// `b`, or 0.
pub open spec fn ws_back(b: Seq<u8>) -> int {
    let n = b.len() as int;
    if n >= 1 && is_ascii_space(b[n - 1]) {
        1
    } else if n >= 2 && b[n - 2] == 0xC2 && (b[n - 1] == 0x85 || b[n - 1] == 0xA0) {
        2
    } else if n >= 3 && is_ws3(b[n - 3], b[n - 2], b[n - 1]) {
        3
    } else {
        0
    }
}

/// `b` without its leading white space.
pub open spec fn trim_start(b: Seq<u8>) -> Seq<u8>
    decreases b.len(),
{
    if ws_front(b) > 0 {
        trim_start(b.subrange(ws_front(b), b.len() as int))
    } else {
        b
    }
}

/// `b` without its trailing white space.
pub open spec fn trim_end(b: Seq<u8>) -> Seq<u8>
    decreases b.len(),
{
    if ws_back(b) > 0 {
        trim_end(b.subrange(0, b.len() - ws_back(b)))
    } else {
        b
    }
}

/// The UTF-8 bytes of a string with white space removed at both ends, as
/// `str::trim` does.
pub open spec fn spec_trim(b: Seq<u8>) -> Seq<u8> {
    trim_end(trim_start(b))
}

/// Executable `ws_front` on the bytes of `b` from `i` to `j`.
fn ws_front_at(b: &[u8], i: usize, j: usize) -> (r: usize)
    requires
        i <= j <= b@.len(),
    ensures
        r == ws_front(b@.subrange(i as int, j as int)),
{
    let len = j - i;
    if len >= 1 && ((9 <= b[i] && b[i] <= 13) || b[i] == 32) {
        1
    } else if len >= 2 && b[i] == 0xC2 && (b[i + 1] == 0x85 || b[i + 1] == 0xA0) {
        2
    } else if len >= 3 && is_ws3_exec(b[i], b[i + 1], b[i + 2]) {
        3
    } else {
        0
    }
}

/// Executable `ws_back` on the bytes of `b` from `i` to `j`.
fn ws_back_at(b: &[u8], i: usize, j: usize) -> (r: usize)
    requires
        i <= j <= b@.len(),
    ensures
        r == ws_back(b@.subrange(i as int, j as int)),
{
    let len = j - i;
    if len >= 1 && ((9 <= b[j - 1] && b[j - 1] <= 13) || b[j - 1] == 32) {
        1
    } else if len >= 2 && b[j - 2] == 0xC2 && (b[j - 1] == 0x85 || b[j - 1] == 0xA0) {
        2
    } else if len >= 3 && is_ws3_exec(b[j - 3], b[j - 2], b[j - 1]) {
        3
    } else {
        0
    }
}

fn is_ws3_exec(b0: u8, b1: u8, b2: u8) -> (r: bool)
    ensures
        r == is_ws3(b0, b1, b2),
{
    (b0 == 0xE1 && b1 == 0x9A && b2 == 0x80) || (b0 == 0xE2 && b1 == 0x80 && ((0x80 <= b2
        && b2 <= 0x8A) || b2 == 0xA8 || b2 == 0xA9 || b2 == 0xAF)) || (b0 == 0xE2 && b1 == 0x81
        && b2 == 0x9F) || (b0 == 0xE3 && b1 == 0x80 && b2 == 0x80)
}

/// Bounds of the trimmed part of the bytes of `b` between `i` and `j`.
pub fn trim_bounds(b: &[u8], i: usize, j: usize) -> (r: (usize, usize))
    requires
        i <= j <= b@.len(),
    ensures
        i <= r.0 <= r.1 <= j,
        b@.subrange(r.0 as int, r.1 as int) == spec_trim(b@.subrange(i as int, j as int)),
{
    let mut s = i;
    while s < j
        invariant
            i <= s <= j <= b@.len(),
            trim_start(b@.subrange(i as int, j as int)) == trim_start(b@.subrange(s as int, j as int)),
        ensures
            i <= s <= j,
            trim_start(b@.subrange(i as int, j as int)) == b@.subrange(s as int, j as int),
        decreases j - s,
    {
        let k = ws_front_at(b, s, j);
        if k == 0 {
            break;
        }
        assert(b@.subrange(s as int, j as int).subrange(k as int, (j - s) as int) =~= b@.subrange(s + k, j as int));
        s = s + k;
    }
    let mut e = j;
    while e > s
        invariant
            i <= s <= e <= j <= b@.len(),
            trim_end(b@.subrange(s as int, j as int)) == trim_end(b@.subrange(s as int, e as int)),
        ensures
            s <= e <= j,
            trim_end(b@.subrange(s as int, j as int)) == b@.subrange(s as int, e as int),
        decreases e - s,
    {
        let k = ws_back_at(b, s, e);
        if k == 0 {
            break;
        }
        assert(b@.subrange(s as int, e as int).subrange(0, (e - s - k) as int) =~= b@.subrange(s as int, e - k));
        e = e - k;
    }
    (s, e)
}

} // verus!

verus! {

/// Value of an ASCII digit in bases up to 36, as `char::to_digit` reads it;
/// 99 for anything that is not a digit in any such base.
pub open spec fn digit_value(c: u8) -> int {
    if 48 <= c <= 57 {
        c - 48
    } else if 97 <= c <= 122 {
        c - 87
    } else if 65 <= c <= 90 {
        c - 55
    } else {
        99
    }
}

/// Value of a run of digits in base `radix`, most significant first.
pub open spec fn digits_value(s: Seq<u8>, radix: int) -> int
    decreases s.len(),
{
    if s.len() == 0 {
        0
    } else {
        digits_value(s.drop_last(), radix) * radix + digit_value(s.last())
    }
}

/// Whether every byte of `s` is a digit of base `radix`.
pub open spec fn all_digits(s: Seq<u8>, radix: int) -> bool {
    forall|i: int| 0 <= i < s.len() ==> #[trigger] digit_value(s[i]) < radix
}

/// The digits of an unsigned number: one leading `+` is allowed.
pub open spec fn unsigned_digits(s: Seq<u8>) -> Seq<u8> {
    if s.len() > 0 && s[0] == 43 {
        s.drop_first()
    } else {
        s
    }
}

/// What `from_str_radix` of an unsigned type whose largest value is `max`
/// gives for `s`: an optional `+`, then at least one digit of base `radix`,
/// and a value that fits.
pub open spec fn spec_parse_unsigned(s: Seq<u8>, radix: int, max: int) -> Option<int> {
    let d = unsigned_digits(s);
    if d.len() > 0 && all_digits(d, radix) && digits_value(d, radix) <= max {
        Some(digits_value(d, radix))
    } else {
        None
    }
}

proof fn lemma_digits_value_nonneg(s: Seq<u8>, radix: int)
    requires
        radix >= 1,
    ensures
        digits_value(s, radix) >= 0,
    decreases s.len(),
{
    if s.len() > 0 {
        lemma_digits_value_nonneg(s.drop_last(), radix);
        let v = digits_value(s.drop_last(), radix);
        assert(v * radix >= 0) by (nonlinear_arith)
            requires
                v >= 0,
                radix >= 1,
        ;
    }
}

/// Appending digits never lowers the value.
proof fn lemma_digits_value_prefix(s: Seq<u8>, k: int, radix: int)
    requires
        radix >= 1,
        0 <= k <= s.len(),
    ensures
        digits_value(s, radix) >= digits_value(s.subrange(0, k), radix),
    decreases s.len(),
{
    if k < s.len() {
        lemma_digits_value_nonneg(s.drop_last(), radix);
        let v = digits_value(s.drop_last(), radix);
        assert(v * radix >= v) by (nonlinear_arith)
            requires
                v >= 0,
                radix >= 1,
        ;
        lemma_digits_value_prefix(s.drop_last(), k, radix);
        assert(s.drop_last().subrange(0, k) =~= s.subrange(0, k));
    } else {
        assert(s.subrange(0, k) =~= s);
    }
}

fn digit_value_exec(c: u8) -> (r: u64)
    ensures
        r == digit_value(c),
{
    if 48 <= c && c <= 57 {
        (c - 48) as u64
    } else if 97 <= c && c <= 122 {
        (c - 87) as u64
    } else if 65 <= c && c <= 90 {
        (c - 55) as u64
    } else {
        99
    }
}

/// Parses the bytes of `b` from `i` to `j` as an unsigned number of base
/// `radix` no larger than `max`, as `from_str_radix` does.
pub fn parse_unsigned(b: &[u8], i: usize, j: usize, radix: u64, max: u64) -> (r: Option<u64>)
    requires
        i <= j <= b@.len(),
        2 <= radix <= 36,
        max <= u32::MAX,
    ensures
        r matches Some(v) ==> spec_parse_unsigned(b@.subrange(i as int, j as int), radix as int, max as int) == Some(v as int),
        r is None ==> spec_parse_unsigned(b@.subrange(i as int, j as int), radix as int, max as int) is None,
{
    let ghost s = b@.subrange(i as int, j as int);
    let start = if i < j && b[i] == 43 { i + 1 } else { i };
    let ghost d = b@.subrange(start as int, j as int);
    assert(d =~= unsigned_digits(s));
    if start == j {
        return None;
    }
    let mut acc: u64 = 0;
    let mut k = start;
    while k < j
        invariant
            i <= start <= k <= j <= b@.len(),
            d == b@.subrange(start as int, j as int),
            s == b@.subrange(i as int, j as int),
            d == unsigned_digits(s),
            2 <= radix <= 36,
            max <= u32::MAX,
            acc <= max,
            acc == digits_value(d.subrange(0, k - start), radix as int),
            all_digits(d.subrange(0, k - start), radix as int),
        decreases j - k,
    {
        let dv = digit_value_exec(b[k]);
        assert(d[k - start] == b@[k as int]);
        if dv >= radix {
            assert(!all_digits(d, radix as int)) by {
                assert(digit_value(d[k - start]) >= radix);
            }
            return None;
        }
        assert(acc * radix <= 36 * 0xffff_ffff) by (nonlinear_arith)
            requires
                acc <= 0xffff_ffff,
                radix <= 36,
        ;
        let next = acc * radix + dv;
        let ghost p = d.subrange(0, k + 1 - start);
        assert(p.drop_last() =~= d.subrange(0, k - start));
        assert(p.last() == b@[k as int]);
        assert(next == digits_value(p, radix as int));
        if next > max {
            proof {
                lemma_digits_value_prefix(d, k + 1 - start, radix as int);
            }
            return None;
        }
        assert forall|x: int| 0 <= x < p.len() implies #[trigger] digit_value(p[x]) < radix by {
            if x < p.len() - 1 {
                assert(p[x] == d.subrange(0, k - start)[x]);
            }
        }
        acc = next;
        k = k + 1;
    }
    assert(d.subrange(0, j - start) =~= d);
    Some(acc)
}

} // verus!

verus! {

/// Strict lexicographic order on byte strings, as `Ord` on `[u8]` and `str` orders them.
pub open spec fn lex_lt(a: Seq<u8>, b: Seq<u8>) -> bool
    decreases a.len(),
{
    if b.len() == 0 {
        false
    } else if a.len() == 0 {
        true
    } else if a[0] < b[0] {
        true
    } else if a[0] > b[0] {
        false
    } else {
        lex_lt(a.drop_first(), b.drop_first())
    }
}

/// Two byte strings are ordered one way, the other, or equal.
pub proof fn lemma_lex_trichotomy(a: Seq<u8>, b: Seq<u8>)
    ensures
        lex_lt(a, b) || a == b || lex_lt(b, a),
        !(lex_lt(a, b) && lex_lt(b, a)),
        !lex_lt(a, a),
    decreases a.len(),
{
    lemma_lex_irreflexive(a);
    if a.len() > 0 && b.len() > 0 {
        lemma_lex_trichotomy(a.drop_first(), b.drop_first());
        if a[0] == b[0] && a.drop_first() == b.drop_first() {
            assert(a =~= b) by {
                assert forall|i: int| 0 <= i < a.len() implies a[i] == b[i] by {
                    if i > 0 {
                        assert(a[i] == a.drop_first()[i - 1]);
                        assert(b[i] == b.drop_first()[i - 1]);
                    }
                }
            }
        }
    } else if a.len() == 0 && b.len() == 0 {
        assert(a =~= b);
    }
}

/// No byte string comes before itself.
pub proof fn lemma_lex_irreflexive(a: Seq<u8>)
    ensures
        !lex_lt(a, a),
    decreases a.len(),
{
    if a.len() > 0 {
        lemma_lex_irreflexive(a.drop_first());
    }
}

/// The lexicographic order is transitive.
pub proof fn lemma_lex_transitive(a: Seq<u8>, b: Seq<u8>, c: Seq<u8>)
    requires
        lex_lt(a, b),
        lex_lt(b, c),
    ensures
        lex_lt(a, c),
    decreases a.len(),
{
    if a.len() > 0 && b.len() > 0 && c.len() > 0 && a[0] == b[0] && b[0] == c[0] {
        lemma_lex_transitive(a.drop_first(), b.drop_first(), c.drop_first());
    }
}

/// Whether `a` comes strictly before `b` in lexicographic order.
pub fn bytes_lt(a: &[u8], b: &[u8]) -> (r: bool)
    ensures
        r == lex_lt(a@, b@),
{
    let mut i: usize = 0;
    assert(a@.subrange(0, a@.len() as int) =~= a@);
    assert(b@.subrange(0, b@.len() as int) =~= b@);
    while i < a.len() && i < b.len() && a[i] == b[i]
        invariant
            i <= a@.len(),
            i <= b@.len(),
            lex_lt(a@, b@) == lex_lt(a@.subrange(i as int, a@.len() as int), b@.subrange(i as int, b@.len() as int)),
        decreases a@.len() - i,
    {
        let ghost sa = a@.subrange(i as int, a@.len() as int);
        let ghost sb = b@.subrange(i as int, b@.len() as int);
        assert(sa.drop_first() =~= a@.subrange(i + 1, a@.len() as int));
        assert(sb.drop_first() =~= b@.subrange(i + 1, b@.len() as int));
        i = i + 1;
    }
    if i == b.len() {
        false
    } else if i == a.len() {
        true
    } else {
        a[i] < b[i]
    }
}

} // verus!

verus! {

/// Whether two strings are equal, compared byte for byte.
pub fn str_eq(a: &str, b: &str) -> (r: bool)
    ensures
        r == (a@ == b@),
{
    let x = a.as_bytes();
    let y = b.as_bytes();
    proof {
        vstd::utf8::encode_utf8_decode_utf8(a@);
        vstd::utf8::encode_utf8_decode_utf8(b@);
    }
    if x.len() != y.len() {
        return false;
    }
    let r = matches_at(x, y, 0);
    assert(x@.subrange(0, y@.len() as int) =~= x@);
    r
}

} // verus!
