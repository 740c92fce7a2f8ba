//! Text primitives: decimal rendering, byte-wise comparison and equality of
//! strings, and the sequence lemmas that the rest of the crate builds on.
use vstd::prelude::*;
use vstd::utf8::*;

verus! {

/// The ASCII digit for `d`.
pub open spec fn digit(d: nat) -> char
    recommends
        d < 10,
{
    (48 + d) as char
}

/// The decimal form of `n`, without leading zeros.
pub open spec fn decimal(n: nat) -> Seq<char>
    decreases n,
{
    if n < 10 {
        seq![digit(n)]
    } else {
        decimal(n / 10).push(digit(n % 10))
    }
}

/// The decimal form of a signed number: a minus sign before negative ones.
pub open spec fn signed_decimal(n: int) -> Seq<char> {
    if n < 0 {
        seq!['-'] + decimal((-n) as nat)
    } else {
        decimal(n as nat)
    }
}

/// `count` zeros.
pub open spec fn zeros(count: nat) -> Seq<char> {
    Seq::new(count, |i: int| '0')
}

/// The decimal form of `n`, filled with leading zeros up to `width`.
pub open spec fn padded(n: nat, width: nat) -> Seq<char> {
    let body = decimal(n);
    if body.len() < width {
        zeros((width - body.len()) as nat) + body
    } else {
        body
    }
}

/// Whether every character is an ASCII digit.
pub open spec fn all_digits(s: Seq<char>) -> bool {
    forall|i: int| 0 <= i < s.len() ==> '0' <= #[trigger] s[i] <= '9'
}

fn digit_text(d: u128) -> (s: &'static str)
    requires
        d < 10,
    ensures
        s@ == seq![digit(d as nat)],
{
    proof {
        reveal_strlit("0");
        reveal_strlit("1");
        reveal_strlit("2");
        reveal_strlit("3");
        reveal_strlit("4");
        reveal_strlit("5");
        reveal_strlit("6");
        reveal_strlit("7");
        reveal_strlit("8");
        reveal_strlit("9");
    }
    match d {
        0 => "0",
        1 => "1",
        2 => "2",
        3 => "3",
        4 => "4",
        5 => "5",
        6 => "6",
        7 => "7",
        8 => "8",
        _ => "9",
    }
}

/// Appends the decimal form of a number of up to 128 bits.
pub fn push_wide(out: &mut String, n: u128)
    ensures
        final(out)@ == old(out)@ + decimal(n as nat),
    decreases n,
{
    if n >= 10 {
        push_wide(out, n / 10);
    }
    out.append(digit_text(n % 10));
    assert(out@ =~= old(out)@ + decimal(n as nat));
}

/// Appends the decimal form of `n`.
pub fn push_decimal(out: &mut String, n: u64)
    ensures
        final(out)@ == old(out)@ + decimal(n as nat),
{
    push_wide(out, n as u128);
}

/// Appends the decimal form of a signed number.
pub fn push_signed(out: &mut String, n: i64)
    ensures
        final(out)@ == old(out)@ + signed_decimal(n as int),
{
    if n < 0 {
        proof {
            reveal_strlit("-");
        }
        out.append("-");
        push_decimal(out, (-(n as i128)) as u64);
        assert(out@ =~= old(out)@ + signed_decimal(n as int));
    } else {
        push_decimal(out, n as u64);
    }
}

/// Appends the decimal form of `n`, zero-filled to `width`.
pub fn push_padded(out: &mut String, n: u64, width: usize)
    ensures
        final(out)@ == old(out)@ + padded(n as nat, width as nat),
{
    let mut digits = String::new();
    push_decimal(&mut digits, n);
    let len: usize = digits.as_str().unicode_len();
    let mut filled: usize = len;
    while filled < width
        invariant
            len <= filled,
            filled <= width || filled == len,
            out@ == old(out)@ + zeros((filled - len) as nat),
        decreases width - filled,
    {
        proof {
            reveal_strlit("0");
        }
        out.append("0");
        filled = filled + 1;
        assert(out@ =~= old(out)@ + zeros((filled - len) as nat));
    }
    out.append(digits.as_str());
    assert(out@ =~= old(out)@ + padded(n as nat, width as nat));
}

/// The decimal form is a non-empty run of digits, without a leading zero
/// unless it is the number zero.
pub proof fn lemma_decimal_shape(n: nat)
    ensures
        decimal(n).len() >= 1,
        all_digits(decimal(n)),
        n > 0 ==> decimal(n)[0] != '0',
    decreases n,
{
    if n >= 10 {
        lemma_decimal_shape(n / 10);
        let head = decimal(n / 10);
        assert(decimal(n) == head.push(digit(n % 10)));
        assert(decimal(n)[0] == head[0]);
    }
}

/// Distinct numbers have distinct decimal forms.
pub proof fn lemma_decimal_injective(a: nat, b: nat)
    requires
        decimal(a) == decimal(b),
    ensures
        a == b,
    decreases a,
{
    lemma_decimal_shape(a / 10);
    lemma_decimal_shape(b / 10);
    assert(decimal(a).last() == digit(a % 10));
    assert(decimal(b).last() == digit(b % 10));
    assert(digit(a % 10) as int == 48 + a % 10);
    assert(digit(b % 10) as int == 48 + b % 10);
    if a < 10 {
        if b >= 10 {
            assert(decimal(b).len() >= 2);
        }
    } else {
        if b < 10 {
            assert(decimal(a).len() >= 2);
        } else {
            assert(decimal(a).drop_last() =~= decimal(a / 10));
            assert(decimal(b).drop_last() =~= decimal(b / 10));
            lemma_decimal_injective(a / 10, b / 10);
        }
    }
}

/// Whether two byte strings are in strict lexicographic order.
pub open spec fn bytes_before(a: Seq<u8>, b: Seq<u8>) -> bool
    decreases a.len(),
{
    if b.len() == 0 {
        false
    } else if a.len() == 0 {
        true
    } else if a[0] != b[0] {
        a[0] < b[0]
    } else {
        bytes_before(a.drop_first(), b.drop_first())
    }
}

/// The order of strings: that of their UTF-8 bytes.
pub open spec fn text_before(a: Seq<char>, b: Seq<char>) -> bool {
    bytes_before(encode_utf8(a), encode_utf8(b))
}

/// Text with the same UTF-8 bytes is the same text.
pub proof fn lemma_utf8_injective(a: Seq<char>, b: Seq<char>)
    requires
        encode_utf8(a) == encode_utf8(b),
    ensures
        a == b,
{
    vstd::utf8::encode_utf8_decode_utf8(a);
    vstd::utf8::encode_utf8_decode_utf8(b);
}

/// The byte order is irreflexive.
pub proof fn lemma_before_irreflexive(a: Seq<u8>)
    ensures
        !bytes_before(a, a),
    decreases a.len(),
{
    if a.len() > 0 {
        lemma_before_irreflexive(a.drop_first());
    }
}

/// The byte order is transitive.
pub proof fn lemma_before_transitive(a: Seq<u8>, b: Seq<u8>, c: Seq<u8>)
    requires
        bytes_before(a, b),
        bytes_before(b, c),
    ensures
        bytes_before(a, c),
    decreases a.len(),
{
    if a.len() > 0 && a[0] == b[0] && b[0] == c[0] {
        lemma_before_transitive(a.drop_first(), b.drop_first(), c.drop_first());
    }
}

/// Of two different byte strings one comes before the other.
pub proof fn lemma_before_total(a: Seq<u8>, b: Seq<u8>)
    ensures
        a == b || bytes_before(a, b) || bytes_before(b, a),
    decreases a.len(),
{
    if a.len() == 0 {
        if b.len() == 0 {
            assert(a =~= b);
        }
    } else if b.len() > 0 && a[0] == b[0] {
        lemma_before_total(a.drop_first(), b.drop_first());
        if a.drop_first() == b.drop_first() {
            assert(a =~= seq![a[0]] + a.drop_first());
            assert(b =~= seq![b[0]] + b.drop_first());
        }
    }
}

proof fn lemma_before_common_prefix(a: Seq<u8>, b: Seq<u8>, k: int)
    requires
        0 <= k <= a.len(),
        k <= b.len(),
        a.take(k) == b.take(k),
    ensures
        bytes_before(a, b) == bytes_before(a.skip(k), b.skip(k)),
    decreases k,
{
    if k == 0 {
        assert(a.skip(0) =~= a);
        assert(b.skip(0) =~= b);
    } else {
        assert(a[0] == a.take(k)[0]);
        assert(b[0] == b.take(k)[0]);
        let x = a.drop_first();
        let y = b.drop_first();
        assert(x.take(k - 1) =~= a.take(k).drop_first());
        assert(y.take(k - 1) =~= b.take(k).drop_first());
        lemma_before_common_prefix(x, y, k - 1);
        assert(x.skip(k - 1) =~= a.skip(k));
        assert(y.skip(k - 1) =~= b.skip(k));
    }
}

/// How two strings stand to each other in byte order.
#[derive(Clone, Copy, Debug, PartialEq, Eq, Structural)]
pub enum TextOrder {
    Before,
    Same,
    After,
}

/// Compares two strings by their UTF-8 bytes.
pub fn text_order(a: &str, b: &str) -> (r: TextOrder)
    ensures
        r == TextOrder::Same <==> a@ == b@,
        r == TextOrder::Before <==> text_before(a@, b@),
        r == TextOrder::After <==> text_before(b@, a@),
{
    let x: &[u8] = a.as_bytes();
    let y: &[u8] = b.as_bytes();
    let mut i: usize = 0;
    proof {
        lemma_before_irreflexive(x@);
    }
    while i < x.len() && i < y.len()
        invariant
            i <= x.len(),
            i <= y.len(),
            x@.take(i as int) == y@.take(i as int),
            x@ == encode_utf8(a@),
            y@ == encode_utf8(b@),
        decreases x.len() - i,
    {
        if x[i] != y[i] {
            proof {
                lemma_before_common_prefix(x@, y@, i as int);
                lemma_before_common_prefix(y@, x@, i as int);
                assert(x@.skip(i as int)[0] == x@[i as int]);
                assert(y@.skip(i as int)[0] == y@[i as int]);
            }
            if x[i] < y[i] {
                return TextOrder::Before;
            } else {
                return TextOrder::After;
            }
        }
        assert(x@.take(i + 1) =~= x@.take(i as int).push(x@[i as int]));
        assert(y@.take(i + 1) =~= y@.take(i as int).push(y@[i as int]));
        i = i + 1;
    }
    proof {
        lemma_before_common_prefix(x@, y@, i as int);
        lemma_before_common_prefix(y@, x@, i as int);
    }
    if x.len() == y.len() {
        proof {
            assert(x@ =~= x@.take(i as int));
            assert(y@ =~= y@.take(i as int));
            lemma_utf8_injective(a@, b@);
            lemma_before_irreflexive(x@);
        }
        TextOrder::Same
    } else if x.len() < y.len() {
        TextOrder::Before
    } else {
        TextOrder::After
    }
}

/// Whether two strings hold the same text.
pub fn same_text(a: &str, b: &str) -> (r: bool)
    ensures
        r == (a@ == b@),
{
    match text_order(a, b) {
        TextOrder::Same => true,
        TextOrder::Before => false,
        TextOrder::After => false,
    }
}

/// A fresh string with the same text.
pub fn owned(s: &str) -> (r: String)
    ensures
        r@ == s@,
{
    String::from_str(s)
}

/// The `Debug` form of a string: quoted, with escapes.
pub uninterp spec fn str_debug(s: Seq<char>) -> Seq<char>;

/// Formats a string with `Debug`.
#[verifier::external_body]
pub(crate) fn debug_text(s: &str) -> (r: String)
    ensures
        r@ == str_debug(s@),
{
    format!("{:?}", s)
}

/// Appends the bytes of a slice.
pub fn push_bytes(out: &mut Vec<u8>, bytes: &[u8])
    ensures
        final(out)@ == old(out)@ + bytes@,
{
    let mut i: usize = 0;
    while i < bytes.len()
        invariant
            i <= bytes.len(),
            out@ == old(out)@ + bytes@.take(i as int),
        decreases bytes.len() - i,
    {
        out.push(bytes[i]);
        i = i + 1;
        assert(bytes@.take(i as int) =~= bytes@.take(i - 1).push(bytes@[i - 1]));
    }
    assert(bytes@.take(i as int) =~= bytes@);
}

/// The number that a run of digits stands for.
pub open spec fn digits_value(s: Seq<char>) -> nat
    decreases s.len(),
{
    if s.len() == 0 {
        0
    } else {
        10 * digits_value(s.drop_last()) + (s.last() as nat - 48) as nat
    }
}

/// The digits of a numeral: what follows an optional plus sign.
pub open spec fn unsigned_digits(s: Seq<char>) -> Seq<char> {
    if s.len() >= 2 && s[0] == '+' {
        s.skip(1)
    } else {
        s
    }
}

/// The number that a text stands for: one or more digits, after an optional plus
/// sign, of a number that fits in 64 bits.
pub open spec fn parsed_u64(s: Seq<char>) -> Option<u64> {
    let d = unsigned_digits(s);
    if d.len() > 0 && all_digits(d) && digits_value(d) <= u64::MAX {
        Some(digits_value(d) as u64)
    } else {
        None
    }
}

/// Whether every byte is an ASCII digit.
pub open spec fn digit_bytes(b: Seq<u8>) -> bool {
    forall|i: int| 0 <= i < b.len() ==> 48 <= #[trigger] b[i] <= 57
}

/// The ASCII characters of a run of bytes.
pub open spec fn ascii_text(b: Seq<u8>) -> Seq<char> {
    Seq::new(b.len(), |i: int| b[i] as char)
}

proof fn lemma_digit_bytes(s: Seq<char>)
    ensures
        all_digits(s) <==> digit_bytes(encode_utf8(s)),
        all_digits(s) ==> s == ascii_text(encode_utf8(s)),
{
    let b = encode_utf8(s);
    if all_digits(s) {
        assert(is_ascii_chars(s));
        is_ascii_chars_encode_utf8(s);
        assert(b =~= Seq::new(s.len(), |i: int| s[i] as u8));
        assert forall|i: int| 0 <= i < b.len() implies 48 <= #[trigger] b[i] <= 57 by {
            assert('0' <= s[i] <= '9');
        }
        assert(s =~= ascii_text(b)) by {
            assert forall|i: int| 0 <= i < s.len() implies s[i] == #[trigger] ascii_text(b)[i] by {
                assert('0' <= s[i] <= '9');
                assert(b[i] == s[i] as u8);
            }
        }
    }
    if digit_bytes(b) {
        let t = ascii_text(b);
        assert(is_ascii_chars(t));
        is_ascii_chars_encode_utf8(t);
        assert(encode_utf8(t) =~= b);
        lemma_utf8_injective(s, t);
        assert forall|i: int| 0 <= i < s.len() implies '0' <= #[trigger] s[i] <= '9' by {
            assert(48 <= b[i] <= 57);
        }
    }
}

proof fn lemma_digits_value_monotone(s: Seq<char>, k: int)
    requires
        all_digits(s),
        0 <= k <= s.len(),
    ensures
        digits_value(s.take(k)) <= digits_value(s),
    decreases s.len(),
{
    if k == s.len() {
        assert(s.take(k) =~= s);
    } else {
        let front = s.drop_last();
        assert forall|i: int| 0 <= i < front.len() implies '0' <= #[trigger] front[i] <= '9' by {
            assert(front[i] == s[i]);
        }
        lemma_digits_value_monotone(front, k);
        assert(front.take(k) =~= s.take(k));
    }
}

fn digits_to_u64(b: &[u8], from: usize, s: Ghost<Seq<char>>) -> (r: Option<u64>)
    requires
        from <= b@.len(),
        digit_bytes(b@.skip(from as int)),
        s@ == ascii_text(b@.skip(from as int)),
        all_digits(s@),
    ensures
        match r {
            Some(n) => n as nat == digits_value(s@),
            None => digits_value(s@) > u64::MAX,
        },
{
    let mut n: u64 = 0;
    let mut i: usize = from;
    while i < b.len()
        invariant
            from <= i <= b@.len(),
            digit_bytes(b@.skip(from as int)),
            s@ == ascii_text(b@.skip(from as int)),
            all_digits(s@),
            n as nat == digits_value(s@.take(i - from)),
        decreases b.len() - i,
    {
        let ghost k = i - from;
        assert(b@.skip(from as int)[k] == b@[i as int]);
        let d: u64 = (b[i] - 48) as u64;
        proof {
            assert(s@.take(k + 1).drop_last() =~= s@.take(k));
            assert(s@.take(k + 1).last() == b@[i as int] as char);
            assert(digits_value(s@.take(k + 1)) == 10 * n + d);
            lemma_digits_value_monotone(s@, k + 1);
        }
        if n > (u64::MAX - d) / 10 {
            assert(10 * n + d > u64::MAX);
            return None;
        }
        n = 10 * n + d;
        i = i + 1;
    }
    assert(s@.take(i - from) =~= s@);
    Some(n)
}

/// Reads an unsigned number.
pub fn parse_u64(s: &str) -> (r: Option<u64>)
    ensures
        r == parsed_u64(s@),
{
    let b: &[u8] = s.as_bytes();
    let ghost d = unsigned_digits(s@);
    let plus = s.unicode_len() >= 2 && s.get_char(0) == '+';
    let from: usize = if plus { 1 } else { 0 };
    proof {
        if plus {
            let tail = s@.skip(1);
            assert(s@ =~= seq!['+'] + tail);
            lemma_plus_byte(tail);
            assert(b@.skip(1) =~= encode_utf8(tail));
        } else {
            assert(b@.skip(0) =~= b@);
        }
        assert(b@.skip(from as int) == encode_utf8(d));
        lemma_digit_bytes(d);
    }
    if b.len() == from {
        proof {
            if d.len() > 0 {
                if all_digits(d) {
                    assert(d == ascii_text(encode_utf8(d)));
                }
            }
        }
        return None;
    }
    let mut i: usize = from;
    while i < b.len()
        invariant
            from <= i <= b@.len(),
            b@.skip(from as int) == encode_utf8(d),
            d == unsigned_digits(s@),
            all_digits(d) <==> digit_bytes(encode_utf8(d)),
            forall|j: int| from <= j < i ==> 48 <= #[trigger] b@[j] <= 57,
        decreases b.len() - i,
    {
        if b[i] < 48 || b[i] > 57 {
            proof {
                assert(b@.skip(from as int)[i - from] == b@[i as int]);
            }
            return None;
        }
        i = i + 1;
    }
    proof {
        assert forall|j: int| 0 <= j < b@.skip(from as int).len() implies 48
            <= #[trigger] b@.skip(from as int)[j] <= 57 by {
            assert(b@.skip(from as int)[j] == b@[from + j]);
        }
        assert(digit_bytes(encode_utf8(d)));
        assert(d.len() == b@.skip(from as int).len());
    }
    digits_to_u64(b, from, Ghost(d))
}

proof fn lemma_plus_byte(tail: Seq<char>)
    ensures
        encode_utf8(seq!['+'] + tail) == seq![43u8] + encode_utf8(tail),
{
    let s = seq!['+'] + tail;
    assert(s.drop_first() =~= tail);
    assert(encode_scalar(43u32) =~= seq![43u8]) by {
        assert(has_width_1_encoding(43u32));
        assert(leading_byte_width_1(43u32) == 43u8) by {
            assert((43u32 & 0x7F) as u8 == 43u8) by (bit_vector);
        }
    }
}

/// What `str::parse::<u64>` says of a text that is not a number, as its error is
/// displayed.
pub uninterp spec fn number_error(s: Seq<char>) -> Seq<char>;

/// Displays the error of `str::parse::<u64>` on a text that is not a number.
#[verifier::external_body]
pub(crate) fn number_error_text(s: &str) -> (r: String)
    requires
        parsed_u64(s@) is None,
    ensures
        r@ == number_error(s@),
{
    match s.parse::<u64>() {
        Ok(_) => String::new(),
        Err(e) => e.to_string(),
    }
}

/// What a number prints as reads back as that number.
pub proof fn law_decimal_round_trip(n: u64)
    ensures
        parsed_u64(decimal(n as nat)) == Some(n),
{
    let s = decimal(n as nat);
    lemma_decimal_shape(n as nat);
    assert('0' <= s[0] <= '9');
    lemma_decimal_value(n as nat);
}

proof fn lemma_decimal_value(n: nat)
    ensures
        digits_value(decimal(n)) == n,
    decreases n,
{
    let s = decimal(n);
    if n < 10 {
        assert(s.drop_last() =~= Seq::<char>::empty());
        assert(digits_value(s.drop_last()) == 0);
        assert(s.last() == digit(n));
        assert(digit(n) as nat == 48 + n);
    } else {
        lemma_decimal_value(n / 10);
        assert(s.drop_last() =~= decimal(n / 10));
        assert(s.last() == digit(n % 10));
        assert(digit(n % 10) as nat == 48 + n % 10);
    }
}

/// White space in the sense of Unicode.
pub open spec fn is_white_space(c: char) -> bool {
    let n = c as u32;
    9 <= n <= 13 || n == 0x20 || n == 0x85 || n == 0xa0 || n == 0x1680 || 0x2000 <= n <= 0x200a
        || n == 0x2028 || n == 0x2029 || n == 0x202f || n == 0x205f || n == 0x3000
}

/// A text without the white space at its start.
pub open spec fn trimmed_start(s: Seq<char>) -> Seq<char>
    decreases s.len(),
{
    if s.len() > 0 && is_white_space(s[0]) {
        trimmed_start(s.drop_first())
    } else {
        s
    }
}

/// A text without the white space at its end.
pub open spec fn trimmed_end(s: Seq<char>) -> Seq<char>
    decreases s.len(),
{
    if s.len() > 0 && is_white_space(s.last()) {
        trimmed_end(s.drop_last())
    } else {
        s
    }
}

fn white_space(c: char) -> (b: bool)
    ensures
        b == is_white_space(c),
{
    let n: u32 = c as u32;
    (9 <= n && n <= 13) || n == 0x20 || n == 0x85 || n == 0xa0 || n == 0x1680 || (0x2000 <= n && n
        <= 0x200a) || n == 0x2028 || n == 0x2029 || n == 0x202f || n == 0x205f || n == 0x3000
}

/// A text without the white space around it.
pub fn trim(s: &str) -> (r: &str)
    ensures
        r@ == trimmed_end(trimmed_start(s@)),
{
    let len: usize = s.unicode_len();
    let mut from: usize = 0;
    assert(s@.skip(0) =~= s@);
    while from < len && white_space(s.get_char(from))
        invariant
            from <= len == s@.len(),
            trimmed_start(s@.skip(from as int)) == trimmed_start(s@),
        decreases len - from,
    {
        assert(s@.skip(from as int).drop_first() =~= s@.skip(from + 1));
        from = from + 1;
    }
    let ghost rest = s@.skip(from as int);
    assert(trimmed_start(s@) == rest);
    let mut to: usize = len;
    assert(s@.subrange(from as int, to as int) =~= rest);
    while to > from && white_space(s.get_char(to - 1))
        invariant
            from <= to <= len,
            len == s@.len(),
            rest == s@.skip(from as int),
            trimmed_end(s@.subrange(from as int, to as int)) == trimmed_end(rest),
        decreases to - from,
    {
        assert(s@.subrange(from as int, to as int).drop_last() =~= s@.subrange(
            from as int,
            to - 1,
        ));
        to = to - 1;
    }
    s.substring_char(from, to)
}

/// Two texts that are equal once a separator and a tail without it are added
/// are equal, and so are the tails.
pub proof fn lemma_split_last(a: Seq<char>, x: Seq<char>, b: Seq<char>, y: Seq<char>, sep: char)
    requires
        a + seq![sep] + x == b + seq![sep] + y,
        !x.contains(sep),
        !y.contains(sep),
    ensures
        a == b,
        x == y,
{
    let s = a + seq![sep] + x;
    let t = b + seq![sep] + y;
    assert(s.len() == a.len() + 1 + x.len());
    assert(t.len() == b.len() + 1 + y.len());
    if x.len() < y.len() {
        let i = a.len() as int;
        assert(s[i] == sep);
        assert(t[i] == y[i - b.len() - 1]);
        assert(y.contains(sep));
    } else if y.len() < x.len() {
        let i = b.len() as int;
        assert(t[i] == sep);
        assert(s[i] == x[i - a.len() - 1]);
        assert(x.contains(sep));
    } else {
        assert(s.take(a.len() as int) =~= a);
        assert(t.take(a.len() as int) =~= b);
        assert(s.skip(a.len() as int + 1) =~= x);
        assert(t.skip(a.len() as int + 1) =~= y);
    }
}

/// A signed number is read back from its text: a minus sign stands before it
/// exactly if it is negative, and the digits are those of its size.
pub proof fn law_signed_decimal_reads_back(n: i64)
    ensures
        ({
            let s = signed_decimal(n as int);
            let digits = if n < 0 {
                s.skip(1)
            } else {
                s
            };
            &&& n < 0 <==> s[0] == '-'
            &&& digits.len() > 0 && all_digits(digits)
            &&& digits_value(digits) == if n < 0 {
                -(n as int)
            } else {
                n as int
            }
            &&& digits.len() > 1 ==> digits[0] != '0'
        }),
{
    let m: nat = if n < 0 {
        (-(n as int)) as nat
    } else {
        n as nat
    };
    let s = signed_decimal(n as int);
    lemma_decimal_shape(m);
    lemma_decimal_value(m);
    assert('0' <= decimal(m)[0] <= '9');
    if n < 0 {
        assert(s.skip(1) =~= decimal(m));
    }
    if m == 0 {
        assert(decimal(m).len() == 1);
    }
}

/// What is trimmed off is white space, and all of it at both ends: a text is some
/// white space, the trimmed text, and more white space, and the trimmed text
/// neither starts nor ends in white space.
pub proof fn law_trim_takes_white_space_only(s: Seq<char>)
    ensures
        ({
            let t = trimmed_end(trimmed_start(s));
            &&& t.len() > 0 ==> !is_white_space(t[0]) && !is_white_space(t.last())
            &&& exists|a: int| #[trigger] trimmed_at(s, t, a)
        }),
{
    lemma_trimmed_start(s);
    let m = trimmed_start(s);
    lemma_trimmed_end(m);
    let t = trimmed_end(m);
    let a = s.len() - m.len();
    assert(s.subrange(a, a + t.len()) =~= t) by {
        assert(m =~= s.skip(a));
        assert(t =~= m.take(t.len() as int));
    }
    assert forall|i: int| a + t.len() <= i < s.len() implies is_white_space(#[trigger] s[i]) by {
        assert(m[i - a] == s[i]);
    }
    assert(trimmed_at(s, t, a));
    if t.len() > 0 {
        assert(t[0] == m[0]);
    }
}

/// Whether `t` stands at `a` in `s`, with nothing but white space around it.
pub open spec fn trimmed_at(s: Seq<char>, t: Seq<char>, a: int) -> bool {
    &&& 0 <= a
    &&& a + t.len() <= s.len()
    &&& s.subrange(a, a + t.len()) == t
    &&& forall|i: int| 0 <= i < a ==> is_white_space(#[trigger] s[i])
    &&& forall|i: int| a + t.len() <= i < s.len() ==> is_white_space(#[trigger] s[i])
}

proof fn lemma_trimmed_start(s: Seq<char>)
    ensures
        trimmed_start(s).len() <= s.len(),
        trimmed_start(s) == s.skip(s.len() - trimmed_start(s).len()),
        trimmed_start(s).len() > 0 ==> !is_white_space(trimmed_start(s)[0]),
        forall|i: int|
            0 <= i < s.len() - trimmed_start(s).len() ==> is_white_space(#[trigger] s[i]),
    decreases s.len(),
{
    if s.len() > 0 && is_white_space(s[0]) {
        let r = s.drop_first();
        lemma_trimmed_start(r);
        assert(trimmed_start(s) =~= s.skip(s.len() - trimmed_start(s).len()));
        assert forall|i: int| 0 <= i < s.len() - trimmed_start(s).len() implies is_white_space(
            #[trigger] s[i],
        ) by {
            if i > 0 {
                assert(r[i - 1] == s[i]);
            }
        }
    } else {
        assert(s.skip(0) =~= s);
    }
}

proof fn lemma_trimmed_end(s: Seq<char>)
    ensures
        trimmed_end(s).len() <= s.len(),
        trimmed_end(s) == s.take(trimmed_end(s).len() as int),
        trimmed_end(s).len() > 0 ==> !is_white_space(trimmed_end(s).last()),
        forall|i: int| trimmed_end(s).len() <= i < s.len() ==> is_white_space(#[trigger] s[i]),
    decreases s.len(),
{
    if s.len() > 0 && is_white_space(s.last()) {
        let r = s.drop_last();
        lemma_trimmed_end(r);
        assert(trimmed_end(s) =~= s.take(trimmed_end(s).len() as int));
        assert forall|i: int| trimmed_end(s).len() <= i < s.len() implies is_white_space(
            #[trigger] s[i],
        ) by {
            if i < s.len() - 1 {
                assert(r[i] == s[i]);
            }
        }
    } else {
        assert(s.take(s.len() as int) =~= s);
    }
}

/// A numeral reads as its number, with leading zeros and a plus sign or without,
/// if the number fits in 64 bits; a larger one does not read.
pub proof fn law_numerals_read_as_their_number(n: nat, leading: nat)
    ensures
        parsed_u64(zeros(leading) + decimal(n)) == if n <= u64::MAX {
            Some(n as u64)
        } else {
            None
        },
        parsed_u64(seq!['+'] + zeros(leading) + decimal(n)) == if n <= u64::MAX {
            Some(n as u64)
        } else {
            None
        },
    decreases leading,
{
    let s = zeros(leading) + decimal(n);
    lemma_decimal_shape(n);
    lemma_leading_zeros(decimal(n), leading);
    lemma_decimal_value(n);
    assert forall|i: int| 0 <= i < s.len() implies '0' <= #[trigger] s[i] <= '9' by {
        if i >= leading {
            assert(s[i] == decimal(n)[i - leading]);
        }
    }
    assert('0' <= s[0] <= '9');
    let p = seq!['+'] + zeros(leading) + decimal(n);
    assert(p.skip(1) =~= s);
}

proof fn lemma_leading_zeros(s: Seq<char>, leading: nat)
    ensures
        digits_value(zeros(leading) + s) == digits_value(s),
    decreases leading + s.len(),
{
    let all = zeros(leading) + s;
    if s.len() > 0 {
        assert(all.drop_last() =~= zeros(leading) + s.drop_last());
        lemma_leading_zeros(s.drop_last(), leading);
        assert(all.last() == s.last());
    } else if leading > 0 {
        assert(all =~= zeros(leading));
        assert(all.drop_last() =~= zeros((leading - 1) as nat) + s);
        lemma_leading_zeros(s, (leading - 1) as nat);
        assert(all.last() == '0');
        assert('0' as nat == 48);
    } else {
        assert(all =~= s);
    }
}

/// A text that holds anything but digits, apart from a plus sign before them, or
/// that holds no digit, does not read as a number.
pub proof fn law_only_numerals_read(s: Seq<char>, i: int)
    ensures
        s.len() == 0 ==> parsed_u64(s) is None,
        s == seq!['+'] ==> parsed_u64(s) is None,
        0 < i < s.len() && !('0' <= s[i] <= '9') ==> parsed_u64(s) is None,
        s.len() > 0 && s[0] != '+' && !('0' <= s[0] <= '9') ==> parsed_u64(s) is None,
{
    let d = unsigned_digits(s);
    if 0 < i < s.len() && !('0' <= s[i] <= '9') {
        if s[0] == '+' {
            assert(d[i - 1] == s[i]);
        } else {
            assert(d[i] == s[i]);
        }
    }
    if s == seq!['+'] {
        assert(s[0] == '+');
        assert(d[0] == '+');
    }
    if s.len() > 0 && s[0] != '+' && !('0' <= s[0] <= '9') {
        assert(d[0] == s[0]);
    }
}

/// Byte strings are ordered by the first byte in which they differ; one that ends before
/// that comes first, and none comes before itself.
pub proof fn law_order_of_byte_strings(a: Seq<u8>, b: Seq<u8>, common: Seq<u8>)
    ensures
        !bytes_before(a, a),
        b.len() > 0 ==> bytes_before(a, a + b),
        !bytes_before(a + b, a),
        a.len() > 0 && b.len() > 0 && a[0] < b[0] ==> bytes_before(common + a, common + b)
            && !bytes_before(common + b, common + a),
{
    lemma_before_irreflexive(a);
    lemma_before_common_head(a, Seq::empty(), b);
    lemma_before_common_head(a, b, Seq::empty());
    assert(a + Seq::<u8>::empty() =~= a);
    lemma_before_common_head(common, a, b);
    lemma_before_common_head(common, b, a);
}

proof fn lemma_before_common_head(head: Seq<u8>, a: Seq<u8>, b: Seq<u8>)
    ensures
        bytes_before(head + a, head + b) == bytes_before(a, b),
    decreases head.len(),
{
    if head.len() == 0 {
        assert(head + a =~= a);
        assert(head + b =~= b);
    } else {
        let rest = head.drop_first();
        lemma_before_common_head(rest, a, b);
        assert((head + a).drop_first() =~= rest + a);
        assert((head + b).drop_first() =~= rest + b);
    }
}

/// A padded number is its digits behind as many zeros as are missing to the width, and
/// reads as the number.
pub proof fn law_padded_number_reads_back(n: nat, width: nat)
    ensures
        padded(n, width).len() >= width,
        decimal(n).len() <= width ==> padded(n, width).len() == width,
        all_digits(padded(n, width)),
        digits_value(padded(n, width)) == n,
        decimal(n).len() > width ==> padded(n, width) == decimal(n),
{
    lemma_decimal_shape(n);
    lemma_decimal_value(n);
    let body = decimal(n);
    if body.len() < width {
        let count = (width - body.len()) as nat;
        lemma_leading_zeros(body, count);
        assert forall|i: int| 0 <= i < padded(n, width).len() implies '0' <= #[trigger] padded(
            n,
            width,
        )[i] <= '9' by {
            if i >= count {
                assert(padded(n, width)[i] == body[i - count]);
            }
        }
    }
}

} // verus!
