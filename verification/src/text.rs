//! Text helpers shared by the other modules: ASCII case folding, UTF-8
//! facts, byte-wise ordering and decimal rendering.

use vstd::prelude::*;
use vstd::string::StringSliceAdditionalSpecFns;
use vstd::utf8::*;

verus! {

/// The space character, as a byte.
pub const SPACE: u8 = 0x20;

/// The dot, as a byte.
pub const DOT: u8 = 0x2e;

/// The slash, as a byte.
pub const SLASH: u8 = 0x2f;

/// The carriage return, as a byte.
pub const CARRIAGE_RETURN: u8 = 0x0d;

/// The text behind an optional string slice.
pub open spec fn text_of(s: Option<&str>) -> Option<Seq<char>> {
    match s {
        Some(s) => Some(s@),
        None => None,
    }
}

/// The texts that a sequence of strings holds.
pub open spec fn texts(strings: Seq<String>) -> Seq<Seq<char>> {
    Seq::new(strings.len(), |i: int| strings[i]@)
}

/// The ASCII lower-case form of a character; characters other than `A`-`Z`
/// are left alone.
pub open spec fn lower(c: char) -> char {
    if 'A' <= c && c <= 'Z' {
        ((c as u32) + 32) as char
    } else {
        c
    }
}

/// A text with every character replaced by its ASCII lower-case form.
pub open spec fn lowered(s: Seq<char>) -> Seq<char> {
    Seq::new(s.len(), |i: int| lower(s[i]))
}

/// The ASCII lower-case form of a byte; bytes other than `A`-`Z` are left
/// alone.
pub open spec fn lower_byte(b: u8) -> u8 {
    if 0x41 <= b && b <= 0x5a {
        (b + 0x20) as u8
    } else {
        b
    }
}

/// A byte string with every byte replaced by its ASCII lower-case form.
pub open spec fn lowered_bytes(s: Seq<u8>) -> Seq<u8> {
    Seq::new(s.len(), |i: int| lower_byte(s[i]))
}

/// The encoding of a text is the encoding of its first character followed
/// by the encoding of the rest, so encoding distributes over concatenation.
pub proof fn lemma_encode_concat(a: Seq<char>, b: Seq<char>)
    ensures
        encode_utf8(a + b) == encode_utf8(a) + encode_utf8(b),
    decreases a.len(),
{
    if a.len() == 0 {
        assert(a + b =~= b);
        assert(encode_utf8(a) + encode_utf8(b) =~= encode_utf8(b));
    } else {
        assert((a + b).drop_first() =~= a.drop_first() + b);
        lemma_encode_concat(a.drop_first(), b);
        assert(encode_utf8(a + b) =~= encode_utf8(a) + encode_utf8(b));
    }
}

/// Two texts with the same encoding are the same text.
pub proof fn lemma_encode_injective(a: Seq<char>, b: Seq<char>)
    requires
        encode_utf8(a) == encode_utf8(b),
    ensures
        a == b,
{
    encode_utf8_decode_utf8(a);
    encode_utf8_decode_utf8(b);
}

/// Leading bytes of longer encodings and continuation bytes are no ASCII.
proof fn lemma_multibyte_high(v: u32)
    by (bit_vector)
    ensures
        0xC0u8 | ((v >> 6) & 0x1F) as u8 >= 0x80,
        0xE0u8 | ((v >> 12) & 0x0F) as u8 >= 0x80,
        0xF0u8 | ((v >> 18) & 0x7) as u8 >= 0x80,
        0x80u8 | (v & 0x3F) as u8 >= 0x80,
        0x80u8 | ((v >> 6) & 0x3F) as u8 >= 0x80,
        0x80u8 | ((v >> 12) & 0x3F) as u8 >= 0x80,
{
}

/// The one byte that encodes an ASCII character is the character's number.
proof fn lemma_single_byte(v: u32)
    by (bit_vector)
    requires
        v <= 0x7f,
    ensures
        (v & 0x7F) as u8 == v as u8,
        (v & 0x7F) as u8 <= 0x7f,
{
}

/// The encoding of one character: a single byte equal to the character for
/// ASCII, and bytes of `0x80` and above otherwise.
pub proof fn lemma_encode_scalar_bytes(c: char)
    ensures
        c as u32 <= 0x7f ==> encode_scalar(c as u32) == seq![c as u8] && c as u8 == c as u32,
        c as u32 > 0x7f ==> forall|i: int|
            0 <= i < encode_scalar(c as u32).len() ==> #[trigger] encode_scalar(c as u32)[i]
                >= 0x80,
        encode_scalar(c as u32).len() >= 1,
        (c as u32 <= 0x7f) == (c <= '\u{7f}'),
{
    let v = c as u32;
    char_is_scalar(c);
    lemma_multibyte_high(v);
    if v <= 0x7f {
        lemma_single_byte(v);
    }
}

/// Lower-casing a text and then encoding it gives the encoding of the text
/// with its bytes lower-cased.
pub proof fn lemma_lowered_encoding(s: Seq<char>)
    ensures
        encode_utf8(lowered(s)) == lowered_bytes(encode_utf8(s)),
    decreases s.len(),
{
    if s.len() == 0 {
        assert(lowered(s) =~= s);
        assert(lowered_bytes(encode_utf8(s)) =~= encode_utf8(s));
    } else {
        let c = s[0];
        let rest = s.drop_first();
        lemma_lowered_encoding(rest);
        lemma_encode_scalar_bytes(c);
        lemma_encode_scalar_bytes(lower(c));
        assert(lowered(s).drop_first() =~= lowered(rest));
        assert(lowered(s)[0] == lower(c));
        assert(lowered_bytes(encode_scalar(c as u32)) =~= encode_scalar(lower(c) as u32));
        assert(lowered_bytes(encode_utf8(s)) =~= lowered_bytes(encode_scalar(c as u32))
            + lowered_bytes(encode_utf8(rest)));
    }
}

/// Whether two texts are the same.
pub fn same(a: &str, b: &str) -> (r: bool)
    ensures
        r == (a@ == b@),
{
    let x = a.as_bytes();
    let y = b.as_bytes();
    proof {
        if a@ != b@ && encode_utf8(a@) == encode_utf8(b@) {
            lemma_encode_injective(a@, b@);
        }
    }
    if x.len() != y.len() {
        return false;
    }
    let mut i: usize = 0;
    while i < x.len()
        invariant
            i <= x.len(),
            x.len() == y.len(),
            (a@ == b@) == (x@ == y@),
            forall|j: int| 0 <= j < i ==> x@[j] == y@[j],
        decreases x.len() - i,
    {
        if x[i] != y[i] {
            return false;
        }
        i += 1;
    }
    assert(x@ =~= y@);
    true
}

/// The ASCII lower-case form of `b`.
pub fn to_lower(b: u8) -> (r: u8)
    ensures
        r == lower_byte(b),
{
    if 0x41 <= b && b <= 0x5a {
        b + 0x20
    } else {
        b
    }
}

/// Whether `text`, with its ASCII letters lower-cased, reads exactly `key`.
pub fn lowered_is(text: &str, key: &str) -> (r: bool)
    ensures
        r == (lowered(text@) == key@),
{
    let a = text.as_bytes();
    let k = key.as_bytes();
    proof {
        lemma_lowered_encoding(text@);
        if lowered(text@) != key@ && encode_utf8(lowered(text@)) == encode_utf8(key@) {
            lemma_encode_injective(lowered(text@), key@);
        }
    }
    if a.len() != k.len() {
        return false;
    }
    let mut i: usize = 0;
    while i < a.len()
        invariant
            i <= a.len(),
            a.len() == k.len(),
            (lowered(text@) == key@) == (lowered_bytes(a@) == k@),
            forall|j: int| 0 <= j < i ==> lower_byte(a@[j]) == k@[j],
        decreases a.len() - i,
    {
        if to_lower(a[i]) != k[i] {
            assert(lowered_bytes(a@)[i as int] != k@[i as int]);
            return false;
        }
        i += 1;
    }
    assert(lowered_bytes(a@) =~= k@);
    true
}

/// The ASCII digit for `d`, which is below ten.
pub open spec fn digit(d: nat) -> u8 {
    (0x30 + d) as u8
}

/// The decimal numeral for `n`, without leading zeros.
pub open spec fn decimal(n: nat) -> Seq<u8>
    decreases n,
{
    if n < 10 {
        seq![digit(n)]
    } else {
        decimal(n / 10).push(digit(n % 10))
    }
}

/// Renders `n` as a decimal numeral.
pub fn decimal_digits(n: usize) -> (r: Vec<u8>)
    ensures
        r@ == decimal(n as nat),
    decreases n,
{
    if n < 10 {
        let mut digits = Vec::new();
        digits.push(0x30u8 + n as u8);
        assert(digits@ =~= seq![digit(n as nat)]);
        digits
    } else {
        let mut digits = decimal_digits(n / 10);
        digits.push(0x30u8 + (n % 10) as u8);
        digits
    }
}

/// The number that a string of decimal digits stands for.
pub open spec fn value(digits: Seq<u8>) -> nat
    decreases digits.len(),
{
    if digits.len() == 0 {
        0
    } else {
        value(digits.drop_last()) * 10 + (digits.last() - 0x30) as nat
    }
}

/// A decimal numeral is made of digits, starts with a zero only when it is
/// the single digit zero, and stands for the number it was made from.
pub proof fn lemma_decimal(n: nat)
    ensures
        decimal(n).len() >= 1,
        forall|i: int| 0 <= i < decimal(n).len() ==> 0x30 <= #[trigger] decimal(n)[i] <= 0x39,
        decimal(n).first() == 0x30 ==> n == 0,
        value(decimal(n)) == n,
    decreases n,
{
    if n < 10 {
        assert(decimal(n).drop_last() =~= Seq::<u8>::empty());
        assert(value(Seq::<u8>::empty()) == 0);
        assert(decimal(n).last() == digit(n));
    } else {
        lemma_decimal(n / 10);
        assert(decimal(n).drop_last() =~= decimal(n / 10));
        assert(decimal(n).last() == digit(n % 10));
    }
}

/// The items of `parts` in order, with `separator` between neighbours.
pub open spec fn joined(parts: Seq<Seq<u8>>, separator: Seq<u8>) -> Seq<u8>
    decreases parts.len(),
{
    if parts.len() == 0 {
        Seq::empty()
    } else if parts.len() == 1 {
        parts[0]
    } else {
        joined(parts.drop_last(), separator) + separator + parts.last()
    }
}

/// Joining the first `k` parts gives a prefix of joining them all.
pub proof fn lemma_joined_prefix(parts: Seq<Seq<u8>>, separator: Seq<u8>, k: int)
    requires
        0 <= k <= parts.len(),
    ensures
        joined(parts.take(k), separator).is_prefix_of(joined(parts, separator)),
    decreases parts.len() - k,
{
    if k == parts.len() {
        assert(parts.take(k) =~= parts);
    } else {
        lemma_joined_prefix(parts, separator, k + 1);
        assert(parts.take(k + 1).drop_last() =~= parts.take(k));
        if k == 0 {
            assert(joined(parts.take(k), separator) =~= Seq::<u8>::empty());
        }
    }
}

/// The encoding of a non-empty text starts with the encoding of its first
/// character and ends with the encoding of its last.
pub proof fn lemma_encode_ends(s: Seq<char>)
    requires
        s.len() > 0,
    ensures
        encode_utf8(s) == encode_scalar(s.first() as u32) + encode_utf8(s.drop_first()),
        encode_utf8(s) == encode_utf8(s.drop_last()) + encode_scalar(s.last() as u32),
{
    let last = seq![s.last()];
    assert(s =~= s.drop_last() + last);
    lemma_encode_concat(s.drop_last(), last);
    assert(last.drop_first() =~= Seq::<char>::empty());
    assert(encode_utf8(last.drop_first()) =~= Seq::<u8>::empty());
    assert(encode_utf8(last) =~= encode_scalar(s.last() as u32));
}

/// A character is the dot or the slash exactly when its number is that of
/// the byte.
proof fn lemma_dot_and_slash(c: char)
    ensures
        (c == '.') == (c as u32 == DOT as u32),
        (c == '/') == (c as u32 == SLASH as u32),
{
}

/// Whether `text` starts with a dot.
pub fn starts_with_dot(text: &str) -> (r: bool)
    ensures
        r == (text@.len() > 0 && text@.first() == '.'),
{
    let bytes = text.as_bytes();
    proof {
        if text@.len() > 0 {
            lemma_encode_ends(text@);
            lemma_encode_scalar_bytes(text@.first());
            lemma_dot_and_slash(text@.first());
            assert(bytes@[0] == encode_scalar(text@.first() as u32)[0]);
        }
    }
    bytes.len() > 0 && bytes[0] == DOT
}

/// Whether `text` ends with a slash.
pub fn ends_with_slash(text: &str) -> (r: bool)
    ensures
        r == (text@.len() > 0 && text@.last() == '/'),
{
    let bytes = text.as_bytes();
    proof {
        if text@.len() > 0 {
            lemma_encode_ends(text@);
            lemma_encode_scalar_bytes(text@.last());
            lemma_dot_and_slash(text@.last());
            let tail = encode_scalar(text@.last() as u32);
            assert(bytes@.last() == tail.last());
        }
    }
    bytes.len() > 0 && bytes[bytes.len() - 1] == SLASH
}

/// How many bytes of `s` stand before the first `stop`: the whole length
/// when there is none.
pub open spec fn position(s: Seq<u8>, stop: u8) -> int
    decreases s.len(),
{
    if s.len() == 0 || s[0] == stop {
        0
    } else {
        1 + position(s.drop_first(), stop)
    }
}

/// The bytes of `s` that stand before the first `stop`.
pub open spec fn until(s: Seq<u8>, stop: u8) -> Seq<u8> {
    s.take(position(s, stop))
}

/// `position` is the one index that has no `stop` before it and either
/// holds a `stop` or is the length.
pub proof fn lemma_position(s: Seq<u8>, stop: u8, k: int)
    requires
        0 <= k <= s.len(),
        forall|i: int| 0 <= i < k ==> s[i] != stop,
        k < s.len() ==> s[k] == stop,
    ensures
        position(s, stop) == k,
    decreases s.len(),
{
    if k > 0 {
        let rest = s.drop_first();
        assert forall|i: int| 0 <= i < k - 1 implies rest[i] != stop by {
            assert(rest[i] == s[i + 1]);
        }
        lemma_position(rest, stop, k - 1);
    }
}

/// Finds the first `stop` in `s`; gives the length when there is none.
pub fn find(s: &[u8], stop: u8) -> (k: usize)
    ensures
        k == position(s@, stop),
        k <= s@.len(),
{
    let mut k: usize = 0;
    while k < s.len() && s[k] != stop
        invariant
            k <= s.len(),
            forall|i: int| 0 <= i < k ==> s@[i] != stop,
        decreases s.len() - k,
    {
        k += 1;
    }
    proof {
        lemma_position(s@, stop, k as int);
    }
    k
}

/// Byte-wise lexicographic order: `a` comes no later than `b`.
pub open spec fn bytes_le(a: Seq<u8>, b: Seq<u8>) -> bool
    decreases a.len(),
{
    if a.len() == 0 {
        true
    } else if b.len() == 0 {
        false
    } else if a[0] != b[0] {
        a[0] < b[0]
    } else {
        bytes_le(a.drop_first(), b.drop_first())
    }
}

/// The order of texts by the bytes of their encoding.
pub open spec fn text_le(a: Seq<char>, b: Seq<char>) -> bool {
    bytes_le(encode_utf8(a), encode_utf8(b))
}

/// The order of texts as a relation.
pub open spec fn by_bytes() -> spec_fn(Seq<char>, Seq<char>) -> bool {
    |a: Seq<char>, b: Seq<char>| text_le(a, b)
}

/// Every byte string comes no later than itself.
proof fn lemma_bytes_le_reflexive(a: Seq<u8>)
    ensures
        bytes_le(a, a),
    decreases a.len(),
{
    if a.len() > 0 {
        lemma_bytes_le_reflexive(a.drop_first());
    }
}

/// Byte strings that come no later than each other are the same.
proof fn lemma_bytes_le_antisymmetric(a: Seq<u8>, b: Seq<u8>)
    requires
        bytes_le(a, b),
        bytes_le(b, a),
    ensures
        a == b,
    decreases a.len(),
{
    if a.len() > 0 && b.len() > 0 {
        lemma_bytes_le_antisymmetric(a.drop_first(), b.drop_first());
        assert(a =~= seq![a[0]] + a.drop_first());
        assert(b =~= seq![b[0]] + b.drop_first());
    } else {
        assert(a =~= b);
    }
}

/// What comes no later than a second byte string comes no later than all
/// that the second comes no later than.
proof fn lemma_bytes_le_transitive(a: Seq<u8>, b: Seq<u8>, c: Seq<u8>)
    requires
        bytes_le(a, b),
        bytes_le(b, c),
    ensures
        bytes_le(a, c),
    decreases a.len(),
{
    if a.len() > 0 && b.len() > 0 && c.len() > 0 && a[0] == b[0] && b[0] == c[0] {
        lemma_bytes_le_transitive(a.drop_first(), b.drop_first(), c.drop_first());
    }
}

/// Of two byte strings one comes no later than the other.
proof fn lemma_bytes_le_total(a: Seq<u8>, b: Seq<u8>)
    ensures
        bytes_le(a, b) || bytes_le(b, a),
    decreases a.len(),
{
    if a.len() > 0 && b.len() > 0 && a[0] == b[0] {
        lemma_bytes_le_total(a.drop_first(), b.drop_first());
    }
}

/// The byte-wise order of texts is a total order.
pub proof fn lemma_by_bytes_total_order()
    ensures
        vstd::relations::total_ordering(by_bytes()),
{
    let le = by_bytes();
    assert forall|a: Seq<char>| #[trigger] le(a, a) by {
        lemma_bytes_le_reflexive(encode_utf8(a));
    }
    assert forall|a: Seq<char>, b: Seq<char>| #[trigger] le(a, b) && #[trigger] le(b, a) implies a
        == b by {
        lemma_bytes_le_antisymmetric(encode_utf8(a), encode_utf8(b));
        lemma_encode_injective(a, b);
    }
    assert forall|a: Seq<char>, b: Seq<char>, c: Seq<char>|
        #[trigger] le(a, b) && #[trigger] le(b, c) implies le(a, c) by {
        lemma_bytes_le_transitive(encode_utf8(a), encode_utf8(b), encode_utf8(c));
    }
    assert forall|a: Seq<char>, b: Seq<char>| #[trigger] le(a, b) || #[trigger] le(b, a) by {
        lemma_bytes_le_total(encode_utf8(a), encode_utf8(b));
    }
}

/// Two byte strings that agree on their first `k` bytes compare as what
/// follows those bytes.
proof fn lemma_bytes_le_skip(a: Seq<u8>, b: Seq<u8>, k: int)
    requires
        0 <= k <= a.len(),
        k <= b.len(),
        forall|i: int| 0 <= i < k ==> a[i] == b[i],
    ensures
        bytes_le(a, b) == bytes_le(a.skip(k), b.skip(k)),
    decreases k,
{
    if k == 0 {
        assert(a.skip(0) =~= a);
        assert(b.skip(0) =~= b);
    } else {
        let ra = a.drop_first();
        let rb = b.drop_first();
        assert forall|i: int| 0 <= i < k - 1 implies ra[i] == rb[i] by {
            assert(ra[i] == a[i + 1] && rb[i] == b[i + 1]);
        }
        lemma_bytes_le_skip(ra, rb, k - 1);
        assert(ra.skip(k - 1) =~= a.skip(k));
        assert(rb.skip(k - 1) =~= b.skip(k));
    }
}

/// Whether `a` comes no later than `b` in byte-wise order.
pub fn le(a: &str, b: &str) -> (r: bool)
    ensures
        r == text_le(a@, b@),
{
    let x = a.as_bytes();
    let y = b.as_bytes();
    let mut k: usize = 0;
    while k < x.len() && k < y.len() && x[k] == y[k]
        invariant
            k <= x.len(),
            k <= y.len(),
            forall|i: int| 0 <= i < k ==> x@[i] == y@[i],
        decreases x.len() - k,
    {
        k += 1;
    }
    proof {
        lemma_bytes_le_skip(x@, y@, k as int);
    }
    if k == x.len() {
        true
    } else if k == y.len() {
        false
    } else {
        x[k] < y[k]
    }
}

} // verus!

verus! {

/// `core::str::Utf8Error`, of which nothing is looked at.
#[verifier::external_type_specification]
#[verifier::external_body]
pub struct ExUtf8Error(core::str::Utf8Error);

/// `core::str::from_utf8` succeeds exactly on well-formed UTF-8.
pub assume_specification[ core::str::from_utf8 ](v: &[u8]) -> (r: Result<&str, core::str::Utf8Error>)
    ensures
        r is Ok <==> valid_utf8(v@),
;

/// What `String::from_utf8_lossy` makes of a byte string.
pub uninterp spec fn lossy(bytes: Seq<u8>) -> Seq<char>;

/// `String::from_utf8_lossy` decodes `bytes`, putting U+FFFD in place of
/// whatever is not well-formed UTF-8; well-formed input is decoded as it
/// stands.
#[verifier::external_body]
pub(crate) fn decode_lossy(bytes: &[u8]) -> (r: String)
    ensures
        r@ == lossy(bytes@),
        valid_utf8(bytes@) ==> r@ == decode_utf8(bytes@),
{
    String::from_utf8_lossy(bytes).into_owned()
}

/// Whether a character is white space, which is to say whether it has the
/// property `White_Space` of Unicode: the tab, the line feed, the vertical
/// tab, the form feed, the carriage return, the space, the next-line
/// character, and the spaces and separators beyond ASCII.
pub open spec fn white_space(c: char) -> bool {
    let n = c as u32;
    ||| 0x09 <= n <= 0x0d
    ||| n == 0x20
    ||| n == 0x85
    ||| n == 0xa0
    ||| n == 0x1680
    ||| 0x2000 <= n <= 0x200a
    ||| n == 0x2028
    ||| n == 0x2029
    ||| n == 0x202f
    ||| n == 0x205f
    ||| n == 0x3000
}

/// A text without the white space it starts with.
pub open spec fn trimmed_start(text: Seq<char>) -> Seq<char>
    decreases text.len(),
{
    if text.len() > 0 && white_space(text.first()) {
        trimmed_start(text.drop_first())
    } else {
        text
    }
}

/// A text without the white space it ends with.
pub open spec fn trimmed_end(text: Seq<char>) -> Seq<char>
    decreases text.len(),
{
    if text.len() > 0 && white_space(text.last()) {
        trimmed_end(text.drop_last())
    } else {
        text
    }
}

/// A text without the white space at its two ends.
pub open spec fn trimmed(text: Seq<char>) -> Seq<char> {
    trimmed_end(trimmed_start(text))
}

/// `str::trim` gives the text without the white space at its two ends,
/// white space being the characters with the Unicode property
/// `White_Space`.
pub assume_specification[ str::trim ](s: &str) -> (r: &str)
    ensures
        r@ == trimmed(s@),
;

/// What is left of a text without the white space it starts with: a part
/// of the text that reaches to its end and does not start with white space.
proof fn lemma_trimmed_start(text: Seq<char>)
    ensures
        exists|from: int|
            0 <= from <= text.len() && trimmed_start(text) == #[trigger] text.subrange(
                from,
                text.len() as int,
            ),
        trimmed_start(text).len() > 0 ==> !white_space(trimmed_start(text).first()),
    decreases text.len(),
{
    if text.len() > 0 && white_space(text.first()) {
        let rest = text.drop_first();
        lemma_trimmed_start(rest);
        let from = choose|from: int|
            0 <= from <= rest.len() && trimmed_start(rest) == #[trigger] rest.subrange(
                from,
                rest.len() as int,
            );
        assert(rest.subrange(from, rest.len() as int) =~= text.subrange(
            from + 1,
            text.len() as int,
        ));
    } else {
        assert(text =~= text.subrange(0, text.len() as int));
    }
}

/// What is left of a text without the white space it ends with: a part of
/// the text that starts where the text starts and does not end with white
/// space.
proof fn lemma_trimmed_end(text: Seq<char>)
    ensures
        exists|to: int| 0 <= to <= text.len() && trimmed_end(text) == #[trigger] text.subrange(0, to),
        trimmed_end(text).len() > 0 ==> !white_space(trimmed_end(text).last()),
    decreases text.len(),
{
    if text.len() > 0 && white_space(text.last()) {
        let rest = text.drop_last();
        lemma_trimmed_end(rest);
        let to = choose|to: int|
            0 <= to <= rest.len() && trimmed_end(rest) == #[trigger] rest.subrange(0, to);
        assert(rest.subrange(0, to) =~= text.subrange(0, to));
    } else {
        assert(text =~= text.subrange(0, text.len() as int));
    }
}

/// A trimmed text is one part of the text it was made from, with white
/// space at neither end; a text with white space at neither end is left as
/// it is.
pub proof fn lemma_trimmed(text: Seq<char>)
    ensures
        exists|from: int, to: int|
            0 <= from <= to <= text.len() && trimmed(text) == #[trigger] text.subrange(from, to),
        trimmed(text).len() > 0 ==> !white_space(trimmed(text).first()) && !white_space(
            trimmed(text).last(),
        ),
        text.len() == 0 || (!white_space(text.first()) && !white_space(text.last())) ==> trimmed(
            text,
        ) == text,
{
    lemma_trimmed_start(text);
    let stripped = trimmed_start(text);
    lemma_trimmed_end(stripped);
    let from = choose|from: int|
        0 <= from <= text.len() && stripped == #[trigger] text.subrange(from, text.len() as int);
    let to = choose|to: int|
        0 <= to <= stripped.len() && trimmed_end(stripped) == #[trigger] stripped.subrange(0, to);
    assert(stripped.subrange(0, to) =~= text.subrange(from, from + to));
    if trimmed(text).len() > 0 {
        assert(trimmed(text).first() == stripped.first());
    }
}

} // verus!
