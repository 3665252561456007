//! Text helpers with exact specifications: the byte order of keys, Unicode
//! white space, decimal and hexadecimal rendering, little-endian bytes.
use vstd::prelude::*;
use vstd::utf8::*;

verus! {

// ---------------------------------------------------------------------------
// Digits
// ---------------------------------------------------------------------------

/// The digit character of a value below 16 (lower-case hexadecimal).
pub open spec fn hex_char(n: int) -> char {
    if n < 10 {
        (('0' as int) + n) as char
    } else {
        (('a' as int) + (n - 10)) as char
    }
}

/// Returns the one-character text of a hexadecimal digit.
pub fn hex_digit_text(n: u64) -> (s: &'static str)
    requires
        n < 16,
    ensures
        s@ == seq![hex_char(n as int)],
{
    proof {
        reveal_strlit("0");
        reveal_strlit("1");
        reveal_strlit("2");
        reveal_strlit("3");
        reveal_strlit("4");
        reveal_strlit("5");
        reveal_strlit("6");
        reveal_strlit("7");
        reveal_strlit("8");
        reveal_strlit("9");
        reveal_strlit("a");
        reveal_strlit("b");
        reveal_strlit("c");
        reveal_strlit("d");
        reveal_strlit("e");
        reveal_strlit("f");
    }
    match n {
        0 => "0",
        1 => "1",
        2 => "2",
        3 => "3",
        4 => "4",
        5 => "5",
        6 => "6",
        7 => "7",
        8 => "8",
        9 => "9",
        10 => "a",
        11 => "b",
        12 => "c",
        13 => "d",
        14 => "e",
        _ => "f",
    }
}

/// The decimal rendering of a natural number, without sign or leading zeros.
pub open spec fn decimal(n: nat) -> Seq<char>
    decreases n,
{
    if n < 10 {
        seq![hex_char(n as int)]
    } else {
        decimal(n / 10).push(hex_char((n % 10) as int))
    }
}

/// Renders an unsigned integer in decimal, as `to_string` does.
pub fn decimal_text(n: u128) -> (s: String)
    ensures
        s@ == decimal(n as nat),
    decreases n,
{
    if n < 10 {
        hex_digit_text(n as u64).to_owned()
    } else {
        let mut s = decimal_text(n / 10);
        s.append(hex_digit_text((n % 10) as u64));
        s
    }
}

/// The `i`-th of the sixteen hexadecimal digits of `x`, most significant first.
pub open spec fn hex_digit_of(x: u64, i: int) -> char {
    hex_char(((x >> ((60 - 4 * i) as u64)) & 0xf) as int)
}

/// The sixteen-digit, zero-padded, lower-case hexadecimal rendering of `x`
/// (what `format!("{:016x}", x)` gives).
pub open spec fn hex16(x: u64) -> Seq<char> {
    Seq::new(16, |i: int| hex_digit_of(x, i))
}

/// Renders `x` as sixteen zero-padded lower-case hexadecimal digits.
pub fn hex16_text(x: u64) -> (s: String)
    ensures
        s@ == hex16(x),
{
    let mut s = String::new();
    let mut i: u64 = 0;
    while i < 16
        invariant
            i <= 16,
            s@.len() == i,
            forall|j: int| 0 <= j < i ==> s@[j] == hex_digit_of(x, j),
        decreases 16 - i,
    {
        let shift: u64 = 60 - 4 * i;
        let nibble: u64 = (x >> shift) & 0xf;
        assert(nibble < 16) by (bit_vector)
            requires
                nibble == (x >> shift) & 0xf,
        ;
        s.append(hex_digit_text(nibble));
        i = i + 1;
    }
    assert(s@ =~= hex16(x));
    s
}

/// Whether a character is a hexadecimal digit as rendered here.
pub open spec fn is_lower_hex(c: char) -> bool {
    ('0' <= c && c <= '9') || ('a' <= c && c <= 'f')
}

pub proof fn lemma_hex16_is_hex(x: u64)
    ensures
        hex16(x).len() == 16,
        forall|i: int| 0 <= i < 16 ==> is_lower_hex(#[trigger] hex16(x)[i]),
{
    assert forall|i: int| 0 <= i < 16 implies is_lower_hex(#[trigger] hex16(x)[i]) by {
        let sh = (60 - 4 * i) as u64;
        let n = (x >> sh) & 0xf;
        assert(n < 16) by (bit_vector)
            requires
                n == (x >> sh) & 0xf,
        ;
    }
}

// ---------------------------------------------------------------------------
// Little-endian bytes
// ---------------------------------------------------------------------------

/// The eight little-endian bytes of `x` (what `x.to_le_bytes()` gives).
pub open spec fn le_bytes(x: u64) -> Seq<u8> {
    Seq::new(8, |i: int| ((x >> ((8 * i) as u64)) & 0xff) as u8)
}

/// Returns the little-endian bytes of `x`.
pub fn le_bytes_vec(x: u64) -> (v: Vec<u8>)
    ensures
        v@ == le_bytes(x),
{
    let mut v: Vec<u8> = Vec::new();
    let mut i: u64 = 0;
    while i < 8
        invariant
            i <= 8,
            v@.len() == i,
            forall|j: int| 0 <= j < i ==> v@[j] == ((x >> ((8 * j) as u64)) & 0xff) as u8,
        decreases 8 - i,
    {
        let b: u64 = (x >> (8 * i)) & 0xff;
        assert(b < 256) by (bit_vector)
            requires
                b == (x >> (8 * i)) & 0xff,
        ;
        v.push(b as u8);
        i = i + 1;
    }
    assert(v@ =~= le_bytes(x));
    v
}

// ---------------------------------------------------------------------------
// White space and prefixes
// ---------------------------------------------------------------------------

/// The Unicode `White_Space` property, which `char::is_whitespace` and
/// `str::trim` go by.
pub open spec fn is_white(c: char) -> bool {
    let u = c as u32;
    ||| 9 <= u <= 13
    ||| u == 32
    ||| u == 0x85
    ||| u == 0xa0
    ||| u == 0x1680
    ||| 0x2000 <= u <= 0x200a
    ||| u == 0x2028
    ||| u == 0x2029
    ||| u == 0x202f
    ||| u == 0x205f
    ||| u == 0x3000
}

/// A text is blank when trimming white space leaves nothing of it.
pub open spec fn is_blank_spec(s: Seq<char>) -> bool {
    forall|i: int| 0 <= i < s.len() ==> is_white(#[trigger] s[i])
}

/// Whether a character is white space.
pub fn is_white_char(c: char) -> (b: bool)
    ensures
        b == is_white(c),
{
    let u = c as u32;
    (9 <= u && u <= 13) || u == 32 || u == 0x85 || u == 0xa0 || u == 0x1680 || (0x2000 <= u && u
        <= 0x200a) || u == 0x2028 || u == 0x2029 || u == 0x202f || u == 0x205f || u == 0x3000
}

/// Whether `s.trim().is_empty()`: every character of `s` is white space.
pub fn is_blank(s: &str) -> (b: bool)
    ensures
        b == is_blank_spec(s@),
{
    let n = s.unicode_len();
    let mut i: usize = 0;
    while i < n
        invariant
            n == s@.len(),
            i <= n,
            forall|j: int| 0 <= j < i ==> is_white(#[trigger] s@[j]),
        decreases n - i,
    {
        let c = s.get_char(i);
        if !is_white_char(c) {
            assert(!is_white(s@[i as int]));
            return false;
        }
        i = i + 1;
    }
    true
}

/// Whether `s` begins with `p`.
pub fn starts_with(s: &str, p: &str) -> (b: bool)
    ensures
        b == p@.is_prefix_of(s@),
{
    let n = s.unicode_len();
    let m = p.unicode_len();
    if m > n {
        return false;
    }
    let mut i: usize = 0;
    while i < m
        invariant
            n == s@.len(),
            m == p@.len(),
            m <= n,
            i <= m,
            forall|j: int| 0 <= j < i ==> s@[j] == p@[j],
        decreases m - i,
    {
        if s.get_char(i) != p.get_char(i) {
            return false;
        }
        i = i + 1;
    }
    true
}

/// The code of a character after ASCII lower-casing (`to_ascii_lowercase`):
/// `A`..`Z` become `a`..`z`, every other character stays.
pub open spec fn lower_code(c: char) -> u32 {
    if 65 <= (c as u32) <= 90 {
        ((c as u32) + 32) as u32
    } else {
        c as u32
    }
}

/// `s`, lower-cased in ASCII, equals `t`.
pub open spec fn ascii_lower_eq(s: Seq<char>, t: Seq<char>) -> bool {
    s.len() == t.len() && forall|i: int| 0 <= i < s.len() ==> lower_code(#[trigger] s[i]) == t[i] as u32
}

/// Whether `s.to_ascii_lowercase() == t`.
pub fn lower_equals(s: &str, t: &str) -> (b: bool)
    ensures
        b == ascii_lower_eq(s@, t@),
{
    let n = s.unicode_len();
    if n != t.unicode_len() {
        return false;
    }
    let mut i: usize = 0;
    while i < n
        invariant
            n == s@.len(),
            n == t@.len(),
            i <= n,
            forall|j: int| 0 <= j < i ==> lower_code(#[trigger] s@[j]) == t@[j] as u32,
        decreases n - i,
    {
        let u = s.get_char(i) as u32;
        let lowered: u32 = if 65 <= u && u <= 90 { u + 32 } else { u };
        if lowered != t.get_char(i) as u32 {
            return false;
        }
        i = i + 1;
    }
    true
}

// ---------------------------------------------------------------------------
// Byte order of texts
// ---------------------------------------------------------------------------

/// Lexicographic order of byte sequences from position `i` on, given that
/// they agree before `i`.
pub open spec fn lex_lt_from(a: Seq<u8>, b: Seq<u8>, i: nat) -> bool
    decreases a.len() - i,
{
    if i >= a.len() {
        i < b.len()
    } else if i >= b.len() {
        false
    } else if a[i as int] != b[i as int] {
        a[i as int] < b[i as int]
    } else {
        lex_lt_from(a, b, i + 1)
    }
}

/// Lexicographic order of byte sequences.
pub open spec fn lex_lt(a: Seq<u8>, b: Seq<u8>) -> bool {
    lex_lt_from(a, b, 0)
}

/// The order of `String` keys: byte-wise on their UTF-8 encoding, which is
/// the order of `Ord for str` and of a `BTreeMap<String, _>`.
pub open spec fn key_lt(a: Seq<char>, b: Seq<char>) -> bool {
    lex_lt(encode_utf8(a), encode_utf8(b))
}

pub proof fn lemma_lex_asym(a: Seq<u8>, b: Seq<u8>, i: nat)
    requires
        lex_lt_from(a, b, i),
    ensures
        !lex_lt_from(b, a, i),
    decreases a.len() - i,
{
    if i < a.len() && i < b.len() && a[i as int] == b[i as int] {
        lemma_lex_asym(a, b, i + 1);
    }
}

pub proof fn lemma_lex_trans(a: Seq<u8>, b: Seq<u8>, c: Seq<u8>, i: nat)
    requires
        lex_lt_from(a, b, i),
        lex_lt_from(b, c, i),
    ensures
        lex_lt_from(a, c, i),
    decreases a.len() - i,
{
    if i < a.len() && i < b.len() && i < c.len() && a[i as int] == b[i as int] && b[i as int]
        == c[i as int] {
        lemma_lex_trans(a, b, c, i + 1);
    }
}

pub proof fn lemma_lex_total(a: Seq<u8>, b: Seq<u8>, i: nat)
    requires
        i <= a.len(),
        i <= b.len(),
        forall|j: int| 0 <= j < i ==> a[j] == b[j],
        !lex_lt_from(a, b, i),
        !lex_lt_from(b, a, i),
    ensures
        a == b,
    decreases a.len() - i,
{
    if i < a.len() && i < b.len() {
        lemma_lex_total(a, b, i + 1);
    } else {
        assert(a =~= b);
    }
}

/// `key_lt` is a strict total order.
pub proof fn lemma_key_order(a: Seq<char>, b: Seq<char>, c: Seq<char>)
    ensures
        !key_lt(a, a),
        key_lt(a, b) ==> !key_lt(b, a),
        key_lt(a, b) && key_lt(b, c) ==> key_lt(a, c),
        !key_lt(a, b) && !key_lt(b, a) ==> a == b,
{
    let ea = encode_utf8(a);
    let eb = encode_utf8(b);
    let ec = encode_utf8(c);
    if lex_lt_from(ea, ea, 0) {
        lemma_lex_asym(ea, ea, 0);
    }
    if key_lt(a, b) {
        lemma_lex_asym(ea, eb, 0);
    }
    if key_lt(a, b) && key_lt(b, c) {
        lemma_lex_trans(ea, eb, ec, 0);
    }
    if !key_lt(a, b) && !key_lt(b, a) {
        lemma_lex_total(ea, eb, 0);
        encode_utf8_decode_utf8(a);
        encode_utf8_decode_utf8(b);
    }
}

/// The outcome of comparing two keys.
#[derive(Debug, Clone, Copy, PartialEq, Eq, Structural)]
pub enum KeyOrder {
    Less,
    Equal,
    Greater,
}

/// Compares two texts in key order.
pub fn compare_text(a: &str, b: &str) -> (r: KeyOrder)
    ensures
        r == KeyOrder::Less <==> key_lt(a@, b@),
        r == KeyOrder::Greater <==> key_lt(b@, a@),
        r == KeyOrder::Equal <==> a@ == b@,
{
    let x = a.as_bytes();
    let y = b.as_bytes();
    let ghost ex = encode_utf8(a@);
    let ghost ey = encode_utf8(b@);
    proof {
        lemma_key_order(a@, b@, b@);
    }
    let mut i: usize = 0;
    while i < x.len() && i < y.len()
        invariant
            ex == encode_utf8(a@),
            ey == encode_utf8(b@),
            !key_lt(a@, a@),
            x@ == ex,
            y@ == ey,
            i <= x@.len(),
            i <= y@.len(),
            forall|j: int| 0 <= j < i ==> x@[j] == y@[j],
            lex_lt_from(ex, ey, 0) == lex_lt_from(ex, ey, i as nat),
            lex_lt_from(ey, ex, 0) == lex_lt_from(ey, ex, i as nat),
        decreases x@.len() - i,
    {
        if x[i] < y[i] {
            assert(lex_lt_from(ex, ey, i as nat));
            assert(!lex_lt_from(ey, ex, i as nat));
            return KeyOrder::Less;
        }
        if x[i] > y[i] {
            assert(lex_lt_from(ey, ex, i as nat));
            assert(!lex_lt_from(ex, ey, i as nat));
            return KeyOrder::Greater;
        }
        i = i + 1;
    }
    if x.len() < y.len() {
        KeyOrder::Less
    } else if x.len() > y.len() {
        KeyOrder::Greater
    } else {
        proof {
            lemma_lex_total(ex, ey, i as nat);
        }
        KeyOrder::Equal
    }
}

} // verus!
