//! Text helpers shared by the rest of the library: decimal and hex
//! rendering, joining, trimming, and the attribute-key normalisation
//! used for diagnostic key/value pairs.
use vstd::prelude::*;

verus! {

broadcast use vstd::string::group_string_axioms;

// ---------------------------------------------------------------------
// Trusted std primitives
// ---------------------------------------------------------------------

/// `String::push`: appends one char to the end of the string.
#[verifier::external_body]
pub(crate) fn string_push(s: &mut String, c: char)
    ensures
        final(s)@ == old(s)@.push(c),
{
    s.push(c);
}

/// Whether a char is Unicode alphanumeric, as `char::is_alphanumeric` decides.
pub uninterp spec fn spec_char_is_alphanumeric(c: char) -> bool;

/// ASCII letters and digits.
pub open spec fn is_ascii_alphanumeric(c: char) -> bool {
    ('a' <= c && c <= 'z') || ('A' <= c && c <= 'Z') || ('0' <= c && c <= '9')
}

/// `char::is_alphanumeric`: the result is named by `spec_char_is_alphanumeric`;
/// within ASCII the Unicode Alphabetic and Numeric properties hold of exactly
/// the letters and digits, which the second clause states.
#[verifier::external_body]
pub(crate) fn char_is_alphanumeric(c: char) -> (r: bool)
    ensures
        r == spec_char_is_alphanumeric(c),
        (c as u32) < 128 ==> (r <==> is_ascii_alphanumeric(c)),
{
    c.is_alphanumeric()
}

/// Whether a char has the Unicode White_Space property, which
/// `char::is_whitespace` tests: U+0009..=U+000D, U+0020, U+0085, U+00A0,
/// U+1680, U+2000..=U+200A, U+2028, U+2029, U+202F, U+205F and U+3000.
pub open spec fn spec_char_is_whitespace(c: char) -> bool {
    let u = c as u32;
    ||| 0x9 <= u <= 0xd
    ||| u == 0x20
    ||| u == 0x85
    ||| u == 0xa0
    ||| u == 0x1680
    ||| 0x2000 <= u <= 0x200a
    ||| u == 0x2028
    ||| u == 0x2029
    ||| u == 0x202f
    ||| u == 0x205f
    ||| u == 0x3000
}

/// `char::is_whitespace`: whether the char has the White_Space property.
#[verifier::external_body]
pub(crate) fn char_is_whitespace(c: char) -> (r: bool)
    ensures
        r == spec_char_is_whitespace(c),
{
    c.is_whitespace()
}

/// Unicode lowercasing of a whole string, as `str::to_lowercase` does it.
pub uninterp spec fn spec_str_to_lowercase(s: Seq<char>) -> Seq<char>;

pub open spec fn ascii_lower_char(c: char) -> char {
    if 'A' <= c && c <= 'Z' {
        ((c as u32) + 32) as char
    } else {
        c
    }
}

pub open spec fn all_ascii(s: Seq<char>) -> bool {
    forall|i: int| 0 <= i < s.len() ==> (#[trigger] s[i] as u32) < 128
}

/// `str::to_lowercase`: the result is named by `spec_str_to_lowercase`; on an
/// all-ASCII string the Unicode lowercase mapping maps `A..=Z` to `a..=z` and
/// leaves every other character alone.
#[verifier::external_body]
pub(crate) fn str_to_lowercase(s: &str) -> (r: String)
    ensures
        r@ == spec_str_to_lowercase(s@),
        all_ascii(s@) ==> r@ == s@.map_values(|c: char| ascii_lower_char(c)),
{
    s.to_lowercase()
}

/// Lossy UTF-8 decoding, as `String::from_utf8_lossy` performs it.
pub uninterp spec fn spec_utf8_lossy(bytes: Seq<u8>) -> Seq<char>;

/// `String::from_utf8_lossy` (made owned): the result is named by
/// `spec_utf8_lossy`; on valid UTF-8 input nothing is replaced, so the
/// result encodes back to exactly the input bytes.
#[verifier::external_body]
pub(crate) fn utf8_lossy(bytes: &[u8]) -> (r: String)
    ensures
        r@ == spec_utf8_lossy(bytes@),
        vstd::utf8::valid_utf8(bytes@) ==> vstd::utf8::encode_utf8(r@) == bytes@,
{
    String::from_utf8_lossy(bytes).to_string()
}

// ---------------------------------------------------------------------
// Decimal and hexadecimal rendering
// ---------------------------------------------------------------------

pub open spec fn digit_char(d: nat) -> char {
    ((48 + d) as u32) as char
}

/// The decimal digits of a natural number, most significant first.
pub open spec fn spec_decimal(n: nat) -> Seq<char>
    decreases n,
{
    if n < 10 {
        seq![digit_char(n)]
    } else {
        spec_decimal(n / 10).push(digit_char(n % 10))
    }
}

/// The decimal rendering of an integer, with a leading `-` when negative.
pub open spec fn spec_signed_decimal(i: int) -> Seq<char> {
    if i < 0 {
        seq!['-'] + spec_decimal((-i) as nat)
    } else {
        spec_decimal(i as nat)
    }
}

fn digit(d: u128) -> (c: char)
    requires
        d < 10,
    ensures
        c == digit_char(d as nat),
{
    match d {
        0 => '0',
        1 => '1',
        2 => '2',
        3 => '3',
        4 => '4',
        5 => '5',
        6 => '6',
        7 => '7',
        8 => '8',
        _ => '9',
    }
}

fn push_decimal(out: &mut String, n: u128)
    ensures
        final(out)@ == old(out)@ + spec_decimal(n as nat),
    decreases n,
{
    if n < 10 {
        string_push(out, digit(n));
    } else {
        push_decimal(out, n / 10);
        string_push(out, digit(n % 10));
        proof {
            assert(old(out)@ + spec_decimal(n as nat) =~= old(out)@ + spec_decimal((n / 10) as nat)
                + seq![digit_char((n % 10) as nat)]);
        }
    }
}

/// Decimal rendering of an unsigned integer (what `to_string` gives).
pub fn u128_to_decimal(n: u128) -> (r: String)
    ensures
        r@ == spec_decimal(n as nat),
{
    let mut out = String::new();
    push_decimal(&mut out, n);
    assert(out@ =~= spec_decimal(n as nat));
    out
}

/// Decimal rendering of a signed integer (what `to_string` gives).
pub fn i128_to_decimal(i: i128) -> (r: String)
    ensures
        r@ == spec_signed_decimal(i as int),
{
    let mut out = String::new();
    if i < 0 {
        string_push(&mut out, '-');
        let m: u128 = (-(i + 1)) as u128 + 1;
        push_decimal(&mut out, m);
    } else {
        push_decimal(&mut out, i as u128);
    }
    assert(out@ =~= spec_signed_decimal(i as int));
    out
}

pub open spec fn hex_digit_char(d: nat) -> char {
    if d < 10 {
        ((48 + d) as u32) as char
    } else {
        ((87 + d) as u32) as char
    }
}

/// A lowercase hexadecimal digit.
pub open spec fn is_lower_hex_digit(c: char) -> bool {
    ('0' <= c && c <= '9') || ('a' <= c && c <= 'f')
}

/// Two lowercase hex digits per byte, as `{:02x}` writes them.
pub open spec fn spec_hex(bytes: Seq<u8>) -> Seq<char>
    decreases bytes.len(),
{
    if bytes.len() == 0 {
        Seq::empty()
    } else {
        spec_hex(bytes.drop_last()) + seq![
            hex_digit_char((bytes.last() / 16) as nat),
            hex_digit_char((bytes.last() % 16) as nat),
        ]
    }
}

fn hex_digit(d: u8) -> (c: char)
    requires
        d < 16,
    ensures
        c == hex_digit_char(d as nat),
{
    match d {
        0 => '0',
        1 => '1',
        2 => '2',
        3 => '3',
        4 => '4',
        5 => '5',
        6 => '6',
        7 => '7',
        8 => '8',
        9 => '9',
        10 => 'a',
        11 => 'b',
        12 => 'c',
        13 => 'd',
        14 => 'e',
        _ => 'f',
    }
}

/// Lowercase hex rendering of a byte string, two digits per byte.
pub fn bytes_to_hex(bytes: &[u8]) -> (r: String)
    ensures
        r@ == spec_hex(bytes@),
{
    let mut out = String::new();
    let n = bytes.len();
    for i in 0..n
        invariant
            n == bytes@.len(),
            out@ == spec_hex(bytes@.take(i as int)),
    {
        let b = bytes[i];
        string_push(&mut out, hex_digit(b / 16));
        string_push(&mut out, hex_digit(b % 16));
        proof {
            assert(bytes@.take(i + 1).drop_last() =~= bytes@.take(i as int));
        }
    }
    assert(bytes@.take(n as int) =~= bytes@);
    out
}

// ---------------------------------------------------------------------
// Joining and appending
// ---------------------------------------------------------------------

/// The parts, with `sep` between each neighbouring pair.
pub open spec fn spec_join(parts: Seq<Seq<char>>, sep: Seq<char>) -> Seq<char>
    decreases parts.len(),
{
    if parts.len() == 0 {
        Seq::empty()
    } else if parts.len() == 1 {
        parts[0]
    } else {
        spec_join(parts.drop_last(), sep) + sep + parts.last()
    }
}

pub open spec fn string_views(v: Seq<String>) -> Seq<Seq<char>> {
    v.map_values(|s: String| s@)
}

/// Appends the characters of `s` to `out`.
pub fn push_str(out: &mut String, s: &str)
    ensures
        final(out)@ == old(out)@ + s@,
{
    for c in it: s.chars()
        invariant
            out@ == old(out)@ + it.seq().take(it.index() as int),
    {
        string_push(out, c);
        proof {
            assert(it.seq().take(it.index() + 1) =~= it.seq().take(it.index() as int).push(c));
        }
    }
    assert(old(out)@ + s@ =~= out@);
}

/// Joins the parts with `sep` between them (as `join` on strings does).
pub fn join(parts: &Vec<String>, sep: &str) -> (r: String)
    ensures
        r@ == spec_join(string_views(parts@), sep@),
{
    let mut out = String::new();
    let n = parts.len();
    let ghost views = string_views(parts@);
    for i in 0..n
        invariant
            n == parts@.len(),
            views == string_views(parts@),
            out@ == spec_join(views.take(i as int), sep@),
    {
        if i != 0 {
            push_str(&mut out, sep);
        }
        push_str(&mut out, parts[i].as_str());
        proof {
            assert(views.take(i + 1).drop_last() =~= views.take(i as int));
            if i == 0 {
                assert(views.take(1) =~= seq![parts@[0]@]);
            }
        }
    }
    assert(views.take(n as int) =~= views);
    out
}

/// `a` followed by `b`, as a new string.
pub fn concatenate(a: &str, b: &str) -> (r: String)
    ensures
        r@ == a@ + b@,
{
    let mut out = String::new();
    push_str(&mut out, a);
    push_str(&mut out, b);
    assert(out@ =~= a@ + b@);
    out
}

/// A copy of a string slice as an owned string.
pub fn to_owned_string(s: &str) -> (r: String)
    ensures
        r@ == s@,
{
    let mut out = String::new();
    push_str(&mut out, s);
    assert(out@ =~= s@);
    out
}

// ---------------------------------------------------------------------
// Prefix stripping and character replacement
// ---------------------------------------------------------------------

/// `s` without its first character when that character is `c`.
pub open spec fn spec_strip_one(s: Seq<char>, c: char) -> Seq<char> {
    if s.len() > 0 && s[0] == c {
        s.drop_first()
    } else {
        s
    }
}

/// `s` without every leading occurrence of `c`.
pub open spec fn spec_strip_all(s: Seq<char>, c: char) -> Seq<char>
    decreases s.len(),
{
    if s.len() > 0 && s[0] == c {
        spec_strip_all(s.drop_first(), c)
    } else {
        s
    }
}

pub open spec fn spec_replace_char(s: Seq<char>, from: char, to: char) -> Seq<char> {
    s.map_values(|x: char| if x == from { to } else { x })
}

/// The characters of a string slice, in order.
pub fn chars_of(s: &str) -> (r: Vec<char>)
    ensures
        r@ == s@,
{
    let mut out: Vec<char> = Vec::new();
    for c in it: s.chars()
        invariant
            out@ == it.seq().take(it.index() as int),
    {
        out.push(c);
        proof {
            assert(it.seq().take(it.index() + 1) =~= it.seq().take(it.index() as int).push(c));
        }
    }
    out
}

/// A string made of the given characters.
pub fn string_from_chars(cs: &[char]) -> (r: String)
    ensures
        r@ == cs@,
{
    let mut out = String::new();
    let n = cs.len();
    for i in 0..n
        invariant
            n == cs@.len(),
            out@ == cs@.take(i as int),
    {
        string_push(&mut out, cs[i]);
        proof {
            assert(cs@.take(i + 1) =~= cs@.take(i as int).push(cs@[i as int]));
        }
    }
    assert(cs@.take(n as int) =~= cs@);
    out
}

/// Copies `s`, leaving out its first character when it is `c`.
pub fn strip_one_leading(s: &str, c: char) -> (r: String)
    ensures
        r@ == spec_strip_one(s@, c),
{
    let cs = chars_of(s);
    let start: usize = if cs.len() > 0 && cs[0] == c { 1 } else { 0 };
    let rest = slice_skip(cs.as_slice(), start);
    let r = string_from_chars(rest.as_slice());
    assert(cs@.skip(start as int) =~= spec_strip_one(s@, c));
    r
}

/// The slice without its first `n` elements.
fn slice_skip(v: &[char], n: usize) -> (r: Vec<char>)
    requires
        n <= v@.len(),
    ensures
        r@ == v@.skip(n as int),
{
    let mut out: Vec<char> = Vec::new();
    let len = v.len();
    let mut i = n;
    while i < len
        invariant
            n <= i <= len,
            len == v@.len(),
            out@ == v@.subrange(n as int, i as int),
        decreases len - i,
    {
        out.push(v[i]);
        i = i + 1;
        proof {
            assert(v@.subrange(n as int, i as int) =~= v@.subrange(n as int, i - 1).push(v@[i - 1]));
        }
    }
    assert(v@.subrange(n as int, len as int) =~= v@.skip(n as int));
    out
}

/// Copies `s`, leaving out every leading `c`.
pub fn strip_all_leading(s: &str, c: char) -> (r: String)
    ensures
        r@ == spec_strip_all(s@, c),
{
    let cs = chars_of(s);
    let mut start: usize = 0;
    assert(cs@.skip(0) =~= cs@);
    while start < cs.len() && cs[start] == c
        invariant
            start <= cs@.len(),
            spec_strip_all(cs@, c) == spec_strip_all(cs@.skip(start as int), c),
        decreases cs@.len() - start,
    {
        proof {
            assert(cs@.skip(start as int).drop_first() =~= cs@.skip(start + 1));
        }
        start = start + 1;
    }
    let rest = slice_skip(cs.as_slice(), start);
    string_from_chars(rest.as_slice())
}

/// Copies `s` with every `from` replaced by `to`.
pub fn replace_char(s: &str, from: char, to: char) -> (r: String)
    ensures
        r@ == spec_replace_char(s@, from, to),
{
    let cs = chars_of(s);
    let mut out = String::new();
    let n = cs.len();
    for i in 0..n
        invariant
            n == cs@.len(),
            out@ == spec_replace_char(cs@.take(i as int), from, to),
    {
        let x = cs[i];
        string_push(&mut out, if x == from { to } else { x });
        proof {
            assert(cs@.take(i + 1) =~= cs@.take(i as int).push(x));
            assert(spec_replace_char(cs@.take(i + 1), from, to) =~= spec_replace_char(cs@.take(i as int), from, to).push(if x == from { to } else { x }));
        }
    }
    assert(cs@.take(n as int) =~= cs@);
    out
}

// ---------------------------------------------------------------------
// Trimming
// ---------------------------------------------------------------------

/// `s` without its leading whitespace.
pub open spec fn spec_trim_start(s: Seq<char>) -> Seq<char>
    decreases s.len(),
{
    if s.len() > 0 && spec_char_is_whitespace(s[0]) {
        spec_trim_start(s.drop_first())
    } else {
        s
    }
}

/// `s` without its trailing whitespace.
pub open spec fn spec_trim_end(s: Seq<char>) -> Seq<char>
    decreases s.len(),
{
    if s.len() > 0 && spec_char_is_whitespace(s.last()) {
        spec_trim_end(s.drop_last())
    } else {
        s
    }
}

/// `s` without leading and trailing whitespace, as `str::trim` gives it.
pub open spec fn spec_trim(s: Seq<char>) -> Seq<char> {
    spec_trim_end(spec_trim_start(s))
}

/// Removes leading and trailing Unicode whitespace.
pub fn trim(s: &str) -> (r: String)
    ensures
        r@ == spec_trim(s@),
{
    let cs = chars_of(s);
    let n = cs.len();
    let mut start: usize = 0;
    assert(cs@.skip(0) =~= cs@);
    while start < n && char_is_whitespace(cs[start])
        invariant
            start <= n,
            n == cs@.len(),
            spec_trim_start(cs@) == spec_trim_start(cs@.skip(start as int)),
        decreases n - start,
    {
        proof {
            assert(cs@.skip(start as int).drop_first() =~= cs@.skip(start + 1));
        }
        start = start + 1;
    }
    let ghost front = cs@.skip(start as int);
    assert(spec_trim_start(cs@) == front);
    let mut end: usize = n;
    assert(front.subrange(0, (n - start) as int) =~= front);
    while end > start && char_is_whitespace(cs[end - 1])
        invariant
            start <= end <= n,
            n == cs@.len(),
            front == cs@.skip(start as int),
            spec_trim_end(front) == spec_trim_end(front.subrange(0, (end - start) as int)),
        decreases end,
    {
        proof {
            assert(front.subrange(0, (end - start) as int).drop_last() =~= front.subrange(0, (end - 1 - start) as int));
        }
        end = end - 1;
    }
    let mut out = String::new();
    let mut i = start;
    while i < end
        invariant
            start <= i <= end <= n,
            n == cs@.len(),
            out@ == cs@.subrange(start as int, i as int),
        decreases end - i,
    {
        string_push(&mut out, cs[i]);
        i = i + 1;
        proof {
            assert(cs@.subrange(start as int, i as int) =~= cs@.subrange(start as int, i - 1).push(cs@[i - 1]));
        }
    }
    assert(out@ =~= front.subrange(0, (end - start) as int));
    out
}

// ---------------------------------------------------------------------
// Attribute key normalisation
// ---------------------------------------------------------------------

/// The pieces of `s` between its non-alphanumeric characters (as
/// `str::split` with a char predicate yields them: empty pieces included).
pub open spec fn spec_split_non_alnum(s: Seq<char>) -> Seq<Seq<char>>
    decreases s.len(),
{
    if s.len() == 0 {
        seq![Seq::<char>::empty()]
    } else {
        let prev = spec_split_non_alnum(s.drop_last());
        let c = s.last();
        if spec_char_is_alphanumeric(c) {
            prev.update(prev.len() - 1, prev.last().push(c))
        } else {
            prev.push(Seq::<char>::empty())
        }
    }
}

/// The pieces that are not empty, in order.
pub open spec fn spec_nonempty_pieces(parts: Seq<Seq<char>>) -> Seq<Seq<char>>
    decreases parts.len(),
{
    if parts.len() == 0 {
        Seq::empty()
    } else if parts.last().len() == 0 {
        spec_nonempty_pieces(parts.drop_last())
    } else {
        spec_nonempty_pieces(parts.drop_last()).push(parts.last())
    }
}

/// What `normalize_string_for_attr_key` makes of `s`: its maximal runs of
/// alphanumeric characters, joined by single `_`, lowercased.
pub open spec fn spec_normalized_attr_key(s: Seq<char>) -> Seq<char> {
    spec_str_to_lowercase(spec_join(spec_nonempty_pieces(spec_split_non_alnum(s)), seq!['_']))
}

/// A normalised key: lowercase ASCII letters, digits and `_`, with no `_`
/// at either end and never two in a row.
pub open spec fn is_normalized_key(k: Seq<char>) -> bool {
    &&& forall|i: int| 0 <= i < k.len() ==> is_key_char(#[trigger] k[i])
    &&& k.len() > 0 ==> k[0] != '_' && k[k.len() - 1] != '_'
    &&& forall|i: int| 0 <= i < k.len() - 1 && #[trigger] k[i] == '_' ==> k[i + 1] != '_'
}

/// Every character of every piece is an ASCII letter or digit.
pub open spec fn pieces_ascii_alnum(parts: Seq<Seq<char>>) -> bool {
    forall|i: int, j: int|
        0 <= i < parts.len() && 0 <= j < parts[i].len() ==> is_ascii_alphanumeric(#[trigger] parts[i][j])
}

/// ASCII letters and digits joined by single `_`, with none at either end.
pub open spec fn is_underscore_joined(k: Seq<char>) -> bool {
    &&& forall|i: int| 0 <= i < k.len() ==> (#[trigger] k[i] == '_' || is_ascii_alphanumeric(k[i]))
    &&& k.len() > 0 ==> k[0] != '_' && k[k.len() - 1] != '_'
    &&& forall|i: int| 0 <= i < k.len() - 1 && #[trigger] k[i] == '_' ==> k[i + 1] != '_'
}

/// The pieces of `s` between its characters other than ASCII letters and
/// digits, empty pieces included.
pub open spec fn spec_ascii_split(s: Seq<char>) -> Seq<Seq<char>>
    decreases s.len(),
{
    if s.len() == 0 {
        seq![Seq::<char>::empty()]
    } else {
        let prev = spec_ascii_split(s.drop_last());
        let c = s.last();
        if is_ascii_alphanumeric(c) {
            prev.update(prev.len() - 1, prev.last().push(c))
        } else {
            prev.push(Seq::<char>::empty())
        }
    }
}

/// What `normalize_string_for_attr_key` makes of ASCII text: its maximal
/// runs of letters and digits, joined by single `_`, with `A..=Z` lowered.
pub open spec fn spec_ascii_normalized(s: Seq<char>) -> Seq<char> {
    spec_join(spec_nonempty_pieces(spec_ascii_split(s)), seq!['_']).map_values(|c: char| ascii_lower_char(c))
}

/// On ASCII text whose letters and digits are known to be the alphanumeric
/// characters, the split at non-alphanumeric characters is the ASCII split.
proof fn lemma_split_is_ascii_split(s: Seq<char>)
    requires
        all_ascii(s),
        ascii_alphanumerics_known(s),
    ensures
        spec_split_non_alnum(s) == spec_ascii_split(s),
    decreases s.len(),
{
    if s.len() > 0 {
        let p = s.drop_last();
        assert forall|i: int| 0 <= i < p.len() implies (#[trigger] p[i] as u32) < 128 by {
            assert(p[i] == s[i]);
        }
        assert forall|i: int| 0 <= i < p.len() && (p[i] as u32) < 128 implies (spec_char_is_alphanumeric(
            #[trigger] p[i],
        ) <==> is_ascii_alphanumeric(p[i])) by {
            assert(p[i] == s[i]);
        }
        lemma_split_is_ascii_split(p);
        assert(s[s.len() - 1] == s.last());
    }
}

/// The ASCII split is never empty, and its pieces hold ASCII letters and
/// digits only.
proof fn lemma_ascii_split_pieces(s: Seq<char>)
    ensures
        pieces_ascii_alnum(spec_ascii_split(s)),
        spec_ascii_split(s).len() >= 1,
    decreases s.len(),
{
    if s.len() > 0 {
        let p = s.drop_last();
        lemma_ascii_split_pieces(p);
        let prev = spec_ascii_split(p);
        let c = s.last();
        let parts = spec_ascii_split(s);
        assert forall|i: int, j: int| 0 <= i < parts.len() && 0 <= j < parts[i].len() implies is_ascii_alphanumeric(
            #[trigger] parts[i][j],
        ) by {
            if is_ascii_alphanumeric(c) {
                if i == parts.len() - 1 && j == parts[i].len() - 1 {
                    assert(parts[i][j] == c);
                } else if i == parts.len() - 1 {
                    assert(parts[i][j] == prev[i][j]);
                } else {
                    assert(parts[i] == prev[i]);
                }
            } else {
                assert(parts[i] == prev[i]);
            }
        }
    }
}

/// Lowering the letters of ASCII letters and digits joined by single `_`
/// gives a normalised key.
proof fn lemma_lowered_key(k: Seq<char>)
    requires
        is_underscore_joined(k),
    ensures
        is_normalized_key(k.map_values(|c: char| ascii_lower_char(c))),
{
    let r = k.map_values(|c: char| ascii_lower_char(c));
    assert forall|i: int| 0 <= i < r.len() implies is_key_char(#[trigger] r[i]) && (r[i] == '_' <==> k[i] == '_') by {
        assert(r[i] == ascii_lower_char(k[i]));
        assert(k[i] == '_' || is_ascii_alphanumeric(k[i]));
    }
    if r.len() > 0 {
        assert(r[0] == '_' <==> k[0] == '_');
        assert(r[r.len() - 1] == '_' <==> k[k.len() - 1] == '_');
    }
    assert forall|i: int| 0 <= i < r.len() - 1 && #[trigger] r[i] == '_' implies r[i + 1] != '_' by {
        assert(r[i] == '_' <==> k[i] == '_');
        assert(r[i + 1] == '_' <==> k[i + 1] == '_');
    }
}

proof fn lemma_nonempty_pieces(parts: Seq<Seq<char>>)
    requires
        pieces_ascii_alnum(parts),
    ensures
        pieces_ascii_alnum(spec_nonempty_pieces(parts)),
        forall|i: int| 0 <= i < spec_nonempty_pieces(parts).len() ==> #[trigger] spec_nonempty_pieces(parts)[i].len() > 0,
    decreases parts.len(),
{
    if parts.len() > 0 {
        let p = parts.drop_last();
        assert forall|i: int, j: int| 0 <= i < p.len() && 0 <= j < p[i].len() implies is_ascii_alphanumeric(
            #[trigger] p[i][j],
        ) by {
            assert(p[i] == parts[i]);
        }
        lemma_nonempty_pieces(p);
        let q = spec_nonempty_pieces(p);
        let r = spec_nonempty_pieces(parts);
        if parts.last().len() > 0 {
            assert forall|i: int, j: int| 0 <= i < r.len() && 0 <= j < r[i].len() implies is_ascii_alphanumeric(
                #[trigger] r[i][j],
            ) by {
                if i == r.len() - 1 {
                    assert(r[i] == parts[parts.len() - 1]);
                } else {
                    assert(r[i] == q[i]);
                }
            }
            assert forall|i: int| 0 <= i < r.len() implies #[trigger] r[i].len() > 0 by {
                if i < q.len() {
                    assert(r[i] == q[i]);
                }
            }
        }
    }
}

proof fn lemma_join_underscore(parts: Seq<Seq<char>>)
    requires
        pieces_ascii_alnum(parts),
        forall|i: int| 0 <= i < parts.len() ==> #[trigger] parts[i].len() > 0,
    ensures
        is_underscore_joined(spec_join(parts, seq!['_'])),
    decreases parts.len(),
{
    let k = spec_join(parts, seq!['_']);
    if parts.len() == 1 {
        assert(k == parts[0]);
        assert forall|i: int| 0 <= i < k.len() implies (#[trigger] k[i] == '_' || is_ascii_alphanumeric(k[i])) by {
            assert(is_ascii_alphanumeric(parts[0][i]));
        }
        assert(is_ascii_alphanumeric(parts[0][0]));
        assert(is_ascii_alphanumeric(parts[0][k.len() - 1]));
        assert forall|i: int| 0 <= i < k.len() - 1 && #[trigger] k[i] == '_' implies k[i + 1] != '_' by {
            assert(is_ascii_alphanumeric(parts[0][i]));
        }
    } else if parts.len() > 1 {
        let p = parts.drop_last();
        assert forall|i: int, j: int| 0 <= i < p.len() && 0 <= j < p[i].len() implies is_ascii_alphanumeric(
            #[trigger] p[i][j],
        ) by {
            assert(p[i] == parts[i]);
        }
        assert forall|i: int| 0 <= i < p.len() implies #[trigger] p[i].len() > 0 by {
            assert(p[i] == parts[i]);
        }
        lemma_join_underscore(p);
        let h = spec_join(p, seq!['_']);
        let last = parts.last();
        assert(parts[parts.len() - 1] == last);
        assert(last.len() > 0);
        assert(k == h + seq!['_'] + last);
        assert(h.len() > 0) by {
            assert(p.len() >= 1);
            lemma_join_nonempty(p);
        }
        assert forall|i: int| 0 <= i < k.len() implies (#[trigger] k[i] == '_' || is_ascii_alphanumeric(k[i])) by {
            if i < h.len() {
                assert(k[i] == h[i]);
            } else if i > h.len() {
                assert(k[i] == last[i - h.len() - 1]);
                assert(is_ascii_alphanumeric(parts[parts.len() - 1][i - h.len() - 1]));
            }
        }
        assert(k[0] == h[0]);
        assert(k[k.len() - 1] == last[last.len() - 1]);
        assert(is_ascii_alphanumeric(parts[parts.len() - 1][last.len() - 1]));
        assert forall|i: int| 0 <= i < k.len() - 1 && #[trigger] k[i] == '_' implies k[i + 1] != '_' by {
            if i < h.len() - 1 {
                assert(k[i] == h[i]);
                assert(k[i + 1] == h[i + 1]);
            } else if i == h.len() - 1 {
                assert(k[i] == h[h.len() - 1]);
            } else if i == h.len() {
                assert(k[i + 1] == last[0]);
                assert(is_ascii_alphanumeric(parts[parts.len() - 1][0]));
            } else {
                assert(k[i] == last[i - h.len() - 1]);
                assert(is_ascii_alphanumeric(parts[parts.len() - 1][i - h.len() - 1]));
            }
        }
    }
}

proof fn lemma_join_nonempty(parts: Seq<Seq<char>>)
    requires
        parts.len() >= 1,
        forall|i: int| 0 <= i < parts.len() ==> #[trigger] parts[i].len() > 0,
    ensures
        spec_join(parts, seq!['_']).len() > 0,
    decreases parts.len(),
{
    if parts.len() > 1 {
        assert(parts[parts.len() - 1].len() > 0);
    } else {
        assert(parts[0].len() > 0);
    }
}

/// Within ASCII, the characters of `s` that are alphanumeric are exactly
/// its letters and digits.
pub open spec fn ascii_alphanumerics_known(s: Seq<char>) -> bool {
    forall|i: int|
        0 <= i < s.len() && (s[i] as u32) < 128 ==> (spec_char_is_alphanumeric(#[trigger] s[i])
            <==> is_ascii_alphanumeric(s[i]))
}

/// A character of a normalised key built from ASCII text: a lowercase
/// letter, a digit or `_`.
pub open spec fn is_key_char(c: char) -> bool {
    ('a' <= c && c <= 'z') || ('0' <= c && c <= '9') || c == '_'
}

/// Splits `s` at its non-alphanumeric characters.
pub fn split_non_alphanumeric(s: &str) -> (r: Vec<String>)
    ensures
        string_views(r@) == spec_split_non_alnum(s@),
        ascii_alphanumerics_known(s@),
{
    let cs = chars_of(s);
    let n = cs.len();
    let mut parts: Vec<String> = Vec::new();
    let mut current = String::new();
    for i in 0..n
        invariant
            n == cs@.len(),
            string_views(parts@).push(current@) == spec_split_non_alnum(cs@.take(i as int)),
            ascii_alphanumerics_known(cs@.take(i as int)),
    {
        let c = cs[i];
        let ghost before = string_views(parts@).push(current@);
        proof {
            assert(cs@.take(i + 1).drop_last() =~= cs@.take(i as int));
        }
        let alnum = char_is_alphanumeric(c);
        proof {
            assert(cs@.take(i + 1) =~= cs@.take(i as int).push(c));
        }
        if alnum {
            string_push(&mut current, c);
            assert(string_views(parts@).push(current@) =~= before.update(before.len() - 1, before.last().push(c)));
        } else {
            let done = current;
            parts.push(done);
            current = String::new();
            assert(string_views(parts@).push(current@) =~= before.push(Seq::<char>::empty()));
        }
    }
    parts.push(current);
    assert(cs@.take(n as int) =~= cs@);
    assert(string_views(parts@) =~= spec_split_non_alnum(s@));
    parts
}

/// The non-empty strings of `parts`, in order.
fn nonempty_pieces(parts: Vec<String>) -> (r: Vec<String>)
    ensures
        string_views(r@) == spec_nonempty_pieces(string_views(parts@)),
{
    let ghost all = string_views(parts@);
    let n = parts.len();
    let mut kept: Vec<String> = Vec::new();
    let mut i: usize = 0;
    let mut rest = parts;
    let ghost orig = rest@;
    assert(all.take(0) =~= Seq::<Seq<char>>::empty());
    while i < n
        invariant
            n == all.len(),
            n == orig.len(),
            all == string_views(orig),
            i + rest@.len() == n,
            rest@ == orig.subrange(i as int, n as int),
            string_views(kept@) == spec_nonempty_pieces(all.take(i as int)),
        decreases n - i,
    {
        let piece = rest.remove(0);
        proof {
            assert(piece == orig[i as int]);
            assert(rest@ =~= orig.subrange(i + 1, n as int));
            assert(all.take(i + 1).drop_last() =~= all.take(i as int));
            assert(all.take(i + 1).last() == piece@);
        }
        if chars_of(piece.as_str()).len() > 0 {
            let ghost before = kept@;
            let ghost pg = piece;
            kept.push(piece);
            assert(string_views(kept@) =~= string_views(before).push(pg@));
        }
        i = i + 1;
    }
    assert(all.take(n as int) =~= all);
    kept
}

/// Throw away anything non-alphanumeric. Join strings of alphanumeric
/// characters together with underscores. Lowercase the whole thing.
pub fn normalize_string_for_attr_key(s: String) -> (r: String)
    ensures
        r@ == spec_normalized_attr_key(s@),
        all_ascii(s@) ==> r@ == spec_ascii_normalized(s@),
        all_ascii(s@) ==> is_normalized_key(r@),
{
    let parts = split_non_alphanumeric(s.as_str());
    let kept = nonempty_pieces(parts);
    let joined = join(&kept, "_");
    proof {
        reveal_strlit("_");
        assert("_"@ =~= seq!['_']);
    }
    let r = str_to_lowercase(joined.as_str());
    proof {
        if all_ascii(s@) {
            lemma_split_is_ascii_split(s@);
            lemma_ascii_normalized_key(s@);
            let k = joined@;
            assert forall|i: int| 0 <= i < k.len() implies (#[trigger] k[i] as u32) < 128 by {
                assert(k[i] == '_' || is_ascii_alphanumeric(k[i]));
            }
        }
    }
    r
}

/// A normalised key from any text holds only lowercase ASCII letters,
/// digits and `_`, with no `_` at either end and never two in a row.
pub proof fn lemma_ascii_normalized_key(s: Seq<char>)
    ensures
        is_normalized_key(spec_ascii_normalized(s)),
        is_underscore_joined(spec_join(spec_nonempty_pieces(spec_ascii_split(s)), seq!['_'])),
{
    let pieces = spec_ascii_split(s);
    lemma_ascii_split_pieces(s);
    lemma_nonempty_pieces(pieces);
    lemma_join_underscore(spec_nonempty_pieces(pieces));
    lemma_lowered_key(spec_join(spec_nonempty_pieces(pieces), seq!['_']));
}

/// Normalising twice is normalising once, and the result holds only
/// lowercase ASCII letters, digits and `_`, with no `_` at either end and
/// never two in a row.
pub proof fn lemma_ascii_normalization_idempotent(s: Seq<char>)
    ensures
        spec_ascii_normalized(spec_ascii_normalized(s)) == spec_ascii_normalized(s),
        is_normalized_key(spec_ascii_normalized(s)),
{
    lemma_ascii_normalized_key(s);
    lemma_normalized_key_is_fixed(spec_ascii_normalized(s));
}

/// A normalised key normalises to itself.
proof fn lemma_normalized_key_is_fixed(k: Seq<char>)
    requires
        is_normalized_key(k),
    ensures
        spec_ascii_normalized(k) == k,
{
    lemma_normalized_prefix(k, k.len() as int);
    assert(k.take(k.len() as int) =~= k);
    if k.len() > 0 {
        assert(k.last() == k[k.len() - 1]);
    }
    let j = spec_join(spec_nonempty_pieces(spec_ascii_split(k)), seq!['_']);
    assert(j == k);
    assert forall|i: int| 0 <= i < k.len() implies #[trigger] ascii_lower_char(k[i]) == k[i] by {
        assert(is_key_char(k[i]));
    }
    assert(j.map_values(|c: char| ascii_lower_char(c)) =~= k);
}

/// Joining with one more piece puts `_` and the piece at the end.
proof fn lemma_join_push_piece(ps: Seq<Seq<char>>, q: Seq<char>)
    requires
        ps.len() >= 1,
    ensures
        spec_join(ps.push(q), seq!['_']) == spec_join(ps, seq!['_']) + seq!['_'] + q,
{
    assert(ps.push(q).drop_last() =~= ps);
}

/// Extending the last piece by a character extends the join by it.
proof fn lemma_join_extend_last(ps: Seq<Seq<char>>, c: char)
    requires
        ps.len() >= 1,
    ensures
        spec_join(ps.update(ps.len() - 1, ps.last().push(c)), seq!['_']) == spec_join(ps, seq!['_']).push(c),
{
    let qs = ps.update(ps.len() - 1, ps.last().push(c));
    if ps.len() > 1 {
        assert(qs.drop_last() =~= ps.drop_last());
        assert(spec_join(ps.drop_last(), seq!['_']) + seq!['_'] + ps.last().push(c) =~= (spec_join(
            ps.drop_last(),
            seq!['_'],
        ) + seq!['_'] + ps.last()).push(c));
    }
}

/// How a prefix of a normalised key splits and joins back: the join gives
/// the prefix itself, without a trailing `_`.
proof fn lemma_normalized_prefix(k: Seq<char>, n: int)
    requires
        is_normalized_key(k),
        0 <= n <= k.len(),
    ensures
        ({
            let t = k.take(n);
            let parts = spec_ascii_split(t);
            let kept = spec_nonempty_pieces(parts);
            &&& parts.len() >= 1
            &&& (parts.last().len() > 0 <==> (n > 0 && t.last() != '_'))
            &&& (kept.len() > 0 <==> n > 0)
            &&& spec_join(kept, seq!['_']) == (if n > 0 && t.last() == '_' {
                t.drop_last()
            } else {
                t
            })
        }),
    decreases n,
{
    if n > 0 {
        lemma_normalized_prefix(k, n - 1);
        let t0 = k.take(n - 1);
        let t = k.take(n);
        let c = k[n - 1];
        assert(t.drop_last() =~= t0);
        assert(t.last() == c);
        assert(t =~= t0.push(c));
        let p0 = spec_ascii_split(t0);
        let kept0 = spec_nonempty_pieces(p0);
        let parts = spec_ascii_split(t);
        let kept = spec_nonempty_pieces(parts);
        assert(is_key_char(k[n - 1]));
        if is_ascii_alphanumeric(c) {
            assert(parts == p0.update(p0.len() - 1, p0.last().push(c)));
            assert(parts.drop_last() =~= p0.drop_last());
            assert(parts.last() == p0.last().push(c));
            if p0.last().len() > 0 {
                assert(kept0 == spec_nonempty_pieces(p0.drop_last()).push(p0.last()));
                assert(kept =~= kept0.update(kept0.len() - 1, kept0.last().push(c)));
                lemma_join_extend_last(kept0, c);
                assert(spec_join(kept, seq!['_']) == t);
                assert(parts.last().len() > 0);
                assert(kept.len() > 0);
            } else {
                assert(kept0 == spec_nonempty_pieces(p0.drop_last()));
                assert(kept =~= kept0.push(seq![c]));
                if n - 1 > 0 {
                    lemma_join_push_piece(kept0, seq![c]);
                    assert(t0 =~= t0.drop_last().push('_'));
                    assert(t =~= t0.drop_last() + seq!['_'] + seq![c]);
                    assert(spec_join(kept, seq!['_']) == t);
                } else {
                    assert(kept0.len() == 0);
                    assert(kept =~= seq![seq![c]]);
                    assert(t =~= seq![c]);
                    assert(spec_join(kept, seq!['_']) == t);
                }
                assert(parts.last().len() > 0);
                assert(kept.len() > 0);
            }
        } else {
            assert(c == '_');
            assert(k[0] != '_');
            assert(n - 1 > 0);
            assert(k[n - 2] != '_');
            assert(t0.last() == k[n - 2]);
            assert(parts == p0.push(Seq::<char>::empty()));
            assert(parts.drop_last() =~= p0);
            assert(kept == kept0);
            assert(parts.last().len() == 0);
            assert(spec_join(kept, seq!['_']) == t.drop_last());
        }
    } else {
        let t = k.take(0);
        assert(t =~= Seq::<char>::empty());
        let parts = spec_ascii_split(t);
        assert(parts == seq![Seq::<char>::empty()]);
        assert(parts.drop_last() =~= Seq::<Seq<char>>::empty());
        assert(spec_nonempty_pieces(parts) == spec_nonempty_pieces(parts.drop_last()));
        assert(spec_nonempty_pieces(parts).len() == 0);
    }
}

/// Whether two strings hold the same characters.
pub fn str_eq(a: &str, b: &str) -> (r: bool)
    ensures
        r == (a@ == b@),
{
    let ca = chars_of(a);
    let cb = chars_of(b);
    if ca.len() != cb.len() {
        return false;
    }
    let n = ca.len();
    for i in 0..n
        invariant
            n == ca@.len(),
            n == cb@.len(),
            ca@ == a@,
            cb@ == b@,
            forall|j: int| 0 <= j < i ==> ca@[j] == cb@[j],
    {
        if ca[i] != cb[i] {
            assert(ca@[i as int] != cb@[i as int]);
            return false;
        }
    }
    assert(ca@ =~= cb@);
    true
}

/// Whether `s` begins with `prefix`.
pub fn has_prefix(s: &str, prefix: &str) -> (r: bool)
    ensures
        r == (prefix@.len() <= s@.len() && s@.take(prefix@.len() as int) == prefix@),
{
    let cs = chars_of(s);
    let cp = chars_of(prefix);
    if cp.len() > cs.len() {
        return false;
    }
    let n = cp.len();
    for i in 0..n
        invariant
            n == cp@.len(),
            n <= cs@.len(),
            cs@ == s@,
            cp@ == prefix@,
            forall|j: int| 0 <= j < i ==> cs@[j] == cp@[j],
    {
        if cs[i] != cp[i] {
            assert(s@.take(n as int)[i as int] != prefix@[i as int]);
            return false;
        }
    }
    assert(s@.take(n as int) =~= prefix@);
    true
}

} // verus!
