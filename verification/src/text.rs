//! Character sequences: the string operations that the rest of the library is
//! written with.
use vstd::prelude::*;
use vstd::utf8::decode_utf8;
use vstd::utf8::encode_utf8;
use vstd::utf8::valid_utf8;

verus! {

/// `String::push` appends one character.
pub assume_specification[ String::push ](s: &mut String, c: char)
    ensures
        final(s)@ == old(s)@.push(c),
;

/// `String::push_str` appends the characters of a string.
pub assume_specification[ String::push_str ](s: &mut String, other: &str)
    ensures
        final(s)@ == old(s)@ + other@,
;

/// What is said of bytes that are not UTF-8.
pub uninterp spec fn utf8_error(bytes: Seq<u8>) -> Seq<char>;

/// `String::from_utf8`: the text that the bytes encode, and an error where they
/// are not UTF-8. The words of the error depend on the bytes alone and are left to
/// the name.
#[verifier::external_body]
pub(crate) fn text_from_utf8(bytes: Vec<u8>) -> (r: Result<String, String>)
    ensures
        match r {
            Ok(s) => valid_utf8(bytes@) && s@ == decode_utf8(bytes@),
            Err(error) => !valid_utf8(bytes@) && error@ == utf8_error(bytes@),
        },
{
    match String::from_utf8(bytes) {
        Ok(s) => Ok(s),
        Err(error) => Err(error.to_string()),
    }
}

/// How many bytes a text takes.
pub open spec fn byte_len(s: Seq<char>) -> nat {
    encode_utf8(s).len()
}

/// The length of a text in bytes.
pub fn len_of(s: &str) -> (n: usize)
    ensures
        n == byte_len(s@),
{
    s.as_bytes().len()
}

/// The characters of a string, as a vector.
pub fn chars_of(s: &str) -> (v: Vec<char>)
    ensures
        v@ == s@,
{
    let mut v: Vec<char> = Vec::new();
    for c in it: s.chars()
        invariant
            it.seq() == s@,
            v@ == s@.take(it.index() as int),
    {
        v.push(c);
        assert(v@ =~= s@.take(it.index() as int + 1));
    }
    assert(v@ =~= s@);
    v
}

/// The string of given characters.
pub fn string_of(v: &[char]) -> (s: String)
    ensures
        s@ == v@,
{
    let mut s: String = String::new();
    let mut i: usize = 0;
    while i < v.len()
        invariant
            i <= v@.len(),
            s@ == v@.take(i as int),
        decreases v@.len() - i,
    {
        s.push(v[i]);
        i = i + 1;
        assert(s@ =~= v@.take(i as int));
    }
    assert(s@ =~= v@);
    s
}

/// Whether two slices hold the same characters.
pub fn same_chars(a: &[char], b: &[char]) -> (r: bool)
    ensures
        r == (a@ == b@),
{
    if a.len() != b.len() {
        return false;
    }
    let mut i: usize = 0;
    while i < a.len()
        invariant
            i <= a@.len(),
            a@.len() == b@.len(),
            forall|j: int| 0 <= j < i ==> a@[j] == b@[j],
        decreases a@.len() - i,
    {
        if a[i] != b[i] {
            return false;
        }
        i = i + 1;
    }
    assert(a@ =~= b@);
    true
}

/// Whether two strings hold the same characters.
pub fn same_text(a: &str, b: &str) -> (r: bool)
    ensures
        r == (a@ == b@),
{
    same_chars(chars_of(a).as_slice(), chars_of(b).as_slice())
}

/// An ASCII capital as a small letter; any other character as it is.
pub open spec fn lower_char(c: char) -> char {
    if 'A' <= c <= 'Z' {
        (c as u8 + 32) as u8 as char
    } else {
        c
    }
}

/// ASCII capitals as small letters.
pub open spec fn lower(s: Seq<char>) -> Seq<char> {
    Seq::new(s.len(), |i: int| lower_char(s[i]))
}

pub fn lower_char_of(c: char) -> (r: char)
    ensures
        r == lower_char(c),
{
    if 'A' <= c && c <= 'Z' {
        (c as u8 + 32) as char
    } else {
        c
    }
}

/// The characters with ASCII capitals made small.
pub fn lower_chars(v: &[char]) -> (r: Vec<char>)
    ensures
        r@ == lower(v@),
{
    let mut r: Vec<char> = Vec::new();
    let mut i: usize = 0;
    while i < v.len()
        invariant
            i <= v@.len(),
            r@ == lower(v@).take(i as int),
        decreases v@.len() - i,
    {
        r.push(lower_char_of(v[i]));
        i = i + 1;
        assert(r@ =~= lower(v@).take(i as int));
    }
    assert(r@ =~= lower(v@));
    r
}

/// The parts of a text between the separators: one more than there are
/// separators.
pub open spec fn split(s: Seq<char>, sep: char) -> Seq<Seq<char>>
    decreases s.len(),
{
    if s.len() == 0 {
        seq![Seq::empty()]
    } else {
        let parts = split(s.drop_last(), sep);
        if s.last() == sep {
            parts.push(Seq::empty())
        } else {
            parts.drop_last().push(parts.last().push(s.last()))
        }
    }
}

/// Each part lies between two separators, or between one and an end of the text, and
/// holds no separator.
pub proof fn law_parts_lie_between(s: Seq<char>, sep: char, k: int) -> (r: (int, int))
    requires
        0 <= k < split(s, sep).len(),
    ensures
        0 <= r.0 <= r.1 <= s.len(),
        split(s, sep)[k] == s.subrange(r.0, r.1),
        r.0 == 0 || s[r.0 - 1] == sep,
        r.1 == s.len() || s[r.1] == sep,
        !split(s, sep)[k].contains(sep),
        k == split(s, sep).len() - 1 <==> r.1 == s.len(),
    decreases s.len(),
{
    if s.len() == 0 {
        assert(s.subrange(0, 0) =~= Seq::<char>::empty());
        (0int, 0int)
    } else {
        let front = s.drop_last();
        let parts = split(front, sep);
        lemma_split_some(front, sep);
        if k < parts.len() {
            let (i, j) = law_parts_lie_between(front, sep, k);
            assert(front.subrange(i, j) =~= s.subrange(i, j));
            if k == parts.len() - 1 && s.last() != sep {
                assert(s.subrange(i, j).push(s.last()) =~= s.subrange(i, j + 1));
                let part = parts[k].push(s.last());
                assert(!part.contains(sep)) by {
                    if part.contains(sep) {
                        let x = choose|x: int| 0 <= x < part.len() && part[x] == sep;
                        assert(parts[k][x] == sep);
                    }
                }
                (i, j + 1)
            } else {
                (i, j)
            }
        } else {
            assert(s.subrange(s.len() as int, s.len() as int) =~= Seq::<char>::empty());
            (s.len() as int, s.len() as int)
        }
    }
}

proof fn lemma_split_some(s: Seq<char>, sep: char)
    ensures
        split(s, sep).len() > 0,
    decreases s.len(),
{
    if s.len() > 0 {
        lemma_split_some(s.drop_last(), sep);
    }
}

/// Whatever lies between two separators, or between one and an end of the text, and
/// holds none is one of the parts.
pub proof fn law_parts_are_there(s: Seq<char>, sep: char, i: int, j: int)
    requires
        0 <= i <= j <= s.len(),
        i == 0 || s[i - 1] == sep,
        j == s.len() || s[j] == sep,
        forall|x: int| i <= x < j ==> s[x] != sep,
    ensures
        exists|k: int| 0 <= k < split(s, sep).len() && #[trigger] split(s, sep)[k] == s.subrange(i, j),
        j == s.len() ==> split(s, sep).last() == s.subrange(i, j),
    decreases s.len(),
{
    let parts = split(s, sep);
    lemma_split_some(s, sep);
    if s.len() == 0 {
        assert(s.subrange(i, j) =~= Seq::<char>::empty());
        assert(parts[0] == s.subrange(i, j));
    } else {
        let front = s.drop_last();
        lemma_split_some(front, sep);
        if j < s.len() {
            law_parts_are_there(front, sep, i, j);
            let before = split(front, sep);
            let k = choose|k: int|
                0 <= k < before.len() && #[trigger] before[k] == front.subrange(i, j);
            assert(front.subrange(i, j) =~= s.subrange(i, j));
            if s.last() == sep {
                assert(parts[k] == s.subrange(i, j));
            } else {
                let (a, b) = law_parts_lie_between(front, sep, k);
                if k == before.len() - 1 {
                    lemma_part_count(front, sep, i, j);
                    let m = choose|m: int|
                        0 <= m < before.len() - 1 && #[trigger] before[m] == front.subrange(i, j);
                    assert(parts[m] == s.subrange(i, j));
                } else {
                    assert(parts[k] == s.subrange(i, j));
                }
            }
        } else if i == s.len() {
            assert(s.subrange(i, j) =~= Seq::<char>::empty());
            assert(parts[parts.len() - 1] == s.subrange(i, j));
        } else {
            law_parts_are_there(front, sep, i, j - 1);
            assert(s[j - 1] != sep);
            assert(front.subrange(i, j - 1).push(s.last()) =~= s.subrange(i, j));
            assert(parts[parts.len() - 1] == s.subrange(i, j));
        }
    }
}

/// A part with a separator behind it is not the last.
proof fn lemma_part_count(s: Seq<char>, sep: char, i: int, j: int)
    requires
        0 <= i <= j < s.len(),
        i == 0 || s[i - 1] == sep,
        s[j] == sep,
        forall|x: int| i <= x < j ==> s[x] != sep,
    ensures
        exists|k: int|
            0 <= k < split(s, sep).len() - 1 && #[trigger] split(s, sep)[k] == s.subrange(i, j),
    decreases s.len(),
{
    let front = s.drop_last();
    let parts = split(s, sep);
    let before = split(front, sep);
    lemma_split_some(front, sep);
    assert(front.subrange(i, j) =~= s.subrange(i, j));
    if j == s.len() - 1 {
        law_parts_are_there(front, sep, i, j);
        assert(parts[before.len() - 1] == s.subrange(i, j));
    } else {
        lemma_part_count(front, sep, i, j);
        let k = choose|k: int|
            0 <= k < before.len() - 1 && #[trigger] before[k] == front.subrange(i, j);
        assert(parts[k] == s.subrange(i, j));
    }
}

/// The parts of a text, as characters.
pub open spec fn parts_of(v: Seq<Vec<char>>) -> Seq<Seq<char>> {
    Seq::new(v.len(), |i: int| v[i]@)
}

/// Splits a text at each separator.
pub fn split_chars(s: &[char], sep: char) -> (r: Vec<Vec<char>>)
    ensures
        parts_of(r@) == split(s@, sep),
        r@.len() >= 1,
{
    let mut done: Vec<Vec<char>> = Vec::new();
    let mut current: Vec<char> = Vec::new();
    let mut i: usize = 0;
    assert(parts_of(done@).push(current@) =~= split(s@.take(0), sep));
    while i < s.len()
        invariant
            i <= s@.len(),
            parts_of(done@).push(current@) == split(s@.take(i as int), sep),
        decreases s@.len() - i,
    {
        let ghost before = parts_of(done@).push(current@);
        let ghost old_done = done@;
        let c: char = s[i];
        assert(s@.take(i + 1).drop_last() =~= s@.take(i as int));
        if c == sep {
            done.push(current);
            current = Vec::new();
            assert(parts_of(done@) =~= before);
            assert(parts_of(done@).push(current@) =~= split(s@.take(i + 1), sep));
        } else {
            current.push(c);
            assert(before.drop_last() =~= parts_of(done@));
            assert(parts_of(done@).push(current@) =~= split(s@.take(i + 1), sep));
        }
        i = i + 1;
    }
    assert(s@.take(s@.len() as int) =~= s@);
    let ghost before = parts_of(done@).push(current@);
    done.push(current);
    assert(parts_of(done@) =~= before);
    done
}

/// Whether a character occurs.
pub fn has_char(s: &[char], c: char) -> (r: bool)
    ensures
        r == s@.contains(c),
{
    let mut i: usize = 0;
    while i < s.len()
        invariant
            i <= s@.len(),
            forall|j: int| 0 <= j < i ==> s@[j] != c,
        decreases s@.len() - i,
    {
        if s[i] == c {
            return true;
        }
        i = i + 1;
    }
    false
}

/// A decimal digit.
pub open spec fn digit(d: nat) -> char {
    (48 + d) as u8 as char
}

/// A number in decimal digits, without zeros in front.
pub open spec fn decimal(n: nat) -> Seq<char>
    decreases n,
{
    if n < 10 {
        seq![digit(n)]
    } else {
        decimal(n / 10).push(digit(n % 10))
    }
}

/// The decimal digits of a number.
pub fn decimal_of(n: u64) -> (s: String)
    ensures
        s@ == decimal(n as nat),
    decreases n,
{
    let last: char = (48 + (n % 10) as u8) as char;
    let mut s: String = if n < 10 {
        String::new()
    } else {
        decimal_of(n / 10)
    };
    s.push(last);
    assert(n < 10 ==> s@ =~= seq![digit(n as nat)]);
    s
}

/// Appends the decimal digits of a number.
pub fn push_decimal(s: &mut String, n: u64)
    ensures
        final(s)@ == old(s)@ + decimal(n as nat),
{
    let digits: String = decimal_of(n);
    s.push_str(digits.as_str());
}

/// A hexadecimal digit, small letters.
pub open spec fn hex_digit(d: nat) -> char {
    if d < 10 {
        (48 + d) as u8 as char
    } else {
        (87 + d) as u8 as char
    }
}

/// A byte in two hexadecimal digits.
pub open spec fn hex_byte(b: u8) -> Seq<char> {
    seq![hex_digit((b / 16) as nat), hex_digit((b % 16) as nat)]
}

pub fn hex_digit_of(d: u8) -> (c: char)
    requires
        d < 16,
    ensures
        c == hex_digit(d as nat),
{
    if d < 10 {
        (48 + d) as char
    } else {
        (87 + d) as char
    }
}

/// Appends a byte in two hexadecimal digits.
pub fn push_hex_byte(s: &mut String, b: u8)
    ensures
        final(s)@ == old(s)@ + hex_byte(b),
{
    s.push(hex_digit_of(b / 16));
    s.push(hex_digit_of(b % 16));
    assert(s@ =~= old(s)@ + hex_byte(b));
}

/// The text of a string as `Debug` shows it: quoted, with what is not printable
/// escaped.
pub uninterp spec fn debug_text(s: Seq<char>) -> Seq<char>;

/// `Debug` of `str`, as `{:?}` writes it. The quotes and escapes are those of
/// the standard library; the contract only names the result.
#[verifier::external_body]
pub(crate) fn debug_of(s: &str) -> (r: String)
    ensures
        r@ == debug_text(s@),
{
    format!("{s:?}")
}

// ---------------------------------------------------------------------------
// Blanks
// ---------------------------------------------------------------------------

/// A character that has the property `White_Space` in Unicode.
pub open spec fn whitespace(c: char) -> bool {
    let u = c as u32;
    ||| 0x09 <= u <= 0x0d
    ||| u == 0x20
    ||| u == 0x85
    ||| u == 0xa0
    ||| u == 0x1680
    ||| 0x2000 <= u <= 0x200a
    ||| u == 0x2028
    ||| u == 0x2029
    ||| u == 0x202f
    ||| u == 0x205f
    ||| u == 0x3000
}

/// `char::is_whitespace`: whether the character has the property `White_Space`,
/// whose characters Unicode lists.
pub assume_specification[ char::is_whitespace ](c: char) -> (r: bool)
    ensures
        r == whitespace(c),
;

/// A text without the white space at its start.
pub open spec fn trim_start(s: Seq<char>) -> Seq<char>
    decreases s.len(),
{
    if s.len() > 0 && whitespace(s[0]) {
        trim_start(s.drop_first())
    } else {
        s
    }
}

/// A text without the white space at its end.
pub open spec fn trim_end(s: Seq<char>) -> Seq<char>
    decreases s.len(),
{
    if s.len() > 0 && whitespace(s.last()) {
        trim_end(s.drop_last())
    } else {
        s
    }
}

/// A text without the white space around it.
pub open spec fn trim(s: Seq<char>) -> Seq<char> {
    trim_end(trim_start(s))
}

/// A text of nothing but white space.
pub open spec fn blank(s: Seq<char>) -> bool {
    trim(s).len() == 0
}

/// The characters without the white space around them.
pub fn trim_chars(v: &[char]) -> (r: Vec<char>)
    ensures
        r@ == trim(v@),
{
    let mut start: usize = 0;
    assert(v@.skip(0) =~= v@);
    while start < v.len() && v[start].is_whitespace()
        invariant
            start <= v@.len(),
            trim_start(v@.skip(start as int)) == trim_start(v@),
        decreases v@.len() - start,
    {
        assert(v@.skip(start as int).drop_first() =~= v@.skip(start + 1));
        start = start + 1;
    }
    let mut r: Vec<char> = vstd::slice::slice_to_vec(
        vstd::slice::slice_subrange(v, start, v.len()),
    );
    assert(r@ =~= v@.skip(start as int));
    assert(r@ == trim_start(v@)) by {
        if start < v@.len() {
            assert(v@.skip(start as int)[0] == v@[start as int]);
        }
    }
    while r.len() > 0 && r[r.len() - 1].is_whitespace()
        invariant
            trim_end(r@) == trim(v@),
        decreases r@.len(),
    {
        r.pop();
    }
    r
}

/// A text without the white space around it.
pub fn trim_text(s: &str) -> (r: String)
    ensures
        r@ == trim(s@),
{
    string_of(trim_chars(chars_of(s).as_slice()).as_slice())
}

/// Whether a text is nothing but white space.
pub fn is_blank(s: &str) -> (r: bool)
    ensures
        r == blank(s@),
{
    trim_chars(chars_of(s).as_slice()).len() == 0
}

// ---------------------------------------------------------------------------
// Finding
// ---------------------------------------------------------------------------

/// The place of the first such character.
pub open spec fn index_of(s: Seq<char>, c: char) -> Option<int>
    decreases s.len(),
{
    if s.len() == 0 {
        None
    } else if s[0] == c {
        Some(0int)
    } else {
        match index_of(s.drop_first(), c) {
            Some(i) => Some(i + 1),
            None => None,
        }
    }
}

/// The place of the first such character is the one before which there is none.
pub proof fn lemma_index_of(s: Seq<char>, c: char, i: int)
    requires
        0 <= i <= s.len(),
        forall|j: int| 0 <= j < i ==> s[j] != c,
        i < s.len() ==> s[i] == c,
    ensures
        index_of(s, c) == (if i < s.len() {
            Some(i)
        } else {
            None::<int>
        }),
    decreases s.len(),
{
    if s.len() > 0 && i > 0 {
        lemma_index_of(s.drop_first(), c, i - 1);
    }
}

/// What was found first is there, and not before.
pub proof fn lemma_index_found(s: Seq<char>, c: char, i: int)
    requires
        index_of(s, c) == Some(i),
    ensures
        0 <= i < s.len(),
        s[i] == c,
        forall|j: int| 0 <= j < i ==> s[j] != c,
    decreases s.len(),
{
    if s[0] != c {
        let rest = s.drop_first();
        lemma_index_found(rest, c, i - 1);
        assert forall|j: int| 0 <= j < i implies s[j] != c by {
            if j > 0 {
                assert(rest[j - 1] != c);
            }
        }
    }
}

/// What was not found is not there.
pub proof fn lemma_index_missing(s: Seq<char>, c: char)
    requires
        index_of(s, c) is None,
    ensures
        forall|j: int| 0 <= j < s.len() ==> s[j] != c,
    decreases s.len(),
{
    if s.len() > 0 {
        let rest = s.drop_first();
        lemma_index_missing(rest, c);
        assert forall|j: int| 0 <= j < s.len() implies s[j] != c by {
            if j > 0 {
                assert(rest[j - 1] != c);
            }
        }
    }
}

/// The place of the first such character.
pub fn find_char(s: &[char], c: char) -> (r: Option<usize>)
    ensures
        match r {
            Some(i) => i < s@.len() && index_of(s@, c) == Some(i as int) && s@[i as int] == c,
            None => index_of(s@, c) is None,
        },
{
    let mut i: usize = 0;
    while i < s.len() && s[i] != c
        invariant
            i <= s@.len(),
            forall|j: int| 0 <= j < i ==> s@[j] != c,
        decreases s@.len() - i,
    {
        i = i + 1;
    }
    proof {
        lemma_index_of(s@, c, i as int);
    }
    if i < s.len() {
        Some(i)
    } else {
        None
    }
}

/// A text starts with another.
pub open spec fn begins(s: Seq<char>, prefix: Seq<char>) -> bool {
    prefix.len() <= s.len() && s.take(prefix.len() as int) == prefix
}

/// A text ends with another.
pub open spec fn ends(s: Seq<char>, suffix: Seq<char>) -> bool {
    suffix.len() <= s.len() && s.skip(s.len() - suffix.len()) == suffix
}

/// A text holds another, at the place `i`.
pub open spec fn part_at(s: Seq<char>, part: Seq<char>, i: int) -> bool {
    0 <= i && i + part.len() <= s.len() && s.subrange(i, i + part.len()) == part
}

/// A text holds another.
pub open spec fn holds(s: Seq<char>, part: Seq<char>) -> bool {
    exists|i: int| part_at(s, part, i)
}

/// Whether the characters from a place on are those of a part.
pub fn is_part_at(s: &[char], part: &[char], i: usize) -> (r: bool)
    requires
        i + part@.len() <= s@.len(),
    ensures
        r == part_at(s@, part@, i as int),
{
    let mut k: usize = 0;
    let n: usize = s.len();
    while k < part.len()
        invariant
            k <= part@.len(),
            i + part@.len() <= n,
            n == s@.len(),
            forall|j: int| 0 <= j < k ==> s@[i + j] == part@[j],
        decreases part@.len() - k,
    {
        if s[i + k] != part[k] {
            assert(s@.subrange(i as int, i + part@.len())[k as int] != part@[k as int]);
            return false;
        }
        k = k + 1;
    }
    assert(s@.subrange(i as int, i + part@.len()) =~= part@);
    true
}

/// Whether a text starts with another.
pub fn starts_with(s: &[char], prefix: &[char]) -> (r: bool)
    ensures
        r == begins(s@, prefix@),
{
    if prefix.len() > s.len() {
        return false;
    }
    let r: bool = is_part_at(s, prefix, 0);
    assert(s@.subrange(0, prefix@.len() as int) =~= s@.take(prefix@.len() as int));
    r
}

/// Whether a text ends with another.
pub fn ends_with(s: &[char], suffix: &[char]) -> (r: bool)
    ensures
        r == ends(s@, suffix@),
{
    if suffix.len() > s.len() {
        return false;
    }
    let start: usize = s.len() - suffix.len();
    let r: bool = is_part_at(s, suffix, start);
    assert(s@.subrange(start as int, s@.len() as int) =~= s@.skip(start as int));
    r
}

/// Whether a text holds another.
pub fn has_part(s: &[char], part: &[char]) -> (r: bool)
    ensures
        r == holds(s@, part@),
{
    if part.len() > s.len() {
        return false;
    }
    let last: usize = s.len() - part.len();
    let mut i: usize = 0;
    while i <= last
        invariant
            i <= last + 1,
            last + part@.len() == s@.len(),
            forall|j: int| 0 <= j < i ==> !part_at(s@, part@, j),
        decreases last + 1 - i,
    {
        if is_part_at(s, part, i) {
            return true;
        }
        if i == last {
            return false;
        }
        i = i + 1;
    }
    false
}

/// Whether a text holds another.
pub fn contains(s: &str, part: &str) -> (r: bool)
    ensures
        r == holds(s@, part@),
{
    has_part(chars_of(s).as_slice(), chars_of(part).as_slice())
}

/// A text with every occurrence of `from` replaced, from the left, none
/// overlapping another.
pub open spec fn replaced(s: Seq<char>, from: Seq<char>, to: Seq<char>) -> Seq<char>
    decreases s.len(),
{
    if from.len() == 0 || s.len() < from.len() {
        s
    } else if begins(s, from) {
        to + replaced(s.skip(from.len() as int), from, to)
    } else {
        seq![s[0]] + replaced(s.drop_first(), from, to)
    }
}

/// Replaces every occurrence of a text that is not empty.
pub fn replace(s: &[char], from: &[char], to: &[char]) -> (r: Vec<char>)
    requires
        from@.len() > 0,
    ensures
        r@ == replaced(s@, from@, to@),
{
    let mut r: Vec<char> = Vec::new();
    let mut i: usize = 0;
    assert(s@.skip(0) =~= s@);
    assert(r@ + replaced(s@.skip(0), from@, to@) =~= replaced(s@, from@, to@));
    while i < s.len()
        invariant
            i <= s@.len(),
            from@.len() > 0,
            r@ + replaced(s@.skip(i as int), from@, to@) == replaced(s@, from@, to@),
        decreases s@.len() - i,
    {
        let ghost rest = s@.skip(i as int);
        let ghost before = r@;
        if from.len() <= s.len() - i && is_part_at(s, from, i) {
            assert(s@.subrange(i as int, i + from@.len()) =~= rest.take(from@.len() as int));
            assert(rest.skip(from@.len() as int) =~= s@.skip(i + from@.len()));
            r.extend_from_slice(to);
            assert(r@ =~= before + to@);
            i = i + from.len();
            assert(r@ + replaced(s@.skip(i as int), from@, to@) =~= before + replaced(
                rest,
                from@,
                to@,
            ));
        } else {
            proof {
                if from@.len() <= rest.len() {
                    assert(s@.subrange(i as int, i + from@.len()) =~= rest.take(
                        from@.len() as int,
                    ));
                    assert(rest.drop_first() =~= s@.skip(i + 1));
                } else {
                    assert(rest =~= seq![rest[0]] + rest.drop_first());
                    assert(rest.drop_first() =~= s@.skip(i + 1));
                }
            }
            r.push(s[i]);
            i = i + 1;
            assert(r@ + replaced(s@.skip(i as int), from@, to@) =~= before + replaced(
                rest,
                from@,
                to@,
            ));
        }
    }
    assert(s@.skip(i as int) =~= Seq::<char>::empty());
    assert(r@ + Seq::<char>::empty() =~= r@);
    r
}

// ---------------------------------------------------------------------------
// Words and lines
// ---------------------------------------------------------------------------

/// A text cut at each white space: parts, some of them empty.
pub open spec fn split_blanks(s: Seq<char>) -> Seq<Seq<char>>
    decreases s.len(),
{
    if s.len() == 0 {
        seq![Seq::empty()]
    } else {
        let parts = split_blanks(s.drop_last());
        if whitespace(s.last()) {
            parts.push(Seq::empty())
        } else {
            parts.drop_last().push(parts.last().push(s.last()))
        }
    }
}

/// The parts that are not empty.
pub open spec fn nonempty(parts: Seq<Seq<char>>) -> Seq<Seq<char>>
    decreases parts.len(),
{
    if parts.len() == 0 {
        Seq::empty()
    } else if parts.last().len() == 0 {
        nonempty(parts.drop_last())
    } else {
        nonempty(parts.drop_last()).push(parts.last())
    }
}

/// The words of a text: the longest parts without white space.
pub open spec fn words(s: Seq<char>) -> Seq<Seq<char>> {
    nonempty(split_blanks(s))
}

/// The words of a text.
pub fn words_of(s: &[char]) -> (r: Vec<Vec<char>>)
    ensures
        parts_of(r@) == words(s@),
{
    let mut r: Vec<Vec<char>> = Vec::new();
    let mut current: Vec<char> = Vec::new();
    let mut i: usize = 0;
    let ghost mut done: Seq<Seq<char>> = Seq::empty();
    assert(s@.take(0) =~= Seq::<char>::empty());
    assert(done.push(current@) =~= split_blanks(s@.take(0)));
    assert(parts_of(r@) =~= nonempty(done));
    while i < s.len()
        invariant
            i <= s@.len(),
            done.push(current@) == split_blanks(s@.take(i as int)),
            parts_of(r@) == nonempty(done),
        decreases s@.len() - i,
    {
        let c: char = s[i];
        let ghost parts = done.push(current@);
        let ghost before = parts_of(r@);
        assert(s@.take(i + 1).drop_last() =~= s@.take(i as int));
        assert(parts.drop_last() =~= done);
        if c.is_whitespace() {
            let ghost word = current@;
            if current.len() > 0 {
                r.push(current);
                assert(parts_of(r@) =~= before.push(word));
            }
            current = Vec::new();
            proof {
                assert(parts.last() == word);
                done = parts;
            }
        } else {
            current.push(c);
        }
        i = i + 1;
    }
    assert(s@.take(s@.len() as int) =~= s@);
    proof {
        let parts = done.push(current@);
        assert(parts.drop_last() =~= done);
    }
    if current.len() > 0 {
        let ghost before = parts_of(r@);
        let ghost word = current@;
        r.push(current);
        assert(parts_of(r@) =~= before.push(word));
    }
    r
}

/// A line without the carriage return at its end.
pub open spec fn without_return(s: Seq<char>) -> Seq<char> {
    if s.len() > 0 && s.last() == '\r' {
        s.drop_last()
    } else {
        s
    }
}

/// The lines of a text. A line ends with a line feed, or with a carriage return
/// and a line feed; the last one may end with the text.
pub open spec fn lines(s: Seq<char>) -> Seq<Seq<char>> {
    let parts = split(s, '\n');
    let ended = Seq::new((parts.len() - 1) as nat, |i: int| without_return(parts[i]));
    if parts.last().len() == 0 {
        ended
    } else {
        ended.push(parts.last())
    }
}

/// The lines of a text.
pub fn lines_of(s: &[char]) -> (r: Vec<Vec<char>>)
    ensures
        parts_of(r@) == lines(s@),
{
    let parts: Vec<Vec<char>> = split_chars(s, '\n');
    let ghost all = split(s@, '\n');
    let mut r: Vec<Vec<char>> = Vec::new();
    let last: usize = parts.len() - 1;
    let mut i: usize = 0;
    while i < last
        invariant
            i <= last,
            last + 1 == parts@.len(),
            parts_of(parts@) == all,
            parts_of(r@) == Seq::new(i as nat, |j: int| without_return(all[j])),
        decreases last - i,
    {
        let mut line: Vec<char> = parts[i].clone();
        assert(line@ =~= all[i as int]);
        if line.len() > 0 && line[line.len() - 1] == '\r' {
            line.pop();
        }
        let ghost before = parts_of(r@);
        let ghost added = line@;
        r.push(line);
        assert(parts_of(r@) =~= before.push(added));
        i = i + 1;
        assert(parts_of(r@) =~= Seq::new(i as nat, |j: int| without_return(all[j])));
    }
    assert(all.last() == parts@[last as int]@);
    if parts[last].len() > 0 {
        let line: Vec<char> = parts[last].clone();
        assert(line@ =~= all.last());
        let ghost before = parts_of(r@);
        let ghost added = line@;
        r.push(line);
        assert(parts_of(r@) =~= before.push(added));
    }
    r
}

// ---------------------------------------------------------------------------
// Letters
// ---------------------------------------------------------------------------

/// A text in small letters, as Unicode has them.
pub uninterp spec fn lowercase(s: Seq<char>) -> Seq<char>;

/// `str::to_lowercase`: the text in small letters. The letters are those of
/// Unicode; the contract only names the result.
#[verifier::external_body]
pub(crate) fn to_lowercase(s: &str) -> (r: String)
    ensures
        r@ == lowercase(s@),
{
    s.to_lowercase()
}

/// A text with its ASCII capitals made small.
pub fn to_ascii_lower(s: &str) -> (r: String)
    ensures
        r@ == lower(s@),
{
    string_of(lower_chars(chars_of(s).as_slice()).as_slice())
}

/// An ASCII small letter as a capital; any other character as it is.
pub open spec fn upper_char(c: char) -> char {
    if 'a' <= c <= 'z' {
        (c as u8 - 32) as u8 as char
    } else {
        c
    }
}

/// ASCII small letters as capitals.
pub open spec fn upper(s: Seq<char>) -> Seq<char> {
    Seq::new(s.len(), |i: int| upper_char(s[i]))
}

/// The characters with ASCII small letters made capitals.
pub fn upper_chars(v: &[char]) -> (r: Vec<char>)
    ensures
        r@ == upper(v@),
{
    let mut r: Vec<char> = Vec::new();
    let mut i: usize = 0;
    while i < v.len()
        invariant
            i <= v@.len(),
            r@ == upper(v@).take(i as int),
        decreases v@.len() - i,
    {
        let c: char = v[i];
        if 'a' <= c && c <= 'z' {
            r.push((c as u8 - 32) as char);
        } else {
            r.push(c);
        }
        i = i + 1;
        assert(r@ =~= upper(v@).take(i as int));
    }
    assert(r@ =~= upper(v@));
    r
}

/// A hexadecimal digit, capital or small.
pub open spec fn is_hex(c: char) -> bool {
    '0' <= c <= '9' || 'a' <= c <= 'f' || 'A' <= c <= 'F'
}

pub fn is_hex_digit(c: char) -> (r: bool)
    ensures
        r == is_hex(c),
{
    ('0' <= c && c <= '9') || ('a' <= c && c <= 'f') || ('A' <= c && c <= 'F')
}

// ---------------------------------------------------------------------------
// Numbers
// ---------------------------------------------------------------------------

/// A text of decimal digits.
pub open spec fn all_digits(s: Seq<char>) -> bool {
    s.len() > 0 && forall|i: int| 0 <= i < s.len() ==> '0' <= #[trigger] s[i] <= '9'
}

/// The number that decimal digits stand for.
pub open spec fn value_of(s: Seq<char>) -> nat
    decreases s.len(),
{
    if s.len() == 0 {
        0
    } else {
        10 * value_of(s.drop_last()) + (s.last() as nat - 48) as nat
    }
}

/// A text without the plus sign in front of it.
pub open spec fn unsigned_part(s: Seq<char>) -> Seq<char> {
    if s.len() > 0 && s[0] == '+' {
        s.drop_first()
    } else {
        s
    }
}

/// The number that a text stands for, up to a limit: digits, with a plus sign
/// in front or without.
pub open spec fn number(s: Seq<char>, max: nat) -> Option<nat> {
    let digits = unsigned_part(s);
    if all_digits(digits) && value_of(digits) <= max {
        Some(value_of(digits))
    } else {
        None
    }
}

/// Reads a number up to a limit.
pub fn parse_number(s: &str, max: u64) -> (r: Option<u64>)
    ensures
        match r {
            Some(n) => number(s@, max as nat) == Some(n as nat),
            None => number(s@, max as nat) is None,
        },
{
    let chars: Vec<char> = chars_of(s);
    let start: usize = if chars.len() > 0 && chars[0] == '+' {
        1
    } else {
        0
    };
    let ghost digits = unsigned_part(s@);
    assert(digits =~= chars@.skip(start as int));
    if start == chars.len() {
        return None;
    }
    let mut n: u64 = 0;
    let mut i: usize = start;
    assert(digits.take(0) =~= Seq::<char>::empty());
    while i < chars.len()
        invariant
            start <= i <= chars@.len(),
            start <= 1,
            digits == chars@.skip(start as int),
            digits == unsigned_part(s@),
            n <= max,
            n == value_of(digits.take(i - start)),
            forall|j: int| 0 <= j < i - start ==> '0' <= #[trigger] digits[j] <= '9',
        decreases chars@.len() - i,
    {
        let c: char = chars[i];
        assert(digits[i - start] == c);
        if c < '0' || '9' < c {
            return None;
        }
        let d: u64 = (c as u8 - 48) as u64;
        proof {
            let longer = digits.take(i + 1 - start);
            assert(longer.drop_last() =~= digits.take(i - start));
            assert(value_of(longer) == 10 * n + d);
            lemma_value_grows(digits, i + 1 - start);
        }
        if d > max || n > (max - d) / 10 {
            return None;
        }
        n = n * 10 + d;
        i = i + 1;
    }
    assert(digits.take(digits.len() as int) =~= digits);
    Some(n)
}

/// More digits never make a number smaller.
proof fn lemma_value_grows(s: Seq<char>, i: int)
    requires
        0 <= i <= s.len(),
    ensures
        value_of(s.take(i)) <= value_of(s),
    decreases s.len() - i,
{
    if i < s.len() {
        lemma_value_grows(s, i + 1);
        assert(s.take(i + 1).drop_last() =~= s.take(i));
    } else {
        assert(s.take(i) =~= s);
    }
}

/// How many bytes a character takes.
pub open spec fn char_width(c: char) -> nat {
    if c as u32 <= 0x7f {
        1
    } else if c as u32 <= 0x7ff {
        2
    } else if c as u32 <= 0xffff {
        3
    } else {
        4
    }
}

fn width_of(c: char) -> (n: usize)
    ensures
        n == char_width(c),
{
    let u: u32 = c as u32;
    if u <= 0x7f {
        1
    } else if u <= 0x7ff {
        2
    } else if u <= 0xffff {
        3
    } else {
        4
    }
}

/// A further character takes its width.
pub proof fn lemma_byte_len_push(s: Seq<char>, c: char)
    ensures
        byte_len(s.push(c)) == byte_len(s) + char_width(c),
    decreases s.len(),
{
    broadcast use vstd::utf8::char_is_scalar;

    let t = s.push(c);
    if s.len() == 0 {
        assert(t.drop_first() =~= Seq::<char>::empty());
        assert(encode_utf8(t.drop_first()) =~= Seq::<u8>::empty());
        assert(t[0] == c);
    } else {
        assert(t.drop_first() =~= s.drop_first().push(c));
        lemma_byte_len_push(s.drop_first(), c);
        assert(t[0] == s[0]);
    }
}

/// The longest prefix of a text that takes no more than `maximum` bytes.
pub open spec fn fitting(s: Seq<char>, maximum: nat) -> Seq<char>
    decreases s.len(),
{
    if byte_len(s) <= maximum || s.len() == 0 {
        s
    } else {
        fitting(s.drop_last(), maximum)
    }
}

/// A prefix that fits is no longer than the longest that does.
proof fn lemma_fitting(s: Seq<char>, maximum: nat, k: int)
    requires
        0 <= k <= s.len(),
        byte_len(s.take(k)) <= maximum,
        k < s.len() ==> byte_len(s.take(k + 1)) > maximum,
    ensures
        fitting(s, maximum) == s.take(k),
    decreases s.len(),
{
    if k == s.len() {
        assert(s.take(k) =~= s);
    } else {
        lemma_prefix_len(s, k + 1, s.len() as int);
        assert(s.take(s.len() as int) =~= s);
        let t = s.drop_last();
        assert(t.take(k) =~= s.take(k));
        if k < t.len() {
            assert(t.take(k + 1) =~= s.take(k + 1));
        }
        lemma_fitting(t, maximum, k);
    }
}

/// A longer prefix takes at least as many bytes.
proof fn lemma_prefix_len(s: Seq<char>, a: int, b: int)
    requires
        0 <= a <= b <= s.len(),
    ensures
        byte_len(s.take(a)) <= byte_len(s.take(b)),
    decreases b - a,
{
    if a < b {
        lemma_prefix_len(s, a, b - 1);
        assert(s.take(b) =~= s.take(b - 1).push(s[b - 1]));
        lemma_byte_len_push(s.take(b - 1), s[b - 1]);
    }
}

/// The longest prefix of a text that takes no more than `maximum` bytes.
pub fn truncate_utf8(value: &str, maximum: usize) -> (r: String)
    ensures
        r@ == fitting(value@, maximum as nat),
{
    if len_of(value) <= maximum {
        return value.to_owned();
    }
    let v: Vec<char> = chars_of(value);
    let mut r: String = String::new();
    let mut used: usize = 0;
    let mut i: usize = 0;
    assert(v@.take(0) =~= Seq::<char>::empty());
    while i < v.len()
        invariant
            i <= v@.len(),
            v@ == value@,
            r@ == v@.take(i as int),
            used == byte_len(v@.take(i as int)),
            used <= maximum,
        decreases v@.len() - i,
    {
        let width: usize = width_of(v[i]);
        proof {
            assert(v@.take(i + 1) =~= v@.take(i as int).push(v@[i as int]));
            lemma_byte_len_push(v@.take(i as int), v@[i as int]);
        }
        if width > maximum - used {
            proof {
                lemma_fitting(v@, maximum as nat, i as int);
            }
            return r;
        }
        r.push(v[i]);
        used = used + width;
        i = i + 1;
    }
    proof {
        lemma_fitting(v@, maximum as nat, i as int);
    }
    r
}

} // verus!
