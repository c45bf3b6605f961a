//! Finding events by a text: the words of a search anywhere in what an event
//! says, whatever the case of their ASCII letters.
use crate::text::begins;
use crate::text::byte_len;
use crate::text::chars_of;
use crate::text::ends;
use crate::text::ends_with;
use crate::text::find_char;
use crate::text::has_part;
use crate::text::holds;
use crate::text::index_of;
use crate::text::len_of;
use crate::text::lemma_index_found;
use crate::text::lemma_index_missing;
use crate::text::lemma_index_of;
use crate::text::lower_char;
use crate::text::lower_char_of;
use crate::text::part_at;
use vstd::prelude::*;

verus! {

/// The longest pattern that the database takes, in bytes.
pub const MAX_PATTERN_BYTES: usize = 50_000;

/// A character as the database compares it: ASCII letters in either case are the
/// same, and the two characters that Unicode leaves out at the end of its first
/// plane count as the one for what cannot be read.
pub open spec fn fold_char(c: char) -> char {
    if c == '\u{fffe}' || c == '\u{ffff}' {
        '\u{fffd}'
    } else {
        lower_char(c)
    }
}

pub open spec fn folded(s: Seq<char>) -> Seq<char> {
    Seq::new(s.len(), |i: int| fold_char(s[i]))
}

/// A text as far as the database reads it: up to a null character.
pub open spec fn before_null(s: Seq<char>) -> Seq<char> {
    match index_of(s, '\0') {
        Some(i) => s.take(i),
        None => s,
    }
}

/// A search finds a text: the text holds it, whatever the case of its ASCII
/// letters. Of a search with a null character only what stands before is read, and
/// the text must end with it.
pub open spec fn matched(s: Seq<char>, query: Seq<char>) -> bool {
    let text = folded(before_null(s));
    let part = folded(before_null(query));
    if index_of(query, '\0') is Some {
        ends(text, part)
    } else {
        holds(text, part)
    }
}

fn fold_chars(v: &[char]) -> (r: Vec<char>)
    ensures
        r@ == folded(v@),
{
    let mut r: Vec<char> = Vec::new();
    let mut i: usize = 0;
    while i < v.len()
        invariant
            i <= v@.len(),
            r@ == folded(v@).take(i as int),
        decreases v@.len() - i,
    {
        let c: char = v[i];
        r.push(
            if c == '\u{fffe}' || c == '\u{ffff}' {
                '\u{fffd}'
            } else {
                lower_char_of(c)
            },
        );
        i = i + 1;
        assert(r@ =~= folded(v@).take(i as int));
    }
    assert(r@ =~= folded(v@));
    r
}

/// A text as far as it is read, for comparing, and whether that is all of it.
fn read_part(s: &str) -> (r: (Vec<char>, bool))
    ensures
        r.0@ == folded(before_null(s@)),
        r.1 == (index_of(s@, '\0') is None),
{
    let v: Vec<char> = chars_of(s);
    match find_char(v.as_slice(), '\0') {
        Some(i) => {
            let front: &[char] = vstd::slice::slice_subrange(v.as_slice(), 0, i);
            assert(front@ =~= s@.take(i as int));
            (fold_chars(front), false)
        },
        None => (fold_chars(v.as_slice()), true),
    }
}

/// Whether a search finds a text.
pub fn matches_text(s: &str, query: &str) -> (r: bool)
    ensures
        r == matched(s@, query@),
{
    let (text, _) = read_part(s);
    let (part, whole) = read_part(query);
    if whole {
        has_part(text.as_slice(), part.as_slice())
    } else {
        ends_with(text.as_slice(), part.as_slice())
    }
}

/// A character that means more than itself in a pattern.
pub open spec fn special(c: char) -> bool {
    c == '%' || c == '_' || c == '\\'
}

/// A text with a backslash in front of each special character.
pub open spec fn escaped(s: Seq<char>) -> Seq<char>
    decreases s.len(),
{
    if s.len() == 0 {
        Seq::empty()
    } else if special(s.last()) {
        escaped(s.drop_last()).push('\\').push(s.last())
    } else {
        escaped(s.drop_last()).push(s.last())
    }
}

/// Puts a backslash in front of each special character.
pub fn escape_like(value: &str) -> (r: String)
    ensures
        r@ == escaped(value@),
{
    let chars: Vec<char> = chars_of(value);
    let mut r: String = String::new();
    let mut i: usize = 0;
    while i < chars.len()
        invariant
            i <= chars@.len(),
            chars@ == value@,
            r@ == escaped(value@.take(i as int)),
        decreases chars@.len() - i,
    {
        let c: char = chars[i];
        assert(value@.take(i + 1).drop_last() =~= value@.take(i as int));
        if c == '%' || c == '_' || c == '\\' {
            r.push('\\');
        }
        r.push(c);
        i = i + 1;
    }
    assert(value@.take(value@.len() as int) =~= value@);
    r
}

/// A text matches a pattern of a database: `%` stands for any characters, `_`
/// for any one, a backslash for the character behind it; characters match as the
/// database compares them.
pub open spec fn like(pattern: Seq<char>, s: Seq<char>) -> bool
    decreases pattern.len() + s.len(),
{
    if pattern.len() == 0 {
        s.len() == 0
    } else if pattern[0] == '%' {
        like(pattern.drop_first(), s) || (s.len() > 0 && like(pattern, s.drop_first()))
    } else if s.len() == 0 {
        false
    } else if pattern[0] == '_' {
        like(pattern.drop_first(), s.drop_first())
    } else if pattern[0] == '\\' {
        pattern.len() > 1 && fold_char(pattern[1]) == fold_char(s[0]) && like(
            pattern.skip(2),
            s.drop_first(),
        )
    } else {
        fold_char(pattern[0]) == fold_char(s[0]) && like(pattern.drop_first(), s.drop_first())
    }
}

/// The pattern that a search is put to a database with.
pub open spec fn search_pattern(query: Seq<char>) -> Seq<char> {
    seq!['%'] + escaped(query) + seq!['%']
}

proof fn lemma_escaped_front(s: Seq<char>)
    requires
        s.len() > 0,
    ensures
        escaped(s) == (if special(s[0]) {
            seq!['\\', s[0]]
        } else {
            seq![s[0]]
        }) + escaped(s.drop_first()),
    decreases s.len(),
{
    let head = if special(s[0]) {
        seq!['\\', s[0]]
    } else {
        seq![s[0]]
    };
    if s.len() == 1 {
        assert(s.drop_last() =~= Seq::<char>::empty());
        assert(s.drop_first() =~= Seq::<char>::empty());
        assert(escaped(s) =~= head + escaped(s.drop_first()));
    } else {
        lemma_escaped_front(s.drop_last());
        assert(s.drop_last().drop_first() =~= s.drop_first().drop_last());
        assert(escaped(s) =~= head + escaped(s.drop_first()));
    }
}

/// A lone `%` matches everything.
proof fn lemma_any(s: Seq<char>)
    ensures
        like(seq!['%'], s),
    decreases s.len(),
{
    assert(seq!['%'].drop_first() =~= Seq::<char>::empty());
    assert(like(Seq::<char>::empty(), s) == (s.len() == 0));
    if s.len() > 0 {
        lemma_any(s.drop_first());
    }
}

/// An escaped text in front of a `%` matches what starts with the text.
proof fn lemma_like_start(query: Seq<char>, s: Seq<char>)
    ensures
        like(escaped(query) + seq!['%'], s) == begins(folded(s), folded(query)),
    decreases query.len(),
{
    let pattern = escaped(query) + seq!['%'];
    if query.len() == 0 {
        assert(pattern =~= seq!['%']);
        lemma_any(s);
        assert(folded(s).take(0) =~= folded(query));
    } else {
        lemma_escaped_front(query);
        let rest = query.drop_first();
        let rest_pattern = escaped(rest) + seq!['%'];
        if special(query[0]) {
            assert(pattern[0] == '\\');
            assert(pattern[1] == query[0]);
            assert(pattern.skip(2) =~= rest_pattern);
        } else {
            assert(pattern[0] == query[0]);
            assert(pattern.drop_first() =~= rest_pattern);
        }
        if s.len() > 0 {
            lemma_like_start(rest, s.drop_first());
            let a = folded(s);
            let b = folded(query);
            assert(a.drop_first() =~= folded(s.drop_first()));
            assert(b.drop_first() =~= folded(rest));
            if begins(a, b) {
                assert(a.take(b.len() as int)[0] == b[0]);
                assert(a.drop_first().take(b.len() - 1) =~= a.take(b.len() as int).drop_first());
            }
            if a[0] == b[0] && begins(a.drop_first(), b.drop_first()) {
                assert(a.take(b.len() as int) =~= seq![a[0]] + a.drop_first().take(b.len() - 1));
                assert(b =~= seq![b[0]] + b.drop_first());
            }
        }
    }
}

/// The pattern of a search matches what holds the search.
proof fn lemma_like_part(query: Seq<char>, s: Seq<char>)
    ensures
        like(search_pattern(query), s) == holds(folded(s), folded(query)),
    decreases s.len(),
{
    let pattern = search_pattern(query);
    let inner = escaped(query) + seq!['%'];
    let a = folded(s);
    let b = folded(query);
    assert(pattern[0] == '%');
    assert(pattern.drop_first() =~= inner);
    lemma_like_start(query, s);
    if begins(a, b) {
        assert(a.subrange(0, b.len() as int) =~= a.take(b.len() as int));
        assert(part_at(a, b, 0));
    }
    if s.len() > 0 {
        lemma_like_part(query, s.drop_first());
        let rest = folded(s.drop_first());
        assert(rest =~= a.drop_first());
        if holds(rest, b) {
            let i = choose|i: int| part_at(rest, b, i);
            assert(a.subrange(i + 1, i + 1 + b.len()) =~= rest.subrange(i, i + b.len()));
            assert(part_at(a, b, i + 1));
        }
        if holds(a, b) {
            let i = choose|i: int| part_at(a, b, i);
            if i == 0 {
                assert(a.take(b.len() as int) =~= a.subrange(0, b.len() as int));
            } else {
                assert(rest.subrange(i - 1, i - 1 + b.len()) =~= a.subrange(i, i + b.len()));
                assert(part_at(rest, b, i - 1));
            }
        }
    } else {
        if holds(a, b) {
            let i = choose|i: int| part_at(a, b, i);
            assert(a.take(b.len() as int) =~= a.subrange(i, i + b.len()));
        }
    }
}

/// An escaped text matches nothing but the text.
proof fn lemma_like_same(query: Seq<char>, s: Seq<char>)
    ensures
        like(escaped(query), s) == (folded(s) == folded(query)),
    decreases query.len(),
{
    let pattern = escaped(query);
    if query.len() == 0 {
        assert(folded(query).len() == 0);
        if s.len() == 0 {
            assert(folded(s) =~= folded(query));
        } else {
            assert(folded(s).len() > 0);
        }
    } else {
        lemma_escaped_front(query);
        let rest = query.drop_first();
        if special(query[0]) {
            assert(pattern[0] == '\\');
            assert(pattern[1] == query[0]);
            assert(pattern.skip(2) =~= escaped(rest));
        } else {
            assert(pattern[0] == query[0]);
            assert(pattern.drop_first() =~= escaped(rest));
        }
        if s.len() > 0 {
            lemma_like_same(rest, s.drop_first());
            let a = folded(s);
            let b = folded(query);
            assert(a.drop_first() =~= folded(s.drop_first()));
            assert(b.drop_first() =~= folded(rest));
            if a[0] == b[0] && a.drop_first() == b.drop_first() {
                assert(a =~= seq![a[0]] + a.drop_first());
                assert(b =~= seq![b[0]] + b.drop_first());
            }
        } else {
            assert(folded(s).len() != folded(query).len());
        }
    }
}

/// An escaped text behind a `%` matches what ends with the text.
proof fn lemma_like_end(query: Seq<char>, s: Seq<char>)
    ensures
        like(seq!['%'] + escaped(query), s) == ends(folded(s), folded(query)),
    decreases s.len(),
{
    let pattern = seq!['%'] + escaped(query);
    let a = folded(s);
    let b = folded(query);
    assert(pattern[0] == '%');
    assert(pattern.drop_first() =~= escaped(query));
    lemma_like_same(query, s);
    if a == b {
        assert(a.subrange(a.len() - b.len(), a.len() as int) =~= b);
        assert(a.skip(0) =~= a);
    }
    if s.len() > 0 {
        lemma_like_end(query, s.drop_first());
        let rest = folded(s.drop_first());
        assert(rest =~= a.drop_first());
        if b.len() <= rest.len() {
            assert(rest.skip(rest.len() - b.len()) =~= a.skip(a.len() - b.len()));
        } else if b.len() == a.len() {
            assert(a.skip(0) =~= a);
        }
    } else if b.len() == 0 {
        assert(a =~= b);
    }
}

/// The null character is where it is found first.
proof fn lemma_null_at(s: Seq<char>, i: int)
    requires
        0 <= i < s.len(),
        s[i] == '\0',
        forall|j: int| 0 <= j < i ==> s[j] != '\0',
    ensures
        before_null(s) == s.take(i),
{
    lemma_index_of(s, '\0', i);
}

/// Escaping adds nothing but backslashes: one text behind another is escaped behind
/// it.
proof fn lemma_escaped_both(a: Seq<char>, b: Seq<char>)
    ensures
        escaped(a + b) == escaped(a) + escaped(b),
    decreases b.len(),
{
    if b.len() == 0 {
        assert(a + b =~= a);
        assert(escaped(a) + escaped(b) =~= escaped(a));
    } else {
        assert((a + b).drop_last() =~= a + b.drop_last());
        lemma_escaped_both(a, b.drop_last());
        assert(escaped(a + b) =~= escaped(a) + escaped(b));
    }
}

proof fn lemma_escaped_null(s: Seq<char>)
    requires
        forall|j: int| 0 <= j < s.len() ==> s[j] != '\0',
    ensures
        forall|j: int| 0 <= j < escaped(s).len() ==> escaped(s)[j] != '\0',
    decreases s.len(),
{
    if s.len() > 0 {
        let front = s.drop_last();
        lemma_escaped_null(front);
        assert(s.last() != '\0');
        assert forall|j: int| 0 <= j < escaped(s).len() implies escaped(s)[j] != '\0' by {
            if j < escaped(front).len() {
                assert(escaped(s)[j] == escaped(front)[j]);
            }
        }
    }
}

/// A search put to a database finds the texts that it should: the database reads the
/// pattern and the text up to a null character, and in the pattern every character
/// of the search stands for itself.
pub proof fn law_pattern_finds_the_text(query: Seq<char>, s: Seq<char>)
    ensures
        like(before_null(search_pattern(query)), before_null(s)) == matched(s, query),
{
    let pattern = search_pattern(query);
    let text = before_null(s);
    match index_of(query, '\0') {
        Some(i) => {
            lemma_index_found(query, '\0', i);
            let front = query.take(i);
            let back = query.skip(i + 1);
            assert(query =~= front + seq!['\0'] + back);
            lemma_escaped_both(front + seq!['\0'], back);
            lemma_escaped_both(front, seq!['\0']);
            assert(seq!['\0'].drop_last() =~= Seq::<char>::empty());
            assert(escaped(Seq::<char>::empty()) =~= Seq::<char>::empty());
            assert(seq!['\0'].last() == '\0');
            assert(!special('\0'));
            assert(escaped(seq!['\0']) =~= seq!['\0']);
            lemma_escaped_null(front);
            let at = 1 + escaped(front).len();
            assert(pattern[at as int] == '\0');
            assert forall|j: int| 0 <= j < at implies pattern[j] != '\0' by {
                if j > 0 {
                    assert(pattern[j] == escaped(front)[j - 1]);
                }
            }
            lemma_null_at(pattern, at as int);
            assert(pattern.take(at as int) =~= seq!['%'] + escaped(front));
            lemma_like_end(front, text);
        },
        None => {
            lemma_index_missing(query, '\0');
            lemma_escaped_null(query);
            assert forall|j: int| 0 <= j < pattern.len() implies pattern[j] != '\0' by {
                if 0 < j < pattern.len() - 1 {
                    assert(pattern[j] == escaped(query)[j - 1]);
                }
            }
            lemma_index_of(pattern, '\0', pattern.len() as int);
            lemma_like_part(query, text);
        },
    }
}

/// Whether the pattern of a search is too long for the database.
pub fn is_overlong(query: &str) -> (r: bool)
    ensures
        r == (byte_len(search_pattern(query@)) > MAX_PATTERN_BYTES),
{
    let mut pattern: String = "%".to_owned();
    pattern.push_str(escape_like(query).as_str());
    pattern.push_str("%");
    proof {
        reveal_strlit("%");
        assert("%"@ =~= seq!['%']);
        assert(pattern@ =~= search_pattern(query@));
    }
    len_of(pattern.as_str()) > MAX_PATTERN_BYTES
}

} // verus!
