//! What holds of the operations on texts, whatever the text.
use crate::text::all_digits;
use crate::text::begins;
use crate::text::blank;
use crate::text::decimal;
use crate::text::digit;
use crate::text::hex_byte;
use crate::text::lower;
use crate::text::nonempty;
use crate::text::number;
use crate::text::replaced;
use crate::text::split_blanks;
use crate::text::trim;
use crate::text::trim_end;
use crate::text::trim_start;
use crate::text::upper;
use crate::text::value_of;
use crate::text::whitespace;
use crate::text::words;
use vstd::prelude::*;

verus! {

/// Trimming takes whitespace off both ends and nothing else: what is left starts and
/// ends with something else, or is empty.
pub proof fn law_trimming_takes_whitespace_alone(s: Seq<char>) -> (r: (int, int))
    ensures
        0 <= r.0 <= r.1 <= s.len(),
        trim(s) == s.subrange(r.0, r.1),
        forall|i: int| 0 <= i < r.0 ==> whitespace(#[trigger] s[i]),
        forall|i: int| r.1 <= i < s.len() ==> whitespace(#[trigger] s[i]),
        r.0 < r.1 ==> !whitespace(s[r.0]) && !whitespace(s[r.1 - 1]),
        blank(s) <==> forall|i: int| 0 <= i < s.len() ==> whitespace(#[trigger] s[i]),
{
    let a = lemma_trim_start(s);
    let mid = s.skip(a);
    let b = lemma_trim_end(mid);
    assert(mid.take(b) =~= s.subrange(a, a + b));
    assert forall|i: int| a + b <= i < s.len() implies whitespace(#[trigger] s[i]) by {
        assert(s[i] == mid[i - a]);
    }
    if b > 0 {
        assert(s[a] == mid[0]);
        assert(s[a + b - 1] == mid[b - 1]);
    }
    if blank(s) {
        assert(b == 0);
    } else {
        assert(!whitespace(s[a]));
    }
    (a, a + b)
}

proof fn lemma_trim_start(s: Seq<char>) -> (a: int)
    ensures
        0 <= a <= s.len(),
        trim_start(s) == s.skip(a),
        forall|i: int| 0 <= i < a ==> whitespace(#[trigger] s[i]),
        a < s.len() ==> !whitespace(s[a]),
    decreases s.len(),
{
    if s.len() > 0 && whitespace(s[0]) {
        let rest = s.drop_first();
        let a = lemma_trim_start(rest);
        assert(rest.skip(a) =~= s.skip(a + 1));
        assert forall|i: int| 0 <= i < a + 1 implies whitespace(#[trigger] s[i]) by {
            if i > 0 {
                assert(s[i] == rest[i - 1]);
            }
        }
        if a < rest.len() {
            assert(rest[a] == s[a + 1]);
        }
        a + 1
    } else {
        assert(s.skip(0) =~= s);
        0
    }
}

proof fn lemma_trim_end(s: Seq<char>) -> (b: int)
    ensures
        0 <= b <= s.len(),
        trim_end(s) == s.take(b),
        forall|i: int| b <= i < s.len() ==> whitespace(#[trigger] s[i]),
        b > 0 ==> !whitespace(s[b - 1]),
    decreases s.len(),
{
    if s.len() > 0 && whitespace(s.last()) {
        let b = lemma_trim_end(s.drop_last());
        assert(s.drop_last().take(b) =~= s.take(b));
        assert forall|i: int| b <= i < s.len() implies whitespace(#[trigger] s[i]) by {
            if i < s.len() - 1 {
                assert(s[i] == s.drop_last()[i]);
            }
        }
        b
    } else {
        assert(s.take(s.len() as int) =~= s);
        s.len() as int
    }
}

/// Only ASCII letters have another case, and writing one way or the other first makes
/// no difference.
pub proof fn law_cases_are_of_letters(s: Seq<char>, i: int)
    requires
        0 <= i < s.len(),
    ensures
        lower(s).len() == s.len(),
        lower(lower(s)) == lower(s),
        lower(upper(s)) == lower(s),
        !('A' <= s[i] <= 'Z') ==> lower(s)[i] == s[i],
        'A' <= s[i] <= 'Z' ==> lower(s)[i] as int == s[i] as int + 32,
{
    assert(lower(lower(s)) =~= lower(s));
    assert(lower(upper(s)) =~= lower(s));
}

/// The decimal digits of a number read back as the number.
pub proof fn law_decimals_read_back(n: nat, max: nat)
    ensures
        all_digits(decimal(n)),
        value_of(decimal(n)) == n,
        number(decimal(n), max) == (if n <= max {
            Some(n)
        } else {
            None
        }),
        n > 0 ==> decimal(n)[0] != '0',
    decreases n,
{
    if n >= 10 {
        law_decimals_read_back(n / 10, max);
        let front = decimal(n / 10);
        let s = decimal(n);
        assert(s.drop_last() =~= front);
        assert forall|i: int| 0 <= i < s.len() implies '0' <= #[trigger] s[i] <= '9' by {
            if i < front.len() {
                assert(s[i] == front[i]);
            }
        }
        assert(s[0] == front[0]);
    } else {
        let s = decimal(n);
        assert(s.drop_last() =~= Seq::<char>::empty());
        assert(value_of(s.drop_last()) == 0);
        assert(s[0] == digit(n));
    }
}

/// A byte has two hexadecimal digits, the higher one first.
pub proof fn law_hexadecimal_digits(b: u8)
    ensures
        hex_byte(b).len() == 2,
        forall|i: int|
            0 <= i < 2 ==> '0' <= #[trigger] hex_byte(b)[i] <= '9' || 'a' <= hex_byte(b)[i] <= 'f',
        b == 16 * digit_value(hex_byte(b)[0]) + digit_value(hex_byte(b)[1]),
{
}

/// What a hexadecimal digit stands for.
pub open spec fn digit_value(c: char) -> int {
    if '0' <= c <= '9' {
        c as int - '0' as int
    } else {
        c as int - 'a' as int + 10
    }
}

proof fn lemma_blanks(s: Seq<char>, i: int, j: int)
    requires
        0 <= i <= j <= s.len(),
        forall|x: int| 0 <= x < i ==> whitespace(#[trigger] s[x]),
        forall|x: int| i <= x < j ==> !whitespace(#[trigger] s[x]),
        j == s.len() || whitespace(s[j]),
    ensures
        split_blanks(s).len() >= i + 1,
        split_blanks(s).len() == i + 1 <==> j == s.len(),
        forall|x: int| 0 <= x < i ==> (#[trigger] split_blanks(s)[x]).len() == 0,
        split_blanks(s)[i] == s.subrange(i, j),
    decreases s.len(),
{
    if s.len() == 0 {
        assert(s.subrange(0, 0) =~= Seq::<char>::empty());
    } else {
        let front = s.drop_last();
        if j == s.len() && i < j {
            lemma_blanks(front, i, j - 1);
            assert(front.subrange(i, j - 1).push(s.last()) =~= s.subrange(i, j));
        } else if j == s.len() {
            lemma_blanks(front, i - 1, i - 1);
            assert(whitespace(s[i - 1]));
            assert(front.subrange(i - 1, i - 1) =~= Seq::<char>::empty());
            assert(s.subrange(i, j) =~= Seq::<char>::empty());
        } else {
            lemma_blanks(front, i, j);
            assert(front.subrange(i, j) =~= s.subrange(i, j));
        }
    }
}

proof fn lemma_nonempty(parts: Seq<Seq<char>>, i: int)
    requires
        0 <= i < parts.len(),
        forall|x: int| 0 <= x < i ==> (#[trigger] parts[x]).len() == 0,
        parts[i].len() > 0,
    ensures
        nonempty(parts).len() > 0,
        nonempty(parts)[0] == parts[i],
    decreases parts.len(),
{
    if i < parts.len() - 1 {
        lemma_nonempty(parts.drop_last(), i);
    } else {
        lemma_none(parts.drop_last());
    }
}

proof fn lemma_none(parts: Seq<Seq<char>>)
    requires
        forall|x: int| 0 <= x < parts.len() ==> (#[trigger] parts[x]).len() == 0,
    ensures
        nonempty(parts).len() == 0,
    decreases parts.len(),
{
    if parts.len() > 0 {
        assert(parts[parts.len() - 1].len() == 0);
        lemma_none(parts.drop_last());
    }
}

/// The first word of a text is what lies between the whitespace in front of it and the
/// whitespace behind it.
pub proof fn law_the_first_word(s: Seq<char>, i: int, j: int)
    requires
        0 <= i < j <= s.len(),
        forall|x: int| 0 <= x < i ==> whitespace(#[trigger] s[x]),
        forall|x: int| i <= x < j ==> !whitespace(#[trigger] s[x]),
        j == s.len() || whitespace(s[j]),
    ensures
        words(s).len() > 0,
        words(s)[0] == s.subrange(i, j),
{
    lemma_blanks(s, i, j);
    lemma_nonempty(split_blanks(s), i);
}

/// A text of whitespace has no words.
pub proof fn law_blank_texts_have_no_words(s: Seq<char>)
    requires
        forall|x: int| 0 <= x < s.len() ==> whitespace(#[trigger] s[x]),
    ensures
        words(s).len() == 0,
{
    let n = s.len() as int;
    lemma_blanks(s, n, n);
    assert(s.subrange(n, n) =~= Seq::<char>::empty());
    lemma_none(split_blanks(s));
}

/// Replacing leaves what does not start like the replaced part, and goes on behind it.
pub proof fn law_replacing_leaves_the_rest(a: Seq<char>, s: Seq<char>, from: Seq<char>, to: Seq<char>)
    requires
        from.len() > 0,
        !a.contains(from[0]),
    ensures
        replaced(a + s, from, to) == a + replaced(s, from, to),
        replaced(a, from, to) == a,
    decreases a.len(),
{
    if a.len() == 0 {
        assert(a + s =~= s);
        assert(a + replaced(s, from, to) =~= replaced(s, from, to));
        assert(replaced(a, from, to) =~= a);
    } else {
        let rest = a.drop_first();
        assert(a[0] != from[0]) by {
            assert(a.contains(a[0]));
        }
        assert(!rest.contains(from[0])) by {
            if rest.contains(from[0]) {
                let i = choose|i: int| 0 <= i < rest.len() && rest[i] == from[0];
                assert(a[i + 1] == from[0]);
            }
        }
        law_replacing_leaves_the_rest(rest, s, from, to);
        let all = a + s;
        if begins(all, from) {
            assert(all.take(from.len() as int)[0] == from[0]);
        }
        if begins(a, from) {
            assert(a.take(from.len() as int)[0] == from[0]);
        }
        assert(all.drop_first() =~= rest + s);
        if all.len() < from.len() {
            assert(replaced(s, from, to) == s);
        } else {
            assert(seq![a[0]] + (rest + replaced(s, from, to)) =~= a + replaced(s, from, to));
        }
        assert(seq![a[0]] + rest =~= a);
    }
}

/// The part that is replaced gives way to the other text.
pub proof fn law_replacing_puts_the_other_text(s: Seq<char>, from: Seq<char>, to: Seq<char>)
    requires
        from.len() > 0,
    ensures
        replaced(from + s, from, to) == to + replaced(s, from, to),
{
    let all = from + s;
    assert(all.take(from.len() as int) =~= from);
    assert(all.skip(from.len() as int) =~= s);
}

/// A part that differs is passed over by one character.
pub proof fn law_replacing_passes_over(s: Seq<char>, from: Seq<char>, to: Seq<char>)
    requires
        from.len() > 0,
        s.len() > 0,
        !begins(s, from),
    ensures
        replaced(s, from, to) == seq![s[0]] + replaced(s.drop_first(), from, to),
{
    if s.len() < from.len() {
        assert(replaced(s.drop_first(), from, to) =~= s.drop_first());
        assert(seq![s[0]] + s.drop_first() =~= s);
    }
}

} // verus!
