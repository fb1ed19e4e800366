//! What the operations on text give, said of their results.

use vstd::prelude::*;

use crate::error::{first_error, ErrorView};
use crate::text::{
    all_digits, ascii_lowered, ascii_text, begins_with, decimal, digit, digits_value, is_port,
    is_white_space, joined, last_position, occurrences, occurs_in, replaced, split_last, split_on,
    trimmed, trimmed_end, trimmed_start, visible_text, without_leading, without_prefix,
    without_trailing,
};

verus! {

/// A prefix is removed exactly where the text starts with it, and what is left stands behind it.
pub proof fn law_prefix(s: Seq<char>, p: Seq<char>, rest: Seq<char>)
    ensures
        without_prefix(s, p) == Some(rest) <==> s == p + rest,
        without_prefix(s, p) is None <==> !p.is_prefix_of(s),
        begins_with(s, p) <==> p.is_prefix_of(s),
{
    if s == p + rest {
        assert(s.take(p.len() as int) =~= p);
        assert(s.skip(p.len() as int) =~= rest);
    }
    if begins_with(s, p) {
        assert(s =~= p + s.skip(p.len() as int));
        assert(p =~= s.subrange(0, p.len() as int));
    }
    if p.is_prefix_of(s) {
        assert(s.take(p.len() as int) =~= p);
    }
}

/// Text occurs where it stands between something before and something behind it.
pub proof fn law_occurrence(s: Seq<char>, p: Seq<char>)
    ensures
        occurs_in(s, p) <==> exists|a: Seq<char>, b: Seq<char>| s == #[trigger] (a + p + b),
{
    if occurs_in(s, p) {
        let i = choose|i: int| 0 <= i <= s.len() && begins_with(#[trigger] s.skip(i), p);
        let a = s.take(i);
        let b = s.skip(i).skip(p.len() as int);
        assert(s.skip(i) =~= p + b);
        assert(s =~= a + p + b);
    }
    if exists|a: Seq<char>, b: Seq<char>| s == #[trigger] (a + p + b) {
        let (a, b) = choose|a: Seq<char>, b: Seq<char>| s == #[trigger] (a + p + b);
        assert(s.skip(a.len() as int).take(p.len() as int) =~= p);
        assert(begins_with(s.skip(a.len() as int), p));
    }
}

/// White space is what the Unicode standard lists under `White_Space`.
pub proof fn law_white_space(c: char)
    ensures
        is_white_space(c) <==> c == '\t' || c == '\n' || c == '\u{b}' || c == '\u{c}' || c == '\r'
            || c == '\u{20}' || c == '\u{85}' || c == '\u{a0}' || c == '\u{1680}' || c == '\u{2000}'
            || c == '\u{2001}' || c == '\u{2002}' || c == '\u{2003}' || c == '\u{2004}' || c
            == '\u{2005}' || c == '\u{2006}' || c == '\u{2007}' || c == '\u{2008}' || c == '\u{2009}'
            || c == '\u{200a}' || c == '\u{2028}' || c == '\u{2029}' || c == '\u{202f}' || c
            == '\u{205f}' || c == '\u{3000}',
{
}

proof fn lemma_trimmed_start(s: Seq<char>) -> (n: int)
    ensures
        0 <= n <= s.len(),
        trimmed_start(s) == s.skip(n),
        forall|i: int| 0 <= i < n ==> is_white_space(#[trigger] s[i]),
        n < s.len() ==> !is_white_space(s[n]),
    decreases s.len(),
{
    if s.len() > 0 && is_white_space(s[0]) {
        let n = lemma_trimmed_start(s.skip(1));
        assert(s.skip(1).skip(n) =~= s.skip(n + 1));
        assert forall|i: int| 0 <= i < n + 1 implies is_white_space(#[trigger] s[i]) by {
            if i > 0 {
                assert(s.skip(1)[i - 1] == s[i]);
            }
        }
        if n + 1 < s.len() {
            assert(s.skip(1)[n] == s[n + 1]);
        }
        n + 1
    } else {
        assert(s.skip(0) =~= s);
        0
    }
}

proof fn lemma_trimmed_end(s: Seq<char>) -> (n: int)
    ensures
        0 <= n <= s.len(),
        trimmed_end(s) == s.take(n),
        forall|i: int| n <= i < s.len() ==> is_white_space(#[trigger] s[i]),
        n > 0 ==> !is_white_space(s[n - 1]),
    decreases s.len(),
{
    if s.len() > 0 && is_white_space(s.last()) {
        let n = lemma_trimmed_end(s.drop_last());
        assert(s.drop_last().take(n) =~= s.take(n));
        assert forall|i: int| n <= i < s.len() implies is_white_space(#[trigger] s[i]) by {
            if i < s.len() - 1 {
                assert(s.drop_last()[i] == s[i]);
            }
        }
        n
    } else {
        assert(s.take(s.len() as int) =~= s);
        s.len() as int
    }
}

/// Trimming takes white space from both ends, all of it, and nothing else: text between white space
/// that neither starts nor ends with white space is what is left.
pub proof fn law_trimmed(front: Seq<char>, middle: Seq<char>, back: Seq<char>)
    requires
        forall|i: int| 0 <= i < front.len() ==> is_white_space(#[trigger] front[i]),
        forall|i: int| 0 <= i < back.len() ==> is_white_space(#[trigger] back[i]),
        middle.len() > 0 ==> !is_white_space(middle[0]) && !is_white_space(middle.last()),
    ensures
        trimmed(front + middle + back) == middle,
{
    let s = front + middle + back;
    let n = lemma_trimmed_start(s);
    let m = lemma_trimmed_end(s.skip(n));
    if middle.len() > 0 {
        assert(s[front.len() as int] == middle[0]);
        if n < front.len() {
            assert(s[n] == front[n]);
        }
        assert(n == front.len());
        let t = s.skip(n);
        assert(t =~= middle + back);
        assert(t[middle.len() - 1] == middle.last());
        if m > middle.len() {
            assert(t[m - 1] == back[m - 1 - middle.len()]);
        }
        assert(m == middle.len());
        assert(t.take(m) =~= middle);
    } else {
        if n < s.len() {
            if n < front.len() {
                assert(s[n] == front[n]);
            } else {
                assert(s[n] == back[n - front.len()]);
            }
        }
        assert(trimmed(s) =~= middle);
    }
}

/// Text can be taken apart into white space, what trimming leaves, and white space.
pub proof fn law_trimmed_parts(s: Seq<char>)
    ensures
        exists|front: Seq<char>, back: Seq<char>|
            #![trigger front + trimmed(s) + back]
            s == front + trimmed(s) + back && (forall|i: int|
                0 <= i < front.len() ==> is_white_space(#[trigger] front[i])) && (forall|i: int|
                0 <= i < back.len() ==> is_white_space(#[trigger] back[i])),
        trimmed(s).len() > 0 ==> !is_white_space(trimmed(s)[0]) && !is_white_space(
            trimmed(s).last(),
        ),
{
    let n = lemma_trimmed_start(s);
    let t = s.skip(n);
    let m = lemma_trimmed_end(t);
    let front = s.take(n);
    let back = t.skip(m);
    assert(t =~= t.take(m) + back);
    assert(s =~= front + trimmed(s) + back);
    assert forall|i: int| 0 <= i < front.len() implies is_white_space(#[trigger] front[i]) by {
        assert(front[i] == s[i]);
    }
    assert forall|i: int| 0 <= i < back.len() implies is_white_space(#[trigger] back[i]) by {
        assert(back[i] == t[m + i]);
    }
    if m > 0 {
        assert(trimmed(s)[0] == s[n]);
        assert(trimmed(s).last() == t[m - 1]);
    }
}

/// Turning text into lower case moves the letters from `A` to `Z`, and no other character.
pub proof fn law_lowered(s: Seq<char>)
    ensures
        ascii_lowered(s).len() == s.len(),
        forall|i: int|
            0 <= i < s.len() ==> (#[trigger] ascii_lowered(s)[i]) as int == (if 'A' <= s[i] <= 'Z' {
                s[i] as int + 32
            } else {
                s[i] as int
            }),
{
}

/// Trailing characters are removed, all of them, and nothing else.
pub proof fn law_trailing(s: Seq<char>, c: char, front: Seq<char>)
    requires
        front.is_prefix_of(s),
        forall|i: int| front.len() <= i < s.len() ==> #[trigger] s[i] == c,
        front.len() > 0 ==> front.last() != c,
    ensures
        without_trailing(s, c) == front,
    decreases s.len(),
{
    if s.len() > front.len() {
        assert(s[s.len() - 1] == c);
        assert(front =~= s.drop_last().subrange(0, front.len() as int));
        assert forall|i: int| front.len() <= i < s.drop_last().len() implies
            #[trigger] s.drop_last()[i] == c by {
            assert(s[i] == c);
        }
        law_trailing(s.drop_last(), c, front);
    } else {
        assert(front =~= s);
    }
}

/// Joining puts the separator between each two parts.
pub proof fn law_joined(a: Seq<Seq<char>>, b: Seq<Seq<char>>, sep: Seq<char>, part: Seq<char>)
    ensures
        joined(Seq::empty(), sep) == Seq::<char>::empty(),
        joined(seq![part], sep) == part,
        a.len() > 0 && b.len() > 0 ==> joined(a + b, sep) == joined(a, sep) + sep + joined(b, sep),
    decreases b.len(),
{
    if a.len() > 0 && b.len() > 1 {
        law_joined(a, b.drop_last(), sep, part);
        assert((a + b).drop_last() =~= a + b.drop_last());
        assert(joined(a + b, sep) =~= joined(a, sep) + sep + joined(b, sep));
    } else if a.len() > 0 && b.len() == 1 {
        assert((a + b).drop_last() =~= a);
        assert(b =~= seq![b[0]]);
    }
}

/// Splitting gives parts without the separator, which joined by it give the text back.
pub proof fn law_split(s: Seq<char>, c: char)
    ensures
        split_on(s, c).len() > 0,
        joined(split_on(s, c), seq![c]) == s,
        forall|i: int| 0 <= i < split_on(s, c).len() ==> !(#[trigger] split_on(s, c)[i]).contains(c),
    decreases s.len(),
{
    if s.len() > 0 {
        law_split(s.drop_last(), c);
        let parts = split_on(s.drop_last(), c);
        let all = split_on(s, c);
        if s.last() == c {
            assert(all.drop_last() =~= parts);
            assert(joined(all, seq![c]) =~= s);
        } else {
            let last = parts.last();
            assert(parts =~= parts.drop_last().push(last));
            assert(all.drop_last() =~= parts.drop_last());
            assert(all.last() == last.push(s.last()));
            assert(joined(all, seq![c]) =~= joined(parts, seq![c]).push(s.last()));
            assert(joined(all, seq![c]) =~= s);
            assert forall|i: int| 0 <= i < all.len() implies !(#[trigger] all[i]).contains(c) by {
                if i < all.len() - 1 {
                    assert(all[i] == parts[i]);
                } else {
                    assert(!parts[parts.len() - 1].contains(c));
                    assert forall|k: int| 0 <= k < all[i].len() implies all[i][k] != c by {
                        if k < last.len() {
                            assert(last[k] != c);
                        }
                    }
                }
            }
        }
    } else {
        assert(joined(split_on(s, c), seq![c]) =~= s);
    }
}

proof fn lemma_last_position(s: Seq<char>, c: char)
    ensures
        -1 <= last_position(s, c) < s.len(),
        last_position(s, c) >= 0 ==> s[last_position(s, c)] == c,
        forall|i: int| last_position(s, c) < i < s.len() ==> #[trigger] s[i] != c,
    decreases s.len(),
{
    if s.len() > 0 && s.last() != c {
        lemma_last_position(s.drop_last(), c);
        assert forall|i: int| last_position(s, c) < i < s.len() implies #[trigger] s[i] != c by {
            if i < s.len() - 1 {
                assert(s.drop_last()[i] == s[i]);
            }
        }
    }
}

/// Text is split at its last separator: none stands behind it. Without a separator it is not split.
pub proof fn law_split_last(s: Seq<char>, c: char, a: Seq<char>, b: Seq<char>)
    ensures
        split_last(s, c) == Some((a, b)) <==> s == a.push(c) + b && !b.contains(c),
        split_last(s, c) is None <==> !s.contains(c),
{
    lemma_last_position(s, c);
    let i = last_position(s, c);
    if s == a.push(c) + b && !b.contains(c) {
        assert(s[a.len() as int] == c);
        if i > a.len() {
            assert(b[i - a.len() - 1] == s[i]);
        }
        assert(i == a.len());
        assert(s.take(i) =~= a);
        assert(s.skip(i + 1) =~= b);
    }
    if i >= 0 {
        let head = s.take(i);
        let tail = s.skip(i + 1);
        assert(s =~= head.push(c) + tail);
        assert forall|k: int| 0 <= k < tail.len() implies tail[k] != c by {
            assert(tail[k] == s[i + 1 + k]);
        }
    }
}

/// Replacing changes the first occurrence and goes on behind it; text without an occurrence stays.
pub proof fn law_replaced(s: Seq<char>, from: Seq<char>, to: Seq<char>, n: int)
    requires
        from.len() > 0,
        0 <= n <= s.len(),
        forall|i: int| 0 <= i < n ==> !from.is_prefix_of(#[trigger] s.skip(i)),
    ensures
        from.is_prefix_of(s.skip(n)) ==> replaced(s, from, to) == s.take(n) + to + replaced(
            s.skip(n + from.len()),
            from,
            to,
        ),
        n == s.len() ==> replaced(s, from, to) == s,
    decreases n,
{
    assert(s.skip(0) =~= s);
    law_prefix(s, from, s);
    if n > 0 {
        assert(!from.is_prefix_of(s.skip(0)));
        let t = s.skip(1);
        assert forall|i: int| 0 <= i < n - 1 implies !from.is_prefix_of(#[trigger] t.skip(i)) by {
            assert(t.skip(i) =~= s.skip(i + 1));
        }
        law_replaced(t, from, to, n - 1);
        assert(t.skip(n - 1) =~= s.skip(n));
        if from.is_prefix_of(s.skip(n)) {
            assert(t.skip(n - 1 + from.len()) =~= s.skip(n + from.len()));
            assert(replaced(s, from, to) =~= s.take(n) + to + replaced(
                s.skip(n + from.len()),
                from,
                to,
            ));
        }
        if n == s.len() {
            assert(replaced(s, from, to) =~= s);
        }
    } else {
        if from.is_prefix_of(s.skip(0)) {
            assert(replaced(s, from, to) =~= s.take(0) + to + replaced(
                s.skip(from.len() as int),
                from,
                to,
            ));
        }
    }
}

/// Leading copies are removed one by one until there is none.
pub proof fn law_leading(s: Seq<char>, p: Seq<char>)
    requires
        p.len() > 0,
    ensures
        without_leading(p + s, p) == without_leading(s, p),
        !p.is_prefix_of(s) ==> without_leading(s, p) == s,
{
    law_prefix(p + s, p, s);
    law_prefix(s, p, s);
    assert((p + s).skip(p.len() as int) =~= s);
}

/// Occurrences are counted one by one.
pub proof fn law_occurrences(s: Seq<char>, c: char)
    ensures
        occurrences(s, c) == s.filter(|x: char| x == c).len(),
    decreases s.len(),
{
    reveal(Seq::filter);
    if s.len() > 0 {
        law_occurrences(s.drop_last(), c);
    }
}

/// Header bytes are read as text exactly where all of them are visible ASCII, spaces or tabs, and then
/// character by character.
pub proof fn law_visible_text(bytes: Seq<u8>)
    ensures
        visible_text(bytes) is Some <==> forall|i: int|
            0 <= i < bytes.len() ==> 32 <= #[trigger] bytes[i] <= 126 || bytes[i] == 9,
        visible_text(bytes) matches Some(text) ==> text.len() == bytes.len() && forall|i: int|
            0 <= i < text.len() ==> (#[trigger] text[i]) as int == bytes[i] as int,
{
    if visible_text(bytes) is Some {
        assert forall|i: int| 0 <= i < bytes.len() implies 32 <= #[trigger] bytes[i] <= 126
            || bytes[i] == 9 by {}
        assert forall|i: int| 0 <= i < bytes.len() implies (#[trigger] ascii_text(bytes)[i]) as int
            == bytes[i] as int by {
            assert(32 <= bytes[i] <= 126 || bytes[i] == 9);
        }
    }
}

/// Decimal notation is made of digits, without zeros in front, and stands for its number.
pub proof fn law_decimal(n: nat)
    ensures
        decimal(n).len() > 0,
        forall|i: int| 0 <= i < decimal(n).len() ==> '0' <= #[trigger] decimal(n)[i] <= '9',
        decimal(n)[0] == '0' ==> n == 0 && decimal(n).len() == 1,
        digits_value(decimal(n)) == n,
    decreases n,
{
    reveal_with_fuel(digits_value, 2);
    if n < 10 {
        assert(decimal(n).drop_last() =~= Seq::empty());
        assert(decimal(n)[0] == digit(n));
    } else {
        law_decimal(n / 10);
        assert(decimal(n).drop_last() =~= decimal(n / 10));
        assert forall|i: int| 0 <= i < decimal(n).len() implies '0' <= #[trigger] decimal(n)[i]
            <= '9' by {
            if i < decimal(n).len() - 1 {
                assert(decimal(n)[i] == decimal(n / 10)[i]);
            }
        }
        assert(decimal(n)[0] == decimal(n / 10)[0]);
    }
}

proof fn lemma_leading_zeros(zeros: Seq<char>, s: Seq<char>)
    requires
        forall|i: int| 0 <= i < zeros.len() ==> #[trigger] zeros[i] == '0',
    ensures
        digits_value(zeros + s) == digits_value(s),
    decreases zeros.len() + s.len(),
{
    if s.len() > 0 {
        lemma_leading_zeros(zeros, s.drop_last());
        assert((zeros + s).drop_last() =~= zeros + s.drop_last());
    } else if zeros.len() > 0 {
        assert(zeros + s =~= zeros);
        assert(zeros[zeros.len() - 1] == '0');
        assert(zeros.drop_last() + s =~= zeros.drop_last());
        lemma_leading_zeros(zeros.drop_last(), s);
    }
}

proof fn lemma_long_number(s: Seq<char>)
    requires
        all_digits(s),
        s.len() >= 6,
        s[0] != '0',
    ensures
        digits_value(s) >= 100000,
    decreases s.len(),
{
    let t = s.drop_last();
    assert(all_digits(t)) by {
        assert forall|i: int| 0 <= i < t.len() implies '0' <= #[trigger] t[i] <= '9' by {
            assert(t[i] == s[i]);
        }
    }
    assert('0' <= s[s.len() - 1] <= '9');
    if s.len() > 6 {
        lemma_long_number(t);
    } else {
        reveal_with_fuel(digits_value, 7);
        assert('0' <= s[0] <= '9');
        assert('0' <= s[1] <= '9');
        assert('0' <= s[2] <= '9');
        assert('0' <= s[3] <= '9');
        assert('0' <= s[4] <= '9');
        assert(t.drop_last() =~= s.take(4));
        assert(s.take(4).drop_last() =~= s.take(3));
        assert(s.take(3).drop_last() =~= s.take(2));
        assert(s.take(2).drop_last() =~= s.take(1));
        assert(s.take(1).drop_last() =~= Seq::empty());
    }
}

/// A port number has digits only, at least one, and is at most 65535: behind zeros there are up to four
/// digits, or five that do not stand for more. A plus sign may stand before it.
pub proof fn law_port(zeros: Seq<char>, s: Seq<char>)
    requires
        forall|i: int| 0 <= i < zeros.len() ==> #[trigger] zeros[i] == '0',
    ensures
        is_port(zeros + s) ==> zeros.len() + s.len() > 0,
        zeros.len() > 0 && is_port(zeros + s) ==> forall|i: int|
            0 <= i < s.len() ==> '0' <= #[trigger] s[i] <= '9',
        zeros.len() == 0 && is_port(s) && s[0] != '+' ==> forall|i: int|
            0 <= i < s.len() ==> '0' <= #[trigger] s[i] <= '9',
        (forall|i: int| 0 <= i < s.len() ==> '0' <= #[trigger] s[i] <= '9') ==> {
            &&& zeros.len() + s.len() > 0 && s.len() <= 4 ==> is_port(zeros + s)
            &&& s.len() == 5 ==> (is_port(zeros + s) <==> 10000 * (s[0] as int - 48) + 1000 * (s[1] as int - 48)
                + 100 * (s[2] as int - 48) + 10 * (s[3] as int - 48) + (s[4] as int - 48) <= 65535)
            &&& s.len() > 5 && s[0] != '0' ==> !is_port(zeros + s)
        },
        is_port(seq!['+'] + s) ==> s.len() > 0 && s[0] != '+',
        s.len() > 0 && s[0] != '+' ==> (is_port(seq!['+'] + s) <==> is_port(s)),
{
    let all = zeros + s;
    assert((seq!['+'] + s).skip(1) =~= s);
    if zeros.len() > 0 {
        assert(all[0] == zeros[0]);
        if is_port(all) {
            assert forall|i: int| 0 <= i < s.len() implies '0' <= #[trigger] s[i] <= '9' by {
                assert(all[zeros.len() + i] == s[i]);
            }
        }
    } else {
        assert(all =~= s);
    }
    if forall|i: int| 0 <= i < s.len() ==> '0' <= #[trigger] s[i] <= '9' {
        assert(all_digits(all)) by {
            assert forall|i: int| 0 <= i < all.len() implies '0' <= #[trigger] all[i] <= '9' by {
                if i < zeros.len() {
                    assert(all[i] == zeros[i]);
                } else {
                    assert(all[i] == s[i - zeros.len()]);
                }
            }
        }
        if all.len() > 0 {
            assert('0' <= all[0] <= '9');
        }
        lemma_leading_zeros(zeros, s);
        if s.len() > 5 && s[0] != '0' {
            lemma_long_number(s);
        }
        if s.len() <= 5 {
            lemma_short_number(s);
        }
    }
}

proof fn lemma_short_number(s: Seq<char>)
    requires
        all_digits(s),
        s.len() <= 5,
    ensures
        s.len() <= 4 ==> digits_value(s) <= 9999,
        s.len() == 5 ==> digits_value(s) == 10000 * (s[0] as int - 48) + 1000 * (s[1] as int - 48) + 100 * (s[2] as int - 48) + 10 * (s[3] as int - 48) + (s[4] as int - 48),
{
    reveal_with_fuel(digits_value, 6);
    assert(s.take(s.len() as int) =~= s);
    if s.len() >= 1 {
        assert('0' <= s[0] <= '9');
        assert(s.take(1).drop_last() =~= Seq::empty());
    }
    if s.len() >= 2 {
        assert('0' <= s[1] <= '9');
        assert(s.take(2).drop_last() =~= s.take(1));
    }
    if s.len() >= 3 {
        assert('0' <= s[2] <= '9');
        assert(s.take(3).drop_last() =~= s.take(2));
    }
    if s.len() >= 4 {
        assert('0' <= s[3] <= '9');
        assert(s.take(4).drop_last() =~= s.take(3));
    }
    if s.len() >= 5 {
        assert('0' <= s[4] <= '9');
        assert(s.take(5).drop_last() =~= s.take(4));
    }
}

/// Of several errors the first one counts.
pub proof fn law_first_error(errors: Seq<Option<ErrorView>>)
    ensures
        first_error(errors) is None <==> forall|i: int|
            0 <= i < errors.len() ==> #[trigger] errors[i] is None,
        forall|i: int|
            0 <= i < errors.len() && #[trigger] errors[i] is Some && (forall|j: int|
                0 <= j < i ==> #[trigger] errors[j] is None) ==> first_error(errors) == errors[i],
    decreases errors.len(),
{
    crate::error::lemma_first_error_none(errors);
    if errors.len() > 0 {
        let front = errors.drop_last();
        law_first_error(front);
        assert forall|i: int|
            0 <= i < errors.len() && #[trigger] errors[i] is Some && (forall|j: int|
                0 <= j < i ==> #[trigger] errors[j] is None) implies first_error(errors)
            == errors[i] by {
            if i < front.len() {
                assert(front[i] is Some);
                assert forall|j: int| 0 <= j < i implies #[trigger] front[j] is None by {
                    assert(errors[j] is None);
                }
            } else {
                assert forall|j: int| 0 <= j < front.len() implies #[trigger] front[j] is None by {
                    assert(errors[j] is None);
                }
            }
        }
    }
}

} // verus!
