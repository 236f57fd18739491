//! Letters: case, the places of one text in another, and the bytes that text takes.
use crate::text::{
    before, chars_of, lemma_text_order, lemma_text_order_transitive, part_at, text_less, text_of,
    views,
};
use vstd::prelude::*;

verus! {

/// A character with an ASCII capital made small.
pub open spec fn ascii_lower_char(c: char) -> char {
    if 'A' <= c && c <= 'Z' {
        ((c as u32) + 32) as char
    } else {
        c
    }
}

/// A text with its ASCII capitals made small.
pub open spec fn ascii_lower(s: Seq<char>) -> Seq<char> {
    s.map_values(|c: char| ascii_lower_char(c))
}

fn lower_ascii_char(c: char) -> (out: char)
    ensures
        out == ascii_lower_char(c),
{
    if 'A' <= c && c <= 'Z' {
        (c as u8 + 32) as char
    } else {
        c
    }
}

/// Makes the ASCII capitals of a text small.
pub fn to_ascii_lower(s: &str) -> (out: String)
    ensures
        out@ == ascii_lower(s@),
{
    let chars = chars_of(s);
    let mut out: Vec<char> = Vec::new();
    let mut i: usize = 0;
    while i < chars.len()
        invariant
            i <= chars@.len(),
            chars@ == s@,
            out@ == ascii_lower(s@.take(i as int)),
        decreases chars@.len() - i,
    {
        out.push(lower_ascii_char(chars[i]));
        proof {
            assert(s@.take(i + 1) =~= s@.take(i as int).push(s@[i as int]));
            assert(out@ =~= ascii_lower(s@.take(i + 1)));
        }
        i = i + 1;
    }
    proof {
        assert(s@.take(i as int) =~= s@);
    }
    let text = text_of(&out, 0, out.len());
    proof {
        assert(text@ =~= out@);
    }
    text
}

/// An ASCII letter or digit.
pub open spec fn is_ascii_word(c: char) -> bool {
    ('0' <= c && c <= '9') || ('A' <= c && c <= 'Z') || ('a' <= c && c <= 'z')
}

/// What std makes of a text in small letters.
pub uninterp spec fn lowered(s: Seq<char>) -> Seq<char>;

/// `str::to_lowercase` of std. The result is a function of the text alone.
#[verifier::external_body]
pub(crate) fn to_lower(s: &str) -> (out: String)
    ensures
        out@ == lowered(s@),
{
    s.to_lowercase()
}

/// What std makes of a character in small letters.
pub uninterp spec fn lowered_char(c: char) -> Seq<char>;

/// `char::to_lowercase` of std, its characters put together. The result is a function of
/// the character alone.
#[verifier::external_body]
pub(crate) fn to_lower_char(c: char) -> (out: String)
    ensures
        out@ == lowered_char(c),
{
    c.to_lowercase().to_string()
}

/// Whether std takes a character for a letter or a number.
pub uninterp spec fn is_word_char(c: char) -> bool;

/// `char::is_alphanumeric` of std. The result is a function of the character alone.
pub assume_specification[ char::is_alphanumeric ](c: char) -> (word: bool)
    ensures
        word == is_word_char(c),
;

/// How many bytes a character takes in UTF-8.
pub open spec fn utf8_len(c: char) -> nat {
    if (c as u32) < 0x80 {
        1
    } else if (c as u32) < 0x800 {
        2
    } else if (c as u32) < 0x10000 {
        3
    } else {
        4
    }
}

/// How many bytes a text takes in UTF-8.
pub open spec fn byte_len(s: Seq<char>) -> nat
    decreases s.len(),
{
    if s.len() == 0 {
        0
    } else {
        byte_len(s.drop_last()) + utf8_len(s.last())
    }
}

fn char_bytes(c: char) -> (n: usize)
    ensures
        n == utf8_len(c),
        1 <= n <= 4,
{
    let code: u32 = c as u32;
    if code < 0x80 {
        1
    } else if code < 0x800 {
        2
    } else if code < 0x10000 {
        3
    } else {
        4
    }
}

/// How many leading characters fit into a number of bytes.
pub open spec fn chars_within(s: Seq<char>, bytes: nat) -> nat
    decreases s.len(),
{
    if byte_len(s) <= bytes {
        s.len()
    } else {
        chars_within(s.drop_last(), bytes)
    }
}

proof fn lemma_byte_len_grows(s: Seq<char>, i: int)
    requires
        0 <= i <= s.len(),
    ensures
        byte_len(s.take(i)) <= byte_len(s),
        i < s.len() ==> byte_len(s.take(i)) < byte_len(s),
    decreases s.len(),
{
    if i < s.len() {
        lemma_byte_len_grows(s.drop_last(), i);
        assert(s.drop_last().take(i) =~= s.take(i));
    } else {
        assert(s.take(i) =~= s);
    }
}

proof fn lemma_chars_within(s: Seq<char>, bytes: nat, n: int)
    requires
        0 <= n <= s.len(),
        byte_len(s.take(n)) <= bytes,
        n < s.len() ==> byte_len(s.take(n + 1)) > bytes,
    ensures
        chars_within(s, bytes) == n,
    decreases s.len(),
{
    if n < s.len() {
        lemma_byte_len_grows(s, n + 1);
        assert(s.drop_last().take(n) =~= s.take(n));
        if n + 1 < s.len() {
            assert(s.drop_last().take(n + 1) =~= s.take(n + 1));
        } else {
            assert(s.drop_last() =~= s.take(n));
            assert(s.drop_last().take(n) =~= s.drop_last());
        }
        lemma_chars_within(s.drop_last(), bytes, n);
    } else {
        assert(s.take(n) =~= s);
    }
}

/// How many leading characters fit into a number of bytes.
pub fn leading_chars(chars: &Vec<char>, bytes: usize) -> (n: usize)
    ensures
        n == chars_within(chars@, bytes as nat),
        n <= chars@.len(),
{
    let mut n: usize = 0;
    let mut used: usize = 0;
    proof {
        assert(chars@.take(0) =~= Seq::<char>::empty());
    }
    while n < chars.len()
        invariant
            n <= chars@.len(),
            used <= bytes,
            used == byte_len(chars@.take(n as int)),
        decreases chars@.len() - n,
    {
        let step: usize = char_bytes(chars[n]);
        proof {
            assert(chars@.take(n + 1).drop_last() =~= chars@.take(n as int));
            assert(chars@.take(n + 1).last() == chars@[n as int]);
        }
        if step > bytes - used {
            proof {
                lemma_chars_within(chars@, bytes as nat, n as int);
            }
            return n;
        }
        used = used + step;
        n = n + 1;
    }
    proof {
        lemma_chars_within(chars@, bytes as nat, n as int);
    }
    n
}

/// How many bytes the first `n` characters take, but no more than `cap`.
pub open spec fn capped_bytes(s: Seq<char>, cap: nat) -> nat {
    if byte_len(s) <= cap {
        byte_len(s)
    } else {
        cap
    }
}

/// How many bytes the first `n` characters take; the largest number where that is too
/// many to count.
pub fn bytes_of(chars: &Vec<char>, n: usize) -> (bytes: usize)
    requires
        n <= chars@.len(),
    ensures
        bytes == capped_bytes(chars@.take(n as int), usize::MAX as nat),
{
    let mut i: usize = 0;
    let mut used: usize = 0;
    proof {
        assert(chars@.take(0) =~= Seq::<char>::empty());
    }
    while i < n
        invariant
            i <= n <= chars@.len(),
            used == byte_len(chars@.take(i as int)),
        decreases n - i,
    {
        let step: usize = char_bytes(chars[i]);
        proof {
            assert(chars@.take(i + 1).drop_last() =~= chars@.take(i as int));
            assert(chars@.take(i + 1).last() == chars@[i as int]);
        }
        if step > usize::MAX - used {
            proof {
                lemma_byte_len_grows(chars@.take(n as int), i + 1);
                assert(chars@.take(n as int).take(i + 1) =~= chars@.take(i + 1));
            }
            return usize::MAX;
        }
        used = used + step;
        i = i + 1;
    }
    used
}

/// Where a text first occurs in another.
pub open spec fn first_place(s: Seq<char>, part: Seq<char>) -> Option<nat>
    decreases s.len(),
{
    if s.len() < part.len() {
        None
    } else if s.take(part.len() as int) == part {
        Some(0)
    } else if s.len() == 0 {
        None
    } else {
        match first_place(s.skip(1), part) {
            Some(at) => Some(at + 1),
            None => None,
        }
    }
}

proof fn lemma_first_place(s: Seq<char>, part: Seq<char>, at: int)
    requires
        0 <= at,
        part.len() > 0,
        forall|k: int|
            0 <= k < at && k + part.len() <= s.len() ==> #[trigger] s.subrange(k, k + part.len())
                != part,
    ensures
        at + part.len() <= s.len() && s.subrange(at, at + part.len()) == part ==> first_place(
            s,
            part,
        ) == Some(at as nat),
        at + part.len() > s.len() ==> first_place(s, part) is None,
    decreases at,
{
    if s.len() >= part.len() {
        assert(s.take(part.len() as int) =~= s.subrange(0, 0int + part.len()));
        if at > 0 {
            let rest = s.skip(1);
            assert forall|k: int|
                0 <= k < at - 1 && k + part.len() <= rest.len() implies #[trigger] rest.subrange(
                k,
                k + part.len(),
            ) != part by {
                assert(rest.subrange(k, k + part.len()) =~= s.subrange(k + 1, k + 1 + part.len()));
            }
            lemma_first_place(rest, part, at - 1);
            if at + part.len() <= s.len() {
                assert(rest.subrange(at - 1, at - 1 + part.len()) =~= s.subrange(
                    at,
                    at + part.len(),
                ));
            }
        }
    }
}

/// Where a text first occurs in another.
pub fn find_text(chars: &Vec<char>, part: &Vec<char>) -> (out: Option<usize>)
    requires
        part@.len() > 0,
    ensures
        match out {
            Some(at) => first_place(chars@, part@) == Some(at as nat) && at + part@.len()
                <= chars@.len(),
            None => first_place(chars@, part@) is None,
        },
{
    let mut at: usize = 0;
    while at < chars.len() && part.len() <= chars.len() - at
        invariant
            at <= chars@.len(),
            part@.len() > 0,
            forall|k: int|
                0 <= k < at && k + part@.len() <= chars@.len() ==> #[trigger] chars@.subrange(
                    k,
                    k + part@.len(),
                ) != part@,
        decreases chars@.len() - at,
    {
        if part_at(chars, at, part) {
            proof {
                lemma_first_place(chars@, part@, at as int);
            }
            return Some(at);
        }
        at = at + 1;
    }
    proof {
        lemma_first_place(chars@, part@, at as int);
    }
    None
}

/// A text with every occurrence of `from` replaced, from the left, none overlapping.
pub open spec fn replaced(s: Seq<char>, from: Seq<char>, to: Seq<char>) -> Seq<char>
    decreases s.len(),
{
    if from.len() == 0 || s.len() < from.len() {
        s
    } else if s.take(from.len() as int) == from {
        to + replaced(s.skip(from.len() as int), from, to)
    } else {
        seq![s[0]] + replaced(s.skip(1), from, to)
    }
}

/// Replaces every occurrence of a text that is not empty.
pub fn replace_text(s: &str, from: &str, to: &str) -> (out: String)
    ensures
        out@ == replaced(s@, from@, to@),
{
    let chars = chars_of(s);
    let part = chars_of(from);
    let new = chars_of(to);
    let mut out: Vec<char> = Vec::new();
    let mut i: usize = 0;
    proof {
        assert(s@.skip(0) =~= s@);
    }
    while part.len() > 0 && i < chars.len() && part.len() <= chars.len() - i
        invariant
            i <= chars@.len(),
            chars@ == s@,
            part@ == from@,
            new@ == to@,
            replaced(s@, from@, to@) == out@ + replaced(s@.skip(i as int), from@, to@),
        decreases chars@.len() - i,
    {
        let ghost before = out@;
        let ghost rest = s@.skip(i as int);
        proof {
            assert(rest.take(from@.len() as int) =~= s@.subrange(i as int, i + from@.len()));
        }
        if part_at(&chars, i, &part) {
            put_all(&mut out, &new);
            proof {
                assert(rest.skip(from@.len() as int) =~= s@.skip(i + from@.len()));
                assert(out@ + replaced(s@.skip(i + from@.len()), from@, to@) =~= before + replaced(
                    rest,
                    from@,
                    to@,
                ));
            }
            i = i + part.len();
        } else {
            out.push(chars[i]);
            proof {
                assert(rest.skip(1) =~= s@.skip(i + 1));
                assert(out@ + replaced(s@.skip(i + 1), from@, to@) =~= before + replaced(
                    rest,
                    from@,
                    to@,
                ));
            }
            i = i + 1;
        }
    }
    let ghost before = out@;
    let ghost rest = s@.skip(i as int);
    let mut j: usize = i;
    proof {
        assert(rest.take(0) =~= Seq::<char>::empty());
        assert(replaced(rest, from@, to@) == rest);
    }
    while j < chars.len()
        invariant
            i <= j <= chars@.len(),
            chars@ == s@,
            rest == s@.skip(i as int),
            out@ == before + rest.take(j - i),
        decreases chars@.len() - j,
    {
        out.push(chars[j]);
        proof {
            assert(rest.take(j - i + 1) =~= rest.take(j - i).push(chars@[j as int]));
            assert(out@ =~= before + rest.take(j - i + 1));
        }
        j = j + 1;
    }
    proof {
        assert(rest.take(j - i) =~= rest);
    }
    let text = text_of(&out, 0, out.len());
    proof {
        assert(text@ =~= out@);
    }
    text
}

/// Appends the characters of one list to another.
pub fn put_all(out: &mut Vec<char>, new: &Vec<char>)
    ensures
        final(out)@ == old(out)@ + new@,
{
    let mut i: usize = 0;
    proof {
        assert(out@ =~= old(out)@ + new@.take(0));
    }
    while i < new.len()
        invariant
            i <= new@.len(),
            out@ == old(out)@ + new@.take(i as int),
        decreases new@.len() - i,
    {
        out.push(new[i]);
        proof {
            assert(new@.take(i + 1) =~= new@.take(i as int).push(new@[i as int]));
            assert(out@ =~= old(out)@ + new@.take(i + 1));
        }
        i = i + 1;
    }
    proof {
        assert(new@.take(i as int) =~= new@);
    }
}

/// A text that does not hold another stays as it is when that is replaced.
pub proof fn law_replaced_absent(s: Seq<char>, from: Seq<char>, to: Seq<char>)
    requires
        from.len() > 0,
        first_place(s, from) is None,
    ensures
        replaced(s, from, to) == s,
    decreases s.len(),
{
    if s.len() >= from.len() {
        law_replaced_absent(s.skip(1), from, to);
        assert(seq![s[0]] + s.skip(1) =~= s);
    }
}

/// A list of texts with one more put behind those that are not after it.
pub open spec fn insert_text(s: Seq<Seq<char>>, x: Seq<char>) -> Seq<Seq<char>>
    decreases s.len(),
{
    if s.len() == 0 || !text_less(x, s.last()) {
        s.push(x)
    } else {
        insert_text(s.drop_last(), x).push(s.last())
    }
}

/// Texts in their order.
pub open spec fn sorted_texts(s: Seq<Seq<char>>) -> Seq<Seq<char>>
    decreases s.len(),
{
    if s.len() == 0 {
        Seq::empty()
    } else {
        insert_text(sorted_texts(s.drop_last()), s.last())
    }
}

fn put_text_in_order(s: &mut Vec<String>, x: String)
    ensures
        views(final(s)@) == insert_text(views(old(s)@), x@),
    decreases old(s)@.len(),
{
    let n: usize = s.len();
    if n == 0 || !before(x.as_str(), s[n - 1].as_str()) {
        proof {
            if n > 0 {
                assert(views(s@).last() == s@[n - 1]@);
            }
        }
        let ghost added = x@;
        s.push(x);
        proof {
            assert(views(s@) =~= views(old(s)@).push(added));
        }
    } else {
        let last = s.pop();
        proof {
            assert(views(old(s)@).last() == old(s)@[n - 1]@);
            assert(views(s@) =~= views(old(s)@).drop_last());
        }
        put_text_in_order(s, x);
        let ghost inner = s@;
        if let Some(last) = last {
            let ghost added = last@;
            s.push(last);
            proof {
                assert(views(s@) =~= views(inner).push(added));
            }
        }
    }
}

/// Puts texts in their order.
pub fn sort_texts(list: &Vec<String>) -> (out: Vec<String>)
    ensures
        views(out@) == sorted_texts(views(list@)),
{
    let ghost all = views(list@);
    let mut out: Vec<String> = Vec::new();
    let mut i: usize = 0;
    proof {
        assert(all.take(0) =~= Seq::empty());
        assert(views(out@) =~= Seq::empty());
    }
    while i < list.len()
        invariant
            i <= list@.len(),
            all == views(list@),
            views(out@) == sorted_texts(all.take(i as int)),
        decreases list@.len() - i,
    {
        put_text_in_order(&mut out, list[i].clone());
        proof {
            assert(all.take(i + 1).drop_last() =~= all.take(i as int));
            assert(all.take(i + 1).last() == list@[i as int]@);
        }
        i = i + 1;
    }
    proof {
        assert(all.take(i as int) =~= all);
    }
    out
}

pub open spec fn texts_sorted(s: Seq<Seq<char>>) -> bool {
    forall|i: int, j: int|
        0 <= i < j < s.len() ==> !text_less(#[trigger] s[j], #[trigger] s[i])
}

proof fn lemma_insert_text(s: Seq<Seq<char>>, x: Seq<char>)
    requires
        texts_sorted(s),
    ensures
        texts_sorted(insert_text(s, x)),
        insert_text(s, x).to_multiset() == s.to_multiset().insert(x),
    decreases s.len(),
{
    broadcast use vstd::seq_lib::group_to_multiset_ensures;

    let out = insert_text(s, x);
    if s.len() == 0 {
    } else if !text_less(x, s.last()) {
        assert forall|i: int, j: int| 0 <= i < j < out.len() implies !text_less(
            #[trigger] out[j],
            #[trigger] out[i],
        ) by {
            if j == s.len() && text_less(x, s[i]) {
                lemma_text_order(x, s.last());
                if i < s.len() - 1 {
                    assert(!text_less(s[s.len() - 1], s[i]));
                    lemma_text_order(s.last(), s[i]);
                    if s.last() != s[i] && x != s.last() {
                        lemma_text_order_transitive(s[i], s.last(), x);
                        lemma_text_order(x, s[i]);
                    }
                }
            }
        }
    } else {
        let rest = s.drop_last();
        assert(texts_sorted(rest)) by {
            assert forall|i: int, j: int| 0 <= i < j < rest.len() implies !text_less(
                #[trigger] rest[j],
                #[trigger] rest[i],
            ) by {
                assert(rest[j] == s[j] && rest[i] == s[i]);
            }
        }
        lemma_insert_text(rest, x);
        let inner = insert_text(rest, x);
        assert(rest.push(s.last()) =~= s);
        assert(out.to_multiset() =~= s.to_multiset().insert(x));
        assert forall|i: int, j: int| 0 <= i < j < out.len() implies !text_less(
            #[trigger] out[j],
            #[trigger] out[i],
        ) by {
            if j == out.len() - 1 {
                assert(inner.to_multiset().contains(inner[i]));
                if inner[i] == x {
                    lemma_text_order(x, s.last());
                } else {
                    assert(rest.to_multiset().contains(inner[i]));
                    assert(rest.contains(inner[i]));
                    let w = choose|w: int| 0 <= w < rest.len() && rest[w] == inner[i];
                    assert(!text_less(s[s.len() - 1], s[w]));
                }
            } else {
                assert(out[j] == inner[j] && out[i] == inner[i]);
            }
        }
    }
}

/// Texts in their order are the same texts, sorted.
pub proof fn law_texts_sorted(s: Seq<Seq<char>>)
    ensures
        texts_sorted(sorted_texts(s)),
        sorted_texts(s).to_multiset() == s.to_multiset(),
    decreases s.len(),
{
    broadcast use vstd::seq_lib::group_to_multiset_ensures;

    if s.len() > 0 {
        law_texts_sorted(s.drop_last());
        lemma_insert_text(sorted_texts(s.drop_last()), s.last());
        assert(s.drop_last().push(s.last()) =~= s);
    } else {
        assert(sorted_texts(s) =~= s);
    }
}

} // verus!
