//! How texts are compared, cut, put together and replaced.
use crate::letters::{ascii_lower, first_place, replaced};
use crate::text::{decimal, digits_value, ends_with, starts_with, text_less};
use crate::virtual_path::{
    action_view, collection_view, displayed, slashed, thing_view, trigger_view, ActionFile,
    CollectionFile, ThingFile, TriggerFile,
};
use vstd::prelude::*;

verus! {

/// Texts are compared character by character: behind what they share, the one with the smaller
/// character comes first, and a text comes before each longer one that starts with it.
pub proof fn law_texts_are_compared_by_character(
    shared: Seq<char>,
    a: Seq<char>,
    b: Seq<char>,
    c: char,
    d: char,
)
    ensures
        c < d ==> text_less(shared.push(c) + a, shared.push(d) + b) && !text_less(
            shared.push(d) + b,
            shared.push(c) + a,
        ),
        text_less(shared, shared.push(c) + a),
        !text_less(shared.push(c) + a, shared),
        !text_less(shared, shared),
    decreases shared.len(),
{
    let x = shared.push(c) + a;
    let y = shared.push(d) + b;
    if shared.len() > 0 {
        let rest = shared.drop_first();
        law_texts_are_compared_by_character(rest, a, b, c, d);
        assert(x.drop_first() =~= rest.push(c) + a);
        assert(y.drop_first() =~= rest.push(d) + b);
        assert(x[0] == shared[0] && y[0] == shared[0]);
    } else {
        assert(x[0] == c && y[0] == d);
    }
}

/// Small letters: the letters from A to Z become small, every other character stays, and so does
/// what is small already.
pub proof fn law_small_letters(s: Seq<char>, i: int)
    requires
        0 <= i < s.len(),
    ensures
        ascii_lower(s).len() == s.len(),
        !('A' <= s[i] && s[i] <= 'Z') ==> ascii_lower(s)[i] == s[i],
        'A' <= s[i] && s[i] <= 'Z' ==> 'a' <= ascii_lower(s)[i] && ascii_lower(s)[i] <= 'z'
            && ascii_lower(s)[i] as int - 'a' as int == s[i] as int - 'A' as int,
        ascii_lower(ascii_lower(s)) == ascii_lower(s),
{
    assert forall|k: int| 0 <= k < s.len() implies #[trigger] ascii_lower(ascii_lower(s))[k]
        == ascii_lower(s)[k] by {}
    assert(ascii_lower(ascii_lower(s)) =~= ascii_lower(s));
}

/// The first place of a text in another is one where it stands, and it stands nowhere before; there
/// is none where it does not stand anywhere.
pub proof fn law_first_place_is_the_first(s: Seq<char>, part: Seq<char>, k: int)
    requires
        part.len() > 0,
    ensures
        first_place(s, part) matches Some(at) ==> at + part.len() <= s.len() && s.subrange(
            at as int,
            (at + part.len()) as int,
        ) == part,
        0 <= k && k + part.len() <= s.len() && s.subrange(k, k + part.len()) == part
            ==> first_place(s, part) is Some && first_place(s, part)->0 <= k,
    decreases s.len(),
{
    if s.len() >= part.len() {
        if s.take(part.len() as int) == part {
            assert(s.subrange(0, 0int + part.len()) =~= part);
        } else {
            let rest = s.skip(1);
            law_first_place_is_the_first(rest, part, k - 1);
            if let Some(at) = first_place(rest, part) {
                assert(s.subrange(at + 1int, at + 1int + part.len()) =~= rest.subrange(
                    at as int,
                    (at + part.len()) as int,
                ));
            }
            if 0 <= k && k + part.len() <= s.len() && s.subrange(k, k + part.len()) == part {
                if k == 0 {
                    assert(s.take(part.len() as int) =~= part);
                } else {
                    assert(rest.subrange(k - 1, k - 1 + part.len()) =~= part);
                }
            }
        }
    }
}

/// Replacing a text takes its first place, puts the other text there, and goes on behind it; what
/// is before stays.
pub proof fn law_replacing_goes_from_place_to_place(
    s: Seq<char>,
    from: Seq<char>,
    to: Seq<char>,
)
    requires
        from.len() > 0,
    ensures
        first_place(s, from) is None ==> replaced(s, from, to) == s,
        first_place(s, from) matches Some(at) ==> replaced(s, from, to) == s.take(at as int) + to
            + replaced(s.skip((at + from.len()) as int), from, to),
    decreases s.len(),
{
    if s.len() >= from.len() {
        if s.take(from.len() as int) == from {
            assert(s.take(0) =~= Seq::<char>::empty());
            assert(replaced(s, from, to) =~= s.take(0) + to + replaced(
                s.skip(from.len() as int),
                from,
                to,
            ));
        } else {
            let rest = s.skip(1);
            law_replacing_goes_from_place_to_place(rest, from, to);
            law_first_place_is_the_first(rest, from, 0);
            match first_place(rest, from) {
                Some(at) => {
                    assert(rest.skip((at + from.len()) as int) =~= s.skip(
                        (at + 1 + from.len()) as int,
                    ));
                    assert(seq![s[0]] + rest.take(at as int) =~= s.take(at + 1int));
                    assert(replaced(s, from, to) =~= s.take(at + 1int) + to + replaced(
                        s.skip((at + 1 + from.len()) as int),
                        from,
                        to,
                    ));
                },
                None => {
                    assert(seq![s[0]] + rest =~= s);
                },
            }
        }
    }
}

/// A number is written with its digits, the last one being what is left when it is divided by ten;
/// it has one digit more than a tenth of it.
pub proof fn law_numbers_are_written_in_tens(n: nat, d: nat)
    requires
        d < 10,
    ensures
        decimal(d).len() == 1,
        decimal(d)[0] as int == '0' as int + d,
        n > 0 ==> decimal(10 * n + d) == decimal(n) + decimal(d),
        digits_value(decimal(n) + decimal(d)) == Some(10 * n + d),
{
    crate::text::lemma_decimal_value(n);
    let s = decimal(n) + decimal(d);
    assert(s.drop_last() =~= decimal(n));
    assert((10 * n + d) / 10 == n && (10 * n + d) % 10 == d);
    if n > 0 {
        assert(decimal(n).push(decimal(d)[0]) =~= s);
    }
}

/// A text starts with another where the other and some rest make it, and ends with another where
/// some text before it and the other make it.
pub proof fn law_starts_and_ends(a: Seq<char>, b: Seq<char>)
    ensures
        starts_with(a + b, a),
        ends_with(a + b, b),
        a.len() == b.len() && a != b ==> !starts_with(a, b) && !ends_with(a, b),
{
    assert((a + b).take(a.len() as int) =~= a);
    assert((a + b).skip((a + b).len() - b.len()) =~= b);
    assert(a.take(a.len() as int) =~= a);
    assert(a.skip(0) =~= a);
}

/// A path of parts is the path of all but the last of them, a slash and the last part.
proof fn lemma_one_more(parts: Seq<Seq<char>>, last: Seq<char>)
    ensures
        slashed(parts.push(last)) == slashed(parts) + "/"@ + last,
        slashed(Seq::empty()) == Seq::<char>::empty(),
{
    reveal_strlit("/");
    assert("/"@ =~= seq!['/']);
    assert(parts.push(last).drop_last() =~= parts);
    assert(slashed(parts.push(last)) =~= slashed(parts) + "/"@ + last);
}

proof fn lemma_two_parts(a: Seq<char>, b: Seq<char>)
    ensures
        slashed(seq![a, b]) == "/"@ + a + "/"@ + b,
{
    let none = Seq::<Seq<char>>::empty();
    lemma_one_more(none, a);
    lemma_one_more(none.push(a), b);
    assert(none.push(a).push(b) =~= seq![a, b]);
    assert(slashed(seq![a, b]) =~= "/"@ + a + "/"@ + b);
}

proof fn lemma_three_parts(a: Seq<char>, b: Seq<char>, c: Seq<char>)
    ensures
        slashed(seq![a, b, c]) == "/"@ + a + "/"@ + b + "/"@ + c,
{
    lemma_two_parts(a, b);
    lemma_one_more(seq![a, b], c);
    assert(seq![a, b].push(c) =~= seq![a, b, c]);
}

proof fn lemma_four_parts(a: Seq<char>, b: Seq<char>, c: Seq<char>, d: Seq<char>)
    ensures
        slashed(seq![a, b, c, d]) == "/"@ + a + "/"@ + b + "/"@ + c + "/"@ + d,
{
    lemma_three_parts(a, b, c);
    lemma_one_more(seq![a, b, c], d);
    assert(seq![a, b, c].push(d) =~= seq![a, b, c, d]);
}

/// How the paths of collections, things, actions and triggers are written.
pub proof fn law_paths_are_written(c: Seq<char>, t: Seq<char>, index: nat)
    ensures
        ({
            let thing = "/"@ + "collection"@ + "/"@ + c + "/"@ + "things"@ + "/"@ + t;
            &&& displayed(collection_view(c, CollectionFile::Dir)) == "/"@ + "collection"@ + "/"@
                + c
            &&& displayed(collection_view(c, CollectionFile::Name)) == "/"@ + "collection"@ + "/"@
                + c + "/"@ + "name"@
            &&& displayed(collection_view(c, CollectionFile::CardJsx)) == "/"@ + "collection"@
                + "/"@ + c + "/"@ + "card.jsx"@
            &&& displayed(collection_view(c, CollectionFile::Actions)) == "/"@ + "collection"@
                + "/"@ + c + "/"@ + "actions.json"@
            &&& displayed(collection_view(c, CollectionFile::Things)) == "/"@ + "collection"@
                + "/"@ + c + "/"@ + "things"@
            &&& displayed(thing_view(c, t, ThingFile::Dir)) == thing
            &&& displayed(thing_view(c, t, ThingFile::Name)) == thing + "/"@ + "name"@
            &&& displayed(thing_view(c, t, ThingFile::Status)) == thing + "/"@ + "status"@
            &&& displayed(thing_view(c, t, ThingFile::Content)) == thing + "/"@ + "content.md"@
            &&& displayed(thing_view(c, t, ThingFile::Actions)) == thing + "/"@ + "actions.json"@
            &&& displayed(thing_view(c, t, ThingFile::Children)) == thing + "/"@ + "things"@
            &&& displayed(thing_view(c, t, ThingFile::Entry(index))) == thing + "/"@ + (
            "entries."@ + decimal(index))
            &&& displayed(action_view(c, ActionFile::Dir)) == "/"@ + "action"@ + "/"@ + c
            &&& displayed(action_view(c, ActionFile::Name)) == "/"@ + "action"@ + "/"@ + c + "/"@
                + "name"@
            &&& displayed(action_view(c, ActionFile::Script)) == "/"@ + "action"@ + "/"@ + c
                + "/"@ + "script.js"@
            &&& displayed(trigger_view(c, TriggerFile::Action)) == "/"@ + "trigger"@ + "/"@ + c
                + "/"@ + "action.json"@
        }),
{
    lemma_two_parts("collection"@, c);
    lemma_two_parts("action"@, c);
    lemma_three_parts("collection"@, c, "name"@);
    lemma_three_parts("collection"@, c, "card.jsx"@);
    lemma_three_parts("collection"@, c, "actions.json"@);
    lemma_three_parts("collection"@, c, "things"@);
    lemma_three_parts("action"@, c, "name"@);
    lemma_three_parts("action"@, c, "script.js"@);
    lemma_three_parts("trigger"@, c, "action.json"@);
    lemma_four_parts("collection"@, c, "things"@, t);
    let dir = seq!["collection"@, c, "things"@, t];
    lemma_one_more(dir, "name"@);
    lemma_one_more(dir, "status"@);
    lemma_one_more(dir, "content.md"@);
    lemma_one_more(dir, "actions.json"@);
    lemma_one_more(dir, "things"@);
    lemma_one_more(dir, "entries."@ + decimal(index));
}

} // verus!
