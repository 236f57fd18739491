//! The words of a text as the index takes them.
use crate::letters::{bytes_of, capped_bytes};
use crate::text::chars_of;
use charabia::Tokenize;
use vstd::prelude::*;

verus! {

/// A piece of a text: a word, or what stands between words.
#[derive(Debug)]
pub struct RawToken {
    pub lemma: String,
    pub byte_start: usize,
    pub byte_end: usize,
    pub separator: bool,
}

/// A piece of a text, over character sequences.
pub struct RawTokenView {
    pub lemma: Seq<char>,
    pub byte_start: usize,
    pub byte_end: usize,
    pub separator: bool,
}

impl View for RawToken {
    type V = RawTokenView;

    open spec fn view(&self) -> RawTokenView {
        RawTokenView {
            lemma: self.lemma@,
            byte_start: self.byte_start,
            byte_end: self.byte_end,
            separator: self.separator,
        }
    }
}

pub open spec fn raw_views(list: Seq<RawToken>) -> Seq<RawTokenView> {
    list.map_values(|t: RawToken| t@)
}

/// The pieces that charabia makes of a text.
pub uninterp spec fn charabia_tokens(text: Seq<char>) -> Seq<RawTokenView>;

/// `Tokenize::tokenize` of charabia, with each token's lemma, the bytes that it stands for,
/// and whether it is a separator. The result is a function of the text alone.
#[verifier::external_body]
pub(crate) fn tokenize(text: &str) -> (out: Vec<RawToken>)
    ensures
        raw_views(out@) == charabia_tokens(text@),
{
    text.tokenize().map(|t| RawToken {
        lemma: t.lemma().to_string(),
        byte_start: t.byte_start,
        byte_end: t.byte_end,
        separator: t.is_separator(),
    }).collect()
}

/// A word that goes into the index.
#[derive(Debug)]
pub struct IndexToken {
    pub text: String,
    pub offset_from: usize,
    pub offset_to: usize,
    pub position: usize,
}

/// A word that goes into the index, over character sequences.
pub struct IndexTokenView {
    pub text: Seq<char>,
    pub offset_from: usize,
    pub offset_to: usize,
    pub position: nat,
}

impl View for IndexToken {
    type V = IndexTokenView;

    open spec fn view(&self) -> IndexTokenView {
        IndexTokenView {
            text: self.text@,
            offset_from: self.offset_from,
            offset_to: self.offset_to,
            position: self.position as nat,
        }
    }
}

pub open spec fn index_token_views(list: Seq<IndexToken>) -> Seq<IndexTokenView> {
    list.map_values(|t: IndexToken| t@)
}

/// The length in bytes from which on a word is too long for the index.
pub const MAX_TOKEN_LEN: usize = 65530;

/// Whether a piece is a word for the index: no separator, not empty, and not too long.
pub open spec fn is_index_word(t: RawTokenView) -> bool {
    !t.separator && t.lemma.len() > 0 && capped_bytes(t.lemma, usize::MAX as nat) < MAX_TOKEN_LEN
}

/// The words of a list of pieces, numbered.
pub open spec fn index_words(pieces: Seq<RawTokenView>) -> Seq<IndexTokenView>
    decreases pieces.len(),
{
    if pieces.len() == 0 {
        Seq::empty()
    } else {
        let words = index_words(pieces.drop_last());
        let t = pieces.last();
        if is_index_word(t) {
            words.push(
                IndexTokenView {
                    text: t.lemma,
                    offset_from: t.byte_start,
                    offset_to: t.byte_end,
                    position: words.len(),
                },
            )
        } else {
            words
        }
    }
}

/// The words of a list of pieces, numbered.
pub fn words_of(pieces: Vec<RawToken>) -> (out: Vec<IndexToken>)
    ensures
        index_token_views(out@) == index_words(raw_views(pieces@)),
{
    let ghost all = raw_views(pieces@);
    let mut out: Vec<IndexToken> = Vec::new();
    let mut i: usize = 0;
    proof {
        assert(all.take(0) =~= Seq::empty());
        assert(index_token_views(out@) =~= Seq::empty());
    }
    while i < pieces.len()
        invariant
            i <= pieces@.len(),
            all == raw_views(pieces@),
            index_token_views(out@) == index_words(all.take(i as int)),
        decreases pieces@.len() - i,
    {
        let t = &pieces[i];
        let chars = chars_of(t.lemma.as_str());
        let bytes: usize = bytes_of(&chars, chars.len());
        proof {
            assert(chars@.take(chars@.len() as int) =~= t.lemma@);
            assert(all.take(i + 1).drop_last() =~= all.take(i as int));
            assert(all.take(i + 1).last() == t@);
            assert(index_token_views(out@).len() == out@.len());
        }
        if !t.separator && chars.len() > 0 && bytes < MAX_TOKEN_LEN {
            let word = IndexToken {
                text: t.lemma.clone(),
                offset_from: t.byte_start,
                offset_to: t.byte_end,
                position: out.len(),
            };
            let ghost added = word@;
            let ghost before = out@;
            out.push(word);
            proof {
                assert(index_token_views(out@) =~= index_token_views(before).push(added));
            }
        }
        i = i + 1;
    }
    proof {
        assert(all.take(i as int) =~= all);
    }
    out
}

/// The words of a text as the index takes them.
pub fn index_tokens(text: &str) -> (out: Vec<IndexToken>)
    ensures
        index_token_views(out@) == index_words(charabia_tokens(text@)),
{
    words_of(tokenize(text))
}

/// The words of a text are numbered one after the other from 0.
pub proof fn law_positions_count_up(pieces: Seq<RawTokenView>)
    ensures
        forall|i: int|
            0 <= i < index_words(pieces).len() ==> (#[trigger] index_words(pieces)[i]).position
                == i,
    decreases pieces.len(),
{
    if pieces.len() > 0 {
        law_positions_count_up(pieces.drop_last());
        let words = index_words(pieces.drop_last());
        assert forall|i: int| 0 <= i < index_words(pieces).len() implies (
        #[trigger] index_words(pieces)[i]).position == i by {
            if i < words.len() {
                assert(index_words(pieces)[i] == words[i]);
            }
        }
    }
}

} // verus!
