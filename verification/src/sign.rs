use vstd::prelude::*;

use vstd::utf8::encode_utf8;

use crate::text::is_white_space;

verus! {

/// The words of `text`, in order: its maximal runs of characters that are not
/// white space.
pub open spec fn whitespace_words(text: Seq<char>) -> Seq<Seq<char>>
    decreases text.len(),
{
    if text.len() == 0 {
        Seq::empty()
    } else {
        let rest = whitespace_words(text.drop_first());
        if is_white_space(text[0]) {
            rest
        } else if text.len() > 1 && !is_white_space(text[1]) {
            rest.update(0, seq![text[0]] + rest[0])
        } else {
            seq![seq![text[0]]] + rest
        }
    }
}

/// `str::split_whitespace` from std, each word copied into a `String`: the
/// maximal runs of characters without the Unicode `White_Space` property.
#[verifier::external_body]
fn split_words(text: &str) -> (words: Vec<String>)
    ensures
        words@.len() == whitespace_words(text@).len(),
        forall|i: int| 0 <= i < words@.len() ==> #[trigger] words@[i]@ == whitespace_words(text@)[i],
{
    let mut words = Vec::new();
    for word in text.split_whitespace() {
        words.push(word.to_string());
    }
    words
}

/// The length of `s` in UTF-8 bytes, as `str::len` reports it.
pub open spec fn byte_len(s: Seq<char>) -> usize {
    encode_utf8(s).len() as usize
}

/// Words packed greedily into lines: a word joins the last line, after a
/// space, when the line stays within `width` bytes, and starts a new line
/// otherwise.
pub open spec fn wrap(words: Seq<Seq<char>>, width: nat) -> Seq<Seq<char>>
    decreases words.len(),
{
    if words.len() == 0 {
        Seq::empty()
    } else {
        let lines = wrap(words.drop_last(), width);
        let word = words.last();
        if lines.len() > 0 && byte_len(lines.last()) + 1 + byte_len(word) <= width {
            lines.update(lines.len() - 1, lines.last() + seq![' '] + word)
        } else {
            lines.push(word)
        }
    }
}

fn byte_length(s: &String) -> (n: usize)
    ensures
        n == byte_len(s@),
{
    s.as_str().len()
}

/// Breaks `text` into lines of at most `width` bytes at whitespace; a word
/// longer than `width` gets a line of its own.
pub fn wrap_words(text: &str, width: usize) -> (lines: Vec<String>)
    ensures
        lines@.len() == wrap(whitespace_words(text@), width as nat).len(),
        forall|i: int|
            0 <= i < lines@.len() ==> #[trigger] lines@[i]@ == wrap(whitespace_words(text@), width as nat)[i],
{
    let words = split_words(text);
    let ghost ws = whitespace_words(text@);
    let mut lines: Vec<String> = Vec::new();
    let mut i: usize = 0;
    while i < words.len()
        invariant
            i <= words@.len(),
            words@.len() == ws.len(),
            forall|k: int| 0 <= k < words@.len() ==> #[trigger] words@[k]@ == ws[k],
            lines@.len() == wrap(ws.subrange(0, i as int), width as nat).len(),
            forall|k: int|
                0 <= k < lines@.len() ==> #[trigger] lines@[k]@ == wrap(ws.subrange(0, i as int), width as nat)[k],
        decreases words@.len() - i,
    {
        let ghost prev = wrap(ws.subrange(0, i as int), width as nat);
        assert(ws.subrange(0, i as int + 1).drop_last() =~= ws.subrange(0, i as int));
        assert(ws.subrange(0, i as int + 1).last() == ws[i as int]);
        let word = &words[i];
        let word_len = byte_length(word);
        let joins = if lines.len() > 0 {
            let last_len = byte_length(&lines[lines.len() - 1]);
            last_len < width && word_len <= width - last_len - 1
        } else {
            false
        };
        if joins {
            let mut line = lines.pop().unwrap();
            line.append(" ");
            line.append(word.as_str());
            proof {
                reveal_strlit(" ");
            }
            let ghost before_push = lines@;
            lines.push(line);
            assert(lines@.len() == prev.len());
            assert forall|k: int| 0 <= k < lines@.len() implies #[trigger] lines@[k]@ == wrap(
                ws.subrange(0, i as int + 1),
                width as nat,
            )[k] by {
                if k < lines@.len() - 1 {
                    assert(lines@[k] == before_push[k]);
                }
            }
        } else {
            let ghost before_push = lines@;
            lines.push(word.clone());
            assert forall|k: int| 0 <= k < lines@.len() implies #[trigger] lines@[k]@ == wrap(
                ws.subrange(0, i as int + 1),
                width as nat,
            )[k] by {
                if k < lines@.len() - 1 {
                    assert(lines@[k] == before_push[k]);
                }
            }
        }
        i = i + 1;
    }
    assert(ws.subrange(0, i as int) =~= ws);
    lines
}

/// Pieces joined with single spaces.
pub open spec fn join_spaced(pieces: Seq<Seq<char>>) -> Seq<char>
    decreases pieces.len(),
{
    if pieces.len() == 0 {
        Seq::empty()
    } else if pieces.len() == 1 {
        pieces[0]
    } else {
        join_spaced(pieces.drop_last()) + seq![' '] + pieces.last()
    }
}

proof fn lemma_wrap_empty(words: Seq<Seq<char>>, width: nat)
    ensures
        (wrap(words, width).len() == 0) == (words.len() == 0),
    decreases words.len(),
{
    if words.len() > 0 {
        lemma_wrap_empty(words.drop_last(), width);
    }
}

/// Wrapping keeps every word, in order, with single spaces between them:
/// the lines joined with spaces are the words joined with spaces.
pub proof fn wrapping_keeps_the_words(words: Seq<Seq<char>>, width: nat)
    ensures
        join_spaced(wrap(words, width)) == join_spaced(words),
    decreases words.len(),
{
    if words.len() > 0 {
        let init = words.drop_last();
        let word = words.last();
        wrapping_keeps_the_words(init, width);
        lemma_wrap_empty(init, width);
        let lines = wrap(init, width);
        if lines.len() > 0 && byte_len(lines.last()) + 1 + byte_len(word) <= width {
            let updated = lines.update(lines.len() - 1, lines.last() + seq![' '] + word);
            assert(updated.drop_last() =~= lines.drop_last());
            if lines.len() == 1 {
                assert(join_spaced(lines) == lines[0]);
                assert(join_spaced(updated) == updated[0]);
            } else {
                assert(join_spaced(lines) == join_spaced(lines.drop_last()) + seq![' '] + lines.last());
            }
            assert(join_spaced(updated) =~= join_spaced(lines) + seq![' '] + word);
        } else {
            let pushed = lines.push(word);
            assert(pushed.drop_last() =~= lines);
            if lines.len() == 0 {
                assert(join_spaced(pushed) == pushed[0]);
            }
        }
    }
}

/// Every line of the wrapped text either is a single word or was made of
/// words whose lengths, with the spaces between them, fit within `width`.
pub proof fn wrapped_lines_fit_or_hold_one_word(words: Seq<Seq<char>>, width: nat, k: int)
    requires
        0 <= k < wrap(words, width).len(),
    ensures
        words.contains(wrap(words, width)[k]) || exists|a: Seq<char>, b: Seq<char>|
            wrap(words, width)[k] == a + seq![' '] + b && byte_len(a) + 1 + byte_len(b) <= width,
    decreases words.len(),
{
    let init = words.drop_last();
    let word = words.last();
    let lines = wrap(init, width);
    if lines.len() > 0 && byte_len(lines.last()) + 1 + byte_len(word) <= width {
        if k < lines.len() - 1 {
            wrapped_lines_fit_or_hold_one_word(init, width, k);
            if init.contains(lines[k]) {
                let j = choose|j: int| 0 <= j < init.len() && init[j] == lines[k];
                assert(words[j] == lines[k]);
            }
        } else {
            let line = lines.last() + seq![' '] + word;
            assert(wrap(words, width)[k] == line);
        }
    } else {
        if k < lines.len() {
            wrapped_lines_fit_or_hold_one_word(init, width, k);
            if init.contains(lines[k]) {
                let j = choose|j: int| 0 <= j < init.len() && init[j] == lines[k];
                assert(words[j] == lines[k]);
            }
        } else {
            assert(words[words.len() - 1] == word);
        }
    }
}

} // verus!
