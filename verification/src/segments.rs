//! Cutting an API path into the segments that are appended to a URL, and the
//! laws that tie the segments back to the path.

use vstd::prelude::*;
use vstd::std_specs::iter::IteratorSpec;

verus! {

/// `String::push` appends one character.
pub assume_specification[ String::push ](text: &mut String, c: char)
    ensures
        final(text)@ == old(text)@.push(c),
;

/// The pieces of `text` between its slashes, in order. A text without a slash
/// is one piece, and so is the empty text; `n` slashes give `n + 1` pieces.
pub open spec fn split_on_slash(text: Seq<char>) -> Seq<Seq<char>>
    decreases text.len(),
{
    if text.len() == 0 {
        seq![Seq::<char>::empty()]
    } else {
        let before = split_on_slash(text.drop_last());
        if text.last() == '/' {
            before.push(Seq::<char>::empty())
        } else {
            before.update(before.len() - 1, before.last().push(text.last()))
        }
    }
}

/// The pieces written one after another with a slash between neighbours.
pub open spec fn join_with_slash(pieces: Seq<Seq<char>>) -> Seq<char>
    decreases pieces.len(),
{
    if pieces.len() == 0 {
        Seq::<char>::empty()
    } else if pieces.len() == 1 {
        pieces[0]
    } else {
        join_with_slash(pieces.drop_last()).push('/') + pieces.last()
    }
}

/// No slash occurs in `piece`.
pub open spec fn slash_free(piece: Seq<char>) -> bool {
    forall|i: int| 0 <= i < piece.len() ==> piece[i] != '/'
}

/// The character sequences that a vector of strings holds.
pub open spec fn texts(strings: Seq<String>) -> Seq<Seq<char>> {
    Seq::new(strings.len(), |i: int| strings[i]@)
}

/// Splitting never gives an empty list.
pub proof fn lemma_split_is_nonempty(text: Seq<char>)
    ensures
        split_on_slash(text).len() >= 1,
    decreases text.len(),
{
    if text.len() > 0 {
        lemma_split_is_nonempty(text.drop_last());
    }
}

/// Splitting loses nothing: the pieces of a text, joined with slashes, are
/// the text again, and no piece holds a slash.
pub proof fn lemma_join_of_split(text: Seq<char>)
    ensures
        join_with_slash(split_on_slash(text)) == text,
        forall|i: int|
            0 <= i < split_on_slash(text).len() ==> slash_free(#[trigger] split_on_slash(text)[i]),
    decreases text.len(),
{
    if text.len() > 0 {
        let shorter = text.drop_last();
        let before = split_on_slash(shorter);
        lemma_join_of_split(shorter);
        lemma_split_is_nonempty(shorter);
        if text.last() == '/' {
            let pieces = before.push(Seq::<char>::empty());
            assert(pieces.drop_last() =~= before);
            assert(join_with_slash(pieces) =~= shorter.push('/'));
            assert(shorter.push('/') =~= text);
        } else {
            let grown = before.last().push(text.last());
            let pieces = before.update(before.len() - 1, grown);
            if before.len() == 1 {
                assert(join_with_slash(pieces) =~= shorter.push(text.last()));
            } else {
                assert(pieces.drop_last() =~= before.drop_last());
                assert(join_with_slash(pieces) =~= join_with_slash(before).push(text.last()));
            }
            assert(shorter.push(text.last()) =~= text);
        }
    }
}

/// A text without a slash is one piece.
pub proof fn lemma_split_of_slash_free(text: Seq<char>)
    requires
        slash_free(text),
    ensures
        split_on_slash(text) == seq![text],
    decreases text.len(),
{
    if text.len() == 0 {
        assert(text =~= Seq::<char>::empty());
    } else {
        let shorter = text.drop_last();
        lemma_split_of_slash_free(shorter);
        assert(shorter.push(text.last()) =~= text);
        assert(seq![shorter].update(0, text) =~= seq![text]);
    }
}

/// A slash between two texts separates their pieces: the pieces of
/// `left/right` are those of `left` followed by those of `right`.
pub proof fn lemma_split_at_slash(left: Seq<char>, right: Seq<char>)
    ensures
        split_on_slash(left.push('/') + right) == split_on_slash(left) + split_on_slash(right),
    decreases right.len(),
{
    let whole = left.push('/') + right;
    if right.len() == 0 {
        assert(whole =~= left.push('/'));
        assert(whole.drop_last() =~= left);
        assert(split_on_slash(left).push(Seq::<char>::empty()) =~= split_on_slash(left) + seq![
            Seq::<char>::empty(),
        ]);
    } else {
        let shorter = right.drop_last();
        lemma_split_at_slash(left, shorter);
        lemma_split_is_nonempty(shorter);
        assert(whole.drop_last() =~= left.push('/') + shorter);
        assert(whole.last() == right.last());
        let before = split_on_slash(left) + split_on_slash(shorter);
        if right.last() == '/' {
            assert(before.push(Seq::<char>::empty()) =~= split_on_slash(left) + split_on_slash(
                shorter,
            ).push(Seq::<char>::empty()));
        } else {
            let tail = split_on_slash(shorter);
            assert(before.update(before.len() - 1, before.last().push(right.last()))
                =~= split_on_slash(left) + tail.update(
                tail.len() - 1,
                tail.last().push(right.last()),
            ));
        }
    }
}

/// Splitting invents nothing: where every character of a text but the slash
/// is of some kind, every character of every piece is of that kind.
pub proof fn lemma_split_keeps_kind(text: Seq<char>, kind: spec_fn(char) -> bool)
    requires
        forall|k: int| 0 <= k < text.len() && text[k] != '/' ==> kind(#[trigger] text[k]),
    ensures
        forall|i: int, j: int|
            0 <= i < split_on_slash(text).len() && 0 <= j < split_on_slash(text)[i].len() ==> kind(
                #[trigger] split_on_slash(text)[i][j],
            ),
    decreases text.len(),
{
    if text.len() > 0 {
        let shorter = text.drop_last();
        assert forall|k: int| 0 <= k < shorter.len() && shorter[k] != '/' implies kind(
            #[trigger] shorter[k],
        ) by {
            assert(shorter[k] == text[k]);
        }
        lemma_split_keeps_kind(shorter, kind);
        lemma_split_is_nonempty(shorter);
        let before = split_on_slash(shorter);
        let pieces = split_on_slash(text);
        assert forall|i: int, j: int|
            0 <= i < pieces.len() && 0 <= j < pieces[i].len() implies kind(
            #[trigger] pieces[i][j],
        ) by {
            if text.last() == '/' {
                assert(pieces[i] == before[i]);
            } else if i < before.len() - 1 {
                assert(pieces[i] == before[i]);
            } else if j < before.last().len() {
                assert(pieces[i][j] == before[i][j]);
            } else {
                assert(pieces[i][j] == text[text.len() - 1]);
            }
        }
    }
}

/// Cuts `text` at every slash.
pub fn split_segments(text: &str) -> (segments: Vec<String>)
    ensures
        texts(segments@) == split_on_slash(text@),
{
    let mut done: Vec<String> = Vec::new();
    let mut current = String::new();
    let mut chars = text.chars();
    let ghost mut seen: Seq<char> = Seq::empty();
    proof {
        broadcast use vstd::string::axiom_spec_iter;
        assert(texts(done@).push(current@) =~= split_on_slash(seen));
    }
    loop
        invariant
            chars.obeys_prophetic_iter_laws(),
            seen + chars.remaining() == text@,
            texts(done@).push(current@) == split_on_slash(seen),
            chars.decrease() is Some,
        decreases chars.decrease()->0,
    {
        let next = chars.next();
        proof {
            broadcast use vstd::string::next_postcondition;
        }
        match next {
            None => {
                proof {
                    assert(seen =~= text@);
                }
                done.push(current);
                proof {
                    assert(texts(done@) =~= split_on_slash(seen));
                }
                return done;
            },
            Some(c) => {
                let ghost longer = seen.push(c);
                proof {
                    assert(longer.drop_last() =~= seen);
                    assert(longer + chars.remaining() =~= text@);
                }
                if c == '/' {
                    let ghost old_done = done@;
                    let ghost old_current = current@;
                    done.push(current);
                    current = String::new();
                    proof {
                        assert(texts(done@) =~= texts(old_done).push(old_current));
                    }
                } else {
                    current.push(c);
                    proof {
                        let previous = split_on_slash(seen);
                        assert(texts(done@).push(current@) =~= previous.update(
                            previous.len() - 1,
                            previous.last().push(c),
                        ));
                    }
                }
                proof {
                    seen = longer;
                }
            },
        }
    }
}

} // verus!
