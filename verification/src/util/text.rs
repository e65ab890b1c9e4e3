//! Texts: comparing, splitting and replacing.

use vstd::prelude::*;

verus! {

/// The lexicographic order of texts by their code points. This is also the order of their UTF-8
/// bytes, which is how `str` compares.
pub open spec fn text_less(a: Seq<char>, b: Seq<char>) -> bool
    decreases a.len(),
{
    if b.len() == 0 {
        false
    } else if a.len() == 0 {
        true
    } else if a[0] != b[0] {
        (a[0] as int) < (b[0] as int)
    } else {
        text_less(a.skip(1), b.skip(1))
    }
}

/// No text is less than itself.
pub proof fn law_text_less_is_irreflexive(a: Seq<char>)
    ensures
        !text_less(a, a),
    decreases a.len(),
{
    if a.len() > 0 {
        law_text_less_is_irreflexive(a.skip(1));
    }
}

/// The order of texts is transitive.
pub proof fn law_text_less_is_transitive(a: Seq<char>, b: Seq<char>, c: Seq<char>)
    requires
        text_less(a, b),
        text_less(b, c),
    ensures
        text_less(a, c),
    decreases a.len(),
{
    if a.len() > 0 && a[0] == b[0] && b[0] == c[0] {
        law_text_less_is_transitive(a.skip(1), b.skip(1), c.skip(1));
    }
}

/// Of two different texts, one is less than the other.
pub proof fn law_text_less_is_total(a: Seq<char>, b: Seq<char>)
    ensures
        text_less(a, b) || a == b || text_less(b, a),
    decreases a.len(),
{
    if a.len() > 0 && b.len() > 0 && a[0] == b[0] {
        let x = a.skip(1);
        let y = b.skip(1);
        law_text_less_is_total(x, y);
        assert(text_less(a, b) == text_less(x, y));
        assert(text_less(b, a) == text_less(y, x));
        if x == y {
            assert forall|i: int| 0 <= i < a.len() implies a[i] == b[i] by {
                if i > 0 {
                    assert(a[i] == x[i - 1]);
                    assert(b[i] == y[i - 1]);
                }
            }
            assert(a.len() == x.len() + 1 && b.len() == y.len() + 1);
            assert(a =~= b);
        }
    } else if a.len() == 0 && b.len() == 0 {
        assert(a =~= b);
    }
}

/// Whether two texts are the same.
pub fn same_text(a: &str, b: &str) -> (same: bool)
    ensures
        same == (a@ == b@),
{
    a.to_owned() == b.to_owned()
}

/// Whether `a` comes before `b`.
pub fn is_less(a: &str, b: &str) -> (less: bool)
    ensures
        less == text_less(a@, b@),
{
    let a_len: usize = a.unicode_len();
    let b_len: usize = b.unicode_len();
    let mut i: usize = 0;
    assert(a@.skip(0) =~= a@);
    assert(b@.skip(0) =~= b@);
    while i < a_len && i < b_len
        invariant
            i <= a_len,
            i <= b_len,
            a_len == a@.len(),
            b_len == b@.len(),
            text_less(a@, b@) == text_less(a@.skip(i as int), b@.skip(i as int)),
        decreases a_len - i,
    {
        let x = a.get_char(i);
        let y = b.get_char(i);
        if x != y {
            return x < y;
        }
        proof {
            assert(a@.skip(i as int).skip(1) =~= a@.skip(i + 1));
            assert(b@.skip(i as int).skip(1) =~= b@.skip(i + 1));
        }
        i += 1;
    }
    i < b_len
}

/// The pieces of a text between the separators in it. There is always at least one piece.
pub open spec fn pieces(text: Seq<char>, separator: char) -> Seq<Seq<char>>
    decreases text.len(),
{
    if text.len() == 0 {
        seq![Seq::empty()]
    } else {
        let before = pieces(text.drop_last(), separator);
        if text.last() == separator {
            before.push(Seq::empty())
        } else {
            before.update(before.len() - 1, before.last().push(text.last()))
        }
    }
}

/// A text without separators in it is its only piece.
pub proof fn lemma_one_piece(text: Seq<char>, separator: char)
    requires
        !text.contains(separator),
    ensures
        pieces(text, separator) == seq![text],
    decreases text.len(),
{
    if text.len() > 0 {
        let front = text.drop_last();
        assert(text[text.len() - 1] == text.last());
        assert forall|i: int| 0 <= i < front.len() implies front[i] != separator by {
            assert(text[i] == front[i]);
        }
        lemma_one_piece(front, separator);
        assert(front.push(text.last()) =~= text);
        assert(pieces(text, separator) =~= seq![text]);
    } else {
        assert(text =~= Seq::empty());
    }
}

/// A text without separators behind a separator is one piece more.
pub proof fn lemma_one_more_piece(text: Seq<char>, separator: char, piece: Seq<char>)
    requires
        !piece.contains(separator),
    ensures
        pieces(text.push(separator) + piece, separator) == pieces(text, separator).push(piece),
    decreases piece.len(),
{
    let whole = text.push(separator) + piece;
    if piece.len() == 0 {
        assert(whole =~= text.push(separator));
        assert(text.push(separator).drop_last() =~= text);
        assert(piece =~= Seq::empty());
    } else {
        let front = piece.drop_last();
        assert(piece[piece.len() - 1] == piece.last());
        assert forall|i: int| 0 <= i < front.len() implies front[i] != separator by {
            assert(piece[i] == front[i]);
        }
        lemma_one_more_piece(text, separator, front);
        assert(whole.drop_last() =~= text.push(separator) + front);
        assert(front.push(piece.last()) =~= piece);
        assert(pieces(whole, separator) =~= pieces(text, separator).push(piece));
    }
}

/// The views of a list of texts.
pub open spec fn texts(list: Seq<String>) -> Seq<Seq<char>> {
    Seq::new(list.len(), |i: int| list[i]@)
}

/// The pieces of a text between the separators in it.
pub fn split(text: &str, separator: char) -> (list: Vec<String>)
    ensures
        texts(list@) == pieces(text@, separator),
{
    let len: usize = text.unicode_len();
    let mut list: Vec<String> = Vec::new();
    let mut start: usize = 0;
    let mut i: usize = 0;
    proof {
        assert(text@.take(0) =~= Seq::empty());
        assert(text@.subrange(0, 0) =~= Seq::empty());
        assert(texts(list@).push(text@.subrange(0, 0)) =~= pieces(text@.take(0), separator));
    }
    while i < len
        invariant
            start <= i <= len,
            len == text@.len(),
            texts(list@).push(text@.subrange(start as int, i as int)) == pieces(
                text@.take(i as int),
                separator,
            ),
        decreases len - i,
    {
        let ghost before = texts(list@);
        let ghost current = text@.subrange(start as int, i as int);
        proof {
            assert(text@.take(i + 1).drop_last() =~= text@.take(i as int));
        }
        if text.get_char(i) == separator {
            list.push(text.substring_char(start, i).to_owned());
            start = i + 1;
            proof {
                assert(texts(list@) =~= before.push(current));
                assert(text@.subrange(start as int, i + 1) =~= Seq::empty());
            }
        } else {
            proof {
                assert(text@.subrange(start as int, i + 1) =~= current.push(text@[i as int]));
                assert(before.push(current).update(
                    before.len() as int,
                    current.push(text@[i as int]),
                ) =~= before.push(current.push(text@[i as int])));
            }
        }
        i += 1;
    }
    list.push(text.substring_char(start, len).to_owned());
    proof {
        assert(text@.take(len as int) =~= text@);
        assert(texts(list@) =~= pieces(text@, separator));
    }
    list
}

/// What comes before the last occurrence of a character, or the whole text if it does not occur.
pub open spec fn before_last(text: Seq<char>, c: char) -> Seq<char>
    decreases text.len(),
{
    if !text.contains(c) {
        text
    } else if text.last() == c {
        text.drop_last()
    } else {
        before_last(text.drop_last(), c)
    }
}

/// Cuts a text before the last occurrence of a character.
pub fn cut_at_last(text: &str, c: char) -> (cut: String)
    ensures
        cut@ == before_last(text@, c),
{
    let len: usize = text.unicode_len();
    let mut i: usize = len;
    proof {
        assert(text@.take(len as int) =~= text@);
    }
    while i > 0
        invariant
            i <= len,
            len == text@.len(),
            text@.contains(c) ==> text@.take(i as int).contains(c) && before_last(text@, c)
                == before_last(text@.take(i as int), c),
            forall|j: int| i <= j < len ==> text@[j] != c,
        decreases i,
    {
        let ghost seen = text@.take(i as int);
        assert(seen.last() == text@[i - 1]);
        assert(seen.drop_last() =~= text@.take(i - 1));
        if text.get_char(i - 1) == c {
            proof {
                assert(seen[i - 1] == c);
                assert(text@[i - 1] == c);
            }
            return text.substring_char(0, i - 1).to_owned();
        }
        proof {
            if text@.contains(c) {
                let j = choose|j: int| 0 <= j < seen.len() && seen[j] == c;
                assert(text@.take(i - 1)[j] == c);
            }
        }
        i -= 1;
    }
    text.to_owned()
}

/// The text with every occurrence of a character replaced.
pub open spec fn replaced(text: Seq<char>, c: char, replacement: Seq<char>) -> Seq<char>
    decreases text.len(),
{
    if text.len() == 0 {
        Seq::empty()
    } else if text.last() == c {
        replaced(text.drop_last(), c, replacement) + replacement
    } else {
        replaced(text.drop_last(), c, replacement).push(text.last())
    }
}

/// Replaces every occurrence of a character.
pub fn replace_char(text: &str, c: char, replacement: &str) -> (result: String)
    ensures
        result@ == replaced(text@, c, replacement@),
{
    let len: usize = text.unicode_len();
    let mut result = String::new();
    let mut i: usize = 0;
    while i < len
        invariant
            i <= len,
            len == text@.len(),
            result@ == replaced(text@.take(i as int), c, replacement@),
        decreases len - i,
    {
        assert(text@.take(i + 1).drop_last() =~= text@.take(i as int));
        if text.get_char(i) == c {
            result.append(replacement);
        } else {
            let ghost before = result@;
            result.append(text.substring_char(i, i + 1));
            assert(result@ =~= before.push(text@[i as int]));
        }
        i += 1;
    }
    assert(text@.take(len as int) =~= text@);
    result
}

/// Whether a text is in a list.
pub fn contains_text(list: &Vec<String>, text: &str) -> (contains: bool)
    ensures
        contains == texts(list@).contains(text@),
{
    let mut i: usize = 0;
    while i < list.len()
        invariant
            i <= list@.len(),
            forall|j: int| 0 <= j < i ==> texts(list@)[j] != text@,
        decreases list@.len() - i,
    {
        if same_text(list[i].as_str(), text) {
            assert(texts(list@)[i as int] == text@);
            return true;
        }
        i += 1;
    }
    false
}

/// The first place at which two texts differ decides which one comes first; a text comes before every
/// longer one that begins with it.
pub proof fn law_first_difference_decides(
    common: Seq<char>,
    a: char,
    a_rest: Seq<char>,
    b: char,
    b_rest: Seq<char>,
)
    ensures
        (a as int) < (b as int) ==> text_less(common.push(a) + a_rest, common.push(b) + b_rest),
        text_less(common, common.push(b) + b_rest),
    decreases common.len(),
{
    let x = common.push(a) + a_rest;
    let y = common.push(b) + b_rest;
    if common.len() > 0 {
        let rest = common.skip(1);
        law_first_difference_decides(rest, a, a_rest, b, b_rest);
        assert(x.skip(1) =~= rest.push(a) + a_rest);
        assert(y.skip(1) =~= rest.push(b) + b_rest);
    }
}

/// What stands in front of the last occurrence of a character is kept, and a text without it is kept
/// as a whole.
pub proof fn law_cut_at_the_last_one(front: Seq<char>, c: char, back: Seq<char>)
    requires
        !back.contains(c),
    ensures
        before_last(front.push(c) + back, c) == front,
        before_last(back, c) == back,
    decreases back.len(),
{
    let whole = front.push(c) + back;
    assert(whole[front.len() as int] == c);
    if back.len() == 0 {
        assert(whole.drop_last() =~= front);
    } else {
        let rest = back.drop_last();
        assert(back[back.len() - 1] == back.last());
        assert forall|i: int| 0 <= i < rest.len() implies rest[i] != c by {
            assert(back[i] == rest[i]);
        }
        assert(whole.last() == back.last());
        assert(whole.drop_last() =~= front.push(c) + rest);
        law_cut_at_the_last_one(front, c, rest);
    }
}

/// Every occurrence of a character is replaced and nothing else: parts of a text can be replaced one
/// by one, the character itself becomes the replacement, and a text without it stays as it is. Nothing
/// is left of the character, unless it is in the replacement.
pub proof fn law_nothing_left_to_replace(text: Seq<char>, c: char, replacement: Seq<char>)
    ensures
        !text.contains(c) ==> replaced(text, c, replacement) == text,
        !replacement.contains(c) ==> !replaced(text, c, replacement).contains(c),
        replaced(text.push(c), c, replacement) == replaced(text, c, replacement) + replacement,
        forall|other: char|
            other != c ==> #[trigger] replaced(text.push(other), c, replacement) == replaced(
                text,
                c,
                replacement,
            ).push(other),
    decreases text.len(),
{
    assert(text.push(c).drop_last() =~= text);
    assert forall|other: char| other != c implies #[trigger] replaced(
        text.push(other),
        c,
        replacement,
    ) == replaced(text, c, replacement).push(other) by {
        assert(text.push(other).drop_last() =~= text);
    }
    if text.len() > 0 {
        let front = text.drop_last();
        law_nothing_left_to_replace(front, c, replacement);
        assert(text[text.len() - 1] == text.last());
        if !text.contains(c) {
            assert forall|i: int| 0 <= i < front.len() implies front[i] != c by {
                assert(text[i] == front[i]);
            }
            assert(front.push(text.last()) =~= text);
        }
        if !replacement.contains(c) {
            let before = replaced(front, c, replacement);
            let after = replaced(text, c, replacement);
            assert forall|i: int| 0 <= i < after.len() implies after[i] != c by {
                if i < before.len() {
                    assert(after[i] == before[i]);
                } else if text.last() == c {
                    assert(after[i] == replacement[i - before.len()]);
                }
            }
        }
    } else {
        assert(replaced(text, c, replacement) =~= text);
    }
}

/// The texts one after the other with a separator in between.
pub open spec fn joined(parts: Seq<Seq<char>>, separator: char) -> Seq<char>
    decreases parts.len(),
{
    if parts.len() == 0 {
        Seq::empty()
    } else if parts.len() == 1 {
        parts[0]
    } else {
        joined(parts.drop_last(), separator).push(separator) + parts.last()
    }
}

/// A text is cut at every separator and nowhere else: there is at least one piece, no piece has a
/// separator in it, and with separators in between the pieces are the text again.
pub proof fn law_pieces_make_up_the_text(text: Seq<char>, separator: char)
    ensures
        pieces(text, separator).len() > 0,
        forall|i: int|
            0 <= i < pieces(text, separator).len() ==> !(#[trigger] pieces(text, separator)[i]).contains(
                separator,
            ),
        joined(pieces(text, separator), separator) == text,
    decreases text.len(),
{
    let all = pieces(text, separator);
    if text.len() > 0 {
        let front = text.drop_last();
        let before = pieces(front, separator);
        law_pieces_make_up_the_text(front, separator);
        assert(front.push(text.last()) =~= text);
        if text.last() == separator {
            assert(all.drop_last() =~= before);
            assert(joined(all, separator) =~= text);
        } else {
            let last = before.last().push(text.last());
            assert(before.last() == before[before.len() - 1]);
            assert(!last.contains(separator)) by {
                assert forall|i: int| 0 <= i < last.len() implies last[i] != separator by {
                    if i < before.last().len() {
                        assert(before.last()[i] == last[i]);
                    }
                }
            }
            if before.len() == 1 {
                assert(joined(all, separator) =~= text);
            } else {
                assert(all.drop_last() =~= before.drop_last());
                assert(joined(all, separator) =~= joined(before, separator).push(text.last()));
            }
        }
    } else {
        assert(joined(all, separator) =~= text);
    }
}

/// The content of a list of texts is that of each of them, in their order.
pub proof fn law_texts_stand_in_their_order(list: Seq<String>, i: int)
    ensures
        texts(list).len() == list.len(),
        0 <= i < list.len() ==> texts(list)[i] == list[i]@,
{
}

} // verus!
