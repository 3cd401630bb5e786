use crate::text::{append_chars, occurs_at, rows};
use vstd::prelude::*;

verus! {

/// The pieces of `rest`, read after `current`, the part of the piece at
/// hand that was read already. A piece ends with its line feed; what
/// follows the last line feed is a piece only if it is not empty.
pub open spec fn pieces_after(current: Seq<char>, rest: Seq<char>) -> Seq<Seq<char>>
    decreases rest.len(),
{
    if rest.len() == 0 {
        if current.len() == 0 {
            Seq::empty()
        } else {
            seq![current]
        }
    } else if rest[0] == '\n' {
        seq![current.push('\n')] + pieces_after(Seq::empty(), rest.drop_first())
    } else {
        pieces_after(current.push(rest[0]), rest.drop_first())
    }
}

/// A text cut after each line feed: every piece is a line with its own line
/// end, and the pieces in order make up the text.
pub open spec fn pieces_of(text: Seq<char>) -> Seq<Seq<char>> {
    pieces_after(Seq::empty(), text)
}

/// The line end of a piece: a carriage return and a line feed, a line feed
/// alone, or nothing for a last piece that has none.
pub open spec fn line_end(piece: Seq<char>) -> Seq<char> {
    if piece.len() >= 2 && piece[piece.len() - 2] == '\r' && piece[piece.len() - 1] == '\n' {
        seq!['\r', '\n']
    } else if piece.len() >= 1 && piece[piece.len() - 1] == '\n' {
        seq!['\n']
    } else {
        Seq::empty()
    }
}

/// A piece without its line end: the line as `str::lines` of std gives it.
pub open spec fn line_body(piece: Seq<char>) -> Seq<char> {
    piece.take(piece.len() - line_end(piece).len())
}

/// The parts one after the other.
pub open spec fn concatenated(parts: Seq<Seq<char>>) -> Seq<char>
    decreases parts.len(),
{
    if parts.len() == 0 {
        Seq::empty()
    } else {
        parts.first() + concatenated(parts.drop_first())
    }
}

/// One more part at the end comes last.
pub proof fn lemma_concatenated_push(parts: Seq<Seq<char>>, last: Seq<char>)
    ensures
        concatenated(parts.push(last)) == concatenated(parts) + last,
    decreases parts.len(),
{
    if parts.len() == 0 {
        assert(parts.push(last).drop_first() =~= Seq::<Seq<char>>::empty());
        assert(concatenated(Seq::<Seq<char>>::empty()) =~= Seq::<char>::empty());
        assert(parts.push(last).first() == last);
        assert(concatenated(parts.push(last)) =~= last);
        assert(concatenated(parts) + last =~= last);
    } else {
        lemma_concatenated_push(parts.drop_first(), last);
        assert(parts.push(last).drop_first() =~= parts.drop_first().push(last));
        assert(parts.push(last).first() == parts.first());
        assert(parts.first() + (concatenated(parts.drop_first()) + last) =~= (parts.first()
            + concatenated(parts.drop_first())) + last);
    }
}

/// Cuts a text into its pieces.
pub fn split_pieces(text: &Vec<char>) -> (r: Vec<Vec<char>>)
    ensures
        rows(r@) == pieces_of(text@),
{
    let mut done: Vec<Vec<char>> = Vec::new();
    let mut current: Vec<char> = Vec::new();
    let mut i: usize = 0;
    assert(text@.skip(0) == text@);
    assert(rows(done@) + pieces_after(current@, text@) == pieces_of(text@));
    while i < text.len()
        invariant
            i <= text.len(),
            rows(done@) + pieces_after(current@, text@.skip(i as int)) == pieces_of(text@),
        decreases text.len() - i,
    {
        let c = text[i];
        assert(text@.skip(i as int).drop_first() == text@.skip(i + 1));
        assert(text@.skip(i as int)[0] == c);
        current.push(c);
        if c == '\n' {
            let ghost before = rows(done@);
            let ghost piece = current@;
            done.push(current);
            current = Vec::new();
            assert(rows(done@) == before.push(piece));
            assert(before.push(piece) + pieces_after(Seq::empty(), text@.skip(i + 1)) == before + (
            seq![piece] + pieces_after(Seq::empty(), text@.skip(i + 1))));
        }
        i += 1;
    }
    if current.len() > 0 {
        let ghost before = rows(done@);
        let ghost piece = current@;
        done.push(current);
        assert(rows(done@) == before.push(piece));
        assert(before.push(piece) == before + seq![piece]);
    } else {
        assert(rows(done@) + Seq::<Seq<char>>::empty() == rows(done@));
    }
    done
}

/// How long the line end of a piece is: 2, 1 or 0 characters.
pub fn line_end_len(piece: &Vec<char>) -> (r: usize)
    ensures
        r == line_end(piece@).len(),
        r <= piece.len(),
{
    let n: usize = piece.len();
    if n >= 2 && piece[n - 2] == '\r' && piece[n - 1] == '\n' {
        2
    } else if n >= 1 && piece[n - 1] == '\n' {
        1
    } else {
        0
    }
}

/// Puts the parts one after the other.
pub fn concatenate(parts: &Vec<Vec<char>>) -> (r: Vec<char>)
    ensures
        r@ == concatenated(rows(parts@)),
{
    let mut out: Vec<char> = Vec::new();
    let mut i: usize = 0;
    assert(rows(parts@).take(0) =~= Seq::empty());
    while i < parts.len()
        invariant
            i <= parts.len(),
            out@ == concatenated(rows(parts@).take(i as int)),
        decreases parts.len() - i,
    {
        proof {
            lemma_concatenated_push(rows(parts@).take(i as int), parts@[i as int]@);
            assert(rows(parts@).take(i + 1) =~= rows(parts@).take(i as int).push(
                parts@[i as int]@,
            ));
        }
        append_chars(&mut out, &parts[i]);
        i += 1;
    }
    assert(rows(parts@).take(parts.len() as int) =~= rows(parts@));
    out
}

/// No character is a line feed.
pub open spec fn no_line_feed(s: Seq<char>) -> bool {
    forall|j: int| 0 <= j < s.len() ==> s[j] != '\n'
}

/// A piece is not empty and holds no line feed but at its end.
pub open spec fn is_piece(piece: Seq<char>) -> bool {
    piece.len() > 0 && forall|j: int| 0 <= j < piece.len() - 1 ==> piece[j] != '\n'
}

/// Pieces as a text is cut into them: each is a piece, and each but the
/// last ends with a line feed.
pub open spec fn are_pieces(pieces: Seq<Seq<char>>) -> bool {
    forall|i: int|
        0 <= i < pieces.len() ==> is_piece(#[trigger] pieces[i]) && (i < pieces.len() - 1
            ==> pieces[i].last() == '\n')
}

/// A first part comes first.
pub proof fn lemma_concatenated_front(first: Seq<char>, rest: Seq<Seq<char>>)
    ensures
        concatenated(seq![first] + rest) == first + concatenated(rest),
{
    assert((seq![first] + rest).drop_first() =~= rest);
    assert((seq![first] + rest).first() == first);
}

/// The pieces read after `current` make up `current` and the rest.
pub proof fn lemma_pieces_after_make_the_text(current: Seq<char>, rest: Seq<char>)
    ensures
        concatenated(pieces_after(current, rest)) == current + rest,
    decreases rest.len(),
{
    if rest.len() == 0 {
        assert(concatenated(Seq::<Seq<char>>::empty()) =~= Seq::<char>::empty());
        if current.len() > 0 {
            lemma_concatenated_front(current, Seq::empty());
            assert(seq![current] + Seq::<Seq<char>>::empty() =~= seq![current]);
        }
        assert(current + rest =~= current);
    } else if rest[0] == '\n' {
        lemma_pieces_after_make_the_text(Seq::empty(), rest.drop_first());
        lemma_concatenated_front(
            current.push('\n'),
            pieces_after(Seq::empty(), rest.drop_first()),
        );
        assert(current.push('\n') + (Seq::<char>::empty() + rest.drop_first()) =~= current + rest);
    } else {
        lemma_pieces_after_make_the_text(current.push(rest[0]), rest.drop_first());
        assert(current.push(rest[0]) + rest.drop_first() =~= current + rest);
    }
}

/// The pieces of a text, one after the other, are the text.
pub proof fn lemma_pieces_make_the_text(text: Seq<char>)
    ensures
        concatenated(pieces_of(text)) == text,
{
    lemma_pieces_after_make_the_text(Seq::empty(), text);
    assert(Seq::<char>::empty() + text =~= text);
}

/// What is read after a beginning without a line feed are pieces.
pub proof fn lemma_pieces_after_are_pieces(current: Seq<char>, rest: Seq<char>)
    requires
        no_line_feed(current),
    ensures
        are_pieces(pieces_after(current, rest)),
    decreases rest.len(),
{
    if rest.len() == 0 {
    } else if rest[0] == '\n' {
        lemma_pieces_after_are_pieces(Seq::empty(), rest.drop_first());
        let head = current.push('\n');
        let tail = pieces_after(Seq::empty(), rest.drop_first());
        let all = seq![head] + tail;
        assert forall|i: int| 0 <= i < all.len() implies is_piece(#[trigger] all[i]) && (i
            < all.len() - 1 ==> all[i].last() == '\n') by {
            if i > 0 {
                assert(all[i] == tail[i - 1]);
            }
        }
    } else {
        lemma_pieces_after_are_pieces(current.push(rest[0]), rest.drop_first());
    }
}

/// A text is cut into pieces.
pub proof fn lemma_pieces_are_pieces(text: Seq<char>)
    ensures
        are_pieces(pieces_of(text)),
{
    lemma_pieces_after_are_pieces(Seq::empty(), text);
}

/// Reading on from the middle of the first piece gives the pieces back.
pub proof fn lemma_pieces_after_concatenated(
    current: Seq<char>,
    tail: Seq<char>,
    others: Seq<Seq<char>>,
)
    requires
        no_line_feed(current),
        are_pieces(seq![current + tail] + others),
    ensures
        pieces_after(current, tail + concatenated(others)) == seq![current + tail] + others,
    decreases others.len(), tail.len(),
{
    let all = seq![current + tail] + others;
    let rest = tail + concatenated(others);
    assert(all[0] == current + tail);
    assert(is_piece(all[0]));
    if tail.len() == 0 {
        assert(current + tail =~= current);
        if others.len() == 0 {
            assert(concatenated(others) =~= Seq::<char>::empty());
            assert(rest =~= Seq::<char>::empty());
            assert(all =~= seq![current]);
        } else {
            // A piece before another ends with a line feed, and `current`
            // has none.
            assert(all[0].last() == '\n');
            assert(current[current.len() - 1] != '\n');
        }
    } else if tail[0] == '\n' {
        assert((current + tail)[current.len() as int] == '\n');
        assert(tail.len() == 1);
        assert(tail =~= seq!['\n']);
        assert(current + tail =~= current.push('\n'));
        assert(rest[0] == '\n');
        assert(rest.drop_first() =~= concatenated(others));
        if others.len() == 0 {
            assert(concatenated(others) =~= Seq::<char>::empty());
            assert(pieces_after(Seq::empty(), rest.drop_first()) =~= Seq::<Seq<char>>::empty());
            assert(all =~= seq![current.push('\n')] + Seq::<Seq<char>>::empty());
        } else {
            let next = others.first();
            let later = others.drop_first();
            assert(seq![next] + later =~= others);
            assert(Seq::<char>::empty() + next =~= next);
            assert(are_pieces(seq![Seq::<char>::empty() + next] + later)) by {
                assert forall|i: int| 0 <= i < others.len() implies is_piece(
                    #[trigger] others[i],
                ) && (i < others.len() - 1 ==> others[i].last() == '\n') by {
                    assert(all[i + 1] == others[i]);
                }
            }
            lemma_pieces_after_concatenated(Seq::empty(), next, later);
            assert(concatenated(others) == next + concatenated(later));
        }
    } else {
        let c = tail[0];
        assert(rest[0] == c);
        assert(rest.drop_first() =~= tail.drop_first() + concatenated(others));
        assert(current.push(c) + tail.drop_first() =~= current + tail);
        lemma_pieces_after_concatenated(current.push(c), tail.drop_first(), others);
    }
}

/// Cutting pieces that were put one after the other gives the pieces back.
pub proof fn lemma_pieces_of_concatenated(pieces: Seq<Seq<char>>)
    requires
        are_pieces(pieces),
    ensures
        pieces_of(concatenated(pieces)) == pieces,
{
    if pieces.len() == 0 {
        assert(concatenated(pieces) =~= Seq::<char>::empty());
        assert(pieces_of(Seq::<char>::empty()) =~= pieces);
    } else {
        let first = pieces.first();
        let others = pieces.drop_first();
        assert(Seq::<char>::empty() + first =~= first);
        assert(seq![Seq::<char>::empty() + first] + others =~= pieces);
        lemma_pieces_after_concatenated(Seq::empty(), first, others);
    }
}

/// Each part stands somewhere in the parts put one after the other.
pub proof fn lemma_part_occurs(parts: Seq<Seq<char>>, i: int) -> (at: int)
    requires
        0 <= i < parts.len(),
    ensures
        occurs_at(concatenated(parts), parts[i], at),
    decreases i,
{
    let first = parts.first();
    let rest = concatenated(parts.drop_first());
    if i == 0 {
        assert((first + rest).subrange(0, first.len() as int) =~= first);
        0
    } else {
        let inner = lemma_part_occurs(parts.drop_first(), i - 1);
        assert(parts.drop_first()[i - 1] == parts[i]);
        assert((first + rest).subrange(first.len() + inner, first.len() + inner + parts[i].len())
            =~= rest.subrange(inner, inner + parts[i].len()));
        first.len() + inner
    }
}

} // verus!
