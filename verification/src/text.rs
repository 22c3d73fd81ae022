//! Searching and cutting text, character by character.

use vstd::prelude::*;
use vstd::string::*;

verus! {

/// The position of the last `c` in `s`, or -1 where `s` holds none.
pub open spec fn last_position(s: Seq<char>, c: char) -> int
    decreases s.len(),
{
    if s.len() == 0 {
        -1
    } else if s.last() == c {
        s.len() - 1
    } else {
        last_position(s.drop_last(), c)
    }
}

/// `last_position` is the greatest index that holds `c`.
pub proof fn lemma_last_position(s: Seq<char>, c: char)
    ensures
        -1 <= last_position(s, c) < s.len(),
        last_position(s, c) >= 0 ==> s[last_position(s, c)] == c,
        forall|j: int| last_position(s, c) < j < s.len() ==> s[j] != c,
        last_position(s, c) == -1 <==> !s.contains(c),
    decreases s.len(),
{
    if s.len() > 0 && s.last() != c {
        let front = s.drop_last();
        lemma_last_position(front, c);
        assert forall|j: int| last_position(s, c) < j < s.len() implies s[j] != c by {
            if j < front.len() {
                assert(front[j] == s[j]);
            }
        }
        if s.contains(c) {
            let i = choose|i: int| 0 <= i < s.len() && s[i] == c;
            assert(front[i] == c);
        }
        if last_position(s, c) >= 0 {
            assert(front[last_position(s, c)] == s[last_position(s, c)]);
        }
    } else if s.len() > 0 {
        assert(s[s.len() - 1] == c);
    }
}

/// The last `c` of two texts set side by side is the last `c` of the second,
/// or else that of the first.
pub proof fn lemma_last_position_of_sum(a: Seq<char>, b: Seq<char>, c: char)
    ensures
        last_position(a + b, c) == if last_position(b, c) >= 0 {
            a.len() + last_position(b, c)
        } else {
            last_position(a, c)
        },
    decreases b.len(),
{
    if b.len() == 0 {
        assert(a + b =~= a);
    } else {
        assert((a + b).drop_last() =~= a + b.drop_last());
        assert((a + b).last() == b.last());
        if b.last() != c {
            lemma_last_position_of_sum(a, b.drop_last(), c);
        }
    }
}

/// Finds the last `c` in `s`.
pub fn find_last(s: &str, c: char) -> (r: Option<usize>)
    ensures
        match r {
            Some(i) => i as int == last_position(s@, c),
            None => last_position(s@, c) == -1,
        },
{
    // The count is what keeps `i` from overflowing.
    let n: usize = s.unicode_len();
    let mut found: Option<usize> = None;
    let mut i: usize = 0;
    for ch in it: s.chars()
        invariant
            it.seq() == s@,
            n == s@.len(),
            i == it.index(),
            match found {
                Some(k) => k as int == last_position(s@.take(i as int), c),
                None => last_position(s@.take(i as int), c) == -1,
            },
    {
        proof {
            assert(s@.take(i + 1).drop_last() =~= s@.take(i as int));
        }
        if ch == c {
            found = Some(i);
        }
        i = i + 1;
    }
    proof {
        assert(s@.take(n as int) =~= s@);
    }
    found
}

/// The texts that a list of strings holds, in order.
pub open spec fn texts(list: Seq<String>) -> Seq<Seq<char>> {
    Seq::new(list.len(), |i: int| list[i]@)
}

/// Whether two strings hold the same text.
pub fn same_text(a: &str, b: &str) -> (r: bool)
    ensures
        r == (a@ == b@),
{
    let x = String::from_str(a);
    let y = String::from_str(b);
    x == y
}

/// Whether `list` holds `item`, compared character for character.
pub fn contains_text(list: &Vec<String>, item: &str) -> (r: bool)
    ensures
        r == texts(list@).contains(item@),
{
    let mut i: usize = 0;
    while i < list.len()
        invariant
            i <= list.len(),
            forall|j: int| 0 <= j < i ==> texts(list@)[j] != item@,
        decreases list.len() - i,
    {
        if same_text(list[i].as_str(), item) {
            assert(texts(list@)[i as int] == item@);
            return true;
        }
        i = i + 1;
    }
    false
}

/// The pieces of `s` that lie between occurrences of `sep`.
///
/// A text without `sep` is one piece, the empty text too; `n` separators
/// give `n + 1` pieces, some of which may be empty.
pub open spec fn split(s: Seq<char>, sep: char) -> Seq<Seq<char>>
    decreases s.len(),
{
    let at = last_position(s, sep);
    if at < 0 || at >= s.len() {
        seq![s]
    } else {
        split(s.take(at), sep).push(s.skip(at + 1))
    }
}

/// Cuts `s` at every `sep`.
pub fn split_on(s: &str, sep: char) -> (pieces: Vec<String>)
    ensures
        texts(pieces@) == split(s@, sep),
{
    // The count is what keeps `i` from overflowing, and it ends the last piece.
    let n: usize = s.unicode_len();
    let mut pieces: Vec<String> = Vec::new();
    let mut start: usize = 0;
    let mut i: usize = 0;
    for ch in it: s.chars()
        invariant
            it.seq() == s@,
            n == s@.len(),
            i == it.index(),
            start <= i,
            start as int == last_position(s@.take(i as int), sep) + 1,
            start == 0 ==> pieces@.len() == 0,
            start > 0 ==> texts(pieces@) == split(s@.take(start - 1), sep),
    {
        proof {
            assert(s@.take(i + 1).drop_last() =~= s@.take(i as int));
        }
        if ch == sep {
            let piece = String::from_str(s.substring_char(start, i));
            proof {
                let head = s@.take(i as int);
                lemma_last_position(head, sep);
                assert(head.skip(start as int) =~= s@.subrange(start as int, i as int));
                if start > 0 {
                    assert(head.take(start - 1) =~= s@.take(start - 1));
                } else {
                    assert(texts(pieces@) =~= Seq::<Seq<char>>::empty());
                    assert(seq![head] =~= Seq::<Seq<char>>::empty().push(head));
                }
                assert(texts(pieces@.push(piece)) =~= texts(pieces@).push(piece@));
            }
            pieces.push(piece);
            start = i + 1;
        }
        i = i + 1;
    }
    let piece = String::from_str(s.substring_char(start, n));
    proof {
        assert(s@.take(n as int) =~= s@);
        lemma_last_position(s@, sep);
        assert(s@.skip(start as int) =~= s@.subrange(start as int, n as int));
        if start == 0 {
            assert(texts(pieces@.push(piece)) =~= seq![s@]);
        } else {
            assert(texts(pieces@.push(piece)) =~= texts(pieces@).push(piece@));
        }
    }
    pieces.push(piece);
    pieces
}

/// The pieces set side by side again, with `sep` between each two.
pub open spec fn rejoined(pieces: Seq<Seq<char>>, sep: char) -> Seq<char>
    decreases pieces.len(),
{
    if pieces.len() == 0 {
        Seq::empty()
    } else if pieces.len() == 1 {
        pieces[0]
    } else {
        rejoined(pieces.drop_last(), sep).push(sep) + pieces.last()
    }
}

/// Splitting loses nothing: there is at least one piece, no piece holds the
/// separator, and the pieces rejoined are the text that was split.
pub proof fn lemma_split_rejoins(s: Seq<char>, sep: char)
    ensures
        split(s, sep).len() >= 1,
        forall|i: int| 0 <= i < split(s, sep).len() ==> !(#[trigger] split(s, sep)[i]).contains(sep),
        rejoined(split(s, sep), sep) == s,
    decreases s.len(),
{
    lemma_last_position(s, sep);
    let at = last_position(s, sep);
    if at >= 0 {
        let front = split(s.take(at), sep);
        let tail = s.skip(at + 1);
        lemma_split_rejoins(s.take(at), sep);
        if tail.contains(sep) {
            let i = choose|i: int| 0 <= i < tail.len() && tail[i] == sep;
            assert(s[at + 1 + i] == sep);
        }
        assert(front.push(tail).drop_last() =~= front);
        assert(s.take(at).push(sep) + tail =~= s);
    }
}

/// Splitting undoes joining: pieces that hold no separator come back as
/// they were when their joined text is split.
pub proof fn lemma_rejoined_splits(pieces: Seq<Seq<char>>, sep: char)
    requires
        pieces.len() >= 1,
        forall|i: int| 0 <= i < pieces.len() ==> !(#[trigger] pieces[i]).contains(sep),
    ensures
        split(rejoined(pieces, sep), sep) == pieces,
    decreases pieces.len(),
{
    if pieces.len() == 1 {
        lemma_last_position(pieces[0], sep);
        assert(seq![pieces[0]] =~= pieces);
    } else {
        let front = pieces.drop_last();
        let head = rejoined(front, sep).push(sep);
        let whole = head + pieces.last();
        assert forall|i: int| 0 <= i < front.len() implies !(#[trigger] front[i]).contains(sep) by {
            assert(front[i] == pieces[i]);
        }
        lemma_rejoined_splits(front, sep);
        lemma_last_position(pieces.last(), sep);
        lemma_last_position_of_sum(head, pieces.last(), sep);
        assert(last_position(head, sep) == head.len() - 1);
        let at = last_position(whole, sep);
        assert(whole.take(at) =~= rejoined(front, sep));
        assert(whole.skip(at + 1) =~= pieces.last());
        assert(front.push(pieces.last()) =~= pieces);
    }
}

} // verus!
