//! Splitting text at a separator character, as `str::split` and
//! `str::split_once` do, with the laws that tie the pieces back together.

use vstd::prelude::*;

verus! {

/// The views of a sequence of string slices.
pub open spec fn str_views(v: Seq<&str>) -> Seq<Seq<char>> {
    v.map_values(|p: &str| p@)
}

/// The view of an optional string slice.
pub open spec fn opt_str_view(o: Option<&str>) -> Option<Seq<char>> {
    match o {
        Some(s) => Some(s@),
        None => None,
    }
}

/// The pieces that `str::split` yields for a single-character separator:
/// the text between consecutive separators, including empty pieces, and
/// always at least one piece.
pub open spec fn split_seq(s: Seq<char>, sep: char) -> Seq<Seq<char>>
    decreases s.len(),
{
    if s.len() == 0 {
        seq![Seq::<char>::empty()]
    } else {
        let rest = split_seq(s.drop_last(), sep);
        if s.last() == sep {
            rest.push(Seq::<char>::empty())
        } else {
            rest.update(rest.len() - 1, rest.last().push(s.last()))
        }
    }
}

/// The pieces put back together with the separator between them.
pub open spec fn join_seq(pieces: Seq<Seq<char>>, sep: char) -> Seq<char>
    decreases pieces.len(),
{
    if pieces.len() == 0 {
        Seq::<char>::empty()
    } else if pieces.len() == 1 {
        pieces[0]
    } else {
        join_seq(pieces.drop_last(), sep) + seq![sep] + pieces.last()
    }
}

/// Splitting always yields at least one piece.
pub proof fn lemma_split_nonempty(s: Seq<char>, sep: char)
    ensures
        split_seq(s, sep).len() >= 1,
    decreases s.len(),
{
    if s.len() > 0 {
        lemma_split_nonempty(s.drop_last(), sep);
    }
}

/// No piece of a split holds the separator.
pub proof fn lemma_split_pieces_lack_separator(s: Seq<char>, sep: char)
    ensures
        forall|i: int|
            0 <= i < split_seq(s, sep).len() ==> !(#[trigger] split_seq(s, sep)[i]).contains(sep),
    decreases s.len(),
{
    if s.len() > 0 {
        let rest = split_seq(s.drop_last(), sep);
        lemma_split_pieces_lack_separator(s.drop_last(), sep);
        lemma_split_nonempty(s.drop_last(), sep);
        let r = split_seq(s, sep);
        assert forall|i: int| 0 <= i < r.len() implies !(#[trigger] r[i]).contains(sep) by {
            if s.last() == sep {
                if i < rest.len() {
                    assert(r[i] == rest[i]);
                } else {
                    assert(r[i] =~= Seq::<char>::empty());
                }
            } else {
                if i < rest.len() - 1 {
                    assert(r[i] == rest[i]);
                } else {
                    let p = rest.last().push(s.last());
                    assert(r[i] == p);
                    assert(!rest[rest.len() - 1].contains(sep));
                    if p.contains(sep) {
                        let k = choose|k: int| 0 <= k < p.len() && p[k] == sep;
                        assert(rest.last()[k] == sep);
                    }
                }
            }
        }
    }
}

/// Replacing the last piece by itself plus one character adds that
/// character to the end of the joined text.
proof fn lemma_join_extend_last(pieces: Seq<Seq<char>>, sep: char, c: char)
    requires
        pieces.len() >= 1,
    ensures
        join_seq(pieces.update(pieces.len() - 1, pieces.last().push(c)), sep) == join_seq(
            pieces,
            sep,
        ).push(c),
{
    let updated = pieces.update(pieces.len() - 1, pieces.last().push(c));
    if pieces.len() == 1 {
        assert(updated[0] == pieces[0].push(c));
    } else {
        assert(updated.drop_last() =~= pieces.drop_last());
        assert(join_seq(updated, sep) =~= join_seq(pieces, sep).push(c));
    }
}

/// Joining the pieces of a split with the same separator gives back the
/// text that was split.
pub proof fn lemma_split_join(s: Seq<char>, sep: char)
    ensures
        join_seq(split_seq(s, sep), sep) == s,
    decreases s.len(),
{
    if s.len() == 0 {
        assert(join_seq(split_seq(s, sep), sep) =~= s);
    } else {
        let t = s.drop_last();
        let rest = split_seq(t, sep);
        lemma_split_join(t, sep);
        lemma_split_nonempty(t, sep);
        if s.last() == sep {
            let r = rest.push(Seq::<char>::empty());
            assert(r.drop_last() =~= rest);
            assert(join_seq(r, sep) =~= s);
        } else {
            lemma_join_extend_last(rest, sep, s.last());
            assert(t.push(s.last()) =~= s);
        }
    }
}

/// Appending text that holds no separator lengthens the last piece by it
/// and adds no piece.
pub proof fn lemma_split_append_free(x: Seq<char>, m: Seq<char>, sep: char)
    requires
        !m.contains(sep),
    ensures
        split_seq(x + m, sep) == split_seq(x, sep).update(
            split_seq(x, sep).len() - 1,
            split_seq(x, sep).last() + m,
        ),
    decreases m.len(),
{
    lemma_split_nonempty(x, sep);
    let px = split_seq(x, sep);
    if m.len() == 0 {
        assert(x + m =~= x);
        assert(px.update(px.len() - 1, px.last() + m) =~= px);
    } else {
        let m0 = m.drop_last();
        let c = m.last();
        assert(!m0.contains(sep)) by {
            if m0.contains(sep) {
                let k = choose|k: int| 0 <= k < m0.len() && m0[k] == sep;
                assert(m[k] == sep);
            }
        }
        assert(c != sep) by {
            assert(m[m.len() - 1] == c);
        }
        lemma_split_append_free(x, m0, sep);
        assert((x + m).drop_last() =~= x + m0);
        assert((x + m).last() == c);
        let q = split_seq(x + m0, sep);
        assert(q.last() == px.last() + m0);
        assert((px.last() + m0).push(c) =~= px.last() + m);
        assert(q.update(q.len() - 1, q.last().push(c)) =~= px.update(
            px.len() - 1,
            px.last() + m,
        ));
    }
}

/// Text without the separator is a single piece.
pub proof fn lemma_split_free(m: Seq<char>, sep: char)
    requires
        !m.contains(sep),
    ensures
        split_seq(m, sep) == seq![m],
{
    let e = Seq::<char>::empty();
    lemma_split_append_free(e, m, sep);
    assert(e + m =~= m);
    assert(e + m =~= m);
    assert(seq![e].update(0, e + m) =~= seq![m]);
}

/// A separator followed by text without separators adds that text as a
/// new last piece.
pub proof fn lemma_split_sep_then_free(x: Seq<char>, m: Seq<char>, sep: char)
    requires
        !m.contains(sep),
    ensures
        split_seq(x.push(sep) + m, sep) == split_seq(x, sep).push(m),
{
    assert(x.push(sep).drop_last() =~= x);
    assert(split_seq(x.push(sep), sep) == split_seq(x, sep).push(Seq::<char>::empty()));
    lemma_split_append_free(x.push(sep), m, sep);
    assert(Seq::<char>::empty() + m =~= m);
    assert(split_seq(x, sep).push(Seq::<char>::empty()).update(
        split_seq(x, sep).len() as int,
        Seq::<char>::empty() + m,
    ) =~= split_seq(x, sep).push(m));
}

/// Splits `s` at every `sep`, as `s.split(sep).collect::<Vec<_>>()` does.
pub fn split_str<'a>(s: &'a str, sep: char) -> (pieces: Vec<&'a str>)
    ensures
        str_views(pieces@) == split_seq(s@, sep),
{
    let len = s.unicode_len();
    let mut pieces: Vec<&'a str> = Vec::new();
    let mut start: usize = 0;
    let mut i: usize = 0;
    assert(s@.take(0) =~= Seq::<char>::empty());
    assert(str_views(pieces@).push(s@.subrange(0, 0)) =~= split_seq(s@.take(0), sep));
    while i < len
        invariant
            len == s@.len(),
            start <= i <= len,
            str_views(pieces@).push(s@.subrange(start as int, i as int)) == split_seq(
                s@.take(i as int),
                sep,
            ),
        decreases len - i,
    {
        let c = s.get_char(i);
        let ghost before = str_views(pieces@);
        assert(s@.take(i + 1).drop_last() =~= s@.take(i as int));
        assert(s@.take(i + 1).last() == c);
        if c == sep {
            let piece = s.substring_char(start, i);
            pieces.push(piece);
            assert(str_views(pieces@) =~= before.push(piece@));
            start = i + 1;
            assert(s@.subrange(start as int, start as int) =~= Seq::<char>::empty());
        } else {
            assert(s@.subrange(start as int, i as int).push(c) =~= s@.subrange(
                start as int,
                i + 1,
            ));
            assert(before.push(s@.subrange(start as int, i as int)).update(
                before.len() as int,
                s@.subrange(start as int, i + 1),
            ) =~= before.push(s@.subrange(start as int, i + 1)));
        }
        i = i + 1;
    }
    let last = s.substring_char(start, len);
    let ghost before = str_views(pieces@);
    pieces.push(last);
    assert(str_views(pieces@) =~= before.push(last@));
    assert(s@.take(len as int) =~= s@);
    pieces
}

/// Splits `s` at its first `sep`, as `str::split_once` does: `None` when
/// `sep` does not occur, otherwise the text before and after it.
pub fn split_once_str<'a>(s: &'a str, sep: char) -> (r: Option<(&'a str, &'a str)>)
    ensures
        r is None <==> !s@.contains(sep),
        r matches Some((before, after)) ==> {
            &&& before@ + seq![sep] + after@ == s@
            &&& !before@.contains(sep)
        },
{
    let len = s.unicode_len();
    let mut i: usize = 0;
    while i < len
        invariant
            len == s@.len(),
            i <= len,
            forall|j: int| 0 <= j < i ==> s@[j] != sep,
        decreases len - i,
    {
        if s.get_char(i) == sep {
            let before = s.substring_char(0, i);
            let after = s.substring_char(i + 1, len);
            assert(before@ + seq![sep] + after@ =~= s@);
            assert(!before@.contains(sep)) by {
                if before@.contains(sep) {
                    let k = choose|k: int| 0 <= k < before@.len() && before@[k] == sep;
                    assert(s@[k] == sep);
                }
            }
            return Some((before, after));
        }
        i = i + 1;
    }
    None
}

} // verus!
