use vstd::prelude::*;

verus! {

/// The pieces of `s` between occurrences of `sep`, in order, empty pieces
/// included. Splitting the empty sequence gives one empty piece, so there is
/// always at least one piece.
pub open spec fn split_on(s: Seq<char>, sep: char) -> Seq<Seq<char>>
    decreases s.len(),
{
    if s.len() == 0 {
        seq![Seq::<char>::empty()]
    } else if s.last() == sep {
        split_on(s.drop_last(), sep).push(Seq::<char>::empty())
    } else {
        let prev = split_on(s.drop_last(), sep);
        prev.update(prev.len() - 1, prev.last().push(s.last()))
    }
}

/// Splitting always yields at least one piece.
pub proof fn lemma_split_on_nonempty(s: Seq<char>, sep: char)
    ensures
        split_on(s, sep).len() >= 1,
    decreases s.len(),
{
    if s.len() != 0 {
        lemma_split_on_nonempty(s.drop_last(), sep);
    }
}

/// The pieces interleaved with `sep`: the inverse of splitting.
pub open spec fn join_with(pieces: Seq<Seq<char>>, sep: char) -> Seq<char>
    decreases pieces.len(),
{
    if pieces.len() == 0 {
        Seq::<char>::empty()
    } else if pieces.len() == 1 {
        pieces[0]
    } else {
        join_with(pieces.drop_last(), sep).push(sep) + pieces.last()
    }
}

/// Splitting loses nothing and keeps order: joining the pieces with the
/// separator restores the original sequence.
pub proof fn lemma_split_on_join(s: Seq<char>, sep: char)
    ensures
        join_with(split_on(s, sep), sep) == s,
    decreases s.len(),
{
    if s.len() == 0 {
        assert(join_with(split_on(s, sep), sep) =~= s);
    } else {
        let rest = s.drop_last();
        lemma_split_on_join(rest, sep);
        lemma_split_on_nonempty(rest, sep);
        let prev = split_on(rest, sep);
        if s.last() == sep {
            assert(prev.push(Seq::<char>::empty()).drop_last() =~= prev);
            assert(join_with(split_on(s, sep), sep) =~= s);
        } else {
            let updated = prev.update(prev.len() - 1, prev.last().push(s.last()));
            if prev.len() == 1 {
                assert(join_with(updated, sep) == updated[0]);
                assert(updated[0] =~= s);
            } else {
                assert(updated.drop_last() =~= prev.drop_last());
                assert(updated.last() == prev.last().push(s.last()));
                assert(join_with(updated, sep) =~= join_with(prev, sep).push(s.last()));
                assert(join_with(prev, sep).push(s.last()) =~= s);
            }
        }
    }
}

/// No piece of the split contains the separator.
pub proof fn lemma_split_on_no_sep(s: Seq<char>, sep: char)
    ensures
        forall|i: int|
            0 <= i < split_on(s, sep).len() ==> !(#[trigger] split_on(s, sep)[i]).contains(sep),
    decreases s.len(),
{
    if s.len() != 0 {
        let rest = s.drop_last();
        lemma_split_on_no_sep(rest, sep);
        lemma_split_on_nonempty(rest, sep);
        let prev = split_on(rest, sep);
        if s.last() == sep {
            assert forall|i: int| 0 <= i < split_on(s, sep).len() implies !(#[trigger] split_on(
                s,
                sep,
            )[i]).contains(sep) by {
                if i < prev.len() {
                    assert(split_on(s, sep)[i] == prev[i]);
                } else {
                    assert(split_on(s, sep)[i] =~= Seq::<char>::empty());
                }
            }
        } else {
            assert forall|i: int| 0 <= i < split_on(s, sep).len() implies !(#[trigger] split_on(
                s,
                sep,
            )[i]).contains(sep) by {
                if i < prev.len() - 1 {
                    assert(split_on(s, sep)[i] == prev[i]);
                } else {
                    let last = prev.last().push(s.last());
                    assert(split_on(s, sep)[i] == last);
                    assert forall|j: int| 0 <= j < last.len() implies last[j] != sep by {
                        if j < last.len() - 1 && last[j] == sep {
                            assert(prev.last()[j] == sep);
                            assert(prev.last().contains(sep));
                        }
                    }
                }
            }
        }
    }
}

/// Splits `s` on the space character: the pieces of `split_on(s@, ' ')`,
/// in order, each as its own `String`.
pub fn split_spaces(s: &str) -> (r: Vec<String>)
    ensures
        r.deep_view() == split_on(s@, ' '),
{
    let n = s.unicode_len();
    let mut pieces: Vec<String> = Vec::new();
    let mut start: usize = 0;
    let mut i: usize = 0;
    proof {
        assert(pieces.deep_view().push(s@.subrange(0, 0)) =~~= split_on(s@.take(0), ' '));
    }
    while i < n
        invariant
            n == s@.len(),
            start <= i <= n,
            pieces.deep_view().push(s@.subrange(start as int, i as int)) =~~= split_on(
                s@.take(i as int),
                ' ',
            ),
        decreases n - i,
    {
        let ghost old_pieces = pieces.deep_view();
        let ghost old_start = start as int;
        let c = s.get_char(i);
        if c == ' ' {
            let piece = s.substring_char(start, i);
            pieces.push(String::from_str(piece));
            start = i + 1;
        }
        i += 1;
        proof {
            let t = s@.take(i as int);
            assert(t.drop_last() =~= s@.take(i as int - 1));
            assert(t.last() == s@[i as int - 1]);
            if c == ' ' {
                assert(pieces.deep_view() =~~= old_pieces.push(s@.subrange(old_start, i as int - 1)));
                assert(s@.subrange(start as int, i as int) =~= Seq::<char>::empty());
                assert(pieces.deep_view().push(s@.subrange(start as int, i as int)) =~~= split_on(
                    t,
                    ' ',
                ));
            } else {
                let prev = split_on(t.drop_last(), ' ');
                assert(prev.last() == s@.subrange(start as int, i as int - 1));
                assert(prev.last().push(t.last()) =~= s@.subrange(start as int, i as int));
                assert(pieces.deep_view().push(s@.subrange(start as int, i as int)) =~~= split_on(
                    t,
                    ' ',
                ));
            }
        }
    }
    let last_piece = s.substring_char(start, n);
    pieces.push(String::from_str(last_piece));
    proof {
        assert(s@.take(n as int) =~= s@);
        assert(pieces.deep_view() =~~= split_on(s@, ' '));
    }
    pieces
}

/// Splits an optional prefix setting into the primary prefix and the
/// additional literal prefixes, in order. An absent setting yields no
/// primary prefix and no additional ones; a present one always yields a
/// primary prefix, its first space-separated piece.
pub fn parse_prefixes(raw: Option<&str>) -> (r: (Option<String>, Vec<String>))
    ensures
        raw is None ==> r.0 is None && r.1@.len() == 0,
        raw matches Some(s) ==> {
            &&& r.0 matches Some(p) && p@ == split_on(s@, ' ')[0]
            &&& r.1.deep_view() == split_on(s@, ' ').drop_first()
        },
{
    match raw {
        None => (None, Vec::<String>::new()),
        Some(s) => {
            let mut pieces = split_spaces(s);
            proof {
                lemma_split_on_nonempty(s@, ' ');
                assert(pieces@.len() == pieces.deep_view().len());
            }
            let first = pieces.remove(0);
            proof {
                assert(pieces.deep_view() =~~= split_on(s@, ' ').drop_first());
            }
            (Some(first), pieces)
        },
    }
}

} // verus!
