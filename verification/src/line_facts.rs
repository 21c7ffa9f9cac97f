//! How cutting a text into lines and putting lines together undo each other.

use vstd::prelude::*;

use crate::text::{
    concat, content, contents, ended, ends_line, is_white_space, is_whole, joined, lemma_line_len,
    line_len, lines, pieces, terminated, trimmed, trimmed_start, without_cr,
};

verus! {

/// Whether `s` holds no newline.
pub open spec fn is_one_line(s: Seq<char>) -> bool {
    forall|i: int| 0 <= i < s.len() ==> #[trigger] s[i] != '\n'
}

/// Whether `p` is one line, with or without the newline that ends it.
pub open spec fn is_piece(p: Seq<char>) -> bool {
    p.len() > 0 && forall|i: int| 0 <= i < p.len() - 1 ==> #[trigger] p[i] != '\n'
}

/// Whether `ps` are the lines of a text: only the last may lack its newline.
pub open spec fn are_pieces(ps: Seq<Seq<char>>) -> bool {
    &&& forall|i: int| 0 <= i < ps.len() ==> is_piece(#[trigger] ps[i])
    &&& forall|i: int| 0 <= i < ps.len() - 1 ==> ends_line(#[trigger] ps[i])
}

/// Whether `ps` are whole lines.
pub open spec fn are_whole(ps: Seq<Seq<char>>) -> bool {
    forall|i: int| 0 <= i < ps.len() ==> is_piece(#[trigger] ps[i]) && ends_line(ps[i])
}

/// Whether none of `ls` holds a newline.
pub open spec fn are_lines(ls: Seq<Seq<char>>) -> bool {
    forall|i: int| 0 <= i < ls.len() ==> is_one_line(#[trigger] ls[i])
}

/// The lines `ls`, each without a carriage return at its end.
pub open spec fn all_without_cr(ls: Seq<Seq<char>>) -> Seq<Seq<char>> {
    Seq::new(ls.len(), |i: int| without_cr(ls[i]))
}

/// Whether no carriage return stands before a newline in `s`.
pub open spec fn has_no_crlf(s: Seq<char>) -> bool {
    forall|i: int| 0 < i < s.len() && #[trigger] s[i] == '\n' ==> s[i - 1] != '\r'
}

pub proof fn lemma_line_len_bounds(s: Seq<char>)
    ensures
        line_len(s) <= s.len(),
        is_one_line(s.take(line_len(s) as int)),
        line_len(s) < s.len() ==> s[line_len(s) as int] == '\n',
    decreases s.len(),
{
    if s.len() > 0 && s.first() != '\n' {
        let rest = s.drop_first();
        lemma_line_len_bounds(rest);
        assert forall|i: int| 0 <= i < line_len(s) implies #[trigger] s.take(line_len(s) as int)[i]
            != '\n' by {
            if i > 0 {
                assert(rest.take(line_len(rest) as int)[i - 1] != '\n');
            }
        }
    }
}

/// The lines of two texts, the first made of whole lines, are those of the one
/// and those of the other.
pub proof fn lemma_pieces_append(a: Seq<char>, b: Seq<char>)
    requires
        is_whole(a),
    ensures
        pieces(a + b) == pieces(a) + pieces(b),
    decreases a.len(),
{
    if a.len() == 0 {
        assert(a + b =~= b);
        assert(pieces(a) + pieces(b) =~= pieces(b));
    } else {
        lemma_line_len_bounds(a);
        let n = line_len(a) as int;
        assert(n < a.len()) by {
            if n == a.len() {
                assert(a.take(n)[n - 1] == a.last());
            }
        }
        assert forall|j: int| 0 <= j < n implies (a + b)[j] != '\n' by {
            assert(a.take(n)[j] == (a + b)[j]);
        }
        lemma_line_len(a + b, n);
        let rest = a.skip(n + 1);
        assert(is_whole(rest)) by {
            if rest.len() > 0 {
                assert(rest.last() == a.last());
            }
        }
        lemma_pieces_append(rest, b);
        assert((a + b).take(n + 1) =~= a.take(n + 1));
        assert((a + b).skip(n + 1) =~= rest + b);
        assert(pieces(a + b) =~= pieces(a) + pieces(b));
    }
}

/// One line is cut into itself.
pub proof fn lemma_pieces_of_one(p: Seq<char>)
    requires
        is_piece(p),
    ensures
        pieces(p) == seq![p],
{
    reveal_with_fuel(pieces, 2);
    let n = p.len() - 1;
    if p[n] == '\n' {
        lemma_line_len(p, n);
        assert(p.take(n + 1) =~= p);
        assert(p.skip(n + 1) =~= Seq::<char>::empty());
        assert(pieces(p) =~= seq![p]);
    } else {
        lemma_line_len(p, n + 1);
    }
}

/// A text is cut into lines.
pub proof fn lemma_pieces_are_pieces(s: Seq<char>)
    ensures
        are_pieces(pieces(s)),
        is_whole(s) ==> are_whole(pieces(s)),
    decreases s.len(),
{
    if s.len() > 0 {
        lemma_line_len_bounds(s);
        let n = line_len(s) as int;
        if n < s.len() {
            let rest = s.skip(n + 1);
            let first = s.take(n + 1);
            lemma_pieces_are_pieces(rest);
            assert forall|i: int| 0 <= i < n implies #[trigger] first[i] != '\n' by {
                assert(s.take(n)[i] == first[i]);
            }
            assert(is_piece(first) && ends_line(first));
            if rest.len() > 0 {
                assert(rest.last() == s.last());
            }
            assert forall|i: int| 0 <= i < pieces(s).len() implies is_piece(
                #[trigger] pieces(s)[i],
            ) && (i < pieces(s).len() - 1 || is_whole(s) ==> ends_line(pieces(s)[i])) by {
                if i > 0 {
                    assert(pieces(s)[i] == pieces(rest)[i - 1]);
                }
            }
        } else {
            assert(s.take(n) =~= s);
            assert(is_piece(s));
        }
    }
}

/// A text is put together again from its lines.
pub proof fn lemma_concat_pieces(s: Seq<char>)
    ensures
        concat(pieces(s)) == s,
    decreases s.len(),
{
    if s.len() > 0 {
        lemma_line_len_bounds(s);
        let n = line_len(s) as int;
        if n < s.len() {
            let first = seq![s.take(n + 1)];
            let rest = s.skip(n + 1);
            lemma_concat_pieces(rest);
            lemma_concat_append(first, pieces(rest));
            lemma_concat_one(s.take(n + 1));
            assert(s.take(n + 1) + rest =~= s);
        } else {
            lemma_concat_one(s);
        }
    }
}

pub proof fn lemma_concat_one(p: Seq<char>)
    ensures
        concat(seq![p]) == p,
{
    reveal_with_fuel(concat, 2);
    assert(seq![p].drop_last() =~= Seq::<Seq<char>>::empty());
    assert(concat(seq![p]) =~= p);
}

pub proof fn lemma_concat_append(a: Seq<Seq<char>>, b: Seq<Seq<char>>)
    ensures
        concat(a + b) == concat(a) + concat(b),
    decreases b.len(),
{
    if b.len() == 0 {
        assert(a + b =~= a);
        assert(concat(a) + concat(b) =~= concat(a));
    } else {
        lemma_concat_append(a, b.drop_last());
        assert((a + b).drop_last() =~= a + b.drop_last());
        assert(concat(a + b) =~= concat(a) + concat(b));
    }
}

/// Whole lines make a text of whole lines.
pub proof fn lemma_concat_is_whole(ps: Seq<Seq<char>>)
    requires
        are_whole(ps),
    ensures
        is_whole(concat(ps)),
{
    if ps.len() > 0 {
        assert(ends_line(ps[ps.len() - 1]));
        assert(concat(ps).last() == ps.last().last());
    }
}

/// Lines that are put together are cut apart again.
pub proof fn lemma_pieces_concat(ps: Seq<Seq<char>>)
    requires
        are_pieces(ps),
    ensures
        pieces(concat(ps)) == ps,
    decreases ps.len(),
{
    if ps.len() == 0 {
        assert(pieces(concat(ps)) =~= ps);
    } else {
        let rest = ps.drop_last();
        assert forall|i: int| 0 <= i < rest.len() implies is_piece(#[trigger] rest[i])
            && ends_line(rest[i]) by {
            assert(rest[i] == ps[i]);
        }
        lemma_pieces_concat(rest);
        lemma_concat_is_whole(rest);
        assert(is_piece(ps[ps.len() - 1]));
        lemma_pieces_of_one(ps.last());
        lemma_pieces_append(concat(rest), ps.last());
        assert(pieces(concat(ps)) =~= ps);
    }
}

/// The content of a line holds no newline.
pub proof fn lemma_contents_are_lines(ps: Seq<Seq<char>>)
    requires
        are_pieces(ps),
    ensures
        are_lines(contents(ps)),
{
    assert forall|i: int| 0 <= i < ps.len() implies is_one_line(#[trigger] contents(ps)[i]) by {
        let p = ps[i];
        let line = content(p);
        assert(is_piece(p));
        assert forall|j: int| 0 <= j < line.len() implies #[trigger] line[j] != '\n' by {
            assert(line[j] == p[j]);
        }
    }
}

/// Lines with a newline behind each are cut apart again, but for carriage
/// returns at their ends.
pub proof fn lemma_terminated(ls: Seq<Seq<char>>)
    requires
        are_lines(ls),
    ensures
        is_whole(terminated(ls)),
        pieces(terminated(ls)) == ended(ls),
        lines(terminated(ls)) == all_without_cr(ls),
        ls.len() > 0 ==> terminated(ls).len() > 0,
{
    let ps = ended(ls);
    assert forall|i: int| 0 <= i < ps.len() implies is_piece(#[trigger] ps[i]) && ends_line(
        ps[i],
    ) && content(ps[i]) == without_cr(ls[i]) by {
        assert(is_one_line(ls[i]));
        assert forall|j: int| 0 <= j < ps[i].len() - 1 implies #[trigger] ps[i][j] != '\n' by {
            assert(ps[i][j] == ls[i][j]);
        }
        assert(ps[i].drop_last() =~= ls[i]);
    }
    lemma_pieces_concat(ps);
    lemma_concat_is_whole(ps);
    assert(contents(ps) =~= all_without_cr(ls));
    if terminated(ls).len() == 0 {
        assert(pieces(terminated(ls)).len() == 0);
    }
}

/// Lines that are joined are lines with a newline behind each but the last.
pub proof fn lemma_joined(ls: Seq<Seq<char>>)
    requires
        ls.len() > 0,
    ensures
        joined(ls) == terminated(ls.drop_last()) + ls.last(),
        joined(ls).push('\n') == terminated(ls),
    decreases ls.len(),
{
    let rest = ls.drop_last();
    if ls.len() > 1 {
        lemma_joined(rest);
    } else {
        assert(joined(ls) =~= terminated(rest) + ls.last());
    }
    assert(ended(ls).drop_last() =~= ended(rest));
    assert(joined(ls).push('\n') =~= terminated(ls));
}

/// Lines that are joined are cut apart again, but for an empty last one and
/// for carriage returns at the ends of the others.
pub proof fn lemma_lines_joined(ls: Seq<Seq<char>>)
    requires
        are_lines(ls),
        ls.len() > 0,
    ensures
        lines(joined(ls)) == if ls.last().len() == 0 {
            all_without_cr(ls.drop_last())
        } else {
            all_without_cr(ls.drop_last()).push(ls.last())
        },
{
    let rest = ls.drop_last();
    let last = ls.last();
    assert forall|i: int| 0 <= i < rest.len() implies is_one_line(#[trigger] rest[i]) by {
        assert(rest[i] == ls[i]);
    }
    assert(is_one_line(ls[ls.len() - 1]));
    lemma_joined(ls);
    lemma_terminated(rest);
    if last.len() == 0 {
        assert(joined(ls) =~= terminated(rest));
    } else {
        lemma_pieces_append(terminated(rest), last);
        lemma_pieces_of_one(last);
        assert(last[last.len() - 1] != '\n');
        assert(lines(joined(ls)) =~= all_without_cr(rest).push(last));
    }
}

/// Where no carriage return stands before a newline in a text, none does in
/// its lines.
pub proof fn lemma_pieces_have_no_crlf(s: Seq<char>)
    requires
        has_no_crlf(s),
    ensures
        forall|i: int| 0 <= i < pieces(s).len() ==> has_no_crlf(#[trigger] pieces(s)[i]),
    decreases s.len(),
{
    if s.len() > 0 {
        lemma_line_len_bounds(s);
        let n = line_len(s) as int;
        if n < s.len() {
            let first = s.take(n + 1);
            let rest = s.skip(n + 1);
            assert forall|i: int| 0 < i < first.len() && #[trigger] first[i] == '\n' implies first[i
                - 1] != '\r' by {
                assert(s[i] == first[i] && s[i - 1] == first[i - 1]);
            }
            assert forall|i: int| 0 < i < rest.len() && #[trigger] rest[i] == '\n' implies rest[i
                - 1] != '\r' by {
                assert(s[n + 1 + i] == rest[i] && s[n + i] == rest[i - 1]);
            }
            lemma_pieces_have_no_crlf(rest);
            assert forall|i: int| 0 <= i < pieces(s).len() implies has_no_crlf(
                #[trigger] pieces(s)[i],
            ) by {
                if i > 0 {
                    assert(pieces(s)[i] == pieces(rest)[i - 1]);
                }
            }
        }
    }
}

/// White space at the end of a text is trimmed away.
pub proof fn lemma_trimmed_push(s: Seq<char>, c: char)
    requires
        is_white_space(c),
    ensures
        trimmed(s.push(c)) == trimmed(s),
    decreases s.len(),
{
    let t = s.push(c);
    if s.len() > 0 && is_white_space(s.first()) {
        assert(t.drop_first() =~= s.drop_first().push(c));
        lemma_trimmed_push(s.drop_first(), c);
    } else if s.len() == 0 {
        assert(t.drop_first() =~= s);
        assert(trimmed_start(t) == trimmed_start(s));
    } else {
        assert(t.drop_last() =~= s);
    }
}

/// The ending of a line does not count when the line is trimmed.
pub proof fn lemma_trimmed_content(s: Seq<char>)
    ensures
        trimmed(content(s)) == trimmed(s),
{
    if ends_line(s) {
        let t = s.drop_last();
        assert(s =~= t.push('\n'));
        lemma_trimmed_push(t, '\n');
        if t.len() > 0 && t.last() == '\r' {
            assert(t =~= t.drop_last().push('\r'));
            lemma_trimmed_push(t.drop_last(), '\r');
        }
    }
}

} // verus!
