//! What holds of all texts: how they are trimmed, searched and cut into lines.

use vstd::prelude::*;

use crate::config::opt_text;
use crate::text::{
    concat, content, decimal, ended, holds_part, is_white_space, joined, lower, lowered, occurs_at,
    starts_with, terminated, texts, trimmed, trimmed_end, trimmed_start,
};

verus! {

/// Whether `s` holds nothing but white space.
pub open spec fn is_blank(s: Seq<char>) -> bool {
    forall|i: int| 0 <= i < s.len() ==> is_white_space(#[trigger] s[i])
}

/// Whether `s` is not empty and has no white space at its ends.
pub open spec fn is_bare(s: Seq<char>) -> bool {
    s.len() > 0 && !is_white_space(s[0]) && !is_white_space(s[s.len() - 1])
}

/// White space at the beginning of a text is taken off, and nothing else.
pub proof fn law_trim_start_takes_blank_off(a: Seq<char>, p: Seq<char>)
    requires
        is_blank(a),
        p.len() > 0 ==> !is_white_space(p[0]),
    ensures
        trimmed_start(a + p) == p,
    decreases a.len(),
{
    if a.len() == 0 {
        assert(a + p =~= p);
        assert(p.len() == 0 ==> trimmed_start(p) =~= p);
    } else {
        let rest = a.drop_first();
        assert(is_white_space(a[0]));
        assert forall|i: int| 0 <= i < rest.len() implies is_white_space(#[trigger] rest[i]) by {
            assert(rest[i] == a[i + 1]);
        }
        law_trim_start_takes_blank_off(rest, p);
        assert((a + p).drop_first() =~= rest + p);
        assert((a + p).first() == a[0]);
    }
}

proof fn lemma_trim_end_takes_blank_off(p: Seq<char>, b: Seq<char>)
    requires
        is_blank(b),
        p.len() > 0 ==> !is_white_space(p[p.len() - 1]),
    ensures
        trimmed_end(p + b) == p,
    decreases b.len(),
{
    if b.len() == 0 {
        assert(p + b =~= p);
        assert(p.len() == 0 ==> trimmed_end(p) =~= p);
    } else {
        let rest = b.drop_last();
        assert(is_white_space(b[b.len() - 1]));
        assert forall|i: int| 0 <= i < rest.len() implies is_white_space(#[trigger] rest[i]) by {
            assert(rest[i] == b[i]);
        }
        lemma_trim_end_takes_blank_off(p, rest);
        assert((p + b).drop_last() =~= p + rest);
        assert((p + b).last() == b.last());
    }
}

/// White space at the ends of a text is taken off, and nothing else.
pub proof fn law_trim_takes_blank_off(a: Seq<char>, p: Seq<char>, b: Seq<char>)
    requires
        is_blank(a),
        is_bare(p),
        is_blank(b),
    ensures
        trimmed(a + p + b) == p,
{
    assert(a + p + b =~= a + (p + b));
    assert((p + b)[0] == p[0]);
    law_trim_start_takes_blank_off(a, p + b);
    lemma_trim_end_takes_blank_off(p, b);
}

/// Nothing is left of a blank text.
pub proof fn law_blank_is_trimmed_away(a: Seq<char>)
    requires
        is_blank(a),
    ensures
        trimmed(a).len() == 0,
        trimmed_start(a).len() == 0,
{
    let none = Seq::<char>::empty();
    law_trim_start_takes_blank_off(a, none);
    assert(a + none =~= a);
}

/// The white space that is taken off the beginning of `s`.
pub open spec fn start_of(s: Seq<char>) -> Seq<char> {
    s.take(s.len() - trimmed_start(s).len())
}

/// A text is white space and what is left when that is taken off.
pub proof fn law_trim_start_parts(s: Seq<char>)
    ensures
        trimmed_start(s).len() <= s.len(),
        is_blank(start_of(s)),
        s == start_of(s) + trimmed_start(s),
        trimmed_start(s).len() > 0 ==> !is_white_space(trimmed_start(s)[0]),
    decreases s.len(),
{
    if s.len() > 0 && is_white_space(s.first()) {
        let rest = s.drop_first();
        law_trim_start_parts(rest);
        let a = start_of(s);
        assert(a =~= seq![s[0]] + start_of(rest));
        assert forall|i: int| 0 <= i < a.len() implies is_white_space(#[trigger] a[i]) by {
            if i > 0 {
                assert(a[i] == start_of(rest)[i - 1]);
            }
        }
        assert(s =~= seq![s[0]] + rest);
        assert(a + trimmed_start(s) =~= seq![s[0]] + (start_of(rest) + trimmed_start(rest)));
    } else {
        assert(s =~= start_of(s) + trimmed_start(s));
    }
}

/// Capital letters become small, and no other character changes.
pub proof fn law_lower(c: char)
    ensures
        'A' <= c <= 'Z' ==> lower(c) as int == c as int + 32,
        !('A' <= c <= 'Z') ==> lower(c) == c,
{
}

/// Letters are made small one by one.
pub proof fn law_lowered(a: Seq<char>, b: Seq<char>, c: char)
    ensures
        lowered(a + b) == lowered(a) + lowered(b),
        lowered(seq![c]) == seq![lower(c)],
        lowered(a).len() == a.len(),
{
    assert(lowered(a + b) =~= lowered(a) + lowered(b));
    assert(lowered(seq![c]) =~= seq![lower(c)]);
}

/// A text begins with another exactly if it is that one and some rest.
pub proof fn law_starts_with(start: Seq<char>, rest: Seq<char>, text: Seq<char>)
    ensures
        starts_with(start + rest, start),
        starts_with(text, start) ==> text == start + text.skip(start.len() as int),
{
    assert((start + rest).take(start.len() as int) =~= start);
    if starts_with(text, start) {
        assert(text =~= text.take(start.len() as int) + text.skip(start.len() as int));
    }
}

/// A part of a text is found wherever it stands.
pub proof fn law_part_is_found(x: Seq<char>, part: Seq<char>, y: Seq<char>)
    ensures
        holds_part(x + part + y, part),
{
    let s = x + part + y;
    let k = x.len() as int;
    assert(s.subrange(k, k + part.len()) =~= part);
    assert(occurs_at(s, part, k));
}

/// Nothing is found that does not stand in a text.
pub proof fn law_found_part_stands_there(s: Seq<char>, part: Seq<char>)
    requires
        holds_part(s, part),
    ensures
        exists|x: Seq<char>, y: Seq<char>| s == #[trigger] (x + part + y),
{
    let k = choose|k: int| occurs_at(s, part, k);
    let x = s.take(k);
    let y = s.skip(k + part.len());
    assert(s =~= x + part + y) by {
        assert(s.subrange(k, k + part.len()) == part);
        assert forall|i: int| 0 <= i < part.len() implies s[k + i] == part[i] by {
            assert(s.subrange(k, k + part.len())[i] == s[k + i]);
        }
    }
}

/// A line is told from its ending, which is a newline with or without a
/// carriage return before it.
pub proof fn law_line_endings(line: Seq<char>)
    ensures
        content(line + seq!['\r', '\n']) == line,
        line.len() == 0 || line.last() != '\r' ==> content(line + seq!['\n']) == line,
        line.len() == 0 || line.last() != '\n' ==> content(line) == line,
{
    assert((line + seq!['\r', '\n']).drop_last().drop_last() =~= line);
    assert((line + seq!['\n']).drop_last() =~= line);
    if line.len() > 0 && line.last() != '\r' {
        assert(content(line + seq!['\n']) =~= line);
    }
    assert(content(line + seq!['\r', '\n']) =~= line);
}

/// Joined lines have a newline between any two of them and nothing else.
pub proof fn law_joined(a: Seq<Seq<char>>, b: Seq<Seq<char>>, line: Seq<char>)
    ensures
        joined(seq![]).len() == 0,
        joined(seq![line]) == line,
        a.len() > 0 && b.len() > 0 ==> joined(a + b) == joined(a) + seq!['\n'] + joined(b),
    decreases b.len(),
{
    if a.len() > 0 && b.len() > 0 {
        let rest = b.drop_last();
        assert((a + b).drop_last() =~= a + rest);
        if b.len() == 1 {
            assert(a + rest =~= a);
            assert(joined(a + b) =~= joined(a) + seq!['\n'] + joined(b));
        } else {
            law_joined(a, rest, line);
            assert(joined(a + b) =~= joined(a) + seq!['\n'] + joined(b));
        }
    }
}

/// Terminated lines have a newline behind each of them and nothing else.
pub proof fn law_terminated(ls: Seq<Seq<char>>, line: Seq<char>)
    ensures
        terminated(seq![]).len() == 0,
        terminated(ls.push(line)) == terminated(ls) + line + seq!['\n'],
{
    let more = ended(ls.push(line));
    assert(more.drop_last() =~= ended(ls));
    assert(terminated(ls.push(line)) =~= terminated(ls) + line + seq!['\n']);
    assert(ended(Seq::<Seq<char>>::empty()) =~= Seq::<Seq<char>>::empty());
}

/// Texts are put one behind the other.
pub proof fn law_concat(ps: Seq<Seq<char>>, p: Seq<char>)
    ensures
        concat(seq![]).len() == 0,
        concat(ps.push(p)) == concat(ps) + p,
{
    assert(ps.push(p).drop_last() =~= ps);
}

/// A number is written with its last digit behind those of its tenth.
pub proof fn law_decimal(n: nat, d: nat)
    requires
        d < 10,
    ensures
        decimal(d) == seq![(48 + d) as char],
        n > 0 ==> decimal(10 * n + d) == decimal(n).push((48 + d) as char),
{
    assert((10 * n + d) / 10 == n && (10 * n + d) % 10 == d);
}

/// A list of strings holds their texts in their order.
pub proof fn law_texts(v: Seq<String>, i: int)
    ensures
        texts(v).len() == v.len(),
        0 <= i < v.len() ==> texts(v)[i] == v[i]@,
{
}

/// An optional string holds a text exactly if it is there.
pub proof fn law_opt_text(value: Option<String>)
    ensures
        opt_text(value) is None <==> value is None,
        value matches Some(s) ==> opt_text(value) == Some(s@),
{
}

} // verus!
