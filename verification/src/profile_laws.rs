//! What holds of every update of a PowerShell profile.

use vstd::prelude::*;

use crate::config::Config;
use crate::line_facts::{
    all_without_cr, are_lines, are_pieces, are_whole, has_no_crlf, is_one_line, is_piece,
    lemma_concat_append, lemma_concat_is_whole, lemma_concat_pieces, lemma_contents_are_lines,
    lemma_joined, lemma_lines_joined, lemma_pieces_append, lemma_pieces_are_pieces,
    lemma_pieces_concat, lemma_pieces_have_no_crlf, lemma_pieces_of_one, lemma_terminated,
    lemma_trimmed_content, lemma_trimmed_push,
};
use crate::profile::{
    assigned, before_block, behind_block, block_body, block_place, cleaned, in_block, is_begin,
    is_end, is_quote, is_source, last_token, literal_value, managed_block, new_place, other_lines,
    outside, quoted, read_literal, setting_head, setting_line, source_index, source_line,
    sources_script, token_in, token_of, unmanaged, updated, PROFILE_BEGIN, PROFILE_END, SCRIPT_NAME,
};
use crate::text::{
    closed, concat, content, contents, ended, ends_line, is_white_space, is_whole, joined,
    lemma_trimmed_end_keeps_first, lines, lowered, occurs_at, pieces, starts_with, terminated,
    trimmed, trimmed_start, without_cr,
};

verus! {

/// Whether `line` opens or closes a managed block.
pub open spec fn is_marker(line: Seq<char>) -> bool {
    is_begin(line) || is_end(line)
}

/// Whether none of `ls` is a marker.
pub open spec fn no_markers(ls: Seq<Seq<char>>) -> bool {
    forall|i: int| 0 <= i < ls.len() ==> !is_marker(#[trigger] ls[i])
}

/// Whether none of `ls` sources the client script.
pub open spec fn no_source(ls: Seq<Seq<char>>) -> bool {
    forall|i: int| 0 <= i < ls.len() ==> !is_source(#[trigger] ls[i])
}

/// Whether `ls` is one managed block: it runs from a line that opens one
/// through the next that closes it.
pub open spec fn is_block(ls: Seq<Seq<char>>) -> bool {
    &&& ls.len() >= 2
    &&& is_begin(ls[0])
    &&& is_end(ls[ls.len() - 1])
    &&& forall|i: int| 0 < i < ls.len() - 1 ==> !is_end(#[trigger] ls[i])
}

/// How many of `ls` open a managed block.
pub open spec fn begin_count(ls: Seq<Seq<char>>) -> nat
    decreases ls.len(),
{
    if ls.len() == 0 {
        0
    } else if is_begin(ls.last()) {
        begin_count(ls.drop_last()) + 1
    } else {
        begin_count(ls.drop_last())
    }
}

/// How many of `ls` close a managed block.
pub open spec fn end_count(ls: Seq<Seq<char>>) -> nat
    decreases ls.len(),
{
    if ls.len() == 0 {
        0
    } else if is_end(ls.last()) {
        end_count(ls.drop_last()) + 1
    } else {
        end_count(ls.drop_last())
    }
}

pub proof fn lemma_contents_append(a: Seq<Seq<char>>, b: Seq<Seq<char>>)
    ensures
        contents(a + b) == contents(a) + contents(b),
{
    assert(contents(a + b) =~= contents(a) + contents(b));
}

pub proof fn lemma_no_markers_append(a: Seq<Seq<char>>, b: Seq<Seq<char>>)
    ensures
        no_markers(a + b) <==> no_markers(a) && no_markers(b),
        no_source(a + b) <==> no_source(a) && no_source(b),
{
    assert forall|i: int| 0 <= i < a.len() implies a[i] == #[trigger] (a + b)[i] by {}
    assert forall|i: int| 0 <= i < b.len() implies b[i] == (a + b)[a.len() + i] by {}
    if no_markers(a + b) {
        assert forall|i: int| 0 <= i < a.len() implies !is_marker(#[trigger] a[i]) by {
            assert(!is_marker((a + b)[i]));
        }
        assert forall|i: int| 0 <= i < b.len() implies !is_marker(#[trigger] b[i]) by {
            assert(!is_marker((a + b)[a.len() + i]));
        }
    }
    if no_source(a + b) {
        assert forall|i: int| 0 <= i < a.len() implies !is_source(#[trigger] a[i]) by {
            assert(!is_source((a + b)[i]));
        }
        assert forall|i: int| 0 <= i < b.len() implies !is_source(#[trigger] b[i]) by {
            assert(!is_source((a + b)[a.len() + i]));
        }
    }
}

/// The lines of two texts, the first made of whole lines.
proof fn lemma_lines_append(a: Seq<char>, b: Seq<char>)
    requires
        is_whole(a),
    ensures
        lines(a + b) == lines(a) + lines(b),
{
    lemma_pieces_append(a, b);
    lemma_contents_append(pieces(a), pieces(b));
}

proof fn lemma_last_unmarked(ps: Seq<Seq<char>>)
    requires
        ps.len() > 0,
        no_markers(contents(ps)),
    ensures
        no_markers(contents(ps.drop_last())),
        !is_marker(content(ps.last())),
{
    let rest = ps.drop_last();
    assert(rest + seq![ps.last()] =~= ps);
    lemma_contents_append(rest, seq![ps.last()]);
    lemma_no_markers_append(contents(rest), contents(seq![ps.last()]));
    assert(contents(seq![ps.last()])[0] == content(ps.last()));
}

proof fn lemma_unmarked(ps: Seq<Seq<char>>)
    requires
        no_markers(contents(ps)),
    ensures
        unmanaged(ps) == ps,
        !in_block(ps),
        block_place(ps) is None,
        begin_count(contents(ps)) == 0,
        end_count(contents(ps)) == 0,
    decreases ps.len(),
{
    if ps.len() > 0 {
        let rest = ps.drop_last();
        lemma_last_unmarked(ps);
        lemma_unmarked(rest);
        assert(rest.push(ps.last()) =~= ps);
        assert(contents(ps).drop_last() =~= contents(rest));
    } else {
        assert(unmanaged(ps) =~= ps);
    }
}

pub proof fn lemma_unmanaged_append(a: Seq<Seq<char>>, b: Seq<Seq<char>>)
    requires
        !in_block(a),
    ensures
        unmanaged(a + b) == unmanaged(a) + unmanaged(b),
        in_block(a + b) == in_block(b),
    decreases b.len(),
{
    if b.len() == 0 {
        assert(a + b =~= a);
        assert(unmanaged(a) + unmanaged(b) =~= unmanaged(a));
    } else {
        lemma_unmanaged_append(a, b.drop_last());
        assert((a + b).drop_last() =~= a + b.drop_last());
        assert(unmanaged(a + b) =~= unmanaged(a) + unmanaged(b));
    }
}

pub proof fn lemma_block_place_append(a: Seq<Seq<char>>, b: Seq<Seq<char>>)
    requires
        block_place(a) is Some,
    ensures
        block_place(a + b) == block_place(a),
    decreases b.len(),
{
    if b.len() == 0 {
        assert(a + b =~= a);
    } else {
        lemma_block_place_append(a, b.drop_last());
        assert((a + b).drop_last() =~= a + b.drop_last());
    }
}

/// A block that is open stays so up to the next line that closes one.
proof fn lemma_inside_block(a: Seq<Seq<char>>, b: Seq<Seq<char>>)
    requires
        in_block(a),
        forall|i: int| 0 <= i < b.len() ==> !is_end(content(#[trigger] b[i])),
    ensures
        unmanaged(a + b) == unmanaged(a),
        in_block(a + b),
    decreases b.len(),
{
    if b.len() == 0 {
        assert(a + b =~= a);
    } else {
        let rest = b.drop_last();
        assert forall|i: int| 0 <= i < rest.len() implies !is_end(content(#[trigger] rest[i])) by {
            assert(rest[i] == b[i]);
        }
        assert(!is_end(content(b[b.len() - 1])));
        lemma_inside_block(a, rest);
        assert((a + b).drop_last() =~= a + rest);
    }
}

/// Nothing of one managed block is unmanaged, and nothing is open behind it.
proof fn lemma_block_is_managed(ps: Seq<Seq<char>>)
    requires
        is_block(contents(ps)),
    ensures
        unmanaged(ps).len() == 0,
        !in_block(ps),
        block_place(ps) == Some(0nat),
{
    let first = seq![ps[0]];
    let inner = ps.subrange(1, ps.len() - 1);
    assert(contents(ps)[0] == content(ps[0]));
    assert(contents(ps)[ps.len() - 1] == content(ps.last()));
    lemma_markers();
    assert(first.drop_last() =~= Seq::<Seq<char>>::empty());
    reveal_with_fuel(unmanaged, 2);
    reveal_with_fuel(in_block, 2);
    reveal_with_fuel(block_place, 2);
    assert(in_block(first) && unmanaged(first).len() == 0);
    assert(block_place(first) == Some(0nat));
    assert forall|i: int| 0 <= i < inner.len() implies !is_end(content(#[trigger] inner[i])) by {
        assert(!is_end(contents(ps)[i + 1]));
    }
    lemma_inside_block(first, inner);
    assert(ps.drop_last() =~= first + inner);
    lemma_block_place_append(first, inner);
}

/// The lines outside the blocks are lines, and no marker is among them.
pub proof fn lemma_unmanaged_pieces(ps: Seq<Seq<char>>)
    requires
        are_pieces(ps),
    ensures
        are_pieces(unmanaged(ps)),
        are_whole(ps) ==> are_whole(unmanaged(ps)),
        no_markers(contents(unmanaged(ps))),
    decreases ps.len(),
{
    if ps.len() > 0 {
        let rest = ps.drop_last();
        assert forall|i: int| 0 <= i < rest.len() implies is_piece(#[trigger] rest[i])
            && ends_line(rest[i]) by {
            assert(rest[i] == ps[i]);
        }
        assert(is_piece(ps[ps.len() - 1]));
        lemma_unmanaged_pieces(rest);
        let kept = unmanaged(ps);
        let less = unmanaged(rest);
        assert forall|i: int| 0 <= i < kept.len() implies is_piece(#[trigger] kept[i]) && (i
            < kept.len() - 1 ==> ends_line(kept[i])) && (are_whole(ps) ==> ends_line(kept[i])) by {
            if i < less.len() {
                assert(kept[i] == less[i]);
            } else {
                assert(kept[i] == ps[ps.len() - 1]);
            }
        }
        assert forall|i: int| 0 <= i < kept.len() implies !is_marker(
            #[trigger] contents(kept)[i],
        ) by {
            if i < less.len() {
                assert(!is_marker(contents(less)[i]));
            }
        }
    }
}

/// Only whole lines stand before a block.
proof fn lemma_block_place(ps: Seq<Seq<char>>)
    requires
        are_pieces(ps),
    ensures
        block_place(ps) matches Some(place) ==> place <= unmanaged(ps).len() && are_whole(
            unmanaged(ps).take(place as int),
        ),
    decreases ps.len(),
{
    if ps.len() > 0 {
        let rest = ps.drop_last();
        assert forall|i: int| 0 <= i < rest.len() implies is_piece(#[trigger] rest[i])
            && ends_line(rest[i]) by {
            assert(rest[i] == ps[i]);
        }
        lemma_block_place(rest);
        lemma_unmanaged_pieces(rest);
        if let Some(place) = block_place(ps) {
            assert(unmanaged(ps).take(place as int) =~= unmanaged(rest).take(place as int));
            if block_place(rest) is None {
                assert(unmanaged(rest).take(place as int) =~= unmanaged(rest));
            }
        }
    }
}

pub proof fn lemma_source_index_bounds(ls: Seq<Seq<char>>)
    ensures
        source_index(ls) <= ls.len(),
        no_source(ls.take(source_index(ls) as int)),
        source_index(ls) < ls.len() ==> is_source(ls[source_index(ls) as int]),
        source_index(ls) == ls.len() <==> no_source(ls),
    decreases ls.len(),
{
    if ls.len() > 0 && !is_source(ls.first()) {
        let rest = ls.drop_first();
        lemma_source_index_bounds(rest);
        let k = source_index(ls) as int;
        assert forall|i: int| 0 <= i < k implies !is_source(#[trigger] ls.take(k)[i]) by {
            if i > 0 {
                assert(rest.take(k - 1)[i - 1] == ls.take(k)[i]);
            }
        }
    }
    let k = source_index(ls) as int;
    if k == ls.len() {
        assert(ls.take(k) =~= ls);
    }
}

/// The lines that are taken from and left of `ps` at a place that is not behind
/// the first line that sources the script.
proof fn lemma_cut_lines(ps: Seq<Seq<char>>, at: int)
    requires
        0 <= at <= source_index(contents(ps)),
        are_pieces(ps),
        no_markers(contents(ps)),
        are_whole(ps.take(at)),
    ensures
        pieces(concat(ps.take(at))) == ps.take(at),
        pieces(concat(ps.skip(at))) == ps.skip(at),
        is_whole(concat(ps.take(at))),
        no_markers(lines(concat(ps.take(at)))),
        no_markers(lines(concat(ps.skip(at)))),
        no_source(lines(concat(ps.take(at)))),
        no_source(lines(concat(ps.skip(at)))) <==> source_index(contents(ps)) == ps.len(),
        concat(ps.take(at)) + concat(ps.skip(at)) == concat(ps),
{
    let k = source_index(contents(ps)) as int;
    let first = ps.take(at);
    let second = ps.skip(at);
    lemma_source_index_bounds(contents(ps));
    assert(contents(ps).take(k) =~= contents(ps.take(k)));
    assert forall|i: int| 0 <= i < second.len() implies is_piece(#[trigger] second[i]) && (i
        < second.len() - 1 ==> ends_line(second[i])) by {
        assert(second[i] == ps[at + i]);
    }
    assert(first + second =~= ps);
    lemma_pieces_concat(first);
    lemma_pieces_concat(second);
    lemma_concat_is_whole(first);
    lemma_concat_append(first, second);
    lemma_contents_append(first, second);
    lemma_no_markers_append(contents(first), contents(second));
    assert(first + ps.subrange(at, k) =~= ps.take(k));
    lemma_contents_append(first, ps.subrange(at, k));
    lemma_no_markers_append(contents(first), contents(ps.subrange(at, k)));
}

proof fn lemma_trimmed_start_push(s: Seq<char>, c: char)
    requires
        trimmed_start(s).len() > 0,
    ensures
        trimmed_start(s.push(c)) == trimmed_start(s).push(c),
    decreases s.len(),
{
    if is_white_space(s.first()) {
        assert(s.push(c).drop_first() =~= s.drop_first().push(c));
        lemma_trimmed_start_push(s.drop_first(), c);
    }
}

proof fn lemma_trimmed_start_of_blank(s: Seq<char>, c: char)
    requires
        trimmed_start(s).len() == 0,
    ensures
        trimmed_start(s.push(c)).len() <= 1,
    decreases s.len(),
{
    if s.len() > 0 {
        assert(s.push(c).drop_first() =~= s.drop_first().push(c));
        lemma_trimmed_start_of_blank(s.drop_first(), c);
    } else {
        assert(s.push(c).drop_first() =~= s);
    }
}

/// Whether a line sources the script does not depend on a carriage return at
/// its end.
proof fn lemma_source_without_cr(line: Seq<char>)
    ensures
        is_source(without_cr(line)) == is_source(line),
{
    let bare = without_cr(line);
    if bare != line {
        assert(line =~= bare.push('\r'));
        let t = trimmed_start(bare);
        let u = trimmed_start(line);
        let name = SCRIPT_NAME@;
        reveal_strlit("pwsh-history.ps1");
        if t.len() == 0 {
            lemma_trimmed_start_of_blank(bare, '\r');
        } else {
            lemma_trimmed_start_push(bare, '\r');
            assert(u =~= t.push('\r'));
            if is_source(bare) {
                let k = choose|k: int| occurs_at(lowered(t), name, k);
                assert(lowered(u).subrange(k, k + name.len()) =~= lowered(t).subrange(
                    k,
                    k + name.len(),
                ));
                assert(occurs_at(lowered(u), name, k));
            }
            if is_source(line) {
                let k = choose|k: int| occurs_at(lowered(u), name, k);
                let found = lowered(u).subrange(k, k + name.len());
                if k + name.len() == u.len() {
                    assert(found[name.len() - 1] == '\r');
                }
                assert(lowered(t).subrange(k, k + name.len()) =~= found);
                assert(occurs_at(lowered(t), name, k));
            }
        }
    }
}

/// Carriage returns at the ends of lines make no marker, and no line that
/// sources the script.
proof fn lemma_all_without_cr(ls: Seq<Seq<char>>)
    ensures
        no_markers(all_without_cr(ls)) <==> no_markers(ls),
        no_source(all_without_cr(ls)) <==> no_source(ls),
{
    let bare = all_without_cr(ls);
    assert forall|i: int| 0 <= i < ls.len() implies is_marker(#[trigger] bare[i]) == is_marker(
        ls[i],
    ) && is_source(bare[i]) == is_source(ls[i]) by {
        lemma_source_without_cr(ls[i]);
        if ls[i].len() > 0 && ls[i].last() == '\r' {
            assert(ls[i] =~= bare[i].push('\r'));
            lemma_trimmed_push(bare[i], '\r');
        }
    }
    if no_markers(bare) {
        assert forall|i: int| 0 <= i < ls.len() implies !is_marker(#[trigger] ls[i]) by {
            assert(!is_marker(bare[i]));
        }
    }
    if no_source(bare) {
        assert forall|i: int| 0 <= i < ls.len() implies !is_source(#[trigger] ls[i]) by {
            assert(!is_source(bare[i]));
        }
    }
}

/// Lines of a text, cut before the first that sources the script, with a
/// newline behind each.
proof fn lemma_cut_text(ls: Seq<Seq<char>>)
    requires
        are_lines(ls),
        no_markers(ls),
        source_index(ls) < ls.len(),
    ensures
        ({
            let before = terminated(ls.take(source_index(ls) as int));
            let behind = terminated(ls.skip(source_index(ls) as int));
            &&& is_whole(before)
            &&& no_markers(lines(before)) && no_source(lines(before))
            &&& no_markers(lines(behind)) && !no_source(lines(behind))
            &&& before + behind == terminated(ls)
        }),
{
    let k = source_index(ls) as int;
    let first = ls.take(k);
    let second = ls.skip(k);
    lemma_source_index_bounds(ls);
    assert(first + second =~= ls);
    lemma_no_markers_append(first, second);
    assert forall|i: int| 0 <= i < first.len() implies is_one_line(#[trigger] first[i]) by {
        assert(first[i] == ls[i]);
    }
    assert forall|i: int| 0 <= i < second.len() implies is_one_line(#[trigger] second[i]) by {
        assert(second[i] == ls[k + i]);
    }
    lemma_terminated(first);
    lemma_terminated(second);
    lemma_all_without_cr(first);
    lemma_all_without_cr(second);
    assert(is_source(second[0]));
    lemma_concat_append(ended(first), ended(second));
    assert(ended(first) + ended(second) =~= ended(ls));
}

/// The lines outside managed blocks are what a removal leaves, in their order,
/// but for an empty last one: it goes where the profile did not end with a
/// newline, or where it is the only one. A carriage return at the end of a line,
/// beside the one of its ending, goes where a newline follows.
pub proof fn law_removal_keeps_unmanaged_lines(profile: Seq<char>)
    ensures
        ({
            let kept = contents(unmanaged(pieces(profile)));
            lines(cleaned(profile)) == if kept.len() == 0 {
                seq![]
            } else if kept.last().len() == 0 && (!ends_line(profile) || kept.len() == 1) {
                all_without_cr(kept.drop_last())
            } else if ends_line(profile) {
                all_without_cr(kept)
            } else {
                all_without_cr(kept.drop_last()).push(kept.last())
            }
        }),
{
    let ps = unmanaged(pieces(profile));
    let kept = contents(ps);
    lemma_pieces_are_pieces(profile);
    lemma_unmanaged_pieces(pieces(profile));
    lemma_contents_are_lines(ps);
    if kept.len() == 0 {
        assert(lines(cleaned(profile)) =~= seq![]);
    } else {
        let rest = kept.drop_last();
        assert forall|i: int| 0 <= i < rest.len() implies is_one_line(#[trigger] rest[i]) by {
            assert(rest[i] == kept[i]);
        }
        lemma_joined(kept);
        lemma_terminated(kept);
        lemma_terminated(rest);
        lemma_lines_joined(kept);
        if kept.len() == 1 {
            assert(terminated(rest) =~= seq![]);
        }
    }
}

/// Behind a removal no marker is left.
pub proof fn law_removal_leaves_no_marker(profile: Seq<char>)
    ensures
        no_markers(lines(cleaned(profile))),
{
    let kept = contents(unmanaged(pieces(profile)));
    lemma_pieces_are_pieces(profile);
    lemma_unmanaged_pieces(pieces(profile));
    law_removal_keeps_unmanaged_lines(profile);
    if kept.len() > 0 {
        let rest = kept.drop_last();
        let last = seq![kept.last()];
        assert(rest + last =~= kept);
        lemma_no_markers_append(rest, last);
        lemma_all_without_cr(kept);
        lemma_all_without_cr(rest);
        lemma_no_markers_append(all_without_cr(rest), last);
        assert(all_without_cr(rest) + last =~= all_without_cr(rest).push(kept.last()));
    }
}

/// A newline behind a text closes its last line or adds an empty one. It adds
/// no marker and no line that sources the script.
proof fn lemma_push_newline(text: Seq<char>)
    ensures
        is_whole(text.push('\n')),
        no_markers(lines(text)) ==> no_markers(lines(text.push('\n'))),
        no_source(lines(text)) <==> no_source(lines(text.push('\n'))),
{
    let ps = pieces(text);
    let longer = text.push('\n');
    lemma_pieces_are_pieces(text);
    lemma_concat_pieces(text);
    let (rest, last) = if is_whole(text) {
        (ps, Seq::<char>::empty())
    } else {
        (ps.drop_last(), ps.last())
    };
    assert(!is_whole(text) ==> ps.len() > 0);
    assert forall|i: int| 0 <= i < rest.len() implies is_piece(#[trigger] rest[i]) && ends_line(
        rest[i],
    ) by {
        assert(rest[i] == ps[i]);
    }
    lemma_concat_is_whole(rest);
    assert(is_piece(last.push('\n'))) by {
        if !is_whole(text) {
            assert(is_piece(ps[ps.len() - 1]));
            assert(last.last() == text.last());
        }
    }
    assert(concat(rest) + last.push('\n') =~= longer);
    lemma_pieces_append(concat(rest), last.push('\n'));
    lemma_pieces_concat(rest);
    lemma_pieces_of_one(last.push('\n'));
    let one = seq![last.push('\n')];
    lemma_contents_append(rest, one);
    lemma_no_markers_append(contents(rest), contents(one));
    assert(contents(one)[0] == without_cr(last)) by {
        assert(last.push('\n').drop_last() =~= last);
    }
    lemma_source_without_cr(last);
    lemma_trimmed_content(last.push('\n'));
    lemma_trimmed_push(last, '\n');
    if is_whole(text) {
        reveal_strlit("# >>> pwsh-history-server >>>");
        reveal_strlit("# <<< pwsh-history-server <<<");
        assert(!is_marker(last));
        assert(!is_source(last));
    } else {
        assert(rest + seq![last] =~= ps);
        lemma_contents_append(rest, seq![last]);
        lemma_no_markers_append(contents(rest), contents(seq![last]));
        assert(contents(seq![last])[0] == last) by {
            assert(last.last() == text.last());
        }
    }
}

/// What stands before and behind the block of an update: whole lines and
/// lines, no markers, and no line that sources the script before it.
proof fn lemma_around_block(profile: Seq<char>)
    ensures
        is_whole(before_block(profile)),
        no_markers(lines(before_block(profile))),
        no_source(lines(before_block(profile))),
        no_markers(lines(behind_block(profile))),
        no_source(lines(behind_block(profile))) <==> !sources_script(profile),
{
    let ps = pieces(profile);
    lemma_source_index_bounds(other_lines(profile));
    match block_place(ps) {
        Some(place) => {
            let kept = unmanaged(ps);
            let at = new_place(place, kept);
            lemma_pieces_are_pieces(profile);
            lemma_unmanaged_pieces(ps);
            lemma_block_place(ps);
            assert forall|i: int| 0 <= i < at implies is_piece(#[trigger] kept.take(at)[i])
                && ends_line(kept.take(at)[i]) by {
                assert(kept.take(at)[i] == kept.take(place as int)[i]);
            }
            lemma_cut_lines(kept, at);
        },
        None => {
            let text = cleaned(profile);
            law_removal_leaves_no_marker(profile);
            lemma_pieces_are_pieces(text);
            lemma_contents_are_lines(pieces(text));
            if sources_script(profile) {
                lemma_cut_text(lines(text));
            } else {
                lemma_push_newline(text);
                lemma_push_newline(closed(text));
            }
        },
    }
}

/// An update replaces a managed block where it stands. What stands before it
/// is kept to the last character; so is what stands behind it, but for further
/// blocks and markers, which go. The new block sources the script if no line
/// behind it does. Left out are profiles with a line before the block that
/// sources the script: there the block moves before that line.
pub proof fn law_block_is_replaced_in_place(
    before: Seq<char>,
    block: Seq<char>,
    after: Seq<char>,
    config: Config,
    script_path: Seq<char>,
)
    requires
        is_whole(before),
        no_markers(lines(before)),
        no_source(lines(before)),
        is_block(lines(block)),
        is_whole(block) || after.len() == 0,
    ensures
        updated(before + block + after, config, script_path) == before + managed_block(
            config,
            script_path,
            no_source(lines(outside(after))),
        ) + outside(after),
        no_markers(lines(after)) ==> updated(before + block + after, config, script_path) == before
            + managed_block(config, script_path, no_source(lines(after))) + after,
{
    let profile = before + block + after;
    let first = pieces(before);
    let middle = pieces(block);
    let last = pieces(after);
    let head = first + middle;
    let ps = head + last;
    lemma_pieces_append(before, block);
    if after.len() > 0 {
        assert(is_whole(before + block)) by {
            if block.len() > 0 {
                assert((before + block).last() == block.last());
            } else {
                assert(before + block =~= before);
            }
        }
        lemma_pieces_append(before + block, after);
    } else {
        assert(profile =~= before + block);
        assert(ps =~= head);
    }
    assert(pieces(profile) == ps);
    lemma_unmarked(first);
    lemma_block_is_managed(middle);
    lemma_unmanaged_append(first, middle);
    lemma_unmanaged_append(head, last);
    let kept = first + unmanaged(last);
    assert(unmanaged(ps) =~= kept);
    assert(block_place(ps) == Some(first.len())) by {
        let opened = first + seq![middle[0]];
        assert(contents(middle)[0] == content(middle[0]));
        assert(opened.drop_last() =~= first);
        assert(block_place(opened) == Some(first.len()));
        lemma_block_place_append(opened, middle.skip(1) + last);
        assert(opened + (middle.skip(1) + last) =~= ps);
    }
    lemma_source_index_bounds(contents(kept));
    lemma_contents_append(first, unmanaged(last));
    lemma_no_markers_append(contents(first), contents(unmanaged(last)));
    let k = source_index(contents(kept)) as int;
    assert(k >= first.len()) by {
        if k < first.len() {
            assert(contents(first)[k] == contents(kept)[k]);
        }
    }
    assert(new_place(first.len(), kept) == first.len());
    assert(kept.take(first.len() as int) =~= first);
    assert(kept.skip(first.len() as int) =~= unmanaged(last));
    lemma_concat_pieces(before);
    lemma_pieces_are_pieces(after);
    lemma_unmanaged_pieces(last);
    lemma_pieces_concat(unmanaged(last));
    assert(sources_script(profile) == !no_source(lines(outside(after))));
    if no_markers(lines(after)) {
        lemma_unmarked(last);
        lemma_concat_pieces(after);
    }
}

proof fn lemma_markers()
    ensures
        is_begin(PROFILE_BEGIN@) && !is_end(PROFILE_BEGIN@),
        is_end(PROFILE_END@) && !is_begin(PROFILE_END@),
        PROFILE_BEGIN@.len() > 0 && PROFILE_BEGIN@[0] == '#',
        PROFILE_END@.len() > 0 && PROFILE_END@[0] == '#',
        lines(PROFILE_BEGIN@.push('\n')) == seq![PROFILE_BEGIN@],
        lines(PROFILE_END@.push('\n')) == seq![PROFILE_END@],
{
    reveal_strlit("# >>> pwsh-history-server >>>");
    reveal_strlit("# <<< pwsh-history-server <<<");
    assert(PROFILE_BEGIN@[2] != PROFILE_END@[2]);
    assert(trimmed(PROFILE_BEGIN@) == PROFILE_BEGIN@);
    assert(trimmed(PROFILE_END@) == PROFILE_END@);
    lemma_line_of_one(PROFILE_BEGIN@);
    lemma_line_of_one(PROFILE_END@);
}

/// One line with a newline behind it.
proof fn lemma_line_of_one(line: Seq<char>)
    requires
        is_one_line(line),
        line.len() > 0 ==> line.last() != '\r',
    ensures
        lines(line.push('\n')) == seq![line],
{
    let piece = line.push('\n');
    assert(is_piece(piece));
    lemma_pieces_of_one(piece);
    assert(piece.drop_last() =~= line);
    assert(content(piece) =~= line);
    assert(lines(piece) =~= seq![line]);
}

/// A line that begins neither with white space nor with `#` is no marker.
proof fn lemma_no_marker(line: Seq<char>)
    requires
        line.len() > 0,
        !is_white_space(line[0]),
        line[0] != '#',
    ensures
        !is_marker(line),
{
    lemma_markers();
    lemma_trimmed_end_keeps_first(line);
}

proof fn lemma_quoted_is_one_line(s: Seq<char>)
    requires
        is_one_line(s),
    ensures
        is_one_line(quoted(s)),
    decreases s.len(),
{
    if s.len() > 0 {
        let rest = s.drop_last();
        assert forall|i: int| 0 <= i < rest.len() implies #[trigger] rest[i] != '\n' by {
            assert(rest[i] == s[i]);
        }
        assert(s[s.len() - 1] != '\n');
        lemma_quoted_is_one_line(rest);
        assert forall|i: int| 0 <= i < quoted(s).len() implies #[trigger] quoted(s)[i] != '\n' by {
            if i < quoted(rest).len() {
                assert(quoted(s)[i] == quoted(rest)[i]);
            }
        }
    }
}

proof fn lemma_setting_line(name: Seq<char>, value: Seq<char>)
    requires
        is_one_line(name),
        is_one_line(value),
    ensures
        is_whole(setting_line(name, value)),
        lines(setting_line(name, value)) == seq![setting_head(name) + quoted(value) + seq!['\'']],
        no_markers(lines(setting_line(name, value))),
{
    reveal_strlit("$env:");
    reveal_strlit(" = '");
    reveal_strlit("'\n");
    lemma_quoted_is_one_line(value);
    let line = setting_head(name) + quoted(value) + seq!['\''];
    assert(setting_line(name, value) =~= line.push('\n'));
    assert(is_one_line(line)) by {
        let a = "$env:"@.len() as int;
        let b = a + name.len();
        let c = b + " = '"@.len();
        assert forall|i: int| 0 <= i < line.len() implies #[trigger] line[i] != '\n' by {
            if i < a {
                assert(line[i] == "$env:"@[i]);
            } else if i < b {
                assert(line[i] == name[i - a]);
            } else if i < c {
                assert(line[i] == " = '"@[i - b]);
            } else if i < c + quoted(value).len() {
                assert(line[i] == quoted(value)[i - c]);
            }
        }
    }
    lemma_line_of_one(line);
    assert(line[0] == '$');
    lemma_no_marker(line);
}

proof fn lemma_source_line(script_path: Seq<char>)
    requires
        is_one_line(script_path),
    ensures
        is_whole(source_line(script_path)),
        lines(source_line(script_path)) == seq![". '"@ + quoted(script_path) + seq!['\'']],
        no_markers(lines(source_line(script_path))),
{
    reveal_strlit(". '");
    reveal_strlit("'\n");
    lemma_quoted_is_one_line(script_path);
    let line = ". '"@ + quoted(script_path) + seq!['\''];
    assert(source_line(script_path) =~= line.push('\n'));
    assert forall|i: int| 0 <= i < line.len() implies #[trigger] line[i] != '\n' by {
        if i < 3 {
            assert(line[i] == ". '"@[i]);
        } else if i < 3 + quoted(script_path).len() {
            assert(line[i] == quoted(script_path)[i - 3]);
        }
    }
    lemma_line_of_one(line);
    assert(line[0] == '.');
    lemma_no_marker(line);
}

proof fn lemma_body_is_whole(config: Config, script_path: Seq<char>, with_source: bool)
    ensures
        is_whole(block_body(config, script_path, with_source)),
{
    reveal_strlit("'\n");
    let body = block_body(config, script_path, with_source);
    assert(body.last() == '\n');
}

/// Whether none of the settings, nor the script's path, holds a newline.
pub open spec fn is_plain(config: Config, script_path: Seq<char>) -> bool {
    &&& is_one_line(config.db_path@)
    &&& is_one_line(config.token@)
    &&& is_one_line(config.bind@)
    &&& is_one_line(config.url@)
    &&& is_one_line(script_path)
}

/// The lines of a block between its first and its last.
proof fn lemma_body_lines(config: Config, script_path: Seq<char>, with_source: bool)
    requires
        is_plain(config, script_path),
    ensures
        lines(block_body(config, script_path, with_source)) == lines(
            setting_line("PWSH_HISTORY_DB"@, config.db_path@),
        ) + lines(setting_line("PWSH_HISTORY_TOKEN"@, config.token@)) + lines(
            setting_line("PWSH_HISTORY_BIND"@, config.bind@),
        ) + lines(setting_line("PWSH_HISTORY_URL"@, config.url@)) + if with_source {
            lines(source_line(script_path))
        } else {
            seq![]
        },
        no_markers(lines(block_body(config, script_path, with_source))),
{
    reveal_strlit("PWSH_HISTORY_DB");
    reveal_strlit("PWSH_HISTORY_TOKEN");
    reveal_strlit("PWSH_HISTORY_BIND");
    reveal_strlit("PWSH_HISTORY_URL");
    reveal_strlit("'\n");
    let db = setting_line("PWSH_HISTORY_DB"@, config.db_path@);
    let token = setting_line("PWSH_HISTORY_TOKEN"@, config.token@);
    let bind = setting_line("PWSH_HISTORY_BIND"@, config.bind@);
    let url = setting_line("PWSH_HISTORY_URL"@, config.url@);
    lemma_setting_line("PWSH_HISTORY_DB"@, config.db_path@);
    lemma_setting_line("PWSH_HISTORY_TOKEN"@, config.token@);
    lemma_setting_line("PWSH_HISTORY_BIND"@, config.bind@);
    lemma_setting_line("PWSH_HISTORY_URL"@, config.url@);
    assert((db + token).last() == '\n');
    assert((db + token + bind).last() == '\n');
    assert((db + token + bind + url).last() == '\n');
    lemma_lines_append(db, token);
    lemma_lines_append(db + token, bind);
    lemma_lines_append(db + token + bind, url);
    lemma_no_markers_append(lines(db), lines(token));
    lemma_no_markers_append(lines(db + token), lines(bind));
    lemma_no_markers_append(lines(db + token + bind), lines(url));
    if with_source {
        lemma_source_line(script_path);
        lemma_lines_append(db + token + bind + url, source_line(script_path));
        lemma_no_markers_append(lines(db + token + bind + url), lines(source_line(script_path)));
    } else {
        assert(db + token + bind + url + seq![] =~= db + token + bind + url);
        let ls = lines(db + token + bind + url);
        assert(ls + seq![] =~= ls);
    }
}

/// A block with settings and a path that hold no newline has no marker between
/// its first and its last line.
pub proof fn law_plain_settings_hold_no_marker(
    config: Config,
    script_path: Seq<char>,
    with_source: bool,
)
    requires
        is_plain(config, script_path),
    ensures
        no_markers(lines(block_body(config, script_path, with_source))),
{
    lemma_body_lines(config, script_path, with_source);
}

proof fn lemma_block_lines(config: Config, script_path: Seq<char>, with_source: bool)
    ensures
        ends_line(managed_block(config, script_path, with_source)),
        lines(managed_block(config, script_path, with_source)) == seq![PROFILE_BEGIN@] + lines(
            block_body(config, script_path, with_source),
        ) + seq![PROFILE_END@],
{
    let body = block_body(config, script_path, with_source);
    let first = PROFILE_BEGIN@.push('\n');
    lemma_markers();
    lemma_body_is_whole(config, script_path, with_source);
    lemma_lines_append(first, body);
    assert(is_whole(first + body)) by {
        if body.len() > 0 {
            assert((first + body).last() == body.last());
        } else {
            assert(first + body =~= first);
        }
    }
    lemma_lines_append(first + body, PROFILE_END@.push('\n'));
    assert(managed_block(config, script_path, with_source).last() == '\n');
}

/// A block without a marker between its first and its last line is one managed
/// block.
pub proof fn law_block_is_managed(config: Config, script_path: Seq<char>, with_source: bool)
    requires
        no_markers(lines(block_body(config, script_path, with_source))),
    ensures
        is_block(lines(managed_block(config, script_path, with_source))),
        begin_count(lines(managed_block(config, script_path, with_source))) == 1,
        end_count(lines(managed_block(config, script_path, with_source))) == 1,
{
    let body = lines(block_body(config, script_path, with_source));
    let block = lines(managed_block(config, script_path, with_source));
    let first = seq![PROFILE_BEGIN@];
    let last = seq![PROFILE_END@];
    lemma_markers();
    lemma_block_lines(config, script_path, with_source);
    assert forall|i: int| 0 < i < block.len() - 1 implies !is_end(#[trigger] block[i]) by {
        assert(!is_marker(body[i - 1]));
    }
    lemma_unmarked(pieces(block_body(config, script_path, with_source)));
    lemma_counts_append(first, body);
    lemma_counts_append(first + body, last);
    assert(first.drop_last() =~= Seq::<Seq<char>>::empty());
    assert(last.drop_last() =~= Seq::<Seq<char>>::empty());
    reveal_with_fuel(begin_count, 2);
    reveal_with_fuel(end_count, 2);
}

proof fn lemma_counts_append(a: Seq<Seq<char>>, b: Seq<Seq<char>>)
    ensures
        begin_count(a + b) == begin_count(a) + begin_count(b),
        end_count(a + b) == end_count(a) + end_count(b),
    decreases b.len(),
{
    if b.len() == 0 {
        assert(a + b =~= a);
    } else {
        lemma_counts_append(a, b.drop_last());
        assert((a + b).drop_last() =~= a + b.drop_last());
    }
}

/// Updating twice comes to updating once with the later settings: the second
/// block takes the place of the first. Left out are settings whose own lines
/// would open or close a block.
pub proof fn law_later_update_prevails(
    profile: Seq<char>,
    config: Config,
    script_path: Seq<char>,
    later: Config,
    later_path: Seq<char>,
)
    requires
        no_markers(lines(block_body(config, script_path, !sources_script(profile)))),
    ensures
        updated(updated(profile, config, script_path), later, later_path) == updated(
            profile,
            later,
            later_path,
        ),
{
    let block = managed_block(config, script_path, !sources_script(profile));
    lemma_around_block(profile);
    law_block_is_managed(config, script_path, !sources_script(profile));
    lemma_block_lines(config, script_path, !sources_script(profile));
    law_block_is_replaced_in_place(
        before_block(profile),
        block,
        behind_block(profile),
        later,
        later_path,
    );
}

/// Updating again with the same settings changes nothing. Left out are
/// settings whose own lines would open or close a block.
pub proof fn law_update_twice_is_update_once(
    profile: Seq<char>,
    config: Config,
    script_path: Seq<char>,
)
    requires
        no_markers(lines(block_body(config, script_path, !sources_script(profile)))),
    ensures
        updated(updated(profile, config, script_path), config, script_path) == updated(
            profile,
            config,
            script_path,
        ),
{
    law_later_update_prevails(profile, config, script_path, config, script_path);
}

/// The lines of an updated profile, cut at its block.
proof fn lemma_updated_pieces(profile: Seq<char>, config: Config, script_path: Seq<char>)
    ensures
        pieces(updated(profile, config, script_path)) == pieces(before_block(profile)) + pieces(
            managed_block(config, script_path, !sources_script(profile)),
        ) + pieces(behind_block(profile)),
{
    let before = before_block(profile);
    let block = managed_block(config, script_path, !sources_script(profile));
    lemma_around_block(profile);
    lemma_block_lines(config, script_path, !sources_script(profile));
    lemma_pieces_append(before, block);
    assert((before + block).last() == block.last());
    lemma_pieces_append(before + block, behind_block(profile));
}

/// After an update the profile has one managed block, however many it had:
/// one line opens a block and one closes it. Left out are settings whose own
/// lines would do so.
pub proof fn law_update_leaves_one_block(
    profile: Seq<char>,
    config: Config,
    script_path: Seq<char>,
)
    requires
        no_markers(lines(block_body(config, script_path, !sources_script(profile)))),
    ensures
        begin_count(lines(updated(profile, config, script_path))) == 1,
        end_count(lines(updated(profile, config, script_path))) == 1,
{
    let first = pieces(before_block(profile));
    let middle = pieces(managed_block(config, script_path, !sources_script(profile)));
    let last = pieces(behind_block(profile));
    lemma_around_block(profile);
    lemma_updated_pieces(profile, config, script_path);
    law_block_is_managed(config, script_path, !sources_script(profile));
    lemma_unmarked(first);
    lemma_unmarked(last);
    lemma_contents_append(first, middle);
    lemma_contents_append(first + middle, last);
    lemma_counts_append(contents(first), contents(middle));
    lemma_counts_append(contents(first + middle), contents(last));
}

/// After an update the environment is set before any line sources the script:
/// whole lines stand before the block, none of which sources it, and in the
/// block the line that does so stands last. The block has such a line if no
/// line behind it sources the script.
pub proof fn law_settings_precede_source(
    profile: Seq<char>,
    config: Config,
    script_path: Seq<char>,
)
    ensures
        is_whole(before_block(profile)),
        no_source(lines(before_block(profile))),
        updated(profile, config, script_path) == before_block(profile) + managed_block(
            config,
            script_path,
            no_source(lines(behind_block(profile))),
        ) + behind_block(profile),
{
    lemma_around_block(profile);
}

/// The text of an updated profile outside its block is what stands before the
/// block and what stands behind it.
proof fn lemma_updated_outside(profile: Seq<char>, config: Config, script_path: Seq<char>)
    requires
        no_markers(lines(block_body(config, script_path, !sources_script(profile)))),
    ensures
        outside(updated(profile, config, script_path)) == before_block(profile) + behind_block(
            profile,
        ),
{
    let done = updated(profile, config, script_path);
    let first = pieces(before_block(profile));
    let middle = pieces(managed_block(config, script_path, !sources_script(profile)));
    let last = pieces(behind_block(profile));
    lemma_around_block(profile);
    lemma_updated_pieces(profile, config, script_path);
    law_block_is_managed(config, script_path, !sources_script(profile));
    lemma_unmarked(first);
    lemma_unmarked(last);
    lemma_block_is_managed(middle);
    lemma_unmanaged_append(first, middle);
    lemma_unmanaged_append(first + middle, last);
    assert(unmanaged(pieces(done)) =~= first + last);
    lemma_concat_append(first, last);
    lemma_concat_pieces(before_block(profile));
    lemma_concat_pieces(behind_block(profile));
}

/// What stands before and behind the block of an update, put together.
proof fn lemma_around_is_outside(profile: Seq<char>)
    ensures
        before_block(profile) + behind_block(profile) == if block_place(
            pieces(profile),
        ) is Some {
            outside(profile)
        } else if sources_script(profile) {
            terminated(lines(cleaned(profile)))
        } else if trimmed(cleaned(profile)).len() == 0 {
            seq![]
        } else {
            closed(cleaned(profile)).push('\n')
        },
{
    let ps = pieces(profile);
    lemma_source_index_bounds(other_lines(profile));
    match block_place(ps) {
        Some(place) => {
            let kept = unmanaged(ps);
            let at = new_place(place, kept);
            lemma_pieces_are_pieces(profile);
            lemma_block_place(ps);
            lemma_concat_append(kept.take(at), kept.skip(at));
            assert(kept.take(at) + kept.skip(at) =~= kept);
        },
        None => {
            let text = cleaned(profile);
            if sources_script(profile) {
                law_removal_leaves_no_marker(profile);
                lemma_pieces_are_pieces(text);
                lemma_contents_are_lines(pieces(text));
                lemma_cut_text(lines(text));
            } else {
                assert(before_block(profile) + behind_block(profile) =~= before_block(profile));
            }
        },
    }
}

/// The text of an updated profile outside its block is that of the profile
/// before, to the last character, where the profile had a block. Where it had
/// none, it is what a removal leaves of the profile, with a newline behind
/// each line if the block is put before one, or closed and with an empty line
/// if the block is appended; blank text is dropped there. Left out are settings
/// whose own lines would open or close a block.
pub proof fn law_update_keeps_text_outside(
    profile: Seq<char>,
    config: Config,
    script_path: Seq<char>,
)
    requires
        no_markers(lines(block_body(config, script_path, !sources_script(profile)))),
    ensures
        outside(updated(profile, config, script_path)) == if block_place(pieces(profile)) is Some {
            outside(profile)
        } else if sources_script(profile) {
            terminated(lines(cleaned(profile)))
        } else if trimmed(cleaned(profile)).len() == 0 {
            seq![]
        } else {
            closed(cleaned(profile)).push('\n')
        },
{
    lemma_updated_outside(profile, config, script_path);
    lemma_around_is_outside(profile);
}

/// A removal leaves the same of a profile before and after an update, where the
/// profile had a block and ends with a newline. Left out are settings whose
/// own lines would open or close a block.
pub proof fn law_removal_undoes_update(
    profile: Seq<char>,
    config: Config,
    script_path: Seq<char>,
)
    requires
        no_markers(lines(block_body(config, script_path, !sources_script(profile)))),
        block_place(pieces(profile)) is Some,
        ends_line(profile),
    ensures
        cleaned(updated(profile, config, script_path)) == cleaned(profile),
{
    let done = updated(profile, config, script_path);
    let block = managed_block(config, script_path, !sources_script(profile));
    let ps = pieces(profile);
    let kept = unmanaged(ps);
    law_update_keeps_text_outside(profile, config, script_path);
    lemma_block_lines(config, script_path, !sources_script(profile));
    lemma_pieces_are_pieces(profile);
    lemma_pieces_are_pieces(done);
    lemma_unmanaged_pieces(ps);
    lemma_unmanaged_pieces(pieces(done));
    lemma_pieces_concat(kept);
    lemma_pieces_concat(unmanaged(pieces(done)));
    lemma_block_place(ps);
    lemma_source_index_bounds(contents(kept));
    let at = new_place(block_place(ps)->0, kept);
    let rest = kept.skip(at);
    assert forall|i: int| 0 <= i < rest.len() implies is_piece(#[trigger] rest[i]) && ends_line(
        rest[i],
    ) by {
        assert(rest[i] == kept[at + i]);
    }
    lemma_concat_is_whole(rest);
    if behind_block(profile).len() > 0 {
        assert(done.last() == behind_block(profile).last());
    } else {
        assert(done.last() == block.last());
    }
}

/// Lines without a carriage return before their newline are told by their
/// contents.
pub proof fn lemma_ended_contents(ps: Seq<Seq<char>>)
    requires
        are_whole(ps),
        forall|i: int| 0 <= i < ps.len() ==> has_no_crlf(#[trigger] ps[i]),
    ensures
        ended(contents(ps)) == ps,
{
    assert forall|i: int| 0 <= i < ps.len() implies #[trigger] ended(contents(ps))[i] == ps[i] by {
        let p = ps[i];
        assert(is_piece(p) && ends_line(p) && has_no_crlf(p));
        if p.len() > 1 {
            assert(p[p.len() - 1] == '\n');
        }
        assert(content(p).push('\n') =~= p);
    }
    assert(ended(contents(ps)) =~= ps);
}

/// A profile without markers is kept as it is, to the last character. Left out
/// are the profile of one empty line, which comes out empty, and profiles in
/// which a carriage return stands before a newline, where it is dropped.
pub proof fn law_unmarked_profile_is_kept(profile: Seq<char>)
    requires
        no_markers(lines(profile)),
        has_no_crlf(profile),
        profile != seq!['\n'],
    ensures
        cleaned(profile) == profile,
{
    let ps = pieces(profile);
    let kept = contents(ps);
    lemma_unmarked(ps);
    lemma_concat_pieces(profile);
    lemma_pieces_are_pieces(profile);
    lemma_pieces_have_no_crlf(profile);
    if profile.len() == 0 {
        assert(cleaned(profile) =~= profile);
    } else {
        assert(ps.len() > 0);
        lemma_joined(kept);
        if ends_line(profile) {
            lemma_ended_contents(ps);
            if joined(kept).len() == 0 {
                assert(profile =~= seq!['\n']);
            }
        } else {
            let rest = ps.drop_last();
            assert forall|i: int| 0 <= i < rest.len() implies is_piece(#[trigger] rest[i])
                && ends_line(rest[i]) && has_no_crlf(rest[i]) by {
                assert(rest[i] == ps[i]);
            }
            lemma_ended_contents(rest);
            assert(kept.drop_last() =~= contents(rest));
            assert(ps.last().len() > 0) by {
                assert(is_piece(ps[ps.len() - 1]));
            }
            assert(ps.last().last() == profile.last());
        }
    }
}

proof fn lemma_quoted_first(s: Seq<char>)
    requires
        s.len() > 0,
    ensures
        quoted(s) == if s[0] == '\'' {
            seq!['\'', '\''] + quoted(s.skip(1))
        } else {
            seq![s[0]] + quoted(s.skip(1))
        },
    decreases s.len(),
{
    reveal_with_fuel(quoted, 2);
    if s.len() == 1 {
        assert(s.drop_last() =~= Seq::<char>::empty());
        assert(s.skip(1) =~= Seq::<char>::empty());
        assert(quoted(s) =~= if s[0] == '\'' {
            seq!['\'', '\''] + quoted(s.skip(1))
        } else {
            seq![s[0]] + quoted(s.skip(1))
        });
    } else {
        lemma_quoted_first(s.drop_last());
        assert(s.drop_last().skip(1) =~= s.skip(1).drop_last());
        assert(quoted(s) =~= if s[0] == '\'' {
            seq!['\'', '\''] + quoted(s.skip(1))
        } else {
            seq![s[0]] + quoted(s.skip(1))
        });
    }
}

/// PowerShell reads a quoted value back as it was, and goes on behind the
/// quote that closes it. Left out are values with typographic single quotes,
/// which PowerShell takes for quotes too.
pub proof fn law_quoted_value_is_read_back(value: Seq<char>, rest: Seq<char>)
    requires
        forall|i: int| 0 <= i < value.len() && is_quote(#[trigger] value[i]) ==> value[i] == '\'',
        rest.len() > 0 ==> !is_quote(rest[0]),
    ensures
        read_literal(quoted(value) + seq!['\''] + rest, false) == Some((value, rest)),
    decreases value.len(),
{
    let s = quoted(value) + seq!['\''] + rest;
    if value.len() == 0 {
        assert(s.skip(1) =~= rest);
        assert(value =~= seq![]);
    } else {
        let more = value.skip(1);
        lemma_quoted_first(value);
        assert forall|i: int| 0 <= i < more.len() && is_quote(#[trigger] more[i]) implies more[i]
            == '\'' by {
            assert(more[i] == value[i + 1]);
        }
        law_quoted_value_is_read_back(more, rest);
        let t = quoted(more) + seq!['\''] + rest;
        if value[0] == '\'' {
            assert(s.skip(2) =~= t);
        } else {
            assert(!is_quote(value[0]));
            assert(s.skip(1) =~= t);
        }
        assert(seq![value[0]] + more =~= value);
    }
}

/// A line that does not begin with a dollar sign sets no token.
proof fn lemma_no_token(line: Seq<char>)
    requires
        line.len() > 0,
        !is_white_space(line[0]),
        line[0] != '$',
    ensures
        token_in(line) is None,
{
    reveal_strlit("$env:");
    let t = lowered(trimmed_start(line));
    if starts_with(t, "$env:"@) {
        assert(t.take(5)[0] == '$');
        assert(t[0] == '$');
    }
}

/// The line of a setting that `name` tells from the token.
proof fn lemma_other_setting(name: Seq<char>, value: Seq<char>)
    requires
        name.len() > 13,
        name[13] != 'T',
    ensures
        token_in(setting_head(name) + quoted(value) + seq!['\'']) is None,
{
    reveal_strlit("$env:");
    reveal_strlit("PWSH_HISTORY_TOKEN");
    let line = setting_head(name) + quoted(value) + seq!['\''];
    let wanted = "PWSH_HISTORY_TOKEN"@;
    assert(trimmed_start(line) == line);
    if starts_with(line.skip(5), wanted) {
        assert(line.skip(5).take(wanted.len() as int)[13] == wanted[13]);
        assert(line.skip(5)[13] == name[13]);
    }
}

proof fn lemma_token_line(value: Seq<char>)
    requires
        forall|i: int| 0 <= i < value.len() && is_quote(#[trigger] value[i]) ==> value[i] == '\'',
    ensures
        token_in(setting_head("PWSH_HISTORY_TOKEN"@) + quoted(value) + seq!['\'']) == Some(value),
{
    reveal_strlit("$env:");
    reveal_strlit("PWSH_HISTORY_TOKEN");
    reveal_strlit(" = '");
    reveal_with_fuel(trimmed_start, 2);
    let name = "PWSH_HISTORY_TOKEN"@;
    let line = setting_head(name) + quoted(value) + seq!['\''];
    let none = Seq::<char>::empty();
    let tail = quoted(value) + seq!['\''];
    assert(trimmed_start(line) == line);
    assert(lowered(line).take(5) =~= "$env:"@);
    assert(line.skip(5).take(name.len() as int) =~= name);
    let rest = line.skip(5).skip(name.len() as int);
    assert(rest =~= seq![' ', '=', ' ', '\''] + tail);
    let equals = seq!['=', ' ', '\''] + tail;
    assert(rest.drop_first() =~= equals);
    assert(trimmed_start(rest) == equals);
    let space = seq![' ', '\''] + tail;
    assert(equals.skip(1) =~= space);
    let literal = seq!['\''] + tail;
    assert(space.drop_first() =~= literal);
    assert(trimmed_start(space) == literal);
    assert(literal.skip(1) =~= tail + none);
    law_quoted_value_is_read_back(value, none);
    assert(literal_value(literal) == Some(value));
    assert(assigned(rest) == Some(value));
}

/// Of two lists of lines the second has the last word.
pub proof fn lemma_last_token_append(a: Seq<Seq<char>>, b: Seq<Seq<char>>)
    ensures
        last_token(a + b) == if last_token(b) is Some {
            last_token(b)
        } else {
            last_token(a)
        },
    decreases b.len(),
{
    if b.len() == 0 {
        assert(a + b =~= a);
    } else {
        lemma_last_token_append(a, b.drop_last());
        assert((a + b).drop_last() =~= a + b.drop_last());
    }
}

pub proof fn lemma_last_token_of_one(line: Seq<char>)
    ensures
        last_token(seq![line]) == token_in(line),
{
    reveal_with_fuel(last_token, 2);
    assert(seq![line].drop_last() =~= Seq::<Seq<char>>::empty());
}

/// The token that the lines of a block set.
proof fn lemma_block_token(config: Config, script_path: Seq<char>, with_source: bool)
    requires
        is_plain(config, script_path),
        forall|i: int|
            0 <= i < config.token@.len() && is_quote(#[trigger] config.token@[i])
                ==> config.token@[i] == '\'',
    ensures
        last_token(lines(managed_block(config, script_path, with_source))) == Some(config.token@),
{
    reveal_strlit("PWSH_HISTORY_DB");
    reveal_strlit("PWSH_HISTORY_TOKEN");
    reveal_strlit("PWSH_HISTORY_BIND");
    reveal_strlit("PWSH_HISTORY_URL");
    let db = setting_head("PWSH_HISTORY_DB"@) + quoted(config.db_path@) + seq!['\''];
    let token = setting_head("PWSH_HISTORY_TOKEN"@) + quoted(config.token@) + seq!['\''];
    let bind = setting_head("PWSH_HISTORY_BIND"@) + quoted(config.bind@) + seq!['\''];
    let url = setting_head("PWSH_HISTORY_URL"@) + quoted(config.url@) + seq!['\''];
    let source = ". '"@ + quoted(script_path) + seq!['\''];
    let body = lines(block_body(config, script_path, with_source));
    lemma_block_lines(config, script_path, with_source);
    lemma_body_lines(config, script_path, with_source);
    lemma_setting_line("PWSH_HISTORY_DB"@, config.db_path@);
    lemma_setting_line("PWSH_HISTORY_TOKEN"@, config.token@);
    lemma_setting_line("PWSH_HISTORY_BIND"@, config.bind@);
    lemma_setting_line("PWSH_HISTORY_URL"@, config.url@);
    lemma_source_line(script_path);
    lemma_token_line(config.token@);
    lemma_other_setting("PWSH_HISTORY_BIND"@, config.bind@);
    lemma_other_setting("PWSH_HISTORY_URL"@, config.url@);
    assert(token_in(source) is None) by {
        reveal_strlit(". '");
        lemma_no_token(source);
    }
    lemma_markers();
    lemma_no_token(PROFILE_END@);
    lemma_last_token_of_one(token);
    lemma_last_token_of_one(bind);
    lemma_last_token_of_one(url);
    lemma_last_token_of_one(source);
    lemma_last_token_of_one(PROFILE_END@);
    let two = seq![db] + seq![token];
    let three = two + seq![bind];
    let four = three + seq![url];
    lemma_last_token_append(seq![db], seq![token]);
    lemma_last_token_append(two, seq![bind]);
    lemma_last_token_append(three, seq![url]);
    lemma_last_token_append(four, seq![source]);
    if !with_source {
        assert(four + seq![] =~= four);
    }
    let first = seq![PROFILE_BEGIN@];
    lemma_last_token_append(first, body);
    lemma_last_token_append(first + body, seq![PROFILE_END@]);
}

/// The token of an updated profile is the one of the settings, unless a line
/// behind the block sets another. Left out are settings with a newline, and
/// tokens with typographic single quotes, which PowerShell takes for quotes.
pub proof fn law_token_is_read_back(profile: Seq<char>, config: Config, script_path: Seq<char>)
    requires
        is_plain(config, script_path),
        forall|i: int|
            0 <= i < config.token@.len() && is_quote(#[trigger] config.token@[i])
                ==> config.token@[i] == '\'',
    ensures
        token_of(updated(profile, config, script_path)) == if token_of(
            behind_block(profile),
        ) is Some {
            token_of(behind_block(profile))
        } else {
            Some(config.token@)
        },
{
    let with_source = !sources_script(profile);
    let first = pieces(before_block(profile));
    let middle = pieces(managed_block(config, script_path, with_source));
    let last = pieces(behind_block(profile));
    lemma_updated_pieces(profile, config, script_path);
    lemma_block_token(config, script_path, with_source);
    lemma_contents_append(first, middle);
    lemma_contents_append(first + middle, last);
    lemma_last_token_append(contents(first), contents(middle));
    lemma_last_token_append(contents(first + middle), contents(last));
}

} // verus!
