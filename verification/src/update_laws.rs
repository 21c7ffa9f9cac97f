//! What an update of a PowerShell profile is for, told on the profile's text.

use vstd::prelude::*;

use crate::config::Config;
use crate::line_facts::{
    lemma_concat_pieces, lemma_pieces_append, lemma_pieces_are_pieces, lemma_pieces_concat,
};
use crate::profile::{
    block_place, cleaned, in_block, is_begin, is_end, is_source, lemma_source_index, managed_block,
    new_place, outside, quoted, source_index, unmanaged, updated, PROFILE_BEGIN, PROFILE_END,
    SCRIPT_NAME,
};
use crate::profile_laws::{
    lemma_block_place_append, lemma_contents_append, lemma_no_markers_append,
    lemma_source_index_bounds, lemma_unmanaged_pieces, no_source,
};
use crate::text::{
    content, contents, is_white_space, is_whole, joined, lines, lowered, occurs_at, pieces,
    terminated, trimmed, trimmed_start,
};
use crate::text_laws::{
    is_bare, is_blank, law_blank_is_trimmed_away, law_lowered, law_part_is_found,
    law_trim_start_parts, law_trim_start_takes_blank_off, law_trim_takes_blank_off, start_of,
};

verus! {

/// Every line that sources the client script is told as one: it is a dot behind
/// any white space, one character of white space, and any text that holds the
/// script's file name in letters of any case, whatever else it holds.
pub proof fn law_source_line_is_told(
    a: Seq<char>,
    w: char,
    x: Seq<char>,
    n: Seq<char>,
    y: Seq<char>,
)
    requires
        is_blank(a),
        is_white_space(w),
        lowered(n) == "pwsh-history.ps1"@,
    ensures
        is_source(a + seq!['.', w] + x + n + y),
{
    let t = seq!['.', w] + x + n + y;
    assert(a + seq!['.', w] + x + n + y =~= a + t);
    law_trim_start_takes_blank_off(a, t);
    law_lowered(seq!['.', w] + x + n, y, w);
    law_lowered(seq!['.', w] + x, n, w);
    law_part_is_found(lowered(seq!['.', w] + x), lowered(n), lowered(y));
}

/// Whether `line` is white space, a dot, a character of white space, and three
/// texts of which the second is the script's file name in letters of any case.
pub open spec fn is_dot_source(
    line: Seq<char>,
    a: Seq<char>,
    w: char,
    x: Seq<char>,
    n: Seq<char>,
    y: Seq<char>,
) -> bool {
    &&& is_blank(a) && is_white_space(w)
    &&& lowered(n) == "pwsh-history.ps1"@
    &&& line == a + seq!['.', w] + x + n + y
}

/// A line that is told to source the client script is a dot behind white space,
/// a character of white space, and a text that holds the script's file name.
pub proof fn law_told_source_line(line: Seq<char>)
    requires
        is_source(line),
    ensures
        exists|a: Seq<char>, w: char, x: Seq<char>, n: Seq<char>, y: Seq<char>| #[trigger]
            is_dot_source(line, a, w, x, n, y),
{
    reveal_strlit("pwsh-history.ps1");
    let t = trimmed_start(line);
    let name = SCRIPT_NAME@;
    law_trim_start_parts(line);
    let k = choose|k: int| occurs_at(lowered(t), name, k);
    let found = lowered(t).subrange(k, k + name.len());
    assert(found[0] == 'p');
    assert(k >= 2) by {
        if k < 2 {
            assert(lowered(t)[0] == '.');
            if k == 1 {
                assert(found[0] == lowered(t)[1]);
            } else {
                assert(found[0] == lowered(t)[0]);
            }
        }
    }
    let a = start_of(line);
    let w = t[1];
    let x = t.subrange(2, k);
    let n = t.subrange(k, k + name.len());
    let y = t.skip(k + name.len());
    assert(lowered(n) =~= found);
    assert(t =~= seq!['.', w] + x + n + y);
    assert(line =~= a + seq!['.', w] + x + n + y);
    assert(is_dot_source(line, a, w, x, n, y));
}

/// A line opens or closes a block exactly if it is the one or the other marker
/// with white space around it.
pub proof fn law_markers_are_told(a: Seq<char>, p: Seq<char>, b: Seq<char>)
    requires
        is_blank(a),
        is_bare(p),
        is_blank(b),
    ensures
        is_begin(a + p + b) <==> p == "# >>> pwsh-history-server >>>"@,
        is_end(a + p + b) <==> p == "# <<< pwsh-history-server <<<"@,
{
    law_trim_takes_blank_off(a, p, b);
}

/// A blank line is no marker.
pub proof fn law_blank_line_is_no_marker(a: Seq<char>)
    requires
        is_blank(a),
    ensures
        !is_begin(a) && !is_end(a),
{
    reveal_strlit("# >>> pwsh-history-server >>>");
    reveal_strlit("# <<< pwsh-history-server <<<");
    law_blank_is_trimmed_away(a);
}

/// Whether the line at `i` is no marker and stands in no block: each line before
/// it that opens one is followed by one that closes it.
pub open spec fn is_outside(ls: Seq<Seq<char>>, i: int) -> bool {
    &&& !is_begin(ls[i]) && !is_end(ls[i])
    &&& forall|j: int|
        0 <= j < i && is_begin(#[trigger] ls[j]) ==> exists|m: int|
            j < m < i && is_end(#[trigger] ls[m])
}

/// Whether a block is open behind the lines `ls`.
pub open spec fn is_open(ls: Seq<Seq<char>>) -> bool {
    exists|j: int|
        0 <= j < ls.len() && is_begin(#[trigger] ls[j]) && forall|m: int|
            j < m < ls.len() ==> !is_end(#[trigger] ls[m])
}

proof fn lemma_in_block(ps: Seq<Seq<char>>)
    ensures
        in_block(ps) <==> is_open(contents(ps)),
    decreases ps.len(),
{
    let ls = contents(ps);
    if ps.len() > 0 {
        let rest = ps.drop_last();
        let less = contents(rest);
        let n = ps.len() - 1;
        lemma_in_block(rest);
        assert(ls[n] == content(ps.last()));
        assert forall|i: int| 0 <= i < n implies ls[i] == less[i] by {}
        if is_begin(ls[n]) {
            assert(is_open(ls));
        } else {
            if is_open(ls) {
                let j = choose|j: int|
                    0 <= j < ls.len() && is_begin(#[trigger] ls[j]) && forall|m: int|
                        j < m < ls.len() ==> !is_end(#[trigger] ls[m]);
                assert(j < n);
                assert(!is_end(ls[n]));
                assert(is_begin(less[j]));
                assert forall|m: int| j < m < less.len() implies !is_end(#[trigger] less[m]) by {
                    assert(!is_end(ls[m]));
                }
            }
            if is_open(less) && !is_end(ls[n]) {
                let j = choose|j: int|
                    0 <= j < less.len() && is_begin(#[trigger] less[j]) && forall|m: int|
                        j < m < less.len() ==> !is_end(#[trigger] less[m]);
                assert(is_begin(ls[j]));
                assert forall|m: int| j < m < ls.len() implies !is_end(#[trigger] ls[m]) by {
                    if m < n {
                        assert(!is_end(less[m]));
                    }
                }
            }
        }
    }
}

/// A line belongs to no managed block exactly if it is no marker and every line
/// before it that opens a block is followed by one that closes it. Such lines
/// are kept with their endings and in their order, and no others.
pub proof fn law_unmanaged_lines(ps: Seq<Seq<char>>, i: int)
    requires
        0 <= i < ps.len(),
    ensures
        unmanaged(seq![]).len() == 0,
        unmanaged(ps.take(i + 1)) == if is_outside(contents(ps), i) {
            unmanaged(ps.take(i)).push(ps[i])
        } else {
            unmanaged(ps.take(i))
        },
{
    let next = ps.take(i + 1);
    let before = ps.take(i);
    let ls = contents(ps);
    let less = contents(before);
    assert(next.drop_last() =~= before);
    lemma_in_block(before);
    assert(ls[i] == content(ps[i]));
    assert forall|j: int| 0 <= j < i implies ls[j] == less[j] by {}
    if is_open(less) {
        let j = choose|j: int|
            0 <= j < less.len() && is_begin(#[trigger] less[j]) && forall|m: int|
                j < m < less.len() ==> !is_end(#[trigger] less[m]);
        assert(is_begin(ls[j]));
        if is_outside(ls, i) {
            let m = choose|m: int| j < m < i && is_end(#[trigger] ls[m]);
            assert(is_end(less[m]));
        }
    } else {
        assert forall|j: int| 0 <= j < i && is_begin(#[trigger] ls[j]) implies exists|m: int|
            j < m < i && is_end(#[trigger] ls[m]) by {
            assert(is_begin(less[j]));
            let m = choose|m: int| j < m < less.len() && is_end(#[trigger] less[m]);
            assert(is_end(ls[m]));
        }
    }
}

/// A removal leaves the lines outside the blocks, with newlines between them,
/// and a newline at the end where the profile had one, unless nothing is left.
pub proof fn law_removal_joins_the_rest(profile: Seq<char>)
    ensures
        ({
            let rest = joined(contents(unmanaged(pieces(profile))));
            &&& profile.len() > 0 && profile[profile.len() - 1] == '\n' && rest.len() > 0
                ==> cleaned(profile) == rest + seq!['\n']
            &&& profile.len() == 0 || profile[profile.len() - 1] != '\n' || rest.len() == 0
                ==> cleaned(profile) == rest
        }),
{
    let rest = joined(contents(unmanaged(pieces(profile))));
    assert(rest + seq!['\n'] =~= rest.push('\n'));
}

/// A block is its first line, the settings in their order, the line that
/// sources the script if it has one, and its last line.
pub proof fn law_block_text(config: Config, script_path: Seq<char>)
    ensures
        managed_block(config, script_path, false) == "# >>> pwsh-history-server >>>"@ + "\n"@
            + "$env:PWSH_HISTORY_DB = '"@ + quoted(config.db_path@) + "'\n"@
            + "$env:PWSH_HISTORY_TOKEN = '"@ + quoted(config.token@) + "'\n"@
            + "$env:PWSH_HISTORY_BIND = '"@ + quoted(config.bind@) + "'\n"@
            + "$env:PWSH_HISTORY_URL = '"@ + quoted(config.url@) + "'\n"@
            + "# <<< pwsh-history-server <<<"@ + "\n"@,
        managed_block(config, script_path, true) == "# >>> pwsh-history-server >>>"@ + "\n"@
            + "$env:PWSH_HISTORY_DB = '"@ + quoted(config.db_path@) + "'\n"@
            + "$env:PWSH_HISTORY_TOKEN = '"@ + quoted(config.token@) + "'\n"@
            + "$env:PWSH_HISTORY_BIND = '"@ + quoted(config.bind@) + "'\n"@
            + "$env:PWSH_HISTORY_URL = '"@ + quoted(config.url@) + "'\n"@ + ". '"@ + quoted(
            script_path,
        ) + "'\n"@ + "# <<< pwsh-history-server <<<"@ + "\n"@,
{
    reveal_strlit("\n");
    reveal_strlit("$env:");
    reveal_strlit(" = '");
    reveal_strlit("PWSH_HISTORY_DB");
    reveal_strlit("PWSH_HISTORY_TOKEN");
    reveal_strlit("PWSH_HISTORY_BIND");
    reveal_strlit("PWSH_HISTORY_URL");
    reveal_strlit("$env:PWSH_HISTORY_DB = '");
    reveal_strlit("$env:PWSH_HISTORY_TOKEN = '");
    reveal_strlit("$env:PWSH_HISTORY_BIND = '");
    reveal_strlit("$env:PWSH_HISTORY_URL = '");
    let env = "$env:"@;
    let is = " = '"@;
    assert(env + "PWSH_HISTORY_DB"@ + is =~= "$env:PWSH_HISTORY_DB = '"@);
    assert(env + "PWSH_HISTORY_TOKEN"@ + is =~= "$env:PWSH_HISTORY_TOKEN = '"@);
    assert(env + "PWSH_HISTORY_BIND"@ + is =~= "$env:PWSH_HISTORY_BIND = '"@);
    assert(env + "PWSH_HISTORY_URL"@ + is =~= "$env:PWSH_HISTORY_URL = '"@);
    assert("\n"@ =~= seq!['\n']);
    let begin = PROFILE_BEGIN@;
    let end = PROFILE_END@;
    let db = "$env:PWSH_HISTORY_DB = '"@ + quoted(config.db_path@) + "'\n"@;
    let token = "$env:PWSH_HISTORY_TOKEN = '"@ + quoted(config.token@) + "'\n"@;
    let bind = "$env:PWSH_HISTORY_BIND = '"@ + quoted(config.bind@) + "'\n"@;
    let url = "$env:PWSH_HISTORY_URL = '"@ + quoted(config.url@) + "'\n"@;
    let source = ". '"@ + quoted(script_path) + "'\n"@;
    assert(managed_block(config, script_path, false) =~= begin + "\n"@ + db + token + bind + url
        + end + "\n"@);
    assert(managed_block(config, script_path, true) =~= begin + "\n"@ + db + token + bind + url
        + source + end + "\n"@);
    assert(managed_block(config, script_path, false) =~= begin + "\n"@
        + "$env:PWSH_HISTORY_DB = '"@ + quoted(config.db_path@) + "'\n"@
        + "$env:PWSH_HISTORY_TOKEN = '"@ + quoted(config.token@) + "'\n"@
        + "$env:PWSH_HISTORY_BIND = '"@ + quoted(config.bind@) + "'\n"@
        + "$env:PWSH_HISTORY_URL = '"@ + quoted(config.url@) + "'\n"@ + end + "\n"@);
    assert(managed_block(config, script_path, true) =~= begin + "\n"@
        + "$env:PWSH_HISTORY_DB = '"@ + quoted(config.db_path@) + "'\n"@
        + "$env:PWSH_HISTORY_TOKEN = '"@ + quoted(config.token@) + "'\n"@
        + "$env:PWSH_HISTORY_BIND = '"@ + quoted(config.bind@) + "'\n"@
        + "$env:PWSH_HISTORY_URL = '"@ + quoted(config.url@) + "'\n"@ + ". '"@ + quoted(
        script_path,
    ) + "'\n"@ + end + "\n"@);
}

/// A value is quoted character by character: quotes are doubled, and no other
/// character changes.
pub proof fn law_quoted(value: Seq<char>, c: char)
    ensures
        quoted(seq![]).len() == 0,
        quoted(value.push('\'')) == quoted(value) + seq!['\'', '\''],
        c != '\'' ==> quoted(value.push(c)) == quoted(value).push(c),
{
    assert(value.push('\'').drop_last() =~= value);
    assert(value.push(c).drop_last() =~= value);
}

/// The place of the first block, behind lines that open none.
proof fn lemma_first_block(first: Seq<Seq<char>>, rest: Seq<Seq<char>>)
    requires
        forall|i: int| 0 <= i < first.len() ==> !is_begin(content(#[trigger] first[i])),
    ensures
        !in_block(first),
        block_place(first) is None,
        rest.len() > 0 && is_begin(content(rest[0])) ==> block_place(first + rest) == Some(
            unmanaged(first).len(),
        ),
    decreases first.len(),
{
    if first.len() > 0 {
        let less = first.drop_last();
        assert forall|i: int| 0 <= i < less.len() implies !is_begin(content(#[trigger] less[i])) by {
            assert(less[i] == first[i]);
        }
        assert(!is_begin(content(first[first.len() - 1])));
        lemma_first_block(less, seq![]);
    }
    if rest.len() > 0 && is_begin(content(rest[0])) {
        let opened = first.push(rest[0]);
        assert(opened.drop_last() =~= first);
        assert(block_place(opened) == Some(unmanaged(first).len()));
        lemma_block_place_append(opened, rest.skip(1));
        assert(opened + rest.skip(1) =~= first + rest);
    }
}

/// The lines outside the blocks of a profile that is cut before a block.
proof fn lemma_cut_before_block(a: Seq<char>, rest: Seq<char>)
    requires
        is_whole(a),
        forall|i: int| 0 <= i < lines(a).len() ==> !is_begin(#[trigger] lines(a)[i]),
        lines(rest).len() > 0 && is_begin(lines(rest)[0]),
    ensures
        pieces(a + rest) == pieces(a) + pieces(rest),
        unmanaged(pieces(a + rest)) == unmanaged(pieces(a)) + unmanaged(pieces(rest)),
        block_place(pieces(a + rest)) == Some(unmanaged(pieces(a)).len()),
        pieces(outside(a)) == unmanaged(pieces(a)),
        pieces(outside(rest)) == unmanaged(pieces(rest)),
        is_whole(outside(a)),
{
    let first = pieces(a);
    lemma_pieces_append(a, rest);
    assert forall|i: int| 0 <= i < first.len() implies !is_begin(content(#[trigger] first[i])) by {
        assert(!is_begin(lines(a)[i]));
    }
    assert(lines(rest)[0] == content(pieces(rest)[0]));
    lemma_first_block(first, pieces(rest));
    crate::profile_laws::lemma_unmanaged_append(first, pieces(rest));
    lemma_pieces_are_pieces(a);
    lemma_pieces_are_pieces(rest);
    lemma_unmanaged_pieces(first);
    lemma_unmanaged_pieces(pieces(rest));
    lemma_pieces_concat(unmanaged(first));
    lemma_pieces_concat(unmanaged(pieces(rest)));
    crate::line_facts::lemma_concat_is_whole(unmanaged(first));
}

/// Where a profile has a block, the new one stands where the first of them
/// stood. What stands outside the blocks is kept before and behind it to the
/// last character. It sources the script exactly if no line outside does. Left
/// out are profiles with a line before the first block that sources the
/// script.
pub proof fn law_new_block_stands_where_the_first_stood(
    a: Seq<char>,
    rest: Seq<char>,
    config: Config,
    script_path: Seq<char>,
)
    requires
        is_whole(a),
        forall|i: int| 0 <= i < lines(a).len() ==> !is_begin(#[trigger] lines(a)[i]),
        lines(rest).len() > 0 && is_begin(lines(rest)[0]),
        no_source(lines(outside(a))),
    ensures
        updated(a + rest, config, script_path) == outside(a) + managed_block(
            config,
            script_path,
            no_source(lines(outside(rest))),
        ) + outside(rest),
{
    let first = unmanaged(pieces(a));
    let last = unmanaged(pieces(rest));
    let kept = first + last;
    lemma_cut_before_block(a, rest);
    lemma_contents_append(first, last);
    lemma_no_markers_append(contents(first), contents(last));
    lemma_source_index_bounds(contents(kept));
    let k = source_index(contents(kept)) as int;
    assert(k >= first.len()) by {
        if k < first.len() {
            assert(contents(kept)[k] == contents(first)[k]);
        }
    }
    assert(new_place(first.len(), kept) == first.len());
    assert(kept.take(first.len() as int) =~= first);
    assert(kept.skip(first.len() as int) =~= last);
}

/// Where a line that sources the script stands before the first block, the new
/// block stands right before the first such line and does not source the
/// script. What stands outside the blocks is kept to the last character.
pub proof fn law_new_block_stands_before_an_earlier_source(
    a: Seq<char>,
    x: Seq<char>,
    y: Seq<char>,
    rest: Seq<char>,
    config: Config,
    script_path: Seq<char>,
)
    requires
        is_whole(a),
        forall|i: int| 0 <= i < lines(a).len() ==> !is_begin(#[trigger] lines(a)[i]),
        lines(rest).len() > 0 && is_begin(lines(rest)[0]),
        outside(a) == x + y,
        is_whole(x),
        no_source(lines(x)),
        lines(y).len() > 0 && is_source(lines(y)[0]),
    ensures
        updated(a + rest, config, script_path) == x + managed_block(config, script_path, false) + y
            + outside(rest),
{
    let first = unmanaged(pieces(a));
    let last = unmanaged(pieces(rest));
    let kept = first + last;
    let px = pieces(x);
    let py = pieces(y);
    lemma_cut_before_block(a, rest);
    lemma_pieces_append(x, y);
    assert(first == px + py);
    let ls = contents(kept);
    let k = px.len() as int;
    assert forall|j: int| 0 <= j < k implies !is_source(#[trigger] ls[j]) by {
        assert(ls[j] == lines(x)[j]);
    }
    assert(ls[k] == lines(y)[0]);
    lemma_source_index(ls, k);
    assert(new_place(first.len(), kept) == k);
    assert(kept.take(k) =~= px);
    assert(kept.skip(k) =~= py + last);
    lemma_concat_pieces(x);
    lemma_concat_pieces(y);
    crate::line_facts::lemma_concat_append(py, last);
    let block = managed_block(config, script_path, false);
    assert(x + block + (y + outside(rest)) =~= x + block + y + outside(rest));
}

proof fn lemma_no_block(profile: Seq<char>)
    requires
        forall|i: int| 0 <= i < lines(profile).len() ==> !is_begin(#[trigger] lines(profile)[i]),
    ensures
        block_place(pieces(profile)) is None,
{
    let ps = pieces(profile);
    assert forall|i: int| 0 <= i < ps.len() implies !is_begin(content(#[trigger] ps[i])) by {
        assert(!is_begin(lines(profile)[i]));
    }
    lemma_first_block(ps, seq![]);
}

/// Where a profile has no block and a line that sources the script, the block
/// stands right before the first such line and does not source the script. The
/// other lines are kept in their order, with a newline behind each.
pub proof fn law_block_stands_right_before_the_source(
    profile: Seq<char>,
    first: Seq<Seq<char>>,
    second: Seq<Seq<char>>,
    config: Config,
    script_path: Seq<char>,
)
    requires
        forall|i: int| 0 <= i < lines(profile).len() ==> !is_begin(#[trigger] lines(profile)[i]),
        lines(cleaned(profile)) == first + second,
        no_source(first),
        second.len() > 0 && is_source(second[0]),
    ensures
        updated(profile, config, script_path) == terminated(first) + managed_block(
            config,
            script_path,
            false,
        ) + terminated(second),
{
    let ls = first + second;
    let k = first.len() as int;
    lemma_no_block(profile);
    assert forall|j: int| 0 <= j < k implies !is_source(#[trigger] ls[j]) by {
        assert(ls[j] == first[j]);
    }
    assert(ls[k] == second[0]);
    lemma_source_index(ls, k);
    assert(ls.take(k) =~= first);
    assert(ls.skip(k) =~= second);
}

/// Where a profile has neither a block nor a line that sources the script, the
/// block sources it and stands last, behind an empty line. Of a blank profile
/// nothing is kept.
pub proof fn law_block_stands_last(profile: Seq<char>, config: Config, script_path: Seq<char>)
    requires
        forall|i: int| 0 <= i < lines(profile).len() ==> !is_begin(#[trigger] lines(profile)[i]),
        no_source(lines(cleaned(profile))),
    ensures
        ({
            let text = cleaned(profile);
            let block = managed_block(config, script_path, true);
            let done = updated(profile, config, script_path);
            &&& is_blank(text) ==> done == block
            &&& !is_blank(text) && text[text.len() - 1] == '\n' ==> done == text + seq!['\n']
                + block
            &&& !is_blank(text) && text[text.len() - 1] != '\n' ==> done == text + seq![
                '\n',
                '\n',
            ] + block
        }),
{
    let text = cleaned(profile);
    let block = managed_block(config, script_path, true);
    let done = updated(profile, config, script_path);
    lemma_no_block(profile);
    lemma_source_index_bounds(lines(text));
    if is_blank(text) {
        law_blank_is_trimmed_away(text);
        assert(done =~= block);
    } else {
        assert(trimmed(text).len() > 0) by {
            if trimmed(text).len() == 0 {
                lemma_trimmed_away_is_blank(text);
            }
        }
        if text[text.len() - 1] == '\n' {
            assert(done =~= text + seq!['\n'] + block);
        } else {
            assert(done =~= text + seq!['\n', '\n'] + block);
        }
    }
}

/// Only of a blank text nothing is left.
pub proof fn lemma_trimmed_away_is_blank(s: Seq<char>)
    requires
        trimmed(s).len() == 0,
    ensures
        is_blank(s),
{
    let t = trimmed_start(s);
    law_trim_start_parts(s);
    if t.len() > 0 {
        crate::text::lemma_trimmed_end_keeps_first(t);
        assert(trimmed(s).len() > 0);
    }
    assert(s =~= start_of(s));
}

} // verus!
