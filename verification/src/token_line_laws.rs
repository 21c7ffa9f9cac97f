//! Which lines of a PowerShell profile set the token, and to what.

use vstd::prelude::*;

use crate::line_facts::{is_one_line, is_piece, lemma_pieces_append, lemma_pieces_of_one};
use crate::profile::{
    assigned, is_double_quote, is_line_rest, is_quote, literal_value, quoted, read_literal, token_in, token_of,
};
use crate::profile_laws::{
    law_quoted_value_is_read_back, lemma_contents_append, lemma_last_token_append,
    lemma_last_token_of_one,
};
use crate::text::{content, is_white_space, is_whole, lines, lower, lowered, pieces, trimmed_start};
use crate::text_laws::{
    is_blank, law_line_endings, law_lower, law_lowered, law_starts_with, law_trim_start_parts,
    law_trim_start_takes_blank_off, start_of,
};

verus! {

/// A line that gives the variable of the token a value: the variable behind any
/// white space, an equals sign with any white space around it, and the value.
pub open spec fn token_line(
    a: Seq<char>,
    env: Seq<char>,
    b: Seq<char>,
    c: Seq<char>,
    value: Seq<char>,
) -> Seq<char> {
    a + env + "PWSH_HISTORY_TOKEN"@ + b + seq!['='] + c + value
}

/// Whether `a`, `b` and `c` are white space and `env` names the drive of the
/// environment, in letters of any case.
pub open spec fn is_assignment(
    a: Seq<char>,
    env: Seq<char>,
    b: Seq<char>,
    c: Seq<char>,
) -> bool {
    is_blank(a) && lowered(env) == "$env:"@ && is_blank(b) && is_blank(c)
}

/// Where the value does not begin with white space, it alone decides what token
/// a line gives.
proof fn lemma_token_line(
    a: Seq<char>,
    env: Seq<char>,
    b: Seq<char>,
    c: Seq<char>,
    value: Seq<char>,
)
    requires
        is_assignment(a, env, b, c),
        value.len() > 0 ==> !is_white_space(value[0]),
    ensures
        token_in(token_line(a, env, b, c, value)) == literal_value(value),
{
    reveal_strlit("$env:");
    let name = "PWSH_HISTORY_TOKEN"@;
    let behind = b + seq!['='] + c + value;
    let t = env + name + behind;
    assert(token_line(a, env, b, c, value) =~= a + t);
    assert(lowered(env)[0] == '$');
    assert(lowered(env).len() == env.len());
    assert(lower(env[0]) == '$');
    law_lower(env[0]);
    assert(env[0] == '$');
    law_trim_start_takes_blank_off(a, t);
    law_lowered(env, name + behind, 'a');
    assert(env + (name + behind) =~= t);
    law_starts_with(lowered(env), lowered(name + behind), lowered(t));
    assert(t.skip(5) =~= name + behind);
    law_starts_with(name, behind, name + behind);
    assert((name + behind).skip(name.len() as int) =~= behind);
    let equals = seq!['='] + c + value;
    assert(behind =~= b + equals);
    law_trim_start_takes_blank_off(b, equals);
    assert(equals.skip(1) =~= c + value);
    law_trim_start_takes_blank_off(c, value);
    assert(assigned(behind) == literal_value(value));
}

/// A token in single quotes is read as it was before its quotes were doubled.
/// Behind it may stand white space and a comment. Left out are tokens with
/// typographic single quotes, which PowerShell takes for quotes.
pub proof fn law_token_in_single_quotes_is_read(
    a: Seq<char>,
    env: Seq<char>,
    b: Seq<char>,
    c: Seq<char>,
    token: Seq<char>,
    blank: Seq<char>,
    comment: Seq<char>,
)
    requires
        is_assignment(a, env, b, c),
        forall|i: int|
            0 <= i < token.len() ==> !('\u{2018}' <= #[trigger] token[i] <= '\u{201b}'),
        is_blank(blank),
        comment.len() > 0 ==> comment[0] == '#',
    ensures
        token_in(
            token_line(
                a,
                env,
                b,
                c,
                seq!['\''] + quoted(token) + seq!['\''] + blank + comment,
            ),
        ) == Some(token),
{
    let rest = blank + comment;
    let value = seq!['\''] + quoted(token) + seq!['\''] + blank + comment;
    lemma_token_line(a, env, b, c, value);
    assert(rest.len() > 0 ==> !is_quote(rest[0])) by {
        if blank.len() > 0 {
            assert(is_white_space(blank[0]));
        }
    }
    law_quoted_value_is_read_back(token, rest);
    assert(value.skip(1) =~= quoted(token) + seq!['\''] + rest);
    law_trim_start_takes_blank_off(blank, comment);
}

/// Whether PowerShell takes `c` for a quote that closes a literal in double or in
/// single quotes: the plain one, or a typographic one.
pub open spec fn closes(c: char, double: bool) -> bool {
    if double {
        c == '"' || c == '\u{201c}' || c == '\u{201d}' || c == '\u{201e}'
    } else {
        c == '\'' || c == '\u{2018}' || c == '\u{2019}' || c == '\u{201a}' || c == '\u{201b}'
    }
}

/// A literal is read character by character: any other character stands for
/// itself, two quotes for the second of them, and a single one closes the
/// literal. Between double quotes nothing is read with a dollar sign or a
/// backtick; nor is a literal that is not closed.
pub proof fn law_literals(s: Seq<char>, c: char, d: char, double: bool)
    ensures
        read_literal(seq![], double) is None,
        closes(c, double) ==> read_literal(seq![c], double) == Some(
            (Seq::<char>::empty(), Seq::<char>::empty()),
        ),
        closes(c, double) && !closes(d, double) ==> read_literal(seq![c, d] + s, double) == Some(
            (Seq::<char>::empty(), seq![d] + s),
        ),
        closes(c, double) && closes(d, double) ==> read_literal(
            seq![c, d] + s,
            double,
        ) == match read_literal(s, double) {
            Some((value, rest)) => Some((seq![d] + value, rest)),
            None => None,
        },
        !closes(c, double) && !(double && (c == '$' || c == '`')) ==> read_literal(
            seq![c] + s,
            double,
        ) == match read_literal(s, double) {
            Some((value, rest)) => Some((seq![c] + value, rest)),
            None => None,
        },
        double && (c == '$' || c == '`') ==> read_literal(seq![c] + s, double) is None,
{
    let one = seq![c];
    let two = seq![c, d] + s;
    assert(one.skip(1) =~= Seq::<char>::empty());
    assert(two.skip(1) =~= seq![d] + s);
    assert(two.skip(2) =~= s);
    assert((one + s).skip(1) =~= s);
    assert(two[0] == c && two[1] == d);
    assert((one + s)[0] == c);
}

proof fn lemma_read_double(token: Seq<char>, rest: Seq<char>)
    requires
        forall|i: int|
            0 <= i < token.len() ==> !is_double_quote(#[trigger] token[i]) && token[i] != '$'
                && token[i] != '`',
        rest.len() > 0 ==> !is_double_quote(rest[0]),
    ensures
        read_literal(token + seq!['"'] + rest, true) == Some((token, rest)),
    decreases token.len(),
{
    let s = token + seq!['"'] + rest;
    if token.len() == 0 {
        assert(s.skip(1) =~= rest);
        assert(token =~= seq![]);
    } else {
        let more = token.skip(1);
        assert forall|i: int| 0 <= i < more.len() implies !is_double_quote(#[trigger] more[i])
            && more[i] != '$' && more[i] != '`' by {
            assert(more[i] == token[i + 1]);
        }
        lemma_read_double(more, rest);
        assert(!is_double_quote(token[0]));
        assert(s.skip(1) =~= more + seq!['"'] + rest);
        assert(seq![token[0]] + more =~= token);
    }
}

/// A token in double quotes is read as it is. Left out are tokens with double
/// quotes, dollar signs or backticks, which PowerShell does not take for
/// themselves there.
pub proof fn law_token_in_double_quotes_is_read(
    a: Seq<char>,
    env: Seq<char>,
    b: Seq<char>,
    c: Seq<char>,
    token: Seq<char>,
    blank: Seq<char>,
    comment: Seq<char>,
)
    requires
        is_assignment(a, env, b, c),
        forall|i: int|
            0 <= i < token.len() ==> #[trigger] token[i] != '"' && token[i] != '$' && token[i] != '`'
                && !('\u{201c}' <= token[i] <= '\u{201e}'),
        is_blank(blank),
        comment.len() > 0 ==> comment[0] == '#',
    ensures
        token_in(
            token_line(a, env, b, c, seq!['"'] + token + seq!['"'] + blank + comment),
        ) == Some(token),
{
    let rest = blank + comment;
    let value = seq!['"'] + token + seq!['"'] + blank + comment;
    lemma_token_line(a, env, b, c, value);
    assert(rest.len() > 0 ==> !is_double_quote(rest[0])) by {
        if blank.len() > 0 {
            assert(is_white_space(blank[0]));
        }
    }
    lemma_read_double(token, rest);
    assert(value.skip(1) =~= token + seq!['"'] + rest);
    law_trim_start_takes_blank_off(blank, comment);
}

/// A line on which more than a comment stands behind the token sets none.
pub proof fn law_longer_line_sets_no_token(
    a: Seq<char>,
    env: Seq<char>,
    b: Seq<char>,
    c: Seq<char>,
    token: Seq<char>,
    blank: Seq<char>,
    more: Seq<char>,
)
    requires
        is_assignment(a, env, b, c),
        forall|i: int|
            0 <= i < token.len() ==> !('\u{2018}' <= #[trigger] token[i] <= '\u{201b}'),
        is_blank(blank),
        more.len() > 0 && !is_white_space(more[0]) && more[0] != '#' && !is_quote(more[0]),
    ensures
        token_in(
            token_line(a, env, b, c, seq!['\''] + quoted(token) + seq!['\''] + blank + more),
        ) is None,
{
    let rest = blank + more;
    let value = seq!['\''] + quoted(token) + seq!['\''] + blank + more;
    lemma_token_line(a, env, b, c, value);
    assert(!is_quote(rest[0])) by {
        if blank.len() > 0 {
            assert(is_white_space(blank[0]));
        }
    }
    law_quoted_value_is_read_back(token, rest);
    assert(value.skip(1) =~= quoted(token) + seq!['\''] + rest);
    law_trim_start_takes_blank_off(blank, more);
}

/// Whether `line` gives the variable of the token a value that begins with a
/// quote.
pub open spec fn is_token_line(
    line: Seq<char>,
    a: Seq<char>,
    env: Seq<char>,
    b: Seq<char>,
    c: Seq<char>,
    value: Seq<char>,
) -> bool {
    &&& is_assignment(a, env, b, c)
    &&& line == token_line(a, env, b, c, value)
    &&& value.len() > 0 && (is_quote(value[0]) || is_double_quote(value[0]))
}

/// No line sets the token but one that gives its variable a quoted value.
pub proof fn law_no_other_line_sets_the_token(line: Seq<char>)
    requires
        token_in(line) is Some,
    ensures
        exists|a: Seq<char>, env: Seq<char>, b: Seq<char>, c: Seq<char>, value: Seq<char>|
            #[trigger] is_token_line(line, a, env, b, c, value),
{
    reveal_strlit("$env:");
    let name = "PWSH_HISTORY_TOKEN"@;
    let t = trimmed_start(line);
    law_trim_start_parts(line);
    let env = t.take(5);
    assert(lowered(env) =~= lowered(t).take(5));
    let variable = t.skip(5);
    law_starts_with(name, variable, variable);
    let behind = variable.skip(name.len() as int);
    law_trim_start_parts(behind);
    let equals = trimmed_start(behind);
    law_trim_start_parts(equals.skip(1));
    let value = trimmed_start(equals.skip(1));
    let b = start_of(behind);
    let c = start_of(equals.skip(1));
    assert(equals =~= seq!['='] + equals.skip(1));
    assert(t =~= env + variable);
    assert(line =~= token_line(start_of(line), env, b, c, value));
    assert(is_token_line(line, start_of(line), env, b, c, value));
}

/// A value is read with any quotes around it.
pub proof fn law_values(c: char, s: Seq<char>)
    ensures
        literal_value(seq![]) is None,
        !closes(c, true) && !closes(c, false) ==> literal_value(seq![c] + s) is None,
        closes(c, true) ==> literal_value(seq![c] + s) == match read_literal(s, true) {
            Some((value, rest)) if is_line_rest(rest) => Some(value),
            _ => None,
        },
        closes(c, false) ==> literal_value(seq![c] + s) == match read_literal(s, false) {
            Some((value, rest)) if is_line_rest(rest) => Some(value),
            _ => None,
        },
{
    assert((seq![c] + s).skip(1) =~= s);
    assert((seq![c] + s)[0] == c);
}

/// The last line of a profile that sets the token counts: what a later part of
/// the profile sets goes before what an earlier part does.
pub proof fn law_later_part_counts(a: Seq<char>, b: Seq<char>)
    requires
        is_whole(a),
    ensures
        token_of(b) is Some ==> token_of(a + b) == token_of(b),
        token_of(b) is None ==> token_of(a + b) == token_of(a),
{
    lemma_pieces_append(a, b);
    lemma_contents_append(pieces(a), pieces(b));
    lemma_last_token_append(lines(a), lines(b));
}

/// A profile of one line sets the token that the line sets, however the line
/// ends; an empty profile sets none.
pub proof fn law_token_of_one_line(line: Seq<char>)
    requires
        line.len() > 0,
        is_one_line(line),
    ensures
        token_of(seq![]) is None,
        token_of(line) == token_in(line),
        token_of(line + seq!['\r', '\n']) == token_in(line),
        line.last() != '\r' ==> token_of(line + seq!['\n']) == token_in(line),
{
    let crlf = line + seq!['\r', '\n'];
    let lf = line + seq!['\n'];
    law_line_endings(line);
    assert(is_piece(line));
    assert(is_piece(lf));
    assert(is_piece(crlf)) by {
        assert forall|i: int| 0 <= i < crlf.len() - 1 implies #[trigger] crlf[i] != '\n' by {
            if i < line.len() {
                assert(crlf[i] == line[i]);
            }
        }
    }
    lemma_pieces_of_one(line);
    lemma_pieces_of_one(lf);
    lemma_pieces_of_one(crlf);
    assert(lines(line) =~= seq![content(line)]);
    assert(lines(lf) =~= seq![content(lf)]);
    assert(lines(crlf) =~= seq![content(crlf)]);
    assert(line[line.len() - 1] != '\n');
    lemma_last_token_of_one(line);
}

} // verus!
