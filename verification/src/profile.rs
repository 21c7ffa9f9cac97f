//! The block that the server manages in a PowerShell profile.
//!
//! The block is the range of lines from [`PROFILE_BEGIN`] to [`PROFILE_END`].
//! It sets the client's environment and may source the client script. Where a
//! profile has a block, its lines are taken with their endings, so that what
//! stands outside the block can be kept as it is.

use vstd::prelude::*;

use crate::config::{opt_text, Config};
use crate::text::{
    begins, close_text, closed, concat, contains_lowered, content, contents, ends_line,
    ends_with_newline, from_chars, holds_part, is_white_space, join_lines, joined, lines, lowered,
    pieces, push_lines, push_pieces, same, split_lines, split_pieces, starts_with, terminated,
    texts, to_chars, to_lower, trim, trim_start, trimmed, trimmed_start, without_ending,
    without_endings,
};

verus! {

/// The line that opens a managed block.
pub const PROFILE_BEGIN: &'static str = "# >>> pwsh-history-server >>>";

/// The line that closes a managed block.
pub const PROFILE_END: &'static str = "# <<< pwsh-history-server <<<";

/// The file name of the client script.
pub const SCRIPT_NAME: &'static str = "pwsh-history.ps1";

/// `s` as it stands between single quotes in PowerShell: each quote doubled.
pub open spec fn quoted(s: Seq<char>) -> Seq<char>
    decreases s.len(),
{
    if s.len() == 0 {
        seq![]
    } else if s.last() == '\'' {
        quoted(s.drop_last()) + seq!['\'', '\'']
    } else {
        quoted(s.drop_last()).push(s.last())
    }
}

/// How the line begins that gives the environment variable `name` a value.
pub open spec fn setting_head(name: Seq<char>) -> Seq<char> {
    "$env:"@ + name + " = '"@
}

/// The line that gives the environment variable `name` a value.
pub open spec fn setting_line(name: Seq<char>, value: Seq<char>) -> Seq<char> {
    setting_head(name) + quoted(value) + "'\n"@
}

/// The line that sources a script.
pub open spec fn source_line(script_path: Seq<char>) -> Seq<char> {
    ". '"@ + quoted(script_path) + "'\n"@
}

/// What stands between the first and the last line of a managed block.
pub open spec fn block_body(config: Config, script_path: Seq<char>, with_source: bool) -> Seq<char> {
    setting_line("PWSH_HISTORY_DB"@, config.db_path@) + setting_line(
        "PWSH_HISTORY_TOKEN"@,
        config.token@,
    ) + setting_line("PWSH_HISTORY_BIND"@, config.bind@) + setting_line(
        "PWSH_HISTORY_URL"@,
        config.url@,
    ) + if with_source {
        source_line(script_path)
    } else {
        seq![]
    }
}

/// A managed block.
pub open spec fn managed_block(
    config: Config,
    script_path: Seq<char>,
    with_source: bool,
) -> Seq<char> {
    PROFILE_BEGIN@.push('\n') + block_body(config, script_path, with_source) + PROFILE_END@.push(
        '\n',
    )
}

/// Doubles the single quotes of `value`, as PowerShell wants them between
/// single quotes.
pub fn ps_single_quote(value: &str) -> (res: String)
    ensures
        res@ == quoted(value@),
{
    let chars = to_chars(value);
    let mut res = String::new();
    let mut i: usize = 0;
    while i < chars.len()
        invariant
            i <= chars.len(),
            chars@ == value@,
            res@ == quoted(value@.take(i as int)),
        decreases chars.len() - i,
    {
        let c = chars[i];
        if c == '\'' {
            res.push('\'');
        }
        res.push(c);
        proof {
            let next = value@.take(i + 1);
            assert(next.drop_last() =~= value@.take(i as int));
            assert(res@ =~= quoted(next));
        }
        i += 1;
    }
    assert(value@.take(value@.len() as int) =~= value@);
    res
}

/// Appends the line that gives an environment variable a value.
fn push_setting(block: &mut String, name: &str, value: &str)
    ensures
        final(block)@ == old(block)@ + setting_line(name@, value@),
{
    block.append("$env:");
    block.append(name);
    block.append(" = '");
    block.append(ps_single_quote(value).as_str());
    block.append("'\n");
    assert(block@ =~= old(block)@ + setting_line(name@, value@));
}

/// The block for `config`. With `with_source` it also sources the client
/// script, after the environment is set.
pub fn managed_profile_block(config: &Config, script_path: &str, with_source: bool) -> (res: String)
    ensures
        res@ == managed_block(*config, script_path@, with_source),
{
    let mut block = String::new();
    block.append(PROFILE_BEGIN);
    block.push('\n');
    push_setting(&mut block, "PWSH_HISTORY_DB", config.db_path.as_str());
    push_setting(&mut block, "PWSH_HISTORY_TOKEN", config.token.as_str());
    push_setting(&mut block, "PWSH_HISTORY_BIND", config.bind.as_str());
    push_setting(&mut block, "PWSH_HISTORY_URL", config.url.as_str());
    if with_source {
        block.append(". '");
        block.append(ps_single_quote(script_path).as_str());
        block.append("'\n");
    }
    block.append(PROFILE_END);
    block.push('\n');
    assert(block@ =~= managed_block(*config, script_path@, with_source));
    block
}

/// Whether `line` opens a managed block.
pub open spec fn is_begin(line: Seq<char>) -> bool {
    trimmed(line) == PROFILE_BEGIN@
}

/// Whether `line` closes a managed block.
pub open spec fn is_end(line: Seq<char>) -> bool {
    trimmed(line) == PROFILE_END@
}

/// Whether a managed block is open after the lines `ps`: the last marker
/// among them opens one.
pub open spec fn in_block(ps: Seq<Seq<char>>) -> bool
    decreases ps.len(),
{
    if ps.len() == 0 {
        false
    } else if is_begin(content(ps.last())) {
        true
    } else if is_end(content(ps.last())) {
        false
    } else {
        in_block(ps.drop_last())
    }
}

/// The lines of `ps` that belong to no managed block, in their order.
pub open spec fn unmanaged(ps: Seq<Seq<char>>) -> Seq<Seq<char>>
    decreases ps.len(),
{
    if ps.len() == 0 {
        seq![]
    } else if is_begin(content(ps.last())) || is_end(content(ps.last())) || in_block(
        ps.drop_last(),
    ) {
        unmanaged(ps.drop_last())
    } else {
        unmanaged(ps.drop_last()).push(ps.last())
    }
}

/// Where the first managed block begins among `ps`: how many of the lines that
/// belong to no block stand before it. There may be no block.
pub open spec fn block_place(ps: Seq<Seq<char>>) -> Option<nat>
    decreases ps.len(),
{
    if ps.len() == 0 {
        None
    } else if block_place(ps.drop_last()) is Some {
        block_place(ps.drop_last())
    } else if is_begin(content(ps.last())) {
        Some(unmanaged(ps.drop_last()).len())
    } else {
        None
    }
}

/// The lines of a profile that belong to no managed block.
pub open spec fn outside(profile: Seq<char>) -> Seq<char> {
    concat(unmanaged(pieces(profile)))
}

/// A profile without its managed blocks: the other lines with newlines between
/// them. It ends with a newline if the profile did and anything but one empty
/// line is left.
pub open spec fn cleaned(profile: Seq<char>) -> Seq<char> {
    let kept = joined(contents(unmanaged(pieces(profile))));
    if ends_line(profile) && kept.len() > 0 {
        kept.push('\n')
    } else {
        kept
    }
}

/// Whether `line` dot-sources the client script: a dot, white space, and the
/// script's file name in letters of any case.
pub open spec fn is_source(line: Seq<char>) -> bool {
    let t = trimmed_start(line);
    &&& t.len() >= 2
    &&& t[0] == '.'
    &&& is_white_space(t[1])
    &&& holds_part(lowered(t), SCRIPT_NAME@)
}

/// The position of the first of `ls` that dot-sources the client script, or
/// their number.
pub open spec fn source_index(ls: Seq<Seq<char>>) -> nat
    decreases ls.len(),
{
    if ls.len() == 0 || is_source(ls.first()) {
        0
    } else {
        1 + source_index(ls.drop_first())
    }
}

/// How many of the lines `kept`, which belong to no block, stand before the
/// block after an update: those that stood before the first block, but none
/// that sources the client script, nor any behind such a one.
pub open spec fn new_place(place: nat, kept: Seq<Seq<char>>) -> int {
    if place < source_index(contents(kept)) {
        place as int
    } else {
        source_index(contents(kept)) as int
    }
}

/// What stands before the block in a profile that is updated. Where the profile
/// has a block, lines are kept with their endings. Where it has none, it is
/// what stands before the first line that sources the client script; without
/// such a line either it is the whole profile and an empty line, unless the
/// profile is blank.
pub open spec fn before_block(profile: Seq<char>) -> Seq<char> {
    let kept = unmanaged(pieces(profile));
    let text = cleaned(profile);
    let ls = lines(text);
    match block_place(pieces(profile)) {
        Some(place) => concat(kept.take(new_place(place, kept))),
        None => if source_index(ls) < ls.len() {
            terminated(ls.take(source_index(ls) as int))
        } else if trimmed(text).len() == 0 {
            seq![]
        } else {
            closed(text).push('\n')
        },
    }
}

/// What stands behind the block in a profile that is updated.
pub open spec fn behind_block(profile: Seq<char>) -> Seq<char> {
    let kept = unmanaged(pieces(profile));
    let ls = lines(cleaned(profile));
    match block_place(pieces(profile)) {
        Some(place) => concat(kept.skip(new_place(place, kept))),
        None => if source_index(ls) < ls.len() {
            terminated(ls.skip(source_index(ls) as int))
        } else {
            seq![]
        },
    }
}

/// The lines that an update keeps.
pub open spec fn other_lines(profile: Seq<char>) -> Seq<Seq<char>> {
    match block_place(pieces(profile)) {
        Some(_) => contents(unmanaged(pieces(profile))),
        None => lines(cleaned(profile)),
    }
}

/// Whether a line outside the managed blocks sources the client script.
pub open spec fn sources_script(profile: Seq<char>) -> bool {
    source_index(other_lines(profile)) < other_lines(profile).len()
}

/// A profile with its managed blocks replaced by one for `config`, where the
/// first of them stood, or before a line that sources the client script if
/// that stood earlier. The block sources the script itself unless a line
/// outside does. Around a block every other line is kept with its own ending;
/// a profile without one has its lines ended with newlines.
pub open spec fn updated(profile: Seq<char>, config: Config, script_path: Seq<char>) -> Seq<char> {
    before_block(profile) + managed_block(config, script_path, !sources_script(profile))
        + behind_block(profile)
}

/// Whether PowerShell takes `c` for a single quote.
pub open spec fn is_quote(c: char) -> bool {
    c == '\'' || '\u{2018}' <= c <= '\u{201b}'
}

/// Whether PowerShell takes `c` for a double quote.
pub open spec fn is_double_quote(c: char) -> bool {
    c == '"' || '\u{201c}' <= c <= '\u{201e}'
}

/// Whether `c` closes a literal in double or in single quotes.
pub open spec fn is_closing(c: char, double: bool) -> bool {
    if double {
        is_double_quote(c)
    } else {
        is_quote(c)
    }
}

/// What PowerShell reads behind the quote that opens a literal: the value of
/// the literal and what follows it. Two quotes stand for the second of them; a
/// single one closes the literal. Between double quotes a dollar sign or a
/// backtick may stand for something else, and nothing is read.
pub open spec fn read_literal(s: Seq<char>, double: bool) -> Option<(Seq<char>, Seq<char>)>
    decreases s.len(),
{
    if s.len() == 0 {
        None
    } else if is_closing(s[0], double) {
        if s.len() >= 2 && is_closing(s[1], double) {
            match read_literal(s.skip(2), double) {
                Some((value, rest)) => Some((seq![s[1]] + value, rest)),
                None => None,
            }
        } else {
            Some((seq![], s.skip(1)))
        }
    } else if double && (s[0] == '$' || s[0] == '`') {
        None
    } else {
        match read_literal(s.skip(1), double) {
            Some((value, rest)) => Some((seq![s[0]] + value, rest)),
            None => None,
        }
    }
}

/// Whether nothing but white space and a comment is left of a line.
pub open spec fn is_line_rest(s: Seq<char>) -> bool {
    trimmed_start(s).len() == 0 || trimmed_start(s)[0] == '#'
}

/// The value of the literal that `s` begins with, if nothing else follows.
pub open spec fn literal_value(s: Seq<char>) -> Option<Seq<char>> {
    if s.len() > 0 && (is_quote(s[0]) || is_double_quote(s[0])) {
        match read_literal(s.skip(1), is_double_quote(s[0])) {
            Some((value, rest)) if is_line_rest(rest) => Some(value),
            _ => None,
        }
    } else {
        None
    }
}

/// The value that an equals sign at the beginning of `s` assigns.
pub open spec fn assigned(s: Seq<char>) -> Option<Seq<char>> {
    let t = trimmed_start(s);
    if t.len() > 0 && t[0] == '=' {
        literal_value(trimmed_start(t.skip(1)))
    } else {
        None
    }
}

/// The token that `line` sets, if it sets the variable `PWSH_HISTORY_TOKEN` to
/// a literal and does nothing else.
pub open spec fn token_in(line: Seq<char>) -> Option<Seq<char>> {
    let t = trimmed_start(line);
    let name = "PWSH_HISTORY_TOKEN"@;
    if starts_with(lowered(t), "$env:"@) && starts_with(t.skip(5), name) {
        assigned(t.skip(5).skip(name.len() as int))
    } else {
        None
    }
}

/// The token that the last of `ls` sets which sets one.
pub open spec fn last_token(ls: Seq<Seq<char>>) -> Option<Seq<char>>
    decreases ls.len(),
{
    if ls.len() == 0 {
        None
    } else if token_in(ls.last()) is Some {
        token_in(ls.last())
    } else {
        last_token(ls.drop_last())
    }
}

/// The token that a profile sets.
pub open spec fn token_of(profile: Seq<char>) -> Option<Seq<char>> {
    last_token(lines(profile))
}

/// `source_index` is the one position whose line sources the script while no
/// earlier one does.
pub proof fn lemma_source_index(ls: Seq<Seq<char>>, k: int)
    requires
        0 <= k <= ls.len(),
        forall|j: int| 0 <= j < k ==> !is_source(#[trigger] ls[j]),
        k < ls.len() ==> is_source(ls[k]),
    ensures
        source_index(ls) == k,
    decreases k,
{
    if k > 0 {
        assert(!is_source(ls[0]));
        assert forall|j: int| 0 <= j < k - 1 implies !is_source(#[trigger] ls.drop_first()[j]) by {
            assert(ls.drop_first()[j] == ls[j + 1]);
        }
        lemma_source_index(ls.drop_first(), k - 1);
    }
}

/// The lines outside the managed blocks of the lines `all`, and where the
/// first block begins among them.
fn split_unmanaged(all: &Vec<String>) -> (res: (Vec<String>, Option<usize>))
    ensures
        texts(res.0@) == unmanaged(texts(all@)),
        match res.1 {
            Some(place) => block_place(texts(all@)) == Some(place as nat),
            None => block_place(texts(all@)) is None,
        },
        res.1 matches Some(place) ==> place <= res.0.len(),
{
    let ghost ps = texts(all@);
    let mut output: Vec<String> = Vec::new();
    let mut place: Option<usize> = None;
    let mut inside = false;
    let mut i: usize = 0;
    while i < all.len()
        invariant
            i <= all.len(),
            texts(all@) == ps,
            inside == in_block(ps.take(i as int)),
            texts(output@) == unmanaged(ps.take(i as int)),
            match place {
                Some(n) => block_place(ps.take(i as int)) == Some(n as nat) && n <= output.len(),
                None => block_place(ps.take(i as int)) is None,
            },
        decreases all.len() - i,
    {
        let line = without_ending(all[i].as_str());
        let bare = trim(line.as_str());
        let ghost next = ps.take(i + 1);
        proof {
            assert(next.drop_last() =~= ps.take(i as int));
            assert(content(next.last()) == line@);
            assert(texts(output@).len() == output@.len());
        }
        if same(bare.as_str(), PROFILE_BEGIN) {
            inside = true;
            if place.is_none() {
                place = Some(output.len());
            }
        } else if same(bare.as_str(), PROFILE_END) {
            inside = false;
        } else if !inside {
            let ghost before = texts(output@);
            output.push(all[i].as_str().to_owned());
            assert(texts(output@) =~= before.push(ps[i as int]));
        }
        i += 1;
    }
    assert(ps.take(ps.len() as int) =~= ps);
    (output, place)
}

/// The profile `current` without its managed blocks.
pub fn remove_managed_profile_blocks(current: &str) -> (res: String)
    ensures
        res@ == cleaned(current@),
{
    let (kept, _) = split_unmanaged(&split_pieces(current));
    let mut text = join_lines(&without_endings(&kept));
    if ends_with_newline(current) && !text.as_str().is_empty() {
        text.push('\n');
    }
    text
}

/// Whether `line` dot-sources the client script.
pub fn is_pwsh_history_source_line(line: &str) -> (res: bool)
    ensures
        res == is_source(line@),
{
    let bare = trim_start(line);
    let chars = to_chars(bare.as_str());
    let dot_source = chars.len() >= 2 && chars[0] == '.' && chars[1].is_whitespace();
    dot_source && contains_lowered(bare.as_str(), SCRIPT_NAME)
}

/// The position of the first of the lines `all` that dot-sources the client
/// script, or their number.
fn find_source(all: &Vec<String>) -> (res: usize)
    ensures
        res == source_index(texts(all@)),
        res <= all.len(),
{
    let ghost ls = texts(all@);
    let mut k: usize = 0;
    while k < all.len() && !is_pwsh_history_source_line(all[k].as_str())
        invariant
            k <= all.len(),
            texts(all@) == ls,
            forall|j: int| 0 <= j < k ==> !is_source(#[trigger] ls[j]),
        decreases all.len() - k,
    {
        k += 1;
    }
    proof {
        lemma_source_index(ls, k as int);
    }
    k
}

/// The profile `current`, which has no managed block, with one for `config`.
fn insert_block(current: &str, config: &Config, script_path: &str) -> (res: String)
    requires
        block_place(pieces(current@)) is None,
    ensures
        res@ == updated(current@, *config, script_path@),
{
    let mut text = remove_managed_profile_blocks(current);
    let all = split_lines(text.as_str());
    let n: usize = all.len();
    let k = find_source(&all);
    let ghost ls = lines(text@);
    let block = managed_profile_block(config, script_path, k == n);
    let mut output = String::new();
    proof {
        assert(ls.len() == n);
    }
    if k < n {
        push_lines(&mut output, &all, 0, k);
        output.append(block.as_str());
        push_lines(&mut output, &all, k, n);
        proof {
            assert(ls.subrange(0, k as int) =~= ls.take(k as int));
            assert(ls.subrange(k as int, n as int) =~= ls.skip(k as int));
        }
    } else {
        if !trim(text.as_str()).as_str().is_empty() {
            close_text(&mut text);
            text.push('\n');
            output = text;
        }
        output.append(block.as_str());
    }
    assert(output@ =~= updated(current@, *config, script_path@));
    output
}

/// The profile `current` with its managed blocks replaced by one for `config`.
pub fn update_profile_content(current: &str, config: &Config, script_path: &str) -> (res: String)
    ensures
        res@ == updated(current@, *config, script_path@),
{
    let (kept, place) = split_unmanaged(&split_pieces(current));
    let place = match place {
        Some(place) => place,
        None => return insert_block(current, config, script_path),
    };
    let n: usize = kept.len();
    let k = find_source(&without_endings(&kept));
    let at: usize = if place < k {
        place
    } else {
        k
    };
    let ghost ps = texts(kept@);
    proof {
        assert(ps.len() == n);
        assert(contents(ps).len() == n);
    }
    let mut output = String::new();
    push_pieces(&mut output, &kept, 0, at);
    output.append(managed_profile_block(config, script_path, k == n).as_str());
    push_pieces(&mut output, &kept, at, n);
    proof {
        assert(ps.subrange(0, at as int) =~= ps.take(at as int));
        assert(ps.subrange(at as int, n as int) =~= ps.skip(at as int));
        assert(output@ =~= updated(current@, *config, script_path@));
    }
    output
}

/// The value of the literal in double or single quotes that is open at `start`
/// and the position behind the quote that closes it.
fn scan_literal(chars: &Vec<char>, start: usize, double: bool) -> (res: Option<(String, usize)>)
    requires
        start <= chars.len(),
    ensures
        match res {
            Some((value, end)) => end <= chars.len() && read_literal(
                chars@.skip(start as int),
                double,
            ) == Some((value@, chars@.skip(end as int))),
            None => read_literal(chars@.skip(start as int), double) is None,
        },
{
    let ghost all = chars@.skip(start as int);
    let mut value = String::new();
    let mut i: usize = start;
    assert(match read_literal(all, double) {
        Some((v, r)) => value@ + v =~= v,
        None => true,
    });
    while i < chars.len()
        invariant
            start <= i <= chars.len(),
            all == chars@.skip(start as int),
            match read_literal(chars@.skip(i as int), double) {
                Some((v, r)) => read_literal(all, double) == Some((value@ + v, r)),
                None => read_literal(all, double) is None,
            },
        decreases chars.len() - i,
    {
        let ghost rest = chars@.skip(i as int);
        let ghost so_far = value@;
        let c = chars[i];
        assert(rest[0] == c);
        if closes_literal(c, double) {
            if i + 1 < chars.len() && closes_literal(chars[i + 1], double) {
                value.push(chars[i + 1]);
                proof {
                    assert(rest[1] == chars@[i + 1]);
                    assert(rest.skip(2) =~= chars@.skip(i + 2));
                    if let Some((v, r)) = read_literal(chars@.skip(i + 2), double) {
                        assert(so_far + (seq![rest[1]] + v) =~= value@ + v);
                    }
                }
                i += 2;
            } else {
                proof {
                    assert(rest.skip(1) =~= chars@.skip(i + 1));
                    assert(so_far + Seq::<char>::empty() =~= value@);
                }
                return Some((value, i + 1));
            }
        } else if double && (c == '$' || c == '`') {
            return None;
        } else {
            value.push(c);
            proof {
                assert(rest.skip(1) =~= chars@.skip(i + 1));
                if let Some((v, r)) = read_literal(chars@.skip(i + 1), double) {
                    assert(so_far + (seq![rest[0]] + v) =~= value@ + v);
                }
            }
            i += 1;
        }
    }
    None
}

/// Whether PowerShell takes `c` for a single quote.
fn is_single_quote(c: char) -> (res: bool)
    ensures
        res == is_quote(c),
{
    c == '\'' || ('\u{2018}' <= c && c <= '\u{201b}')
}

/// Whether PowerShell takes `c` for a double quote.
fn is_double(c: char) -> (res: bool)
    ensures
        res == is_double_quote(c),
{
    c == '"' || ('\u{201c}' <= c && c <= '\u{201e}')
}

/// Whether `c` closes a literal in double or in single quotes.
fn closes_literal(c: char, double: bool) -> (res: bool)
    ensures
        res == is_closing(c, double),
{
    if double {
        is_double(c)
    } else {
        is_single_quote(c)
    }
}

/// `s` without its first `n` characters.
fn behind(s: &str, n: usize) -> (res: String)
    requires
        n <= s@.len(),
    ensures
        res@ == s@.skip(n as int),
{
    let chars = to_chars(s);
    let res = from_chars(&chars, n, chars.len());
    assert(res@ =~= s@.skip(n as int));
    res
}

/// The value of the literal that `s` begins with, if nothing else follows.
fn read_value(s: &str) -> (res: Option<String>)
    ensures
        opt_text(res) == literal_value(s@),
{
    let chars = to_chars(s);
    if chars.len() == 0 || !(is_single_quote(chars[0]) || is_double(chars[0])) {
        return None;
    }
    match scan_literal(&chars, 1, is_double(chars[0])) {
        Some((value, end)) => {
            let rest = to_chars(trim_start(behind(s, end).as_str()).as_str());
            if rest.len() == 0 || rest[0] == '#' {
                Some(value)
            } else {
                None
            }
        },
        None => None,
    }
}

/// The value that an equals sign at the beginning of `s` assigns.
fn read_assigned(s: &str) -> (res: Option<String>)
    ensures
        opt_text(res) == assigned(s@),
{
    let bare = trim_start(s);
    let chars = to_chars(bare.as_str());
    if chars.len() == 0 || chars[0] != '=' {
        return None;
    }
    read_value(trim_start(behind(bare.as_str(), 1).as_str()).as_str())
}

/// Whether `s` begins with the name of the environment drive, in letters of any
/// case.
fn is_env_variable(s: &str) -> (res: bool)
    ensures
        res == starts_with(lowered(s@), "$env:"@),
{
    let chars = to_chars(s);
    proof {
        reveal_strlit("$env:");
    }
    if chars.len() < 5 {
        return false;
    }
    let res = to_lower(chars[0]) == '$' && to_lower(chars[1]) == 'e' && to_lower(chars[2]) == 'n'
        && to_lower(chars[3]) == 'v' && to_lower(chars[4]) == ':';
    proof {
        let start = lowered(s@).take(5);
        if res {
            assert(start =~= "$env:"@);
        } else if start == "$env:"@ {
            assert(start[0] == '$' && start[1] == 'e' && start[2] == 'n' && start[3] == 'v'
                && start[4] == ':');
        }
    }
    res
}

/// The token that `line` sets, if it sets the variable `PWSH_HISTORY_TOKEN` to
/// a literal and does nothing else.
fn read_token(line: &str) -> (res: Option<String>)
    ensures
        opt_text(res) == token_in(line@),
{
    let bare = trim_start(line);
    if !is_env_variable(bare.as_str()) {
        return None;
    }
    proof {
        reveal_strlit("$env:");
        reveal_strlit("PWSH_HISTORY_TOKEN");
    }
    let variable = behind(bare.as_str(), 5);
    if !begins(variable.as_str(), "PWSH_HISTORY_TOKEN") {
        return None;
    }
    read_assigned(behind(variable.as_str(), 18).as_str())
}

/// The token that `profile` sets, if it does. The last line that does so
/// counts.
pub fn profile_token(profile: &str) -> (res: Option<String>)
    ensures
        opt_text(res) == token_of(profile@),
{
    let all = split_lines(profile);
    let ghost ls = texts(all@);
    let mut token: Option<String> = None;
    let mut i: usize = 0;
    while i < all.len()
        invariant
            i <= all.len(),
            texts(all@) == ls,
            opt_text(token) == last_token(ls.take(i as int)),
        decreases all.len() - i,
    {
        let found = read_token(all[i].as_str());
        proof {
            let next = ls.take(i + 1);
            assert(next.drop_last() =~= ls.take(i as int));
            assert(next.last() == all@[i as int]@);
        }
        if found.is_some() {
            token = found;
        }
        i += 1;
    }
    assert(ls.take(ls.len() as int) =~= ls);
    token
}

} // verus!
