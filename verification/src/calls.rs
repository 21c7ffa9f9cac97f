//! What calls of the library give, told on their arguments and results alone.

use vstd::prelude::*;
use vstd::utf8::{
    encode_utf8, encode_utf8_decode_utf8, encode_utf8_valid_utf8, valid_utf8,
};

use axum::http::{HeaderMap, HeaderValue};

use crate::api::{
    accept_command, add_body_format, add_history, body_format, check_token, clean_command,
    now_millis, parse_add_body, plan_add, require_auth, search_history, search_limit, timestamp, told_by_clock,
    AddRequest, Added, ApiError, BodyFormat, SearchQuery,
};
use crate::api_laws::{
    has_header, is_json, law_json_request, law_limits, law_low_bits, law_plan_holds_what_is_added,
    law_request_without_token_is_refused, law_text_request, law_token_is_in_either_header,
    lemma_format,
};
use crate::config::{
    asked, default_db_path, default_route_url, default_url_for_addr, defaults, find_token, home_dir,
    optional_setting, parse_args, parse_port, port_number, startup_config, url_for_host, Asked, BindAddr,
    CommandLine, Config, ConfigError, Environment, HostIp, Options, Startup,
};
use crate::config_laws::{
    law_answers, law_database, law_database_path, law_db_option, law_empty_command_line,
    law_help_option, law_home, law_host_url, law_install_option, law_missing_value, law_port_option,
    law_ports, law_printed_settings, law_setting, law_settings,
    law_token_of_the_command_line_counts_first, law_token_of_the_profile_counts_next,
    law_token_option, law_unknown_argument, law_url_of_an_address,
};
use crate::install::{
    current_user_current_host_profile, install_paths, law_printed_path, law_setup_paths,
    needs_write, new_profile, profile_path, FileText, InstallPaths,
};
use crate::like::{escape_like, escaped, law_pattern_by_characters};
use crate::line_facts::{
    has_no_crlf, is_one_line, is_piece, lemma_concat_pieces, lemma_pieces_append,
    lemma_pieces_are_pieces, lemma_pieces_have_no_crlf, lemma_pieces_of_one,
};
use crate::profile::{
    cleaned, is_pwsh_history_source_line, is_source, last_token, managed_block, managed_profile_block,
    profile_token, ps_single_quote, quoted, remove_managed_profile_blocks, token_in, token_of,
    update_profile_content, updated,
};
use crate::profile_laws::{
    is_block, is_plain, law_block_is_replaced_in_place, law_plain_settings_hold_no_marker,
    law_unmarked_profile_is_kept, law_update_twice_is_update_once, lemma_contents_append,
    lemma_ended_contents, no_markers, no_source,
};
use crate::store::{
    add_plan, create_table, migrations, search_plan, AddPlan, Migration, SearchPlan,
    COUNT_CWD_COLUMNS,
};
use crate::text::{
    closed, content, contents, decimal, ended, ends_line, is_white_space, is_whole, lines, lowered,
    pieces, terminated, texts, trim, trim_start,
};
use crate::text_laws::{
    is_bare, is_blank, law_blank_is_trimmed_away, law_starts_with, law_trim_start_takes_blank_off,
    law_trim_takes_blank_off,
};
use crate::token::{generate_token, hex_encode, is_random, law_hex_digits};
use crate::token_line_laws::{
    is_assignment, law_later_part_counts, law_token_in_double_quotes_is_read,
    law_token_in_single_quotes_is_read, law_token_of_one_line, token_line,
};
use crate::update_laws::{
    is_dot_source, law_block_stands_last, law_block_stands_right_before_the_source, law_block_text,
    law_source_line_is_told, law_told_source_line,
};

verus! {

// Profiles.

/// A line that dot-sources the client script is told as one, whatever else
/// stands on it, and no other line is.
pub proof fn law_source_lines(
    line: &str,
    res: bool,
    a: Seq<char>,
    w: char,
    x: Seq<char>,
    n: Seq<char>,
    y: Seq<char>,
)
    requires
        call_ensures(is_pwsh_history_source_line, (line,), res),
    ensures
        is_blank(a) && is_white_space(w) && lowered(n) == "pwsh-history.ps1"@ && line@ == a + seq![
            '.',
            w,
        ] + x + n + y ==> res,
        res ==> exists|b: Seq<char>, v: char, p: Seq<char>, m: Seq<char>, q: Seq<char>| #[trigger]
            is_dot_source(line@, b, v, p, m, q),
{
    if is_blank(a) && is_white_space(w) && lowered(n) == "pwsh-history.ps1"@ {
        law_source_line_is_told(a, w, x, n, y);
    }
    if res {
        law_told_source_line(line@);
    }
}

/// The lines of a text without carriage returns, put together again.
proof fn lemma_plain_text(text: Seq<char>)
    requires
        has_no_crlf(text),
    ensures
        terminated(lines(text)) == closed(text),
{
    let ps = pieces(text);
    lemma_pieces_are_pieces(text);
    lemma_pieces_have_no_crlf(text);
    lemma_concat_pieces(text);
    if is_whole(text) {
        lemma_ended_contents(ps);
    } else {
        let rest = ps.drop_last();
        let last = ps.last();
        assert forall|i: int| 0 <= i < rest.len() implies is_piece(#[trigger] rest[i]) && ends_line(
            rest[i],
        ) && has_no_crlf(rest[i]) by {
            assert(rest[i] == ps[i]);
        }
        lemma_ended_contents(rest);
        assert(is_piece(ps[ps.len() - 1]));
        assert(last.last() == text.last());
        assert(ended(contents(ps)).drop_last() =~= ended(contents(rest)));
        assert(terminated(lines(text)) =~= text.push('\n'));
    }
}

/// Where a profile without a block has a line that sources the client script,
/// the settings are put right before the first such line, and the script is not
/// sourced once more. The rest of the profile is kept. Left out are profiles
/// with carriage returns before newlines, which go.
pub proof fn law_settings_are_put_before_the_users_source_line(
    current: &str,
    config: &Config,
    script_path: &str,
    res: String,
    before: Seq<char>,
    line: Seq<char>,
    after: Seq<char>,
)
    requires
        call_ensures(update_profile_content, (current, config, script_path), res),
        current@ == before + line + seq!['\n'] + after,
        is_whole(before),
        is_one_line(line),
        is_source(line),
        no_source(lines(before)),
        no_markers(lines(current@)),
        has_no_crlf(current@),
    ensures
        res@ == before + managed_block(*config, script_path@, false) + line + seq!['\n'] + closed(
            after,
        ),
{
    let profile = current@;
    let piece = line + seq!['\n'];
    let tail = piece + after;
    let k = before.len() as int;
    let n = piece.len() as int;
    assert(profile =~= before + tail);
    assert(line.len() > 0);
    assert(is_piece(piece));
    lemma_pieces_append(before, tail);
    lemma_pieces_append(piece, after);
    lemma_pieces_of_one(piece);
    let first = lines(before);
    let second = lines(tail);
    lemma_contents_append(pieces(before), pieces(tail));
    assert(lines(profile) == first + second);
    assert forall|i: int| 0 < i < before.len() && #[trigger] before[i] == '\n' implies before[i - 1]
        != '\r' by {
        assert(profile[i] == before[i] && profile[i - 1] == before[i - 1]);
    }
    assert forall|i: int| 0 < i < tail.len() && #[trigger] tail[i] == '\n' implies tail[i - 1]
        != '\r' by {
        assert(profile[k + i] == tail[i] && profile[k + i - 1] == tail[i - 1]);
    }
    assert(content(piece) == line) by {
        assert(piece.drop_last() =~= line);
        assert(tail[n - 1] == '\n' && tail[n - 2] == line.last());
    }
    assert(second[0] == content(pieces(tail)[0]));
    assert(pieces(tail)[0] == piece);
    assert(profile != seq!['\n']) by {
        assert(profile.len() >= 2);
    }
    law_unmarked_profile_is_kept(profile);
    assert forall|i: int| 0 <= i < lines(profile).len() implies !crate::profile::is_begin(
        #[trigger] lines(profile)[i],
    ) by {
        assert(!crate::profile_laws::is_marker(lines(profile)[i]));
    }
    law_block_stands_right_before_the_source(profile, first, second, *config, script_path@);
    lemma_plain_text(before);
    lemma_plain_text(tail);
    assert(closed(tail) =~= piece + closed(after)) by {
        if after.len() > 0 {
            assert(tail.last() == after.last());
        } else {
            assert(tail =~= piece);
        }
    }
    let block = managed_block(*config, script_path@, false);
    assert(before + block + (piece + closed(after)) =~= before + block + line + seq!['\n'] + closed(
        after,
    ));
}

/// Where a profile has neither a block nor a line that sources the client
/// script, the block with such a line is appended behind an empty line. Left
/// out are blank profiles, of which nothing is kept, and profiles with
/// carriage returns before newlines, which go.
pub proof fn law_block_is_appended(
    current: &str,
    config: &Config,
    script_path: &str,
    res: String,
)
    requires
        call_ensures(update_profile_content, (current, config, script_path), res),
        !is_blank(current@),
        no_source(lines(current@)),
        no_markers(lines(current@)),
        has_no_crlf(current@),
    ensures
        res@ == closed(current@) + seq!['\n'] + managed_block(*config, script_path@, true),
{
    let profile = current@;
    assert(profile != seq!['\n']) by {
        if profile == seq!['\n'] {
            assert(is_blank(profile));
        }
    }
    law_unmarked_profile_is_kept(profile);
    assert forall|i: int| 0 <= i < lines(profile).len() implies !crate::profile::is_begin(
        #[trigger] lines(profile)[i],
    ) by {
        assert(!crate::profile_laws::is_marker(lines(profile)[i]));
    }
    law_block_stands_last(profile, *config, script_path@);
    let block = managed_block(*config, script_path@, true);
    assert(closed(profile) + seq!['\n'] + block =~= if ends_line(profile) {
        profile + seq!['\n'] + block
    } else {
        profile + seq!['\n', '\n'] + block
    });
}

/// A block in a profile is replaced where it stands; what stands before and
/// behind it is kept to the last character. Left out are profiles with a line
/// before the block that sources the client script, and with further markers.
pub proof fn law_block_is_replaced(
    current: &str,
    config: &Config,
    script_path: &str,
    res: String,
    before: Seq<char>,
    block: Seq<char>,
    after: Seq<char>,
)
    requires
        call_ensures(update_profile_content, (current, config, script_path), res),
        current@ == before + block + after,
        is_whole(before),
        no_markers(lines(before)),
        no_source(lines(before)),
        is_block(lines(block)),
        is_whole(block) || after.len() == 0,
        no_markers(lines(after)),
    ensures
        res@ == before + managed_block(*config, script_path@, no_source(lines(after))) + after,
{
    law_block_is_replaced_in_place(before, block, after, *config, script_path@);
}

/// Of two updates with the same settings the second changes nothing. Left out
/// are settings with a newline.
pub proof fn law_second_update_changes_nothing(
    current: &str,
    config: &Config,
    script_path: &str,
    first: String,
    again: &str,
    second: String,
)
    requires
        call_ensures(update_profile_content, (current, config, script_path), first),
        again@ == first@,
        call_ensures(update_profile_content, (again, config, script_path), second),
        is_plain(*config, script_path@),
    ensures
        second@ == first@,
{
    law_plain_settings_hold_no_marker(
        *config,
        script_path@,
        !crate::profile::sources_script(current@),
    );
    law_update_twice_is_update_once(current@, *config, script_path@);
}

/// What a removal leaves is what the profile has outside its blocks.
pub proof fn law_removals(current: &str, res: String)
    requires
        call_ensures(remove_managed_profile_blocks, (current,), res),
    ensures
        res@ == cleaned(current@),
        no_markers(lines(current@)) && has_no_crlf(current@) && current@ != seq!['\n'] ==> res@
            == current@,
{
    if no_markers(lines(current@)) && has_no_crlf(current@) && current@ != seq!['\n'] {
        law_unmarked_profile_is_kept(current@);
    }
}

/// A block holds the four settings, with their quotes doubled, and with
/// `with_source` the script behind them.
pub proof fn law_blocks(
    config: &Config,
    script_path: &str,
    with_source: bool,
    res: String,
)
    requires
        call_ensures(managed_profile_block, (config, script_path, with_source), res),
    ensures
        ({
            let settings = "# >>> pwsh-history-server >>>"@ + "\n"@ + "$env:PWSH_HISTORY_DB = '"@
                + quoted(config.db_path@) + "'\n"@ + "$env:PWSH_HISTORY_TOKEN = '"@ + quoted(
                config.token@,
            ) + "'\n"@ + "$env:PWSH_HISTORY_BIND = '"@ + quoted(config.bind@) + "'\n"@
                + "$env:PWSH_HISTORY_URL = '"@ + quoted(config.url@) + "'\n"@;
            &&& !with_source ==> res@ == settings + "# <<< pwsh-history-server <<<"@ + "\n"@
            &&& with_source ==> res@ == settings + ". '"@ + quoted(script_path@) + "'\n"@
                + "# <<< pwsh-history-server <<<"@ + "\n"@
        }),
{
    law_block_text(*config, script_path@);
}

/// Quoting a value and one more character doubles the character if it is a
/// quote, and appends it as it is otherwise.
pub proof fn law_quoting(
    value: &str,
    res: String,
    longer: &str,
    more: String,
    c: char,
)
    requires
        call_ensures(ps_single_quote, (value,), res),
        call_ensures(ps_single_quote, (longer,), more),
        longer@ == value@.push(c),
    ensures
        value@.len() == 0 ==> res@.len() == 0,
        c == '\'' ==> more@ == res@ + seq!['\'', '\''],
        c != '\'' ==> more@ == res@.push(c),
{
    crate::update_laws::law_quoted(value@, c);
    if value@.len() == 0 {
        assert(value@ =~= seq![]);
    }
}

/// The token of a profile is the one on the last line that sets it, in single
/// or in double quotes, wherever in the profile that line stands.
pub proof fn law_profile_tokens(
    profile: &str,
    res: Option<String>,
    before: Seq<char>,
    a: Seq<char>,
    env: Seq<char>,
    b: Seq<char>,
    c: Seq<char>,
    value: Seq<char>,
    token: Seq<char>,
    after: Seq<char>,
)
    requires
        call_ensures(profile_token, (profile,), res),
        profile@ == before + token_line(a, env, b, c, value) + seq!['\n'] + after,
        is_whole(before),
        is_assignment(a, env, b, c),
        is_one_line(token_line(a, env, b, c, value)),
        token_of(after) is None,
        value == seq!['\''] + quoted(token) + seq!['\''] && (forall|i: int|
            0 <= i < token.len() ==> !('\u{2018}' <= #[trigger] token[i] <= '\u{201b}')) || value
            == seq!['"'] + token + seq!['"'] && (forall|i: int|
            0 <= i < token.len() ==> #[trigger] token[i] != '"' && token[i] != '$' && token[i]
                != '`' && !('\u{201c}' <= token[i] <= '\u{201e}')),
    ensures
        res matches Some(found) && found@ == token,
{
    let line = token_line(a, env, b, c, value);
    let none = Seq::<char>::empty();
    if value == seq!['\''] + quoted(token) + seq!['\''] && (forall|i: int|
        0 <= i < token.len() ==> !('\u{2018}' <= #[trigger] token[i] <= '\u{201b}')) {
        law_token_in_single_quotes_is_read(a, env, b, c, token, none, none);
        assert(seq!['\''] + quoted(token) + seq!['\''] + none + none =~= value);
    } else {
        law_token_in_double_quotes_is_read(a, env, b, c, token, none, none);
        assert(seq!['"'] + token + seq!['"'] + none + none =~= value);
    }
    let piece = line + seq!['\n'];
    assert(line.last() == value.last());
    law_token_of_one_line(line);
    law_later_part_counts(before, piece + after);
    law_later_part_counts(piece, after);
    assert(profile@ =~= before + (piece + after));
}

/// A profile in which no line sets the token has none.
pub proof fn law_profiles_without_token(profile: &str, res: Option<String>)
    requires
        call_ensures(profile_token, (profile,), res),
        forall|i: int| 0 <= i < lines(profile@).len() ==> token_in(#[trigger] lines(profile@)[i])
            is None,
    ensures
        res is None,
{
    lemma_no_token_line(lines(profile@));
}

proof fn lemma_no_token_line(ls: Seq<Seq<char>>)
    requires
        forall|i: int| 0 <= i < ls.len() ==> token_in(#[trigger] ls[i]) is None,
    ensures
        last_token(ls) is None,
    decreases ls.len(),
{
    if ls.len() > 0 {
        let rest = ls.drop_last();
        assert forall|i: int| 0 <= i < rest.len() implies token_in(#[trigger] rest[i]) is None by {
            assert(rest[i] == ls[i]);
        }
        assert(token_in(ls[ls.len() - 1]) is None);
        lemma_no_token_line(rest);
    }
}

// Requests.

/// A limit from 1 to 500 is kept; beyond, the nearer end is taken, and 100 where
/// none is asked for.
pub proof fn law_search_limits(limit: Option<i64>, res: i64)
    requires
        call_ensures(search_limit, (limit,), res),
    ensures
        limit is None ==> res == 100,
        limit matches Some(n) ==> (1 <= n <= 500 ==> res == n) && (n < 1 ==> res == 1) && (n > 500
            ==> res == 500),
{
}

/// A search with the token is planned with the limit and the directory that it
/// asks for, and with a pattern made of its prefix; without the token it is
/// refused.
pub proof fn law_searches(
    headers: &HeaderMap<HeaderValue>,
    token: &str,
    query: &SearchQuery,
    res: Result<SearchPlan, ApiError>,
)
    requires
        call_ensures(search_history, (headers, token, query), res),
    ensures
        has_header(*headers, "authorization"@, "Bearer "@ + token@) || has_header(
            *headers,
            "x-pwsh-history-token"@,
            token@,
        ) ==> {
            &&& res is Ok
            &&& query.limit is None ==> res->Ok_0.limit == 100
            &&& query.limit matches Some(n) ==> (1 <= n <= 500 ==> res->Ok_0.limit == n) && (n < 1
                ==> res->Ok_0.limit == 1) && (n > 500 ==> res->Ok_0.limit == 500)
            &&& res->Ok_0.cwd is None <==> query.cwd is None
            &&& query.cwd matches Some(dir) ==> res->Ok_0.cwd matches Some(wanted) && wanted@
                == dir@
            &&& res->Ok_0.pattern@ == escaped(query.prefix@) + seq!['%']
            &&& res->Ok_0.statement@
                == "SELECT id, command, cwd, last_seen_at, use_count
FROM history
WHERE command LIKE ?1 ESCAPE '\\'
    AND (?2 IS NULL OR cwd = ?2)
ORDER BY last_seen_at DESC, id DESC
LIMIT ?3"@
        },
        !has_header(*headers, "authorization"@, "Bearer "@ + token@) && !has_header(
            *headers,
            "x-pwsh-history-token"@,
            token@,
        ) ==> (res matches Err(error) && error.status == 401 && error.message@
            == "unauthorized"@),
{
    law_token_is_in_either_header(*headers, token@);
    law_pattern_by_characters(query.prefix@, 'a');
}

/// A request passes exactly if it carries the token.
pub proof fn law_authorization(
    headers: &HeaderMap<HeaderValue>,
    token: &str,
    res: Result<(), ApiError>,
)
    requires
        call_ensures(require_auth, (headers, token), res),
    ensures
        res is Ok <==> has_header(*headers, "authorization"@, "Bearer "@ + token@) || has_header(
            *headers,
            "x-pwsh-history-token"@,
            token@,
        ),
        res matches Err(error) ==> error.status == 401 && error.message@ == "unauthorized"@,
{
    law_token_is_in_either_header(*headers, token@);
}

/// One of two header values has to carry the token, the first behind the word
/// `Bearer` and a space.
pub proof fn law_header_values(
    authorization: Option<&str>,
    custom: Option<&str>,
    token: &str,
    res: Result<(), ApiError>,
)
    requires
        call_ensures(check_token, (authorization, custom, token), res),
    ensures
        res is Ok <==> (authorization matches Some(value) && value@ == "Bearer "@ + token@) || (
        custom matches Some(value) && value@ == token@),
        res matches Err(error) ==> error.status == 401 && error.message@ == "unauthorized"@,
{
}

/// Exactly the content types that begin with the one of JSON stand for it.
pub proof fn law_body_formats(content_type: Option<&str>, res: BodyFormat, rest: Seq<char>)
    requires
        call_ensures(body_format, (content_type,), res),
    ensures
        content_type is None ==> res is Text,
        content_type matches Some(text) ==> (text@ == "application/json"@ + rest ==> res is Json)
            && (res is Json ==> text@ == "application/json"@ + text@.skip(16)),
{
    reveal_strlit("application/json");
    if let Some(text) = content_type {
        law_starts_with("application/json"@, rest, text@);
    }
}

/// A body is read as JSON exactly if the content type says so.
pub proof fn law_format_of_a_request(headers: &HeaderMap<HeaderValue>, res: BodyFormat)
    requires
        call_ensures(add_body_format, (headers,), res),
    ensures
        res is Json <==> is_json(*headers),
{
    lemma_format(*headers);
}

/// The plan for a command and a time of the clock holds both, and the directory,
/// as they are.
pub proof fn law_plans(
    command: String,
    cwd: Option<String>,
    clock: Result<u128, String>,
    res: Result<AddPlan, ApiError>,
)
    requires
        call_ensures(plan_add, (command, cwd, clock), res),
    ensures
        clock matches Ok(millis) ==> {
            &&& res is Ok
            &&& res->Ok_0.statement@
                == "INSERT INTO history(command, cwd, first_seen_at, last_seen_at, use_count)
VALUES (?1, ?2, ?3, ?3, 1)
ON CONFLICT(command) DO UPDATE SET
    cwd = excluded.cwd,
    last_seen_at = excluded.last_seen_at,
    use_count = history.use_count + 1"@
            &&& res->Ok_0.command@ == command@
            &&& res->Ok_0.cwd is None <==> cwd is None
            &&& cwd matches Some(dir) ==> res->Ok_0.cwd matches Some(kept) && kept@ == dir@
            &&& (millis - res->Ok_0.now) % 0x1_0000_0000_0000_0000 == 0
            &&& millis < 0x8000_0000_0000_0000 ==> res->Ok_0.now == millis
        },
        clock matches Err(reason) ==> (res matches Err(error) && error.status == 500
            && error.message@ == reason@),
{
    if let Ok(millis) = clock {
        law_low_bits(millis);
    }
}

/// Whether `res` is the plan to add `command`, run from `cwd`, at the time that
/// `clock` tells, or the answer to a clock that does not tell it.
pub open spec fn is_plan_at(
    clock: Result<u128, String>,
    command: Seq<char>,
    cwd: Option<String>,
    res: Result<AddPlan, ApiError>,
) -> bool {
    match clock {
        Ok(millis) => {
            &&& res is Ok
            &&& res->Ok_0.command@ == command
            &&& res->Ok_0.cwd is None <==> cwd is None
            &&& cwd matches Some(dir) ==> res->Ok_0.cwd matches Some(kept) && kept@ == dir@
            &&& (millis - res->Ok_0.now) % 0x1_0000_0000_0000_0000 == 0
            &&& millis < 0x8000_0000_0000_0000 ==> res->Ok_0.now == millis
        },
        Err(reason) => res matches Err(error) && error.status == 500 && error.message@ == reason@,
    }
}

/// A command that is sent as JSON with the token is planned without the white
/// space around it, with the directory as it was sent, at a time that the
/// system's clock told.
pub proof fn law_added_json(
    headers: &HeaderMap<HeaderValue>,
    token: &str,
    body: Vec<u8>,
    request: AddRequest,
    res: Result<AddPlan, ApiError>,
    a: Seq<char>,
    command: Seq<char>,
    b: Seq<char>,
)
    requires
        call_ensures(add_history, (headers, token, body, Ok(request)), res),
        has_header(*headers, "authorization"@, "Bearer "@ + token@) || has_header(
            *headers,
            "x-pwsh-history-token"@,
            token@,
        ),
        is_json(*headers),
        is_blank(a),
        is_bare(command),
        is_blank(b),
        request.command@ == a + command + b,
    ensures
        exists|clock: Result<u128, String>| #[trigger]
            told_by_clock(clock) && is_plan_at(clock, command, request.cwd, res),
{
    let json = Ok::<AddRequest, String>(request);
    law_json_request(*headers, token@, body@, json, a, command, b);
    let new = crate::api::added(*headers, token@, body@, json)->Ok_0;
    let clock = choose|clock: Result<u128, String>|
        told_by_clock(clock) && #[trigger] crate::api::planned(new, clock, res);
    law_plan_holds_what_is_added(new, clock, res);
    assert(told_by_clock(clock) && is_plan_at(clock, command, request.cwd, res));
}

/// A command that is sent as text with the token is planned without the white
/// space around it and without a directory, at a time that the system's clock
/// told.
pub proof fn law_added_text(
    headers: &HeaderMap<HeaderValue>,
    token: &str,
    body: Vec<u8>,
    json: Result<AddRequest, String>,
    res: Result<AddPlan, ApiError>,
    a: Seq<char>,
    command: Seq<char>,
    b: Seq<char>,
)
    requires
        call_ensures(add_history, (headers, token, body, json), res),
        has_header(*headers, "authorization"@, "Bearer "@ + token@) || has_header(
            *headers,
            "x-pwsh-history-token"@,
            token@,
        ),
        !is_json(*headers),
        is_blank(a),
        is_bare(command),
        is_blank(b),
        body@ == encode_utf8(a + command + b),
    ensures
        exists|clock: Result<u128, String>| #[trigger]
            told_by_clock(clock) && is_plan_at(clock, command, None, res),
{
    law_text_request(*headers, token@, body@, json, a, command, b);
    let new = Added { command, cwd: None };
    let clock = choose|clock: Result<u128, String>|
        told_by_clock(clock) && #[trigger] crate::api::planned(new, clock, res);
    law_plan_holds_what_is_added(new, clock, res);
    assert(told_by_clock(clock) && is_plan_at(clock, command, None, res));
}

/// A request to add without the token is refused, and so is one without a
/// command.
pub proof fn law_refused_additions(
    headers: &HeaderMap<HeaderValue>,
    token: &str,
    body: Vec<u8>,
    json: Result<AddRequest, String>,
    res: Result<AddPlan, ApiError>,
    a: Seq<char>,
)
    requires
        call_ensures(add_history, (headers, token, body, json), res),
    ensures
        !has_header(*headers, "authorization"@, "Bearer "@ + token@) && !has_header(
            *headers,
            "x-pwsh-history-token"@,
            token@,
        ) ==> (res matches Err(error) && error.status == 401 && error.message@
            == "unauthorized"@),
        (has_header(*headers, "authorization"@, "Bearer "@ + token@) || has_header(
            *headers,
            "x-pwsh-history-token"@,
            token@,
        )) && is_json(*headers) ==> {
            &&& json matches Err(reason) ==> (res matches Err(error) && error.status == 400
                && error.message@ == "invalid json body: "@ + reason@)
            &&& (json matches Ok(request) && is_blank(request.command@)) ==> (res matches Err(error)
                && error.status == 400 && error.message@ == "command is empty"@)
        },
        (has_header(*headers, "authorization"@, "Bearer "@ + token@) || has_header(
            *headers,
            "x-pwsh-history-token"@,
            token@,
        )) && !is_json(*headers) && is_blank(a) && body@ == encode_utf8(a) ==> (res matches Err(
            error,
        ) && error.status == 400 && error.message@ == "command is empty"@),
{
    let none = Seq::<char>::empty();
    let x = seq!['x'];
    if !has_header(*headers, "authorization"@, "Bearer "@ + token@) && !has_header(
        *headers,
        "x-pwsh-history-token"@,
        token@,
    ) {
        law_request_without_token_is_refused(*headers, token@, body@, json);
    } else if is_json(*headers) {
        law_json_request(*headers, token@, body@, json, none, x, none);
    } else if is_blank(a) {
        law_text_request(*headers, token@, body@, json, a, x, none);
    }
}

/// The time is one that the system's clock told.
pub proof fn law_times(res: Result<i64, ApiError>)
    requires
        call_ensures(now_millis, (), res),
    ensures
        exists|clock: Result<u128, String>| #[trigger]
            told_by_clock(clock) && match clock {
                Ok(millis) => res is Ok && (millis - res->Ok_0) % 0x1_0000_0000_0000_0000 == 0 && (
                millis < 0x8000_0000_0000_0000 ==> res->Ok_0 == millis),
                Err(reason) => res matches Err(error) && error.status == 500 && error.message@
                    == reason@,
            },
{
    let clock = choose|clock: Result<u128, String>| #[trigger]
        told_by_clock(clock) && match clock {
            Ok(millis) => res matches Ok(time) && time == crate::api::low_bits(millis),
            Err(reason) => res matches Err(error) && crate::api::refusal(error) == (
                500u16,
                reason@,
            ),
        };
    if let Ok(millis) = clock {
        law_low_bits(millis);
    }
    assert(told_by_clock(clock));
}

/// A text is escaped character by character.
pub proof fn law_escapes(value: &str, res: String, longer: &str, more: String, c: char)
    requires
        call_ensures(escape_like, (value,), res),
        call_ensures(escape_like, (longer,), more),
        longer@ == value@.push(c),
    ensures
        value@.len() == 0 ==> res@.len() == 0,
        c == '\\' || c == '%' || c == '_' ==> more@ == res@ + seq!['\\', c],
        c != '\\' && c != '%' && c != '_' ==> more@ == res@ + seq![c],
{
    law_pattern_by_characters(value@, c);
    if value@.len() == 0 {
        assert(value@ =~= seq![]);
    }
}

/// A command is a text without the white space around it; a blank text holds
/// none.
pub proof fn law_commands(
    text: &str,
    res: Result<String, ApiError>,
    a: Seq<char>,
    command: Seq<char>,
    b: Seq<char>,
)
    requires
        call_ensures(clean_command, (text,), res),
        is_blank(a),
        is_bare(command),
        is_blank(b),
    ensures
        text@ == a + command + b ==> (res matches Ok(found) && found@ == command),
        text@ == a ==> (res matches Err(error) && error.status == 400 && error.message@
            == "command is empty"@),
{
    law_trim_takes_blank_off(a, command, b);
    law_blank_is_trimmed_away(a);
}

/// A command that is sent as JSON with the token is accepted without the white
/// space around it, with the directory as it was sent.
pub proof fn law_accepted_json(
    headers: &HeaderMap<HeaderValue>,
    token: &str,
    body: Vec<u8>,
    request: AddRequest,
    res: Result<AddRequest, ApiError>,
    a: Seq<char>,
    command: Seq<char>,
    b: Seq<char>,
)
    requires
        call_ensures(accept_command, (headers, token, body, Ok(request)), res),
        has_header(*headers, "authorization"@, "Bearer "@ + token@) || has_header(
            *headers,
            "x-pwsh-history-token"@,
            token@,
        ),
        is_json(*headers),
        is_blank(a),
        is_bare(command),
        is_blank(b),
        request.command@ == a + command + b,
    ensures
        res is Ok,
        res->Ok_0.command@ == command,
        res->Ok_0.cwd is None <==> request.cwd is None,
        request.cwd matches Some(dir) ==> res->Ok_0.cwd matches Some(kept) && kept@ == dir@,
{
    law_json_request(*headers, token@, body@, Ok(request), a, command, b);
}

/// A body is read as it is: as JSON what it holds, and as text the command that
/// it encodes, without a directory.
pub proof fn law_read_bodies(
    headers: &HeaderMap<HeaderValue>,
    body: Vec<u8>,
    json: Result<AddRequest, String>,
    res: Result<AddRequest, ApiError>,
    text: Seq<char>,
)
    requires
        call_ensures(parse_add_body, (headers, body, json), res),
    ensures
        is_json(*headers) ==> {
            &&& json matches Ok(request) ==> res is Ok && res->Ok_0.command@ == request.command@ && (
            res->Ok_0.cwd is None <==> request.cwd is None) && (request.cwd matches Some(dir)
                ==> res->Ok_0.cwd matches Some(kept) && kept@ == dir@)
            &&& json matches Err(reason) ==> (res matches Err(error) && error.status == 400
                && error.message@ == "invalid json body: "@ + reason@)
        },
        !is_json(*headers) && body@ == encode_utf8(text) ==> res is Ok && res->Ok_0.command@ == text
            && res->Ok_0.cwd is None,
        !is_json(*headers) && !valid_utf8(body@) ==> (res matches Err(error) && error.status == 400),
{
    lemma_format(*headers);
    if body@ == encode_utf8(text) {
        encode_utf8_valid_utf8(text);
        encode_utf8_decode_utf8(text);
    }
}

/// A clock's milliseconds are kept as a signed number of 64 bits.
pub proof fn law_timestamps(clock: Result<u128, String>, res: Result<i64, ApiError>)
    requires
        call_ensures(timestamp, (clock,), res),
    ensures
        clock matches Ok(millis) ==> res is Ok && (millis - res->Ok_0) % 0x1_0000_0000_0000_0000
            == 0 && (millis < 0x8000_0000_0000_0000 ==> res->Ok_0 == millis),
        clock matches Err(reason) ==> (res matches Err(error) && error.status == 500
            && error.message@ == reason@),
{
    if let Ok(millis) = clock {
        law_low_bits(millis);
    }
}

// The database.

/// A plan to add holds its command, directory and time as they are.
pub proof fn law_addition_plans(command: String, cwd: Option<String>, now: i64, res: AddPlan)
    requires
        call_ensures(add_plan, (command, cwd, now), res),
    ensures
        res.command@ == command@,
        res.cwd is None <==> cwd is None,
        cwd matches Some(dir) ==> res.cwd matches Some(kept) && kept@ == dir@,
        res.now == now,
{
}

/// A plan to search holds a pattern made of the prefix, the directory and the
/// limit that are asked for.
pub proof fn law_search_plans(query: &SearchQuery, res: SearchPlan)
    requires
        call_ensures(search_plan, (query,), res),
    ensures
        res.pattern@ == escaped(query.prefix@) + seq!['%'],
        res.cwd is None <==> query.cwd is None,
        query.cwd matches Some(dir) ==> res.cwd matches Some(kept) && kept@ == dir@,
        query.limit is None ==> res.limit == 100,
        query.limit matches Some(n) ==> (1 <= n <= 500 ==> res.limit == n) && (n < 1 ==> res.limit
            == 1) && (n > 500 ==> res.limit == 500),
{
    law_pattern_by_characters(query.prefix@, 'a');
    if let Some(n) = query.limit {
        law_limits(n);
    }
}

/// The statements that the database runs before the server starts: first the
/// table, then, where there is no column of directories to be counted, the one
/// that adds it, then the two indexes.
pub proof fn law_schema(first: Migration, cwd_columns: i64, rest: Vec<Migration>)
    requires
        call_ensures(create_table, (), first),
        call_ensures(migrations, (cwd_columns,), rest),
    ensures
        first.statement@ == "CREATE TABLE IF NOT EXISTS history (
    id INTEGER PRIMARY KEY AUTOINCREMENT,
    command TEXT NOT NULL UNIQUE,
    cwd TEXT,
    first_seen_at INTEGER NOT NULL,
    last_seen_at INTEGER NOT NULL,
    use_count INTEGER NOT NULL DEFAULT 1
);"@,
        COUNT_CWD_COLUMNS@ == "SELECT COUNT(*)
FROM pragma_table_info('history')
WHERE name = 'cwd'"@,
        rest@.len() == if cwd_columns == 0 {
            3int
        } else {
            2
        },
        cwd_columns == 0 ==> rest@[0].statement@
            == "ALTER TABLE history ADD COLUMN cwd TEXT;"@,
        rest@[rest@.len() - 2].statement@ == "CREATE INDEX IF NOT EXISTS idx_history_command
ON history(command);"@,
        rest@[rest@.len() - 1].statement@ == "CREATE INDEX IF NOT EXISTS idx_history_last_seen
ON history(last_seen_at DESC, id DESC);"@,
{
}

// Settings.

/// Whether the command line says `db`, `port`, `token` and `install`.
pub open spec fn says(
    res: Result<CommandLine, ConfigError>,
    db: Option<Seq<char>>,
    port: u16,
    token: Option<Seq<char>>,
    install: bool,
) -> bool {
    &&& res matches Ok(CommandLine::Run(options))
    &&& options.db is None <==> db is None
    &&& options.db matches Some(path) ==> db == Some(path@)
    &&& options.port == port
    &&& options.token is None <==> token is None
    &&& options.token matches Some(text) ==> token == Some(text@)
    &&& options.install == install
}

/// An empty command line says nothing but the default port. Of a command line
/// and the same one with an option behind it, the second says what the option
/// says and otherwise what the first one says.
pub proof fn law_command_lines(
    args: &Vec<String>,
    res: Result<CommandLine, ConfigError>,
    longer: &Vec<String>,
    more: Result<CommandLine, ConfigError>,
    db: Option<Seq<char>>,
    port: u16,
    token: Option<Seq<char>>,
    install: bool,
    value: Seq<char>,
)
    requires
        call_ensures(parse_args, (args,), res),
        call_ensures(parse_args, (longer,), more),
        says(res, db, port, token, install),
    ensures
        args@.len() == 0 ==> db is None && port == 37373 && token is None && !install,
        texts(longer@) == texts(args@).push("--install"@) || texts(longer@) == texts(args@).push(
            "--lazy"@,
        ) ==> says(more, db, port, token, true),
        texts(longer@) == texts(args@).push("--db"@).push(value) ==> says(
            more,
            Some(value),
            port,
            token,
            install,
        ),
        texts(longer@) == texts(args@).push("--token"@).push(value) ==> says(
            more,
            db,
            port,
            Some(value),
            install,
        ),
        texts(longer@) == texts(args@).push("--port"@).push(value) ==> match port_number(value) {
            Some(number) => says(more, db, number, token, install),
            None => more matches Err(ConfigError::InvalidPort(text)) && text@ == value,
        },
        texts(longer@) == texts(args@).push("-h"@) || texts(longer@) == texts(args@).push(
            "--help"@,
        ) ==> (more matches Ok(CommandLine::Help)),
{
    let options = res->Ok_0->Run_0;
    let given = options@;
    let all = texts(args@);
    law_answers(options, options.db->0);
    assert(asked(all, defaults()) == Asked::Run(given));
    law_empty_command_line(defaults());
    if args@.len() == 0 {
        assert(all =~= seq![]);
    }
    law_install_option(all, defaults(), given);
    law_db_option(all, value, defaults(), given);
    law_token_option(all, value, defaults(), given);
    law_help_option(all, defaults(), given);
    match port_number(value) {
        Some(number) => law_port_option(all, value, number, defaults(), given),
        None => law_port_option(all, value, 0, defaults(), given),
    }
}

/// A command line with an argument behind it that is no option, or with an
/// option that lacks its value, is an error.
pub proof fn law_wrong_command_lines(
    args: &Vec<String>,
    res: Result<CommandLine, ConfigError>,
    longer: &Vec<String>,
    more: Result<CommandLine, ConfigError>,
    arg: Seq<char>,
)
    requires
        call_ensures(parse_args, (args,), res),
        call_ensures(parse_args, (longer,), more),
        res matches Ok(CommandLine::Run(_)),
        texts(longer@) == texts(args@).push(arg),
    ensures
        arg == "--db"@ || arg == "--port"@ || arg == "--token"@ ==> (more matches Err(
            ConfigError::MissingValue(text),
        ) && text@ == arg),
        arg != "--db"@ && arg != "--port"@ && arg != "--token"@ && arg != "--install"@ && arg
            != "--lazy"@ && arg != "-h"@ && arg != "--help"@ ==> (more matches Err(
            ConfigError::UnknownArgument(text),
        ) && text@ == arg),
{
    let options = res->Ok_0->Run_0;
    let all = texts(args@);
    assert(asked(all, defaults()) == Asked::Run(options@));
    law_missing_value(all, defaults(), options@);
    if arg != "--db"@ && arg != "--port"@ && arg != "--token"@ && arg != "--install"@ && arg
        != "--lazy"@ && arg != "-h"@ && arg != "--help"@ {
        law_unknown_argument(all, arg, defaults(), options@);
    }
}

/// The settings that the server runs with are those of the command line, with
/// the port on all interfaces.
pub proof fn law_settings_of_a_command_line(
    args: &Vec<String>,
    env: &Environment,
    line: Result<CommandLine, ConfigError>,
    res: Result<Startup, ConfigError>,
)
    requires
        call_ensures(parse_args, (args,), line),
        call_ensures(Config::from_env_and_args, (args, env), res),
    ensures
        line matches Ok(CommandLine::Help) ==> res matches Ok(Startup::Help),
        line matches Err(ConfigError::UnknownArgument(text)) ==> res matches Err(
            ConfigError::UnknownArgument(same),
        ) && same@ == text@,
        line matches Err(ConfigError::MissingValue(text)) ==> res matches Err(
            ConfigError::MissingValue(same),
        ) && same@ == text@,
        line matches Err(ConfigError::InvalidPort(text)) ==> res matches Err(
            ConfigError::InvalidPort(same),
        ) && same@ == text@,
        line matches Ok(CommandLine::Run(options)) ==> !(res matches Ok(Startup::Help)) && (
        res matches Ok(Startup::Serve(config)) ==> {
            &&& config.lazy == options.install
            &&& config.addr.port == options.port
            &&& config.addr.ip.text@ == "0.0.0.0"@ && !config.addr.ip.v6
                && config.addr.ip.unspecified
            &&& config.bind@ == "0.0.0.0:"@ + decimal(options.port as nat)
            &&& env.route is None ==> config.url@ == "http://0.0.0.0:"@ + decimal(
                options.port as nat,
            )
            &&& env.route matches Some(ip) ==> config.url@ == if ip.v6 {
                "http://["@ + ip.text@ + "]:"@ + decimal(options.port as nat)
            } else {
                "http://"@ + ip.text@ + ":"@ + decimal(options.port as nat)
            }
        }),
{
    if let Ok(CommandLine::Run(options)) = line {
        law_answers(options, options.db->0);
        if let Ok(Startup::Serve(config)) = res {
            law_settings(config, options@, *env, config.token@);
        }
    }
}

/// The token is the one of the command line, or else the one that the profile
/// sets, each without the white space around it; only where neither gives one
/// it is made of bytes that the system's source of randomness gave.
pub proof fn law_order_of_tokens(
    args: &Vec<String>,
    env: &Environment,
    line: Result<CommandLine, ConfigError>,
    res: Result<Startup, ConfigError>,
    config: Config,
    a: Seq<char>,
    token: Seq<char>,
    b: Seq<char>,
)
    requires
        call_ensures(parse_args, (args,), line),
        call_ensures(Config::from_env_and_args, (args, env), res),
        line is Ok,
        res == Ok::<Startup, ConfigError>(Startup::Serve(config)),
        is_blank(a),
        is_bare(token),
        is_blank(b),
    ensures
        line->Ok_0 matches CommandLine::Run(options) && {
            &&& (options.token matches Some(own) && own@ == a + token + b) ==> config.token@ == token
            &&& (options.token is None || (options.token matches Some(own) && own@ == a)) ==> {
                &&& (env.profile matches Some(profile) && token_of(profile@) == Some(
                    a + token + b,
                )) ==> config.token@ == token
                &&& (env.profile is None || (env.profile matches Some(profile) && (token_of(
                    profile@,
                ) is None || token_of(profile@) == Some(a)))) ==> is_random(Some(config.token@))
            }
        },
{
    let options = line->Ok_0->Run_0;
    law_answers(options, options.db->0);
    let wanted = options@;
    if let Some(own) = options.token {
        if own@ == a + token + b {
            law_token_of_the_command_line_counts_first(a, token, b, wanted, *env);
        }
    }
    if options.token is None || options.token->0@ == a {
        law_token_of_the_profile_counts_next(a, a, token, b, wanted, *env);
    }
    law_settings(config, wanted, *env, config.token@);
}

/// A server with a path and a token on its command line is started.
pub proof fn law_server_is_started(
    args: &Vec<String>,
    env: &Environment,
    line: Result<CommandLine, ConfigError>,
    res: Result<Startup, ConfigError>,
    options: Options,
)
    requires
        call_ensures(parse_args, (args,), line),
        call_ensures(Config::from_env_and_args, (args, env), res),
        line == Ok::<CommandLine, ConfigError>(CommandLine::Run(options)),
        options.db matches Some(path) && is_bare(path@),
        options.token matches Some(token) && is_bare(token@),
    ensures
        res matches Ok(Startup::Serve(config)) && config.db_path@ == options.db->0@ && config.token@
            == options.token->0@,
{
    let none = Seq::<char>::empty();
    let path = options.db->0@;
    let token = options.token->0@;
    law_answers(options, options.db->0);
    law_setting(none, path, none);
    law_setting(none, token, none);
    assert(none + path + none =~= path);
    assert(none + token + none =~= token);
}

/// The database is where the command line says, or else in the home directory.
pub proof fn law_place_of_the_database(
    args: &Vec<String>,
    env: &Environment,
    line: Result<CommandLine, ConfigError>,
    res: Result<Startup, ConfigError>,
    options: Options,
    a: Seq<char>,
    path: Seq<char>,
    b: Seq<char>,
)
    requires
        call_ensures(parse_args, (args,), line),
        call_ensures(Config::from_env_and_args, (args, env), res),
        line == Ok::<CommandLine, ConfigError>(CommandLine::Run(options)),
        is_blank(a),
        is_bare(path),
        is_blank(b),
    ensures
        (options.db matches Some(own) && own@ == a + path + b) ==> (res matches Ok(
            Startup::Serve(config),
        ) ==> config.db_path@ == path),
        (options.db is None || (options.db matches Some(own) && own@ == a)) ==> {
            &&& env.home is None ==> res == Err::<Startup, ConfigError>(ConfigError::HomeNotSet)
            &&& env.home matches Some(home) ==> {
                &&& is_blank(home@) ==> res == Err::<Startup, ConfigError>(ConfigError::HomeEmpty)
                &&& !is_blank(home@) ==> (res matches Ok(Startup::Serve(config)) ==> config.db_path@
                    == if home@[home@.len() - 1] == '/' {
                    home@ + ".local/share/pwsh-history/history.sqlite3"@
                } else {
                    home@ + "/.local/share/pwsh-history/history.sqlite3"@
                })
            }
        },
{
    law_answers(options, options.db->0);
    if let Ok(Startup::Serve(config)) = res {
        law_database(a, path, b, options@, *env, config, config.token@);
    } else {
        law_database(a, path, b, options@, *env, arbitrary(), arbitrary());
    }
}

/// The settings that options give are told by the options, with a token that is
/// given, or else a fresh one.
pub proof fn law_settings_of_options(
    options: &Options,
    env: &Environment,
    generated: Option<String>,
    res: Result<Config, ConfigError>,
    token: Option<String>,
)
    requires
        call_ensures(Config::from_options, (options, env, generated), res),
        call_ensures(find_token, (options, env), token),
    ensures
        res matches Ok(config) ==> {
            &&& config.lazy == options.install
            &&& config.addr.port == options.port
            &&& config.bind@ == "0.0.0.0:"@ + decimal(options.port as nat)
            &&& token matches Some(given) ==> config.token@ == given@
            &&& token is None ==> (generated matches Some(fresh) && config.token@ == fresh@)
        },
        res == Err::<Config, ConfigError>(ConfigError::NoRandomness) ==> token is None
            && generated is None,
        (token is Some || generated is Some) && (options.db matches Some(path) && is_bare(path@))
            ==> res is Ok,
{
    law_answers(*options, options.db->0);
    if let Ok(config) = res {
        law_settings(config, options@, *env, config.token@);
    }
    if let Some(path) = options.db {
        if is_bare(path@) {
            let none = Seq::<char>::empty();
            law_setting(none, path@, none);
            assert(none + path@ + none =~= path@);
        }
    }
}

/// A value is a setting without the white space around it, and a blank one is
/// none.
pub proof fn law_optional_settings(
    value: &Option<String>,
    res: Option<String>,
    a: Seq<char>,
    p: Seq<char>,
    b: Seq<char>,
)
    requires
        call_ensures(optional_setting, (value,), res),
        is_blank(a),
        is_bare(p),
        is_blank(b),
    ensures
        *value is None ==> res is None,
        *value matches Some(text) ==> (text@ == a + p + b ==> (res matches Some(found) && found@
            == p)) && (text@ == a ==> res is None),
{
    law_setting(a, p, b);
}

/// The home directory is taken as it is set, and has to be set to anything but
/// white space. The database is in it.
pub proof fn law_home_directories(
    home: &Option<String>,
    res: Result<String, ConfigError>,
    db: Result<String, ConfigError>,
)
    requires
        call_ensures(home_dir, (home,), res),
        call_ensures(default_db_path, (home,), db),
    ensures
        *home is None ==> res == Err::<String, ConfigError>(ConfigError::HomeNotSet) && db == Err::<
            String,
            ConfigError,
        >(ConfigError::HomeNotSet),
        *home matches Some(dir) ==> {
            &&& is_blank(dir@) ==> res == Err::<String, ConfigError>(ConfigError::HomeEmpty) && db
                == Err::<String, ConfigError>(ConfigError::HomeEmpty)
            &&& !is_blank(dir@) ==> {
                &&& res is Ok && res->Ok_0@ == dir@
                &&& db is Ok && db->Ok_0@ == if dir@[dir@.len() - 1] == '/' {
                    dir@ + ".local/share/pwsh-history/history.sqlite3"@
                } else {
                    dir@ + "/.local/share/pwsh-history/history.sqlite3"@
                }
            }
        },
{
    law_home(crate::config::opt_text(*home));
    if let Some(dir) = *home {
        if !is_blank(dir@) {
            law_database_path(dir@);
        }
    }
}

/// A URL names the host, in brackets if it is an IPv6 address, and the port; the
/// one of a server on all interfaces names the default route's address, if there
/// is one.
pub proof fn law_urls(
    addr: &BindAddr,
    route: &Option<HostIp>,
    ip: &HostIp,
    port: u16,
    host: String,
    routed: String,
    url: String,
)
    requires
        call_ensures(url_for_host, (ip, port), host),
        call_ensures(default_route_url, (route, port), routed),
        call_ensures(default_url_for_addr, (addr, route), url),
        addr.port == port,
    ensures
        host@ == if ip.v6 {
            "http://["@ + ip.text@ + "]:"@ + decimal(port as nat)
        } else {
            "http://"@ + ip.text@ + ":"@ + decimal(port as nat)
        },
        *route is None ==> routed@ == "http://0.0.0.0:"@ + decimal(port as nat),
        *route == Some(*ip) ==> routed@ == host@,
        addr.ip.unspecified ==> url@ == routed@,
        !addr.ip.unspecified && addr.ip == *ip ==> url@ == host@,
{
    law_host_url(*ip, port);
    law_url_of_an_address(*addr, *route);
}

/// The settings are printed with their names, a line for each.
pub proof fn law_printing(config: &Config, res: String)
    requires
        call_ensures(startup_config, (config,), res),
    ensures
        ({
            let four = "PWSH_HISTORY_DB="@ + config.db_path@ + "\nPWSH_HISTORY_TOKEN="@
                + config.token@ + "\nPWSH_HISTORY_BIND="@ + config.bind@ + "\nPWSH_HISTORY_URL="@
                + config.url@ + "\n"@;
            res@ == if config.lazy {
                four + "PWSH_HISTORY_LAZY=1\n"@
            } else {
                four
            }
        }),
{
    law_printed_settings(*config);
}

/// An error says what is wrong and names what it is about.
pub proof fn law_messages(error: &ConfigError, res: String)
    requires
        call_ensures(ConfigError::message, (error,), res),
    ensures
        *error matches ConfigError::UnknownArgument(text) ==> res@ == "unknown argument: "@ + text@,
        *error matches ConfigError::MissingValue(text) ==> res@ == "missing value for "@ + text@,
        *error matches ConfigError::InvalidPort(text) ==> res@ == "invalid --port: "@ + text@,
        *error is HomeNotSet ==> res@ == "HOME is not set"@,
        *error is HomeEmpty ==> res@ == "HOME is empty"@,
        *error is NoRandomness ==> res@ == "failed to get random bytes for PWSH_HISTORY_TOKEN"@,
{
}

/// Exactly the texts of digits whose number fits are ports.
pub proof fn law_parsed_ports(text: &str, res: Option<u16>)
    requires
        call_ensures(parse_port, (text,), res),
    ensures
        res is Some <==> {
            &&& text@.len() > 0
            &&& forall|i: int| 0 <= i < text@.len() ==> 48 <= #[trigger] text@[i] as int <= 57
            &&& crate::config::number(text@) < 65536
        },
        res matches Some(port) ==> port as int == crate::config::number(text@),
{
    law_ports(text@);
}

/// A token is made of bytes that the system's source of randomness gave.
pub proof fn law_generated_tokens(res: Option<String>)
    requires
        call_ensures(generate_token, (), res),
    ensures
        is_random(
            match res {
                Some(token) => Some(token@),
                None => None,
            },
        ),
{
}

/// Bytes are written in hexadecimal, the digit of the higher half first.
pub proof fn law_encoded_bytes(bytes: &[u8], res: String, i: int)
    requires
        call_ensures(hex_encode, (bytes,), res),
        0 <= i < bytes@.len(),
    ensures
        res@.len() == 2 * bytes@.len(),
        res@[2 * i] == "0123456789abcdef"@[bytes@[i] as int / 16],
        res@[2 * i + 1] == "0123456789abcdef"@[bytes@[i] as int % 16],
{
    law_hex_digits(bytes@, i);
}

// The setup.

/// The profile is the path that PowerShell printed, as it is, without the white
/// space around it.
pub proof fn law_named_profiles(
    output: Vec<u8>,
    res: Option<String>,
    failed: Option<String>,
    a: Seq<char>,
    path: Seq<char>,
    b: Seq<char>,
)
    requires
        call_ensures(current_user_current_host_profile, (true, output), res),
        call_ensures(current_user_current_host_profile, (false, output), failed),
        is_blank(a),
        is_bare(path),
        is_blank(b),
    ensures
        output@ == encode_utf8(a + path + b) ==> (res matches Some(found) && found@ == path),
        output@ == encode_utf8(a) ==> res is None,
        failed is None,
{
    law_printed_path(a, path, b, output@);
}

/// The setup writes to PowerShell's configuration in the home directory.
pub proof fn law_places_of_the_setup(
    home: &Option<String>,
    res: Result<InstallPaths, ConfigError>,
)
    requires
        call_ensures(install_paths, (home,), res),
    ensures
        *home is None ==> res == Err::<InstallPaths, ConfigError>(ConfigError::HomeNotSet),
        *home matches Some(dir) ==> {
            &&& is_blank(dir@) ==> res == Err::<InstallPaths, ConfigError>(ConfigError::HomeEmpty)
            &&& !is_blank(dir@) && dir@[dir@.len() - 1] != '/' ==> {
                &&& res is Ok
                &&& res->Ok_0.powershell_dir@ == dir@ + "/.config/powershell"@
                &&& res->Ok_0.script_path@ == dir@ + "/.config/powershell/pwsh-history.ps1"@
                &&& res->Ok_0.fallback_profile@ == dir@ + "/.config/powershell/profile.ps1"@
            }
            &&& !is_blank(dir@) && dir@[dir@.len() - 1] == '/' ==> {
                &&& res is Ok
                &&& res->Ok_0.powershell_dir@ == dir@ + ".config/powershell"@
                &&& res->Ok_0.script_path@ == dir@ + ".config/powershell/pwsh-history.ps1"@
                &&& res->Ok_0.fallback_profile@ == dir@ + ".config/powershell/profile.ps1"@
            }
        },
{
    law_home(crate::config::opt_text(*home));
    if let Some(dir) = *home {
        if !is_blank(dir@) {
            law_setup_paths(dir@);
        }
    }
}

/// A profile that cannot be read is not written; one that can is updated, and
/// an absent one is taken for an empty one.
pub proof fn law_new_profiles(
    current: &FileText,
    config: &Config,
    script_path: &str,
    res: Option<String>,
    text: &str,
    new: String,
)
    requires
        call_ensures(new_profile, (current, config, script_path), res),
        call_ensures(update_profile_content, (text, config, script_path), new),
    ensures
        *current is Unreadable ==> res is None,
        *current is Absent && text@.len() == 0 ==> (res matches Some(found) && found@ == new@),
        (*current matches FileText::Text(old) && old@ == text@) ==> (res matches Some(found)
            && found@ == new@),
{
    if text@.len() == 0 {
        assert(text@ =~= seq![]);
    }
}

/// The profile to update is the one that PowerShell names, if it names one.
pub proof fn law_profile_paths(paths: &InstallPaths, named: Option<String>, res: String)
    requires
        call_ensures(profile_path, (paths, named), res),
    ensures
        named is None ==> res@ == paths.fallback_profile@,
        named matches Some(path) ==> res@ == path@,
{
}

/// A file is written exactly if it does not hold the text already.
pub proof fn law_writes(current: &FileText, text: &str, res: bool)
    requires
        call_ensures(needs_write, (current, text), res),
    ensures
        !res <==> (*current matches FileText::Text(old) && old@ == text@),
{
}

/// White space around a text is taken off, and nothing else.
pub proof fn law_trims(
    text: &str,
    both: String,
    start: String,
    a: Seq<char>,
    p: Seq<char>,
    b: Seq<char>,
)
    requires
        call_ensures(trim, (text,), both),
        call_ensures(trim_start, (text,), start),
        text@ == a + p + b,
        is_blank(a),
        is_bare(p),
        is_blank(b),
    ensures
        both@ == p,
        start@ == p + b,
{
    law_trim_takes_blank_off(a, p, b);
    law_trim_start_takes_blank_off(a, p + b);
    assert(a + (p + b) =~= text@);
}

} // verus!
