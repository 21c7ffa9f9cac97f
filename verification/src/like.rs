//! Prefix search with the SQL operator `LIKE ... ESCAPE '\'`.

use vstd::prelude::*;

use crate::text::{lower, lowered, to_chars};

verus! {

/// Whether `c` means more than itself in a pattern.
pub open spec fn is_special(c: char) -> bool {
    c == '\\' || c == '%' || c == '_'
}

/// One character as a pattern that stands for it alone.
pub open spec fn escaped_char(c: char) -> Seq<char> {
    if is_special(c) {
        seq!['\\', c]
    } else {
        seq![c]
    }
}

/// `s` as a pattern that stands for it alone.
pub open spec fn escaped(s: Seq<char>) -> Seq<char>
    decreases s.len(),
{
    if s.len() == 0 {
        seq![]
    } else {
        escaped(s.drop_last()) + escaped_char(s.last())
    }
}

/// The pattern for the texts that begin with `prefix`.
pub open spec fn prefix_pattern(prefix: Seq<char>) -> Seq<char> {
    escaped(prefix).push('%')
}

/// Whether `text LIKE pattern ESCAPE '\'` holds: `%` stands for any
/// characters, `_` for any one, a backslash for the character behind it, and
/// letters stand for themselves in either ASCII case. SQLite takes a pattern
/// and a text to end at their first NUL, and refuses patterns that are longer
/// than a limit it is built with, 50000 bytes unless set otherwise; neither is
/// told here.
pub open spec fn like(pattern: Seq<char>, text: Seq<char>) -> bool
    decreases pattern.len(), text.len(),
{
    if pattern.len() == 0 {
        text.len() == 0
    } else if pattern[0] == '%' {
        like(pattern.skip(1), text) || (text.len() > 0 && like(pattern, text.skip(1)))
    } else if pattern[0] == '\\' {
        pattern.len() >= 2 && text.len() > 0 && lower(pattern[1]) == lower(text[0]) && like(
            pattern.skip(2),
            text.skip(1),
        )
    } else {
        text.len() > 0 && (pattern[0] == '_' || lower(pattern[0]) == lower(text[0])) && like(
            pattern.skip(1),
            text.skip(1),
        )
    }
}

/// Whether `s` holds no NUL.
pub open spec fn has_no_nul(s: Seq<char>) -> bool {
    forall|i: int| 0 <= i < s.len() ==> #[trigger] s[i] != '\0'
}

/// Whether `text` begins with `prefix`, letters taken without their ASCII case.
pub open spec fn begins_with(text: Seq<char>, prefix: Seq<char>) -> bool {
    prefix.len() <= text.len() && lowered(text.take(prefix.len() as int)) == lowered(prefix)
}

proof fn lemma_escaped_first(s: Seq<char>)
    requires
        s.len() > 0,
    ensures
        escaped(s) == escaped_char(s[0]) + escaped(s.skip(1)),
    decreases s.len(),
{
    if s.len() == 1 {
        assert(s.drop_last() =~= Seq::<char>::empty());
        assert(s.skip(1) =~= Seq::<char>::empty());
        assert(escaped(s) =~= escaped_char(s[0]) + escaped(s.skip(1)));
    } else {
        lemma_escaped_first(s.drop_last());
        assert(s.drop_last().skip(1) =~= s.skip(1).drop_last());
        assert(escaped(s) =~= escaped_char(s[0]) + escaped(s.skip(1)));
    }
}

proof fn lemma_percent_matches_all(text: Seq<char>)
    ensures
        like(seq!['%'], text),
    decreases text.len(),
{
    let pattern = seq!['%'];
    if text.len() > 0 {
        lemma_percent_matches_all(text.skip(1));
    }
    assert(pattern.skip(1) =~= Seq::<char>::empty());
    assert(text.len() == 0 ==> like(pattern.skip(1), text));
}

/// The pattern for a prefix matches the texts that begin with the prefix and
/// no others, whatever characters the prefix holds. Left out are prefixes and
/// texts with a NUL.
pub proof fn law_prefix_pattern(prefix: Seq<char>, text: Seq<char>)
    requires
        has_no_nul(prefix),
        has_no_nul(text),
    ensures
        like(prefix_pattern(prefix), text) <==> begins_with(text, prefix),
    decreases prefix.len(),
{
    let pattern = prefix_pattern(prefix);
    if prefix.len() == 0 {
        assert(pattern =~= seq!['%']);
        lemma_percent_matches_all(text);
        assert(lowered(text.take(0)) =~= lowered(prefix));
    } else {
        let rest = prefix.skip(1);
        lemma_escaped_first(prefix);
        if text.len() > 0 {
            assert forall|i: int| 0 <= i < rest.len() implies #[trigger] rest[i] != '\0' by {
                assert(rest[i] == prefix[i + 1]);
            }
            assert forall|i: int| 0 <= i < text.len() - 1 implies #[trigger] text.skip(1)[i]
                != '\0' by {
                assert(text.skip(1)[i] == text[i + 1]);
            }
            law_prefix_pattern(rest, text.skip(1));
            let head = escaped_char(prefix[0]);
            assert(pattern.skip(head.len() as int) =~= prefix_pattern(rest));
            assert(pattern[0] == head[0]);
            assert(is_special(prefix[0]) ==> pattern[1] == prefix[0]);
            if begins_with(text, prefix) {
                assert(lowered(text.take(prefix.len() as int))[0] == lowered(prefix)[0]);
                assert forall|i: int| 0 <= i < rest.len() implies lower(text.skip(1)[i]) == lower(
                    rest[i],
                ) by {
                    assert(lowered(text.take(prefix.len() as int))[i + 1] == lowered(prefix)[i
                        + 1]);
                }
                assert(lowered(text.skip(1).take(rest.len() as int)) =~= lowered(rest));
            } else if lower(text[0]) == lower(prefix[0]) && begins_with(text.skip(1), rest) {
                assert forall|i: int| 0 <= i < prefix.len() implies lower(text[i]) == lower(
                    prefix[i],
                ) by {
                    if i > 0 {
                        assert(lowered(text.skip(1).take(rest.len() as int))[i - 1] == lowered(
                            rest,
                        )[i - 1]);
                    }
                }
                assert(lowered(text.take(prefix.len() as int)) =~= lowered(prefix));
            }
        }
    }
}

/// A command is found by each of its beginnings. Left out are commands with a
/// NUL.
pub proof fn law_found_by_beginning(command: Seq<char>, n: int)
    requires
        0 <= n <= command.len(),
        has_no_nul(command),
    ensures
        like(prefix_pattern(command.take(n)), command),
{
    assert forall|i: int| 0 <= i < n implies #[trigger] command.take(n)[i] != '\0' by {
        assert(command.take(n)[i] == command[i]);
    }
    law_prefix_pattern(command.take(n), command);
}

/// A pattern is made character by character: one that means more than itself
/// gets a backslash, and no other changes; the percent sign that stands for
/// any rest comes last.
pub proof fn law_pattern_by_characters(prefix: Seq<char>, c: char)
    ensures
        escaped(seq![]).len() == 0,
        c == '\\' || c == '%' || c == '_' ==> escaped(prefix.push(c)) == escaped(prefix) + seq![
            '\\',
            c,
        ],
        c != '\\' && c != '%' && c != '_' ==> escaped(prefix.push(c)) == escaped(prefix) + seq![c],
        prefix_pattern(prefix) == escaped(prefix) + seq!['%'],
{
    assert(prefix.push(c).drop_last() =~= prefix);
    assert(prefix_pattern(prefix) =~= escaped(prefix) + seq!['%']);
}

/// Puts a backslash before each character of `value` that `LIKE` would not
/// take literally.
pub fn escape_like(value: &str) -> (res: String)
    ensures
        res@ == escaped(value@),
{
    let chars = to_chars(value);
    let mut res = String::new();
    let mut i: usize = 0;
    while i < chars.len()
        invariant
            i <= chars.len(),
            chars@ == value@,
            res@ == escaped(value@.take(i as int)),
        decreases chars.len() - i,
    {
        let c = chars[i];
        if c == '\\' || c == '%' || c == '_' {
            res.push('\\');
        }
        res.push(c);
        proof {
            let next = value@.take(i + 1);
            assert(next.drop_last() =~= value@.take(i as int));
            assert(res@ =~= escaped(next));
        }
        i += 1;
    }
    assert(value@.take(value@.len() as int) =~= value@);
    res
}

} // verus!
