//! Plain text: white space, trimming, lines and decimal numbers.
//!
//! Every function is stated over `Seq<char>`, the view of `&str` and `String`.

use vstd::prelude::*;
use vstd::utf8::{decode_utf8, valid_utf8};

verus! {

/// Whether `c` has the Unicode property White_Space.
pub open spec fn is_white_space(c: char) -> bool {
    let n = c as u32;
    ||| 0x9 <= n <= 0xd
    ||| n == 0x20
    ||| n == 0x85
    ||| n == 0xa0
    ||| n == 0x1680
    ||| 0x2000 <= n <= 0x200a
    ||| n == 0x2028
    ||| n == 0x2029
    ||| n == 0x202f
    ||| n == 0x205f
    ||| n == 0x3000
}

/// `char::is_whitespace` tells the characters with the property White_Space
/// from all others. The list of those characters is Unicode's own.
pub assume_specification[ char::is_whitespace ](c: char) -> (res: bool)
    ensures
        res == is_white_space(c),
;

/// `String::push` appends one character.
pub assume_specification[ String::push ](s: &mut String, c: char)
    ensures
        final(s)@ == old(s)@.push(c),
;

/// The description of the first error in bytes that are not UTF-8.
pub uninterp spec fn utf8_error(bytes: Seq<u8>) -> Seq<char>;

/// `String::from_utf8`: the text that the bytes encode if they are UTF-8, and
/// otherwise an error, here as its description.
#[verifier::external_body]
pub(crate) fn text_from_utf8(bytes: Vec<u8>) -> (res: Result<String, String>)
    ensures
        match res {
            Ok(text) => valid_utf8(bytes@) && text@ == decode_utf8(bytes@),
            Err(error) => !valid_utf8(bytes@) && error@ == utf8_error(bytes@),
        },
{
    String::from_utf8(bytes).map_err(|error| error.to_string())
}

/// `s` without the white space it begins with.
pub open spec fn trimmed_start(s: Seq<char>) -> Seq<char>
    decreases s.len(),
{
    if s.len() > 0 && is_white_space(s.first()) {
        trimmed_start(s.drop_first())
    } else {
        s
    }
}

/// `s` without the white space it ends with.
pub open spec fn trimmed_end(s: Seq<char>) -> Seq<char>
    decreases s.len(),
{
    if s.len() > 0 && is_white_space(s.last()) {
        trimmed_end(s.drop_last())
    } else {
        s
    }
}

/// `s` without the white space around it.
pub open spec fn trimmed(s: Seq<char>) -> Seq<char> {
    trimmed_end(trimmed_start(s))
}

pub proof fn lemma_trimmed_end_keeps_first(s: Seq<char>)
    requires
        s.len() > 0,
        !is_white_space(s[0]),
    ensures
        trimmed_end(s).len() > 0,
        trimmed_end(s)[0] == s[0],
    decreases s.len(),
{
    if is_white_space(s.last()) {
        lemma_trimmed_end_keeps_first(s.drop_last());
    }
}

/// Neither end of a trimmed text is white space.
pub proof fn law_trimmed_ends(s: Seq<char>)
    ensures
        trimmed(s).len() > 0 ==> !is_white_space(trimmed(s).first()) && !is_white_space(
            trimmed(s).last(),
        ),
{
    lemma_trimmed_start_first(s);
    lemma_trimmed_end_last(trimmed_start(s));
    if trimmed_start(s).len() > 0 {
        lemma_trimmed_end_keeps_first(trimmed_start(s));
    }
}

proof fn lemma_trimmed_start_first(s: Seq<char>)
    ensures
        trimmed_start(s).len() > 0 ==> !is_white_space(trimmed_start(s)[0]),
    decreases s.len(),
{
    if s.len() > 0 && is_white_space(s.first()) {
        lemma_trimmed_start_first(s.drop_first());
    }
}

proof fn lemma_trimmed_end_last(s: Seq<char>)
    ensures
        trimmed_end(s).len() > 0 ==> !is_white_space(trimmed_end(s).last()),
    decreases s.len(),
{
    if s.len() > 0 && is_white_space(s.last()) {
        lemma_trimmed_end_last(s.drop_last());
    }
}

/// A trimmed text has nothing more to trim.
pub proof fn law_trim_twice(s: Seq<char>)
    ensures
        trimmed(trimmed(s)) == trimmed(s),
{
    law_trimmed_ends(s);
}

/// The characters of `s`.
pub fn to_chars(s: &str) -> (res: Vec<char>)
    ensures
        res@ == s@,
{
    let mut res: Vec<char> = Vec::new();
    for c in it: s.chars()
        invariant
            it.seq() == s@,
            res@ == s@.take(it.index()),
    {
        res.push(c);
        assert(s@.take(it.index() + 1) =~= s@.take(it.index()).push(c));
    }
    assert(s@.take(s@.len() as int) =~= s@);
    res
}

/// The text made of the characters of `chars` from `from` up to `to`.
pub(crate) fn from_chars(chars: &Vec<char>, from: usize, to: usize) -> (res: String)
    requires
        from <= to <= chars.len(),
    ensures
        res@ == chars@.subrange(from as int, to as int),
{
    let mut res = String::new();
    let mut i: usize = from;
    while i < to
        invariant
            from <= i <= to <= chars.len(),
            res@ == chars@.subrange(from as int, i as int),
        decreases to - i,
    {
        res.push(chars[i]);
        assert(chars@.subrange(from as int, i + 1) =~= chars@.subrange(from as int, i as int).push(
            chars@[i as int],
        ));
        i += 1;
    }
    res
}

/// `s` without the white space it begins with.
pub fn trim_start(s: &str) -> (res: String)
    ensures
        res@ == trimmed_start(s@),
{
    let chars = to_chars(s);
    let n: usize = chars.len();
    let mut i: usize = 0;
    assert(chars@.skip(0) =~= s@);
    while i < n && chars[i].is_whitespace()
        invariant
            i <= n == chars.len(),
            trimmed_start(s@) == trimmed_start(chars@.skip(i as int)),
        decreases n - i,
    {
        assert(chars@.skip(i as int).drop_first() =~= chars@.skip(i + 1));
        i += 1;
    }
    assert(chars@.skip(i as int) =~= chars@.subrange(i as int, n as int));
    from_chars(&chars, i, n)
}

/// `s` without the white space around it.
pub fn trim(s: &str) -> (res: String)
    ensures
        res@ == trimmed(s@),
{
    let chars = to_chars(s);
    let n: usize = chars.len();
    let mut i: usize = 0;
    assert(chars@.skip(0) =~= s@);
    while i < n && chars[i].is_whitespace()
        invariant
            i <= n == chars.len(),
            trimmed_start(s@) == trimmed_start(chars@.skip(i as int)),
        decreases n - i,
    {
        assert(chars@.skip(i as int).drop_first() =~= chars@.skip(i + 1));
        i += 1;
    }
    let mut j: usize = n;
    assert(chars@.skip(i as int) =~= chars@.subrange(i as int, n as int));
    while i < j && chars[j - 1].is_whitespace()
        invariant
            i <= j <= n == chars.len(),
            trimmed(s@) == trimmed_end(chars@.subrange(i as int, j as int)),
        decreases j - i,
    {
        assert(chars@.subrange(i as int, j as int).drop_last() =~= chars@.subrange(
            i as int,
            j - 1,
        ));
        j -= 1;
    }
    from_chars(&chars, i, j)
}

/// The texts that a list of strings holds.
pub open spec fn texts(v: Seq<String>) -> Seq<Seq<char>> {
    Seq::new(v.len(), |i: int| v[i]@)
}

/// The number of characters before the first newline of `s`, or all of them.
pub open spec fn line_len(s: Seq<char>) -> nat
    decreases s.len(),
{
    if s.len() == 0 || s.first() == '\n' {
        0
    } else {
        1 + line_len(s.drop_first())
    }
}

/// `s` without a carriage return at its end.
pub open spec fn without_cr(s: Seq<char>) -> Seq<char> {
    if s.len() > 0 && s.last() == '\r' {
        s.drop_last()
    } else {
        s
    }
}

/// Whether `s` ends with a newline.
pub open spec fn ends_line(s: Seq<char>) -> bool {
    s.len() > 0 && s.last() == '\n'
}

/// The lines of `s`, each with the newline that ends it. The last one need not
/// end so.
pub open spec fn pieces(s: Seq<char>) -> Seq<Seq<char>>
    decreases s.len(),
{
    if s.len() == 0 {
        seq![]
    } else if line_len(s) < s.len() {
        seq![s.take(line_len(s) as int + 1)] + pieces(s.skip(line_len(s) as int + 1))
    } else {
        seq![s]
    }
}

/// A text without the newline that ends it, and without a carriage return
/// before that newline.
pub open spec fn content(s: Seq<char>) -> Seq<char> {
    if ends_line(s) {
        without_cr(s.drop_last())
    } else {
        s
    }
}

/// What each of `ps` holds before its ending.
pub open spec fn contents(ps: Seq<Seq<char>>) -> Seq<Seq<char>> {
    Seq::new(ps.len(), |i: int| content(ps[i]))
}

/// The lines of `s` without their endings.
pub open spec fn lines(s: Seq<char>) -> Seq<Seq<char>> {
    contents(pieces(s))
}

/// The texts `ps`, one behind the other.
pub open spec fn concat(ps: Seq<Seq<char>>) -> Seq<char>
    decreases ps.len(),
{
    if ps.len() == 0 {
        seq![]
    } else {
        concat(ps.drop_last()) + ps.last()
    }
}

/// The lines `ls`, each with a newline behind it.
pub open spec fn ended(ls: Seq<Seq<char>>) -> Seq<Seq<char>> {
    Seq::new(ls.len(), |i: int| ls[i].push('\n'))
}

/// The text of the lines `ls`, each with a newline behind it.
pub open spec fn terminated(ls: Seq<Seq<char>>) -> Seq<char> {
    concat(ended(ls))
}

/// The text of the lines `ls`, with newlines between them.
pub open spec fn joined(ls: Seq<Seq<char>>) -> Seq<char>
    decreases ls.len(),
{
    if ls.len() == 0 {
        seq![]
    } else if ls.len() == 1 {
        ls[0]
    } else {
        joined(ls.drop_last()).push('\n') + ls.last()
    }
}

/// Whether `s` is made of whole lines.
pub open spec fn is_whole(s: Seq<char>) -> bool {
    s.len() == 0 || ends_line(s)
}

/// `s` with a newline at its end, unless it is empty.
pub open spec fn closed(s: Seq<char>) -> Seq<char> {
    if is_whole(s) {
        s
    } else {
        s.push('\n')
    }
}

/// Whether `text` begins with `start`.
pub open spec fn starts_with(text: Seq<char>, start: Seq<char>) -> bool {
    start.len() <= text.len() && text.take(start.len() as int) == start
}

/// A character without its ASCII case.
pub open spec fn lower(c: char) -> char {
    if 'A' <= c <= 'Z' {
        (c as u8 + 32) as char
    } else {
        c
    }
}

/// `s` with its ASCII letters in lower case.
pub open spec fn lowered(s: Seq<char>) -> Seq<char> {
    Seq::new(s.len(), |i: int| lower(s[i]))
}

/// Whether `part` stands in `s` at position `k`.
pub open spec fn occurs_at(s: Seq<char>, part: Seq<char>, k: int) -> bool {
    0 <= k && k + part.len() <= s.len() && s.subrange(k, k + part.len()) == part
}

/// Whether `part` stands somewhere in `s`.
pub open spec fn holds_part(s: Seq<char>, part: Seq<char>) -> bool {
    exists|k: int| occurs_at(s, part, k)
}

/// The decimal digits of `n`, without leading zeros.
pub open spec fn decimal(n: nat) -> Seq<char>
    decreases n,
{
    let digit = (48 + n % 10) as char;
    if n < 10 {
        seq![digit]
    } else {
        decimal(n / 10).push(digit)
    }
}

/// Where no newline stands before position `n`, and one stands there or `s`
/// ends there, `n` is the length of the first line.
pub proof fn lemma_line_len(s: Seq<char>, n: int)
    requires
        0 <= n <= s.len(),
        forall|j: int| 0 <= j < n ==> s[j] != '\n',
        n < s.len() ==> s[n] == '\n',
    ensures
        line_len(s) == n,
    decreases n,
{
    if n > 0 {
        assert forall|j: int| 0 <= j < n - 1 implies s.drop_first()[j] != '\n' by {
            assert(s.drop_first()[j] == s[j + 1]);
        }
        lemma_line_len(s.drop_first(), n - 1);
    }
}

/// Whether two texts are the same.
pub fn same(a: &str, b: &str) -> (res: bool)
    ensures
        res == (a@ == b@),
{
    a.to_owned() == b.to_owned()
}

/// The lines of `s`, each with its ending.
pub fn split_pieces(s: &str) -> (res: Vec<String>)
    ensures
        texts(res@) == pieces(s@),
{
    let chars = to_chars(s);
    let n: usize = chars.len();
    let mut res: Vec<String> = Vec::new();
    let mut start: usize = 0;
    let mut i: usize = 0;
    assert(chars@.skip(0) =~= s@);
    while i < n
        invariant
            start <= i <= n == chars.len(),
            forall|j: int| start <= j < i ==> chars@[j] != '\n',
            pieces(s@) == texts(res@) + pieces(chars@.skip(start as int)),
        decreases n - i,
    {
        if chars[i] == '\n' {
            let ghost rest = chars@.skip(start as int);
            let ghost before = texts(res@);
            proof {
                lemma_line_len(rest, i - start);
            }
            res.push(from_chars(&chars, start, i + 1));
            proof {
                let piece = rest.take(i - start + 1);
                assert(piece =~= chars@.subrange(start as int, i + 1));
                assert(rest.skip(i - start + 1) =~= chars@.skip(i + 1));
                assert(texts(res@) =~= before.push(piece));
                assert(pieces(s@) =~= texts(res@) + pieces(chars@.skip(i + 1)));
            }
            start = i + 1;
        }
        i += 1;
    }
    let ghost rest = chars@.skip(start as int);
    proof {
        lemma_line_len(rest, rest.len() as int);
    }
    if start < n {
        let ghost before = texts(res@);
        res.push(from_chars(&chars, start, n));
        proof {
            assert(rest =~= chars@.subrange(start as int, n as int));
            assert(texts(res@) =~= before.push(rest));
            assert(pieces(s@) =~= texts(res@));
        }
    } else {
        assert(pieces(s@) =~= texts(res@));
    }
    res
}

/// A text without the newline that ends it, and without a carriage return
/// before that newline.
pub fn without_ending(s: &str) -> (res: String)
    ensures
        res@ == content(s@),
{
    let chars = to_chars(s);
    let mut n: usize = chars.len();
    if n > 0 && chars[n - 1] == '\n' {
        n -= 1;
        if n > 0 && chars[n - 1] == '\r' {
            n -= 1;
        }
    }
    assert(chars@.subrange(0, n as int) =~= content(s@));
    from_chars(&chars, 0, n)
}

/// What each of `ps` holds before its ending.
pub fn without_endings(ps: &Vec<String>) -> (res: Vec<String>)
    ensures
        texts(res@) == contents(texts(ps@)),
{
    let mut res: Vec<String> = Vec::new();
    let mut i: usize = 0;
    while i < ps.len()
        invariant
            i <= ps.len(),
            texts(res@) == contents(texts(ps@).take(i as int)),
        decreases ps.len() - i,
    {
        let ghost before = texts(res@);
        res.push(without_ending(ps[i].as_str()));
        assert(texts(res@) =~= before.push(content(ps@[i as int]@)));
        assert(texts(res@) =~= contents(texts(ps@).take(i + 1)));
        i += 1;
    }
    assert(texts(ps@).take(ps.len() as int) =~= texts(ps@));
    res
}

/// The lines of `s` without their endings.
pub fn split_lines(s: &str) -> (res: Vec<String>)
    ensures
        texts(res@) == lines(s@),
{
    without_endings(&split_pieces(s))
}

/// The text of the lines `ls`, with newlines between them.
pub fn join_lines(ls: &Vec<String>) -> (res: String)
    ensures
        res@ == joined(texts(ls@)),
{
    let mut res = String::new();
    let mut i: usize = 0;
    while i < ls.len()
        invariant
            i <= ls.len(),
            res@ == joined(texts(ls@).take(i as int)),
        decreases ls.len() - i,
    {
        if i > 0 {
            res.push('\n');
        }
        res.append(ls[i].as_str());
        proof {
            let next = texts(ls@).take(i + 1);
            assert(next.drop_last() =~= texts(ls@).take(i as int));
            assert(next.last() == ls@[i as int]@);
            assert(res@ =~= joined(next));
        }
        i += 1;
    }
    assert(texts(ls@).take(ls.len() as int) =~= texts(ls@));
    res
}

/// Appends the lines of `ls` from `from` up to `to`, a newline behind each.
pub(crate) fn push_lines(output: &mut String, ls: &Vec<String>, from: usize, to: usize)
    requires
        from <= to <= ls.len(),
    ensures
        final(output)@ == old(output)@ + terminated(texts(ls@).subrange(from as int, to as int)),
{
    let ghost start = output@;
    let ghost all = texts(ls@);
    let mut i: usize = from;
    assert(output@ =~= start + terminated(all.subrange(from as int, from as int)));
    while i < to
        invariant
            from <= i <= to <= ls.len(),
            all == texts(ls@),
            output@ == start + terminated(all.subrange(from as int, i as int)),
        decreases to - i,
    {
        output.append(ls[i].as_str());
        output.push('\n');
        proof {
            let next = ended(all.subrange(from as int, i + 1));
            assert(next.drop_last() =~= ended(all.subrange(from as int, i as int)));
            assert(output@ =~= start + concat(next));
        }
        i += 1;
    }
}

/// Appends the texts of `ps` from `from` up to `to`.
pub(crate) fn push_pieces(output: &mut String, ps: &Vec<String>, from: usize, to: usize)
    requires
        from <= to <= ps.len(),
    ensures
        final(output)@ == old(output)@ + concat(texts(ps@).subrange(from as int, to as int)),
{
    let ghost start = output@;
    let ghost all = texts(ps@);
    let mut i: usize = from;
    assert(output@ =~= start + concat(all.subrange(from as int, from as int)));
    while i < to
        invariant
            from <= i <= to <= ps.len(),
            all == texts(ps@),
            output@ == start + concat(all.subrange(from as int, i as int)),
        decreases to - i,
    {
        output.append(ps[i].as_str());
        proof {
            let next = all.subrange(from as int, i + 1);
            assert(next.drop_last() =~= all.subrange(from as int, i as int));
            assert(output@ =~= start + concat(next));
        }
        i += 1;
    }
}

/// `s` with a newline at its end, unless it is empty.
pub(crate) fn close_text(s: &mut String)
    ensures
        final(s)@ == closed(old(s)@),
{
    if !s.as_str().is_empty() && !ends_with_newline(s.as_str()) {
        s.push('\n');
    }
}

/// Whether `text` begins with `start`.
pub fn begins(text: &str, start: &str) -> (res: bool)
    ensures
        res == starts_with(text@, start@),
{
    let chars = to_chars(text);
    let wanted = to_chars(start);
    if wanted.len() > chars.len() {
        return false;
    }
    let mut i: usize = 0;
    while i < wanted.len() && chars[i] == wanted[i]
        invariant
            i <= wanted.len() <= chars.len(),
            forall|j: int| 0 <= j < i ==> chars@[j] == wanted@[j],
        decreases wanted.len() - i,
    {
        i += 1;
    }
    proof {
        if i == wanted.len() {
            assert(chars@.take(wanted@.len() as int) =~= wanted@);
        } else {
            assert(chars@.take(wanted@.len() as int)[i as int] != wanted@[i as int]);
        }
    }
    i == wanted.len()
}

/// Whether `s` ends with a newline.
pub fn ends_with_newline(s: &str) -> (res: bool)
    ensures
        res == ends_line(s@),
{
    let chars = to_chars(s);
    chars.len() > 0 && chars[chars.len() - 1] == '\n'
}

/// A character without its ASCII case.
pub fn to_lower(c: char) -> (res: char)
    ensures
        res == lower(c),
{
    if 'A' <= c && c <= 'Z' {
        (c as u8 + 32) as char
    } else {
        c
    }
}

/// Whether `part` stands in `s`, letters taken without their ASCII case.
/// `part` itself is taken as it is.
pub fn contains_lowered(s: &str, part: &str) -> (res: bool)
    ensures
        res == holds_part(lowered(s@), part@),
{
    let chars = to_chars(s);
    let wanted = to_chars(part);
    let n: usize = chars.len();
    let m: usize = wanted.len();
    if m == 0 {
        assert(lowered(s@).subrange(0, 0) =~= part@);
        assert(occurs_at(lowered(s@), part@, 0));
        return true;
    }
    let mut k: usize = 0;
    while k < n && m <= n - k
        invariant
            k <= n,
            0 < m,
            n == chars.len(),
            m == wanted.len(),
            chars@ == s@,
            wanted@ == part@,
            forall|j: int| 0 <= j < k ==> !occurs_at(lowered(s@), part@, j),
        decreases n - k,
    {
        let mut i: usize = 0;
        while i < m && to_lower(chars[k + i]) == wanted[i]
            invariant
                i <= m,
                k + m <= n,
                n == chars.len(),
                m == wanted.len(),
                chars@ == s@,
                wanted@ == part@,
                forall|j: int| 0 <= j < i ==> lower(chars@[k + j]) == wanted@[j],
            decreases m - i,
        {
            i += 1;
        }
        if i == m {
            assert(lowered(s@).subrange(k as int, k + m) =~= part@);
            assert(occurs_at(lowered(s@), part@, k as int));
            return true;
        }
        proof {
            assert(lowered(s@).subrange(k as int, k + m)[i as int] == lower(chars@[k + i]));
        }
        k += 1;
    }
    false
}

/// The decimal digits of `n`.
pub fn decimal_text(n: u16) -> (res: String)
    ensures
        res@ == decimal(n as nat),
    decreases n,
{
    let digit = (48u8 + (n % 10) as u8) as char;
    let mut res = String::new();
    if n >= 10 {
        res = decimal_text(n / 10);
    }
    res.push(digit);
    assert(res@ =~= decimal(n as nat));
    res
}

} // verus!
