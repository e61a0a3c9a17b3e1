//! Character-level text utilities shared across the pipeline: building
//! strings from character vectors, whitespace handling, and truncation.

use vstd::prelude::*;

verus! {

/// Relies on `String::from_iter` (via `Iterator::collect`): the collected
/// string holds exactly the characters of the vector, in order.
#[verifier::external_body]
pub fn chars_to_string(chars: &Vec<char>) -> (r: String)
    ensures
        r@ == chars@,
{
    chars.iter().collect()
}

/// The characters with the Unicode `White_Space` property, the set that
/// `str::trim` and `str::split_whitespace` strip.
pub open spec fn is_space(c: char) -> bool {
    c == ' ' || c == '\t' || c == '\n' || c == '\r' || c == '\u{b}' || c == '\u{c}'
        || c == '\u{85}' || c == '\u{a0}' || c == '\u{1680}' || c == '\u{2000}' || c == '\u{2001}'
        || c == '\u{2002}' || c == '\u{2003}' || c == '\u{2004}' || c == '\u{2005}'
        || c == '\u{2006}' || c == '\u{2007}' || c == '\u{2008}' || c == '\u{2009}'
        || c == '\u{200a}' || c == '\u{2028}' || c == '\u{2029}' || c == '\u{202f}'
        || c == '\u{205f}' || c == '\u{3000}'
}

/// Runtime test for [`is_space`].
pub fn is_space_char(c: char) -> (r: bool)
    ensures
        r == is_space(c),
{
    c == ' ' || c == '\t' || c == '\n' || c == '\r' || c == '\u{b}' || c == '\u{c}'
        || c == '\u{85}' || c == '\u{a0}' || c == '\u{1680}' || c == '\u{2000}' || c == '\u{2001}'
        || c == '\u{2002}' || c == '\u{2003}' || c == '\u{2004}' || c == '\u{2005}'
        || c == '\u{2006}' || c == '\u{2007}' || c == '\u{2008}' || c == '\u{2009}'
        || c == '\u{200a}' || c == '\u{2028}' || c == '\u{2029}' || c == '\u{202f}'
        || c == '\u{205f}' || c == '\u{3000}'
}

/// The characters of a string slice, in order.
pub fn str_chars(s: &str) -> (r: Vec<char>)
    ensures
        r@ == s@,
{
    let n = s.unicode_len();
    let mut chars: Vec<char> = Vec::new();
    let mut i: usize = 0;
    while i < n
        invariant
            i <= n,
            n == s@.len(),
            chars@ == s@.subrange(0, i as int),
        decreases n - i,
    {
        chars.push(s.get_char(i));
        i = i + 1;
        proof {
            assert(chars@ =~= s@.subrange(0, i as int));
        }
    }
    proof {
        assert(s@.subrange(0, s@.len() as int) =~= s@);
    }
    chars
}

/// Character-for-character string equality.
pub fn str_eq(a: &str, b: &str) -> (r: bool)
    ensures
        r == (a@ == b@),
{
    let na = a.unicode_len();
    let nb = b.unicode_len();
    if na != nb {
        proof {
            assert(a@ != b@);
        }
        return false;
    }
    let mut i: usize = 0;
    while i < na
        invariant
            i <= na,
            na == a@.len(),
            na == b@.len(),
            forall|k: int| 0 <= k < i ==> a@[k] == b@[k],
        decreases na - i,
    {
        if a.get_char(i) != b.get_char(i) {
            return false;
        }
        i = i + 1;
    }
    proof {
        assert(a@ =~= b@);
    }
    true
}

/// The view of an optional string.
pub open spec fn opt_view(o: Option<String>) -> Option<Seq<char>> {
    match o {
        Some(s) => Some(s@),
        None => None,
    }
}

/// The sequence with leading white space removed.
pub open spec fn trim_start_of(s: Seq<char>) -> Seq<char>
    decreases s.len(),
{
    if s.len() == 0 {
        s
    } else if is_space(s[0]) {
        trim_start_of(s.drop_first())
    } else {
        s
    }
}

/// The sequence with trailing white space removed.
pub open spec fn trim_end_of(s: Seq<char>) -> Seq<char>
    decreases s.len(),
{
    if s.len() == 0 {
        s
    } else if is_space(s.last()) {
        trim_end_of(s.drop_last())
    } else {
        s
    }
}

/// The sequence with leading and trailing white space removed, as `str::trim`
/// leaves it.
pub open spec fn trimmed_of(s: Seq<char>) -> Seq<char> {
    trim_end_of(trim_start_of(s))
}

proof fn lemma_trim_start_subrange(s: Seq<char>, i: int)
    requires
        0 <= i <= s.len(),
        forall|k: int| 0 <= k < i ==> is_space(s[k]),
        i == s.len() || !is_space(s[i]),
    ensures
        trim_start_of(s) == s.subrange(i, s.len() as int),
    decreases i,
{
    if i == 0 {
        assert(s.subrange(0, s.len() as int) =~= s);
    } else {
        assert(is_space(s[0]));
        let t = s.drop_first();
        assert(t =~= s.subrange(1, s.len() as int));
        lemma_trim_start_subrange(t, i - 1);
        assert(t.subrange(i - 1, t.len() as int) =~= s.subrange(i, s.len() as int));
    }
}

proof fn lemma_trim_end_subrange(s: Seq<char>, j: int)
    requires
        0 <= j <= s.len(),
        forall|k: int| j <= k < s.len() ==> is_space(s[k]),
        j == 0 || !is_space(s[j - 1]),
    ensures
        trim_end_of(s) == s.subrange(0, j),
    decreases s.len() - j,
{
    if j == s.len() {
        assert(s.subrange(0, s.len() as int) =~= s);
    } else {
        assert(is_space(s.last()));
        let t = s.drop_last();
        assert(t =~= s.subrange(0, s.len() - 1));
        lemma_trim_end_subrange(t, j);
        assert(t.subrange(0, j) =~= s.subrange(0, j));
    }
}

/// `str::trim`, verified: the input with leading and trailing white space
/// removed.
pub fn trim_str(s: &str) -> (r: String)
    ensures
        r@ == trimmed_of(s@),
{
    let chars = str_chars(s);
    let n = chars.len();
    let mut start: usize = 0;
    while start < n && is_space_char(chars[start])
        invariant
            start <= n,
            n == chars@.len(),
            chars@ == s@,
            forall|k: int| 0 <= k < start ==> is_space(s@[k]),
        decreases n - start,
    {
        start = start + 1;
    }
    if start == n {
        proof {
            lemma_trim_start_subrange(s@, n as int);
            assert(s@.subrange(n as int, n as int) =~= Seq::<char>::empty());
        }
        return String::new();
    }
    let mut end: usize = n;
    while end > start && is_space_char(chars[end - 1])
        invariant
            start <= end <= n,
            n == chars@.len(),
            chars@ == s@,
            !is_space(s@[start as int]),
            forall|k: int| end <= k < n ==> is_space(s@[k]),
        decreases end,
    {
        end = end - 1;
    }
    let mut out: Vec<char> = Vec::new();
    let mut i: usize = start;
    while i < end
        invariant
            start <= i <= end <= n,
            n == chars@.len(),
            chars@ == s@,
            out@ == s@.subrange(start as int, i as int),
        decreases end - i,
    {
        out.push(chars[i]);
        i = i + 1;
        proof {
            assert(out@ =~= s@.subrange(start as int, i as int));
        }
    }
    proof {
        lemma_trim_start_subrange(s@, start as int);
        let t = s@.subrange(start as int, n as int);
        lemma_trim_end_subrange(t, end - start);
        assert(t.subrange(0, end - start) =~= s@.subrange(start as int, end as int));
    }
    chars_to_string(&out)
}

/// The views of a vector of strings.
pub open spec fn views_of(v: Seq<String>) -> Seq<Seq<char>> {
    v.map_values(|t: String| t@)
}

/// The white-space-separated tokens of a sequence, as `str::split_whitespace`
/// yields them: maximal runs of non-space characters, in order.
pub open spec fn tokens_of(s: Seq<char>) -> Seq<Seq<char>>
    decreases s.len(),
{
    if s.len() == 0 {
        Seq::<Seq<char>>::empty()
    } else {
        let prefix = tokens_of(s.drop_last());
        let c = s.last();
        if is_space(c) {
            prefix
        } else if s.len() >= 2 && !is_space(s[s.len() - 2]) {
            prefix.update(prefix.len() - 1, prefix.last().push(c))
        } else {
            prefix.push(seq![c])
        }
    }
}

/// `str::split_whitespace`, verified: the maximal runs of non-space
/// characters, in order.
pub fn split_tokens(s: &str) -> (r: Vec<String>)
    ensures
        views_of(r@) == tokens_of(s@),
{
    let chars = str_chars(s);
    let n = chars.len();
    let mut toks: Vec<String> = Vec::new();
    let mut cur: Vec<char> = Vec::new();
    let mut i: usize = 0;
    while i < n
        invariant
            i <= n,
            n == chars@.len(),
            chars@ == s@,
            cur@.len() == 0 ==> views_of(toks@) == tokens_of(s@.subrange(0, i as int)),
            cur@.len() == 0 ==> (i == 0 || is_space(s@[i - 1])),
            cur@.len() > 0 ==> views_of(toks@).push(cur@) == tokens_of(s@.subrange(0, i as int)),
            cur@.len() > 0 ==> i > 0 && !is_space(s@[i - 1]),
        decreases n - i,
    {
        let c = chars[i];
        proof {
            let p = s@.subrange(0, i as int);
            let q = s@.subrange(0, i + 1);
            assert(q.drop_last() =~= p);
            assert(q.last() == s@[i as int]);
        }
        if is_space_char(c) {
            if cur.len() > 0 {
                let tok = chars_to_string(&cur);
                toks.push(tok);
                cur = Vec::new();
                proof {
                    assert(views_of(toks@) =~= views_of(toks@.drop_last()).push(toks@.last()@));
                }
            }
        } else {
            if cur.len() > 0 {
                proof {
                    let q = s@.subrange(0, i + 1);
                    let prefix = tokens_of(q.drop_last());
                    assert(prefix.update(prefix.len() - 1, prefix.last().push(s@[i as int]))
                        =~= views_of(toks@).push(cur@.push(s@[i as int])));
                }
                cur.push(c);
            } else {
                proof {
                    let q = s@.subrange(0, i + 1);
                    assert(tokens_of(q) == tokens_of(q.drop_last()).push(seq![s@[i as int]]));
                    assert(cur@.push(s@[i as int]) =~= seq![s@[i as int]]);
                }
                cur.push(c);
            }
        }
        i = i + 1;
    }
    proof {
        assert(s@.subrange(0, n as int) =~= s@);
    }
    if cur.len() > 0 {
        let tok = chars_to_string(&cur);
        toks.push(tok);
        proof {
            assert(views_of(toks@) =~= views_of(toks@.drop_last()).push(toks@.last()@));
        }
    }
    toks
}

/// The first item whose trimmed value is non-empty, trimmed; absence when
/// every item is blank.
pub open spec fn first_nonempty_trimmed_of(items: Seq<Seq<char>>) -> Option<Seq<char>>
    decreases items.len(),
{
    if items.len() == 0 {
        None
    } else if trimmed_of(items[0]).len() > 0 {
        Some(trimmed_of(items[0]))
    } else {
        first_nonempty_trimmed_of(items.drop_first())
    }
}

proof fn lemma_first_nonempty_skip(items: Seq<Seq<char>>, i: int)
    requires
        0 <= i <= items.len(),
        forall|k: int| 0 <= k < i ==> trimmed_of(#[trigger] items[k]).len() == 0,
    ensures
        first_nonempty_trimmed_of(items) == first_nonempty_trimmed_of(
            items.subrange(i, items.len() as int),
        ),
    decreases i,
{
    if i == 0 {
        assert(items.subrange(0, items.len() as int) =~= items);
    } else {
        let t = items.drop_first();
        assert(t =~= items.subrange(1, items.len() as int));
        assert(trimmed_of(items[0]).len() == 0);
        lemma_first_nonempty_skip(t, i - 1);
        assert(t.subrange(i - 1, t.len() as int) =~= items.subrange(i, items.len() as int));
    }
}

/// The first string whose trimmed value is non-blank, trimmed.
pub fn first_nonempty_trimmed(items: &Vec<String>) -> (r: Option<String>)
    ensures
        opt_view(r) == first_nonempty_trimmed_of(views_of(items@)),
{
    let n = items.len();
    let mut i: usize = 0;
    while i < n
        invariant
            i <= n,
            n == items@.len(),
            forall|k: int| 0 <= k < i ==> trimmed_of(#[trigger] views_of(items@)[k]).len() == 0,
        decreases n - i,
    {
        let trimmed = trim_str(items[i].as_str());
        if trimmed.as_str().unicode_len() > 0 {
            proof {
                let full = views_of(items@);
                lemma_first_nonempty_skip(full, i as int);
                let rest = full.subrange(i as int, full.len() as int);
                assert(rest[0] == full[i as int]);
            }
            return Some(trimmed);
        }
        i = i + 1;
    }
    proof {
        let full = views_of(items@);
        lemma_first_nonempty_skip(full, n as int);
        assert(full.subrange(n as int, n as int) =~= Seq::<Seq<char>>::empty());
    }
    None
}

/// The lowercase counterpart of an ASCII letter; any other character is
/// unchanged. The search layer folds both sides with this map, giving
/// ASCII-case-insensitive matching.
pub open spec fn lower_char(c: char) -> char {
    match c {
        'A' => 'a', 'B' => 'b', 'C' => 'c', 'D' => 'd', 'E' => 'e', 'F' => 'f', 'G' => 'g',
        'H' => 'h', 'I' => 'i', 'J' => 'j', 'K' => 'k', 'L' => 'l', 'M' => 'm', 'N' => 'n',
        'O' => 'o', 'P' => 'p', 'Q' => 'q', 'R' => 'r', 'S' => 's', 'T' => 't', 'U' => 'u',
        'V' => 'v', 'W' => 'w', 'X' => 'x', 'Y' => 'y', 'Z' => 'z',
        _ => c,
    }
}

/// ASCII lowercase folding of a whole sequence.
pub open spec fn lower_of(s: Seq<char>) -> Seq<char> {
    s.map_values(|c: char| lower_char(c))
}

fn lower_char_exec(c: char) -> (r: char)
    ensures
        r == lower_char(c),
{
    match c {
        'A' => 'a', 'B' => 'b', 'C' => 'c', 'D' => 'd', 'E' => 'e', 'F' => 'f', 'G' => 'g',
        'H' => 'h', 'I' => 'i', 'J' => 'j', 'K' => 'k', 'L' => 'l', 'M' => 'm', 'N' => 'n',
        'O' => 'o', 'P' => 'p', 'Q' => 'q', 'R' => 'r', 'S' => 's', 'T' => 't', 'U' => 'u',
        'V' => 'v', 'W' => 'w', 'X' => 'x', 'Y' => 'y', 'Z' => 'z',
        _ => c,
    }
}

fn lower_chars(v: &Vec<char>) -> (r: Vec<char>)
    ensures
        r@ == lower_of(v@),
{
    let mut out: Vec<char> = Vec::new();
    let mut i: usize = 0;
    while i < v.len()
        invariant
            i <= v@.len(),
            out@ == lower_of(v@.subrange(0, i as int)),
        decreases v@.len() - i,
    {
        out.push(lower_char_exec(v[i]));
        i = i + 1;
        proof {
            assert(out@ =~= lower_of(v@.subrange(0, i as int)));
        }
    }
    proof {
        assert(v@.subrange(0, v@.len() as int) =~= v@);
    }
    out
}

/// Whether `needle` occurs contiguously inside `hay`.
pub open spec fn is_substring_of(needle: Seq<char>, hay: Seq<char>) -> bool {
    exists|i: int|
        0 <= i && i + needle.len() <= hay.len() && #[trigger] hay.subrange(i, i + needle.len())
            == needle
}

fn contains_chars(hay: &Vec<char>, needle: &Vec<char>) -> (r: bool)
    ensures
        r == is_substring_of(needle@, hay@),
{
    if needle.len() > hay.len() {
        return false;
    }
    if needle.len() == 0 {
        proof {
            assert(hay@.subrange(0, 0 + needle@.len() as int) =~= needle@);
        }
        return true;
    }
    let ghost hay_len: int = hay@.len() as int;
    let bound = hay.len() - needle.len();
    let mut i: usize = 0;
    while i <= bound
        invariant
            hay@.len() == hay_len <= usize::MAX,
            needle@.len() >= 1,
            bound == hay@.len() - needle@.len(),
            i <= bound + 1,
            forall|k: int|
                0 <= k < i ==> #[trigger] hay@.subrange(k, k + needle@.len()) != needle@,
        decreases bound + 1 - i,
    {
        let mut j: usize = 0;
        let mut matched = true;
        while j < needle.len()
            invariant
                hay@.len() <= usize::MAX,
                i + needle@.len() <= hay@.len(),
                j <= needle@.len(),
                matched <==> (forall|k: int| 0 <= k < j ==> hay@[i + k] == needle@[k]),
            decreases needle@.len() - j,
        {
            if hay[i + j] != needle[j] {
                matched = false;
                j = needle.len();
            } else {
                j = j + 1;
            }
        }
        if matched {
            proof {
                assert(hay@.subrange(i as int, i + needle@.len()) =~= needle@);
            }
            return true;
        }
        proof {
            assert(hay@.subrange(i as int, i + needle@.len()) != needle@) by {
                if hay@.subrange(i as int, i + needle@.len()) == needle@ {
                    assert(forall|k: int|
                        0 <= k < needle@.len() ==> hay@[i + k] == #[trigger] hay@.subrange(
                            i as int,
                            i + needle@.len(),
                        )[k]);
                }
            }
        }
        i = i + 1;
    }
    proof {
        assert(forall|k: int|
            0 <= k && k + needle@.len() <= hay@.len() ==> #[trigger] hay@.subrange(
                k,
                k + needle@.len(),
            ) != needle@);
    }
    false
}

/// Whether `token` occurs inside `hay` when both are folded to ASCII
/// lowercase: the search layer's match relation.
pub open spec fn contains_token_ci(hay: Seq<char>, token: Seq<char>) -> bool {
    is_substring_of(lower_of(token), lower_of(hay))
}

/// ASCII-case-insensitive substring test.
pub fn contains_ci(hay: &str, token: &str) -> (r: bool)
    ensures
        r == contains_token_ci(hay@, token@),
{
    let hay_chars = str_chars(hay);
    let token_chars = str_chars(token);
    let hay_low = lower_chars(&hay_chars);
    let token_low = lower_chars(&token_chars);
    contains_chars(&hay_low, &token_low)
}

/// The parts joined with the separator between consecutive parts.
pub open spec fn joined_with(parts: Seq<Seq<char>>, sep: Seq<char>) -> Seq<char>
    decreases parts.len(),
{
    if parts.len() == 0 {
        Seq::<char>::empty()
    } else if parts.len() == 1 {
        parts[0]
    } else {
        joined_with(parts.drop_last(), sep) + sep + parts.last()
    }
}

/// Joins strings with a separator, as `[String]::join` does.
pub fn join_with(parts: &Vec<String>, sep: &str) -> (r: String)
    ensures
        r@ == joined_with(views_of(parts@), sep@),
{
    let mut out = String::new();
    let mut i: usize = 0;
    while i < parts.len()
        invariant
            i <= parts@.len(),
            out@ == joined_with(views_of(parts@).subrange(0, i as int), sep@),
        decreases parts@.len() - i,
    {
        if i > 0 {
            out.append(sep);
        }
        out.append(parts[i].as_str());
        i = i + 1;
        proof {
            let full = views_of(parts@);
            assert(full.subrange(0, i as int).drop_last() =~= full.subrange(0, i - 1));
            assert(full.subrange(0, i as int).last() == parts@[i - 1]@);
            if i == 1 {
                assert(joined_with(full.subrange(0, 1), sep@) == full.subrange(0, 1)[0]);
            }
        }
    }
    proof {
        assert(views_of(parts@).subrange(0, parts@.len() as int) =~= views_of(parts@));
    }
    out
}

/// The ellipsis marker appended to truncated summaries.
pub open spec fn ellipsis() -> Seq<char> {
    seq!['.', '.', '.']
}

/// A sequence capped at `max` characters: longer inputs are cut and marked
/// with a trailing ellipsis, so the result never exceeds `max + 3` characters.
pub open spec fn truncated_of(s: Seq<char>, max: int) -> Seq<char> {
    if s.len() <= max {
        s
    } else {
        s.subrange(0, max) + ellipsis()
    }
}

/// Caps a string at `max` characters, marking a cut with `...`.
pub fn truncate_with_ellipsis(s: &str, max: usize) -> (r: String)
    ensures
        r@ == truncated_of(s@, max as int),
        r@.len() <= max + 3,
{
    let n = s.unicode_len();
    if n <= max {
        let mut out = String::new();
        out.append(s);
        return out;
    }
    let head = s.substring_char(0, max);
    let mut out = String::new();
    out.append(head);
    out.append("...");
    proof {
        reveal_strlit("...");
        assert(out@ =~= s@.subrange(0, max as int) + ellipsis());
    }
    out
}

/// Whether a character separates path components.
pub open spec fn is_sep(c: char) -> bool {
    c == '/' || c == '\\'
}

/// The sequence with trailing path separators removed.
pub open spec fn strip_trailing_seps(s: Seq<char>) -> Seq<char>
    decreases s.len(),
{
    if s.len() > 0 && is_sep(s.last()) {
        strip_trailing_seps(s.drop_last())
    } else {
        s
    }
}

/// The suffix after the last path separator.
pub open spec fn last_component(s: Seq<char>) -> Seq<char>
    decreases s.len(),
{
    if s.len() == 0 {
        Seq::<char>::empty()
    } else if is_sep(s.last()) {
        Seq::<char>::empty()
    } else {
        last_component(s.drop_last()).push(s.last())
    }
}

/// The file name of a path: the last component once trailing separators are
/// dropped. Paths with no usable name (empty, or ending in `.` / `..` / a
/// bare separator) fall back to the whole path.
pub open spec fn basename_of(p: Seq<char>) -> Seq<char> {
    let name = last_component(strip_trailing_seps(p));
    if name.len() == 0 || name == seq!['.'] || name == seq!['.', '.'] {
        p
    } else {
        name
    }
}

fn is_sep_char(c: char) -> (r: bool)
    ensures
        r == is_sep(c),
{
    c == '/' || c == '\\'
}

proof fn lemma_strip_trailing_seps(s: Seq<char>, e: int)
    requires
        0 <= e <= s.len(),
        forall|k: int| e <= k < s.len() ==> is_sep(s[k]),
        e == 0 || !is_sep(s[e - 1]),
    ensures
        strip_trailing_seps(s) == s.subrange(0, e),
    decreases s.len() - e,
{
    if e == s.len() {
        assert(s.subrange(0, s.len() as int) =~= s);
    } else {
        let t = s.drop_last();
        assert(t =~= s.subrange(0, s.len() - 1));
        lemma_strip_trailing_seps(t, e);
        assert(t.subrange(0, e) =~= s.subrange(0, e));
    }
}

proof fn lemma_last_component(s: Seq<char>, b: int)
    requires
        0 <= b <= s.len(),
        forall|k: int| b <= k < s.len() ==> !is_sep(s[k]),
        b == 0 || is_sep(s[b - 1]),
    ensures
        last_component(s) == s.subrange(b, s.len() as int),
    decreases s.len() - b,
{
    if b == s.len() {
        assert(s.subrange(b, s.len() as int) =~= Seq::<char>::empty());
    } else {
        let t = s.drop_last();
        assert(t =~= s.subrange(0, s.len() - 1));
        lemma_last_component(t, b);
        assert(last_component(s) == last_component(t).push(s.last()));
        assert(t.subrange(b, t.len() as int).push(s.last()) =~= s.subrange(b, s.len() as int));
    }
}

/// The file name of a path string, per [`basename_of`].
pub fn basename(p: &str) -> (r: String)
    ensures
        r@ == basename_of(p@),
{
    let chars = str_chars(p);
    let n = chars.len();
    let mut e: usize = n;
    while e > 0 && is_sep_char(chars[e - 1])
        invariant
            e <= n,
            n == chars@.len(),
            chars@ == p@,
            forall|k: int| e <= k < n ==> is_sep(p@[k]),
        decreases e,
    {
        e = e - 1;
    }
    proof {
        lemma_strip_trailing_seps(p@, e as int);
    }
    let mut b: usize = e;
    while b > 0 && !is_sep_char(chars[b - 1])
        invariant
            b <= e <= n,
            n == chars@.len(),
            chars@ == p@,
            forall|k: int| b <= k < e ==> !is_sep(p@[k]),
        decreases b,
    {
        b = b - 1;
    }
    proof {
        let stripped = p@.subrange(0, e as int);
        lemma_last_component(stripped, b as int);
        assert(stripped.subrange(b as int, e as int) =~= p@.subrange(b as int, e as int));
    }
    let len = e - b;
    let fallback = len == 0 || (len == 1 && chars[b] == '.') || (len == 2 && chars[b] == '.'
        && chars[b + 1] == '.');
    if fallback {
        proof {
            let name = last_component(strip_trailing_seps(p@));
            if len == 1 && p@[b as int] == '.' {
                assert(name =~= seq!['.']);
            }
            if len == 2 && p@[b as int] == '.' && p@[b + 1] == '.' {
                assert(name =~= seq!['.', '.']);
            }
        }
        let mut out = String::new();
        out.append(p);
        out
    } else {
        proof {
            let name = last_component(strip_trailing_seps(p@));
            assert(name.len() != 0);
            if name == seq!['.'] {
                assert(p@[b as int] == name[0]);
            }
            if name == seq!['.', '.'] {
                assert(p@[b as int] == name[0] && p@[b + 1] == name[1]);
            }
        }
        let mut out: Vec<char> = Vec::new();
        let mut i: usize = b;
        while i < e
            invariant
                b <= i <= e <= n,
                n == chars@.len(),
                chars@ == p@,
                out@ == p@.subrange(b as int, i as int),
            decreases e - i,
        {
            out.push(chars[i]);
            i = i + 1;
            proof {
                assert(out@ =~= p@.subrange(b as int, i as int));
            }
        }
        chars_to_string(&out)
    }
}

} // verus!
