//! Character-level string helpers with exact specifications.

use vstd::prelude::*;

verus! {

/// The view of an optional string.
pub open spec fn opt_string_view(o: Option<String>) -> Option<Seq<char>> {
    match o {
        Some(s) => Some(s@),
        None => None,
    }
}

/// `s` begins with `prefix`.
pub open spec fn seq_starts_with(s: Seq<char>, prefix: Seq<char>) -> bool {
    prefix.len() <= s.len() && s.subrange(0, prefix.len() as int) == prefix
}

/// `s` is non-empty and its last character is `c`.
pub open spec fn seq_ends_with_char(s: Seq<char>, c: char) -> bool {
    s.len() > 0 && s.last() == c
}

/// The characters that Rust's `char::is_whitespace` accepts (Unicode `White_Space`).
pub open spec fn is_unicode_whitespace(c: char) -> bool {
    ||| '\u{9}' <= c <= '\u{d}'
    ||| c == ' '
    ||| c == '\u{85}'
    ||| c == '\u{a0}'
    ||| c == '\u{1680}'
    ||| '\u{2000}' <= c <= '\u{200a}'
    ||| c == '\u{2028}'
    ||| c == '\u{2029}'
    ||| c == '\u{202f}'
    ||| c == '\u{205f}'
    ||| c == '\u{3000}'
}

/// `s` without its leading whitespace.
pub open spec fn trim_start_ws(s: Seq<char>) -> Seq<char>
    decreases s.len(),
{
    if s.len() > 0 && is_unicode_whitespace(s[0]) {
        trim_start_ws(s.drop_first())
    } else {
        s
    }
}

/// `s` without its trailing whitespace.
pub open spec fn trim_end_ws(s: Seq<char>) -> Seq<char>
    decreases s.len(),
{
    if s.len() > 0 && is_unicode_whitespace(s.last()) {
        trim_end_ws(s.drop_last())
    } else {
        s
    }
}

/// `s` without leading and trailing whitespace, as `str::trim` gives it.
pub open spec fn trim_ws(s: Seq<char>) -> Seq<char> {
    trim_end_ws(trim_start_ws(s))
}

/// `s` without the copies of `c` at its start.
pub open spec fn trim_start_char(s: Seq<char>, c: char) -> Seq<char>
    decreases s.len(),
{
    if s.len() > 0 && s[0] == c {
        trim_start_char(s.drop_first(), c)
    } else {
        s
    }
}

/// `s` without the copies of `c` at its end.
pub open spec fn trim_end_char(s: Seq<char>, c: char) -> Seq<char>
    decreases s.len(),
{
    if s.len() > 0 && s.last() == c {
        trim_end_char(s.drop_last(), c)
    } else {
        s
    }
}

/// The part of `s` after the last `c`; all of `s` when `c` does not occur.
pub open spec fn after_last_char(s: Seq<char>, c: char) -> Seq<char>
    decreases s.len(),
{
    if s.len() == 0 {
        s
    } else if s.last() == c {
        Seq::empty()
    } else {
        after_last_char(s.drop_last(), c).push(s.last())
    }
}

/// ASCII upper-case letters mapped to lower case, every other character kept.
pub open spec fn ascii_lower_char(c: char) -> char {
    if 'A' <= c <= 'Z' {
        ((c as u32) + 32) as char
    } else {
        c
    }
}

/// `s` with every ASCII letter in lower case.
pub open spec fn ascii_lower(s: Seq<char>) -> Seq<char> {
    s.map_values(|c: char| ascii_lower_char(c))
}

proof fn lemma_ascii_lower_char_props(c: char)
    ensures
        ascii_lower_char(ascii_lower_char(c)) == ascii_lower_char(c),
        is_unicode_whitespace(ascii_lower_char(c)) == is_unicode_whitespace(c),
        (ascii_lower_char(c) == '@') == (c == '@'),
{
}

/// Lower-casing is idempotent.
pub proof fn lemma_ascii_lower_idempotent(s: Seq<char>)
    ensures
        ascii_lower(ascii_lower(s)) == ascii_lower(s),
{
    assert forall|i: int| 0 <= i < s.len() implies #[trigger] ascii_lower(ascii_lower(s))[i]
        == ascii_lower(s)[i] by {
        lemma_ascii_lower_char_props(s[i]);
    }
    assert(ascii_lower(ascii_lower(s)) =~= ascii_lower(s));
}

proof fn lemma_ascii_lower_drop_first(s: Seq<char>)
    requires
        s.len() > 0,
    ensures
        ascii_lower(s).drop_first() == ascii_lower(s.drop_first()),
        ascii_lower(s)[0] == ascii_lower_char(s[0]),
{
    assert(ascii_lower(s).drop_first() =~= ascii_lower(s.drop_first()));
}

proof fn lemma_ascii_lower_drop_last(s: Seq<char>)
    requires
        s.len() > 0,
    ensures
        ascii_lower(s).drop_last() == ascii_lower(s.drop_last()),
        ascii_lower(s).last() == ascii_lower_char(s.last()),
{
    assert(ascii_lower(s).drop_last() =~= ascii_lower(s.drop_last()));
}

/// Trimming whitespace and lower-casing commute.
pub proof fn lemma_trim_ascii_lower(s: Seq<char>)
    ensures
        trim_ws(ascii_lower(s)) == ascii_lower(trim_ws(s)),
{
    lemma_trim_start_ascii_lower(s);
    lemma_trim_end_ascii_lower(trim_start_ws(s));
}

proof fn lemma_trim_start_ascii_lower(s: Seq<char>)
    ensures
        trim_start_ws(ascii_lower(s)) == ascii_lower(trim_start_ws(s)),
    decreases s.len(),
{
    if s.len() > 0 {
        lemma_ascii_lower_drop_first(s);
        lemma_ascii_lower_char_props(s[0]);
        lemma_trim_start_ascii_lower(s.drop_first());
    }
}

proof fn lemma_trim_end_ascii_lower(s: Seq<char>)
    ensures
        trim_end_ws(ascii_lower(s)) == ascii_lower(trim_end_ws(s)),
    decreases s.len(),
{
    if s.len() > 0 {
        lemma_ascii_lower_drop_last(s);
        lemma_ascii_lower_char_props(s.last());
        lemma_trim_end_ascii_lower(s.drop_last());
    }
}

/// Taking the part after the last `@` and lower-casing commute.
pub proof fn lemma_after_last_at_ascii_lower(s: Seq<char>)
    ensures
        after_last_char(ascii_lower(s), '@') == ascii_lower(after_last_char(s, '@')),
    decreases s.len(),
{
    if s.len() > 0 {
        lemma_ascii_lower_drop_last(s);
        lemma_ascii_lower_char_props(s.last());
        lemma_after_last_at_ascii_lower(s.drop_last());
        if s.last() != '@' {
            assert(ascii_lower(after_last_char(s.drop_last(), '@').push(s.last())) =~= ascii_lower(
                after_last_char(s.drop_last(), '@'),
            ).push(ascii_lower_char(s.last())));
        } else {
            assert(ascii_lower(Seq::<char>::empty()) =~= Seq::<char>::empty());
        }
    }
}

/// The part after the last `@` of `local@domain`, when `domain` holds no `@`.
pub proof fn lemma_after_last_at_of_address(local: Seq<char>, domain: Seq<char>)
    requires
        !domain.contains('@'),
    ensures
        after_last_char(local + seq!['@'] + domain, '@') == domain,
    decreases domain.len(),
{
    let s = local + seq!['@'] + domain;
    if domain.len() == 0 {
        assert(s.last() == '@');
        assert(domain =~= Seq::<char>::empty());
    } else {
        assert(domain.last() != '@') by {
            assert(domain[domain.len() - 1] == domain.last());
        }
        assert(!domain.drop_last().contains('@')) by {
            if domain.drop_last().contains('@') {
                let k = choose|k: int| 0 <= k < domain.drop_last().len() && domain.drop_last()[k] == '@';
                assert(domain[k] == '@');
            }
        }
        lemma_after_last_at_of_address(local, domain.drop_last());
        assert(s.drop_last() =~= local + seq!['@'] + domain.drop_last());
        assert(s.last() == domain.last());
        assert(domain.drop_last().push(domain.last()) =~= domain);
    }
}

proof fn lemma_trim_start_ws_first(s: Seq<char>)
    ensures
        trim_start_ws(s).len() > 0 ==> !is_unicode_whitespace(trim_start_ws(s)[0]),
    decreases s.len(),
{
    if s.len() > 0 && is_unicode_whitespace(s[0]) {
        lemma_trim_start_ws_first(s.drop_first());
    }
}

proof fn lemma_trim_end_ws_shape(s: Seq<char>)
    ensures
        trim_end_ws(s).len() > 0 ==> !is_unicode_whitespace(trim_end_ws(s).last())
            && trim_end_ws(s)[0] == s[0],
        trim_end_ws(s).len() <= s.len(),
    decreases s.len(),
{
    if s.len() > 0 && is_unicode_whitespace(s.last()) {
        lemma_trim_end_ws_shape(s.drop_last());
    }
}

/// A trimmed text that is not empty starts and ends with a non-whitespace character.
pub proof fn lemma_trim_ws_ends(s: Seq<char>)
    ensures
        trim_ws(s).len() > 0 ==> !is_unicode_whitespace(trim_ws(s)[0])
            && !is_unicode_whitespace(trim_ws(s).last()),
{
    lemma_trim_start_ws_first(s);
    lemma_trim_end_ws_shape(trim_start_ws(s));
}

/// A text that starts and ends with a non-whitespace character is its own trim.
pub proof fn lemma_trim_ws_fixed(v: Seq<char>)
    requires
        v.len() > 0,
        !is_unicode_whitespace(v[0]),
        !is_unicode_whitespace(v.last()),
    ensures
        trim_ws(v) == v,
{
}

/// The character with an ASCII upper-case letter turned to lower case.
fn char_to_ascii_lowercase(c: char) -> (r: char)
    ensures
        r == ascii_lower_char(c),
{
    if 'A' <= c && c <= 'Z' {
        let b: u8 = c as u8;
        (b + 32) as char
    } else {
        c
    }
}

/// Wraps `String::push` from std, which appends one character.
#[verifier::external_body]
pub(crate) fn push_char(s: &mut String, c: char)
    ensures
        final(s)@ == old(s)@.push(c),
{
    s.push(c)
}

/// Whether `c` is Unicode whitespace.
pub fn is_whitespace(c: char) -> (r: bool)
    ensures
        r == is_unicode_whitespace(c),
{
    ('\u{9}' <= c && c <= '\u{d}') || c == ' ' || c == '\u{85}' || c == '\u{a0}'
        || c == '\u{1680}' || ('\u{2000}' <= c && c <= '\u{200a}') || c == '\u{2028}'
        || c == '\u{2029}' || c == '\u{202f}' || c == '\u{205f}' || c == '\u{3000}'
}

/// Whether `s` begins with `prefix`, compared character by character.
pub fn starts_with(s: &str, prefix: &str) -> (r: bool)
    ensures
        r == seq_starts_with(s@, prefix@),
{
    let n = s.unicode_len();
    let m = prefix.unicode_len();
    if m > n {
        return false;
    }
    let mut i: usize = 0;
    while i < m
        invariant
            n == s@.len(),
            m == prefix@.len(),
            m <= n,
            i <= m,
            forall|j: int| 0 <= j < i ==> s@[j] == prefix@[j],
        decreases m - i,
    {
        if s.get_char(i) != prefix.get_char(i) {
            assert(s@.subrange(0, m as int)[i as int] != prefix@[i as int]);
            return false;
        }
        i = i + 1;
    }
    assert(s@.subrange(0, m as int) =~= prefix@);
    true
}

/// Whether `s` ends with the character `c`.
pub fn ends_with_char(s: &str, c: char) -> (r: bool)
    ensures
        r == seq_ends_with_char(s@, c),
{
    let n = s.unicode_len();
    n > 0 && s.get_char(n - 1) == c
}

proof fn lemma_trim_start_ws_step(s: Seq<char>, i: int)
    requires
        0 <= i < s.len(),
        is_unicode_whitespace(s[i]),
    ensures
        trim_start_ws(s.subrange(i, s.len() as int)) == trim_start_ws(
            s.subrange(i + 1, s.len() as int),
        ),
{
    assert(s.subrange(i, s.len() as int).drop_first() =~= s.subrange(i + 1, s.len() as int));
}

proof fn lemma_trim_end_ws_step(s: Seq<char>, j: int)
    requires
        0 < j <= s.len(),
        is_unicode_whitespace(s[j - 1]),
    ensures
        trim_end_ws(s.subrange(0, j)) == trim_end_ws(s.subrange(0, j - 1)),
{
    assert(s.subrange(0, j).drop_last() =~= s.subrange(0, j - 1));
}

/// `s` without leading and trailing Unicode whitespace.
pub fn trim(s: &str) -> (r: &str)
    ensures
        r@ == trim_ws(s@),
{
    let n = s.unicode_len();
    let mut i: usize = 0;
    assert(s@.subrange(0, n as int) =~= s@);
    while i < n && is_whitespace(s.get_char(i))
        invariant
            n == s@.len(),
            i <= n,
            trim_start_ws(s@) == trim_start_ws(s@.subrange(i as int, n as int)),
        decreases n - i,
    {
        proof {
            lemma_trim_start_ws_step(s@, i as int);
        }
        i = i + 1;
    }
    let ghost rest = s@.subrange(i as int, n as int);
    assert(trim_start_ws(rest) == rest);
    let mut j: usize = n;
    assert(rest.subrange(0, j - i) =~= rest);
    while j > i && is_whitespace(s.get_char(j - 1))
        invariant
            n == s@.len(),
            i <= j <= n,
            rest == s@.subrange(i as int, n as int),
            trim_end_ws(rest) == trim_end_ws(rest.subrange(0, j - i)),
        decreases j,
    {
        proof {
            assert(rest[j - i - 1] == s@[j - 1]);
            lemma_trim_end_ws_step(rest, j - i);
        }
        j = j - 1;
    }
    let ghost kept = rest.subrange(0, j - i);
    assert(trim_end_ws(kept) == kept);
    let r = s.substring_char(i, j);
    assert(r@ =~= kept);
    r
}

/// `s` without the leading copies of `c`.
pub fn trim_start_matches_char(s: &str, c: char) -> (r: &str)
    ensures
        r@ == trim_start_char(s@, c),
{
    let n = s.unicode_len();
    let mut i: usize = 0;
    assert(s@.subrange(0, n as int) =~= s@);
    while i < n && s.get_char(i) == c
        invariant
            n == s@.len(),
            i <= n,
            trim_start_char(s@, c) == trim_start_char(s@.subrange(i as int, n as int), c),
        decreases n - i,
    {
        assert(s@.subrange(i as int, n as int).drop_first() =~= s@.subrange(
            i + 1,
            n as int,
        ));
        i = i + 1;
    }
    s.substring_char(i, n)
}

/// `s` without the trailing copies of `c`.
pub fn trim_end_matches_char(s: &str, c: char) -> (r: &str)
    ensures
        r@ == trim_end_char(s@, c),
{
    let n = s.unicode_len();
    let mut j: usize = n;
    assert(s@.subrange(0, n as int) =~= s@);
    while j > 0 && s.get_char(j - 1) == c
        invariant
            n == s@.len(),
            j <= n,
            trim_end_char(s@, c) == trim_end_char(s@.subrange(0, j as int), c),
        decreases j,
    {
        assert(s@.subrange(0, j as int).drop_last() =~= s@.subrange(0, j - 1));
        j = j - 1;
    }
    s.substring_char(0, j)
}

/// The part of `s` after its last `c` (all of `s` if there is none).
pub fn after_last(s: &str, c: char) -> (r: &str)
    ensures
        r@ == after_last_char(s@, c),
{
    let n = s.unicode_len();
    let mut i: usize = n;
    assert(s@.subrange(0, n as int) =~= s@);
    assert(after_last_char(s@, c) + s@.subrange(n as int, n as int) =~= after_last_char(s@, c));
    while i > 0 && s.get_char(i - 1) != c
        invariant
            n == s@.len(),
            i <= n,
            after_last_char(s@, c) == after_last_char(s@.subrange(0, i as int), c)
                + s@.subrange(i as int, n as int),
        decreases i,
    {
        let ghost pre = s@.subrange(0, i as int);
        assert(pre.drop_last() =~= s@.subrange(0, i - 1));
        assert(s@.subrange(i - 1, n as int) =~= seq![pre.last()] + s@.subrange(
            i as int,
            n as int,
        ));
        assert(after_last_char(pre, c) == after_last_char(s@.subrange(0, i - 1), c).push(
            pre.last(),
        ));
        assert(after_last_char(s@.subrange(0, i - 1), c).push(pre.last()) + s@.subrange(
            i as int,
            n as int,
        ) =~= after_last_char(s@.subrange(0, i - 1), c) + s@.subrange(i - 1, n as int));
        i = i - 1;
    }
    if i > 0 {
        assert(after_last_char(s@.subrange(0, i as int), c) =~= Seq::<char>::empty());
    } else {
        assert(after_last_char(s@.subrange(0, 0), c) =~= Seq::<char>::empty());
    }
    assert(after_last_char(s@, c) =~= s@.subrange(i as int, n as int));
    s.substring_char(i, n)
}

/// `s` with its ASCII letters in lower case.
pub fn to_ascii_lowercase(s: &str) -> (r: String)
    ensures
        r@ == ascii_lower(s@),
{
    let n = s.unicode_len();
    let mut out = String::new();
    let mut i: usize = 0;
    while i < n
        invariant
            n == s@.len(),
            i <= n,
            out@ =~= ascii_lower(s@.subrange(0, i as int)),
        decreases n - i,
    {
        let c = s.get_char(i);
        push_char(&mut out, char_to_ascii_lowercase(c));
        assert(s@.subrange(0, i + 1) =~= s@.subrange(0, i as int).push(c));
        i = i + 1;
    }
    assert(s@.subrange(0, n as int) =~= s@);
    out
}

} // verus!
