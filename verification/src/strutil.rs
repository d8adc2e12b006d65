//! Verified character-level string utilities shared by the archive backends
//! and the layout assembly steps.
use vstd::prelude::*;
use vstd::string::StrSliceExecFns;
use vstd::string::StringExecFns;

verus! {

/// Relies on std's `String::push`: appends exactly one character.
#[verifier::external_body]
pub fn push_char(s: &mut String, c: char)
    ensures
        final(s)@ == old(s)@.push(c),
{
    s.push(c);
}

/// Relies on std's `PartialEq` for `str`: two slices are equal exactly when
/// their character sequences are equal.
#[verifier::external_body]
pub fn str_eq(a: &str, b: &str) -> (r: bool)
    ensures
        r == (a@ == b@),
{
    a == b
}

/// The sequence `s` with every occurrence of `from` replaced by `to`.
pub open spec fn replaced(s: Seq<char>, from: char, to: char) -> Seq<char> {
    s.map_values(|c: char| if c == from { to } else { c })
}

/// Replaces every occurrence of the character `from` by `to`.
pub fn replace_char(s: &str, from: char, to: char) -> (r: String)
    ensures
        r@ == replaced(s@, from, to),
{
    let n: usize = s.unicode_len();
    let mut out: String = String::new();
    let mut i: usize = 0;
    while i < n
        invariant
            i <= n,
            n == s@.len(),
            out@ == replaced(s@.take(i as int), from, to),
        decreases n - i,
    {
        let c = s.get_char(i);
        if c == from {
            push_char(&mut out, to);
        } else {
            push_char(&mut out, c);
        }
        proof {
            assert(s@.take(i + 1).map_values(|x: char| if x == from { to } else { x })
                =~= s@.take(i as int).map_values(|x: char| if x == from { to } else { x }).push(
                if s@[i as int] == from { to } else { s@[i as int] }
            ));
        }
        i = i + 1;
    }
    proof {
        assert(s@.take(n as int) =~= s@);
    }
    out
}

/// The decimal digit `d` as a character; meaningful for `0 <= d < 10`.
pub open spec fn digit_char(d: int) -> char {
    if d == 0 { '0' }
    else if d == 1 { '1' }
    else if d == 2 { '2' }
    else if d == 3 { '3' }
    else if d == 4 { '4' }
    else if d == 5 { '5' }
    else if d == 6 { '6' }
    else if d == 7 { '7' }
    else if d == 8 { '8' }
    else { '9' }
}

/// The decimal rendering of a non-negative integer, most significant digit first.
pub open spec fn dec_chars(n: int) -> Seq<char>
    decreases n,
{
    if n < 10 {
        seq![digit_char(n)]
    } else {
        dec_chars(n / 10).push(digit_char(n % 10))
    }
}

fn digit_char_exec(d: u64) -> (c: char)
    requires
        d < 10,
    ensures
        c == digit_char(d as int),
{
    if d == 0 { '0' }
    else if d == 1 { '1' }
    else if d == 2 { '2' }
    else if d == 3 { '3' }
    else if d == 4 { '4' }
    else if d == 5 { '5' }
    else if d == 6 { '6' }
    else if d == 7 { '7' }
    else if d == 8 { '8' }
    else { '9' }
}

/// Renders `n` in decimal.
pub fn u64_to_dec_string(n: u64) -> (r: String)
    ensures
        r@ == dec_chars(n as int),
    decreases n,
{
    if n < 10 {
        let mut s = String::new();
        push_char(&mut s, digit_char_exec(n));
        s
    } else {
        let mut s = u64_to_dec_string(n / 10);
        push_char(&mut s, digit_char_exec(n % 10));
        s
    }
}

/// Renders `n` in decimal.
pub fn usize_to_dec_string(n: usize) -> (r: String)
    ensures
        r@ == dec_chars(n as int),
{
    u64_to_dec_string(n as u64)
}

/// True when `suffix` ends `s`.
pub open spec fn is_suffix_of(suffix: Seq<char>, s: Seq<char>) -> bool {
    suffix.len() <= s.len() && s.skip(s.len() - suffix.len()) == suffix
}

/// Tests whether `s` ends with `suffix`.
pub fn ends_with(s: &str, suffix: &str) -> (r: bool)
    ensures
        r == is_suffix_of(suffix@, s@),
{
    let n: usize = s.unicode_len();
    let m: usize = suffix.unicode_len();
    if m > n {
        return false;
    }
    let mut i: usize = 0;
    while i < m
        invariant
            i <= m,
            m <= n,
            n == s@.len(),
            m == suffix@.len(),
            forall|j: int| 0 <= j < i ==> s@[n - m + j] == suffix@[j],
        decreases m - i,
    {
        if s.get_char(n - m + i) != suffix.get_char(i) {
            assert(s@.skip(n - m) != suffix@) by {
                assert(s@.skip(n - m)[i as int] != suffix@[i as int]);
            }
            return false;
        }
        i = i + 1;
    }
    proof {
        assert(s@.skip(n - m) =~= suffix@);
    }
    true
}

/// The suffix of `s` after the last occurrence of `sep`; all of `s` when
/// `sep` does not occur.
pub open spec fn after_last(s: Seq<char>, sep: char) -> Seq<char>
    decreases s.len(),
{
    if s.len() == 0 {
        s
    } else if s.last() == sep {
        Seq::empty()
    } else {
        after_last(s.drop_last(), sep).push(s.last())
    }
}

/// The prefix of `s` before (and excluding) the last occurrence of `sep`;
/// empty when `sep` does not occur.
pub open spec fn before_last(s: Seq<char>, sep: char) -> Seq<char>
    decreases s.len(),
{
    if s.len() == 0 {
        s
    } else if s.last() == sep {
        s.drop_last()
    } else {
        before_last(s.drop_last(), sep)
    }
}

/// True when `sep` occurs in `s`.
pub open spec fn contains_char(s: Seq<char>, sep: char) -> bool {
    exists|i: int| 0 <= i < s.len() && s[i] == sep
}

/// The index of the last occurrence of `sep`, or `None`.
pub fn find_last(s: &str, sep: char) -> (r: Option<usize>)
    ensures
        match r {
            Some(i) => i < s@.len() && s@[i as int] == sep && (forall|j: int|
                i < j < s@.len() ==> s@[j] != sep),
            None => !contains_char(s@, sep),
        },
{
    let n: usize = s.unicode_len();
    let mut i: usize = n;
    while i > 0
        invariant
            i <= n,
            n == s@.len(),
            forall|j: int| i <= j < n ==> s@[j] != sep,
        decreases i,
    {
        i = i - 1;
        if s.get_char(i) == sep {
            return Some(i);
        }
    }
    None
}

/// Copies the characters of `s` in positions `from..to` onto the end of `out`.
fn push_range(out: &mut String, s: &str, from: usize, to: usize)
    requires
        from <= to <= s@.len(),
    ensures
        final(out)@ == old(out)@ + s@.subrange(from as int, to as int),
{
    let mut i: usize = from;
    while i < to
        invariant
            from <= i <= to <= s@.len(),
            out@ == old(out)@ + s@.subrange(from as int, i as int),
        decreases to - i,
    {
        let c = s.get_char(i);
        push_char(out, c);
        proof {
            assert(old(out)@ + s@.subrange(from as int, i + 1) =~= (old(out)@ + s@.subrange(
                from as int, i as int)).push(s@[i as int]));
        }
        i = i + 1;
    }
    proof {
        assert(old(out)@ + s@.subrange(from as int, to as int) =~= out@);
    }
}

/// The suffix of `s` after the last `sep`, as a fresh string.
pub fn after_last_exec(s: &str, sep: char) -> (r: String)
    ensures
        r@ == after_last(s@, sep),
{
    let n: usize = s.unicode_len();
    let mut out = String::new();
    match find_last(s, sep) {
        Some(i) => {
            push_range(&mut out, s, i + 1, n);
            proof {
                lemma_after_last_found(s@, sep, i as int);
                assert(out@ =~= after_last(s@, sep));
            }
        },
        None => {
            push_range(&mut out, s, 0, n);
            proof {
                lemma_after_last_absent(s@, sep);
                assert(out@ =~= after_last(s@, sep));
            }
        },
    }
    out
}

proof fn lemma_after_last_found(s: Seq<char>, sep: char, i: int)
    requires
        0 <= i < s.len(),
        s[i] == sep,
        forall|j: int| i < j < s.len() ==> s[j] != sep,
    ensures
        after_last(s, sep) == s.subrange(i + 1, s.len() as int),
    decreases s.len(),
{
    if i == s.len() - 1 {
        assert(after_last(s, sep) =~= s.subrange(i + 1, s.len() as int));
    } else {
        lemma_after_last_found(s.drop_last(), sep, i);
        assert(s.drop_last().subrange(i + 1, s.len() - 1) =~= s.subrange(i + 1, s.len() - 1));
        assert(after_last(s, sep) =~= s.subrange(i + 1, s.len() as int));
    }
}

/// The characters of `s` with one trailing line terminator (`\n` or `\r\n`)
/// removed.
pub open spec fn strip_line_terminator(s: Seq<char>) -> Seq<char> {
    if s.len() >= 2 && s[s.len() - 1] == '\n' && s[s.len() - 2] == '\r' {
        s.take(s.len() - 2)
    } else if s.len() >= 1 && s[s.len() - 1] == '\n' {
        s.take(s.len() - 1)
    } else {
        s
    }
}

/// The last line of `s`: what follows the last line break once a trailing
/// terminator is dropped; empty for an empty text.
pub open spec fn last_line(s: Seq<char>) -> Seq<char> {
    after_last(strip_line_terminator(s), '\n')
}

/// Extracts the last line of `s` as `last_line` states it.
pub fn last_line_exec(s: &str) -> (r: String)
    ensures
        r@ == last_line(s@),
{
    let n: usize = s.unicode_len();
    let end: usize = if n >= 2 && s.get_char(n - 1) == '\n' && s.get_char(n - 2) == '\r' {
        n - 2
    } else if n >= 1 && s.get_char(n - 1) == '\n' {
        n - 1
    } else {
        n
    };
    proof {
        assert(strip_line_terminator(s@) =~= s@.take(end as int));
    }
    let mut start: usize = end;
    while start > 0 && s.get_char(start - 1) != '\n'
        invariant
            start <= end <= n,
            n == s@.len(),
            forall|j: int| start <= j < end ==> s@[j] != '\n',
        decreases start,
    {
        start = start - 1;
    }
    let mut out = String::new();
    push_range(&mut out, s, start, end);
    proof {
        let stripped = s@.take(end as int);
        if start > 0 {
            assert(stripped[start - 1] == '\n');
            lemma_after_last_found(stripped, '\n', start - 1);
            assert(out@ =~= after_last(stripped, '\n'));
        } else {
            assert(!contains_char(stripped, '\n'));
            lemma_after_last_absent(stripped, '\n');
            assert(out@ =~= after_last(stripped, '\n'));
        }
    }
    out
}

/// True for the four whitespace characters the probe output may carry.
pub open spec fn is_plain_ws(c: char) -> bool {
    c == ' ' || c == '\t' || c == '\n' || c == '\r'
}

/// `s` without leading whitespace.
pub open spec fn trim_front(s: Seq<char>) -> Seq<char>
    decreases s.len(),
{
    if s.len() > 0 && is_plain_ws(s.first()) {
        trim_front(s.skip(1))
    } else {
        s
    }
}

/// `s` without trailing whitespace.
pub open spec fn trim_back(s: Seq<char>) -> Seq<char>
    decreases s.len(),
{
    if s.len() > 0 && is_plain_ws(s.last()) {
        trim_back(s.drop_last())
    } else {
        s
    }
}

/// `s` without leading or trailing whitespace.
pub open spec fn trimmed(s: Seq<char>) -> Seq<char> {
    trim_back(trim_front(s))
}

proof fn lemma_trim_front_range(s: Seq<char>, i: int)
    requires
        0 <= i <= s.len(),
        forall|j: int| 0 <= j < i ==> is_plain_ws(s[j]),
        i < s.len() ==> !is_plain_ws(s[i]),
    ensures
        trim_front(s) == s.skip(i),
    decreases i,
{
    if i == 0 {
        if s.len() > 0 {
            assert(!is_plain_ws(s.first()));
        }
        assert(trim_front(s) =~= s.skip(0));
    } else {
        assert(is_plain_ws(s.first()));
        lemma_trim_front_range(s.skip(1), i - 1);
        assert(s.skip(1).skip(i - 1) =~= s.skip(i));
    }
}

proof fn lemma_trim_back_range(s: Seq<char>, j: int)
    requires
        0 <= j <= s.len(),
        forall|k: int| j <= k < s.len() ==> is_plain_ws(s[k]),
        j > 0 ==> !is_plain_ws(s[j - 1]),
    ensures
        trim_back(s) == s.take(j),
    decreases s.len(),
{
    if j == s.len() {
        if s.len() > 0 {
            assert(!is_plain_ws(s.last()));
        }
        assert(trim_back(s) =~= s.take(j));
    } else {
        assert(is_plain_ws(s.last()));
        lemma_trim_back_range(s.drop_last(), j);
        assert(s.drop_last().take(j) =~= s.take(j));
    }
}

/// Strips leading and trailing whitespace as `trimmed` states it.
pub fn trim_exec(s: &str) -> (r: String)
    ensures
        r@ == trimmed(s@),
{
    let n: usize = s.unicode_len();
    let mut i: usize = 0;
    while i < n && is_ws_exec(s.get_char(i))
        invariant
            i <= n,
            n == s@.len(),
            forall|j: int| 0 <= j < i ==> is_plain_ws(s@[j]),
        decreases n - i,
    {
        i = i + 1;
    }
    proof {
        lemma_trim_front_range(s@, i as int);
    }
    let mut j: usize = n;
    while j > i && is_ws_exec(s.get_char(j - 1))
        invariant
            i <= j <= n,
            n == s@.len(),
            forall|k: int| j <= k < n ==> is_plain_ws(s@[k]),
            forall|k: int| 0 <= k < i ==> is_plain_ws(s@[k]),
            i < n ==> !is_plain_ws(s@[i as int]),
            trim_front(s@) == s@.skip(i as int),
        decreases j,
    {
        j = j - 1;
    }
    let mut out = String::new();
    push_range(&mut out, s, i, j);
    proof {
        let front = s@.skip(i as int);
        assert forall|k: int| j - i <= k < front.len() implies is_plain_ws(front[k]) by {
            assert(front[k] == s@[i + k]);
        }
        if j > i {
            assert(front[j - i - 1] == s@[j - 1]);
        }
        lemma_trim_back_range(front, j - i);
        assert(front.take(j - i) =~= s@.subrange(i as int, j as int));
        assert(out@ =~= trimmed(s@));
    }
    out
}

fn is_ws_exec(c: char) -> (r: bool)
    ensures
        r == is_plain_ws(c),
{
    c == ' ' || c == '\t' || c == '\n' || c == '\r'
}

/// `s` without its trailing occurrences of `sep`.
pub open spec fn strip_trailing(s: Seq<char>, sep: char) -> Seq<char>
    decreases s.len(),
{
    if s.len() > 0 && s.last() == sep {
        strip_trailing(s.drop_last(), sep)
    } else {
        s
    }
}

proof fn lemma_strip_trailing_range(s: Seq<char>, sep: char, j: int)
    requires
        0 <= j <= s.len(),
        forall|k: int| j <= k < s.len() ==> s[k] == sep,
        j > 0 ==> s[j - 1] != sep,
    ensures
        strip_trailing(s, sep) == s.take(j),
    decreases s.len(),
{
    if j == s.len() {
        if s.len() > 0 {
            assert(s.last() != sep);
        }
        assert(strip_trailing(s, sep) =~= s.take(j));
    } else {
        assert(s.last() == sep);
        lemma_strip_trailing_range(s.drop_last(), sep, j);
        assert(s.drop_last().take(j) =~= s.take(j));
    }
}

/// Strips trailing occurrences of `sep`, as `strip_trailing` states it.
pub fn strip_trailing_exec(s: &str, sep: char) -> (r: String)
    ensures
        r@ == strip_trailing(s@, sep),
{
    let n: usize = s.unicode_len();
    let mut j: usize = n;
    while j > 0 && s.get_char(j - 1) == sep
        invariant
            j <= n,
            n == s@.len(),
            forall|k: int| j <= k < n ==> s@[k] == sep,
        decreases j,
    {
        j = j - 1;
    }
    let mut out = String::new();
    push_range(&mut out, s, 0, j);
    proof {
        lemma_strip_trailing_range(s@, sep, j as int);
        assert(out@ =~= strip_trailing(s@, sep));
    }
    out
}

/// The prefix of `s` before the last `sep`, as a fresh string.
pub fn before_last_exec(s: &str, sep: char) -> (r: String)
    ensures
        r@ == before_last(s@, sep),
{
    let mut out = String::new();
    match find_last(s, sep) {
        Some(i) => {
            push_range(&mut out, s, 0, i);
            proof {
                lemma_before_last_found(s@, sep, i as int);
                assert(out@ =~= before_last(s@, sep));
            }
        },
        None => {
            proof {
                lemma_before_last_absent(s@, sep);
                assert(out@ =~= before_last(s@, sep));
            }
        },
    }
    out
}

proof fn lemma_before_last_found(s: Seq<char>, sep: char, i: int)
    requires
        0 <= i < s.len(),
        s[i] == sep,
        forall|j: int| i < j < s.len() ==> s[j] != sep,
    ensures
        before_last(s, sep) == s.subrange(0, i),
    decreases s.len(),
{
    if i == s.len() - 1 {
        assert(before_last(s, sep) =~= s.subrange(0, i));
    } else {
        lemma_before_last_found(s.drop_last(), sep, i);
        assert(s.drop_last().subrange(0, i) =~= s.subrange(0, i));
    }
}

proof fn lemma_before_last_absent(s: Seq<char>, sep: char)
    requires
        !contains_char(s, sep),
    ensures
        before_last(s, sep) == Seq::<char>::empty(),
    decreases s.len(),
{
    if s.len() > 0 {
        assert(!contains_char(s.drop_last(), sep));
        lemma_before_last_absent(s.drop_last(), sep);
    }
}

/// True when `prefix` starts `s`.
pub open spec fn is_prefix_of(prefix: Seq<char>, s: Seq<char>) -> bool {
    prefix.len() <= s.len() && s.take(prefix.len() as int) == prefix
}

/// The rest of `s` after stripping `prefix`, or `None` when `prefix` does not
/// start `s`.
pub fn strip_prefix_exec(s: &str, prefix: &str) -> (r: Option<String>)
    ensures
        match r {
            Some(rest) => is_prefix_of(prefix@, s@) && rest@ == s@.skip(prefix@.len() as int),
            None => !is_prefix_of(prefix@, s@),
        },
{
    let n: usize = s.unicode_len();
    let m: usize = prefix.unicode_len();
    if m > n {
        return None;
    }
    let mut i: usize = 0;
    while i < m
        invariant
            i <= m,
            m <= n,
            n == s@.len(),
            m == prefix@.len(),
            forall|j: int| 0 <= j < i ==> s@[j] == prefix@[j],
        decreases m - i,
    {
        if s.get_char(i) != prefix.get_char(i) {
            assert(s@.take(m as int) != prefix@) by {
                assert(s@.take(m as int)[i as int] != prefix@[i as int]);
            }
            return None;
        }
        i = i + 1;
    }
    proof {
        assert(s@.take(m as int) =~= prefix@);
    }
    let mut out = String::new();
    push_range(&mut out, s, m, n);
    proof {
        assert(out@ =~= s@.skip(m as int));
    }
    Some(out)
}

/// A slash-separated path join.
pub open spec fn joined(a: Seq<char>, b: Seq<char>) -> Seq<char> {
    a + "/"@ + b
}

/// Joins two path components with a single slash separator.
pub fn path_join(a: &str, b: &str) -> (r: String)
    ensures
        r@ == joined(a@, b@),
{
    let mut s = a.to_owned();
    s.append("/");
    s.append(b);
    s
}

/// Tests whether some string of `v` equals `s`.
pub fn vec_contains_str(v: &Vec<String>, s: &str) -> (r: bool)
    ensures
        r == v.deep_view().contains(s@),
{
    let mut i: usize = 0;
    while i < v.len()
        invariant
            i <= v@.len(),
            forall|j: int| 0 <= j < i ==> v.deep_view()[j] != s@,
        decreases v@.len() - i,
    {
        if str_eq(v[i].as_str(), s) {
            assert(v.deep_view()[i as int] == s@);
            return true;
        }
        i = i + 1;
    }
    assert(!v.deep_view().contains(s@));
    false
}

proof fn lemma_after_last_absent(s: Seq<char>, sep: char)
    requires
        !contains_char(s, sep),
    ensures
        after_last(s, sep) == s,
    decreases s.len(),
{
    if s.len() > 0 {
        assert(!contains_char(s.drop_last(), sep));
        lemma_after_last_absent(s.drop_last(), sep);
        assert(after_last(s, sep) =~= s);
    }
}

} // verus!
