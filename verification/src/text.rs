//! Character-level text primitives with their meaning stated over `Seq<char>`.
//!
//! A `&str` is viewed as the sequence of its Unicode scalar values; every
//! search in this module matches whole characters, which for valid UTF-8 is
//! the same as the byte-level matching that `str` methods perform.

use vstd::prelude::*;

verus! {

/// `needle` occurs in `hay` starting at position `i`.
pub open spec fn occurs_at(hay: Seq<char>, i: int, needle: Seq<char>) -> bool {
    &&& 0 <= i
    &&& i + needle.len() <= hay.len()
    &&& hay.subrange(i, i + needle.len()) == needle
}

/// The first position where `needle` occurs in `hay` (what `str::find` gives,
/// counted in characters).
pub open spec fn find_sub(hay: Seq<char>, needle: Seq<char>) -> Option<int> {
    if has_sub(hay, needle) {
        Some(choose|i: int| first_occurrence_from(hay, needle, 0, i))
    } else {
        None
    }
}

/// The first index of `s` whose character satisfies `p`.
pub open spec fn first_where(s: Seq<char>, p: spec_fn(char) -> bool) -> Option<int> {
    if exists|i: int| 0 <= i < s.len() && p(s[i]) {
        Some(choose|i: int| 0 <= i < s.len() && p(s[i]) && forall|j: int| 0 <= j < i ==> !p(s[j]))
    } else {
        None
    }
}

/// `needle` occurs somewhere in `hay` (what `str::contains` decides).
pub open spec fn has_sub(hay: Seq<char>, needle: Seq<char>) -> bool {
    exists|i: int| occurs_at(hay, i, needle)
}

/// `i` is the first position at or after `from` where `needle` occurs.
pub open spec fn first_occurrence_from(hay: Seq<char>, needle: Seq<char>, from: int, i: int) -> bool {
    &&& from <= i
    &&& occurs_at(hay, i, needle)
    &&& forall|j: int| from <= j < i ==> !occurs_at(hay, j, needle)
}

/// No occurrence of `needle` starts at or after `from`.
pub open spec fn no_occurrence_from(hay: Seq<char>, needle: Seq<char>, from: int) -> bool {
    forall|j: int| from <= j ==> !occurs_at(hay, j, needle)
}

/// `s` starts with `p`.
pub open spec fn starts_with(s: Seq<char>, p: Seq<char>) -> bool {
    occurs_at(s, 0, p)
}

/// `s` ends with `p`.
pub open spec fn ends_with(s: Seq<char>, p: Seq<char>) -> bool {
    p.len() <= s.len() && occurs_at(s, s.len() - p.len(), p)
}

/// Unicode `White_Space`, the property that `char::is_whitespace` tests.
pub open spec fn is_ws(c: char) -> bool {
    ||| ('\u{9}' <= c && c <= '\u{d}')
    ||| c == ' '
    ||| c == '\u{85}'
    ||| c == '\u{a0}'
    ||| c == '\u{1680}'
    ||| ('\u{2000}' <= c && c <= '\u{200a}')
    ||| c == '\u{2028}'
    ||| c == '\u{2029}'
    ||| c == '\u{202f}'
    ||| c == '\u{205f}'
    ||| c == '\u{3000}'
}

/// ASCII letters and digits (`is_ascii_alphanumeric`).
pub open spec fn is_ascii_alnum(c: char) -> bool {
    ||| ('a' <= c && c <= 'z')
    ||| ('A' <= c && c <= 'Z')
    ||| ('0' <= c && c <= '9')
}

/// Number of leading whitespace characters of `s`.
pub open spec fn lead_ws(s: Seq<char>) -> nat
    decreases s.len(),
{
    if s.len() > 0 && is_ws(s[0]) {
        1 + lead_ws(s.drop_first())
    } else {
        0
    }
}

/// Number of trailing whitespace characters of `s`.
pub open spec fn trail_ws(s: Seq<char>) -> nat
    decreases s.len(),
{
    if s.len() > 0 && is_ws(s.last()) {
        1 + trail_ws(s.drop_last())
    } else {
        0
    }
}

/// `str::trim_start`.
pub open spec fn trim_start(s: Seq<char>) -> Seq<char> {
    s.skip(lead_ws(s) as int)
}

/// `str::trim_end`.
pub open spec fn trim_end(s: Seq<char>) -> Seq<char> {
    s.take(s.len() - trail_ws(s))
}

/// `str::trim`.
pub open spec fn trim(s: Seq<char>) -> Seq<char> {
    trim_end(trim_start(s))
}

/// A line with one trailing carriage return removed.
pub open spec fn strip_cr(l: Seq<char>) -> Seq<char> {
    if l.len() > 0 && l.last() == '\r' {
        l.drop_last()
    } else {
        l
    }
}

/// `str::lines`: split at `\n` (a `\r` right before it goes too); a final
/// empty line after the last line ending is not produced.
pub open spec fn lines(s: Seq<char>) -> Seq<Seq<char>>
    decreases s.len(),
{
    if s.len() == 0 {
        seq![]
    } else {
        match s.index_of_first('\n') {
            Some(k) => if 0 <= k < s.len() {
                seq![strip_cr(s.take(k))] + lines(s.skip(k + 1))
            } else {
                seq![]
            },
            None => seq![s],
        }
    }
}

proof fn lemma_lead_ws_bound(s: Seq<char>)
    ensures
        lead_ws(s) <= s.len(),
        forall|k: int| 0 <= k < lead_ws(s) ==> is_ws(#[trigger] s[k]),
        lead_ws(s) < s.len() ==> !is_ws(s[lead_ws(s) as int]),
    decreases s.len(),
{
    if s.len() > 0 && is_ws(s[0]) {
        lemma_lead_ws_bound(s.drop_first());
        assert forall|k: int| 0 <= k < lead_ws(s) implies is_ws(#[trigger] s[k]) by {
            if k > 0 {
                assert(s[k] == s.drop_first()[k - 1]);
            }
        }
        if lead_ws(s) < s.len() {
            assert(s[lead_ws(s) as int] == s.drop_first()[lead_ws(s.drop_first()) as int]);
        }
    }
}

proof fn lemma_lead_ws_char(s: Seq<char>, n: int)
    requires
        0 <= n <= s.len(),
        forall|k: int| 0 <= k < n ==> is_ws(#[trigger] s[k]),
        n < s.len() ==> !is_ws(s[n]),
    ensures
        lead_ws(s) == n,
    decreases s.len(),
{
    if n > 0 {
        assert(is_ws(s[0]));
        assert forall|k: int| 0 <= k < n - 1 implies is_ws(#[trigger] s.drop_first()[k]) by {
            assert(s.drop_first()[k] == s[k + 1]);
        }
        if n - 1 < s.drop_first().len() {
            assert(s.drop_first()[n - 1] == s[n]);
        }
        lemma_lead_ws_char(s.drop_first(), n - 1);
    }
}

proof fn lemma_trail_ws_char(s: Seq<char>, n: int)
    requires
        0 <= n <= s.len(),
        forall|k: int| s.len() - n <= k < s.len() ==> is_ws(#[trigger] s[k]),
        n < s.len() ==> !is_ws(s[s.len() - n - 1]),
    ensures
        trail_ws(s) == n,
    decreases s.len(),
{
    if n > 0 {
        assert(is_ws(s[s.len() - 1]));
        assert forall|k: int| s.drop_last().len() - (n - 1) <= k < s.drop_last().len() implies is_ws(
            #[trigger] s.drop_last()[k],
        ) by {
            assert(s.drop_last()[k] == s[k]);
        }
        if n - 1 < s.drop_last().len() {
            assert(s.drop_last()[s.drop_last().len() - (n - 1) - 1] == s[s.len() - n - 1]);
        }
        lemma_trail_ws_char(s.drop_last(), n - 1);
    } else {
        if s.len() > 0 {
            assert(!is_ws(s.last()));
        }
    }
}

/// `char::is_whitespace`.
pub fn is_whitespace(c: char) -> (r: bool)
    ensures
        r == is_ws(c),
{
    ('\u{9}' <= c && c <= '\u{d}') || c == ' ' || c == '\u{85}' || c == '\u{a0}' || c == '\u{1680}'
        || ('\u{2000}' <= c && c <= '\u{200a}') || c == '\u{2028}' || c == '\u{2029}' || c
        == '\u{202f}' || c == '\u{205f}' || c == '\u{3000}'
}

/// `char::is_ascii_alphanumeric`.
pub fn is_ascii_alphanumeric(c: char) -> (r: bool)
    ensures
        r == is_ascii_alnum(c),
{
    ('a' <= c && c <= 'z') || ('A' <= c && c <= 'Z') || ('0' <= c && c <= '9')
}

/// The characters of `s`, in order.
pub fn chars_of(s: &str) -> (r: Vec<char>)
    ensures
        r@ == s@,
{
    let mut out: Vec<char> = Vec::new();
    for c in it: s.chars()
        invariant
            it.seq() == s@,
            out@ == s@.take(it.index() as int),
    {
        out.push(c);
        assert(out@ =~= s@.take(it.index() + 1));
    }
    assert(out@ =~= s@);
    out
}

/// A `String` holding exactly the characters `v`.
#[verifier::external_body]
pub(crate) fn string_of(v: &[char]) -> (r: String)
    ensures
        r@ == v@,
{
    v.iter().collect()
}

/// Whether `needle` occurs in `hay` at position `i`.
pub fn occurs_at_exec(hay: &[char], i: usize, needle: &[char]) -> (r: bool)
    ensures
        r == occurs_at(hay@, i as int, needle@),
{
    if i > hay.len() || needle.len() > hay.len() - i {
        return false;
    }
    let mut k: usize = 0;
    while k < needle.len()
        invariant
            i + needle.len() <= hay.len(),
            k <= needle.len(),
            forall|m: int| 0 <= m < k ==> hay@[i + m] == needle@[m],
        decreases needle.len() - k,
    {
        if hay[i + k] != needle[k] {
            assert(hay@.subrange(i as int, i + needle.len())[k as int] != needle@[k as int]);
            return false;
        }
        k += 1;
    }
    assert(hay@.subrange(i as int, i + needle.len()) =~= needle@);
    true
}

/// The first position at or after `from` where `needle` occurs.
pub fn find_from(hay: &[char], needle: &[char], from: usize) -> (r: Option<usize>)
    ensures
        match r {
            Some(i) => first_occurrence_from(hay@, needle@, from as int, i as int),
            None => no_occurrence_from(hay@, needle@, from as int),
        },
{
    if from > hay.len() {
        return None;
    }
    let mut i = from;
    while i < hay.len()
        invariant
            from <= i <= hay@.len(),
            forall|j: int| from <= j < i ==> !occurs_at(hay@, j, needle@),
        decreases hay.len() - i,
    {
        if occurs_at_exec(hay, i, needle) {
            return Some(i);
        }
        i += 1;
    }
    if occurs_at_exec(hay, i, needle) {
        return Some(i);
    }
    None
}

proof fn lemma_first_occurrence_unique(hay: Seq<char>, needle: Seq<char>, i: int, j: int)
    requires
        first_occurrence_from(hay, needle, 0, i),
        first_occurrence_from(hay, needle, 0, j),
    ensures
        i == j,
{
}

/// The first position of `needle` in `hay` (`str::find`, in characters).
pub fn find(hay: &[char], needle: &[char]) -> (r: Option<usize>)
    ensures
        match r {
            Some(i) => find_sub(hay@, needle@) == Some(i as int),
            None => find_sub(hay@, needle@) is None,
        },
        r matches Some(i) ==> occurs_at(hay@, i as int, needle@),
{
    match find_from(hay, needle, 0) {
        Some(i) => {
            assert(has_sub(hay@, needle@));
            let ghost c = choose|k: int| first_occurrence_from(hay@, needle@, 0, k);
            proof {
                lemma_first_occurrence_unique(hay@, needle@, i as int, c);
            }
            Some(i)
        },
        None => {
            assert(!has_sub(hay@, needle@));
            None
        },
    }
}

/// Whether `needle` occurs in `hay` (`str::contains`).
pub fn contains(hay: &[char], needle: &[char]) -> (r: bool)
    ensures
        r == has_sub(hay@, needle@),
{
    match find_from(hay, needle, 0) {
        Some(i) => true,
        None => {
            assert(!has_sub(hay@, needle@));
            false
        },
    }
}

/// Whether `hay` contains the text `needle`.
pub fn contains_str(hay: &[char], needle: &str) -> (r: bool)
    ensures
        r == has_sub(hay@, needle@),
{
    let n = chars_of(needle);
    contains(hay, &n)
}

/// Whether `s` starts with `p`.
pub fn starts_with_exec(s: &[char], p: &[char]) -> (r: bool)
    ensures
        r == starts_with(s@, p@),
{
    occurs_at_exec(s, 0, p)
}

/// Whether `s` ends with `p`.
pub fn ends_with_exec(s: &[char], p: &[char]) -> (r: bool)
    ensures
        r == ends_with(s@, p@),
{
    if p.len() > s.len() {
        false
    } else {
        occurs_at_exec(s, s.len() - p.len(), p)
    }
}

/// The characters `s[from..to]`.
pub fn slice_chars(s: &[char], from: usize, to: usize) -> (r: Vec<char>)
    requires
        from <= to <= s@.len(),
    ensures
        r@ == s@.subrange(from as int, to as int),
{
    let mut out: Vec<char> = Vec::new();
    let mut i = from;
    while i < to
        invariant
            from <= i <= to <= s@.len(),
            out@ == s@.subrange(from as int, i as int),
        decreases to - i,
    {
        out.push(s[i]);
        i += 1;
        assert(out@ =~= s@.subrange(from as int, i as int));
    }
    out
}

/// `str::trim_start`.
pub fn trim_start_exec(s: &[char]) -> (r: Vec<char>)
    ensures
        r@ == trim_start(s@),
{
    let mut i: usize = 0;
    while i < s.len() && is_whitespace(s[i])
        invariant
            i <= s@.len(),
            forall|k: int| 0 <= k < i ==> is_ws(#[trigger] s@[k]),
        decreases s.len() - i,
    {
        i += 1;
    }
    proof {
        lemma_lead_ws_char(s@, i as int);
    }
    slice_chars(s, i, s.len())
}

/// `str::trim`.
pub fn trim_exec(s: &[char]) -> (r: Vec<char>)
    ensures
        r@ == trim(s@),
{
    let t = trim_start_exec(s);
    let mut n: usize = 0;
    while n < t.len() && is_whitespace(t[t.len() - 1 - n])
        invariant
            n <= t@.len(),
            forall|k: int| t@.len() - n <= k < t@.len() ==> is_ws(#[trigger] t@[k]),
        decreases t.len() - n,
    {
        n += 1;
    }
    proof {
        lemma_trail_ws_char(t@, n as int);
    }
    slice_chars(&t, 0, t.len() - n)
}

proof fn lemma_lines_step(s: Seq<char>, start: int, k: int)
    requires
        0 <= start <= k < s.len(),
        s[k] == '\n',
        forall|j: int| start <= j < k ==> s[j] != '\n',
    ensures
        lines(s.skip(start)) == seq![strip_cr(s.subrange(start, k))] + lines(s.skip(k + 1)),
{
    let t = s.skip(start);
    assert(t[k - start] == '\n');
    assert(t.contains('\n'));
    t.index_of_first_ensures('\n');
    let ki = t.index_of_first('\n').unwrap();
    if ki < k - start {
        assert(t[ki] == s[start + ki]);
    }
    assert(ki == k - start);
    assert(t.take(ki) =~= s.subrange(start, k));
    assert(t.skip(ki + 1) =~= s.skip(k + 1));
}

proof fn lemma_lines_last(s: Seq<char>, start: int)
    requires
        0 <= start < s.len(),
        forall|j: int| start <= j < s.len() ==> s[j] != '\n',
    ensures
        lines(s.skip(start)) == seq![s.skip(start)],
{
    let t = s.skip(start);
    t.index_of_first_ensures('\n');
    assert(!t.contains('\n')) by {
        if t.contains('\n') {
            let j = choose|j: int| 0 <= j < t.len() && t[j] == '\n';
            assert(t[j] == s[start + j]);
        }
    }
}

/// The character sequences of a vector of lines.
pub open spec fn line_views(v: Seq<Vec<char>>) -> Seq<Seq<char>> {
    v.map_values(|l: Vec<char>| l@)
}

/// `str::lines`, each line as its characters.
pub fn lines_exec(s: &[char]) -> (r: Vec<Vec<char>>)
    ensures
        line_views(r@) == lines(s@),
{
    let mut out: Vec<Vec<char>> = Vec::new();
    let mut start: usize = 0;
    proof {
        assert(s@.skip(0) =~= s@);
    }
    while start < s.len()
        invariant
            start <= s@.len(),
            lines(s@) == line_views(out@) + lines(s@.skip(start as int)),
        decreases s.len() - start,
    {
        let mut k = start;
        while k < s.len() && s[k] != '\n'
            invariant
                start <= k <= s@.len(),
                forall|j: int| start <= j < k ==> s@[j] != '\n',
            decreases s.len() - k,
        {
            k += 1;
        }
        let ghost before = line_views(out@);
        if k < s.len() {
            let mut line = slice_chars(s, start, k);
            if line.len() > 0 && line[line.len() - 1] == '\r' {
                line.pop();
            }
            proof {
                lemma_lines_step(s@, start as int, k as int);
                assert(line@ == strip_cr(s@.subrange(start as int, k as int)));
            }
            out.push(line);
            proof {
                assert(line_views(out@) =~= before.push(strip_cr(s@.subrange(start as int, k as int))));
            }
            start = k + 1;
        } else {
            let line = slice_chars(s, start, k);
            proof {
                lemma_lines_last(s@, start as int);
                assert(line@ =~= s@.skip(start as int));
            }
            out.push(line);
            proof {
                assert(line_views(out@) =~= before.push(s@.skip(start as int)));
                assert(s@.skip(s@.len() as int) =~= Seq::<char>::empty());
            }
            start = k;
        }
    }
    proof {
        assert(s@.skip(start as int) =~= Seq::<char>::empty());
        assert(lines(s@.skip(start as int)) == Seq::<Seq<char>>::empty());
        assert(lines(s@) =~= line_views(out@));
    }
    out
}

/// Appends the characters of `s` to `v`.
pub fn push_str(v: &mut Vec<char>, s: &str)
    ensures
        final(v)@ == old(v)@ + s@,
{
    let mut c = chars_of(s);
    v.append(&mut c);
}

/// Appends the characters `s` to `v`.
pub fn push_chars(v: &mut Vec<char>, s: &[char])
    ensures
        final(v)@ == old(v)@ + s@,
{
    let mut i: usize = 0;
    let ghost start = v@;
    while i < s.len()
        invariant
            i <= s@.len(),
            v@ == start + s@.take(i as int),
        decreases s.len() - i,
    {
        v.push(s[i]);
        i += 1;
        assert(v@ =~= start + s@.take(i as int));
    }
    assert(s@.take(i as int) =~= s@);
}

/// The string `a` followed by `b` and `c`.
pub fn concat3(a: &str, b: &[char], c: &str) -> (r: String)
    ensures
        r@ == a@ + b@ + c@,
{
    let mut v: Vec<char> = Vec::new();
    push_str(&mut v, a);
    push_chars(&mut v, b);
    push_str(&mut v, c);
    string_of(&v)
}

/// A `String` copy of `s`.
pub fn owned(s: &str) -> (r: String)
    ensures
        r@ == s@,
{
    let v = chars_of(s);
    string_of(&v)
}

/// Unicode `Alphabetic` or `Numeric`, as `char::is_alphanumeric` decides it.
pub uninterp spec fn unicode_alphanumeric(c: char) -> bool;

/// Calls `char::is_alphanumeric`. The contract names its result
/// `unicode_alphanumeric(c)`; the Unicode tables behind it are not stated.
#[verifier::external_body]
pub(crate) fn is_alphanumeric(c: char) -> (r: bool)
    ensures
        r == unicode_alphanumeric(c),
{
    c.is_alphanumeric()
}

/// The Unicode lowercase mapping of a text, as `str::to_lowercase` computes it.
pub uninterp spec fn unicode_lowercase(s: Seq<char>) -> Seq<char>;

/// Calls `str::to_lowercase`. The contract names its result
/// `unicode_lowercase(s@)`; the case tables behind it are not stated.
#[verifier::external_body]
pub(crate) fn to_lowercase(s: &str) -> (r: String)
    ensures
        r@ == unicode_lowercase(s@),
{
    s.to_lowercase()
}

/// A character that can continue an identifier: alphanumeric or `_`.
pub open spec fn is_ident_char(c: char) -> bool {
    unicode_alphanumeric(c) || c == '_'
}

/// The first index of `s` holding a character that is not an identifier
/// character.
pub open spec fn first_non_ident(s: Seq<char>) -> Option<int>
    decreases s.len(),
{
    if s.len() == 0 {
        None
    } else if !is_ident_char(s[0]) {
        Some(0)
    } else {
        match first_non_ident(s.drop_first()) {
            Some(k) => Some(k + 1),
            None => None,
        }
    }
}

proof fn lemma_first_non_ident(s: Seq<char>)
    ensures
        match first_non_ident(s) {
            Some(k) => 0 <= k < s.len() && !is_ident_char(s[k]) && forall|j: int|
                0 <= j < k ==> is_ident_char(#[trigger] s[j]),
            None => forall|j: int| 0 <= j < s.len() ==> is_ident_char(#[trigger] s[j]),
        },
    decreases s.len(),
{
    if s.len() > 0 && is_ident_char(s[0]) {
        lemma_first_non_ident(s.drop_first());
        assert forall|j: int| 0 < j < s.len() implies s[j] == s.drop_first()[j - 1] by {}
    }
}

/// The identifier that follows the first occurrence of `kw` in `line`, after
/// any whitespace; `None` when `kw` is absent, no identifier character follows,
/// or the identifier runs to the end of the line.
pub open spec fn word_after(line: Seq<char>, kw: Seq<char>) -> Option<Seq<char>> {
    match find_sub(line, kw) {
        Some(i) => {
            let rest = trim_start(line.skip(i + kw.len()));
            match first_non_ident(rest) {
                Some(e) => if e == 0 {
                    None
                } else {
                    Some(rest.take(e))
                },
                None => None,
            }
        },
        None => None,
    }
}

/// The index of the first non-identifier character of `s`.
pub fn first_non_ident_exec(s: &[char]) -> (r: Option<usize>)
    ensures
        match r {
            Some(i) => first_non_ident(s@) == Some(i as int),
            None => first_non_ident(s@) is None,
        },
{
    proof {
        lemma_first_non_ident(s@);
    }
    let mut i: usize = 0;
    while i < s.len()
        invariant
            i <= s@.len(),
            forall|j: int| 0 <= j < i ==> is_ident_char(#[trigger] s@[j]),
            match first_non_ident(s@) {
                Some(k) => 0 <= k < s@.len() && !is_ident_char(s@[k]) && forall|j: int|
                    0 <= j < k ==> is_ident_char(#[trigger] s@[j]),
                None => forall|j: int| 0 <= j < s@.len() ==> is_ident_char(#[trigger] s@[j]),
            },
        decreases s.len() - i,
    {
        let c = s[i];
        if !(is_alphanumeric(c) || c == '_') {
            return Some(i);
        }
        i += 1;
    }
    None
}

/// The identifier after the first occurrence of `kw` in `line` (see
/// `word_after`).
pub fn word_after_exec(line: &[char], kw: &str) -> (r: Option<Vec<char>>)
    ensures
        match r {
            Some(w) => word_after(line@, kw@) == Some(w@),
            None => word_after(line@, kw@) is None,
        },
{
    let k = chars_of(kw);
    match find(line, k.as_slice()) {
        Some(i) => {
            assert(occurs_at(line@, i as int, k@));
            let n = line.len();
            assert(i + k@.len() <= n);
            let tail = slice_chars(line, i + k.len(), n);
            let rest = trim_start_exec(&tail);
            match first_non_ident_exec(&rest) {
                Some(e) => {
                    proof {
                        lemma_first_non_ident(rest@);
                    }
                    if e == 0 {
                        None
                    } else {
                        Some(slice_chars(&rest, 0, e))
                    }
                },
                None => None,
            }
        },
        None => None,
    }
}

/// The decimal digit character for `d < 10`.
pub open spec fn digit_char(d: nat) -> char {
    if d == 0 { '0' }
    else if d == 1 { '1' }
    else if d == 2 { '2' }
    else if d == 3 { '3' }
    else if d == 4 { '4' }
    else if d == 5 { '5' }
    else if d == 6 { '6' }
    else if d == 7 { '7' }
    else if d == 8 { '8' }
    else { '9' }
}

/// The decimal representation of `n`, as `Display` writes an unsigned integer.
pub open spec fn decimal(n: nat) -> Seq<char>
    decreases n,
{
    if n < 10 {
        seq![digit_char(n)]
    } else {
        decimal(n / 10).push(digit_char(n % 10))
    }
}

fn digit_exec(d: usize) -> (c: char)
    requires
        d < 10,
    ensures
        c == digit_char(d as nat),
{
    if d == 0 { '0' }
    else if d == 1 { '1' }
    else if d == 2 { '2' }
    else if d == 3 { '3' }
    else if d == 4 { '4' }
    else if d == 5 { '5' }
    else if d == 6 { '6' }
    else if d == 7 { '7' }
    else if d == 8 { '8' }
    else { '9' }
}

/// The decimal digits of `n`.
pub fn decimal_exec(n: usize) -> (r: Vec<char>)
    ensures
        r@ == decimal(n as nat),
    decreases n,
{
    if n < 10 {
        let mut v: Vec<char> = Vec::new();
        v.push(digit_exec(n));
        assert(v@ =~= decimal(n as nat));
        v
    } else {
        let mut v = decimal_exec(n / 10);
        v.push(digit_exec(n % 10));
        v
    }
}

/// The lines `ls` joined with `\n` between them (`[&str]::join("\n")`).
pub open spec fn join_nl(ls: Seq<Seq<char>>) -> Seq<char>
    decreases ls.len(),
{
    if ls.len() == 0 {
        seq![]
    } else if ls.len() == 1 {
        ls[0]
    } else {
        join_nl(ls.drop_last()) + seq!['\n'] + ls.last()
    }
}

/// Lines `from..to` of `ls` joined with `\n`.
pub fn join_lines_range(ls: &Vec<Vec<char>>, from: usize, to: usize) -> (r: Vec<char>)
    requires
        from <= to <= ls@.len(),
    ensures
        r@ == join_nl(line_views(ls@).subrange(from as int, to as int)),
{
    let mut out: Vec<char> = Vec::new();
    let mut i = from;
    while i < to
        invariant
            from <= i <= to <= ls@.len(),
            out@ == join_nl(line_views(ls@).subrange(from as int, i as int)),
        decreases to - i,
    {
        let ghost prev = line_views(ls@).subrange(from as int, i as int);
        if i > from {
            out.push('\n');
        }
        push_chars(&mut out, ls[i].as_slice());
        i += 1;
        proof {
            let cur = line_views(ls@).subrange(from as int, i as int);
            assert(cur.drop_last() =~= prev);
            assert(cur.last() == ls@[i - 1]@);
            if i - 1 > from {
                assert(out@ =~= join_nl(cur));
            } else {
                assert(cur.len() == 1);
                assert(out@ =~= join_nl(cur));
            }
        }
    }
    out
}

/// Up to `k` lines of `ls` starting at index `i`, joined with `\n` (what
/// `lines.iter().skip(i).take(k)` joined with `"\n"` gives).
pub open spec fn window_of(ls: Seq<Seq<char>>, i: int, k: int) -> Seq<char> {
    join_nl(ls.subrange(i, if i + k <= ls.len() { i + k } else { ls.len() as int }))
}

/// Up to `k` lines starting at line index `i`, joined with `\n`.
pub fn window_exec(ls: &Vec<Vec<char>>, i: usize, k: usize) -> (r: Vec<char>)
    requires
        i <= ls@.len(),
    ensures
        r@ == window_of(line_views(ls@), i as int, k as int),
{
    let end = if ls.len() - i >= k {
        i + k
    } else {
        ls.len()
    };
    join_lines_range(ls, i, end)
}

/// The number of non-overlapping occurrences of `needle` in `hay`, scanning
/// from the left (`str::matches(..).count()` for a non-empty needle).
pub open spec fn count_sub(hay: Seq<char>, needle: Seq<char>) -> nat
    decreases hay.len(),
{
    if needle.len() == 0 {
        0
    } else {
        match find_sub(hay, needle) {
            Some(i) => if 0 <= i && i + needle.len() <= hay.len() {
                1 + count_sub(hay.skip(i + needle.len()), needle)
            } else {
                0
            },
            None => 0,
        }
    }
}

proof fn lemma_occurs_skip(hay: Seq<char>, needle: Seq<char>, pos: int, j: int)
    requires
        0 <= pos <= hay.len(),
        0 <= j,
    ensures
        occurs_at(hay.skip(pos), j, needle) == occurs_at(hay, pos + j, needle),
{
    if j + needle.len() <= hay.len() - pos {
        assert(hay.skip(pos).subrange(j, j + needle.len()) =~= hay.subrange(
            pos + j,
            pos + j + needle.len(),
        ));
    }
}

pub proof fn lemma_find_from_skip(hay: Seq<char>, needle: Seq<char>, pos: int, r: Option<int>)
    requires
        0 <= pos <= hay.len(),
        match r {
            Some(i) => first_occurrence_from(hay, needle, pos, i),
            None => no_occurrence_from(hay, needle, pos),
        },
    ensures
        match r {
            Some(i) => find_sub(hay.skip(pos), needle) == Some(i - pos),
            None => find_sub(hay.skip(pos), needle) is None,
        },
{
    let t = hay.skip(pos);
    match r {
        Some(i) => {
            lemma_occurs_skip(hay, needle, pos, i - pos);
            assert forall|j: int| 0 <= j < i - pos implies !occurs_at(t, j, needle) by {
                lemma_occurs_skip(hay, needle, pos, j);
            }
            assert(first_occurrence_from(t, needle, 0, i - pos));
            let c = choose|k: int| first_occurrence_from(t, needle, 0, k);
            lemma_first_occurrence_unique(t, needle, i - pos, c);
        },
        None => {
            assert forall|j: int| 0 <= j implies !occurs_at(t, j, needle) by {
                lemma_occurs_skip(hay, needle, pos, j);
            }
        },
    }
}

/// `hay.matches(needle).count()` for a non-empty `needle`.
pub fn count_matches(hay: &[char], needle: &[char]) -> (r: usize)
    requires
        needle@.len() > 0,
    ensures
        r == count_sub(hay@, needle@),
{
    let mut count: usize = 0;
    let mut pos: usize = 0;
    proof {
        assert(hay@.skip(0) =~= hay@);
    }
    while pos <= hay.len()
        invariant
            pos <= hay@.len(),
            needle@.len() > 0,
            count + count_sub(hay@.skip(pos as int), needle@) == count_sub(hay@, needle@),
            count <= pos,
        decreases hay.len() + 1 - pos,
    {
        let r = find_from(hay, needle, pos);
        proof {
            lemma_find_from_skip(
                hay@,
                needle@,
                pos as int,
                match r {
                    Some(i) => Some(i as int),
                    None => None,
                },
            );
        }
        match r {
            Some(i) => {
                assert(occurs_at(hay@, i as int, needle@));
                proof {
                    assert(hay@.skip(pos as int).skip(i - pos + needle@.len()) =~= hay@.skip(
                        i + needle@.len(),
                    ));
                }
                count += 1;
                pos = i + needle.len();
            },
            None => {
                return count;
            },
        }
    }
    count
}

/// Trimming never lengthens a text.
pub proof fn lemma_trim_len(s: Seq<char>)
    ensures
        trim(s).len() <= s.len(),
{
    lemma_lead_ws_bound(s);
    let t = trim_start(s);
    lemma_trail_ws_bound(t);
}

proof fn lemma_trail_ws_bound(s: Seq<char>)
    ensures
        trail_ws(s) <= s.len(),
    decreases s.len(),
{
    if s.len() > 0 && is_ws(s.last()) {
        lemma_trail_ws_bound(s.drop_last());
    }
}


/// The views of a list of strings.
pub open spec fn string_views(v: Seq<String>) -> Seq<Seq<char>> {
    v.map_values(|s: String| s@)
}

/// Whether the characters `a` are exactly the text `s`.
pub fn eq_str(a: &[char], s: &str) -> (r: bool)
    ensures
        r == (a@ == s@),
{
    let b = chars_of(s);
    if a.len() != b.len() {
        return false;
    }
    let r = occurs_at_exec(a, 0, &b);
    assert(a@.subrange(0, b@.len() as int) =~= a@);
    r
}

/// The whitespace-separated words of `s[i..]` when the word being read so
/// far is `cur` (`str::split_whitespace`).
pub open spec fn words_from(s: Seq<char>, i: int, cur: Seq<char>) -> Seq<Seq<char>>
    decreases s.len() - i,
{
    if i >= s.len() {
        if cur.len() > 0 {
            seq![cur]
        } else {
            seq![]
        }
    } else if is_ws(s[i]) {
        (if cur.len() > 0 {
            seq![cur]
        } else {
            seq![]
        }) + words_from(s, i + 1, seq![])
    } else {
        words_from(s, i + 1, cur.push(s[i]))
    }
}

/// `str::split_whitespace`: the maximal runs of non-whitespace characters.
pub open spec fn words(s: Seq<char>) -> Seq<Seq<char>> {
    words_from(s, 0, seq![])
}

/// The pieces of `s[i..]` between occurrences of `c`, the current piece
/// being `cur` (`str::split` on a character).
pub open spec fn pieces_from(s: Seq<char>, i: int, cur: Seq<char>, c: char) -> Seq<Seq<char>>
    decreases s.len() - i,
{
    if i >= s.len() {
        seq![cur]
    } else if s[i] == c {
        seq![cur] + pieces_from(s, i + 1, seq![], c)
    } else {
        pieces_from(s, i + 1, cur.push(s[i]), c)
    }
}

/// `str::split(c)`: the pieces between occurrences of `c`, empty ones kept.
pub open spec fn split_on(s: Seq<char>, c: char) -> Seq<Seq<char>> {
    pieces_from(s, 0, seq![], c)
}

/// `ws` joined with single spaces (`[&str]::join(" ")`).
pub open spec fn join_sp(ws: Seq<Seq<char>>) -> Seq<char>
    decreases ws.len(),
{
    if ws.len() == 0 {
        seq![]
    } else if ws.len() == 1 {
        ws[0]
    } else {
        join_sp(ws.drop_last()) + seq![' '] + ws.last()
    }
}

/// The first line of `s` (`s.lines().next().unwrap_or("")`).
pub open spec fn first_line(s: Seq<char>) -> Seq<char> {
    if lines(s).len() > 0 {
        lines(s)[0]
    } else {
        seq![]
    }
}

/// `str::split_whitespace`, each word as its characters.
pub fn split_whitespace_exec(s: &[char]) -> (r: Vec<Vec<char>>)
    ensures
        line_views(r@) == words(s@),
{
    let mut out: Vec<Vec<char>> = Vec::new();
    let mut cur: Vec<char> = Vec::new();
    let mut i: usize = 0;
    while i < s.len()
        invariant
            i <= s@.len(),
            words(s@) == line_views(out@) + words_from(s@, i as int, cur@),
        decreases s.len() - i,
    {
        let ghost before = line_views(out@);
        let ghost c0 = cur@;
        if is_whitespace(s[i]) {
            if cur.len() > 0 {
                out.push(cur);
                proof {
                    assert(line_views(out@) =~= before + seq![c0]);
                }
            } else {
                assert(line_views(out@) =~= before + Seq::<Seq<char>>::empty());
            }
            cur = Vec::new();
            proof {
                assert(cur@ =~= Seq::<char>::empty());
            }
        } else {
            cur.push(s[i]);
        }
        i += 1;
    }
    let ghost before = line_views(out@);
    let ghost c0 = cur@;
    if cur.len() > 0 {
        out.push(cur);
        proof {
            assert(line_views(out@) =~= before + seq![c0]);
        }
    } else {
        assert(line_views(out@) =~= before + Seq::<Seq<char>>::empty());
    }
    out
}

/// `str::split(c)`, each piece as its characters.
pub fn split_char_exec(s: &[char], c: char) -> (r: Vec<Vec<char>>)
    ensures
        line_views(r@) == split_on(s@, c),
{
    let mut out: Vec<Vec<char>> = Vec::new();
    let mut cur: Vec<char> = Vec::new();
    let mut i: usize = 0;
    while i < s.len()
        invariant
            i <= s@.len(),
            split_on(s@, c) == line_views(out@) + pieces_from(s@, i as int, cur@, c),
        decreases s.len() - i,
    {
        let ghost before = line_views(out@);
        let ghost c0 = cur@;
        if s[i] == c {
            out.push(cur);
            proof {
                assert(line_views(out@) =~= before + seq![c0]);
            }
            cur = Vec::new();
            proof {
                assert(cur@ =~= Seq::<char>::empty());
            }
        } else {
            cur.push(s[i]);
        }
        i += 1;
    }
    let ghost before = line_views(out@);
    let ghost c0 = cur@;
    out.push(cur);
    proof {
        assert(line_views(out@) =~= before + seq![c0]);
    }
    out
}

/// The first `n` words of `ws` joined with single spaces.
pub fn join_words(ws: &Vec<Vec<char>>, n: usize) -> (r: Vec<char>)
    requires
        n <= ws@.len(),
    ensures
        r@ == join_sp(line_views(ws@).take(n as int)),
{
    let mut out: Vec<char> = Vec::new();
    let mut i: usize = 0;
    while i < n
        invariant
            i <= n <= ws@.len(),
            out@ == join_sp(line_views(ws@).take(i as int)),
        decreases n - i,
    {
        let ghost prev = line_views(ws@).take(i as int);
        if i > 0 {
            out.push(' ');
        }
        push_chars(&mut out, ws[i].as_slice());
        i += 1;
        proof {
            let cur = line_views(ws@).take(i as int);
            assert(cur.drop_last() =~= prev);
            assert(cur.last() == ws@[i - 1]@);
            assert(out@ =~= join_sp(cur));
        }
    }
    out
}

/// The first line of `s`, or nothing when `s` has no line.
pub fn first_line_exec(s: &[char]) -> (r: Vec<char>)
    ensures
        r@ == first_line(s@),
{
    let ls = lines_exec(s);
    if ls.len() > 0 {
        assert(ls@[0]@ == lines(s@)[0]);
        slice_chars(&ls[0], 0, ls[0].len())
    } else {
        Vec::new()
    }
}


/// `ws` joined with `sep` between consecutive items (`[&str]::join(sep)`).
pub open spec fn join_with(ws: Seq<Seq<char>>, sep: Seq<char>) -> Seq<char>
    decreases ws.len(),
{
    if ws.len() == 0 {
        seq![]
    } else if ws.len() == 1 {
        ws[0]
    } else {
        join_with(ws.drop_last(), sep) + sep + ws.last()
    }
}

/// The strings `ws` joined with `sep` between consecutive items.
pub fn join_strings(ws: &Vec<String>, sep: &str) -> (r: Vec<char>)
    ensures
        r@ == join_with(string_views(ws@), sep@),
{
    let mut out: Vec<char> = Vec::new();
    let mut i: usize = 0;
    while i < ws.len()
        invariant
            i <= ws@.len(),
            out@ == join_with(string_views(ws@).take(i as int), sep@),
        decreases ws.len() - i,
    {
        let ghost prev = string_views(ws@).take(i as int);
        if i > 0 {
            push_str(&mut out, sep);
        }
        let w = chars_of(ws[i].as_str());
        push_chars(&mut out, &w);
        i += 1;
        proof {
            let cur = string_views(ws@).take(i as int);
            assert(cur.drop_last() =~= prev);
            assert(cur.last() == ws@[i - 1]@);
            assert(out@ =~= join_with(cur, sep@));
        }
    }
    proof {
        assert(string_views(ws@).take(i as int) =~= string_views(ws@));
    }
    out
}

/// Whether the strings `a` and `b` hold the same text.
pub fn same_text(a: &str, b: &str) -> (r: bool)
    ensures
        r == (a@ == b@),
{
    let ca = chars_of(a);
    eq_str(&ca, b)
}


/// `str::replace(pat, rep)` for a non-empty `pat`: every occurrence, found
/// left to right without overlap, replaced by `rep`.
pub open spec fn replace_all(s: Seq<char>, pat: Seq<char>, rep: Seq<char>) -> Seq<char>
    decreases s.len(),
{
    if pat.len() == 0 {
        s
    } else {
        match find_sub(s, pat) {
            Some(i) => if 0 <= i && i + pat.len() <= s.len() {
                s.take(i) + rep + replace_all(s.skip(i + pat.len()), pat, rep)
            } else {
                s
            },
            None => s,
        }
    }
}

/// `s` with every occurrence of the non-empty `pat` replaced by `rep`.
pub fn replace_exec(s: &[char], pat: &str, rep: &str) -> (r: Vec<char>)
    requires
        pat@.len() > 0,
    ensures
        r@ == replace_all(s@, pat@, rep@),
{
    let p = chars_of(pat);
    let mut out: Vec<char> = Vec::new();
    let mut pos: usize = 0;
    proof {
        assert(s@.skip(0) =~= s@);
    }
    while pos <= s.len()
        invariant
            pos <= s@.len(),
            p@ == pat@,
            pat@.len() > 0,
            out@ + replace_all(s@.skip(pos as int), pat@, rep@) == replace_all(s@, pat@, rep@),
        decreases s.len() + 1 - pos,
    {
        let r = find_from(s, &p, pos);
        proof {
            lemma_find_from_skip(
                s@,
                p@,
                pos as int,
                match r {
                    Some(i) => Some(i as int),
                    None => None,
                },
            );
        }
        match r {
            Some(i) => {
                assert(occurs_at(s@, i as int, p@));
                let ghost before = out@;
                let piece = slice_chars(s, pos, i);
                push_chars(&mut out, &piece);
                push_str(&mut out, rep);
                proof {
                    let t = s@.skip(pos as int);
                    assert(t.take(i - pos) =~= piece@);
                    assert(t.skip(i - pos + pat@.len()) =~= s@.skip(i + pat@.len()));
                    assert(out@ =~= before + piece@ + rep@);
                }
                pos = i + p.len();
            },
            None => {
                let ghost before = out@;
                let rest = slice_chars(s, pos, s.len());
                push_chars(&mut out, &rest);
                proof {
                    assert(rest@ =~= s@.skip(pos as int));
                }
                return out;
            },
        }
    }
    out
}

} // verus!
