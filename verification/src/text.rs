//! Splitting and trimming text, character by character.

use vstd::prelude::*;

verus! {

/// The characters with the Unicode `White_Space` property, which
/// `char::is_whitespace` tests for.
pub open spec fn is_white_space(c: char) -> bool {
    let v = c as u32;
    ||| 0x9 <= v <= 0xd
    ||| v == 0x20
    ||| v == 0x85
    ||| v == 0xa0
    ||| v == 0x1680
    ||| 0x2000 <= v <= 0x200a
    ||| v == 0x2028
    ||| v == 0x2029
    ||| v == 0x202f
    ||| v == 0x205f
    ||| v == 0x3000
}

/// `s` without its leading white space.
pub open spec fn trim_start(s: Seq<char>) -> Seq<char>
    decreases s.len(),
{
    if s.len() > 0 && is_white_space(s[0]) {
        trim_start(s.drop_first())
    } else {
        s
    }
}

/// `s` without its trailing white space.
pub open spec fn trim_end(s: Seq<char>) -> Seq<char>
    decreases s.len(),
{
    if s.len() > 0 && is_white_space(s.last()) {
        trim_end(s.drop_last())
    } else {
        s
    }
}

/// `s` without leading and trailing white space, as `str::trim` gives it.
pub open spec fn trim(s: Seq<char>) -> Seq<char> {
    trim_end(trim_start(s))
}

/// The pieces of `s` between the commas, with `current` the piece read so far.
pub open spec fn split_commas_from(s: Seq<char>, current: Seq<char>) -> Seq<Seq<char>>
    decreases s.len(),
{
    if s.len() == 0 {
        seq![current]
    } else if s[0] == ',' {
        seq![current] + split_commas_from(s.drop_first(), seq![])
    } else {
        split_commas_from(s.drop_first(), current.push(s[0]))
    }
}

/// The pieces of `s` between the commas, as `str::split(',')` gives them: one
/// more piece than there are commas, empty pieces included.
pub open spec fn split_commas(s: Seq<char>) -> Seq<Seq<char>> {
    split_commas_from(s, seq![])
}

/// Whether `c` is white space.
pub fn is_white_space_char(c: char) -> (b: bool)
    ensures
        b == is_white_space(c),
{
    let v = c as u32;
    (0x9 <= v && v <= 0xd) || v == 0x20 || v == 0x85 || v == 0xa0 || v == 0x1680 || (0x2000 <= v
        && v <= 0x200a) || v == 0x2028 || v == 0x2029 || v == 0x202f || v == 0x205f || v == 0x3000
}

proof fn lemma_trim_start(s: Seq<char>, i: int)
    requires
        0 <= i <= s.len(),
        forall|j: int| 0 <= j < i ==> is_white_space(#[trigger] s[j]),
        i == s.len() || !is_white_space(s[i]),
    ensures
        trim_start(s) == s.skip(i),
    decreases i,
{
    if i == 0 {
        assert(s.skip(0) =~= s);
    } else {
        let t = s.drop_first();
        assert forall|j: int| 0 <= j < i - 1 implies is_white_space(#[trigger] t[j]) by {
            assert(t[j] == s[j + 1]);
        }
        lemma_trim_start(t, i - 1);
        assert(t.skip(i - 1) =~= s.skip(i));
    }
}

proof fn lemma_trim_end(s: Seq<char>, k: int)
    requires
        0 <= k <= s.len(),
        forall|j: int| k <= j < s.len() ==> is_white_space(#[trigger] s[j]),
        k == 0 || !is_white_space(s[k - 1]),
    ensures
        trim_end(s) == s.take(k),
    decreases s.len() - k,
{
    if k == s.len() {
        assert(s.take(k) =~= s);
    } else {
        let t = s.drop_last();
        assert(is_white_space(s[s.len() - 1]));
        assert forall|j: int| k <= j < t.len() implies is_white_space(#[trigger] t[j]) by {
            assert(t[j] == s[j]);
        }
        lemma_trim_end(t, k);
        assert(t.take(k) =~= s.take(k));
    }
}

/// `s` without leading and trailing white space.
pub fn trim_str(s: &str) -> (r: &str)
    ensures
        r@ == trim(s@),
{
    let n = s.unicode_len();
    let mut i: usize = 0;
    while i < n && is_white_space_char(s.get_char(i))
        invariant
            n == s@.len(),
            i <= n,
            forall|j: int| 0 <= j < i ==> is_white_space(#[trigger] s@[j]),
        decreases n - i,
    {
        i = i + 1;
    }
    let mut k: usize = n;
    while k > i && is_white_space_char(s.get_char(k - 1))
        invariant
            n == s@.len(),
            i <= k <= n,
            forall|j: int| k <= j < n ==> is_white_space(#[trigger] s@[j]),
        decreases k,
    {
        k = k - 1;
    }
    proof {
        lemma_trim_start(s@, i as int);
        let t = s@.skip(i as int);
        assert forall|j: int| k - i <= j < t.len() implies is_white_space(#[trigger] t[j]) by {
            assert(t[j] == s@[j + i]);
        }
        if k > i {
            assert(t[k - i - 1] == s@[k - 1]);
        }
        lemma_trim_end(t, k - i);
        assert(t.take(k - i) =~= s@.subrange(i as int, k as int));
    }
    s.substring_char(i, k)
}

/// Splits `s` at each comma.
pub fn split_commas_str(s: &str) -> (parts: Vec<&str>)
    ensures
        parts@.map_values(|p: &str| p@) == split_commas(s@),
{
    let n = s.unicode_len();
    let mut parts: Vec<&str> = Vec::new();
    let mut start: usize = 0;
    let mut i: usize = 0;
    assert(s@.skip(0) =~= s@);
    assert(s@.subrange(0, 0) =~= Seq::<char>::empty());
    while i < n
        invariant
            n == s@.len(),
            start <= i <= n,
            split_commas(s@) == parts@.map_values(|p: &str| p@) + split_commas_from(
                s@.skip(i as int),
                s@.subrange(start as int, i as int),
            ),
        decreases n - i,
    {
        let c = s.get_char(i);
        let ghost rest = s@.skip(i as int);
        let ghost cur = s@.subrange(start as int, i as int);
        assert(rest[0] == c);
        assert(rest.drop_first() =~= s@.skip(i + 1));
        if c == ',' {
            let piece = s.substring_char(start, i);
            let ghost old_parts = parts@.map_values(|p: &str| p@);
            parts.push(piece);
            assert(parts@.map_values(|p: &str| p@) =~= old_parts + seq![cur]);
            i = i + 1;
            start = i;
            assert(s@.subrange(start as int, i as int) =~= Seq::<char>::empty());
        } else {
            assert(cur.push(c) =~= s@.subrange(start as int, i + 1));
            i = i + 1;
        }
    }
    let piece = s.substring_char(start, n);
    let ghost old_parts = parts@.map_values(|p: &str| p@);
    parts.push(piece);
    assert(parts@.map_values(|p: &str| p@) =~= old_parts + seq![s@.subrange(start as int, n as int)]);
    parts
}

/// Splitting always gives at least one piece.
pub proof fn lemma_split_commas_from_len(s: Seq<char>, current: Seq<char>)
    ensures
        split_commas_from(s, current).len() >= 1,
    decreases s.len(),
{
    if s.len() > 0 {
        if s[0] == ',' {
            lemma_split_commas_from_len(s.drop_first(), seq![]);
        } else {
            lemma_split_commas_from_len(s.drop_first(), current.push(s[0]));
        }
    }
}

/// Whether `a` and `b` hold the same characters.
pub fn text_equals(a: &str, b: &str) -> (r: bool)
    ensures
        r == (a@ == b@),
{
    let n = a.unicode_len();
    if n != b.unicode_len() {
        return false;
    }
    let mut i: usize = 0;
    while i < n
        invariant
            n == a@.len(),
            n == b@.len(),
            i <= n,
            forall|j: int| 0 <= j < i ==> a@[j] == b@[j],
        decreases n - i,
    {
        if a.get_char(i) != b.get_char(i) {
            return false;
        }
        i = i + 1;
    }
    assert(a@ =~= b@);
    true
}

/// The pieces of `s` between the occurrences of `sep`, with `current` the
/// piece read so far.
pub open spec fn split_on_from(s: Seq<char>, sep: char, current: Seq<char>) -> Seq<Seq<char>>
    decreases s.len(),
{
    if s.len() == 0 {
        seq![current]
    } else if s[0] == sep {
        seq![current] + split_on_from(s.drop_first(), sep, seq![])
    } else {
        split_on_from(s.drop_first(), sep, current.push(s[0]))
    }
}

/// The pieces of `s` between the occurrences of `sep`: one more piece than
/// there are separators, empty pieces included.
pub open spec fn split_on(s: Seq<char>, sep: char) -> Seq<Seq<char>> {
    split_on_from(s, sep, seq![])
}

/// `c` does not occur in `s`.
pub open spec fn lacks(s: Seq<char>, c: char) -> bool {
    forall|i: int| 0 <= i < s.len() ==> s[i] != c
}

/// Splitting at the commas is splitting on the comma.
pub proof fn lemma_split_commas_is_split_on(s: Seq<char>, current: Seq<char>)
    ensures
        split_commas_from(s, current) == split_on_from(s, ',', current),
    decreases s.len(),
{
    if s.len() > 0 {
        if s[0] == ',' {
            lemma_split_commas_is_split_on(s.drop_first(), seq![]);
        } else {
            lemma_split_commas_is_split_on(s.drop_first(), current.push(s[0]));
        }
    }
}

/// Text without the separator is one piece.
pub proof fn lemma_split_on_lacking(s: Seq<char>, sep: char, current: Seq<char>)
    requires
        lacks(s, sep),
    ensures
        split_on_from(s, sep, current) == seq![current + s],
    decreases s.len(),
{
    if s.len() == 0 {
        assert(current + s =~= current);
    } else {
        assert(lacks(s.drop_first(), sep)) by {
            assert forall|i: int| 0 <= i < s.drop_first().len() implies s.drop_first()[i] != sep by {
                assert(s.drop_first()[i] == s[i + 1]);
            }
        }
        lemma_split_on_lacking(s.drop_first(), sep, current.push(s[0]));
        assert(current.push(s[0]) + s.drop_first() =~= current + s);
    }
}

/// A separator between two texts splits them apart: the pieces of
/// `p + sep + q` are those of `p` followed by those of `q`.
pub proof fn lemma_split_on_join(p: Seq<char>, sep: char, q: Seq<char>, current: Seq<char>)
    ensures
        split_on_from(p + seq![sep] + q, sep, current) == split_on_from(p, sep, current) + split_on(q, sep),
    decreases p.len(),
{
    let t = p + seq![sep] + q;
    if p.len() == 0 {
        assert(t.drop_first() =~= q);
        assert(t[0] == sep);
    } else {
        assert(t[0] == p[0]);
        assert(t.drop_first() =~= p.drop_first() + seq![sep] + q);
        if p[0] == sep {
            lemma_split_on_join(p.drop_first(), sep, q, seq![]);
            assert(split_on_from(t, sep, current) =~= seq![current] + (split_on_from(p.drop_first(), sep, seq![]) + split_on(q, sep)));
        } else {
            lemma_split_on_join(p.drop_first(), sep, q, current.push(p[0]));
        }
    }
}

/// The pieces of `p + sep + q`, where `p` lacks the separator.
pub proof fn lemma_split_on_first(p: Seq<char>, sep: char, q: Seq<char>)
    requires
        lacks(p, sep),
    ensures
        split_on(p + seq![sep] + q, sep) == seq![p] + split_on(q, sep),
{
    lemma_split_on_join(p, sep, q, seq![]);
    lemma_split_on_lacking(p, sep, seq![]);
    assert(Seq::<char>::empty() + p =~= p);
}

/// `c` is missing from a concatenation where it is missing from both parts.
pub proof fn lemma_lacks_add(a: Seq<char>, b: Seq<char>, c: char)
    requires
        lacks(a, c),
        lacks(b, c),
    ensures
        lacks(a + b, c),
{
    assert forall|i: int| 0 <= i < (a + b).len() implies (a + b)[i] != c by {
        if i >= a.len() {
            assert((a + b)[i] == b[i - a.len()]);
        }
    }
}

} // verus!
