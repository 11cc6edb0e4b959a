//! Character-level helpers: white space, trimming, splitting, suffixes and
//! case-insensitive comparison. Every text is modelled by its sequence of
//! characters.

use vstd::prelude::*;
use vstd::string::*;

verus! {

/// A text as the contracts see it.
pub type Text = Seq<char>;

/// The views of a list of strings, one for one.
pub open spec fn texts(v: Seq<String>) -> Seq<Text> {
    Seq::new(v.len(), |i: int| v[i]@)
}

/// Whether `c` has the Unicode property `White_Space`.
pub open spec fn is_white_space(c: char) -> bool {
    let n = c as u32;
    ||| 0x09 <= n <= 0x0D
    ||| n == 0x20
    ||| n == 0x85
    ||| n == 0xA0
    ||| n == 0x1680
    ||| 0x2000 <= n <= 0x200A
    ||| n == 0x2028
    ||| n == 0x2029
    ||| n == 0x202F
    ||| n == 0x205F
    ||| n == 0x3000
}

/// `s` without its leading white space.
pub open spec fn trim_start(s: Text) -> Text
    decreases s.len(),
{
    if s.len() > 0 && is_white_space(s.first()) {
        trim_start(s.drop_first())
    } else {
        s
    }
}

/// `s` without its trailing white space.
pub open spec fn trim_end(s: Text) -> Text
    decreases s.len(),
{
    if s.len() > 0 && is_white_space(s.last()) {
        trim_end(s.drop_last())
    } else {
        s
    }
}

/// `s` without leading and trailing white space.
pub open spec fn trimmed(s: Text) -> Text {
    trim_end(trim_start(s))
}

/// The pieces of `s` between occurrences of `sep`: one more piece than there
/// are separators, empty pieces included.
pub open spec fn split_on(s: Text, sep: char) -> Seq<Text>
    decreases s.len(),
{
    if s.len() == 0 {
        seq![Seq::<char>::empty()]
    } else {
        let before = split_on(s.drop_last(), sep);
        if s.last() == sep {
            before.push(Seq::<char>::empty())
        } else {
            before.drop_last().push(before.last().push(s.last()))
        }
    }
}

/// The lines of a text, each trimmed: its pieces between line feeds, without
/// the last piece where that is empty.
pub open spec fn trimmed_lines(s: Text) -> Seq<Text> {
    let pieces = split_on(s, '\n');
    let lines = if pieces.last().len() == 0 {
        pieces.drop_last()
    } else {
        pieces
    };
    Seq::new(lines.len(), |i: int| trimmed(lines[i]))
}

/// The pieces put together again with `sep` between them.
pub open spec fn joined(parts: Seq<Text>, sep: Text) -> Text
    decreases parts.len(),
{
    if parts.len() == 0 {
        Seq::<char>::empty()
    } else if parts.len() == 1 {
        parts[0]
    } else {
        joined(parts.drop_last(), sep) + sep + parts.last()
    }
}

/// Whether `s` ends with `suffix`.
pub open spec fn has_suffix(s: Text, suffix: Text) -> bool {
    s.len() >= suffix.len() && s.subrange(s.len() - suffix.len(), s.len() as int) == suffix
}

/// `s` with every trailing repetition of `suffix` removed.
pub open spec fn without_suffixes(s: Text, suffix: Text) -> Text
    decreases s.len(),
{
    if suffix.len() > 0 && has_suffix(s, suffix) {
        without_suffixes(s.subrange(0, s.len() - suffix.len()), suffix)
    } else {
        s
    }
}

/// The lower-case form of a text, as `str::to_lowercase` computes it from the
/// Unicode case mappings.
pub uninterp spec fn lowercase_of(s: Seq<char>) -> Seq<char>;

/// Whether two texts are equal once both are lower-cased.
pub open spec fn same_ignoring_case(a: Text, b: Text) -> bool {
    lowercase_of(a) == lowercase_of(b)
}

/// Calls `str::to_lowercase`. The contract only names the result: it is the
/// lower-case form of the argument, a function of the argument alone.
#[verifier::external_body]
pub(crate) fn to_lowercase(s: &str) -> (r: String)
    ensures
        r@ == lowercase_of(s@),
{
    s.to_lowercase()
}

/// Where the first `i` characters are white space and the next one is not,
/// trimming the start removes exactly those.
proof fn lemma_trim_start_skip(s: Text, i: int)
    requires
        0 <= i <= s.len(),
        forall|j: int| 0 <= j < i ==> is_white_space(#[trigger] s[j]),
        i == s.len() || !is_white_space(s[i]),
    ensures
        trim_start(s) == s.skip(i),
    decreases i,
{
    if i == 0 {
        assert(s.skip(0) =~= s);
    } else {
        let t = s.drop_first();
        assert forall|j: int| 0 <= j < i - 1 implies is_white_space(#[trigger] t[j]) by {
            assert(t[j] == s[j + 1]);
        }
        lemma_trim_start_skip(t, i - 1);
        assert(t.skip(i - 1) =~= s.skip(i));
    }
}

/// Where the characters from `k` on are white space and the one before is
/// not, trimming the end keeps exactly the first `k`.
proof fn lemma_trim_end_take(s: Text, k: int)
    requires
        0 <= k <= s.len(),
        forall|j: int| k <= j < s.len() ==> is_white_space(#[trigger] s[j]),
        k == 0 || !is_white_space(s[k - 1]),
    ensures
        trim_end(s) == s.take(k),
    decreases s.len() - k,
{
    if k == s.len() {
        assert(s.take(k) =~= s);
    } else {
        let t = s.drop_last();
        lemma_trim_end_take(t, k);
        assert(t.take(k) =~= s.take(k));
    }
}

/// Whether `c` is white space.
pub fn is_whitespace(c: char) -> (r: bool)
    ensures
        r == is_white_space(c),
{
    let n: u32 = c as u32;
    (0x09 <= n && n <= 0x0D) || n == 0x20 || n == 0x85 || n == 0xA0 || n == 0x1680 || (0x2000 <= n
        && n <= 0x200A) || n == 0x2028 || n == 0x2029 || n == 0x202F || n == 0x205F || n == 0x3000
}

/// The characters of `s`, in order.
pub fn chars_of(s: &str) -> (v: Vec<char>)
    ensures
        v@ == s@,
{
    broadcast use vstd::string::axiom_spec_iter;

    let mut v: Vec<char> = Vec::new();
    for c in it: s.chars()
        invariant
            it.seq() == s@,
            v@ == it.seq().take(it.index()),
    {
        v.push(c);
    }
    v
}

/// `s` without leading and trailing white space.
pub fn trim(s: &str) -> (r: String)
    ensures
        r@ == trimmed(s@),
{
    let v = chars_of(s);
    let n: usize = v.len();
    let mut start: usize = 0;
    while start < n && is_whitespace(v[start])
        invariant
            n == v.len(),
            start <= n,
            forall|j: int| 0 <= j < start ==> is_white_space(#[trigger] v@[j]),
        decreases n - start,
    {
        start += 1;
    }
    let mut end: usize = n;
    while end > start && is_whitespace(v[end - 1])
        invariant
            n == v.len(),
            start <= end <= n,
            forall|j: int| end <= j < n ==> is_white_space(#[trigger] v@[j]),
        decreases end,
    {
        end -= 1;
    }
    proof {
        let rest = v@.skip(start as int);
        lemma_trim_start_skip(v@, start as int);
        let k = end - start;
        assert forall|j: int| k <= j < rest.len() implies is_white_space(#[trigger] rest[j]) by {
            assert(rest[j] == v@[j + start]);
        }
        if k > 0 {
            assert(rest[k - 1] == v@[end - 1]);
        }
        lemma_trim_end_take(rest, k);
        assert(rest.take(k) =~= v@.subrange(start as int, end as int));
    }
    s.substring_char(start, end).to_owned()
}

/// Splits `s` at every occurrence of `sep`.
pub fn split(s: &str, sep: char) -> (parts: Vec<String>)
    ensures
        texts(parts@) == split_on(s@, sep),
{
    let v = chars_of(s);
    let n: usize = v.len();
    let mut parts: Vec<String> = Vec::new();
    let mut start: usize = 0;
    let mut i: usize = 0;
    assert(v@.take(0) =~= Seq::<char>::empty());
    assert(texts(parts@).push(v@.subrange(0, 0)) =~= split_on(v@.take(0), sep));
    while i < n
        invariant
            n == v.len(),
            v@ == s@,
            start <= i <= n,
            texts(parts@).push(v@.subrange(start as int, i as int)) == split_on(
                v@.take(i as int),
                sep,
            ),
        decreases n - i,
    {
        let ghost before = split_on(v@.take(i as int), sep);
        proof {
            let next = v@.take(i + 1);
            assert(next.drop_last() =~= v@.take(i as int));
            assert(next.last() == v@[i as int]);
        }
        if v[i] == sep {
            let piece = s.substring_char(start, i).to_owned();
            proof {
                assert(texts(parts@.push(piece)) =~= texts(parts@).push(piece@));
            }
            parts.push(piece);
            start = i + 1;
            proof {
                assert(v@.subrange(start as int, start as int) =~= Seq::<char>::empty());
            }
        } else {
            proof {
                assert(before.drop_last() =~= texts(parts@));
                assert(before.last().push(v@[i as int]) =~= v@.subrange(
                    start as int,
                    i + 1,
                ));
            }
        }
        i += 1;
    }
    let piece = s.substring_char(start, n).to_owned();
    proof {
        assert(v@.take(n as int) =~= v@);
        assert(texts(parts@.push(piece)) =~= texts(parts@).push(piece@));
    }
    parts.push(piece);
    parts
}

/// No piece of a split holds the separator.
pub proof fn lemma_split_pieces_hold_no_separator(s: Text, sep: char)
    ensures
        forall|i: int, j: int|
            0 <= i < split_on(s, sep).len() && 0 <= j < split_on(s, sep)[i].len() ==> split_on(
                s,
                sep,
            )[i][j] != sep,
    decreases s.len(),
{
    if s.len() > 0 {
        lemma_split_nonempty(s.drop_last(), sep);
        lemma_split_pieces_hold_no_separator(s.drop_last(), sep);
        let before = split_on(s.drop_last(), sep);
        assert forall|i: int, j: int|
            0 <= i < split_on(s, sep).len() && 0 <= j < split_on(s, sep)[i].len() implies split_on(
            s,
            sep,
        )[i][j] != sep by {
            if i < before.len() - 1 {
                assert(split_on(s, sep)[i] == before[i]);
            } else if s.last() != sep {
                if j < before.last().len() {
                    assert(split_on(s, sep)[i][j] == before[before.len() - 1][j]);
                }
            } else if i < before.len() {
                assert(split_on(s, sep)[i] == before[i]);
            }
        }
    }
}

/// Joining the pieces of a split with the separator gives the text back.
pub proof fn lemma_join_of_split(s: Text, sep: char)
    ensures
        joined(split_on(s, sep), seq![sep]) == s,
    decreases s.len(),
{
    if s.len() > 0 {
        let front = s.drop_last();
        lemma_split_nonempty(front, sep);
        lemma_join_of_split(front, sep);
        let before = split_on(front, sep);
        let parts = split_on(s, sep);
        if s.last() == sep {
            assert(parts.drop_last() =~= before);
            assert(joined(parts, seq![sep]) =~= front + seq![sep] + Seq::<char>::empty());
            assert(front + seq![sep] + Seq::<char>::empty() =~= s);
        } else if before.len() == 1 {
            assert(before[0] == front);
            assert(parts[0] =~= s);
        } else {
            let shorter = before.drop_last();
            assert(parts.drop_last() =~= shorter);
            assert(joined(before, seq![sep]) == joined(shorter, seq![sep]) + seq![sep]
                + before.last());
            assert(joined(parts, seq![sep]) =~= joined(shorter, seq![sep]) + seq![sep]
                + before.last().push(s.last()));
            assert(joined(shorter, seq![sep]) + seq![sep] + before.last().push(s.last()) =~= (
            joined(shorter, seq![sep]) + seq![sep] + before.last()).push(s.last()));
            assert(front.push(s.last()) =~= s);
        }
    } else {
        assert(split_on(s, sep)[0] =~= s);
    }
}

/// What trimming leaves neither starts nor ends with white space.
pub proof fn lemma_trimmed_has_no_outer_white_space(s: Text)
    ensures
        trimmed(s).len() > 0 ==> !is_white_space(trimmed(s).first()) && !is_white_space(
            trimmed(s).last(),
        ),
{
    lemma_trim_start_shape(s);
    lemma_trim_end_shape(trim_start(s));
}

/// Trimming the start leaves a tail of the text that does not start with
/// white space.
proof fn lemma_trim_start_shape(s: Text)
    ensures
        trim_start(s).len() <= s.len(),
        trim_start(s) == s.skip(s.len() - trim_start(s).len()),
        trim_start(s).len() > 0 ==> !is_white_space(trim_start(s).first()),
    decreases s.len(),
{
    if s.len() > 0 && is_white_space(s.first()) {
        let t = s.drop_first();
        lemma_trim_start_shape(t);
        assert(t.skip(t.len() - trim_start(t).len()) =~= s.skip(s.len() - trim_start(t).len()));
    } else {
        assert(s.skip(0) =~= s);
    }
}

/// Trimming the end leaves a head of the text that does not end with white
/// space.
proof fn lemma_trim_end_shape(s: Text)
    ensures
        trim_end(s).len() <= s.len(),
        trim_end(s) == s.take(trim_end(s).len() as int),
        trim_end(s).len() > 0 ==> !is_white_space(trim_end(s).last()),
    decreases s.len(),
{
    if s.len() > 0 && is_white_space(s.last()) {
        let t = s.drop_last();
        lemma_trim_end_shape(t);
        assert(t.take(trim_end(t).len() as int) =~= s.take(trim_end(t).len() as int));
    } else {
        assert(s.take(s.len() as int) =~= s);
    }
}

/// A split always gives at least one piece.
pub proof fn lemma_split_nonempty(s: Text, sep: char)
    ensures
        split_on(s, sep).len() >= 1,
    decreases s.len(),
{
    if s.len() > 0 {
        lemma_split_nonempty(s.drop_last(), sep);
    }
}

/// The lines of a text, each trimmed.
pub fn lines(s: &str) -> (r: Vec<String>)
    ensures
        texts(r@) == trimmed_lines(s@),
{
    let pieces = split(s, '\n');
    proof {
        lemma_split_nonempty(s@, '\n');
    }
    let total: usize = pieces.len();
    let n: usize = if pieces[total - 1].as_str().unicode_len() == 0 {
        total - 1
    } else {
        total
    };
    let mut r: Vec<String> = Vec::new();
    let mut i: usize = 0;
    while i < n
        invariant
            n <= pieces.len(),
            i <= n,
            r@.len() == i,
            forall|j: int| 0 <= j < i ==> (#[trigger] r@[j])@ == trimmed(pieces@[j]@),
        decreases n - i,
    {
        r.push(trim(pieces[i].as_str()));
        i += 1;
    }
    proof {
        assert(texts(r@) =~= trimmed_lines(s@));
    }
    r
}

/// Whether the first `len` characters of `s` end with the characters `suffix`.
fn chars_end_with(s: &Vec<char>, len: usize, suffix: &Vec<char>) -> (r: bool)
    requires
        len <= s.len(),
    ensures
        r == has_suffix(s@.take(len as int), suffix@),
{
    let m: usize = suffix.len();
    if len < m {
        return false;
    }
    let base: usize = len - m;
    let mut i: usize = 0;
    while i < m
        invariant
            m == suffix.len(),
            len <= s.len(),
            base + m == len,
            i <= m,
            forall|j: int| 0 <= j < i ==> s@[base + j] == #[trigger] suffix@[j],
        decreases m - i,
    {
        if s[base + i] != suffix[i] {
            proof {
                let t = s@.take(len as int);
                assert(t.subrange(t.len() - m, t.len() as int)[i as int] == s@[base + i]);
            }
            return false;
        }
        i += 1;
    }
    proof {
        let t = s@.take(len as int);
        assert(t.subrange(t.len() - m, t.len() as int) =~= suffix@);
    }
    true
}

/// Whether `s` ends with `suffix`.
pub fn ends_with(s: &str, suffix: &str) -> (r: bool)
    ensures
        r == has_suffix(s@, suffix@),
{
    let v = chars_of(s);
    let w = chars_of(suffix);
    proof {
        assert(v@.take(v@.len() as int) =~= v@);
    }
    chars_end_with(&v, v.len(), &w)
}

/// `s` with every trailing repetition of `suffix` removed.
pub fn strip_suffixes(s: &str, suffix: &str) -> (r: String)
    ensures
        r@ == without_suffixes(s@, suffix@),
{
    let v = chars_of(s);
    let w = chars_of(suffix);
    let m: usize = w.len();
    let mut len: usize = v.len();
    proof {
        assert(v@.take(len as int) =~= v@);
    }
    if m > 0 {
        while chars_end_with(&v, len, &w)
            invariant
                m == w.len(),
                m > 0,
                w@ == suffix@,
                v@ == s@,
                len <= v.len(),
                without_suffixes(s@, suffix@) == without_suffixes(v@.take(len as int), suffix@),
            decreases len,
        {
            proof {
                let t = v@.take(len as int);
                assert(t.subrange(0, t.len() - m) =~= v@.take(len - m));
            }
            len -= m;
        }
    }
    proof {
        assert(v@.take(len as int) =~= s@.subrange(0, len as int));
    }
    s.substring_char(0, len).to_owned()
}

/// Whether two strings hold the same characters.
pub fn same_text(a: &str, b: &str) -> (r: bool)
    ensures
        r == (a@ == b@),
{
    let x = chars_of(a);
    let y = chars_of(b);
    let n: usize = x.len();
    if y.len() != n {
        return false;
    }
    let mut i: usize = 0;
    while i < n
        invariant
            n == x.len(),
            n == y.len(),
            i <= n,
            x@ == a@,
            y@ == b@,
            forall|j: int| 0 <= j < i ==> x@[j] == y@[j],
        decreases n - i,
    {
        if x[i] != y[i] {
            return false;
        }
        i += 1;
    }
    assert(x@ =~= y@);
    true
}

/// Whether `a` and `b` are equal once both are lower-cased.
pub fn eq_ignore_case(a: &str, b: &str) -> (r: bool)
    ensures
        r == same_ignoring_case(a@, b@),
{
    let x = to_lowercase(a);
    let y = to_lowercase(b);
    x == y
}

/// `a` followed by `b`.
pub fn concat2(a: &str, b: &str) -> (r: String)
    ensures
        r@ == a@ + b@,
{
    let mut r = String::from_str(a);
    r.append(b);
    r
}

/// `a`, `b` and `c` in a row.
pub fn concat3(a: &str, b: &str, c: &str) -> (r: String)
    ensures
        r@ == a@ + b@ + c@,
{
    let mut r = String::from_str(a);
    r.append(b);
    r.append(c);
    r
}

/// The strings of `parts` with `sep` between them.
pub fn join(parts: &Vec<String>, sep: &str) -> (r: String)
    ensures
        r@ == joined(texts(parts@), sep@),
{
    let mut r = String::new();
    let n: usize = parts.len();
    let mut i: usize = 0;
    while i < n
        invariant
            n == parts.len(),
            i <= n,
            r@ == joined(texts(parts@).take(i as int), sep@),
        decreases n - i,
    {
        proof {
            let upto = texts(parts@).take(i + 1);
            assert(upto.drop_last() =~= texts(parts@).take(i as int));
            assert(upto.last() == parts@[i as int]@);
            if i == 0 {
                assert(Seq::<char>::empty() + parts@[0]@ =~= parts@[0]@);
            }
        }
        if i > 0 {
            r.append(sep);
        }
        r.append(parts[i].as_str());
        i += 1;
    }
    proof {
        assert(texts(parts@).take(n as int) =~= texts(parts@));
    }
    r
}

} // verus!
