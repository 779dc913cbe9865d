//! Character-level text utilities used throughout the library.
//!
//! Strings are modelled by their view, a `Seq<char>`; every function here is
//! stated over that view.

use vstd::prelude::*;

verus! {

/// Appends one character to a `String` (std's `String::push`).
/// Contract: the view grows by exactly that character.
#[verifier::external_body]
pub(crate) fn push_char(s: &mut String, c: char)
    ensures
        final(s)@ == old(s)@.push(c),
{
    s.push(c);
}

/// The characters of `s`, in order.
pub fn to_chars(s: &str) -> (v: Vec<char>)
    ensures
        v@ == s@,
{
    let n = s.unicode_len();
    let mut v: Vec<char> = Vec::new();
    let mut i: usize = 0;
    while i < n
        invariant
            n == s@.len(),
            i <= n,
            v@ == s@.subrange(0, i as int),
        decreases n - i,
    {
        let c = s.get_char(i);
        v.push(c);
        i = i + 1;
        assert(v@ =~= s@.subrange(0, i as int));
    }
    assert(v@ =~= s@);
    v
}

/// A `String` holding exactly the characters of `v`.
pub fn from_chars(v: &[char]) -> (s: String)
    ensures
        s@ == v@,
{
    let mut s = String::new();
    let mut i: usize = 0;
    while i < v.len()
        invariant
            i <= v@.len(),
            s@ == v@.subrange(0, i as int),
        decreases v@.len() - i,
    {
        push_char(&mut s, v[i]);
        i = i + 1;
        assert(s@ =~= v@.subrange(0, i as int));
    }
    assert(s@ =~= v@);
    s
}


/// A copy of `v[lo..hi]` as a `String`.
pub fn string_from_range(v: &[char], lo: usize, hi: usize) -> (s: String)
    requires
        lo <= hi <= v@.len(),
    ensures
        s@ == v@.subrange(lo as int, hi as int),
{
    let mut s = String::new();
    let mut i: usize = lo;
    while i < hi
        invariant
            lo <= i <= hi,
            hi <= v@.len(),
            s@ == v@.subrange(lo as int, i as int),
        decreases hi - i,
    {
        push_char(&mut s, v[i]);
        i = i + 1;
        assert(s@ =~= v@.subrange(lo as int, i as int));
    }
    s
}

// ---------------------------------------------------------------------
// Whitespace and trimming
// ---------------------------------------------------------------------

/// Unicode `White_Space` property, the definition `char::is_whitespace`
/// and `str::trim` document.
pub open spec fn is_unicode_whitespace(c: char) -> bool {
    let u = c as u32;
    ||| 0x9 <= u <= 0xD
    ||| u == 0x20
    ||| u == 0x85
    ||| u == 0xA0
    ||| u == 0x1680
    ||| 0x2000 <= u <= 0x200A
    ||| u == 0x2028
    ||| u == 0x2029
    ||| u == 0x202F
    ||| u == 0x205F
    ||| u == 0x3000
}

pub fn is_whitespace(c: char) -> (b: bool)
    ensures
        b == is_unicode_whitespace(c),
{
    let u = c as u32;
    (0x9 <= u && u <= 0xD) || u == 0x20 || u == 0x85 || u == 0xA0 || u == 0x1680 || (0x2000
        <= u && u <= 0x200A) || u == 0x2028 || u == 0x2029 || u == 0x202F || u == 0x205F || u
        == 0x3000
}

/// `s` without its leading whitespace.
pub open spec fn trim_start_seq(s: Seq<char>) -> Seq<char>
    decreases s.len(),
{
    if s.len() > 0 && is_unicode_whitespace(s[0]) {
        trim_start_seq(s.drop_first())
    } else {
        s
    }
}

/// `s` without its trailing whitespace.
pub open spec fn trim_end_seq(s: Seq<char>) -> Seq<char>
    decreases s.len(),
{
    if s.len() > 0 && is_unicode_whitespace(s.last()) {
        trim_end_seq(s.drop_last())
    } else {
        s
    }
}

/// `s` without leading and trailing whitespace (`str::trim`).
pub open spec fn trim_seq(s: Seq<char>) -> Seq<char> {
    trim_end_seq(trim_start_seq(s))
}

/// `s` without any trailing occurrence of `c` (`str::trim_end_matches(c)`).
pub open spec fn trim_end_char_seq(s: Seq<char>, c: char) -> Seq<char>
    decreases s.len(),
{
    if s.len() > 0 && s.last() == c {
        trim_end_char_seq(s.drop_last(), c)
    } else {
        s
    }
}

/// Index of the first non-whitespace character of `v[..n]` (or `n`).
fn skip_leading_whitespace(v: &Vec<char>) -> (i: usize)
    ensures
        i <= v@.len(),
        trim_start_seq(v@) == v@.subrange(i as int, v@.len() as int),
{
    let n = v.len();
    let mut i: usize = 0;
    assert(v@.subrange(0, n as int) =~= v@);
    while i < n && is_whitespace(v[i])
        invariant
            n == v@.len(),
            i <= n,
            trim_start_seq(v@) == trim_start_seq(v@.subrange(i as int, n as int)),
        decreases n - i,
    {
        let ghost sub = v@.subrange(i as int, n as int);
        assert(sub.drop_first() =~= v@.subrange(i + 1, n as int));
        i = i + 1;
    }
    assert(v@.subrange(0, n as int) =~= v@);
    if i == n {
        assert(v@.subrange(i as int, n as int) =~= Seq::<char>::empty());
    }
    i
}

/// Largest `j >= lo` such that `v[lo..j]` has no trailing whitespace.
fn skip_trailing_whitespace(v: &Vec<char>, lo: usize) -> (j: usize)
    requires
        lo <= v@.len(),
    ensures
        lo <= j <= v@.len(),
        trim_end_seq(v@.subrange(lo as int, v@.len() as int)) == v@.subrange(lo as int, j as int),
{
    let n = v.len();
    let mut j: usize = n;
    while j > lo && is_whitespace(v[j - 1])
        invariant
            n == v@.len(),
            lo <= j <= n,
            trim_end_seq(v@.subrange(lo as int, n as int)) == trim_end_seq(
                v@.subrange(lo as int, j as int),
            ),
        decreases j,
    {
        let ghost sub = v@.subrange(lo as int, j as int);
        assert(sub.drop_last() =~= v@.subrange(lo as int, j - 1));
        j = j - 1;
    }
    if j == lo {
        assert(v@.subrange(lo as int, j as int) =~= Seq::<char>::empty());
    }
    j
}

/// `str::trim`: `s` without leading and trailing Unicode whitespace.
pub fn trim(s: &str) -> (r: String)
    ensures
        r@ == trim_seq(s@),
{
    let v = to_chars(s);
    let i = skip_leading_whitespace(&v);
    let j = skip_trailing_whitespace(&v, i);
    string_from_range(v.as_slice(), i, j)
}

/// `str::trim_end_matches(c)` for a single character.
pub fn trim_end_char(s: &str, c: char) -> (r: String)
    ensures
        r@ == trim_end_char_seq(s@, c),
{
    let v = to_chars(s);
    let n = v.len();
    let mut j: usize = n;
    assert(v@.subrange(0, n as int) =~= s@);
    while j > 0 && v[j - 1] == c
        invariant
            n == v@.len(),
            j <= n,
            trim_end_char_seq(s@, c) == trim_end_char_seq(v@.subrange(0, j as int), c),
        decreases j,
    {
        let ghost sub = v@.subrange(0, j as int);
        assert(sub.drop_last() =~= v@.subrange(0, j - 1));
        j = j - 1;
    }
    assert(v@.subrange(0, n as int) =~= v@);
    if j == 0 {
        assert(v@.subrange(0, 0) =~= Seq::<char>::empty());
    }
    string_from_range(v.as_slice(), 0, j)
}

// ---------------------------------------------------------------------
// Case mapping
// ---------------------------------------------------------------------

/// What `str::to_lowercase` returns for a string with these characters
/// (Unicode's full lowercase mapping).
pub uninterp spec fn unicode_lowercase(s: Seq<char>) -> Seq<char>;

/// An ASCII upper-case letter lowered; any other character unchanged.
pub open spec fn ascii_lower_char(c: char) -> char {
    if 'A' <= c <= 'Z' {
        ((c as int) + 32) as char
    } else {
        c
    }
}

pub open spec fn all_ascii(s: Seq<char>) -> bool {
    forall|i: int| 0 <= i < s.len() ==> (#[trigger] s[i] as int) < 128
}

/// std's `str::to_lowercase`. Contract: the result is the Unicode lowercase
/// mapping of `s`, a function of `s` alone; on ASCII text that mapping lowers
/// `A`..`Z` and keeps every other character (Unicode's lowercase mapping of
/// the ASCII range). Beyond ASCII the mapping is left unsaid.
#[verifier::external_body]
pub(crate) fn to_lowercase(s: &str) -> (r: String)
    ensures
        r@ == unicode_lowercase(s@),
        all_ascii(s@) ==> r@ == s@.map_values(|c: char| ascii_lower_char(c)),
{
    s.to_lowercase()
}

// ---------------------------------------------------------------------
// Prefix, suffix, substring
// ---------------------------------------------------------------------

pub open spec fn seq_starts_with(s: Seq<char>, p: Seq<char>) -> bool {
    p.len() <= s.len() && s.subrange(0, p.len() as int) == p
}

pub open spec fn seq_ends_with(s: Seq<char>, p: Seq<char>) -> bool {
    p.len() <= s.len() && s.subrange(s.len() - p.len(), s.len() as int) == p
}

pub open spec fn occurs_at(s: Seq<char>, p: Seq<char>, i: int) -> bool {
    0 <= i && i + p.len() <= s.len() && s.subrange(i, i + p.len()) == p
}

pub open spec fn seq_contains_seq(s: Seq<char>, p: Seq<char>) -> bool {
    exists|i: int| occurs_at(s, p, i)
}

/// Whether `p` occurs in `v` at position `i`.
pub fn matches_at(v: &[char], p: &[char], i: usize) -> (b: bool)
    ensures
        b == occurs_at(v@, p@, i as int),
{
    let vl = v.len();
    if i > vl || p.len() > vl - i {
        return false;
    }
    let mut k: usize = 0;
    while k < p.len()
        invariant
            vl == v@.len(),
            i + p@.len() <= v@.len(),
            k <= p@.len(),
            forall|m: int| 0 <= m < k ==> v@[i + m] == p@[m],
        decreases p@.len() - k,
    {
        assert(i + k < v@.len());
        if v[i + k] != p[k] {
            assert(v@.subrange(i as int, i + p@.len())[k as int] != p@[k as int]);
            return false;
        }
        k = k + 1;
    }
    assert(v@.subrange(i as int, i + p@.len()) =~= p@);
    true
}

/// `str::starts_with` with a string pattern.
pub fn starts_with(s: &str, p: &str) -> (b: bool)
    ensures
        b == seq_starts_with(s@, p@),
{
    let v = to_chars(s);
    let pv = to_chars(p);
    matches_at(v.as_slice(), pv.as_slice(), 0)
}

/// `str::ends_with` with a string pattern.
pub fn ends_with(s: &str, p: &str) -> (b: bool)
    ensures
        b == seq_ends_with(s@, p@),
{
    let v = to_chars(s);
    let pv = to_chars(p);
    if pv.len() > v.len() {
        return false;
    }
    matches_at(v.as_slice(), pv.as_slice(), v.len() - pv.len())
}

/// `str::contains` with a string pattern.
pub fn contains(s: &str, p: &str) -> (b: bool)
    ensures
        b == seq_contains_seq(s@, p@),
{
    let v = to_chars(s);
    let pv = to_chars(p);
    let n = v.len();
    let mut i: usize = 0;
    while i < n
        invariant
            n == v@.len(),
            v@ == s@,
            pv@ == p@,
            i <= n,
            forall|k: int| 0 <= k < i ==> !occurs_at(s@, p@, k),
        decreases n - i,
    {
        if matches_at(v.as_slice(), pv.as_slice(), i) {
            return true;
        }
        i = i + 1;
    }
    let last = matches_at(v.as_slice(), pv.as_slice(), n);
    assert forall|k: int| k != n && #[trigger] occurs_at(s@, p@, k) implies false by {
        if k > n {
            assert(k + p@.len() > s@.len());
        }
    }
    last
}


/// `a == b` on string slices.
pub fn str_eq(a: &str, b: &str) -> (r: bool)
    ensures
        r == (a@ == b@),
{
    let av = to_chars(a);
    let bv = to_chars(b);
    if av.len() != bv.len() {
        return false;
    }
    let r = matches_at(av.as_slice(), bv.as_slice(), 0);
    assert(r ==> av@.subrange(0, bv@.len() as int) =~= av@);
    proof {
        if a@ == b@ {
            assert(av@.subrange(0, bv@.len() as int) =~= bv@);
        }
    }
    r
}

/// `str::strip_prefix` with a string pattern.
pub fn strip_prefix(s: &str, p: &str) -> (r: Option<String>)
    ensures
        seq_starts_with(s@, p@) ==> (r matches Some(t) && t@ == s@.subrange(p@.len() as int, s@.len() as int)),
        !seq_starts_with(s@, p@) ==> r is None,
{
    let v = to_chars(s);
    let pv = to_chars(p);
    if matches_at(v.as_slice(), pv.as_slice(), 0) {
        Some(string_from_range(v.as_slice(), pv.len(), v.len()))
    } else {
        None
    }
}

/// Whether `c` occurs in `s`.
pub fn contains_char(s: &str, c: char) -> (r: bool)
    ensures
        r == s@.contains(c),
{
    let v = to_chars(s);
    let mut i: usize = 0;
    while i < v.len()
        invariant
            v@ == s@,
            i <= v@.len(),
            forall|k: int| 0 <= k < i ==> v@[k] != c,
        decreases v@.len() - i,
    {
        if v[i] == c {
            assert(s@[i as int] == c);
            return true;
        }
        i = i + 1;
    }
    false
}

/// `parts.join(sep)`.
pub open spec fn join_seq(parts: Seq<Seq<char>>, sep: Seq<char>) -> Seq<char>
    decreases parts.len(),
{
    if parts.len() == 0 {
        Seq::empty()
    } else if parts.len() == 1 {
        parts[0]
    } else {
        join_seq(parts.drop_last(), sep) + sep + parts.last()
    }
}

/// `parts.join(sep)` for owned strings.
pub fn join(parts: &Vec<String>, sep: &str) -> (r: String)
    ensures
        r@ == join_seq(views(parts@), sep@),
{
    let mut r = String::new();
    let mut i: usize = 0;
    assert(views(parts@).subrange(0, 0) =~= Seq::<Seq<char>>::empty());
    while i < parts.len()
        invariant
            i <= parts@.len(),
            r@ == join_seq(views(parts@).subrange(0, i as int), sep@),
        decreases parts@.len() - i,
    {
        let ghost sub = views(parts@).subrange(0, i + 1);
        assert(sub.drop_last() =~= views(parts@).subrange(0, i as int));
        assert(sub.last() == parts@[i as int]@);
        if i > 0 {
            r.append(sep);
        } else {
            assert(sub =~= seq![parts@[0]@]);
        }
        r.append(parts[i].as_str());
        i = i + 1;
    }
    assert(views(parts@).subrange(0, parts@.len() as int) =~= views(parts@));
    r
}

/// `format!("{:<width$}", s)`: `s` padded with spaces to `width` characters.
pub open spec fn pad_right_seq(s: Seq<char>, width: nat) -> Seq<char> {
    if s.len() >= width {
        s
    } else {
        s + Seq::new((width - s.len()) as nat, |i: int| ' ')
    }
}

/// Appends `s` padded with spaces to `width` characters.
pub fn push_padded(out: &mut String, s: &str, width: usize)
    ensures
        final(out)@ == old(out)@ + pad_right_seq(s@, width as nat),
{
    out.append(s);
    let n = s.unicode_len();
    let mut k: usize = n;
    let ghost base = old(out)@ + s@;
    while k < width
        invariant
            n == s@.len(),
            n <= k,
            k <= width || n > width,
            n >= width ==> k == n,
            out@ == base + Seq::new((k - n) as nat, |i: int| ' '),
        decreases width - k,
    {
        push_char(out, ' ');
        k = k + 1;
        assert(out@ =~= base + Seq::new((k - n) as nat, |i: int| ' '));
    }
    if n >= width {
        assert(out@ =~= old(out)@ + s@);
    } else {
        assert(out@ =~= old(out)@ + pad_right_seq(s@, width as nat));
    }
}

/// `str::replace(from, to)` for a non-empty pattern: occurrences are
/// replaced left to right without overlapping.
pub open spec fn replace_seq(s: Seq<char>, from: Seq<char>, to: Seq<char>) -> Seq<char>
    decreases s.len(),
{
    if from.len() == 0 || s.len() < from.len() {
        s
    } else if s.subrange(0, from.len() as int) == from {
        to + replace_seq(s.subrange(from.len() as int, s.len() as int), from, to)
    } else {
        seq![s[0]] + replace_seq(s.drop_first(), from, to)
    }
}

/// `s.replace(from, to)` for a non-empty `from`.
pub fn replace_all(s: &str, from: &str, to: &str) -> (r: String)
    requires
        from@.len() > 0,
    ensures
        r@ == replace_seq(s@, from@, to@),
{
    let v = to_chars(s);
    let fv = to_chars(from);
    let n = v.len();
    let mut out = String::new();
    let mut i: usize = 0;
    assert(v@.subrange(0, n as int) =~= v@);
    while i < n
        invariant
            n == v@.len(),
            v@ == s@,
            fv@ == from@,
            from@.len() > 0,
            i <= n,
            replace_seq(s@, from@, to@) == out@ + replace_seq(v@.subrange(i as int, n as int), from@, to@),
        decreases n - i,
    {
        let ghost sub = v@.subrange(i as int, n as int);
        if matches_at(v.as_slice(), fv.as_slice(), i) {
            assert(sub.subrange(0, from@.len() as int) =~= v@.subrange(i as int, i + from@.len()));
            assert(sub.subrange(from@.len() as int, sub.len() as int) =~= v@.subrange(i + from@.len(), n as int));
            let ghost before = out@;
            out.append(to);
            assert(before + (to@ + replace_seq(v@.subrange(i + from@.len(), n as int), from@, to@)) =~= out@ + replace_seq(v@.subrange(i + from@.len(), n as int), from@, to@));
            i = i + fv.len();
        } else {
            proof {
                if sub.len() >= from@.len() {
                    assert(sub.subrange(0, from@.len() as int) =~= v@.subrange(i as int, i + from@.len()));
                }
            }
            assert(sub.drop_first() =~= v@.subrange(i + 1, n as int));
            let ghost before = out@;
            push_char(&mut out, v[i]);
            assert(before + (seq![v@[i as int]] + replace_seq(v@.subrange(i + 1, n as int), from@, to@)) =~= out@ + replace_seq(v@.subrange(i + 1, n as int), from@, to@));
            i = i + 1;
        }
    }
    assert(v@.subrange(n as int, n as int) =~= Seq::<char>::empty());
    assert(out@ + Seq::<char>::empty() =~= out@);
    out
}

// ---------------------------------------------------------------------
// Splitting
// ---------------------------------------------------------------------

pub open spec fn views(v: Seq<String>) -> Seq<Seq<char>> {
    v.map_values(|p: String| p@)
}

/// Pieces of `s` separated by `sep`, the first one prefixed by `cur`.
pub open spec fn split_from(s: Seq<char>, sep: char, cur: Seq<char>) -> Seq<Seq<char>>
    decreases s.len(),
{
    if s.len() == 0 {
        seq![cur]
    } else if s[0] == sep {
        seq![cur] + split_from(s.drop_first(), sep, Seq::empty())
    } else {
        split_from(s.drop_first(), sep, cur.push(s[0]))
    }
}

/// `str::split(sep)`: the (possibly empty) pieces between occurrences of `sep`.
pub open spec fn split_seq(s: Seq<char>, sep: char) -> Seq<Seq<char>> {
    split_from(s, sep, Seq::empty())
}

/// Whitespace-separated words of `s`, the first one prefixed by `cur`.
pub open spec fn words_from(s: Seq<char>, cur: Seq<char>) -> Seq<Seq<char>>
    decreases s.len(),
{
    if s.len() == 0 {
        if cur.len() == 0 {
            Seq::empty()
        } else {
            seq![cur]
        }
    } else if is_unicode_whitespace(s[0]) {
        (if cur.len() == 0 {
            Seq::empty()
        } else {
            seq![cur]
        }) + words_from(s.drop_first(), Seq::empty())
    } else {
        words_from(s.drop_first(), cur.push(s[0]))
    }
}

/// `str::split_whitespace`: the non-empty runs of non-whitespace characters.
pub open spec fn words_seq(s: Seq<char>) -> Seq<Seq<char>> {
    words_from(s, Seq::empty())
}

pub open spec fn strip_cr(p: Seq<char>) -> Seq<char> {
    if p.len() > 0 && p.last() == '\r' {
        p.drop_last()
    } else {
        p
    }
}

/// `str::lines`: pieces ended by `\n` (a `\r` before it removed); a final
/// piece without `\n` is kept unless empty.
pub open spec fn lines_seq(s: Seq<char>) -> Seq<Seq<char>> {
    let parts = split_seq(s, '\n');
    let body = parts.drop_last().map_values(|p: Seq<char>| strip_cr(p));
    if parts.last().len() == 0 {
        body
    } else {
        body.push(parts.last())
    }
}

pub proof fn lemma_split_from_nonempty(s: Seq<char>, sep: char, cur: Seq<char>)
    ensures
        split_from(s, sep, cur).len() >= 1,
    decreases s.len(),
{
    if s.len() > 0 {
        if s[0] == sep {
            lemma_split_from_nonempty(s.drop_first(), sep, Seq::empty());
        } else {
            lemma_split_from_nonempty(s.drop_first(), sep, cur.push(s[0]));
        }
    }
}

/// No piece of a split holds the separator.
pub proof fn lemma_split_pieces_lack_sep(s: Seq<char>, sep: char, cur: Seq<char>)
    requires
        !cur.contains(sep),
    ensures
        forall|i: int| 0 <= i < split_from(s, sep, cur).len() ==> !(#[trigger] split_from(s, sep, cur)[i]).contains(sep),
    decreases s.len(),
{
    if s.len() > 0 {
        if s[0] == sep {
            lemma_split_pieces_lack_sep(s.drop_first(), sep, Seq::empty());
            let rest = split_from(s.drop_first(), sep, Seq::empty());
            assert(split_from(s, sep, cur) == seq![cur] + rest);
            assert forall|i: int| 0 <= i < split_from(s, sep, cur).len() implies !(#[trigger] split_from(s, sep, cur)[i]).contains(sep) by {
                if i == 0 {
                    assert(split_from(s, sep, cur)[0] == cur);
                } else {
                    assert(split_from(s, sep, cur)[i] == rest[i - 1]);
                }
            }
        } else {
            assert forall|k: int| 0 <= k < cur.push(s[0]).len() implies cur.push(s[0])[k] != sep by {
                if k < cur.len() {
                    assert(cur.push(s[0])[k] == cur[k]);
                }
            }
            lemma_split_pieces_lack_sep(s.drop_first(), sep, cur.push(s[0]));
            assert(split_from(s, sep, cur) == split_from(s.drop_first(), sep, cur.push(s[0])));
        }
    } else {
        assert(split_from(s, sep, cur) == seq![cur]);
        assert forall|i: int| 0 <= i < split_from(s, sep, cur).len() implies !(#[trigger] split_from(s, sep, cur)[i]).contains(sep) by {
            assert(split_from(s, sep, cur)[i] == cur);
        }
    }
}

/// Splitting text without the separator gives one piece.
pub proof fn lemma_split_without_sep(a: Seq<char>, sep: char, cur: Seq<char>)
    requires
        !a.contains(sep),
    ensures
        split_from(a, sep, cur) == seq![cur + a],
    decreases a.len(),
{
    if a.len() == 0 {
        assert(cur + a =~= cur);
    } else {
        assert(a[0] != sep);
        assert(!a.drop_first().contains(sep)) by {
            if a.drop_first().contains(sep) {
                let k = choose|k: int| 0 <= k < a.drop_first().len() && a.drop_first()[k] == sep;
                assert(a[k + 1] == sep);
            }
        }
        lemma_split_without_sep(a.drop_first(), sep, cur.push(a[0]));
        assert(cur.push(a[0]) + a.drop_first() =~= cur + a);
    }
}

/// Splitting `a`, a separator, then `rest`, where `a` has no separator,
/// gives `a` followed by the pieces of `rest`.
pub proof fn lemma_split_at_first_sep(a: Seq<char>, rest: Seq<char>, sep: char, cur: Seq<char>)
    requires
        !a.contains(sep),
    ensures
        split_from(a + seq![sep] + rest, sep, cur) == seq![cur + a] + split_from(rest, sep, Seq::empty()),
    decreases a.len(),
{
    let s = a + seq![sep] + rest;
    if a.len() == 0 {
        assert(s[0] == sep);
        assert(s.drop_first() =~= rest);
        assert(cur + a =~= cur);
    } else {
        assert(s[0] == a[0]);
        assert(a[0] != sep);
        assert(!a.drop_first().contains(sep)) by {
            if a.drop_first().contains(sep) {
                let k = choose|k: int| 0 <= k < a.drop_first().len() && a.drop_first()[k] == sep;
                assert(a[k + 1] == sep);
            }
        }
        assert(s.drop_first() =~= a.drop_first() + seq![sep] + rest);
        lemma_split_at_first_sep(a.drop_first(), rest, sep, cur.push(a[0]));
        assert(cur.push(a[0]) + a.drop_first() =~= cur + a);
    }
}

/// `s.split(sep)` collected.
pub fn split_char(s: &str, sep: char) -> (pieces: Vec<String>)
    ensures
        views(pieces@) == split_seq(s@, sep),
{
    let v = to_chars(s);
    let n = v.len();
    let mut pieces: Vec<String> = Vec::new();
    let mut cur: Vec<char> = Vec::new();
    let mut i: usize = 0;
    assert(v@.subrange(0, n as int) =~= s@);
    while i < n
        invariant
            n == v@.len(),
            v@ == s@,
            i <= n,
            split_seq(s@, sep) == views(pieces@) + split_from(
                v@.subrange(i as int, n as int),
                sep,
                cur@,
            ),
        decreases n - i,
    {
        let ghost sub = v@.subrange(i as int, n as int);
        assert(sub.drop_first() =~= v@.subrange(i + 1, n as int));
        let c = v[i];
        if c == sep {
            let piece = from_chars(cur.as_slice());
            let ghost old_pieces = pieces@;
            pieces.push(piece);
            assert(views(pieces@) =~= views(old_pieces) + seq![cur@]);
            cur = Vec::new();
            assert(split_seq(s@, sep) =~= views(pieces@) + split_from(
                v@.subrange(i + 1, n as int),
                sep,
                cur@,
            ));
        } else {
            cur.push(c);
        }
        i = i + 1;
    }
    let piece = from_chars(cur.as_slice());
    let ghost old_pieces = pieces@;
    pieces.push(piece);
    assert(v@.subrange(n as int, n as int) =~= Seq::<char>::empty());
    assert(views(pieces@) =~= views(old_pieces) + seq![cur@]);
    pieces
}

/// `s.split_whitespace()` collected.
pub fn split_whitespace(s: &str) -> (words: Vec<String>)
    ensures
        views(words@) == words_seq(s@),
{
    let v = to_chars(s);
    let n = v.len();
    let mut words: Vec<String> = Vec::new();
    let mut cur: Vec<char> = Vec::new();
    let mut i: usize = 0;
    assert(v@.subrange(0, n as int) =~= s@);
    while i < n
        invariant
            n == v@.len(),
            v@ == s@,
            i <= n,
            words_seq(s@) == views(words@) + words_from(v@.subrange(i as int, n as int), cur@),
        decreases n - i,
    {
        let ghost sub = v@.subrange(i as int, n as int);
        assert(sub.drop_first() =~= v@.subrange(i + 1, n as int));
        let c = v[i];
        if is_whitespace(c) {
            if cur.len() > 0 {
                let piece = from_chars(cur.as_slice());
                let ghost old_words = words@;
                words.push(piece);
                assert(views(words@) =~= views(old_words) + seq![cur@]);
                cur = Vec::new();
                assert(words_seq(s@) =~= views(words@) + words_from(
                    v@.subrange(i + 1, n as int),
                    cur@,
                ));
            } else {
                assert(cur@ =~= Seq::<char>::empty());
                assert(words_from(sub, cur@) == Seq::<Seq<char>>::empty() + words_from(
                    sub.drop_first(),
                    Seq::empty(),
                ));
                assert(Seq::<Seq<char>>::empty() + words_from(sub.drop_first(), Seq::empty())
                    =~= words_from(sub.drop_first(), Seq::empty()));
                assert(words_seq(s@) =~= views(words@) + words_from(
                    v@.subrange(i + 1, n as int),
                    cur@,
                ));
            }
        } else {
            cur.push(c);
        }
        i = i + 1;
    }
    assert(v@.subrange(n as int, n as int) =~= Seq::<char>::empty());
    if cur.len() > 0 {
        let piece = from_chars(cur.as_slice());
        let ghost old_words = words@;
        words.push(piece);
        assert(views(words@) =~= views(old_words) + seq![cur@]);
    } else {
        assert(views(words@) =~= views(words@) + Seq::<Seq<char>>::empty());
    }
    words
}

/// Drops one trailing `\r`.
pub fn strip_carriage_return(s: String) -> (r: String)
    ensures
        r@ == strip_cr(s@),
{
    let v = to_chars(s.as_str());
    if v.len() > 0 && v[v.len() - 1] == '\r' {
        string_from_range(v.as_slice(), 0, v.len() - 1)
    } else {
        s
    }
}

/// `s.lines()` collected.
pub fn lines(s: &str) -> (ls: Vec<String>)
    ensures
        views(ls@) == lines_seq(s@),
{
    let parts = split_char(s, '\n');
    proof {
        lemma_split_from_nonempty(s@, '\n', Seq::empty());
    }
    let k = parts.len();
    let mut ls: Vec<String> = Vec::new();
    let mut i: usize = 0;
    while i + 1 < k
        invariant
            k == parts@.len(),
            k >= 1,
            views(parts@) == split_seq(s@, '\n'),
            i + 1 <= k,
            views(ls@) == split_seq(s@, '\n').subrange(0, i as int).map_values(
                |p: Seq<char>| strip_cr(p),
            ),
        decreases k - i,
    {
        let line = strip_carriage_return(parts[i].clone());
        let ghost old_ls = ls@;
        ls.push(line);
        assert(views(parts@)[i as int] == parts@[i as int]@);
        assert(line@ == strip_cr(split_seq(s@, '\n')[i as int]));
        assert(views(ls@) =~= views(old_ls).push(line@));
        assert(views(ls@) =~= split_seq(s@, '\n').subrange(0, i + 1).map_values(
            |p: Seq<char>| strip_cr(p),
        ));
        i = i + 1;
    }
    let ghost parts_v = split_seq(s@, '\n');
    assert(parts_v.subrange(0, i as int) =~= parts_v.drop_last());
    assert(views(parts@)[k - 1] == parts@[k - 1]@);
    if parts[k - 1].unicode_len() > 0 {
        let ghost old_ls = ls@;
        ls.push(parts[k - 1].clone());
        assert(views(ls@) =~= views(old_ls).push(parts_v.last()));
    }
    ls
}

/// `s` without its leading occurrences of `c`.
pub open spec fn trim_start_char_seq(s: Seq<char>, c: char) -> Seq<char>
    decreases s.len(),
{
    if s.len() > 0 && s[0] == c {
        trim_start_char_seq(s.drop_first(), c)
    } else {
        s
    }
}

/// `str::trim_start_matches(c)`.
pub fn trim_start_char(s: &str, c: char) -> (r: String)
    ensures
        r@ == trim_start_char_seq(s@, c),
{
    let v = to_chars(s);
    let n = v.len();
    let mut i: usize = 0;
    assert(v@.subrange(0, n as int) =~= v@);
    while i < n && v[i] == c
        invariant
            n == v@.len(),
            v@ == s@,
            i <= n,
            trim_start_char_seq(s@, c) == trim_start_char_seq(v@.subrange(i as int, n as int), c),
        decreases n - i,
    {
        assert(v@.subrange(i as int, n as int).drop_first() =~= v@.subrange(i + 1, n as int));
        i = i + 1;
    }
    if i == n {
        assert(v@.subrange(i as int, n as int) =~= Seq::<char>::empty());
    }
    string_from_range(v.as_slice(), i, n)
}

} // verus!
