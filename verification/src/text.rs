//! Text as sequences of characters: searching, trimming, replacing and
//! splitting into lines.

use vstd::prelude::*;

verus! {

/// `String::push` of the standard library, taken on trust: afterwards the
/// string holds what it held before and, behind that, `ch`.
pub assume_specification[ String::push ](s: &mut String, ch: char)
    ensures
        final(s)@ == old(s)@.push(ch),
;

/// The characters that count as whitespace: the code points with the Unicode
/// property `White_Space`.
pub open spec fn is_whitespace(c: char) -> bool {
    let n = c as u32;
    ||| 0x09 <= n <= 0x0D
    ||| n == 0x20
    ||| n == 0x85
    ||| n == 0xA0
    ||| n == 0x1680
    ||| 0x2000 <= n <= 0x200A
    ||| n == 0x2028
    ||| n == 0x2029
    ||| n == 0x202F
    ||| n == 0x205F
    ||| n == 0x3000
}

/// Tells whether `c` is whitespace.
pub fn is_whitespace_char(c: char) -> (b: bool)
    ensures
        b == is_whitespace(c),
{
    let n: u32 = c as u32;
    (0x09 <= n && n <= 0x0D) || n == 0x20 || n == 0x85 || n == 0xA0 || n == 0x1680 || (0x2000 <= n
        && n <= 0x200A) || n == 0x2028 || n == 0x2029 || n == 0x202F || n == 0x205F || n == 0x3000
}

/// The characters of `s`, in order.
pub fn to_chars(s: &str) -> (chars: Vec<char>)
    ensures
        chars@ == s@,
{
    let mut chars: Vec<char> = Vec::new();
    for c in it: s.chars()
        invariant
            it.seq() == s@,
            chars@ == it.seq().take(it.index()),
    {
        chars.push(c);
    }
    chars
}

/// The string made of `chars`, in order.
pub fn to_text(chars: &[char]) -> (s: String)
    ensures
        s@ == chars@,
{
    let mut s = String::new();
    let mut i: usize = 0;
    while i < chars.len()
        invariant
            i <= chars.len(),
            s@ == chars@.take(i as int),
        decreases chars.len() - i,
    {
        s.push(chars[i]);
        i += 1;
    }
    s
}

/// `pat` stands in `s` at position `i`.
pub open spec fn occurs_at(s: Seq<char>, pat: Seq<char>, i: int) -> bool {
    &&& 0 <= i
    &&& i + pat.len() <= s.len()
    &&& s.subrange(i, i + pat.len()) == pat
}

/// `pat` stands somewhere in `s`. The empty pattern stands in every text.
pub open spec fn occurs_in(s: Seq<char>, pat: Seq<char>) -> bool {
    exists|i: int| occurs_at(s, pat, i)
}

/// `s` begins with `pat`.
pub open spec fn has_prefix(s: Seq<char>, pat: Seq<char>) -> bool {
    occurs_at(s, pat, 0)
}

/// `s` ends with `pat`.
pub open spec fn has_suffix(s: Seq<char>, pat: Seq<char>) -> bool {
    occurs_at(s, pat, s.len() - pat.len())
}

/// Tells whether `pat` stands in `s` at position `i`.
pub fn matches_at(s: &[char], pat: &[char], i: usize) -> (b: bool)
    ensures
        b == occurs_at(s@, pat@, i as int),
{
    if pat.len() > s.len() || i > s.len() - pat.len() {
        return false;
    }
    let mut k: usize = 0;
    while k < pat.len()
        invariant
            k <= pat.len(),
            i + pat.len() <= s.len(),
            forall|j: int| 0 <= j < k ==> s@[i + j] == pat@[j],
        decreases pat.len() - k,
    {
        if s[i + k] != pat[k] {
            assert(s@.subrange(i as int, i + pat.len())[k as int] == s@[i + k]);
            return false;
        }
        k += 1;
    }
    assert(s@.subrange(i as int, i + pat.len()) =~= pat@);
    true
}

/// The first position at or after `from` where `pat` stands in `s`, if any.
pub fn find_from(s: &[char], pat: &[char], from: usize) -> (found: Option<usize>)
    ensures
        match found {
            Some(i) => from <= i && occurs_at(s@, pat@, i as int) && forall|j: int|
                from <= j < i ==> !occurs_at(s@, pat@, j),
            None => forall|j: int| from <= j ==> !occurs_at(s@, pat@, j),
        },
{
    if pat.len() > s.len() || from > s.len() - pat.len() {
        return None;
    }
    let last: usize = s.len() - pat.len();
    let mut i: usize = from;
    loop
        invariant
            from <= i <= last,
            last == s.len() - pat.len(),
            pat.len() <= s.len(),
            forall|j: int| from <= j < i ==> !occurs_at(s@, pat@, j),
        decreases last - i,
    {
        if matches_at(s, pat, i) {
            return Some(i);
        }
        if i == last {
            return None;
        }
        i += 1;
    }
}

/// Tells whether `pat` stands somewhere in `s`.
pub fn contains(s: &[char], pat: &[char]) -> (b: bool)
    ensures
        b == occurs_in(s@, pat@),
{
    find_from(s, pat, 0).is_some()
}

/// Tells whether `s` begins with `pat`.
pub fn starts_with(s: &[char], pat: &[char]) -> (b: bool)
    ensures
        b == has_prefix(s@, pat@),
{
    matches_at(s, pat, 0)
}

/// Tells whether `s` ends with `pat`.
pub fn ends_with(s: &[char], pat: &[char]) -> (b: bool)
    ensures
        b == has_suffix(s@, pat@),
{
    if pat.len() > s.len() {
        return false;
    }
    matches_at(s, pat, s.len() - pat.len())
}

/// `s` without its leading whitespace.
pub open spec fn trimmed_start(s: Seq<char>) -> Seq<char>
    decreases s.len(),
{
    if s.len() > 0 && is_whitespace(s.first()) {
        trimmed_start(s.drop_first())
    } else {
        s
    }
}

/// `s` without its trailing whitespace.
pub open spec fn trimmed_end(s: Seq<char>) -> Seq<char>
    decreases s.len(),
{
    if s.len() > 0 && is_whitespace(s.last()) {
        trimmed_end(s.drop_last())
    } else {
        s
    }
}

/// `s` without its leading and trailing whitespace.
pub open spec fn trimmed(s: Seq<char>) -> Seq<char> {
    trimmed_end(trimmed_start(s))
}

/// The part of `s` that is left when its leading whitespace is taken away.
pub fn trim_start(s: &[char]) -> (rest: &[char])
    ensures
        rest@ == trimmed_start(s@),
{
    let mut i: usize = 0;
    assert(s@.skip(0) =~= s@);
    while i < s.len() && is_whitespace_char(s[i])
        invariant
            i <= s.len(),
            trimmed_start(s@) == trimmed_start(s@.skip(i as int)),
        decreases s.len() - i,
    {
        assert(s@.skip(i as int).drop_first() =~= s@.skip(i + 1));
        i += 1;
    }
    &s[i..s.len()]
}

/// The part of `s` that is left when its trailing whitespace is taken away.
pub fn trim_end(s: &[char]) -> (rest: &[char])
    ensures
        rest@ == trimmed_end(s@),
{
    let mut n: usize = s.len();
    assert(s@.take(n as int) =~= s@);
    while n > 0 && is_whitespace_char(s[n - 1])
        invariant
            n <= s.len(),
            trimmed_end(s@) == trimmed_end(s@.take(n as int)),
        decreases n,
    {
        assert(s@.take(n as int).drop_last() =~= s@.take(n - 1));
        n -= 1;
    }
    &s[0..n]
}

/// The part of `s` that is left when the whitespace at both ends is taken
/// away.
pub fn trim(s: &[char]) -> (rest: &[char])
    ensures
        rest@ == trimmed(s@),
{
    trim_end(trim_start(s))
}

/// `s` with every occurrence of `pat` replaced by `rep`. Occurrences are
/// taken from left to right and do not overlap. The empty pattern occurs
/// before every character and at the end.
pub open spec fn replaced_all(s: Seq<char>, pat: Seq<char>, rep: Seq<char>) -> Seq<char>
    decreases s.len(),
{
    if s.len() == 0 {
        if pat.len() == 0 {
            rep
        } else {
            s
        }
    } else if pat.len() == 0 {
        rep + seq![s.first()] + replaced_all(s.drop_first(), pat, rep)
    } else if has_prefix(s, pat) {
        rep + replaced_all(s.skip(pat.len() as int), pat, rep)
    } else {
        seq![s.first()] + replaced_all(s.drop_first(), pat, rep)
    }
}

/// `s` with the leftmost occurrence of `pat` replaced by `rep`; `s` itself
/// where `pat` does not occur.
pub open spec fn replaced_first(s: Seq<char>, pat: Seq<char>, rep: Seq<char>) -> Seq<char>
    decreases s.len(),
{
    if has_prefix(s, pat) {
        rep + s.skip(pat.len() as int)
    } else if s.len() == 0 {
        s
    } else {
        seq![s.first()] + replaced_first(s.drop_first(), pat, rep)
    }
}

/// Appends `chars` to `out`.
pub fn append_chars(out: &mut Vec<char>, chars: &[char])
    ensures
        final(out)@ == old(out)@ + chars@,
{
    let mut i: usize = 0;
    while i < chars.len()
        invariant
            i <= chars.len(),
            out@ == old(out)@ + chars@.take(i as int),
        decreases chars.len() - i,
    {
        out.push(chars[i]);
        i += 1;
    }
    assert(chars@.take(i as int) =~= chars@);
}

/// Replaces every occurrence of `pat` in `s` by `rep`.
pub fn replace_all(s: &[char], pat: &[char], rep: &[char]) -> (out: Vec<char>)
    ensures
        out@ == replaced_all(s@, pat@, rep@),
{
    let mut out: Vec<char> = Vec::new();
    let mut i: usize = 0;
    assert(s@.skip(0) =~= s@);
    while i < s.len()
        invariant
            i <= s.len(),
            out@ + replaced_all(s@.skip(i as int), pat@, rep@) == replaced_all(s@, pat@, rep@),
        decreases s.len() - i,
    {
        let ghost rest = s@.skip(i as int);
        let ghost before = out@;
        if pat.len() == 0 {
            append_chars(&mut out, rep);
            out.push(s[i]);
            proof {
                assert(rest.drop_first() =~= s@.skip(i + 1));
                assert(out@ + replaced_all(s@.skip(i + 1), pat@, rep@) =~= before + replaced_all(
                    rest,
                    pat@,
                    rep@,
                ));
            }
            i += 1;
        } else if matches_at(s, pat, i) {
            append_chars(&mut out, rep);
            proof {
                assert(rest.subrange(0, pat@.len() as int) =~= s@.subrange(
                    i as int,
                    i + pat@.len(),
                ));
                assert(rest.skip(pat@.len() as int) =~= s@.skip(i + pat@.len()));
                assert(out@ + replaced_all(s@.skip(i + pat@.len()), pat@, rep@) =~= before
                    + replaced_all(rest, pat@, rep@));
            }
            i += pat.len();
        } else {
            out.push(s[i]);
            proof {
                if pat@.len() <= rest.len() {
                    assert(rest.subrange(0, pat@.len() as int) =~= s@.subrange(
                        i as int,
                        i + pat@.len(),
                    ));
                }
                assert(rest.drop_first() =~= s@.skip(i + 1));
                assert(out@ + replaced_all(s@.skip(i + 1), pat@, rep@) =~= before + replaced_all(
                    rest,
                    pat@,
                    rep@,
                ));
            }
            i += 1;
        }
    }
    if pat.len() == 0 {
        append_chars(&mut out, rep);
    }
    assert(out@ =~= replaced_all(s@, pat@, rep@));
    out
}

/// Replaces the leftmost occurrence of `pat` in `s` by `rep`.
pub fn replace_first(s: &[char], pat: &[char], rep: &[char]) -> (out: Vec<char>)
    ensures
        out@ == replaced_first(s@, pat@, rep@),
{
    let mut out: Vec<char> = Vec::new();
    let len: usize = s.len();
    match find_from(s, pat, 0) {
        Some(at) => {
            append_chars(&mut out, &s[0..at]);
            append_chars(&mut out, rep);
            append_chars(&mut out, &s[at + pat.len()..len]);
            proof {
                lemma_replaced_first_at(s@, pat@, rep@, at as int);
            }
        },
        None => {
            append_chars(&mut out, s);
            proof {
                lemma_replaced_first_absent(s@, pat@, rep@);
            }
        },
    }
    out
}

/// Where `pat` occurs in `s` first at position `at`, the replacement keeps
/// what stands before `at` and what follows the occurrence.
pub proof fn lemma_replaced_first_at(s: Seq<char>, pat: Seq<char>, rep: Seq<char>, at: int)
    requires
        occurs_at(s, pat, at),
        forall|j: int| 0 <= j < at ==> !occurs_at(s, pat, j),
    ensures
        replaced_first(s, pat, rep) == s.take(at) + rep + s.skip(at + pat.len()),
    decreases at,
{
    if at == 0 {
        assert(s.take(0) + rep + s.skip(pat.len() as int) =~= rep + s.skip(pat.len() as int));
    } else {
        let rest = s.drop_first();
        assert(!occurs_at(s, pat, 0));
        assert(rest.subrange(at - 1, at - 1 + pat.len()) =~= s.subrange(at, at + pat.len()));
        assert forall|j: int| 0 <= j < at - 1 implies !occurs_at(rest, pat, j) by {
            assert(!occurs_at(s, pat, j + 1));
            assert(rest.subrange(j, j + pat.len()) =~= s.subrange(j + 1, j + 1 + pat.len()));
        }
        lemma_replaced_first_at(rest, pat, rep, at - 1);
        assert(seq![s.first()] + (rest.take(at - 1) + rep + rest.skip(at - 1 + pat.len()))
            =~= s.take(at) + rep + s.skip(at + pat.len()));
    }
}

/// Where `pat` does not occur in `s`, the replacement changes nothing.
pub proof fn lemma_replaced_first_absent(s: Seq<char>, pat: Seq<char>, rep: Seq<char>)
    requires
        !occurs_in(s, pat),
    ensures
        replaced_first(s, pat, rep) == s,
    decreases s.len(),
{
    assert(!occurs_at(s, pat, 0));
    if s.len() > 0 {
        let rest = s.drop_first();
        assert forall|j: int| !occurs_at(rest, pat, j) by {
            assert(!occurs_at(s, pat, j + 1));
            if 0 <= j && j + pat.len() <= rest.len() {
                assert(rest.subrange(j, j + pat.len()) =~= s.subrange(j + 1, j + 1 + pat.len()));
            }
        }
        lemma_replaced_first_absent(rest, pat, rep);
        assert(seq![s.first()] + rest =~= s);
    }
}

/// The number of characters of `s` that stand before its first line feed;
/// the length of `s` where it holds no line feed.
pub open spec fn line_length(s: Seq<char>) -> nat
    decreases s.len(),
{
    if s.len() == 0 || s.first() == '\n' {
        0
    } else {
        1 + line_length(s.drop_first())
    }
}

/// `s` without the carriage return at its end, if it ends with one.
pub open spec fn without_carriage_return(s: Seq<char>) -> Seq<char> {
    if s.len() > 0 && s.last() == '\r' {
        s.drop_last()
    } else {
        s
    }
}

/// The lines of `s`. A line ends with a line feed, or with a carriage return
/// and a line feed; neither belongs to the line. What follows the last line
/// feed is a line too, unless it is empty, and keeps a carriage return at its
/// end.
pub open spec fn lines_of(s: Seq<char>) -> Seq<Seq<char>>
    decreases s.len(),
{
    if s.len() == 0 {
        Seq::empty()
    } else {
        let n = line_length(s);
        if n >= s.len() {
            seq![s]
        } else {
            seq![without_carriage_return(s.take(n as int))] + lines_of(s.skip(n as int + 1))
        }
    }
}

/// The texts that the slices of `parts` hold.
pub open spec fn texts_of(parts: Seq<&[char]>) -> Seq<Seq<char>> {
    Seq::new(parts.len(), |i: int| parts[i]@)
}

/// A text whose first `n` characters are no line feeds, and which ends there
/// or goes on with a line feed, has a first line of length `n`.
pub proof fn lemma_line_length(s: Seq<char>, n: int)
    requires
        0 <= n <= s.len(),
        forall|j: int| 0 <= j < n ==> s[j] != '\n',
        n < s.len() ==> s[n] == '\n',
    ensures
        line_length(s) == n,
    decreases n,
{
    if n > 0 {
        lemma_line_length(s.drop_first(), n - 1);
    }
}

/// Splits `s` into its lines.
pub fn split_lines(s: &[char]) -> (lines: Vec<&[char]>)
    ensures
        texts_of(lines@) == lines_of(s@),
{
    let mut lines: Vec<&[char]> = Vec::new();
    let len: usize = s.len();
    let mut start: usize = 0;
    assert(s@.skip(0) =~= s@);
    assert(texts_of(lines@) + lines_of(s@) =~= lines_of(s@));
    while start < len
        invariant
            start <= len,
            len == s@.len(),
            texts_of(lines@) + lines_of(s@.skip(start as int)) == lines_of(s@),
        decreases len - start,
    {
        let mut end: usize = start;
        while end < len && s[end] != '\n'
            invariant
                start <= end <= len,
                len == s@.len(),
                forall|j: int| start <= j < end ==> s@[j] != '\n',
            decreases len - end,
        {
            end += 1;
        }
        let ghost rest = s@.skip(start as int);
        let ghost before = texts_of(lines@);
        proof {
            lemma_line_length(rest, end - start);
        }
        if end == len {
            lines.push(&s[start..len]);
            proof {
                assert(s@.subrange(start as int, len as int) =~= rest);
                assert(s@.skip(len as int) =~= Seq::<char>::empty());
                assert(texts_of(lines@) =~= before + seq![rest]);
                assert(texts_of(lines@) + lines_of(s@.skip(len as int)) =~= before + lines_of(
                    rest,
                ));
            }
            start = len;
        } else {
            let stop: usize = if end > start && s[end - 1] == '\r' {
                end - 1
            } else {
                end
            };
            lines.push(&s[start..stop]);
            proof {
                let line = rest.take(end - start);
                assert(s@.subrange(start as int, end as int) =~= line);
                assert(s@.subrange(start as int, stop as int) =~= without_carriage_return(line));
                assert(rest.skip(end - start + 1) =~= s@.skip(end + 1));
                assert(texts_of(lines@) =~= before + seq![without_carriage_return(line)]);
                assert(texts_of(lines@) + lines_of(s@.skip(end + 1)) =~= before + lines_of(rest));
            }
            start = end + 1;
        }
    }
    assert(texts_of(lines@) + lines_of(s@.skip(start as int)) =~= texts_of(lines@));
    lines
}

/// The character that stands for the digit `d`.
pub open spec fn digit_of(d: nat) -> char {
    if d == 0 {
        '0'
    } else if d == 1 {
        '1'
    } else if d == 2 {
        '2'
    } else if d == 3 {
        '3'
    } else if d == 4 {
        '4'
    } else if d == 5 {
        '5'
    } else if d == 6 {
        '6'
    } else if d == 7 {
        '7'
    } else if d == 8 {
        '8'
    } else {
        '9'
    }
}

/// The decimal numeral of `n`, without leading zeros.
pub open spec fn decimal_of(n: nat) -> Seq<char>
    decreases n,
{
    if n < 10 {
        seq![digit_of(n)]
    } else {
        decimal_of(n / 10).push(digit_of(n % 10))
    }
}

/// The character that stands for the digit `d`.
fn digit(d: u8) -> (c: char)
    requires
        d < 10,
    ensures
        c == digit_of(d as nat),
{
    if d == 0 {
        '0'
    } else if d == 1 {
        '1'
    } else if d == 2 {
        '2'
    } else if d == 3 {
        '3'
    } else if d == 4 {
        '4'
    } else if d == 5 {
        '5'
    } else if d == 6 {
        '6'
    } else if d == 7 {
        '7'
    } else if d == 8 {
        '8'
    } else {
        '9'
    }
}

/// Writes `n` as a decimal numeral.
pub fn decimal(n: u128) -> (digits: Vec<char>)
    ensures
        digits@ == decimal_of(n as nat),
    decreases n,
{
    if n < 10 {
        let mut digits: Vec<char> = Vec::new();
        digits.push(digit(n as u8));
        digits
    } else {
        let mut digits = decimal(n / 10);
        digits.push(digit((n % 10) as u8));
        digits
    }
}

} // verus!
