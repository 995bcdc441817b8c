//! Character-level helpers shared by the store and the metrics: whitespace
//! and word counting, substring search without regard to the case of the
//! letters `A` to `Z`, and the lowercase
//! hexadecimal text of identifiers.

use vstd::prelude::*;

verus! {

/// `String::push` appends one character to the end of the string.
pub assume_specification[ String::push ](s: &mut String, c: char)
    ensures
        final(s)@ == old(s)@.push(c),
;

/// Collects the characters of `s`, in order.
pub fn chars_of(s: &str) -> (v: Vec<char>)
    ensures
        v@ == s@,
{
    let mut v: Vec<char> = Vec::new();
    for c in it: s.chars()
        invariant
            it.seq() == s@,
            v@ == it.seq().take(it.index()),
    {
        v.push(c);
    }
    v
}

/// The characters with the Unicode `White_Space` property.
pub open spec fn is_space(c: char) -> bool {
    let n = c as u32;
    ||| 0x09 <= n <= 0x0D
    ||| n == 0x20
    ||| n == 0x85
    ||| n == 0xA0
    ||| n == 0x1680
    ||| 0x2000 <= n <= 0x200A
    ||| n == 0x2028
    ||| n == 0x2029
    ||| n == 0x202F
    ||| n == 0x205F
    ||| n == 0x3000
}

/// Whether `c` separates words.
pub fn is_whitespace(c: char) -> (r: bool)
    ensures
        r == is_space(c),
{
    let n: u32 = c as u32;
    (0x09 <= n && n <= 0x0D) || n == 0x20 || n == 0x85 || n == 0xA0 || n == 0x1680 || (0x2000 <= n
        && n <= 0x200A) || n == 0x2028 || n == 0x2029 || n == 0x202F || n == 0x205F || n == 0x3000
}

/// A word starts at `i` when `s[i]` is no whitespace and stands first or
/// directly after whitespace.
pub open spec fn word_starts_at(s: Seq<char>, i: int) -> bool {
    &&& 0 <= i < s.len()
    &&& !is_space(s[i])
    &&& (i == 0 || is_space(s[i - 1]))
}

/// The number of maximal runs of non-whitespace characters in `s`.
pub open spec fn count_words(s: Seq<char>) -> nat
    decreases s.len(),
{
    if s.len() == 0 {
        0
    } else {
        count_words(s.drop_last()) + if word_starts_at(s, s.len() - 1) {
            1nat
        } else {
            0nat
        }
    }
}

/// Counts the whitespace-separated words of `s`.
pub fn word_count(s: &str) -> (n: usize)
    ensures
        n == count_words(s@),
{
    let cs = chars_of(s);
    let mut n: usize = 0;
    let mut in_word = false;
    let mut i: usize = 0;
    while i < cs.len()
        invariant
            i <= cs.len(),
            n <= i,
            n == count_words(cs@.take(i as int)),
            in_word == (i > 0 && !is_space(cs@[i - 1])),
        decreases cs.len() - i,
    {
        let space = is_whitespace(cs[i]);
        proof {
            let next = cs@.take(i + 1);
            assert(next.drop_last() == cs@.take(i as int));
            assert(word_starts_at(next, i as int) == (!space && !in_word));
        }
        if !space && !in_word {
            n = n + 1;
        }
        in_word = !space;
        i = i + 1;
    }
    proof {
        assert(cs@.take(cs.len() as int) == cs@);
    }
    n
}

/// `s` without the whitespace at its start.
pub open spec fn trim_start_of(s: Seq<char>) -> Seq<char>
    decreases s.len(),
{
    if s.len() > 0 && is_space(s.first()) {
        trim_start_of(s.drop_first())
    } else {
        s
    }
}

/// `s` without the whitespace at its end.
pub open spec fn trim_end_of(s: Seq<char>) -> Seq<char>
    decreases s.len(),
{
    if s.len() > 0 && is_space(s.last()) {
        trim_end_of(s.drop_last())
    } else {
        s
    }
}

/// `s` without the whitespace at its start and at its end.
pub open spec fn trimmed(s: Seq<char>) -> Seq<char> {
    trim_end_of(trim_start_of(s))
}

/// The part of `cs[from..to]` that is left when the whitespace at both ends
/// is taken away, as a pair of bounds.
pub fn trim_bounds(cs: &Vec<char>, from: usize, to: usize) -> (r: (usize, usize))
    requires
        from <= to <= cs.len(),
    ensures
        from <= r.0 <= r.1 <= to,
        cs@.subrange(r.0 as int, to as int) == trim_start_of(cs@.subrange(from as int, to as int)),
        cs@.subrange(r.0 as int, r.1 as int) == trimmed(cs@.subrange(from as int, to as int)),
{
    let mut a: usize = from;
    while a < to && is_whitespace(cs[a])
        invariant
            from <= a <= to <= cs.len(),
            trim_start_of(cs@.subrange(from as int, to as int)) == trim_start_of(
                cs@.subrange(a as int, to as int),
            ),
        decreases to - a,
    {
        proof {
            let cur = cs@.subrange(a as int, to as int);
            assert(cur.first() == cs@[a as int]);
            assert(cur.drop_first() =~= cs@.subrange(a + 1, to as int));
        }
        a = a + 1;
    }
    proof {
        let cur = cs@.subrange(a as int, to as int);
        if a < to {
            assert(cur.first() == cs@[a as int]);
        }
        assert(trim_start_of(cur) == cur);
    }
    let mut b: usize = to;
    while b > a && is_whitespace(cs[b - 1])
        invariant
            a <= b <= to <= cs.len(),
            trim_end_of(cs@.subrange(a as int, to as int)) == trim_end_of(
                cs@.subrange(a as int, b as int),
            ),
        decreases b,
    {
        proof {
            let cur = cs@.subrange(a as int, b as int);
            assert(cur.last() == cs@[b - 1]);
            assert(cur.drop_last() =~= cs@.subrange(a as int, b - 1));
        }
        b = b - 1;
    }
    proof {
        let cur = cs@.subrange(a as int, b as int);
        if b > a {
            assert(cur.last() == cs@[b - 1]);
        }
        assert(trim_end_of(cur) == cur);
    }
    (a, b)
}

/// The text of `cs[from..to]`.
pub fn text_between(cs: &Vec<char>, from: usize, to: usize) -> (s: String)
    requires
        from <= to <= cs.len(),
    ensures
        s@ == cs@.subrange(from as int, to as int),
{
    let mut s = String::new();
    let mut i: usize = from;
    while i < to
        invariant
            from <= i <= to <= cs.len(),
            s@ == cs@.subrange(from as int, i as int),
        decreases to - i,
    {
        s.push(cs[i]);
        assert(cs@.subrange(from as int, i + 1) =~= cs@.subrange(from as int, i as int).push(
            cs@[i as int],
        ));
        i = i + 1;
    }
    s
}

/// `s` without the whitespace at its start and at its end.
pub fn trim_text(s: &str) -> (r: String)
    ensures
        r@ == trimmed(s@),
{
    let cs = chars_of(s);
    let (a, b) = trim_bounds(&cs, 0, cs.len());
    assert(cs@.subrange(0, cs.len() as int) =~= cs@);
    text_between(&cs, a, b)
}

/// The index of the first line feed of `s` at or after `i`, or the length
/// of `s` where there is none.
pub open spec fn line_end(s: Seq<char>, i: int) -> int
    decreases s.len() - i,
{
    if i < 0 || i >= s.len() {
        s.len() as int
    } else if s[i] == '\n' {
        i
    } else {
        line_end(s, i + 1)
    }
}

/// The line of `s` that begins at `i`, without its line ending: the text up
/// to the next line feed, less a carriage return that stands directly
/// before that line feed. A last line without a line feed is taken whole.
pub open spec fn line_at(s: Seq<char>, i: int) -> Seq<char> {
    let e = line_end(s, i);
    if e < s.len() && i < e && s[e - 1] == '\r' {
        s.subrange(i, e - 1)
    } else {
        s.subrange(i, e)
    }
}

/// A line whose first character after leading whitespace is `#`.
pub open spec fn is_comment(line: Seq<char>) -> bool {
    trim_start_of(line).len() > 0 && trim_start_of(line).first() == '#'
}

/// The lines of `s` from index `i` on that are no comments.
pub open spec fn kept_lines(s: Seq<char>, i: int) -> Seq<Seq<char>>
    decreases s.len() + 1 - i,
    via kept_lines_terminates
{
    if i < 0 || i >= s.len() {
        Seq::empty()
    } else {
        let rest = kept_lines(s, line_end(s, i) + 1);
        if is_comment(line_at(s, i)) {
            rest
        } else {
            seq![line_at(s, i)] + rest
        }
    }
}

#[via_fn]
proof fn kept_lines_terminates(s: Seq<char>, i: int) {
    if 0 <= i < s.len() {
        lemma_line_end(s, i);
    }
}

/// The lines `lines` with a line feed between each two.
pub open spec fn joined(lines: Seq<Seq<char>>) -> Seq<char>
    decreases lines.len(),
{
    if lines.len() == 0 {
        Seq::empty()
    } else if lines.len() == 1 {
        lines[0]
    } else {
        joined(lines.drop_last()) + seq!['\n'] + lines.last()
    }
}

/// What is left of an edited text: its lines without the comment lines,
/// joined again, and trimmed.
pub open spec fn cleaned(content: Seq<char>) -> Seq<char> {
    trimmed(joined(kept_lines(content, 0)))
}

/// The line feed that ends the line beginning at `i` stands in the text.
pub proof fn lemma_line_end(s: Seq<char>, i: int)
    requires
        0 <= i <= s.len(),
    ensures
        i <= line_end(s, i) <= s.len(),
        line_end(s, i) < s.len() ==> s[line_end(s, i)] == '\n',
        forall|k: int| i <= k < line_end(s, i) ==> s[k] != '\n',
    decreases s.len() - i,
{
    if i < s.len() && s[i] != '\n' {
        lemma_line_end(s, i + 1);
    }
}

/// The kept lines from `i` on are the kept lines between `i` and `j`
/// followed by those from `j` on, where a line begins at `j`.
pub open spec fn kept_between(s: Seq<char>, i: int, j: int) -> Seq<Seq<char>>
    decreases s.len() + 1 - i,
    via kept_between_terminates
{
    if i < 0 || i >= j || i >= s.len() {
        Seq::empty()
    } else {
        let rest = kept_between(s, line_end(s, i) + 1, j);
        if is_comment(line_at(s, i)) {
            rest
        } else {
            seq![line_at(s, i)] + rest
        }
    }
}

#[via_fn]
proof fn kept_between_terminates(s: Seq<char>, i: int, j: int) {
    if 0 <= i < s.len() {
        lemma_line_end(s, i);
    }
}

/// Going one line further extends the kept lines at their end.
pub proof fn lemma_kept_between_step(s: Seq<char>, i: int, j: int)
    requires
        0 <= i <= j < s.len(),
        i == j || (j > 0 && s[j - 1] == '\n'),
        i < j ==> line_end(s, i) < j,
    ensures
        kept_between(s, i, line_end(s, j) + 1) == if is_comment(line_at(s, j)) {
            kept_between(s, i, j)
        } else {
            kept_between(s, i, j).push(line_at(s, j))
        },
    decreases j - i,
{
    let next = line_end(s, j) + 1;
    lemma_line_end(s, j);
    if i == j {
        assert(kept_between(s, j, j) =~= Seq::<Seq<char>>::empty());
        assert(kept_between(s, next, next) =~= Seq::<Seq<char>>::empty());
        if !is_comment(line_at(s, j)) {
            assert(seq![line_at(s, j)] + Seq::<Seq<char>>::empty() =~= Seq::<
                Seq<char>,
            >::empty().push(line_at(s, j)));
        }
    } else {
        lemma_line_end(s, i);
        let after = line_end(s, i) + 1;
        if after < j {
            lemma_line_end(s, after);
            assert(line_end(s, after) < j) by {
                if line_end(s, after) >= j {
                    assert(s[j - 1] != '\n');
                }
            }
        }
        lemma_kept_between_step(s, after, j);
        let head = seq![line_at(s, i)];
        if !is_comment(line_at(s, i)) && !is_comment(line_at(s, j)) {
            assert(head + kept_between(s, after, j).push(line_at(s, j)) =~= (head + kept_between(
                s,
                after,
                j,
            )).push(line_at(s, j)));
        }
    }
}

/// Up to the end of the text the kept lines are all the kept lines.
pub proof fn lemma_kept_between_all(s: Seq<char>, i: int, j: int)
    requires
        0 <= i,
        j >= s.len(),
    ensures
        kept_between(s, i, j) == kept_lines(s, i),
    decreases s.len() + 1 - i,
{
    if i < s.len() {
        lemma_line_end(s, i);
        lemma_kept_between_all(s, line_end(s, i) + 1, j);
    }
}

/// Joining one more line puts it after a line feed, unless it is the first.
pub proof fn lemma_joined_push(lines: Seq<Seq<char>>, line: Seq<char>)
    ensures
        joined(lines.push(line)) == if lines.len() == 0 {
            line
        } else {
            joined(lines) + seq!['\n'] + line
        },
{
    let l = lines.push(line);
    assert(l.last() == line);
    assert(l.drop_last() =~= lines);
    if lines.len() == 0 {
        assert(l[0] == line);
    }
}

/// Takes the comment lines out of an edited text and trims the rest.
pub fn clean_edited_text(content: &str) -> (r: String)
    ensures
        r@ == cleaned(content@),
{
    let cs = chars_of(content);
    let n = cs.len();
    let mut out: Vec<char> = Vec::new();
    let mut any = false;
    let mut i: usize = 0;
    let ghost s = cs@;
    proof {
        assert(kept_between(s, 0, 0) =~= Seq::<Seq<char>>::empty());
    }
    while i < n
        invariant
            s == cs@,
            n == cs.len(),
            i <= n,
            0 < i < n ==> s[i - 1] == '\n',
            any == (kept_between(s, 0, i as int).len() > 0),
            out@ == joined(kept_between(s, 0, i as int)),
        decreases n - i,
    {
        let mut e: usize = i;
        while e < n && cs[e] != '\n'
            invariant
                s == cs@,
                n == cs.len(),
                i <= e <= n,
                line_end(s, i as int) == line_end(s, e as int),
            decreases n - e,
        {
            e = e + 1;
        }
        proof {
            lemma_line_end(s, i as int);
            assert(line_end(s, i as int) == e);
        }
        let stop: usize = if e < n && i < e && cs[e - 1] == '\r' {
            e - 1
        } else {
            e
        };
        assert(s.subrange(i as int, stop as int) == line_at(s, i as int));
        let (a, _b) = trim_bounds(&cs, i, stop);
        let comment = a < stop && cs[a] == '#';
        proof {
            let lead = s.subrange(a as int, stop as int);
            if a < stop {
                assert(lead.first() == s[a as int]);
            }
            assert(comment == is_comment(line_at(s, i as int)));
            if i > 0 {
                assert(line_end(s, 0) < i) by {
                    lemma_line_end(s, 0);
                    if line_end(s, 0) >= i {
                        assert(s[i - 1] != '\n');
                    }
                }
            }
            lemma_kept_between_step(s, 0, i as int);
            lemma_joined_push(kept_between(s, 0, i as int), line_at(s, i as int));
        }
        if !comment {
            if any {
                out.push('\n');
            }
            let mut k: usize = i;
            let ghost base = out@;
            while k < stop
                invariant
                    s == cs@,
                    i <= k <= stop <= cs.len(),
                    out@ == base + s.subrange(i as int, k as int),
                decreases stop - k,
            {
                out.push(cs[k]);
                assert(s.subrange(i as int, k + 1) =~= s.subrange(i as int, k as int).push(
                    s[k as int],
                ));
                assert(out@ =~= base + s.subrange(i as int, k + 1));
                k = k + 1;
            }
            assert(out@ =~= joined(kept_between(s, 0, e + 1)));
            any = true;
        }
        if e < n {
            i = e + 1;
        } else {
            proof {
                lemma_kept_between_all(s, 0, e + 1);
                lemma_kept_between_all(s, 0, n as int);
            }
            i = n;
        }
    }
    proof {
        lemma_kept_between_all(s, 0, n as int);
    }
    let (a, b) = trim_bounds(&out, 0, out.len());
    assert(out@.subrange(0, out.len() as int) =~= out@);
    text_between(&out, a, b)
}

/// `c` with the letters `A` to `Z` replaced by `a` to `z`.
pub open spec fn fold_case(c: char) -> char {
    if 'A' <= c && c <= 'Z' {
        ((c as u8) + 32) as char
    } else {
        c
    }
}

/// Lowers an ASCII capital letter and leaves every other character as it is.
pub fn fold_char(c: char) -> (r: char)
    ensures
        r == fold_case(c),
{
    if 'A' <= c && c <= 'Z' {
        let b: u8 = c as u8;
        (b + 32) as char
    } else {
        c
    }
}

/// `needle` stands in `hay` at offset `at`, the letters `A` to `Z` taken as
/// their small forms.
pub open spec fn matches_at(hay: Seq<char>, needle: Seq<char>, at: int) -> bool {
    &&& 0 <= at
    &&& at + needle.len() <= hay.len()
    &&& forall|j: int|
        0 <= j < needle.len() ==> fold_case(#[trigger] hay[at + j]) == fold_case(needle[j])
}

/// `needle` is a substring of `hay`, the letters `A` to `Z` taken as their
/// small forms.
pub open spec fn contains_folded(hay: Seq<char>, needle: Seq<char>) -> bool {
    exists|at: int| matches_at(hay, needle, at)
}

/// Tests whether `needle` stands in `hay` at offset `at`.
pub fn matches_here(hay: &Vec<char>, needle: &Vec<char>, at: usize) -> (r: bool)
    requires
        at + needle.len() <= hay.len(),
    ensures
        r == matches_at(hay@, needle@, at as int),
{
    let mut j: usize = 0;
    while j < needle.len()
        invariant
            j <= needle.len(),
            at + needle.len() <= hay.len(),
            forall|k: int|
                0 <= k < j ==> fold_case(#[trigger] hay@[at + k]) == fold_case(needle@[k]),
        decreases needle.len() - j,
    {
        if fold_char(hay[at + j]) != fold_char(needle[j]) {
            return false;
        }
        j = j + 1;
    }
    true
}

/// Substring test in which the letters `A` to `Z` match their small forms.
/// The empty needle is found in every text.
pub fn contains_ignoring_case(hay: &Vec<char>, needle: &Vec<char>) -> (r: bool)
    ensures
        r == contains_folded(hay@, needle@),
{
    if needle.len() > hay.len() {
        return false;
    }
    let last: usize = hay.len() - needle.len();
    let mut at: usize = 0;
    while at <= last
        invariant
            at <= last + 1,
            last == hay.len() - needle.len(),
            needle.len() <= hay.len(),
            forall|k: int| 0 <= k < at ==> !matches_at(hay@, needle@, k),
        decreases last + 1 - at,
    {
        if matches_here(hay, needle, at) {
            return true;
        }
        at = at + 1;
    }
    false
}

/// The lowercase hexadecimal digit of a value below sixteen.
pub open spec fn hex_digit(n: int) -> char {
    if n < 10 {
        (48 + n) as u8 as char
    } else {
        (87 + n) as u8 as char
    }
}

/// One of the digits `0` to `9` or the letters `a` to `f`.
pub open spec fn is_lower_hex(c: char) -> bool {
    ('0' <= c && c <= '9') || ('a' <= c && c <= 'f')
}

/// Two digits for each byte, the high half first.
pub open spec fn hex_text(bytes: Seq<u8>) -> Seq<char> {
    Seq::new(
        2 * bytes.len(),
        |i: int|
            if i % 2 == 0 {
                hex_digit(bytes[i / 2] as int / 16)
            } else {
                hex_digit(bytes[i / 2] as int % 16)
            },
    )
}

/// The digit for `n`.
pub fn hex_char(n: u8) -> (c: char)
    requires
        n < 16,
    ensures
        c == hex_digit(n as int),
        is_lower_hex(c),
{
    if n < 10 {
        (48 + n) as char
    } else {
        (87 + n) as char
    }
}

/// Writes `bytes` as lowercase hexadecimal text.
pub fn hex_encode(bytes: &Vec<u8>) -> (s: String)
    ensures
        s@ == hex_text(bytes@),
{
    let mut s = String::new();
    let mut i: usize = 0;
    while i < bytes.len()
        invariant
            i <= bytes.len(),
            s@.len() == 2 * i,
            forall|k: int| 0 <= k < 2 * i ==> s@[k] == hex_text(bytes@)[k],
        decreases bytes.len() - i,
    {
        let b: u8 = bytes[i];
        s.push(hex_char(b / 16));
        s.push(hex_char(b % 16));
        i = i + 1;
    }
    assert(s@ =~= hex_text(bytes@));
    s
}

/// Every character of the hexadecimal text of any bytes is a lowercase
/// hexadecimal digit.
pub proof fn lemma_hex_text_is_lower_hex(bytes: Seq<u8>)
    ensures
        hex_text(bytes).len() == 2 * bytes.len(),
        forall|i: int| 0 <= i < hex_text(bytes).len() ==> is_lower_hex(#[trigger] hex_text(bytes)[i]),
{
}

} // verus!
