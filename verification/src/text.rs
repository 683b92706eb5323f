//! Character-level text handling: converting between strings and
//! character vectors, splitting at a separator, splitting into lines,
//! trimming Unicode white space and reading decimal `u32` values.
use vstd::prelude::*;

verus! {

/// Appends `c` to `s`.
#[verifier::external_body]
fn push_char(s: &mut String, c: char)
    ensures
        final(s)@ == old(s)@.push(c),
{
    s.push(c);
}

/// The characters of `s`, in order.
pub fn chars_of(s: &str) -> (v: Vec<char>)
    ensures
        v@ == s@,
{
    let mut v: Vec<char> = Vec::new();
    for c in it: s.chars()
        invariant
            v@ == it.seq().take(it.index()),
            it.seq() == s@,
    {
        v.push(c);
        assert(v@ =~= it.seq().take(it.index() + 1));
    }
    assert(v@ =~= s@);
    v
}

/// A `String` holding exactly the characters of `v`.
pub fn string_from_chars(v: &Vec<char>) -> (s: String)
    ensures
        s@ == v@,
{
    let mut s = String::new();
    for i in 0..v.len()
        invariant
            s@ == v@.take(i as int),
    {
        push_char(&mut s, v[i]);
        assert(s@ =~= v@.take(i + 1));
    }
    assert(v@.take(v.len() as int) =~= v@);
    s
}


/// The number of leading characters of `s` that satisfy `p`.
pub open spec fn prefix_len(s: Seq<char>, p: spec_fn(char) -> bool) -> nat
    decreases s.len(),
{
    if s.len() == 0 {
        0
    } else if p(s[0]) {
        1 + prefix_len(s.drop_first(), p)
    } else {
        0
    }
}

/// The number of trailing characters of `s` that satisfy `p`.
pub open spec fn suffix_len(s: Seq<char>, p: spec_fn(char) -> bool) -> nat
    decreases s.len(),
{
    if s.len() == 0 {
        0
    } else if p(s.last()) {
        1 + suffix_len(s.drop_last(), p)
    } else {
        0
    }
}

/// `prefix_len` is the length of the longest prefix whose characters satisfy `p`.
pub proof fn lemma_prefix_len(s: Seq<char>, p: spec_fn(char) -> bool)
    ensures
        prefix_len(s, p) <= s.len(),
        forall|j: int| 0 <= j < prefix_len(s, p) ==> p(#[trigger] s[j]),
        prefix_len(s, p) < s.len() ==> !p(s[prefix_len(s, p) as int]),
    decreases s.len(),
{
    if s.len() > 0 && p(s[0]) {
        lemma_prefix_len(s.drop_first(), p);
        assert forall|j: int| 0 <= j < prefix_len(s, p) implies p(#[trigger] s[j]) by {
            if j > 0 {
                assert(s[j] == s.drop_first()[j - 1]);
            }
        }
    }
}

/// A length `k` with the defining properties of `prefix_len` is `prefix_len`.
pub proof fn lemma_prefix_len_is(s: Seq<char>, p: spec_fn(char) -> bool, k: int)
    requires
        0 <= k <= s.len(),
        forall|j: int| 0 <= j < k ==> p(#[trigger] s[j]),
        k < s.len() ==> !p(s[k]),
    ensures
        prefix_len(s, p) == k,
{
    lemma_prefix_len(s, p);
    if prefix_len(s, p) < k {
        assert(p(s[prefix_len(s, p) as int]));
    }
    if k < prefix_len(s, p) {
        assert(p(s[k]));
    }
}

/// `suffix_len` is the length of the longest suffix whose characters satisfy `p`.
pub proof fn lemma_suffix_len(s: Seq<char>, p: spec_fn(char) -> bool)
    ensures
        suffix_len(s, p) <= s.len(),
        forall|j: int| s.len() - suffix_len(s, p) <= j < s.len() ==> p(#[trigger] s[j]),
        suffix_len(s, p) < s.len() ==> !p(s[s.len() - suffix_len(s, p) - 1]),
    decreases s.len(),
{
    if s.len() > 0 && p(s.last()) {
        lemma_suffix_len(s.drop_last(), p);
        assert forall|j: int| s.len() - suffix_len(s, p) <= j < s.len() implies p(#[trigger] s[j]) by {
            if j < s.len() - 1 {
                assert(s[j] == s.drop_last()[j]);
            }
        }
        if suffix_len(s, p) < s.len() {
            assert(s[s.len() - suffix_len(s, p) - 1] == s.drop_last()[s.drop_last().len() - suffix_len(s.drop_last(), p) - 1]);
        }
    }
}

/// A length `k` with the defining properties of `suffix_len` is `suffix_len`.
pub proof fn lemma_suffix_len_is(s: Seq<char>, p: spec_fn(char) -> bool, k: int)
    requires
        0 <= k <= s.len(),
        forall|j: int| s.len() - k <= j < s.len() ==> p(#[trigger] s[j]),
        k < s.len() ==> !p(s[s.len() - k - 1]),
    ensures
        suffix_len(s, p) == k,
{
    lemma_suffix_len(s, p);
    if suffix_len(s, p) < k {
        assert(p(s[s.len() - suffix_len(s, p) - 1]));
    }
    if k < suffix_len(s, p) {
        assert(p(s[s.len() - k - 1]));
    }
}

/// Holds of every character other than `c`.
pub open spec fn other_than(c: char) -> spec_fn(char) -> bool {
    |x: char| x != c
}

/// The index of the first `c` in `s`, or `s.len()` when `s` holds none.
pub open spec fn find_char(s: Seq<char>, c: char) -> nat {
    prefix_len(s, other_than(c))
}

/// The character sequences held by a vector of character vectors.
pub open spec fn views(v: Seq<Vec<char>>) -> Seq<Seq<char>> {
    v.map_values(|x: Vec<char>| x@)
}

/// The pieces of `s` between occurrences of `sep`, as `str::split` with a
/// character pattern yields them (empty pieces included).
pub open spec fn spec_split(s: Seq<char>, sep: char) -> Seq<Seq<char>>
    decreases s.len(),
{
    let i = find_char(s, sep);
    if i >= s.len() {
        seq![s]
    } else {
        seq![s.take(i as int)] + spec_split(s.skip(i + 1 as int), sep)
    }
}

/// Splitting `a + [sep] + b` where `a` holds no `sep` gives `a` first.
proof fn lemma_split_step(s: Seq<char>, sep: char, i: int)
    requires
        0 <= i < s.len(),
        s[i] == sep,
        forall|j: int| 0 <= j < i ==> s[j] != sep,
    ensures
        spec_split(s, sep) == seq![s.take(i)] + spec_split(s.skip(i + 1), sep),
{
    lemma_prefix_len_is(s, other_than(sep), i);
}

/// Splitting a sequence without `sep` gives the sequence itself.
proof fn lemma_split_last(s: Seq<char>, sep: char)
    requires
        forall|j: int| 0 <= j < s.len() ==> s[j] != sep,
    ensures
        spec_split(s, sep) == seq![s],
{
    lemma_prefix_len_is(s, other_than(sep), s.len() as int);
}

/// Splits `s` at every `sep`.
pub fn split_chars(s: &Vec<char>, sep: char) -> (parts: Vec<Vec<char>>)
    ensures
        views(parts@) == spec_split(s@, sep),
{
    let mut parts: Vec<Vec<char>> = Vec::new();
    let mut cur: Vec<char> = Vec::new();
    let ghost mut start: int = 0;
    assert(s@.skip(0) =~= s@);
    for i in 0..s.len()
        invariant
            0 <= start <= i <= s.len(),
            cur@ == s@.subrange(start, i as int),
            forall|j: int| start <= j < i ==> s@[j] != sep,
            spec_split(s@, sep) == views(parts@) + spec_split(s@.skip(start), sep),
    {
        if s[i] == sep {
            proof {
                let t = s@.skip(start);
                assert forall|j: int| 0 <= j < i - start implies t[j] != sep by {
                    assert(t[j] == s@[start + j]);
                }
                lemma_split_step(t, sep, i - start);
                assert(t.take(i - start) =~= cur@);
                assert(t.skip(i - start + 1) =~= s@.skip(i + 1));
            }
            let ghost old_parts = views(parts@);
            parts.push(cur);
            proof {
                assert(views(parts@) =~= old_parts.push(s@.subrange(start, i as int)));
                assert(spec_split(s@, sep) =~= views(parts@) + spec_split(s@.skip(i + 1), sep));
                start = i + 1;
            }
            cur = Vec::new();
            assert(cur@ =~= s@.subrange(start, i + 1));
        } else {
            cur.push(s[i]);
            assert(cur@ =~= s@.subrange(start, i + 1));
        }
    }
    proof {
        let t = s@.skip(start);
        assert forall|j: int| 0 <= j < t.len() implies t[j] != sep by {
            assert(t[j] == s@[start + j]);
        }
        lemma_split_last(t, sep);
        assert(t =~= cur@);
    }
    let ghost old_parts = views(parts@);
    parts.push(cur);
    assert(views(parts@) =~= old_parts.push(cur@));
    assert(views(parts@) =~= spec_split(s@, sep));
    parts
}


/// Splitting always yields at least one piece.
pub proof fn lemma_split_nonempty(s: Seq<char>, sep: char)
    ensures
        spec_split(s, sep).len() >= 1,
{
    reveal_with_fuel(spec_split, 1);
}

/// `l` without one trailing carriage return.
pub open spec fn strip_cr(l: Seq<char>) -> Seq<char> {
    if l.len() > 0 && l.last() == '\r' {
        l.drop_last()
    } else {
        l
    }
}

/// The lines of `s` as `str::lines` yields them: pieces between line
/// feeds, a carriage return right before a line feed removed, and no
/// empty piece after a final line feed.
pub open spec fn spec_lines(s: Seq<char>) -> Seq<Seq<char>> {
    let parts = spec_split(s, '\n');
    let ended = parts.drop_last().map_values(|l: Seq<char>| strip_cr(l));
    if parts.last().len() == 0 {
        ended
    } else {
        ended.push(parts.last())
    }
}

/// Splits `s` into lines.
pub fn split_lines(s: &Vec<char>) -> (lines: Vec<Vec<char>>)
    ensures
        views(lines@) == spec_lines(s@),
{
    let mut parts = split_chars(s, '\n');
    proof {
        lemma_split_nonempty(s@, '\n');
    }
    let ghost all = views(parts@);
    let last = parts.pop().unwrap();
    let mut lines: Vec<Vec<char>> = Vec::new();
    let n = parts.len();
    assert(views(parts@) =~= all.drop_last());
    for i in 0..n
        invariant
            n == parts.len(),
            views(parts@) == all.drop_last(),
            views(lines@) == all.drop_last().take(i as int).map_values(|l: Seq<char>| strip_cr(l)),
    {
        let mut line = parts[i].clone();
        assert(line@ == all.drop_last()[i as int]);
        let len = line.len();
        if len > 0 && line[len - 1] == '\r' {
            line.pop();
        }
        assert(line@ == strip_cr(all.drop_last()[i as int]));
        let ghost before = views(lines@);
        lines.push(line);
        assert(views(lines@) =~= before.push(line@));
        assert(all.drop_last().take(i + 1).map_values(|l: Seq<char>| strip_cr(l)) =~=
            all.drop_last().take(i as int).map_values(|l: Seq<char>| strip_cr(l)).push(line@));
    }
    assert(all.drop_last().take(n as int) =~= all.drop_last());
    if last.len() > 0 {
        let ghost before = views(lines@);
        lines.push(last);
        assert(views(lines@) =~= before.push(all.last()));
    }
    lines
}

/// Unicode white space, as `char::is_whitespace` decides it.
pub open spec fn is_white_space(c: char) -> bool {
    let n = c as u32;
    ||| 9 <= n <= 13
    ||| n == 0x20
    ||| n == 0x85
    ||| n == 0xA0
    ||| n == 0x1680
    ||| 0x2000 <= n <= 0x200A
    ||| n == 0x2028
    ||| n == 0x2029
    ||| n == 0x202F
    ||| n == 0x205F
    ||| n == 0x3000
}

/// Holds of white-space characters.
pub open spec fn white_space() -> spec_fn(char) -> bool {
    |c: char| is_white_space(c)
}

/// `s` without leading and trailing white space, as `str::trim` gives it.
pub open spec fn spec_trim(s: Seq<char>) -> Seq<char> {
    let a = prefix_len(s, white_space());
    if a == s.len() {
        seq![]
    } else {
        s.subrange(a as int, s.len() - suffix_len(s, white_space()))
    }
}

/// Trimming removes white space at both ends and nothing else: the result
/// is the piece of `s` starting at the returned offset, every character of
/// `s` before or after that piece is white space, and the result neither
/// starts nor ends with white space.
pub proof fn lemma_trim(s: Seq<char>) -> (a: int)
    ensures
        0 <= a <= a + spec_trim(s).len() <= s.len(),
        s.subrange(a, a + spec_trim(s).len()) == spec_trim(s),
        forall|j: int| 0 <= j < a ==> is_white_space(#[trigger] s[j]),
        forall|j: int| a + spec_trim(s).len() <= j < s.len() ==> is_white_space(#[trigger] s[j]),
        spec_trim(s).len() > 0 ==> !is_white_space(spec_trim(s)[0]) && !is_white_space(
            spec_trim(s).last(),
        ),
{
    lemma_prefix_len(s, white_space());
    lemma_suffix_len(s, white_space());
    let p = prefix_len(s, white_space()) as int;
    if p == s.len() {
        s.len() as int
    } else {
        let q = suffix_len(s, white_space()) as int;
        assert(!is_white_space(s[p]));
        assert(q < s.len() - p) by {
            if q >= s.len() - p {
                assert(is_white_space(s[p]));
            }
        }
        assert(spec_trim(s)[0] == s[p]);
        assert(spec_trim(s).last() == s[s.len() - q - 1]);
        p
    }
}

/// Decides whether `c` is white space.
pub fn white_space_char(c: char) -> (b: bool)
    ensures
        b == is_white_space(c),
{
    let n = c as u32;
    (9 <= n && n <= 13) || n == 0x20 || n == 0x85 || n == 0xA0 || n == 0x1680 || (0x2000 <= n
        && n <= 0x200A) || n == 0x2028 || n == 0x2029 || n == 0x202F || n == 0x205F || n
        == 0x3000
}

/// `s` without leading and trailing white space.
pub fn trim_chars(s: &Vec<char>) -> (t: Vec<char>)
    ensures
        t@ == spec_trim(s@),
{
    let len = s.len();
    let mut a: usize = 0;
    while a < len && white_space_char(s[a])
        invariant
            a <= len == s.len(),
            forall|j: int| 0 <= j < a ==> is_white_space(#[trigger] s@[j]),
        decreases len - a,
    {
        a = a + 1;
    }
    proof {
        lemma_prefix_len_is(s@, white_space(), a as int);
    }
    let mut b: usize = len;
    while b > a && white_space_char(s[b - 1])
        invariant
            a <= b <= len == s.len(),
            a < len ==> !is_white_space(s@[a as int]),
            a < len ==> a < b,
            forall|j: int| b <= j < len ==> is_white_space(#[trigger] s@[j]),
        decreases b - a,
    {
        b = b - 1;
    }
    let mut t: Vec<char> = Vec::new();
    let mut i = a;
    while i < b
        invariant
            a <= i <= b <= len == s.len(),
            t@ == s@.subrange(a as int, i as int),
        decreases b - i,
    {
        t.push(s[i]);
        i = i + 1;
        assert(t@ =~= s@.subrange(a as int, i as int));
    }
    proof {
        if a < len {
            lemma_suffix_len_is(s@, white_space(), (len - b) as int);
        } else {
            assert(t@ =~= Seq::<char>::empty());
        }
    }
    t
}

/// Holds of the ASCII digits `0` to `9`.
pub open spec fn is_digit(c: char) -> bool {
    '0' <= c <= '9'
}

/// The value of a string of decimal digits (0 for the empty string).
pub open spec fn digits_value(s: Seq<char>) -> nat
    decreases s.len(),
{
    if s.len() == 0 {
        0
    } else {
        digits_value(s.drop_last()) * 10 + (s.last() as nat - '0' as nat) as nat
    }
}

/// `s` without one leading `+`.
pub open spec fn unsigned_digits(s: Seq<char>) -> Seq<char> {
    if s.len() > 0 && s[0] == '+' {
        s.drop_first()
    } else {
        s
    }
}

/// The value `s.parse::<u32>()` gives: an optional `+` followed by at least
/// one decimal digit and nothing else, with a value that fits in a `u32`.
pub open spec fn spec_parse_u32(s: Seq<char>) -> Option<u32> {
    let d = unsigned_digits(s);
    if d.len() > 0 && (forall|i: int| 0 <= i < d.len() ==> is_digit(#[trigger] d[i]))
        && digits_value(d) <= u32::MAX {
        Some(digits_value(d) as u32)
    } else {
        None
    }
}

/// A string of digits is worth at least each of its prefixes.
proof fn lemma_digits_value_grows(s: Seq<char>, k: int)
    requires
        0 <= k <= s.len(),
        forall|i: int| 0 <= i < s.len() ==> is_digit(#[trigger] s[i]),
    ensures
        digits_value(s.take(k)) <= digits_value(s),
    decreases s.len(),
{
    if k < s.len() {
        assert(s.drop_last().take(k) =~= s.take(k));
        assert forall|i: int| 0 <= i < s.drop_last().len() implies is_digit(
            #[trigger] s.drop_last()[i],
        ) by {
            assert(s.drop_last()[i] == s[i]);
        }
        lemma_digits_value_grows(s.drop_last(), k);
    } else {
        assert(s.take(k) =~= s);
    }
}

/// Reads a decimal `u32` as `str::parse::<u32>` does.
pub fn parse_u32_chars(s: &Vec<char>) -> (r: Option<u32>)
    ensures
        r == spec_parse_u32(s@),
{
    let len = s.len();
    let start: usize = if len > 0 && s[0] == '+' {
        1
    } else {
        0
    };
    let ghost d = unsigned_digits(s@);
    assert(d =~= s@.skip(start as int));
    if start == len {
        return None;
    }
    let mut acc: u64 = 0;
    let mut i = start;
    while i < len
        invariant
            start <= i <= len == s.len(),
            d == s@.skip(start as int),
            d == unsigned_digits(s@),
            d.len() == len - start,
            forall|j: int| 0 <= j < i - start ==> is_digit(#[trigger] d[j]),
            acc == digits_value(d.take(i - start)),
            acc <= u32::MAX,
        decreases len - i,
    {
        let c = s[i];
        if !('0' <= c && c <= '9') {
            assert(!is_digit(d[i - start]));
            return None;
        }
        let digit = (c as u32 - '0' as u32) as u64;
        assert(d.take(i - start + 1).drop_last() =~= d.take(i - start));
        assert(d[i - start] == c);
        assert(d.take(i - start + 1).last() == c);
        acc = acc * 10 + digit;
        assert(acc == digits_value(d.take(i - start + 1)));
        if acc > 0xFFFF_FFFF {
            proof {
                if forall|j: int| 0 <= j < d.len() ==> is_digit(#[trigger] d[j]) {
                    lemma_digits_value_grows(d, i - start + 1);
                }
            }
            return None;
        }
        i = i + 1;
    }
    assert(d.take(len - start) =~= d);
    Some(acc as u32)
}

} // verus!
