//! Line filtering by regular expression: the lines of a text in which a
//! pattern finds a match, in their order.
use vstd::prelude::*;

verus! {

#[verifier::external_type_specification]
#[verifier::external_body]
pub struct ExRegex(regex::Regex);

#[verifier::external_type_specification]
#[verifier::external_body]
pub struct ExRegexError(regex::Error);

/// Whether `regex::Regex::new` accepts `pattern`: valid syntax, within the
/// default size limit.
pub uninterp spec fn regex_compiles(pattern: Seq<char>) -> bool;

/// Whether the regular expression `pattern` finds a match anywhere in `text`.
pub uninterp spec fn regex_finds(pattern: Seq<char>, text: Seq<char>) -> bool;

/// `regex::Regex::new`: it succeeds exactly where the pattern compiles.
#[verifier::external_body]
fn regex_new(pattern: &str) -> (r: Result<regex::Regex, regex::Error>)
    ensures
        r is Ok <==> regex_compiles(pattern@),
{
    regex::Regex::new(pattern)
}

/// Why a pattern cannot be used.
#[derive(Debug, PartialEq, Eq, Structural)]
pub enum GrepError {
    /// The pattern is not a valid regular expression, or compiles too large.
    InvalidPattern,
}

/// A compiled regular expression together with the pattern it was compiled
/// from. The fields are private: the only way to make one is `new`, which
/// compiles `regex` from `source`.
pub struct LinePattern {
    source: String,
    regex: regex::Regex,
}

/// `regex::Regex::find` on the compiled form of `p`, asking only whether a
/// match was found. The contract states the result over the pattern that
/// `p` was compiled from.
#[verifier::external_body]
fn regex_find(p: &LinePattern, text: &str) -> (found: bool)
    ensures
        found == regex_finds(p.pattern(), text@),
{
    p.regex.find(text).is_some()
}

impl LinePattern {
    /// The pattern this was compiled from.
    pub closed spec fn pattern(&self) -> Seq<char> {
        self.source@
    }

    /// Compiles `pattern`.
    pub fn new(pattern: &str) -> (r: Result<LinePattern, GrepError>)
        ensures
            match r {
                Ok(p) => regex_compiles(pattern@) && p.pattern() == pattern@,
                Err(e) => !regex_compiles(pattern@) && e == GrepError::InvalidPattern,
            },
    {
        match regex_new(pattern) {
            Ok(regex) => Ok(LinePattern { source: String::from_str(pattern), regex }),
            Err(_) => Err(GrepError::InvalidPattern),
        }
    }

    /// Whether the pattern finds a match in `line`.
    pub fn is_match(&self, line: &str) -> (b: bool)
        ensures
            b == regex_finds(self.pattern(), line@),
    {
        regex_find(self, line)
    }
}

/// The lines of `lines` in which `pattern` finds a match, in order.
pub open spec fn matching_lines(pattern: Seq<char>, lines: Seq<Seq<char>>) -> Seq<Seq<char>>
    decreases lines.len(),
{
    if lines.len() == 0 {
        seq![]
    } else {
        let prev = matching_lines(pattern, lines.drop_last());
        if regex_finds(pattern, lines.last()) {
            prev.push(lines.last())
        } else {
            prev
        }
    }
}

/// Holds of the lines in which `pattern` finds a match.
pub open spec fn finds_in(pattern: Seq<char>) -> spec_fn(Seq<char>) -> bool {
    |l: Seq<char>| regex_finds(pattern, l)
}

/// One more line is kept exactly when the pattern finds a match in it,
/// whether or not an equal line was kept before.
pub proof fn lemma_matching_lines_push(pattern: Seq<char>, lines: Seq<Seq<char>>, l: Seq<char>)
    ensures
        regex_finds(pattern, l) ==> matching_lines(pattern, lines.push(l)) == matching_lines(
            pattern,
            lines,
        ).push(l),
        !regex_finds(pattern, l) ==> matching_lines(pattern, lines.push(l)) == matching_lines(
            pattern,
            lines,
        ),
{
    assert(lines.push(l).drop_last() =~= lines);
}

/// The kept lines are the input filtered by the pattern, repeated lines
/// counted each time they occur; so as many lines are kept as match.
pub proof fn lemma_matching_lines_are_filtered(pattern: Seq<char>, lines: Seq<Seq<char>>)
    ensures
        matching_lines(pattern, lines) == lines.filter(finds_in(pattern)),
    decreases lines.len(),
{
    reveal_with_fuel(Seq::filter, 1);
    if lines.len() > 0 {
        lemma_matching_lines_are_filtered(pattern, lines.drop_last());
    }
}

/// The lines in which `pattern` finds a match, in order.
pub fn process_lines(lines: &Vec<String>, pattern: &LinePattern) -> (out: Vec<String>)
    ensures
        out@.map_values(|l: String| l@) == matching_lines(
            pattern.pattern(),
            lines@.map_values(|l: String| l@),
        ),
        out@.map_values(|l: String| l@) == lines@.map_values(|l: String| l@).filter(
            finds_in(pattern.pattern()),
        ),
{
    let ghost all = lines@.map_values(|l: String| l@);
    let mut out: Vec<String> = Vec::new();
    for i in 0..lines.len()
        invariant
            all == lines@.map_values(|l: String| l@),
            out@.map_values(|l: String| l@) == matching_lines(pattern.pattern(), all.take(i as int)),
    {
        assert(all.take(i + 1).drop_last() =~= all.take(i as int));
        assert(all.take(i + 1).last() == lines@[i as int]@);
        if pattern.is_match(lines[i].as_str()) {
            let ghost before = out@.map_values(|l: String| l@);
            out.push(lines[i].clone());
            assert(out@.map_values(|l: String| l@) =~= before.push(lines@[i as int]@));
        }
    }
    assert(all.take(lines.len() as int) =~= all);
    proof {
        lemma_matching_lines_are_filtered(pattern.pattern(), all);
    }
    out
}

/// Every line kept matches, every line left out does not, and the kept
/// lines keep their order: `matching_lines` is the subsequence of matching
/// lines.
pub proof fn lemma_matching_lines(pattern: Seq<char>, lines: Seq<Seq<char>>)
    ensures
        matching_lines(pattern, lines).len() <= lines.len(),
        forall|k: int|
            0 <= k < matching_lines(pattern, lines).len() ==> regex_finds(
                pattern,
                #[trigger] matching_lines(pattern, lines)[k],
            ),
        forall|l: Seq<char>|
            lines.contains(l) && regex_finds(pattern, l) ==> #[trigger] matching_lines(
                pattern,
                lines,
            ).contains(l),
        forall|l: Seq<char>| #[trigger]
            matching_lines(pattern, lines).contains(l) ==> lines.contains(l),
    decreases lines.len(),
{
    if lines.len() > 0 {
        let prev = lines.drop_last();
        lemma_matching_lines(pattern, prev);
        let m = matching_lines(pattern, lines);
        let mp = matching_lines(pattern, prev);
        assert forall|l: Seq<char>|
            lines.contains(l) && regex_finds(pattern, l) implies #[trigger] m.contains(l) by {
            let j = choose|j: int| 0 <= j < lines.len() && lines[j] == l;
            if j < lines.len() - 1 {
                assert(prev[j] == l);
                assert(prev.contains(l));
                assert(mp.contains(l));
                let k = choose|k: int| 0 <= k < mp.len() && mp[k] == l;
                assert(m[k] == l);
            } else {
                assert(m[m.len() - 1] == l);
            }
        }
        assert forall|l: Seq<char>| #[trigger] m.contains(l) implies lines.contains(l) by {
            let k = choose|k: int| 0 <= k < m.len() && m[k] == l;
            if k < mp.len() {
                assert(mp[k] == l);
                assert(mp.contains(l));
                assert(prev.contains(l));
                let j = choose|j: int| 0 <= j < prev.len() && prev[j] == l;
                assert(lines[j] == l);
            } else {
                assert(lines[lines.len() - 1] == l);
            }
        }
        assert forall|k: int| 0 <= k < m.len() implies regex_finds(pattern, #[trigger] m[k]) by {
            if k < mp.len() {
                assert(m[k] == mp[k]);
            }
        }
    }
}

} // verus!
