//! The set of regular expressions that says which directory names a walk
//! passes over.

use vstd::prelude::*;
use vstd::string::StringExecFns;
use regex::Regex;
use crate::text::{chars_of, find_sep, first_sep, string_of, trim_range, trimmed};

verus! {

/// A compiled regular expression of the `regex` crate.
#[verifier::external_type_specification]
#[verifier::external_body]
pub struct ExRegex(regex::Regex);

/// The error of the `regex` crate for a pattern that does not compile.
#[verifier::external_type_specification]
#[verifier::external_body]
pub struct ExRegexError(regex::Error);

/// The pattern text that a compiled expression was made from: what
/// `Regex::as_str` returns.
pub uninterp spec fn regex_source(re: &Regex) -> Seq<char>;

/// Whether the compiled expression matches somewhere in `haystack`: what
/// `Regex::is_match` returns.
pub uninterp spec fn regex_accepts(re: &Regex, haystack: Seq<char>) -> bool;

/// Whether `Regex::new` compiles the pattern written as `pattern`, on the
/// system that the library is built for.
pub uninterp spec fn regex_compiles(pattern: Seq<char>) -> bool;

/// `Regex::new` compiles a pattern with the settings of the crate. Whether
/// it succeeds depends on the pattern's text alone: the text is parsed, and
/// the compiled form is held against a fixed limit on its size, measured in
/// bytes of the system that the library is built for. A compiled expression
/// remembers the text it was made from.
pub assume_specification[ Regex::new ](re: &str) -> (compiled: Result<Regex, regex::Error>)
    ensures
        compiled is Ok == regex_compiles(re@),
        compiled matches Ok(regex) ==> regex_source(&regex) == re@,
;

/// `Regex::as_str` returns the text that the expression was made from.
pub assume_specification<'a>[ Regex::as_str ](re: &'a Regex) -> (text: &'a str)
    ensures
        text@ == regex_source(re),
;

/// `Regex::is_match` says whether the expression matches anywhere in the
/// haystack; the answer depends on the expression and the haystack alone.
pub assume_specification[ Regex::is_match ](re: &Regex, haystack: &str) -> (found: bool)
    ensures
        found == regex_accepts(re, haystack@),
;

/// The patterns written in a comma-separated list: each piece between commas,
/// trimmed of white space, the empty ones left out.
pub open spec fn pattern_pieces(s: Seq<char>) -> Seq<Seq<char>>
    decreases s.len(),
{
    let cut = first_sep(s, ',');
    let piece = trimmed(s.take(cut as int));
    let head = if piece.len() > 0 {
        seq![piece]
    } else {
        Seq::<Seq<char>>::empty()
    };
    if cut >= s.len() {
        head
    } else {
        head + pattern_pieces(s.skip(cut as int + 1))
    }
}

/// Whether every one of `pieces` compiles.
pub open spec fn all_compile(pieces: Seq<Seq<char>>) -> bool {
    forall|i: int| 0 <= i < pieces.len() ==> regex_compiles(#[trigger] pieces[i])
}

/// Whether the piece at `k` is the first of `pieces` that does not compile.
pub open spec fn is_first_failure(pieces: Seq<Seq<char>>, k: int) -> bool {
    &&& 0 <= k < pieces.len()
    &&& !regex_compiles(pieces[k])
    &&& forall|j: int| 0 <= j < k ==> regex_compiles(#[trigger] pieces[j])
}

/// Whether `pattern` is the first of `pieces` that does not compile.
pub open spec fn names_first_failure(pieces: Seq<Seq<char>>, pattern: Seq<char>) -> bool {
    exists|k: int| is_first_failure(pieces, k) && #[trigger] pieces[k] == pattern
}

/// A pattern of the list that is no valid regular expression.
#[derive(Debug, Clone)]
pub struct IgnoreError {
    /// The offending pattern, as written.
    pub pattern: String,
    /// What the regular-expression compiler said of it.
    pub reason: String,
}

impl IgnoreError {
    /// The line that tells of the pattern.
    pub open spec fn message(pattern: Seq<char>) -> Seq<char> {
        "Invalid regex pattern: '"@ + pattern + "'"@
    }

    /// The error in one line, with the pattern in quotes.
    pub fn to_string(&self) -> (text: String)
        ensures
            text@ == Self::message(self.pattern@),
    {
        let mut text = String::from_str("Invalid regex pattern: '");
        text.append(self.pattern.as_str());
        text.append("'");
        text
    }
}

/// Compiled ignore patterns, in the order they were written.
#[derive(Debug, Clone)]
pub struct IgnorePatterns {
    patterns: Vec<Regex>,
}

impl IgnorePatterns {
    /// The compiled expressions, in order.
    pub closed spec fn regexes(&self) -> Seq<Regex> {
        self.patterns@
    }

    /// The pattern texts, in order.
    pub open spec fn sources(&self) -> Seq<Seq<char>> {
        Seq::new(self.regexes().len(), |i: int| regex_source(&self.regexes()[i]))
    }

    /// Whether a directory of this name is passed over: some expression
    /// matches somewhere in it.
    pub open spec fn ignores(&self, name: Seq<char>) -> bool {
        exists|i: int|
            0 <= i < self.regexes().len() && regex_accepts(&(#[trigger] self.regexes()[i]), name)
    }

    /// The names that are passed over.
    pub open spec fn ignored(&self) -> Set<Seq<char>> {
        Set::new(|name: Seq<char>| self.ignores(name))
    }

    /// The set without patterns, which ignores nothing.
    pub fn empty() -> (set: Self)
        ensures
            set.regexes() == Seq::<Regex>::empty(),
            set.sources() == Seq::<Seq<char>>::empty(),
            set.ignored() == Set::<Seq<char>>::empty(),
    {
        let set = IgnorePatterns { patterns: Vec::new() };
        assert(set.sources() =~= Seq::<Seq<char>>::empty());
        assert(set.ignored() =~= Set::<Seq<char>>::empty());
        set
    }

    /// Takes the outcome of compiling `piece` into the set: a compiled
    /// expression is added at the end, a failure becomes the error that names
    /// the piece.
    pub fn with_compiled(self, piece: &str, compiled: Result<Regex, regex::Error>) -> (result:
        Result<Self, IgnoreError>)
        ensures
            match compiled {
                Ok(regex) => result matches Ok(set) && set.regexes() == self.regexes().push(regex),
                Err(_) => result matches Err(e) && e.pattern@ == piece@,
            },
    {
        match compiled {
            Ok(regex) => {
                let mut patterns = self.patterns;
                patterns.push(regex);
                Ok(IgnorePatterns { patterns })
            },
            Err(e) => Err(IgnoreError { pattern: String::from_str(piece), reason: e.to_string() }),
        }
    }

    /// Compiles a comma-separated list of patterns. Pieces are trimmed and
    /// empty ones skipped. The set is made exactly when every piece compiles,
    /// and holds the pieces in their order; else the first piece that does
    /// not compile ends the construction with an error that names it.
    pub fn new(patterns_str: &str) -> (result: Result<Self, IgnoreError>)
        ensures
            result is Ok <==> all_compile(pattern_pieces(patterns_str@)),
            match result {
                Ok(set) => set.sources() == pattern_pieces(patterns_str@),
                Err(e) => names_first_failure(pattern_pieces(patterns_str@), e.pattern@),
            },
    {
        let chars = chars_of(patterns_str);
        let mut set = Self::empty();
        let mut start: usize = 0;
        let ghost all = pattern_pieces(chars@);
        proof {
            assert(chars@.skip(0) =~= chars@);
            assert(all =~= set.sources() + all);
        }
        loop
            invariant_except_break
                start <= chars@.len(),
                chars@ == patterns_str@,
                all == pattern_pieces(chars@),
                all == set.sources() + pattern_pieces(chars@.skip(start as int)),
                all_compile(set.sources()),
            ensures
                chars@ == patterns_str@,
                all == pattern_pieces(chars@),
                all == set.sources(),
                all_compile(set.sources()),
            decreases chars@.len() - start,
        {
            let ghost rest = chars@.skip(start as int);
            let ghost before = set.sources();
            let cut = find_sep(&chars, start, ',');
            let (from, to) = trim_range(&chars, start, cut);
            assert(chars@.subrange(start as int, cut as int) =~= rest.take(cut - start));
            if from < to {
                let piece = string_of(&chars, from, to);
                let compiled = Regex::new(piece.as_str());
                let ghost k = before.len() as int;
                proof {
                    assert(all[k] == piece@);
                    assert forall|j: int| 0 <= j < k implies regex_compiles(#[trigger] all[j]) by {
                        assert(all[j] == before[j]);
                    }
                }
                match set.with_compiled(piece.as_str(), compiled) {
                    Ok(next) => {
                        proof {
                            assert(next.sources() =~= before.push(piece@));
                            assert forall|j: int| 0 <= j < next.sources().len() implies regex_compiles(
                                #[trigger] next.sources()[j],
                            ) by {
                                if j < k {
                                    assert(next.sources()[j] == before[j]);
                                }
                            }
                        }
                        set = next;
                    },
                    Err(e) => {
                        proof {
                            assert(is_first_failure(all, k) && all[k] == e.pattern@);
                        }
                        return Err(e);
                    },
                }
            }
            if cut >= chars.len() {
                proof {
                    assert(all =~= set.sources());
                }
                break;
            }
            proof {
                assert(chars@.skip(cut as int + 1) =~= rest.skip(cut - start + 1));
                assert(all =~= set.sources() + pattern_pieces(chars@.skip(cut as int + 1)));
            }
            start = cut + 1;
        }
        Ok(set)
    }

    /// Whether a directory of this name should be passed over.
    pub fn should_ignore(&self, dir_name: &str) -> (ignored: bool)
        ensures
            ignored == self.ignores(dir_name@),
    {
        let mut i: usize = 0;
        while i < self.patterns.len()
            invariant
                i <= self.patterns@.len(),
                forall|j: int|
                    0 <= j < i ==> !regex_accepts(&(#[trigger] self.regexes()[j]), dir_name@),
            decreases self.patterns@.len() - i,
        {
            if self.patterns[i].is_match(dir_name) {
                assert(regex_accepts(&self.regexes()[i as int], dir_name@));
                return true;
            }
            i += 1;
        }
        false
    }

    /// Whether the set holds no pattern.
    pub fn is_empty(&self) -> (empty: bool)
        ensures
            empty == (self.sources().len() == 0),
    {
        self.patterns.len() == 0
    }

    /// The number of patterns.
    pub fn len(&self) -> (count: usize)
        ensures
            count == self.sources().len(),
    {
        self.patterns.len()
    }

    /// The text of the pattern at `index`.
    pub fn pattern(&self, index: usize) -> (text: &str)
        requires
            index < self.sources().len(),
        ensures
            text@ == self.sources()[index as int],
    {
        self.patterns[index].as_str()
    }
}

} // verus!
