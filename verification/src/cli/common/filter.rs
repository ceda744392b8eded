//! The filter on file names.

use crate::utils::text::{split_commas, spec_split, strip_prefix, trim, trimmed_of};
use vstd::prelude::*;

verus! {

/// A list of glob patterns, separated by commas; one that starts with `!`
/// excludes.
#[derive(Debug, Clone)]
pub struct Filter {
    pub filter: Option<String>,
}

/// One pattern of a filter.
#[derive(Debug)]
pub struct Pattern {
    /// The glob, without the `!` that may stand before it.
    pub text: String,
    /// The pattern lets through what does not match it.
    pub exclude: bool,
}

/// The pattern that a piece of a filter stands for: the piece without the
/// white space around it, and without the `!` that makes it exclude.
pub open spec fn spec_pattern(piece: Seq<char>) -> (Seq<char>, bool) {
    let text = trimmed_of(piece);
    if text.len() > 0 && text[0] == '!' {
        (text.subrange(1, text.len() as int), true)
    } else {
        (text, false)
    }
}

/// The patterns of a filter text: one for each piece between commas.
pub open spec fn spec_patterns(filter: Seq<char>) -> Seq<(Seq<char>, bool)> {
    Seq::new(spec_split(filter, ',').len(), |i: int| spec_pattern(spec_split(filter, ',')[i]))
}

/// What a list of patterns holds.
pub open spec fn patterns_of(patterns: Seq<Pattern>) -> Seq<(Seq<char>, bool)> {
    Seq::new(patterns.len(), |i: int| (patterns[i].text@, patterns[i].exclude))
}

/// Whether a name passes patterns of which it matches those that `matches`
/// marks: it must match every pattern that includes, and none that excludes.
pub open spec fn spec_admits(patterns: Seq<Pattern>, matches: Seq<bool>) -> bool {
    forall|i: int| 0 <= i < patterns.len() ==> #[trigger] matches[i] != patterns[i].exclude
}

impl Filter {
    /// The patterns of the filter; none where there is no filter.
    pub fn patterns(&self) -> (r: Vec<Pattern>)
        ensures
            patterns_of(r@) == (match self.filter {
                Some(text) => spec_patterns(text@),
                None => Seq::empty(),
            }),
    {
        let mut out: Vec<Pattern> = Vec::new();
        match &self.filter {
            None => {
                assert(patterns_of(out@) =~= Seq::<(Seq<char>, bool)>::empty());
            },
            Some(text) => {
                let pieces = split_commas(text.as_str());
                let mut i: usize = 0;
                while i < pieces.len()
                    invariant
                        i <= pieces@.len(),
                        pieces@.len() == spec_split(text@, ',').len(),
                        forall|k: int|
                            0 <= k < pieces@.len() ==> (#[trigger] pieces@[k])@ == spec_split(
                                text@,
                                ',',
                            )[k],
                        out@.len() == i,
                        forall|k: int|
                            0 <= k < i ==> ((#[trigger] out@[k]).text@, out@[k].exclude)
                                == spec_pattern(spec_split(text@, ',')[k]),
                    decreases pieces@.len() - i,
                {
                    let piece = trim(pieces[i].as_str());
                    let pattern = match strip_prefix(piece.as_str(), '!') {
                        Some(rest) => Pattern { text: rest, exclude: true },
                        None => Pattern { text: piece, exclude: false },
                    };
                    out.push(pattern);
                    i += 1;
                }
                assert(patterns_of(out@) =~= spec_patterns(text@));
            },
        }
        out
    }

    /// Tells whether a name passes the patterns, of which it matches
    /// those that `matches` marks.
    pub fn admits(patterns: &Vec<Pattern>, matches: &Vec<bool>) -> (r: bool)
        requires
            matches@.len() == patterns@.len(),
        ensures
            r == spec_admits(patterns@, matches@),
    {
        let mut i: usize = 0;
        while i < patterns.len()
            invariant
                i <= patterns@.len(),
                matches@.len() == patterns@.len(),
                forall|k: int| 0 <= k < i ==> #[trigger] matches@[k] != patterns@[k].exclude,
            decreases patterns@.len() - i,
        {
            if matches[i] == patterns[i].exclude {
                return false;
            }
            i += 1;
        }
        true
    }
}

} // verus!
