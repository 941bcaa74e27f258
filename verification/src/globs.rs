//! Filters of a corpus that can be read off its patterns: those that ask for
//! nothing but the ending of a name.

use vstd::prelude::*;

use crate::corpus::{wiki_corpus, CorpusConfig, RepositoryModel};
use crate::text::{
    cat2, chars_of, ends_with, has_prefix, has_suffix, opt_view, starts_with, text_between, views,
};

verus! {

/// How a pattern begins that takes every name with an ending.
pub const ENDING_GLOB: &'static str = "**/*";

/// Whether the character is a plain letter or a digit.
pub open spec fn is_plain(c: char) -> bool {
    ('a' <= c && c <= 'z') || ('A' <= c && c <= 'Z') || ('0' <= c && c <= '9')
}

/// Whether the text is a dot and plain letters or digits.
pub open spec fn is_ending(s: Seq<char>) -> bool {
    &&& s.len() > 1
    &&& s[0] == '.'
    &&& forall|i: int| 1 <= i < s.len() ==> is_plain(#[trigger] s[i])
}

/// The ending that the pattern asks for, where it asks for nothing else.
pub open spec fn asked_ending(glob: Seq<char>) -> Option<Seq<char>> {
    if has_prefix(glob, ENDING_GLOB@) && is_ending(glob.skip(ENDING_GLOB@.len() as int)) {
        Some(glob.skip(ENDING_GLOB@.len() as int))
    } else {
        None
    }
}

/// What the filters of a corpus say of a path.
#[derive(Debug, Clone, Copy, PartialEq, Eq, Structural)]
pub enum Verdict {
    Takes,
    Refuses,
    /// The filters ask for more than an ending.
    Open,
}

/// Whether each of the patterns asks for an ending and nothing else.
pub open spec fn only_endings(globs: Seq<Seq<char>>) -> bool {
    forall|i: int| 0 <= i < globs.len() ==> asked_ending(#[trigger] globs[i]) is Some
}

/// Whether the path ends as one of the patterns asks.
pub open spec fn ends_as_asked(globs: Seq<Seq<char>>, path: Seq<char>) -> bool {
    exists|i: int|
        0 <= i < globs.len() && asked_ending(#[trigger] globs[i]) is Some && has_suffix(
            path,
            asked_ending(globs[i])->0,
        )
}

/// What the filters say of the path: without patterns every path is taken.
pub open spec fn verdict(
    globs: Seq<Seq<char>>,
    exclude: Seq<Seq<char>>,
    path: Seq<char>,
) -> Verdict {
    if exclude.len() > 0 || !only_endings(globs) {
        Verdict::Open
    } else if globs.len() == 0 || ends_as_asked(globs, path) {
        Verdict::Takes
    } else {
        Verdict::Refuses
    }
}

fn ending_asked_by(glob: &str) -> (out: Option<String>)
    ensures
        opt_view(out) == asked_ending(glob@),
{
    if !starts_with(glob, ENDING_GLOB) {
        return None;
    }
    let letters = chars_of(glob);
    proof {
        reveal_strlit("**/*");
    }
    let rest = text_between(&letters, 4, letters.len());
    proof {
        assert(rest@ =~= glob@.skip(4));
    }
    let ending = chars_of(rest.as_str());
    if ending.len() < 2 || ending[0] != '.' {
        return None;
    }
    for i in 1..ending.len()
        invariant
            ending@ == rest@,
            rest@ == glob@.skip(ENDING_GLOB@.len() as int),
            forall|j: int| 1 <= j < i ==> is_plain(#[trigger] rest@[j]),
    {
        let c = ending[i];
        if !(('a' <= c && c <= 'z') || ('A' <= c && c <= 'Z') || ('0' <= c && c <= '9')) {
            proof {
                assert(!is_plain(rest@[i as int]));
            }
            return None;
        }
    }
    Some(rest)
}

/// What the filters of the corpus say of the path.
pub fn plain_filter(corpus: &CorpusConfig, path: &str) -> (out: Verdict)
    ensures
        out == verdict(corpus@.globs, corpus@.exclude, path@),
{
    if corpus.exclude.len() > 0 {
        return Verdict::Open;
    }
    let ghost globs = views(corpus.globs@);
    let mut found = false;
    for i in 0..corpus.globs.len()
        invariant
            globs == views(corpus.globs@),
            globs == corpus@.globs,
            forall|j: int| 0 <= j < i ==> asked_ending(#[trigger] globs[j]) is Some,
            found <==> ends_as_asked(globs.take(i as int), path@),
    {
        let ghost before = globs.take(i as int);
        let ghost now = globs.take(i + 1);
        match ending_asked_by(corpus.globs[i].as_str()) {
            None => {
                proof {
                    assert(asked_ending(globs[i as int]) is None);
                }
                return Verdict::Open;
            },
            Some(ending) => {
                let hit = ends_with(path, ending.as_str());
                proof {
                    if found {
                        let k = choose|k: int|
                            0 <= k < before.len() && asked_ending(#[trigger] before[k]) is Some
                                && has_suffix(path@, asked_ending(before[k])->0);
                        assert(now[k] == before[k]);
                        assert(ends_as_asked(now, path@));
                    }
                    if hit {
                        assert(now[i as int] == globs[i as int]);
                        assert(ends_as_asked(now, path@));
                    }
                    if ends_as_asked(now, path@) && !hit {
                        let k = choose|k: int|
                            0 <= k < now.len() && asked_ending(#[trigger] now[k]) is Some
                                && has_suffix(path@, asked_ending(now[k])->0);
                        assert(before[k] == now[k]);
                        assert(ends_as_asked(before, path@));
                    }
                }
                found = found || hit;
            },
        }
    }
    proof {
        assert(globs.take(globs.len() as int) =~= globs);
    }
    if corpus.globs.len() == 0 || found {
        Verdict::Takes
    } else {
        Verdict::Refuses
    }
}

/// The message for a path that the patterns of its corpus do not take.
pub fn not_included(path: &str) -> (out: String)
    ensures
        out@ == path@ + " is not included by corpus globs"@,
{
    cat2(path, " is not included by corpus globs")
}

/// A wiki takes the pages of markdown and nothing else.
pub proof fn wikis_take_pages(repo: RepositoryModel, path: Seq<char>)
    ensures
        ({
            let wiki = wiki_corpus(repo);
            verdict(wiki.globs, wiki.exclude, path) == (if has_suffix(path, ".md"@) {
                Verdict::Takes
            } else {
                Verdict::Refuses
            })
        }),
{
    reveal_strlit("**/*.md");
    reveal_strlit("**/*");
    reveal_strlit(".md");
    let globs = wiki_corpus(repo).globs;
    let glob = "**/*.md"@;
    assert(glob.take(4) =~= "**/*"@);
    assert(glob.skip(4) =~= ".md"@);
    assert(asked_ending(glob) == Some(".md"@));
    assert(globs[0] == glob);
}

/// A corpus whose patterns ask for endings alone takes the paths that have one
/// of the endings, and refuses all others; one without patterns takes every path;
/// and where something is left out, more than the endings is asked.
pub proof fn endings_decide(endings: Seq<Seq<char>>, path: Seq<char>)
    requires
        forall|i: int| 0 <= i < endings.len() ==> is_ending(#[trigger] endings[i]),
    ensures
        ({
            let globs = Seq::new(endings.len(), |i: int| "**/*"@ + endings[i]);
            &&& verdict(globs, Seq::empty(), path) is Takes <==> endings.len() == 0 || exists|
                i: int,
                stem: Seq<char>,
            |
                0 <= i < endings.len() && path == #[trigger] (stem + endings[i])
            &&& !(verdict(globs, Seq::empty(), path) is Open)
            &&& forall|left_out: Seq<Seq<char>>|
                left_out.len() > 0 ==> #[trigger] verdict(globs, left_out, path) is Open
        }),
{
    reveal_strlit("**/*");
    let globs = Seq::new(endings.len(), |i: int| "**/*"@ + endings[i]);
    assert forall|i: int| 0 <= i < globs.len() implies asked_ending(#[trigger] globs[i]) == Some(
        endings[i],
    ) by {
        assert(globs[i].take(4) =~= "**/*"@);
        assert(globs[i].skip(4) =~= endings[i]);
        assert(is_ending(endings[i]));
    }
    if ends_as_asked(globs, path) {
        let i = choose|i: int|
            0 <= i < globs.len() && asked_ending(#[trigger] globs[i]) is Some && has_suffix(
                path,
                asked_ending(globs[i])->0,
            );
        let stem = path.take(path.len() - endings[i].len());
        assert(path =~= stem + endings[i]);
    }
    if exists|i: int, stem: Seq<char>|
        0 <= i < endings.len() && path == #[trigger] (stem + endings[i]) {
        let (i, stem) = choose|i: int, stem: Seq<char>|
            0 <= i < endings.len() && path == #[trigger] (stem + endings[i]);
        assert(path.skip(path.len() - endings[i].len()) =~= endings[i]);
        assert(asked_ending(globs[i]) is Some);
    }
}

/// A pattern asks for an ending alone where it takes every name in every
/// directory that ends with a dot and plain letters or digits.
pub proof fn patterns_ask_for_plain_endings(glob: Seq<char>, ending: Seq<char>)
    ensures
        asked_ending(glob) == Some(ending) <==> {
            &&& glob == "**/*"@ + ending
            &&& ending.len() > 1
            &&& ending[0] == '.'
            &&& forall|i: int|
                1 <= i < ending.len() ==> {
                    ||| 'a' <= #[trigger] ending[i] && ending[i] <= 'z'
                    ||| 'A' <= ending[i] && ending[i] <= 'Z'
                    ||| '0' <= ending[i] && ending[i] <= '9'
                }
        },
{
    reveal_strlit("**/*");
    if asked_ending(glob) == Some(ending) {
        assert(glob =~= "**/*"@ + ending);
        assert forall|i: int| 1 <= i < ending.len() implies {
            ||| 'a' <= #[trigger] ending[i] && ending[i] <= 'z'
            ||| 'A' <= ending[i] && ending[i] <= 'Z'
            ||| '0' <= ending[i] && ending[i] <= '9'
        } by {
            assert(is_plain(ending[i]));
        }
    }
    if glob == "**/*"@ + ending {
        assert(glob.take(4) =~= "**/*"@);
        assert(glob.skip(4) =~= ending);
    }
}

} // verus!
