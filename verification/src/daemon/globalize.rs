//! The request to copy a page into the shared corpus.

use vstd::prelude::*;

use crate::corpus::{corpus_models, CorpusConfig, CorpusModel};
use crate::daemon::ipc::{
    refused, AddMarkdownRequest, AddMarkdownResult, DaemonResponse, GlobalizeMarkdownRequest,
    GlobalizeMarkdownResult, Position, ReadMarkdownResult,
};

verus! {

/// The message where no corpus is shared.
pub const NO_GLOBAL_CORPUS: &'static str = "no corpus is marked global = true";

/// The message where more than one corpus is shared.
pub const TWO_GLOBAL_CORPORA: &'static str = "more than one corpus is marked global = true";

/// Which of the first `n` corpora are shared, in their order.
pub open spec fn global_among(corpora: Seq<CorpusModel>, n: int) -> Seq<int>
    decreases n,
{
    if n <= 0 {
        Seq::empty()
    } else if corpora[n - 1].global {
        global_among(corpora, n - 1).push(n - 1)
    } else {
        global_among(corpora, n - 1)
    }
}

/// The shared corpus: the one that is marked so.
pub fn global_corpus(corpora: &Vec<CorpusConfig>) -> (out: Result<CorpusConfig, DaemonResponse>)
    ensures
        ({
            let all = corpus_models(corpora@);
            let found = global_among(all, all.len() as int);
            if found.len() == 0 {
                refused(out, NO_GLOBAL_CORPUS@)
            } else if found.len() > 1 {
                refused(out, TWO_GLOBAL_CORPORA@)
            } else {
                out matches Ok(corpus) && corpus@ == all[found[0]]
            }
        }),
{
    let ghost all = corpus_models(corpora@);
    let mut found: Option<usize> = None;
    for i in 0..corpora.len()
        invariant
            all == corpus_models(corpora@),
            global_among(all, i as int).len() <= 1,
            match found {
                Some(k) => k < i && global_among(all, i as int) == seq![k as int],
                None => global_among(all, i as int).len() == 0,
            },
    {
        proof {
            assert(all[i as int] == corpora@[i as int]@);
        }
        if corpora[i].global {
            let ghost before = global_among(all, i as int);
            match found {
                Some(_) => {
                    proof {
                        assert(global_among(all, i + 1).len() == 2);
                        more_stay(all, i + 1, all.len() as int);
                    }
                    return Err(DaemonResponse::invalid_params(TWO_GLOBAL_CORPORA));
                },
                None => {},
            }
            found = Some(i);
            proof {
                assert(before.push(i as int) =~= seq![i as int]);
            }
        }
    }
    match found {
        Some(k) => {
            proof {
                assert(all[k as int] == corpora@[k as int]@);
            }
            Ok(corpora[k].copy())
        },
        None => Err(DaemonResponse::invalid_params(NO_GLOBAL_CORPUS)),
    }
}

proof fn more_stay(corpora: Seq<CorpusModel>, n: int, m: int)
    requires
        0 <= n <= m,
    ensures
        global_among(corpora, n).len() <= global_among(corpora, m).len(),
    decreases m,
{
    if n < m {
        more_stay(corpora, n, m - 1);
    }
}

/// Where in the shared corpus the page goes: where it was, unless the request
/// names another place.
pub open spec fn destination(req: GlobalizeMarkdownRequest) -> Seq<char> {
    match req.dest_path {
        Some(path) => path@,
        None => req.path@,
    }
}

/// The request to write the page that was read into the shared corpus.
pub fn globalize_request(
    req: &GlobalizeMarkdownRequest,
    page: &ReadMarkdownResult,
    global: &CorpusConfig,
) -> (out: AddMarkdownRequest)
    ensures
        out.corpus@ == global@.name,
        out.path@ == destination(*req),
        out.content@ == page.content@,
        out.overwrite == req.overwrite,
        out.under_heading is None,
        out.position == Position::Append,
        out.replace_lines is None,
        out.replace_match is None,
{
    let path = match &req.dest_path {
        Some(path) => path.clone(),
        None => req.path.clone(),
    };
    AddMarkdownRequest {
        corpus: global.name.clone(),
        path,
        content: page.content.clone(),
        overwrite: req.overwrite,
        under_heading: None,
        position: Position::Append,
        replace_lines: None,
        replace_match: None,
    }
}

/// The answer to a request to copy a page, from what reading and writing it
/// gave.
pub fn globalize_result(page: ReadMarkdownResult, added: AddMarkdownResult) -> (out:
    GlobalizeMarkdownResult)
    ensures
        out == (GlobalizeMarkdownResult {
            source_corpus: page.corpus,
            source_path: page.path,
            global_corpus: added.corpus,
            dest_path: added.path,
            absolute_path: added.absolute_path,
            indexed: added.indexed,
        }),
{
    GlobalizeMarkdownResult {
        source_corpus: page.corpus,
        source_path: page.path,
        global_corpus: added.corpus,
        dest_path: added.path,
        absolute_path: added.absolute_path,
        indexed: added.indexed,
    }
}

/// The corpora that are found to be shared are those that are marked so, each
/// once.
proof fn found_are_marked(corpora: Seq<CorpusModel>, n: int)
    requires
        0 <= n <= corpora.len(),
    ensures
        forall|k: int|
            0 <= k < global_among(corpora, n).len() ==> 0 <= (#[trigger] global_among(
                corpora,
                n,
            )[k]) < n && corpora[global_among(corpora, n)[k]].global,
        forall|i: int|
            0 <= i < n && (#[trigger] corpora[i]).global ==> global_among(corpora, n).contains(i),
        global_among(corpora, n).no_duplicates(),
    decreases n,
{
    if n > 0 {
        found_are_marked(corpora, n - 1);
        let before = global_among(corpora, n - 1);
        let now = global_among(corpora, n);
        assert forall|k: int| 0 <= k < now.len() implies 0 <= (#[trigger] now[k]) < n
            && corpora[now[k]].global by {
            if k < before.len() {
                assert(now[k] == before[k]);
            }
        }
        assert forall|i: int| 0 <= i < n && (#[trigger] corpora[i]).global implies now.contains(
            i,
        ) by {
            if i < n - 1 {
                let k = choose|k: int| 0 <= k < before.len() && before[k] == i;
                assert(now[k] == i);
            } else {
                assert(now[now.len() - 1] == i);
            }
        }
        assert(now.no_duplicates()) by {
            assert forall|a: int, b: int|
                0 <= a < now.len() && 0 <= b < now.len() && a != b implies now[a] != now[b] by {
                if a < before.len() {
                    assert(now[a] == before[a]);
                }
                if b < before.len() {
                    assert(now[b] == before[b]);
                }
            }
        }
    }
}

/// Where one corpus alone is marked as shared, it is the one that is found;
/// where none is, none; and where two are, more than one.
pub proof fn the_marked_corpus_is_shared(corpora: Seq<CorpusModel>)
    ensures
        forall|i: int|
            0 <= i < corpora.len() && (#[trigger] corpora[i]).global && (forall|j: int|
                0 <= j < corpora.len() && j != i ==> !(#[trigger] corpora[j]).global)
                ==> global_among(corpora, corpora.len() as int) == seq![i],
        (forall|i: int| 0 <= i < corpora.len() ==> !(#[trigger] corpora[i]).global) ==> global_among(
            corpora,
            corpora.len() as int,
        ).len() == 0,
        forall|i: int, j: int|
            0 <= i < j < corpora.len() && (#[trigger] corpora[i]).global && (#[trigger]
            corpora[j]).global ==> global_among(corpora, corpora.len() as int).len() > 1,
{
    let found = global_among(corpora, corpora.len() as int);
    found_are_marked(corpora, corpora.len() as int);
    assert forall|i: int|
        0 <= i < corpora.len() && (#[trigger] corpora[i]).global && (forall|j: int|
            0 <= j < corpora.len() && j != i ==> !(#[trigger] corpora[j]).global) implies found
        == seq![i] by {
        assert(found.contains(i));
        assert forall|k: int| 0 <= k < found.len() implies found[k] == i by {
            assert(corpora[found[k]].global);
        }
        if found.len() > 1 {
            assert(found[0] == found[1]);
        }
        assert(found =~= seq![i]);
    }
    if forall|i: int| 0 <= i < corpora.len() ==> !(#[trigger] corpora[i]).global {
        if found.len() > 0 {
            assert(corpora[found[0]].global);
        }
    }
    assert forall|i: int, j: int|
        0 <= i < j < corpora.len() && (#[trigger] corpora[i]).global && (#[trigger]
        corpora[j]).global implies found.len() > 1 by {
        let a = choose|k: int| 0 <= k < found.len() && found[k] == i;
        let b = choose|k: int| 0 <= k < found.len() && found[k] == j;
        assert(found.contains(i) && found.contains(j));
        assert(a != b);
    }
}

/// A page goes where the request says, and where it says nothing, to where it
/// was.
pub proof fn pages_keep_their_place_unless_told(req: GlobalizeMarkdownRequest)
    ensures
        req.dest_path is None ==> destination(req) == req.path@,
        req.dest_path is Some ==> destination(req) == req.dest_path->0@,
{
}

} // verus!
