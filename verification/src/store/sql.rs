//! The predicates by which rows of the store are chosen.

use vstd::prelude::*;

use crate::text::{cat2, cat3, cat4, chars_of, join_list, join_with, views};

verus! {

/// The text of a single quote.
pub open spec fn quote() -> Seq<char> {
    seq!['\'']
}

/// The text with every single quote doubled, as it stands inside a literal.
pub open spec fn escaped(s: Seq<char>) -> Seq<char>
    decreases s.len(),
{
    if s.len() == 0 {
        Seq::empty()
    } else if s.last() == '\'' {
        escaped(s.drop_last()).push('\'').push('\'')
    } else {
        escaped(s.drop_last()).push(s.last())
    }
}

/// The literal that stands for the text.
pub open spec fn literal(s: Seq<char>) -> Seq<char> {
    quote() + escaped(s) + quote()
}

/// The literals of a list of texts.
pub open spec fn literals(refs: Seq<Seq<char>>) -> Seq<Seq<char>> {
    Seq::new(refs.len(), |i: int| literal(refs[i]))
}

/// The rows of the named files.
pub open spec fn file_ref_in(refs: Seq<Seq<char>>) -> Seq<char> {
    "file_ref IN ("@ + join_with(literals(refs), ", "@) + ")"@
}

/// The rows of the named files in one corpus.
pub open spec fn corpus_and_file_ref_in(corpus: Seq<char>, refs: Seq<Seq<char>>) -> Seq<char> {
    "corpus = "@ + literal(corpus) + " AND "@ + file_ref_in(refs)
}

/// The rows of one corpus.
pub open spec fn of_corpus(corpus: Seq<char>) -> Seq<char> {
    "corpus = "@ + literal(corpus)
}

/// The rows of one file in one corpus.
pub open spec fn of_file(corpus: Seq<char>, file_ref: Seq<char>) -> Seq<char> {
    of_corpus(corpus) + " AND file_ref = "@ + literal(file_ref)
}

/// The first row of one file in one corpus.
pub open spec fn of_file_head(corpus: Seq<char>, file_ref: Seq<char>) -> Seq<char> {
    of_file(corpus, file_ref) + " AND ord = 0"@
}

/// The first row of each file in one corpus.
pub open spec fn of_corpus_heads(corpus: Seq<char>) -> Seq<char> {
    of_corpus(corpus) + " AND ord = 0"@
}

/// What a reader of a literal makes of the text behind its opening quote: the
/// text that the literal stands for, and what follows the closing quote.  A
/// doubled quote stands for one; a single one closes.
pub open spec fn read_literal(s: Seq<char>) -> Option<(Seq<char>, Seq<char>)>
    decreases s.len(),
{
    if s.len() == 0 {
        None
    } else if s[0] != '\'' {
        match read_literal(s.drop_first()) {
            Some((text, rest)) => Some((seq![s[0]] + text, rest)),
            None => None,
        }
    } else if s.len() > 1 && s[1] == '\'' {
        match read_literal(s.skip(2)) {
            Some((text, rest)) => Some((quote() + text, rest)),
            None => None,
        }
    } else {
        Some((Seq::empty(), s.drop_first()))
    }
}

/// The text with every single quote doubled.  Nothing else is special inside a
/// literal: backslashes and control characters stand for themselves.
pub fn escape_sql_str(s: &str) -> (out: String)
    ensures
        out@ == escaped(s@),
{
    let text = chars_of(s);
    let mut out = String::new();
    for i in 0..text.len()
        invariant
            text@ == s@,
            out@ == escaped(text@.take(i as int)),
    {
        proof {
            assert(text@.take(i + 1).drop_last() =~= text@.take(i as int));
            assert(text@.take(i + 1).last() == text@[i as int]);
        }
        if text[i] == '\'' {
            out.push('\'');
        }
        out.push(text[i]);
    }
    proof {
        assert(text@.take(text@.len() as int) =~= s@);
    }
    out
}

fn literal_of(s: &str) -> (out: String)
    ensures
        out@ == literal(s@),
{
    proof {
        reveal_strlit("'");
        assert("'"@ =~= quote());
    }
    cat3("'", escape_sql_str(s).as_str(), "'")
}

/// The rows of the named files.
pub fn file_ref_in_filter(refs: &Vec<String>) -> (out: String)
    ensures
        out@ == file_ref_in(views(refs@)),
{
    let mut quoted: Vec<String> = Vec::new();
    for i in 0..refs.len()
        invariant
            views(quoted@) == literals(views(refs@)).take(i as int),
    {
        let ghost before = views(quoted@);
        quoted.push(literal_of(refs[i].as_str()));
        proof {
            let all = literals(views(refs@));
            assert(all.take(i + 1) =~= before.push(all[i as int]));
            assert(views(quoted@) =~= before.push(all[i as int]));
        }
    }
    proof {
        let all = literals(views(refs@));
        assert(all.take(all.len() as int) =~= all);
    }
    cat3("file_ref IN (", join_list(&quoted, ", ").as_str(), ")")
}

/// The rows of the named files in one corpus; rows that another corpus holds of
/// the same files are not meant.
pub fn corpus_and_file_ref_filter(corpus: &str, refs: &Vec<String>) -> (out: String)
    ensures
        out@ == corpus_and_file_ref_in(corpus@, views(refs@)),
{
    cat4(
        "corpus = ",
        literal_of(corpus).as_str(),
        " AND ",
        file_ref_in_filter(refs).as_str(),
    )
}

/// The rows of one corpus.
pub fn corpus_filter(corpus: &str) -> (out: String)
    ensures
        out@ == of_corpus(corpus@),
{
    cat2("corpus = ", literal_of(corpus).as_str())
}

/// The rows of one file in one corpus.
pub fn file_filter(corpus: &str, file_ref: &str) -> (out: String)
    ensures
        out@ == of_file(corpus@, file_ref@),
{
    cat3(corpus_filter(corpus).as_str(), " AND file_ref = ", literal_of(file_ref).as_str())
}

/// The first row of one file in one corpus, from which its snapshot is read.
pub fn snapshot_filter(corpus: &str, file_ref: &str) -> (out: String)
    ensures
        out@ == of_file_head(corpus@, file_ref@),
{
    cat2(file_filter(corpus, file_ref).as_str(), " AND ord = 0")
}

/// The first row of each file in one corpus.
pub fn list_filter(corpus: &str) -> (out: String)
    ensures
        out@ == of_corpus_heads(corpus@),
{
    cat2(corpus_filter(corpus).as_str(), " AND ord = 0")
}

/// The escaped text of two texts, one after the other.
proof fn escaped_of_concat(a: Seq<char>, b: Seq<char>)
    ensures
        escaped(a + b) == escaped(a) + escaped(b),
    decreases b.len(),
{
    if b.len() == 0 {
        assert(a + b =~= a);
        assert(escaped(a) + escaped(b) =~= escaped(a));
    } else {
        assert((a + b).drop_last() =~= a + b.drop_last());
        escaped_of_concat(a, b.drop_last());
        if b.last() == '\'' {
            assert(escaped(a) + escaped(b.drop_last()).push('\'').push('\'') =~= (escaped(a)
                + escaped(b.drop_last())).push('\'').push('\''));
        } else {
            assert(escaped(a) + escaped(b.drop_last()).push(b.last()) =~= (escaped(a) + escaped(
                b.drop_last(),
            )).push(b.last()));
        }
    }
}

/// A literal is read back as the text that it was made of, whatever the text
/// holds, and ends where it was closed: no text reaches out of its literal.
pub proof fn literal_reads_back(s: Seq<char>, rest: Seq<char>)
    requires
        rest.len() == 0 || rest[0] != '\'',
    ensures
        read_literal(escaped(s) + quote() + rest) == Some((s, rest)),
    decreases s.len(),
{
    let whole = escaped(s) + quote() + rest;
    if s.len() == 0 {
        assert(whole =~= quote() + rest);
        assert(whole.drop_first() =~= rest);
        assert(s =~= Seq::<char>::empty());
    } else {
        let head = seq![s[0]];
        let tail = s.drop_first();
        assert(s =~= head + tail);
        escaped_of_concat(head, tail);
        literal_reads_back(tail, rest);
        assert(head.drop_last() =~= Seq::<char>::empty());
        assert(escaped(head.drop_last()) =~= Seq::<char>::empty());
        if s[0] == '\'' {
            assert(escaped(head) =~= quote() + quote());
            assert(whole.skip(2) =~= escaped(tail) + quote() + rest);
            assert(quote() + tail =~= s);
        } else {
            assert(escaped(head) =~= head);
            assert(whole.drop_first() =~= escaped(tail) + quote() + rest);
        }
    }
}

/// Two texts with the same literal are the same text.
pub proof fn literals_tell_texts_apart(a: Seq<char>, b: Seq<char>)
    requires
        literal(a) == literal(b),
    ensures
        a == b,
{
    literal_reads_back(a, Seq::empty());
    literal_reads_back(b, Seq::empty());
    assert(literal(a).drop_first() =~= escaped(a) + quote() + Seq::<char>::empty());
    assert(literal(b).drop_first() =~= escaped(b) + quote() + Seq::<char>::empty());
}

/// A text without a single quote is its own escaped form.
pub proof fn plain_text_needs_no_escape(s: Seq<char>)
    requires
        !s.contains('\''),
    ensures
        escaped(s) == s,
    decreases s.len(),
{
    if s.len() > 0 {
        let front = s.drop_last();
        assert(s[s.len() - 1] == s.last());
        if front.contains('\'') {
            let i = choose|i: int| 0 <= i < front.len() && front[i] == '\'';
            assert(s[i] == '\'');
        }
        plain_text_needs_no_escape(front);
        assert(front.push(s.last()) =~= s);
    } else {
        assert(escaped(s) =~= s);
    }
}

/// Whether the literal stands for the text: it is quoted, and a reader of what
/// is behind the opening quote finds the text, and nothing behind it.
pub open spec fn stands_for(lit: Seq<char>, text: Seq<char>) -> bool {
    &&& lit.len() > 0
    &&& lit[0] == '\''
    &&& read_literal(lit.drop_first()) == Some((text, Seq::<char>::empty()))
}

/// The literal of a text stands for it.
proof fn literals_stand_for_their_text(text: Seq<char>)
    ensures
        stands_for(literal(text), text),
{
    literal_reads_back(text, Seq::empty());
    assert(literal(text).drop_first() =~= escaped(text) + quote() + Seq::<char>::empty());
}

/// The rows of a corpus are chosen by the name of the corpus, those of a file
/// by the names of both, and the first rows by their number; a reader of the
/// predicate finds the names that were given, whatever they hold.
pub proof fn predicates_name_what_they_choose(corpus: Seq<char>, file_ref: Seq<char>) -> (names: (
    Seq<char>,
    Seq<char>,
))
    ensures
        stands_for(names.0, corpus),
        stands_for(names.1, file_ref),
        of_corpus(corpus) == "corpus = "@ + names.0,
        of_corpus_heads(corpus) == "corpus = "@ + names.0 + " AND ord = 0"@,
        of_file(corpus, file_ref) == "corpus = "@ + names.0 + " AND file_ref = "@ + names.1,
        of_file_head(corpus, file_ref) == "corpus = "@ + names.0 + " AND file_ref = "@ + names.1
            + " AND ord = 0"@,
{
    literals_stand_for_their_text(corpus);
    literals_stand_for_their_text(file_ref);
    (literal(corpus), literal(file_ref))
}

/// The rows of some files are chosen by the names of all of them, in their
/// order, and of the corpus.
pub proof fn predicates_name_all_files(corpus: Seq<char>, refs: Seq<Seq<char>>) -> (names: (
    Seq<char>,
    Seq<Seq<char>>,
))
    ensures
        stands_for(names.0, corpus),
        names.1.len() == refs.len(),
        forall|i: int| 0 <= i < refs.len() ==> stands_for(#[trigger] names.1[i], refs[i]),
        file_ref_in(refs) == "file_ref IN ("@ + join_with(names.1, ", "@) + ")"@,
        corpus_and_file_ref_in(corpus, refs) == "corpus = "@ + names.0 + " AND "@ + (
        "file_ref IN ("@ + join_with(names.1, ", "@) + ")"@),
{
    literals_stand_for_their_text(corpus);
    let list = literals(refs);
    assert forall|i: int| 0 <= i < refs.len() implies stands_for(#[trigger] list[i], refs[i]) by {
        literals_stand_for_their_text(refs[i]);
    }
    (literal(corpus), list)
}

} // verus!
