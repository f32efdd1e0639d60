//! Import resolution: finding the next `import "file";` statement in a source
//! text, and splicing the imported text in its place. Reading the imported
//! files is left to the caller.
use vstd::prelude::*;
use crate::text::{chars_of, matches_at, push_chars, string_of, sub_chars};

verus! {

/// `pat` occurs in `s` at index `i`.
pub open spec fn occurs_at(s: Seq<char>, i: int, pat: Seq<char>) -> bool {
    0 <= i && i + pat.len() <= s.len() && s.subrange(i, i + pat.len()) == pat
}

/// The first index at or after `from` at which `pat` occurs in `s`, or -1 if
/// there is none: what `str::find` reports, counted in characters.
pub open spec fn find_from(s: Seq<char>, pat: Seq<char>, from: int) -> int
    decreases s.len() - from,
{
    if from < 0 || from + pat.len() > s.len() {
        -1
    } else if occurs_at(s, from, pat) {
        from
    } else if from >= s.len() {
        -1
    } else {
        find_from(s, pat, from + 1)
    }
}

/// The text that opens an import statement.
pub open spec fn import_open() -> Seq<char> {
    "import \""@
}

/// The text that closes an import statement.
pub open spec fn import_close() -> Seq<char> {
    "\";"@
}

/// Where the first import statement begins, or -1.
pub open spec fn import_start(s: Seq<char>) -> int {
    find_from(s, import_open(), 0)
}

/// Where the first import statement's closing `";` begins, or -1.
pub open spec fn import_end(s: Seq<char>) -> int {
    find_from(s, import_close(), import_start(s))
}

/// `s` with the first occurrence of `pat` replaced by `rep`, or unchanged if
/// `pat` does not occur: what `str::replacen(pat, rep, 1)` gives.
pub open spec fn replace_first(s: Seq<char>, pat: Seq<char>, rep: Seq<char>) -> Seq<char> {
    let i = find_from(s, pat, 0);
    if i < 0 {
        s
    } else {
        s.subrange(0, i) + rep + s.subrange(i + pat.len(), s.len() as int)
    }
}

/// What scanning a text for its first import statement finds.
pub enum ImportScan {
    /// The text has no import statement.
    Done,
    /// The first import statement, from `import "` up to and including `";`,
    /// and the file name between the quotes.
    Found { statement: String, path: String },
    /// An import statement is opened but never closed with `";`.
    Unclosed,
    /// The first `";` after `import ` is the opening quote itself, so no file
    /// name can be cut out.
    Malformed,
}

/// A search result is the first occurrence at or after `from`.
pub proof fn lemma_find_from(s: Seq<char>, pat: Seq<char>, from: int)
    requires
        from >= 0,
    ensures
        find_from(s, pat, from) >= 0 ==> from <= find_from(s, pat, from) && occurs_at(
            s,
            find_from(s, pat, from),
            pat,
        ),
        forall|j: int|
            from <= j && (find_from(s, pat, from) < 0 || j < find_from(s, pat, from)) ==> !occurs_at(
                s,
                j,
                pat,
            ),
    decreases s.len() - from,
{
    if from + pat.len() > s.len() {
    } else if occurs_at(s, from, pat) {
    } else if from >= s.len() {
    } else {
        lemma_find_from(s, pat, from + 1);
    }
}

/// The first index at or after `from` at which `pat` occurs in `s`.
fn find_chars(s: &Vec<char>, pat: &Vec<char>, from: usize) -> (r: Option<usize>)
    requires
        from <= s@.len(),
    ensures
        match r {
            Some(i) => find_from(s@, pat@, from as int) == i,
            None => find_from(s@, pat@, from as int) < 0,
        },
{
    let mut i = from;
    loop
        invariant
            from <= i <= s@.len(),
            find_from(s@, pat@, from as int) == find_from(s@, pat@, i as int),
        decreases s.len() - i,
    {
        if pat.len() > s.len() - i {
            return None;
        }
        if matches_at(s, i, pat) {
            assert(occurs_at(s@, i as int, pat@)) by {
                assert(s@.subrange(i as int, s@.len() as int).subrange(0, pat@.len() as int)
                    =~= s@.subrange(i as int, i + pat@.len()));
            }
            return Some(i);
        }
        assert(!occurs_at(s@, i as int, pat@)) by {
            if occurs_at(s@, i as int, pat@) {
                assert(s@.subrange(i as int, s@.len() as int).subrange(0, pat@.len() as int)
                    =~= s@.subrange(i as int, i + pat@.len()));
            }
        }
        if i == s.len() {
            return None;
        }
        i += 1;
    }
}

/// Finds the first import statement of a source text: the statement runs from
/// the first `import "` to the first `";` after it, and the file name is what
/// stands between the quotes.
pub fn next_import(content: &str) -> (r: ImportScan)
    ensures
        match r {
            ImportScan::Done => import_start(content@) < 0,
            ImportScan::Unclosed => import_start(content@) >= 0 && import_end(content@) < 0,
            ImportScan::Malformed => {
                &&& import_start(content@) >= 0
                &&& import_end(content@) >= 0
                &&& import_end(content@) < import_start(content@) + import_open().len()
            },
            ImportScan::Found { statement, path } => {
                &&& import_start(content@) >= 0
                &&& import_end(content@) >= import_start(content@) + import_open().len()
                &&& statement@ == content@.subrange(
                    import_start(content@),
                    import_end(content@) + import_close().len(),
                )
                &&& path@ == content@.subrange(
                    import_start(content@) + import_open().len(),
                    import_end(content@),
                )
            },
        },
{
    let s = chars_of(content);
    let open = chars_of("import \"");
    let close = chars_of("\";");
    let n = s.len();
    let start = match find_chars(&s, &open, 0) {
        Some(i) => i,
        None => return ImportScan::Done,
    };
    proof {
        lemma_find_from(s@, open@, 0);
        assert(occurs_at(s@, start as int, open@));
    }
    let end = match find_chars(&s, &close, start) {
        Some(i) => i,
        None => return ImportScan::Unclosed,
    };
    proof {
        lemma_find_from(s@, close@, start as int);
    }
    if end < start + open.len() {
        return ImportScan::Malformed;
    }
    let statement = string_of(&sub_chars(&s, start, end + close.len()));
    let path = string_of(&sub_chars(&s, start + open.len(), end));
    ImportScan::Found { statement, path }
}

/// Replaces the first occurrence of `pat` in `content` by `rep`, as
/// `str::replacen(pat, rep, 1)` does.
pub fn replace_first_str(content: &str, pat: &str, rep: &str) -> (r: String)
    ensures
        r@ == replace_first(content@, pat@, rep@),
{
    let s = chars_of(content);
    let p = chars_of(pat);
    let w = chars_of(rep);
    let n = s.len();
    match find_chars(&s, &p, 0) {
        None => string_of(&s),
        Some(i) => {
            proof {
                lemma_find_from(s@, p@, 0);
            }
            let mut out = sub_chars(&s, 0, i);
            push_chars(&mut out, &w);
            let tail = sub_chars(&s, i + p.len(), n);
            push_chars(&mut out, &tail);
            string_of(&out)
        },
    }
}

/// Splicing the imported text in for the statement that `next_import` found
/// replaces that very statement, not an earlier copy of it: the text before the
/// statement and the text after it stay as they were.
pub proof fn law_splice_replaces_found_statement(s: Seq<char>, rep: Seq<char>)
    requires
        import_start(s) >= 0,
        import_end(s) >= import_start(s) + import_open().len(),
    ensures
        replace_first(
            s,
            s.subrange(import_start(s), import_end(s) + import_close().len()),
            rep,
        ) == s.subrange(0, import_start(s)) + rep + s.subrange(
            import_end(s) + import_close().len(),
            s.len() as int,
        ),
{
    let start = import_start(s);
    let end = import_end(s);
    let open = import_open();
    let close = import_close();
    lemma_find_from(s, open, 0);
    lemma_find_from(s, close, start);
    let stmt = s.subrange(start, end + close.len());
    assert(occurs_at(s, start, stmt));
    assert forall|j: int| 0 <= j < start implies !occurs_at(s, j, stmt) by {
        if occurs_at(s, j, stmt) {
            assert(s.subrange(j, j + open.len()) =~= stmt.subrange(0, open.len() as int));
            assert(stmt.subrange(0, open.len() as int) =~= s.subrange(start, start + open.len()));
            assert(occurs_at(s, j, open));
        }
    }
    lemma_find_from(s, stmt, 0);
    let f = find_from(s, stmt, 0);
    assert(f == start) by {
        if f < 0 {
            assert(!occurs_at(s, start, stmt));
        } else if f < start {
        } else if f > start {
            assert(!occurs_at(s, start, stmt));
        }
    }
}

} // verus!
