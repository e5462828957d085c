//! Resolving a batch of user-supplied file references: splitting a manifest
//! text into lines, normalizing `file://` lines to plain paths, and checking
//! that every candidate path exists as a regular file before anything is
//! ingested. Order is preserved end to end: it later becomes the series
//! sort order.

use vstd::prelude::*;
use crate::text::{chars_eq, join, views_of, spec_join};

verus! {

/// The lines of a text, split on `\n`. A text with no `\n` is one line;
/// every `\n` ends a line, and what follows the last `\n` is a final line
/// (possibly empty).
pub open spec fn spec_lines(s: Seq<char>) -> Seq<Seq<char>>
    decreases s.len(),
{
    if s.len() == 0 {
        seq![Seq::empty()]
    } else if s[0] == '\n' {
        seq![Seq::<char>::empty()] + spec_lines(s.skip(1))
    } else {
        let rest = spec_lines(s.skip(1));
        seq![seq![s[0]] + rest[0]] + rest.skip(1)
    }
}

proof fn lemma_lines_nonempty(s: Seq<char>)
    ensures
        spec_lines(s).len() >= 1,
    decreases s.len(),
{
    if s.len() > 0 {
        lemma_lines_nonempty(s.skip(1));
    }
}

proof fn lemma_lines_no_newline(s: Seq<char>)
    requires
        forall|j: int| 0 <= j < s.len() ==> s[j] != '\n',
    ensures
        spec_lines(s) == seq![s],
    decreases s.len(),
{
    if s.len() == 0 {
        assert(s =~= Seq::<char>::empty());
    } else {
        lemma_lines_no_newline(s.skip(1));
        assert(seq![s[0]] + s.skip(1) =~= s);
        assert(spec_lines(s) =~= seq![s]);
    }
}

proof fn lemma_lines_first_newline(s: Seq<char>, i: int)
    requires
        0 <= i < s.len(),
        s[i] == '\n',
        forall|j: int| 0 <= j < i ==> s[j] != '\n',
    ensures
        spec_lines(s) == seq![s.take(i)] + spec_lines(s.skip(i + 1)),
    decreases i,
{
    if i == 0 {
        assert(s.take(0) =~= Seq::<char>::empty());
    } else {
        lemma_lines_first_newline(s.skip(1), i - 1);
        let rest = spec_lines(s.skip(1));
        assert(rest == seq![s.skip(1).take(i - 1)] + spec_lines(s.skip(1).skip(i)));
        assert(s.skip(1).skip(i) =~= s.skip(i + 1));
        lemma_lines_nonempty(s.skip(i + 1));
        assert(rest[0] == s.skip(1).take(i - 1));
        assert(seq![s[0]] + s.skip(1).take(i - 1) =~= s.take(i));
        assert(rest.skip(1) =~= spec_lines(s.skip(i + 1)));
        assert(spec_lines(s) =~= seq![s.take(i)] + spec_lines(s.skip(i + 1)));
    }
}

/// Splits a text into its lines (separator `\n`, kept out of the lines).
pub fn split_lines(text: &str) -> (r: Vec<String>)
    ensures
        views_of(r@) == spec_lines(text@),
{
    let n = text.unicode_len();
    let mut out: Vec<String> = Vec::new();
    let mut start: usize = 0;
    let mut i: usize = 0;
    proof {
        assert(text@.skip(0) =~= text@);
        assert(views_of(out@) + spec_lines(text@) =~= spec_lines(text@));
    }
    while i < n
        invariant
            n == text@.len(),
            start <= i <= n,
            forall|j: int| start <= j < i ==> text@[j] != '\n',
            spec_lines(text@) =~= views_of(out@) + spec_lines(text@.skip(start as int)),
        decreases n - i,
    {
        if text.get_char(i) == '\n' {
            let line = text.substring_char(start, i).to_owned();
            proof {
                let rem = text@.skip(start as int);
                assert(rem[i - start] == text@[i as int]);
                assert(forall|j: int| 0 <= j < i - start ==> rem[j] == text@[j + start]);
                lemma_lines_first_newline(rem, i - start);
                assert(rem.take(i - start) =~= text@.subrange(start as int, i as int));
                assert(rem.skip(i - start + 1) =~= text@.skip(i + 1));
                assert(views_of(out@.push(line)) =~= views_of(out@) + seq![line@]);
                assert(views_of(out@) + spec_lines(rem) =~= views_of(out@.push(line))
                    + spec_lines(text@.skip(i + 1)));
            }
            out.push(line);
            start = i + 1;
        }
        i += 1;
    }
    let last = text.substring_char(start, n).to_owned();
    proof {
        let rem = text@.skip(start as int);
        assert(forall|j: int| 0 <= j < rem.len() ==> rem[j] == text@[j + start]);
        lemma_lines_no_newline(rem);
        assert(rem =~= text@.subrange(start as int, n as int));
        assert(views_of(out@.push(last)) =~= views_of(out@) + seq![last@]);
    }
    out.push(last);
    proof {
        assert(views_of(out@) =~= spec_lines(text@));
    }
    out
}

/// A line with one trailing carriage return removed.
pub open spec fn spec_strip_cr(l: Seq<char>) -> Seq<char> {
    if l.len() > 0 && l[l.len() - 1] == '\r' {
        l.take(l.len() - 1)
    } else {
        l
    }
}

/// The manifest's candidate lines: every line stripped of a trailing
/// carriage return, empty lines dropped, order kept.
pub open spec fn spec_clean_lines(ls: Seq<Seq<char>>) -> Seq<Seq<char>>
    decreases ls.len(),
{
    if ls.len() == 0 {
        Seq::empty()
    } else {
        let h = spec_strip_cr(ls[0]);
        (if h.len() > 0 {
            seq![h]
        } else {
            Seq::empty()
        }) + spec_clean_lines(ls.skip(1))
    }
}

/// The candidate lines of a manifest text, in the text's order.
pub open spec fn spec_manifest_lines(text: Seq<char>) -> Seq<Seq<char>> {
    spec_clean_lines(spec_lines(text))
}

proof fn lemma_clean_lines_push(ls: Seq<Seq<char>>, x: Seq<char>)
    ensures
        spec_clean_lines(ls.push(x)) == spec_clean_lines(ls) + (if spec_strip_cr(x).len() > 0 {
            seq![spec_strip_cr(x)]
        } else {
            Seq::empty()
        }),
    decreases ls.len(),
{
    if ls.len() == 0 {
        assert(ls.push(x).skip(1) =~= ls);
        assert(ls.push(x)[0] == x);
        assert(spec_clean_lines(ls.push(x)) =~= spec_clean_lines(ls) + (
        if spec_strip_cr(x).len() > 0 {
            seq![spec_strip_cr(x)]
        } else {
            Seq::<Seq<char>>::empty()
        }));
    } else {
        lemma_clean_lines_push(ls.skip(1), x);
        assert(ls.push(x).skip(1) =~= ls.skip(1).push(x));
        assert(ls.push(x)[0] == ls[0]);
        assert(spec_clean_lines(ls.push(x)) =~= spec_clean_lines(ls) + (
        if spec_strip_cr(x).len() > 0 {
            seq![spec_strip_cr(x)]
        } else {
            Seq::<Seq<char>>::empty()
        }));
    }
}

fn strip_cr(l: &String) -> (r: String)
    ensures
        r@ == spec_strip_cr(l@),
{
    let s = l.as_str();
    let n = s.unicode_len();
    if n > 0 && s.get_char(n - 1) == '\r' {
        s.substring_char(0, n - 1).to_owned()
    } else {
        s.to_owned()
    }
}

/// The candidate lines of a manifest text: split on `\n`, each line
/// stripped of a trailing carriage return, empty lines dropped.
pub fn manifest_lines(text: &str) -> (r: Vec<String>)
    ensures
        views_of(r@) == spec_manifest_lines(text@),
{
    let lines = split_lines(text);
    let mut out: Vec<String> = Vec::new();
    let mut i: usize = 0;
    while i < lines.len()
        invariant
            i <= lines@.len(),
            views_of(lines@) == spec_lines(text@),
            views_of(out@) =~= spec_clean_lines(views_of(lines@).take(i as int)),
        decreases lines@.len() - i,
    {
        let cleaned = strip_cr(&lines[i]);
        proof {
            let vs = views_of(lines@);
            assert(vs.take(i as int).push(vs[i as int]) =~= vs.take(i + 1));
            lemma_clean_lines_push(vs.take(i as int), vs[i as int]);
        }
        if !cleaned.as_str().is_empty() {
            proof {
                assert(views_of(out@.push(cleaned)) =~= views_of(out@) + seq![cleaned@]);
            }
            out.push(cleaned);
        }
        i += 1;
    }
    proof {
        assert(views_of(lines@).take(lines@.len() as int) =~= views_of(lines@));
    }
    out
}

/// The path component of `s` parsed as a URL, if `s` parses as one.
pub uninterp spec fn spec_file_url_path(s: Seq<char>) -> Option<Seq<char>>;

/// Relies on url::Url::parse and url::Url::path: parsing is a function of
/// the input string alone, and `path` returns the parsed URL's path
/// component.
#[verifier::external_body]
fn file_url_to_path(line: &str) -> (r: Option<String>)
    ensures
        r is Some <==> spec_file_url_path(line@) is Some,
        r matches Some(p) ==> Some(p@) == spec_file_url_path(line@),
{
    match url::Url::parse(line) {
        Ok(u) => Some(u.path().to_string()),
        Err(_) => None,
    }
}

/// Whether a manifest line is given as a `file://` URI.
pub open spec fn spec_is_file_url(l: Seq<char>) -> bool {
    l.len() >= 7 && l.take(7) == "file://"@
}

fn is_file_url(l: &str) -> (r: bool)
    ensures
        r == spec_is_file_url(l@),
{
    let n = l.unicode_len();
    if n < 7 {
        return false;
    }
    chars_eq(l.substring_char(0, 7), "file://")
}

/// What a manifest line resolves to: a `file://` line resolves to the
/// URI's path component (or to nothing if it does not parse as a URL);
/// any other line is taken verbatim as a path.
pub open spec fn spec_normalize_line(l: Seq<char>) -> Option<Seq<char>> {
    if spec_is_file_url(l) {
        spec_file_url_path(l)
    } else {
        Some(l)
    }
}

fn normalize_line(l: &String) -> (r: Option<String>)
    ensures
        r is Some <==> spec_normalize_line(l@) is Some,
        r matches Some(p) ==> Some(p@) == spec_normalize_line(l@),
{
    if is_file_url(l.as_str()) {
        file_url_to_path(l.as_str())
    } else {
        Some(l.clone())
    }
}

/// Resolves a manifest text into an ordered list of candidate paths: one
/// path per non-empty line, in the manifest's line order; a `file://` line
/// becomes the URI's path component. Fails on the first line that looks
/// like a `file://` URI but does not parse, returning that line.
pub fn resolve_manifest(text: &str) -> (r: Result<Vec<String>, String>)
    ensures
        r matches Ok(v) ==> v@.len() == spec_manifest_lines(text@).len() && forall|i: int|
            0 <= i < v@.len() ==> spec_normalize_line(spec_manifest_lines(text@)[i]) == Some(
                #[trigger] v@[i]@,
            ),
        r matches Err(bad) ==> exists|i: int|
            0 <= i < spec_manifest_lines(text@).len() && spec_normalize_line(
                #[trigger] spec_manifest_lines(text@)[i],
            ) is None && bad@ == spec_manifest_lines(text@)[i] && (forall|j: int|
                0 <= j < i ==> spec_normalize_line(#[trigger] spec_manifest_lines(text@)[j]) is Some),
{
    let lines = manifest_lines(text);
    let ghost ls = spec_manifest_lines(text@);
    let mut out: Vec<String> = Vec::new();
    let mut i: usize = 0;
    while i < lines.len()
        invariant
            ls == spec_manifest_lines(text@),
            i <= lines@.len(),
            views_of(lines@) == ls,
            out@.len() == i,
            forall|j: int| 0 <= j < i ==> spec_normalize_line(ls[j]) == Some(#[trigger] out@[j]@),
        decreases lines@.len() - i,
    {
        match normalize_line(&lines[i]) {
            Some(p) => {
                out.push(p);
            },
            None => {
                let bad = lines[i].clone();
                proof {
                    assert(ls[i as int] == lines@[i as int]@);
                    assert(spec_normalize_line(ls[i as int]) is None);
                    assert(bad@ == ls[i as int]);
                    assert forall|j: int| 0 <= j < i implies spec_normalize_line(
                        #[trigger] ls[j],
                    ) is Some by {
                        assert(spec_normalize_line(ls[j]) == Some(out@[j]@));
                    }
                    assert(exists|k: int|
                        0 <= k < spec_manifest_lines(text@).len() && spec_normalize_line(
                            #[trigger] spec_manifest_lines(text@)[k],
                        ) is None && bad@ == spec_manifest_lines(text@)[k] && (forall|j: int|
                            0 <= j < k ==> spec_normalize_line(
                                #[trigger] spec_manifest_lines(text@)[j],
                            ) is Some));
                }
                return Err(bad);
            },
        }
        i += 1;
    }
    Ok(out)
}

/// Relies on std::path::Path::is_file: whether the path names an existing
/// regular file. The result depends on the file system, so nothing is
/// promised of it.
#[verifier::external_body]
fn path_is_file(p: &str) -> bool {
    std::path::Path::new(p).is_file()
}

/// Relies on std::path::Path::exists: whether the path names anything that
/// exists. The result depends on the file system, so nothing is promised
/// of it.
#[verifier::external_body]
fn path_exists(p: &str) -> bool {
    std::path::Path::new(p).exists()
}

/// Asks the file system, for each candidate path, whether it is an
/// existing regular file. One answer per path, in order; what each answer
/// is depends on the file system.
pub fn probe_files(paths: &Vec<String>) -> (flags: Vec<bool>)
    ensures
        flags@.len() == paths@.len(),
{
    let mut flags: Vec<bool> = Vec::new();
    let mut i: usize = 0;
    while i < paths.len()
        invariant
            i <= paths@.len(),
            flags@.len() == i,
        decreases paths@.len() - i,
    {
        flags.push(path_is_file(paths[i].as_str()));
        i += 1;
    }
    flags
}

/// The paths whose existence probe came back false, in order.
pub open spec fn spec_missing(paths: Seq<Seq<char>>, flags: Seq<bool>) -> Seq<Seq<char>>
    decreases paths.len(),
{
    if paths.len() == 0 {
        Seq::empty()
    } else {
        (if flags[0] {
            Seq::empty()
        } else {
            seq![paths[0]]
        }) + spec_missing(paths.skip(1), flags.skip(1))
    }
}

proof fn lemma_missing_push(paths: Seq<Seq<char>>, flags: Seq<bool>, p: Seq<char>, f: bool)
    requires
        paths.len() == flags.len(),
    ensures
        spec_missing(paths.push(p), flags.push(f)) == spec_missing(paths, flags) + (if f {
            Seq::empty()
        } else {
            seq![p]
        }),
    decreases paths.len(),
{
    if paths.len() == 0 {
        assert(paths.push(p).skip(1) =~= paths);
        assert(flags.push(f).skip(1) =~= flags);
        assert(spec_missing(paths.push(p), flags.push(f)) =~= spec_missing(paths, flags) + (if f {
            Seq::<Seq<char>>::empty()
        } else {
            seq![p]
        }));
    } else {
        lemma_missing_push(paths.skip(1), flags.skip(1), p, f);
        assert(paths.push(p).skip(1) =~= paths.skip(1).push(p));
        assert(flags.push(f).skip(1) =~= flags.skip(1).push(f));
        assert(spec_missing(paths.push(p), flags.push(f)) =~= spec_missing(paths, flags) + (if f {
            Seq::<Seq<char>>::empty()
        } else {
            seq![p]
        }));
    }
}

/// The all-or-nothing existence check: succeeds only when every candidate
/// path probed as an existing regular file; otherwise fails with one
/// aggregate message naming all the missing paths, joined by commas.
pub fn validate_existence(paths: &Vec<String>, flags: &Vec<bool>) -> (r: Result<(), String>)
    requires
        paths@.len() == flags@.len(),
    ensures
        r is Ok <==> (forall|i: int| 0 <= i < flags@.len() ==> flags@[i]),
        r matches Err(m) ==> m@ == spec_join(spec_missing(views_of(paths@), flags@), ","@)
            + " are not existed or not a file."@,
{
    let mut missing: Vec<String> = Vec::new();
    let mut i: usize = 0;
    while i < paths.len()
        invariant
            paths@.len() == flags@.len(),
            i <= paths@.len(),
            views_of(missing@) =~= spec_missing(
                views_of(paths@).take(i as int),
                flags@.take(i as int),
            ),
            missing@.len() == 0 <==> (forall|j: int| 0 <= j < i ==> flags@[j]),
        decreases paths@.len() - i,
    {
        proof {
            let vs = views_of(paths@);
            assert(vs.take(i as int).push(vs[i as int]) =~= vs.take(i + 1));
            assert(flags@.take(i as int).push(flags@[i as int]) =~= flags@.take(i + 1));
            lemma_missing_push(vs.take(i as int), flags@.take(i as int), vs[i as int], flags@[i as int]);
        }
        if !flags[i] {
            proof {
                assert(views_of(missing@.push(paths@[i as int])) =~= views_of(missing@)
                    + seq![paths@[i as int]@]);
            }
            missing.push(paths[i].clone());
        }
        i += 1;
    }
    proof {
        assert(views_of(paths@).take(paths@.len() as int) =~= views_of(paths@));
        assert(flags@.take(flags@.len() as int) =~= flags@);
    }
    if missing.len() == 0 {
        Ok(())
    } else {
        let joined = join(&missing, ",");
        Err(joined.concat(" are not existed or not a file."))
    }
}

/// What `resolve_file_list` reports for a manifest whose first line that
/// looks like a `file://` URI does not parse: that line, followed by the
/// fixed explanation.
pub open spec fn spec_bad_line_error(t: Seq<char>, m: Seq<char>) -> bool {
    exists|i: int|
        0 <= i < spec_manifest_lines(t).len() && spec_normalize_line(
            #[trigger] spec_manifest_lines(t)[i],
        ) is None && m == spec_manifest_lines(t)[i] + " cannot be parsed as a file:// URI."@ && (
        forall|j: int| 0 <= j < i ==> spec_normalize_line(#[trigger] spec_manifest_lines(t)[j]) is Some)
}

/// The shape of the all-or-nothing existence failure: some list of paths,
/// joined by commas, followed by the fixed explanation.
pub open spec fn spec_missing_files_error(m: Seq<char>) -> bool {
    exists|ms: Seq<Seq<char>>| m == #[trigger] spec_join(ms, ","@) + " are not existed or not a file."@
}

/// Resolves one invocation's file references. Exactly one input mode is
/// given: an explicit file list taken as is, or a manifest text whose
/// candidate lines are normalized in order. A manifest with an
/// unparseable `file://` line always fails, before any probe, naming the
/// first such line. Every candidate is then checked against the file
/// system, all or nothing: on any miss the whole resolution fails with
/// the aggregate message and no file is handed on, so no ingestion
/// starts. What the file system answered decides success on probed
/// inputs; an empty explicit list probes nothing and succeeds. Whatever
/// the answers were, an `Ok` hands back exactly the candidates of the
/// chosen mode, in order, and an `Err` carries one of the two error
/// shapes.
pub fn resolve_file_list(files: Vec<String>, manifest_text: Option<&String>) -> (r: Result<
    Vec<String>,
    String,
>)
    ensures
        manifest_text matches Some(t) ==> (r matches Ok(v) ==> v@.len() == spec_manifest_lines(
            t@,
        ).len() && forall|i: int|
            0 <= i < v@.len() ==> spec_normalize_line(spec_manifest_lines(t@)[i]) == Some(
                #[trigger] v@[i]@,
            )),
        manifest_text is None ==> (r matches Ok(v) ==> v == files),
        manifest_text is None && files@.len() == 0 ==> r is Ok,
        (match manifest_text {
            Some(t) => spec_manifest_lines(t@).len() == 0 ==> r is Ok,
            None => true,
        }),
        (match manifest_text {
            Some(t) => (exists|i: int|
                0 <= i < spec_manifest_lines(t@).len() && spec_normalize_line(
                    #[trigger] spec_manifest_lines(t@)[i],
                ) is None) ==> (r matches Err(m) && spec_bad_line_error(t@, m@)),
            None => true,
        }),
        r matches Err(m) ==> (match manifest_text {
            Some(t) => spec_bad_line_error(t@, m@),
            None => false,
        }) || spec_missing_files_error(m@),
{
    let candidates = match manifest_text {
        Some(t) => {
            match resolve_manifest(t.as_str()) {
                Ok(v) => {
                    proof {
                        assert forall|i: int|
                            0 <= i < spec_manifest_lines(t@).len() implies spec_normalize_line(
                            #[trigger] spec_manifest_lines(t@)[i],
                        ) is Some by {
                            assert(spec_normalize_line(spec_manifest_lines(t@)[i]) == Some(
                                v@[i]@,
                            ));
                        }
                    }
                    v
                },
                Err(bad) => {
                    let m = bad.concat(" cannot be parsed as a file:// URI.");
                    proof {
                        let ls = spec_manifest_lines(t@);
                        let k = choose|k: int|
                            0 <= k < ls.len() && spec_normalize_line(#[trigger] ls[k]) is None
                                && bad@ == ls[k] && (forall|j: int|
                                0 <= j < k ==> spec_normalize_line(#[trigger] ls[j]) is Some);
                        assert(m@ == ls[k] + " cannot be parsed as a file:// URI."@);
                        assert(spec_bad_line_error(t@, m@));
                    }
                    return Err(m);
                },
            }
        },
        None => files,
    };
    let flags = probe_files(&candidates);
    match validate_existence(&candidates, &flags) {
        Ok(_) => Ok(candidates),
        Err(m) => {
            proof {
                assert(m@ == spec_join(spec_missing(views_of(candidates@), flags@), ","@)
                    + " are not existed or not a file."@);
                assert(spec_missing_files_error(m@));
            }
            Err(m)
        },
    }
}

/// What the existence test of one path means: a path that exists and is a
/// regular file passes; one that exists otherwise is "Not a file."; one
/// that does not exist is "Not Exists".
pub fn file_verdict(exists: bool, is_file: bool) -> (r: Result<(), String>)
    ensures
        r is Ok <==> exists && is_file,
        r matches Err(m) ==> m@ == (if exists {
            "Not a file."@
        } else {
            "Not Exists"@
        }),
{
    if exists && is_file {
        Ok(())
    } else if exists {
        Err("Not a file.".to_owned())
    } else {
        Err("Not Exists".to_owned())
    }
}

/// Tests whether a single path names an existing regular file, reporting
/// which way it fails. The answer comes from the file system; whatever it
/// was, the verdict is one of the two fixed messages.
pub fn is_existed_as_file(v: &str) -> (r: Result<(), String>)
    ensures
        r matches Err(m) ==> m@ == "Not a file."@ || m@ == "Not Exists"@,
{
    let exists = path_exists(v);
    let is_file = path_is_file(v);
    file_verdict(exists, is_file)
}

} // verus!
