//! Diagnostics and the notifications that publish them: duplicates are dropped, the rest are
//! grouped by file, and those without a span are reported on their own.

use vstd::prelude::*;
use crate::location::{FileSpan, same_file_span};

verus! {

#[derive(Clone, Copy, Debug, PartialEq, Eq, Structural)]
pub enum Severity {
    Error,
    Warning,
    Info,
}

/// A message of the compiler, attached to a span of a file or to none.
#[derive(Debug)]
pub struct Diagnostic {
    pub span: Option<FileSpan>,
    pub severity: Severity,
    pub message: String,
}

/// The diagnostics to publish for one file; an empty list clears the file's markers.
#[derive(Debug)]
pub struct FileDiagnostics {
    pub path: String,
    pub diagnostics: Vec<Diagnostic>,
}

/// Everything one round of publication sends: a list for each file, and the diagnostics without
/// a span, each shown on its own.
#[derive(Debug)]
pub struct PublishPlan {
    pub files: Vec<FileDiagnostics>,
    pub spanless: Vec<Diagnostic>,
}

pub open spec fn same_span(a: Option<FileSpan>, b: Option<FileSpan>) -> bool {
    match (a, b) {
        (Some(x), Some(y)) => same_file_span(x, y),
        (None, None) => true,
        _ => false,
    }
}

/// Two diagnostics are duplicates when their spans and their messages are equal.
pub open spec fn duplicates(a: Diagnostic, b: Diagnostic) -> bool {
    same_span(a.span, b.span) && a.message@ == b.message@
}

pub open spec fn has_duplicate_in(s: Seq<Diagnostic>, d: Diagnostic) -> bool {
    exists|i: int| 0 <= i < s.len() && duplicates(#[trigger] s[i], d)
}

/// The diagnostics of `s` that have no duplicate earlier in `s`, in their order.
pub open spec fn dedup_spec(s: Seq<Diagnostic>) -> Seq<Diagnostic>
    decreases s.len(),
{
    if s.len() == 0 {
        s
    } else {
        let p = dedup_spec(s.drop_last());
        if has_duplicate_in(p, s.last()) {
            p
        } else {
            p.push(s.last())
        }
    }
}

/// `d` is attached to the file `path`.
pub open spec fn in_file(d: Diagnostic, path: Seq<char>) -> bool {
    d.span is Some && d.span.unwrap().file@ == path
}

/// The diagnostics of `s` attached to the file `path`, in their order.
pub open spec fn diagnostics_in(s: Seq<Diagnostic>, path: Seq<char>) -> Seq<Diagnostic>
    decreases s.len(),
{
    if s.len() == 0 {
        s
    } else {
        let p = diagnostics_in(s.drop_last(), path);
        if in_file(s.last(), path) {
            p.push(s.last())
        } else {
            p
        }
    }
}

/// The diagnostics of `s` without a span, in their order.
pub open spec fn spanless_of(s: Seq<Diagnostic>) -> Seq<Diagnostic>
    decreases s.len(),
{
    if s.len() == 0 {
        s
    } else {
        let p = spanless_of(s.drop_last());
        if s.last().span is None {
            p.push(s.last())
        } else {
            p
        }
    }
}

pub open spec fn has_entry(files: Seq<FileDiagnostics>, path: Seq<char>) -> bool {
    exists|k: int| 0 <= k < files.len() && (#[trigger] files[k]).path@ == path
}

pub open spec fn names_file(paths: Seq<String>, path: Seq<char>) -> bool {
    exists|k: int| 0 <= k < paths.len() && (#[trigger] paths[k])@ == path
}

pub open spec fn some_in_file(s: Seq<Diagnostic>, path: Seq<char>) -> bool {
    exists|k: int| 0 <= k < s.len() && in_file(#[trigger] s[k], path)
}

/// The files of a plan are distinct, and each holds the diagnostics of `s` attached to it.
pub open spec fn files_hold(files: Seq<FileDiagnostics>, s: Seq<Diagnostic>) -> bool {
    &&& forall|a: int, b: int|
        0 <= a < b < files.len() ==> (#[trigger] files[a]).path@ != (#[trigger] files[b]).path@
    &&& forall|k: int|
        0 <= k < files.len() ==> (#[trigger] files[k]).diagnostics@ == diagnostics_in(
            s,
            files[k].path@,
        )
}

/// `plan` publishes a list for each file of `paths` and for each file that a diagnostic of `s`
/// is attached to, each list holding that file's diagnostics in order; the diagnostics without a
/// span go out on their own.
pub open spec fn publishes(plan: PublishPlan, paths: Seq<String>, s: Seq<Diagnostic>) -> bool {
    &&& files_hold(plan.files@, s)
    &&& forall|p: Seq<char>|
        has_entry(plan.files@, p) <==> (names_file(paths, p) || some_in_file(s, p))
    &&& plan.spanless@ == spanless_of(s)
}

impl Diagnostic {
    /// A copy of this diagnostic.
    pub fn duplicate(&self) -> (r: Diagnostic)
        ensures
            r == *self,
    {
        let span = match &self.span {
            Some(s) => Some(s.duplicate()),
            None => None,
        };
        Diagnostic { span, severity: self.severity, message: self.message.clone() }
    }

    /// Whether `self` and `other` have equal spans and equal messages.
    pub fn is_duplicate_of(&self, other: &Diagnostic) -> (r: bool)
        ensures
            r == duplicates(*self, *other),
    {
        let spans = match (&self.span, &other.span) {
            (Some(a), Some(b)) => a.same_as(b),
            (None, None) => true,
            _ => false,
        };
        spans && self.message == other.message
    }
}

fn contains_duplicate(v: &Vec<Diagnostic>, d: &Diagnostic) -> (r: bool)
    ensures
        r == has_duplicate_in(v@, *d),
{
    let mut i: usize = 0;
    while i < v.len()
        invariant
            i <= v.len(),
            forall|j: int| 0 <= j < i ==> !duplicates(#[trigger] v@[j], *d),
        decreases v.len() - i,
    {
        if v[i].is_duplicate_of(d) {
            return true;
        }
        i += 1;
    }
    false
}

/// Drops each diagnostic that duplicates an earlier one; the first of equal ones stays.
pub fn dedup_diagnostics(diagnostics: &Vec<Diagnostic>) -> (r: Vec<Diagnostic>)
    ensures
        r@ == dedup_spec(diagnostics@),
{
    let mut out: Vec<Diagnostic> = Vec::new();
    let mut i: usize = 0;
    while i < diagnostics.len()
        invariant
            i <= diagnostics.len(),
            out@ == dedup_spec(diagnostics@.take(i as int)),
        decreases diagnostics.len() - i,
    {
        proof {
            assert(diagnostics@.take(i + 1).drop_last() =~= diagnostics@.take(i as int));
        }
        if !contains_duplicate(&out, &diagnostics[i]) {
            out.push(diagnostics[i].duplicate());
        }
        i += 1;
    }
    proof {
        assert(diagnostics@.take(i as int) =~= diagnostics@);
    }
    out
}

proof fn lemma_dedup_unique(s: Seq<Diagnostic>)
    ensures
        forall|i: int, j: int|
            0 <= i < j < dedup_spec(s).len() ==> !duplicates(
                #[trigger] dedup_spec(s)[i],
                #[trigger] dedup_spec(s)[j],
            ),
    decreases s.len(),
{
    if s.len() > 0 {
        let t = s.drop_last();
        lemma_dedup_unique(t);
        let p = dedup_spec(t);
        let out = dedup_spec(s);
        assert forall|i: int, j: int| 0 <= i < j < out.len() implies !duplicates(
            #[trigger] out[i],
            #[trigger] out[j],
        ) by {
            assert(out[i] == p[i]);
            if j < p.len() {
                assert(out[j] == p[j]);
                assert(!duplicates(p[i], p[j]));
            } else {
                assert(!has_duplicate_in(p, s.last()));
                assert(out[j] == s.last());
                assert(!duplicates(p[i], s.last()));
            }
        }
    }
}

proof fn lemma_dedup_covers(s: Seq<Diagnostic>)
    ensures
        forall|i: int| 0 <= i < s.len() ==> has_duplicate_in(dedup_spec(s), #[trigger] s[i]),
    decreases s.len(),
{
    if s.len() > 0 {
        let t = s.drop_last();
        lemma_dedup_covers(t);
        let p = dedup_spec(t);
        let out = dedup_spec(s);
        assert forall|i: int| 0 <= i < s.len() implies has_duplicate_in(out, #[trigger] s[i]) by {
            if i < t.len() {
                assert(s[i] == t[i]);
                assert(has_duplicate_in(p, t[i]));
                let k = choose|k: int| 0 <= k < p.len() && duplicates(#[trigger] p[k], t[i]);
                assert(out[k] == p[k]);
            } else if !has_duplicate_in(p, s.last()) {
                assert(out[p.len() as int] == s.last());
                assert(duplicates(out[p.len() as int], s[i]));
            } else {
                let k = choose|k: int| 0 <= k < p.len() && duplicates(#[trigger] p[k], s.last());
                assert(out[k] == p[k]);
            }
        }
    }
}

proof fn lemma_dedup_from_input(s: Seq<Diagnostic>)
    ensures
        forall|j: int|
            0 <= j < dedup_spec(s).len() ==> exists|i: int|
                0 <= i < s.len() && s[i] == #[trigger] dedup_spec(s)[j],
    decreases s.len(),
{
    if s.len() > 0 {
        let t = s.drop_last();
        lemma_dedup_from_input(t);
        let p = dedup_spec(t);
        let out = dedup_spec(s);
        assert forall|j: int| 0 <= j < out.len() implies exists|i: int|
            0 <= i < s.len() && s[i] == #[trigger] out[j] by {
            if j < p.len() {
                assert(out[j] == p[j]);
                let i = choose|i: int| 0 <= i < t.len() && t[i] == p[j];
                assert(s[i] == t[i]);
            } else {
                assert(s[s.len() - 1] == out[j]);
            }
        }
    }
}

/// After deduplication no two diagnostics are duplicates, every diagnostic of the input has a
/// duplicate in the output, and every diagnostic of the output comes from the input. So which
/// spans and messages survive does not depend on the order of the input.
pub proof fn lemma_dedup(s: Seq<Diagnostic>)
    ensures
        ({
            let out = dedup_spec(s);
            &&& forall|i: int, j: int|
                0 <= i < j < out.len() ==> !duplicates(#[trigger] out[i], #[trigger] out[j])
            &&& forall|i: int| 0 <= i < s.len() ==> has_duplicate_in(out, #[trigger] s[i])
            &&& forall|j: int|
                0 <= j < out.len() ==> exists|i: int| 0 <= i < s.len() && s[i] == #[trigger] out[j]
        }),
{
    lemma_dedup_unique(s);
    lemma_dedup_covers(s);
    lemma_dedup_from_input(s);
}

/// A sequence with no diagnostic attached to `path` has none to publish for it.
proof fn lemma_none_in_file(s: Seq<Diagnostic>, path: Seq<char>)
    requires
        !some_in_file(s, path),
    ensures
        diagnostics_in(s, path) == Seq::<Diagnostic>::empty(),
    decreases s.len(),
{
    if s.len() > 0 {
        assert(!some_in_file(s.drop_last(), path)) by {
            if some_in_file(s.drop_last(), path) {
                let k = choose|k: int|
                    0 <= k < s.drop_last().len() && in_file(#[trigger] s.drop_last()[k], path);
                assert(s[k] == s.drop_last()[k]);
            }
        }
        lemma_none_in_file(s.drop_last(), path);
        assert(!in_file(s[s.len() - 1], path));
    }
}

/// The index of the entry for `path`, if there is one.
fn find_entry(files: &Vec<FileDiagnostics>, path: &String) -> (r: Option<usize>)
    ensures
        match r {
            Some(k) => k < files@.len() && files@[k as int].path@ == path@,
            None => !has_entry(files@, path@),
        },
{
    let mut i: usize = 0;
    while i < files.len()
        invariant
            i <= files.len(),
            forall|j: int| 0 <= j < i ==> (#[trigger] files@[j]).path@ != path@,
        decreases files.len() - i,
    {
        if files[i].path == *path {
            return Some(i);
        }
        i += 1;
    }
    None
}

/// Groups diagnostics by file for publication. Every file of `file_paths` gets a list, empty when
/// no diagnostic is attached to it, so that stale markers are cleared; diagnostics without a span
/// are set apart.
pub fn process_diagnostics(file_paths: &Vec<String>, diagnostics: &Vec<Diagnostic>) -> (r:
    PublishPlan)
    ensures
        publishes(r, file_paths@, diagnostics@),
{
    let ghost none = Seq::<Diagnostic>::empty();
    let mut files: Vec<FileDiagnostics> = Vec::new();
    let mut k: usize = 0;
    while k < file_paths.len()
        invariant
            k <= file_paths.len(),
            files_hold(files@, none),
            none == Seq::<Diagnostic>::empty(),
            forall|p: Seq<char>|
                has_entry(files@, p) <==> names_file(file_paths@.take(k as int), p),
        decreases file_paths.len() - k,
    {
        let ghost before = files@;
        let ghost taken = file_paths@.take(k as int);
        let ghost next = file_paths@.take(k + 1);
        proof {
            assert forall|p: Seq<char>| names_file(next, p) <==> (names_file(taken, p) || p
                == file_paths@[k as int]@) by {
                if names_file(taken, p) {
                    let j = choose|j: int| 0 <= j < taken.len() && (#[trigger] taken[j])@ == p;
                    assert(next[j] == taken[j]);
                }
                if p == file_paths@[k as int]@ {
                    assert(next[k as int] == file_paths@[k as int]);
                }
                if names_file(next, p) {
                    let j = choose|j: int| 0 <= j < next.len() && (#[trigger] next[j])@ == p;
                    if j < k {
                        assert(taken[j] == next[j]);
                    }
                }
            }
        }
        let found = find_entry(&files, &file_paths[k]);
        if let Some(idx) = found {
            proof {
                assert(has_entry(files@, files@[idx as int].path@));
            }
        } else {
            files.push(FileDiagnostics { path: file_paths[k].clone(), diagnostics: Vec::new() });
            proof {
                assert forall|p: Seq<char>| has_entry(files@, p) <==> (has_entry(before, p) || p
                    == file_paths@[k as int]@) by {
                    if has_entry(before, p) {
                        let j = choose|j: int| 0 <= j < before.len() && (#[trigger] before[j]).path@ == p;
                        assert(files@[j] == before[j]);
                    }
                    if p == file_paths@[k as int]@ {
                        assert(files@[before.len() as int].path@ == p);
                    }
                    if has_entry(files@, p) {
                        let j = choose|j: int| 0 <= j < files@.len() && (#[trigger] files@[j]).path@ == p;
                        if j < before.len() {
                            assert(before[j] == files@[j]);
                        }
                    }
                }
            }
        }
        proof {
            assert forall|p: Seq<char>| has_entry(files@, p) <==> names_file(next, p) by {
                assert(has_entry(before, p) <==> names_file(taken, p));
                if p == file_paths@[k as int]@ && found is Some {
                    assert(files@[found->0 as int].path@ == p);
                }
            }
            assert(next == file_paths@.take(k + 1));
        }
        k += 1;
    }
    proof {
        assert(file_paths@.take(k as int) =~= file_paths@);
    }
    let mut spanless: Vec<Diagnostic> = Vec::new();
    let mut i: usize = 0;
    proof {
        assert(diagnostics@.take(0) =~= none);
    }
    while i < diagnostics.len()
        invariant
            i <= diagnostics.len(),
            files_hold(files@, diagnostics@.take(i as int)),
            forall|p: Seq<char>|
                has_entry(files@, p) <==> (names_file(file_paths@, p) || some_in_file(
                    diagnostics@.take(i as int),
                    p,
                )),
            spanless@ == spanless_of(diagnostics@.take(i as int)),
        decreases diagnostics.len() - i,
    {
        let ghost taken = diagnostics@.take(i as int);
        let ghost next = diagnostics@.take(i + 1);
        let ghost before = files@;
        let d = &diagnostics[i];
        let ghost mut find_entry_hint: Option<usize> = None;
        proof {
            assert(next.drop_last() =~= taken);
            assert(next.last() == *d);
            assert forall|p: Seq<char>| some_in_file(next, p) <==> (some_in_file(taken, p) || in_file(*d, p)) by {
                if some_in_file(taken, p) {
                    let j = choose|j: int| 0 <= j < taken.len() && in_file(#[trigger] taken[j], p);
                    assert(next[j] == taken[j]);
                }
                if in_file(*d, p) {
                    assert(next[i as int] == *d);
                }
                if some_in_file(next, p) {
                    let j = choose|j: int| 0 <= j < next.len() && in_file(#[trigger] next[j], p);
                    if j < i {
                        assert(taken[j] == next[j]);
                    }
                }
            }
        }
        match &d.span {
            None => {
                spanless.push(d.duplicate());
                proof {
                    assert forall|k: int| 0 <= k < files@.len() implies (#[trigger] files@[k]).diagnostics@
                        == diagnostics_in(next, files@[k].path@) by {
                        assert(!in_file(*d, files@[k].path@));
                    }
                }
            },
            Some(span) => {
                let found = find_entry(&files, &span.file);
                proof {
                    find_entry_hint = found;
                }
                match found {
                    Some(idx) => {
                        proof {
                            assert(has_entry(before, before[idx as int].path@));
                        }
                        files[idx].diagnostics.push(d.duplicate());
                        proof {
                            assert forall|k: int| 0 <= k < files@.len() implies (#[trigger] files@[k]).diagnostics@
                                == diagnostics_in(next, files@[k].path@) by {
                                if k != idx {
                                    assert(files@[k] == before[k]);
                                    assert(before[k].path@ != before[idx as int].path@);
                                    assert(!in_file(*d, files@[k].path@));
                                }
                            }
                            assert forall|p: Seq<char>| has_entry(files@, p) <==> has_entry(before, p) by {
                                if has_entry(before, p) {
                                    let j = choose|j: int| 0 <= j < before.len() && (#[trigger] before[j]).path@ == p;
                                    assert(files@[j].path@ == before[j].path@);
                                }
                                if has_entry(files@, p) {
                                    let j = choose|j: int| 0 <= j < files@.len() && (#[trigger] files@[j]).path@ == p;
                                    assert(files@[j].path@ == before[j].path@);
                                }
                            }
                        }
                    },
                    None => {
                        proof {
                            lemma_none_in_file(taken, span.file@);
                        }
                        let mut list: Vec<Diagnostic> = Vec::new();
                        list.push(d.duplicate());
                        files.push(FileDiagnostics { path: span.file.clone(), diagnostics: list });
                        proof {
                            assert(diagnostics_in(next, span.file@) =~= seq![*d]);
                            assert forall|k: int| 0 <= k < files@.len() implies (#[trigger] files@[k]).diagnostics@
                                == diagnostics_in(next, files@[k].path@) by {
                                if k < before.len() {
                                    assert(files@[k] == before[k]);
                                    assert(has_entry(before, before[k].path@));
                                    assert(!in_file(*d, files@[k].path@));
                                }
                            }
                            assert forall|p: Seq<char>| has_entry(files@, p) <==> (has_entry(before, p) || p
                                == span.file@) by {
                                if has_entry(before, p) {
                                    let j = choose|j: int| 0 <= j < before.len() && (#[trigger] before[j]).path@ == p;
                                    assert(files@[j] == before[j]);
                                }
                                if p == span.file@ {
                                    assert(files@[before.len() as int].path@ == p);
                                }
                                if has_entry(files@, p) {
                                    let j = choose|j: int| 0 <= j < files@.len() && (#[trigger] files@[j]).path@ == p;
                                    if j < before.len() {
                                        assert(before[j] == files@[j]);
                                    }
                                }
                            }
                            assert forall|a: int, b: int| 0 <= a < b < files@.len() implies
                                (#[trigger] files@[a]).path@ != (#[trigger] files@[b]).path@ by {
                                if b == before.len() {
                                    assert(files@[a] == before[a]);
                                    assert(has_entry(before, before[a].path@));
                                } else {
                                    assert(files@[a] == before[a]);
                                    assert(files@[b] == before[b]);
                                }
                            }
                        }
                    },
                }
            },
        }
        proof {
            assert forall|p: Seq<char>| has_entry(files@, p) <==> (names_file(file_paths@, p)
                || some_in_file(next, p)) by {
                assert(has_entry(before, p) <==> (names_file(file_paths@, p) || some_in_file(
                    taken,
                    p,
                )));
                assert(some_in_file(next, p) <==> (some_in_file(taken, p) || in_file(*d, p)));
                if in_file(*d, p) {
                    assert(has_entry(files@, p)) by {
                        match find_entry_hint {
                            Some(idx) => {
                                assert(files@[idx as int].path@ == p);
                            },
                            None => {
                                assert(files@[before.len() as int].path@ == p);
                            },
                        }
                    }
                }
            }
        }
        i += 1;
    }
    proof {
        assert(diagnostics@.take(i as int) =~= diagnostics@);
    }
    PublishPlan { files, spanless }
}

/// The publication after a change: duplicates are dropped, then the rest is grouped by file.
/// Every file of `file_paths` gets a list, so that files without diagnostics are cleared.
pub fn plan_publication(file_paths: &Vec<String>, diagnostics: &Vec<Diagnostic>) -> (r: PublishPlan)
    ensures
        publishes(r, file_paths@, dedup_spec(diagnostics@)),
{
    let unique = dedup_diagnostics(diagnostics);
    process_diagnostics(file_paths, &unique)
}

} // verus!
