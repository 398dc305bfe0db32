//! The project index: a pure reduction of per-file records into
//! summary statistics.

use vstd::prelude::*;

use crate::records::{FileEntry, FileEntryV, FileSpec, IndexSpec, IndexStats};
use crate::strutil::{chars_eq, to_chars};

verus! {

/// The index entries of a builder's collected files, in order.
pub open spec fn files_of(es: Seq<(FileEntry, FileSpec)>) -> Seq<FileEntryV>
    decreases es.len(),
{
    if es.len() == 0 {
        Seq::empty()
    } else {
        files_of(es.drop_last()).push(es.last().0.deep_view())
    }
}

/// The summed count of type records over the collected files.
pub open spec fn sum_types(es: Seq<(FileEntry, FileSpec)>) -> int
    decreases es.len(),
{
    if es.len() == 0 {
        0
    } else {
        sum_types(es.drop_last()) + es.last().1.types@.len()
    }
}

/// The summed count of free functions over the collected files.
pub open spec fn sum_functions(es: Seq<(FileEntry, FileSpec)>) -> int
    decreases es.len(),
{
    if es.len() == 0 {
        0
    } else {
        sum_functions(es.drop_last()) + es.last().1.functions@.len()
    }
}

/// The summed count of methods over the collected files.
pub open spec fn sum_methods(es: Seq<(FileEntry, FileSpec)>) -> int
    decreases es.len(),
{
    if es.len() == 0 {
        0
    } else {
        sum_methods(es.drop_last()) + es.last().1.methods@.len()
    }
}

/// A sum clipped to the machine's range.
pub open spec fn clamp_usize(x: int) -> int {
    if x > usize::MAX {
        usize::MAX as int
    } else {
        x
    }
}

/// How many collected files carry the given language tag.
pub open spec fn lang_count(es: Seq<(FileEntry, FileSpec)>, lang: Seq<char>) -> int
    decreases es.len(),
{
    if es.len() == 0 {
        0
    } else {
        lang_count(es.drop_last(), lang) + if es.last().0.language@ == lang {
            1int
        } else {
            0int
        }
    }
}

/// The distinct language tags of the collected files, in first-seen
/// order.
pub open spec fn distinct_langs(es: Seq<(FileEntry, FileSpec)>) -> Seq<Seq<char>>
    decreases es.len(),
{
    if es.len() == 0 {
        Seq::empty()
    } else {
        let pre = distinct_langs(es.drop_last());
        if pre.contains(es.last().0.language@) {
            pre
        } else {
            pre.push(es.last().0.language@)
        }
    }
}

pub proof fn lemma_lang_count_bound(es: Seq<(FileEntry, FileSpec)>, lang: Seq<char>)
    ensures
        0 <= lang_count(es, lang) <= es.len(),
    decreases es.len(),
{
    if es.len() > 0 {
        lemma_lang_count_bound(es.drop_last(), lang);
    }
}

/// The distinct-language list never repeats a tag.
pub proof fn lemma_distinct_langs_unique(es: Seq<(FileEntry, FileSpec)>)
    ensures
        forall|a: int, b: int|
            0 <= a < b < distinct_langs(es).len() ==> #[trigger] distinct_langs(es)[a] != (
            #[trigger] distinct_langs(es)[b]),
    decreases es.len(),
{
    if es.len() > 0 {
        lemma_distinct_langs_unique(es.drop_last());
        let pre = distinct_langs(es.drop_last());
        let l = es.last().0.language@;
        if !pre.contains(l) {
            assert forall|a: int, b: int|
                0 <= a < b < distinct_langs(es).len() implies #[trigger] distinct_langs(es)[a]
                != (#[trigger] distinct_langs(es)[b]) by {
                if b == pre.len() {
                    assert(pre[a] == distinct_langs(es)[a]);
                    if pre[a] == l {
                        assert(pre.contains(l));
                    }
                }
            }
        }
    }
}

/// A language tag is in the distinct list exactly when some file
/// carries it.
pub proof fn lemma_lang_present(es: Seq<(FileEntry, FileSpec)>, lang: Seq<char>)
    ensures
        distinct_langs(es).contains(lang) <==> lang_count(es, lang) > 0,
    decreases es.len(),
{
    if es.len() > 0 {
        lemma_lang_present(es.drop_last(), lang);
        lemma_lang_count_bound(es.drop_last(), lang);
        let pre = distinct_langs(es.drop_last());
        let l = es.last().0.language@;
        if !pre.contains(l) {
            if distinct_langs(es).contains(lang) {
                let j = choose|j: int|
                    0 <= j < distinct_langs(es).len() && #[trigger] distinct_langs(es)[j]
                        == lang;
                if j < pre.len() {
                    assert(pre[j] == lang);
                    assert(pre.contains(lang));
                }
            }
            if pre.contains(lang) {
                let j = choose|j: int| 0 <= j < pre.len() && #[trigger] pre[j] == lang;
                assert(distinct_langs(es)[j] == lang);
                assert(distinct_langs(es).contains(lang));
            }
            if lang == l {
                assert(distinct_langs(es).last() == l);
                assert(distinct_langs(es).contains(lang));
            }
        }
    }
}

/// The first position of key `l` in the table, if any.
pub open spec fn find_key(t: Seq<(String, usize)>, l: Seq<char>) -> Option<int>
    decreases t.len(),
{
    if t.len() == 0 {
        None
    } else if t[0].0@ == l {
        Some(0)
    } else {
        match find_key(t.skip(1), l) {
            None => None,
            Some(i) => Some(i + 1),
        }
    }
}

pub proof fn lemma_find_key_at(t: Seq<(String, usize)>, l: Seq<char>, j: int)
    requires
        0 <= j < t.len(),
        t[j].0@ == l,
        forall|x: int| 0 <= x < j ==> #[trigger] t[x].0@ != l,
    ensures
        find_key(t, l) == Some(j),
    decreases j,
{
    if j > 0 {
        assert forall|x: int| 0 <= x < j - 1 implies #[trigger] t.skip(1)[x].0@ != l by {
            assert(t.skip(1)[x] == t[x + 1]);
        }
        assert(t.skip(1)[j - 1] == t[j]);
        lemma_find_key_at(t.skip(1), l, j - 1);
    }
}

pub proof fn lemma_find_key_none(t: Seq<(String, usize)>, l: Seq<char>)
    requires
        forall|x: int| 0 <= x < t.len() ==> #[trigger] t[x].0@ != l,
    ensures
        find_key(t, l) is None,
    decreases t.len(),
{
    if t.len() > 0 {
        assert forall|x: int| 0 <= x < t.skip(1).len() implies #[trigger] t.skip(1)[x].0@
            != l by {
            assert(t.skip(1)[x] == t[x + 1]);
        }
        lemma_find_key_none(t.skip(1), l);
    }
}

pub proof fn lemma_find_key_valid(t: Seq<(String, usize)>, l: Seq<char>)
    ensures
        match find_key(t, l) {
            Some(i) => 0 <= i < t.len() && t[i].0@ == l,
            None => forall|x: int| 0 <= x < t.len() ==> #[trigger] t[x].0@ != l,
        },
    decreases t.len(),
{
    if t.len() > 0 {
        lemma_find_key_valid(t.skip(1), l);
        if t[0].0@ != l {
            match find_key(t.skip(1), l) {
                Some(i) => {
                    assert(t.skip(1)[i] == t[i + 1]);
                },
                None => {
                    assert forall|x: int| 0 <= x < t.len() implies #[trigger] t[x].0@ != l by {
                        if x > 0 {
                            assert(t.skip(1)[x - 1] == t[x]);
                        }
                    }
                },
            }
        }
    }
}

/// Counts one more file under `lang`: bumps the first entry with that
/// key, or appends a fresh entry counting one.
fn tally(tbl: &mut Vec<(String, usize)>, lang: &String)
    requires
        match find_key(old(tbl)@, lang@) {
            Some(i) => old(tbl)@[i].1 < usize::MAX,
            None => true,
        },
    ensures
        match find_key(old(tbl)@, lang@) {
            Some(i) => final(tbl)@ == old(tbl)@.update(
                i,
                (old(tbl)@[i].0, (old(tbl)@[i].1 + 1) as usize),
            ),
            None => final(tbl)@.len() == old(tbl)@.len() + 1 && final(tbl)@.drop_last()
                == old(tbl)@ && final(tbl)@.last().0@ == lang@ && final(tbl)@.last().1 == 1,
        },
{
    let lang_chars = to_chars(lang.as_str());
    let ghost t0 = tbl@;
    let mut hit: Option<usize> = None;
    let mut j: usize = 0;
    while j < tbl.len() && hit.is_none()
        invariant
            tbl@ == t0,
            lang_chars@ == lang@,
            j <= t0.len(),
            forall|x: int| 0 <= x < j ==> #[trigger] t0[x].0@ != lang@,
            match hit {
                Some(i) => i == j && j < t0.len() && t0[j as int].0@ == lang@,
                None => true,
            },
        decreases t0.len() - j + (if hit is None {
            1int
        } else {
            0int
        }),
    {
        let kc = to_chars(tbl[j].0.as_str());
        if chars_eq(&kc, &lang_chars) {
            hit = Some(j);
        } else {
            j = j + 1;
        }
    }
    match hit {
        Some(i) => {
            proof {
                lemma_find_key_at(t0, lang@, i as int);
            }
            let old_val = tbl[i].1;
            let removed = tbl.remove(i);
            tbl.insert(i, (removed.0, old_val + 1));
            proof {
                assert(removed == t0[i as int]);
                assert(tbl@ =~= t0.update(i as int, (t0[i as int].0, (t0[i as int].1
                    + 1) as usize)));
            }
        },
        None => {
            proof {
                lemma_find_key_none(t0, lang@);
            }
            tbl.push((lang.clone(), 1));
            proof {
                assert(tbl@.drop_last() =~= t0);
            }
        },
    }
}

/// Builder for the index of all extracted specs of a project.
pub struct IndexBuilder {
    pub project: String,
    pub root: String,
    pub entries: Vec<(FileEntry, FileSpec)>,
}

impl IndexBuilder {
    pub fn new(project: &str, root: &str) -> (r: IndexBuilder)
        ensures
            r.project@ == project@,
            r.root@ == root@,
            r.entries@.len() == 0,
    {
        IndexBuilder { project: project.to_owned(), root: root.to_owned(), entries: Vec::new() }
    }

    /// Collects one extracted file: where its spec was written, where
    /// its source lives, its language, and its record.
    pub fn add(&mut self, spec_path: String, source_path: String, language: String,
        record: FileSpec)
        ensures
            final(self).project == old(self).project,
            final(self).root == old(self).root,
            final(self).entries@.len() == old(self).entries@.len() + 1,
            final(self).entries@.drop_last() == old(self).entries@,
            final(self).entries@.last().0.spec == spec_path,
            final(self).entries@.last().0.source == source_path,
            final(self).entries@.last().0.language == language,
            final(self).entries@.last().1 == record,
    {
        let entry = FileEntry { spec: spec_path, source: source_path, language };
        self.entries.push((entry, record));
        proof {
            assert(self.entries@.drop_last() =~= old(self).entries@);
        }
    }

    /// Builds the index: one entry per collected file, and statistics
    /// whose totals are the summed counts already present on the
    /// records (clipped only at the machine's limit) and whose
    /// per-language table counts files in first-seen order.
    #[verifier::rlimit(50)]
    pub fn build(self) -> (r: IndexSpec)
        ensures
            r.project == self.project,
            r.root == self.root,
            r.files.deep_view() == files_of(self.entries@),
            r.stats is Some,
            r.stats->0.total_files == self.entries@.len(),
            r.stats->0.total_types == clamp_usize(sum_types(self.entries@)),
            r.stats->0.total_functions == clamp_usize(sum_functions(self.entries@)),
            r.stats->0.total_methods == clamp_usize(sum_methods(self.entries@)),
            r.stats->0.by_language@.len() == distinct_langs(self.entries@).len(),
            forall|j: int|
                0 <= j < distinct_langs(self.entries@).len() ==> (
                #[trigger] r.stats->0.by_language@[j].0@ == distinct_langs(self.entries@)[j]
                    && r.stats->0.by_language@[j].1 == lang_count(
                    self.entries@,
                    distinct_langs(self.entries@)[j],
                )),
    {
        let ghost es = self.entries@;
        let mut files: Vec<FileEntry> = Vec::new();
        let mut total_types: usize = 0;
        let mut total_functions: usize = 0;
        let mut total_methods: usize = 0;
        let mut by_language: Vec<(String, usize)> = Vec::new();
        let mut k: usize = 0;
        let n = self.entries.len();
        while k < n
            invariant
                es == self.entries@,
                n == es.len(),
                k <= n,
                files.deep_view() == files_of(es.take(k as int)),
                total_types == clamp_usize(sum_types(es.take(k as int))),
                total_functions == clamp_usize(sum_functions(es.take(k as int))),
                total_methods == clamp_usize(sum_methods(es.take(k as int))),
                by_language@.len() == distinct_langs(es.take(k as int)).len(),
                forall|j: int|
                    0 <= j < by_language@.len() ==> (#[trigger] by_language@[j].0@
                        == distinct_langs(es.take(k as int))[j] && by_language@[j].1
                        == lang_count(es.take(k as int), distinct_langs(es.take(k as int))[j])),
            decreases n - k,
        {
            let ghost pre = es.take(k as int);
            let ghost dl_pre = distinct_langs(pre);
            let ghost l = es[k as int].0.language@;
            proof {
                assert(es.take(k + 1 as int).drop_last() =~= pre);
                assert(es.take(k + 1 as int).last() == es[k as int]);
                lemma_distinct_langs_unique(pre);
                lemma_lang_present(pre, l);
                lemma_lang_count_bound(pre, l);
            }
            let entry_clone = FileEntry {
                spec: self.entries[k].0.spec.clone(),
                source: self.entries[k].0.source.clone(),
                language: self.entries[k].0.language.clone(),
            };
            files.push(entry_clone);
            proof {
                assert(files.deep_view() =~~= files_of(es.take(k + 1 as int)));
            }
            let tl = self.entries[k].1.types.len();
            if total_types > usize::MAX - tl {
                total_types = usize::MAX;
            } else {
                total_types = total_types + tl;
            }
            let fl = self.entries[k].1.functions.len();
            if total_functions > usize::MAX - fl {
                total_functions = usize::MAX;
            } else {
                total_functions = total_functions + fl;
            }
            let ml = self.entries[k].1.methods.len();
            if total_methods > usize::MAX - ml {
                total_methods = usize::MAX;
            } else {
                total_methods = total_methods + ml;
            }
            let lang = &self.entries[k].0.language;
            let ghost dl_new = distinct_langs(es.take(k + 1 as int));
            proof {
                lemma_find_key_valid(by_language@, l);
                match find_key(by_language@, l) {
                    Some(i) => {
                        lemma_lang_count_bound(pre, by_language@[i].0@);
                    },
                    None => {},
                }
            }
            let ghost before = by_language@;
            tally(&mut by_language, lang);
            proof {
                lemma_distinct_langs_unique(pre);
                lemma_lang_present(pre, l);
                if dl_pre.contains(l) {
                    let x = choose|x: int| 0 <= x < dl_pre.len() && #[trigger] dl_pre[x] == l;
                    assert(before[x].0@ == l);
                    lemma_find_key_at(before, l, x);
                    assert(find_key(before, l) is Some);
                } else {
                    assert(lang_count(pre, l) == 0);
                }
                match find_key(before, l) {
                    Some(i) => {
                        assert(before[i].0@ == l);
                        assert(dl_pre[i] == l);
                        assert(dl_pre.contains(l));
                        assert(dl_new == dl_pre);
                        assert(by_language@ == before.update(
                            i,
                            (before[i].0, (before[i].1 + 1) as usize),
                        ));
                    },
                    None => {
                        assert(!dl_pre.contains(l));
                        assert(dl_new == dl_pre.push(l));
                    },
                }
                assert(by_language@.len() == dl_new.len());
                assert forall|j2: int| 0 <= j2 < by_language@.len() implies (
                #[trigger] by_language@[j2].0@ == dl_new[j2] && by_language@[j2].1
                    == lang_count(es.take(k + 1 as int), dl_new[j2])) by {
                    match find_key(before, l) {
                        Some(i) => {
                            assert(dl_pre[i] == l);
                            assert(by_language@ == before.update(
                                i,
                                (before[i].0, (before[i].1 + 1) as usize),
                            ));
                            if j2 != i {
                                assert(by_language@[j2] == before[j2]);
                                if j2 < i {
                                    assert(distinct_langs(pre)[j2] != distinct_langs(pre)[i]);
                                } else {
                                    assert(distinct_langs(pre)[i] != distinct_langs(pre)[j2]);
                                }
                                assert(dl_pre[j2] != l);
                            } else {
                                assert(by_language@[j2].1 == before[i].1 + 1);
                                assert(before[i].1 == lang_count(pre, l));
                            }
                        },
                        None => {
                            assert(lang_count(pre, l) == 0);
                            if j2 < before.len() {
                                assert(by_language@.drop_last()[j2] == by_language@[j2]);
                                assert(by_language@[j2] == before[j2]);
                                assert(dl_new[j2] == dl_pre[j2]);
                                assert(dl_pre[j2] != l);
                            } else {
                                assert(dl_new[j2] == l);
                            }
                        },
                    }
                }
            }
            k = k + 1;
        }
        proof {
            assert(es.take(es.len() as int) =~= es);
        }
        let stats = IndexStats {
            total_files: n,
            total_types,
            total_functions,
            total_methods,
            by_language,
        };
        IndexSpec { project: self.project, root: self.root, files, stats: Some(stats) }
    }
}

} // verus!
