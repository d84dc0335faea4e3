//! A directory of documents: which of its files are taken in.

use crate::order;
use crate::path;
use crate::text;
use vstd::prelude::*;
use vstd::string::*;

verus! {

// ── globs ───────────────────────────────────────────────────────────────

/// A glob of `globset`.
#[verifier::external_type_specification]
#[verifier::external_body]
pub struct ExGlob(globset::Glob);

/// A set of globs that is being built.
#[verifier::external_type_specification]
#[verifier::external_body]
pub struct ExGlobSetBuilder(globset::GlobSetBuilder);

/// A set of globs.
#[verifier::external_type_specification]
#[verifier::external_body]
pub struct ExGlobSet(globset::GlobSet);

/// Whether a text is a glob, on the platform that the library is built for.
pub uninterp spec fn is_glob(pattern: Seq<char>) -> bool;

/// Whether a glob matches a path, on the platform that the library is built for.
pub uninterp spec fn glob_matches(pattern: Seq<char>, path: Seq<char>) -> bool;

/// Why globs cannot be put together to a set, where they cannot.
pub uninterp spec fn set_error(patterns: Seq<Seq<char>>) -> Option<Seq<char>>;

/// The text of a glob.
pub uninterp spec fn glob_text(g: globset::Glob) -> Seq<char>;

/// The texts of the globs of a set that is being built.
pub uninterp spec fn builder_globs(b: globset::GlobSetBuilder) -> Seq<Seq<char>>;

/// The texts of the globs of a set.
pub uninterp spec fn set_globs(s: globset::GlobSet) -> Seq<Seq<char>>;

/// `Glob::new` of `globset`: the glob with the text, or none where the text is
/// no glob. Which texts are globs is not stated beyond the name [`is_glob`].
#[verifier::external_body]
fn new_glob(pattern: &str) -> (r: Option<globset::Glob>)
    ensures
        match r {
            Some(g) => is_glob(pattern@) && glob_text(g) == pattern@,
            None => !is_glob(pattern@),
        },
{
    globset::Glob::new(pattern).ok()
}

/// `GlobSetBuilder::new` of `globset`: no globs.
#[verifier::external_body]
fn new_builder() -> (b: globset::GlobSetBuilder)
    ensures
        builder_globs(b) == Seq::<Seq<char>>::empty(),
{
    globset::GlobSetBuilder::new()
}

/// `GlobSetBuilder::add` of `globset`: one more glob, behind the others.
#[verifier::external_body]
fn add_glob(b: &mut globset::GlobSetBuilder, g: globset::Glob)
    ensures
        builder_globs(*final(b)) == builder_globs(*old(b)).push(glob_text(g)),
{
    b.add(g);
}

/// `GlobSetBuilder::build` of `globset`: the set of the globs, or why there is
/// none. When that is so is not stated beyond the name [`set_error`].
#[verifier::external_body]
fn build_set(b: &globset::GlobSetBuilder) -> (r: Result<globset::GlobSet, String>)
    ensures
        match r {
            Ok(s) => set_error(builder_globs(*b)) is None && set_globs(s) == builder_globs(*b),
            Err(e) => set_error(builder_globs(*b)) == Some(e@),
        },
{
    b.build().map_err(|e| e.to_string())
}

/// `GlobSet::empty` of `globset`: no globs.
#[verifier::external_body]
fn empty_set() -> (s: globset::GlobSet)
    ensures
        set_globs(s) == Seq::<Seq<char>>::empty(),
{
    globset::GlobSet::empty()
}

/// `GlobSet::is_empty` of `globset`: whether there are no globs.
#[verifier::external_body]
fn set_is_empty(s: &globset::GlobSet) -> (r: bool)
    ensures
        r == (set_globs(*s).len() == 0),
{
    s.is_empty()
}

/// `GlobSet::is_match` of `globset`: whether any of the globs matches the path.
#[verifier::external_body]
fn set_matches(s: &globset::GlobSet, path: &str) -> (r: bool)
    ensures
        r == (exists|i: int|
            0 <= i < set_globs(*s).len() && glob_matches(#[trigger] set_globs(*s)[i], path@)),
{
    s.is_match(path)
}

/// Whether any of the globs matches a path.
pub open spec fn any_matches(patterns: Seq<Seq<char>>, path: Seq<char>) -> bool {
    exists|i: int| 0 <= i < patterns.len() && glob_matches(#[trigger] patterns[i], path)
}

/// The error for a list of globs: the first that is none, or why there is no
/// set of them.
pub open spec fn globs_error(patterns: Seq<Seq<char>>) -> Option<Seq<char>> {
    match first_bad(patterns) {
        Some(p) => Some("非法 glob: "@ + p),
        None => if patterns.len() == 0 {
            None
        } else {
            set_error(patterns)
        },
    }
}

/// The first text of a list that is no glob.
pub open spec fn first_bad(patterns: Seq<Seq<char>>) -> Option<Seq<char>>
    decreases patterns.len(),
{
    if patterns.len() == 0 {
        None
    } else {
        match first_bad(patterns.drop_last()) {
            Some(p) => Some(p),
            None => if is_glob(patterns.last()) {
                None
            } else {
                Some(patterns.last())
            },
        }
    }
}

proof fn lemma_first_bad_stays(patterns: Seq<Seq<char>>, k: int)
    requires
        0 <= k <= patterns.len(),
        first_bad(patterns.take(k)) is Some,
    ensures
        first_bad(patterns) == first_bad(patterns.take(k)),
    decreases patterns.len(),
{
    if k == patterns.len() {
        assert(patterns.take(k) =~= patterns);
    } else {
        assert(patterns.drop_last().take(k) =~= patterns.take(k));
        lemma_first_bad_stays(patterns.drop_last(), k);
    }
}

/// The set of a list of globs; none for an empty list.
fn build_globs(patterns: &Vec<String>) -> (r: Result<Option<globset::GlobSet>, String>)
    ensures
        match r {
            Ok(Some(s)) => globs_error(text::views(patterns@)) is None && patterns@.len() > 0
                && set_globs(s) == text::views(patterns@),
            Ok(None) => patterns@.len() == 0,
            Err(e) => globs_error(text::views(patterns@)) == Some(e@),
        },
{
    let ghost all = text::views(patterns@);
    if patterns.len() == 0 {
        return Ok(None);
    }
    let mut b = new_builder();
    assert(builder_globs(b) =~= all.take(0));
    for i in 0..patterns.len()
        invariant
            all == text::views(patterns@),
            first_bad(all.take(i as int)) is None,
            builder_globs(b) == all.take(i as int),
    {
        assert(all.take(i + 1).drop_last() =~= all.take(i as int));
        assert(all.take(i + 1).last() == patterns@[i as int]@);
        match new_glob(patterns[i].as_str()) {
            Some(g) => {
                let ghost before = builder_globs(b);
                add_glob(&mut b, g);
                assert(builder_globs(b) =~= all.take(i + 1));
            },
            None => {
                proof {
                    lemma_first_bad_stays(all, i + 1);
                }
                return Err(text::cat2("非法 glob: ", patterns[i].as_str()));
            },
        }
    }
    assert(all.take(all.len() as int) =~= all);
    match build_set(&b) {
        Ok(s) => Ok(Some(s)),
        Err(e) => Err(e),
    }
}

// ── sources ─────────────────────────────────────────────────────────────

/// A directory and which of its files are wanted.
pub struct SourceConfig {
    pub kind: String,
    pub path: String,
    /// The files that are wanted; all of them where the list is empty.
    pub included: Vec<String>,
    /// The files that are not wanted all the same.
    pub exclude: Vec<String>,
}

/// A file of a source.
pub struct FileEntry {
    /// Its absolute path on disk.
    pub path: String,
    /// Its path below the root of the source, with `/` between components.
    pub rel: String,
}

/// What a walk through a directory comes upon.
pub struct Walked {
    pub path: String,
    pub is_file: bool,
}

/// A directory of documents.
pub struct DirSource {
    name: String,
    root: String,
    included: Option<globset::GlobSet>,
    exclude: globset::GlobSet,
}

/// The path below a root: what follows the root and the separators behind it,
/// which is nothing for the root itself. A path that is not below the root
/// stands for itself.
pub open spec fn rel_path(root: Seq<char>, p: Seq<char>) -> Seq<char> {
    let dir = without_slashes(root) + "/"@;
    if without_slashes(p) == without_slashes(root) {
        Seq::empty()
    } else if dir.is_prefix_of(p) {
        past_slashes(p.skip(dir.len() as int))
    } else {
        p
    }
}

/// A text without the slashes at its end.
pub open spec fn without_slashes(s: Seq<char>) -> Seq<char>
    decreases s.len(),
{
    if s.len() > 0 && s.last() == '/' {
        without_slashes(s.drop_last())
    } else {
        s
    }
}

/// A text without the slashes at its beginning.
pub open spec fn past_slashes(s: Seq<char>) -> Seq<char>
    decreases s.len(),
{
    if s.len() > 0 && s[0] == '/' {
        past_slashes(s.drop_first())
    } else {
        s
    }
}

fn trim_slashes(s: &str) -> (out: String)
    ensures
        out@ == without_slashes(s@),
{
    let r = text::chars_of(s);
    let mut n: usize = r.len();
    assert(r@.take(n as int) =~= s@);
    while n > 0 && r[n - 1] == '/'
        invariant
            n <= r@.len(),
            without_slashes(r@.take(n as int)) == without_slashes(s@),
        decreases n,
    {
        assert(r@.take(n as int).drop_last() =~= r@.take(n - 1));
        n -= 1;
    }
    let out = text::string_of(&r, 0, n);
    assert(r@.subrange(0, n as int) =~= r@.take(n as int));
    out
}

/// The path of a file below the root of its source.
pub fn rel_of(root: &str, p: &str) -> (out: String)
    ensures
        out@ == rel_path(root@, p@),
{
    let head = trim_slashes(root);
    let whole = trim_slashes(p);
    if text::same(head.as_str(), whole.as_str()) {
        let none = String::new();
        assert(none@ =~= Seq::empty());
        return none;
    }
    let dir = text::cat2(head.as_str(), "/");
    match text::strip_prefix(p, dir.as_str()) {
        Some(rest) => {
            let x = text::chars_of(rest.as_str());
            let mut at: usize = 0;
            assert(x@.skip(0) =~= rest@);
            while at < x.len() && x[at] == '/'
                invariant
                    at <= x@.len(),
                    past_slashes(x@.skip(at as int)) == past_slashes(rest@),
                decreases x@.len() - at,
            {
                assert(x@.skip(at as int).drop_first() =~= x@.skip(at + 1));
                at += 1;
            }
            let out = text::string_of(&x, at, x.len());
            assert(out@ =~= x@.skip(at as int));
            out
        },
        None => text::copy_str(p),
    }
}

/// The view of a [`FileEntry`].
pub struct EntryView {
    pub path: Seq<char>,
    pub rel: Seq<char>,
}

impl View for FileEntry {
    type V = EntryView;

    open spec fn view(&self) -> EntryView {
        EntryView { path: self.path@, rel: self.rel@ }
    }
}

/// The views of entries.
pub open spec fn entry_views(list: Seq<FileEntry>) -> Seq<EntryView> {
    Seq::new(list.len(), |i: int| list[i]@)
}

/// The sequence by which an entry sorts: its path component by component, and
/// then its path below the root as a text.
pub open spec fn entry_key(e: EntryView) -> Seq<u32> {
    path::path_key(e.path) + seq![0u32] + path::text_key(e.rel)
}

/// The order of entries.
pub open spec fn by_path() -> spec_fn(FileEntry, FileEntry) -> bool {
    |a: FileEntry, b: FileEntry| path::lex_leq(entry_key(a@), entry_key(b@))
}

/// Whether a file is wanted, by its path below the root. Where no list of
/// wanted files is given all are; a file that is excluded is not wanted even
/// so.
pub open spec fn wanted(included: Option<Seq<Seq<char>>>, exclude: Seq<Seq<char>>, rel: Seq<char>) -> bool {
    &&& included matches Some(list) ==> any_matches(list, rel)
    &&& !any_matches(exclude, rel)
}

/// The files that a walk comes upon and that are wanted, in the order of the
/// walk, each with its absolute path. None where the path of a wanted file cannot
/// be made absolute.
pub open spec fn found(
    root: Seq<char>,
    included: Option<Seq<Seq<char>>>,
    exclude: Seq<Seq<char>>,
    cwd: Option<Seq<char>>,
    walk: Seq<(Seq<char>, bool)>,
) -> Option<Seq<EntryView>>
    decreases walk.len(),
{
    if walk.len() == 0 {
        Some(Seq::empty())
    } else {
        match found(root, included, exclude, cwd, walk.drop_last()) {
            None => None,
            Some(before) => {
                let (p, is_file) = walk.last();
                let rel = rel_path(root, p);
                if is_file && wanted(included, exclude, rel) {
                    match path::resolved(p, cwd) {
                        Some(q) => Some(before.push(EntryView { path: q, rel })),
                        None => None,
                    }
                } else {
                    Some(before)
                }
            },
        }
    }
}

proof fn lemma_found_none_stays(
    root: Seq<char>,
    included: Option<Seq<Seq<char>>>,
    exclude: Seq<Seq<char>>,
    cwd: Option<Seq<char>>,
    walk: Seq<(Seq<char>, bool)>,
    k: int,
)
    requires
        0 <= k <= walk.len(),
        found(root, included, exclude, cwd, walk.take(k)) is None,
    ensures
        found(root, included, exclude, cwd, walk) is None,
    decreases walk.len(),
{
    if k == walk.len() {
        assert(walk.take(k) =~= walk);
    } else {
        assert(walk.drop_last().take(k) =~= walk.take(k));
        lemma_found_none_stays(root, included, exclude, cwd, walk.drop_last(), k);
    }
}

/// The view of a walk.
pub open spec fn walk_views(walk: Seq<Walked>) -> Seq<(Seq<char>, bool)> {
    Seq::new(walk.len(), |i: int| (walk[i].path@, walk[i].is_file))
}

/// `out` holds entries of these views, in the order of their paths.
pub open spec fn sorted_entries(out: Seq<FileEntry>, views: Seq<EntryView>) -> bool {
    exists|list: Seq<FileEntry>| #[trigger]
        order::stable_sort_of(out, list, by_path()) && entry_views(list) == views
}

fn key_of_entry(e: &FileEntry) -> (out: Vec<u32>)
    ensures
        out@ == entry_key(e@),
{
    let mut out = path::key_of_path(e.path.as_str());
    out.push(0);
    let chars = text::chars_of(e.rel.as_str());
    path::push_text_key(&mut out, &chars, 0, chars.len());
    assert(chars@.subrange(0, chars@.len() as int) =~= e.rel@);
    assert(out@ =~= entry_key(e@));
    out
}

/// Entries in the order of their paths.
pub fn sort_entries(list: Vec<FileEntry>) -> (out: Vec<FileEntry>)
    ensures
        order::stable_sort_of(out@, list@, by_path()),
{
    let le = |a: &FileEntry, b: &FileEntry| -> (r: bool)
        ensures
            r == by_path()(*a, *b),
        {
            let x = key_of_entry(a);
            let y = key_of_entry(b);
            path::lex_le(&x, &y)
        };
    proof {
        let leq = by_path();
        assert forall|a: FileEntry, b: FileEntry| #[trigger] leq(a, b) || leq(b, a) by {
            path::lemma_lex_total(entry_key(a@), entry_key(b@));
        }
        assert forall|a: FileEntry, b: FileEntry, c: FileEntry| #[trigger]
            leq(a, b) && #[trigger] leq(b, c) implies leq(a, c) by {
            path::lemma_lex_transitive(entry_key(a@), entry_key(b@), entry_key(c@));
        }
    }
    order::stable_sort(list, &le, Ghost(by_path()))
}

/// Whether a file is wanted, given whether it matches the wanted ones, where
/// there is a list of them, and the excluded ones.
pub fn is_wanted(included: Option<bool>, excluded: bool) -> (r: bool)
    ensures
        r == ((included matches Some(m) ==> m) && !excluded),
{
    match included {
        Some(m) => m && !excluded,
        None => !excluded,
    }
}

/// The error that a walk through a directory ends with.
pub open spec fn walk_words(root: Seq<char>) -> Seq<char> {
    "遍历 "@ + root + " 失败"@
}

impl DirSource {
    /// The name of the source.
    pub closed spec fn source_name(self) -> Seq<char> {
        self.name@
    }

    /// The root of the source.
    pub closed spec fn source_root(self) -> Seq<char> {
        self.root@
    }

    /// The globs of the files that are wanted.
    pub closed spec fn included(self) -> Option<Seq<Seq<char>>> {
        match self.included {
            Some(s) => Some(set_globs(s)),
            None => None,
        }
    }

    /// The globs of the files that are not.
    pub closed spec fn excluded(self) -> Seq<Seq<char>> {
        set_globs(self.exclude)
    }

    /// A source, given whether its directory is there.
    pub fn new(name: &str, cfg: &SourceConfig, present: bool) -> (r: Result<DirSource, String>)
        ensures
            match source_error(
                name@,
                cfg.path@,
                text::views(cfg.included@),
                text::views(cfg.exclude@),
                present,
            ) {
                Some(e) => r matches Err(w) && w@ == e,
                None => r matches Ok(s) && s.source_name() == name@ && s.source_root() == cfg.path@
                    && s.included() == (if cfg.included@.len() == 0 {
                    None
                } else {
                    Some(text::views(cfg.included@))
                }) && s.excluded() == text::views(cfg.exclude@),
            },
    {
        if !present {
            return Err(text::cat4("源 ", name, " 目录不存在: ", cfg.path.as_str()));
        }
        let included: Option<globset::GlobSet> = match build_globs(&cfg.included) {
            Ok(s) => s,
            Err(e) => {
                return Err(e);
            },
        };
        let exclude: globset::GlobSet = match build_globs(&cfg.exclude) {
            Ok(Some(s)) => s,
            Ok(None) => empty_set(),
            Err(e) => {
                return Err(e);
            },
        };
        assert(cfg.exclude@.len() == 0 ==> text::views(cfg.exclude@) =~= Seq::empty());
        Ok(
            DirSource {
                name: text::copy_str(name),
                root: text::copy_str(cfg.path.as_str()),
                included,
                exclude,
            },
        )
    }

    /// The name of the source.
    pub fn name(&self) -> (r: &str)
        ensures
            r@ == self.source_name(),
    {
        self.name.as_str()
    }

    /// The root of the source.
    pub fn root(&self) -> (r: &str)
        ensures
            r@ == self.source_root(),
    {
        self.root.as_str()
    }

    /// The error that a walk ends with.
    pub fn walk_error(&self) -> (out: String)
        ensures
            out@ == walk_words(self.source_root()),
    {
        text::cat3("遍历 ", self.root.as_str(), " 失败")
    }

    fn takes(&self, rel: &str) -> (r: bool)
        ensures
            r == wanted(self.included(), self.excluded(), rel@),
    {
        let included: Option<bool> = match &self.included {
            Some(s) => Some(set_matches(s, rel)),
            None => None,
        };
        let excluded: bool = !set_is_empty(&self.exclude) && set_matches(&self.exclude, rel);
        is_wanted(included, excluded)
    }

    /// The files of the source, given what a walk through it comes upon and the
    /// working directory where it is known, sorted by path. Every path is
    /// absolute; where one cannot be made so the walk has failed.
    pub fn scan(&self, walk: &Vec<Walked>, cwd: &Option<String>) -> (r: Result<
        Vec<FileEntry>,
        String,
    >)
        ensures
            match found(
                self.source_root(),
                self.included(),
                self.excluded(),
                text::opt_view(*cwd),
                walk_views(walk@),
            ) {
                Some(views) => r matches Ok(out) && sorted_entries(out@, views),
                None => r matches Err(e) && e@ == walk_words(self.source_root()),
            },
            r matches Ok(out) ==> forall|i: int|
                0 <= i < out@.len() ==> path::absolute((#[trigger] out@[i]).path@),
    {
        let ghost all = walk_views(walk@);
        let ghost dir = text::opt_view(*cwd);
        let mut list: Vec<FileEntry> = Vec::new();
        assert(entry_views(list@) =~= Seq::empty());
        for i in 0..walk.len()
            invariant
                all == walk_views(walk@),
                dir == text::opt_view(*cwd),
                found(
                    self.source_root(),
                    self.included(),
                    self.excluded(),
                    dir,
                    all.take(i as int),
                ) == Some(entry_views(list@)),
        {
            let ghost before = list@;
            assert(all.take(i + 1).drop_last() =~= all.take(i as int));
            assert(all.take(i + 1).last() == all[i as int]);
            if walk[i].is_file {
                let rel = rel_of(self.root.as_str(), walk[i].path.as_str());
                if self.takes(rel.as_str()) {
                    match path::resolve_to_absolute(walk[i].path.as_str(), cwd) {
                        Some(p) => {
                            let e = FileEntry { path: p, rel };
                            let ghost v = e@;
                            list.push(e);
                            assert(entry_views(list@) =~= entry_views(before).push(v));
                        },
                        None => {
                            proof {
                                lemma_found_none_stays(
                                    self.source_root(),
                                    self.included(),
                                    self.excluded(),
                                    dir,
                                    all,
                                    i + 1,
                                );
                            }
                            return Err(self.walk_error());
                        },
                    }
                }
            }
        }
        assert(all.take(walk@.len() as int) =~= all);
        let ghost kept = list@;
        let ghost views = found(self.source_root(), self.included(), self.excluded(), dir, all);
        assert(views == Some(entry_views(kept)));
        let out = sort_entries(list);
        proof {
            law_paths_are_absolute(
                self.source_root(),
                self.included(),
                self.excluded(),
                dir,
                all,
            );
            assert forall|i: int| 0 <= i < out@.len() implies path::absolute(
                (#[trigger] out@[i]).path@,
            ) by {
                order::lemma_sorted_item(out@, kept, by_path(), i);
                let k = choose|k: int| 0 <= k < kept.len() && kept[k] == out@[i];
                assert(entry_views(kept)[k] == kept[k]@);
                assert(path::absolute(views->0[k].path));
            }
            assert(order::stable_sort_of(out@, kept, by_path()));
            assert(sorted_entries(out@, views->0));
        }
        Ok(out)
    }
}

/// Why there is no source, where there is none: its directory is not there, or
/// its globs are wrong, those of the wanted files first.
pub open spec fn source_error(
    name: Seq<char>,
    path: Seq<char>,
    included: Seq<Seq<char>>,
    exclude: Seq<Seq<char>>,
    present: bool,
) -> Option<Seq<char>> {
    if !present {
        Some("源 "@ + name + " 目录不存在: "@ + path)
    } else if globs_error(included) is Some {
        globs_error(included)
    } else {
        globs_error(exclude)
    }
}

// ── laws ────────────────────────────────────────────────────────────────

/// The path of every file that is found is absolute.
pub proof fn law_paths_are_absolute(
    root: Seq<char>,
    included: Option<Seq<Seq<char>>>,
    exclude: Seq<Seq<char>>,
    cwd: Option<Seq<char>>,
    walk: Seq<(Seq<char>, bool)>,
)
    ensures
        found(root, included, exclude, cwd, walk) matches Some(list) ==> forall|i: int|
            0 <= i < list.len() ==> path::absolute((#[trigger] list[i]).path),
    decreases walk.len(),
{
    if walk.len() > 0 {
        law_paths_are_absolute(root, included, exclude, cwd, walk.drop_last());
        path::law_resolved_is_absolute(walk.last().0, cwd);
        if let Some(all) = found(root, included, exclude, cwd, walk) {
            let before = found(root, included, exclude, cwd, walk.drop_last())->0;
            assert forall|i: int| 0 <= i < all.len() implies path::absolute(
                (#[trigger] all[i]).path,
            ) by {
                if i < before.len() {
                    assert(all[i] == before[i]);
                }
            }
        }
    }
}

/// A file that is excluded is not taken in, whatever else matches it.
pub proof fn law_exclude_wins(
    root: Seq<char>,
    included: Option<Seq<Seq<char>>>,
    exclude: Seq<Seq<char>>,
    cwd: Option<Seq<char>>,
    walk: Seq<(Seq<char>, bool)>,
)
    ensures
        found(root, included, exclude, cwd, walk) matches Some(list) ==> forall|i: int|
            0 <= i < list.len() ==> !any_matches(exclude, (#[trigger] list[i]).rel),
    decreases walk.len(),
{
    if walk.len() > 0 {
        law_exclude_wins(root, included, exclude, cwd, walk.drop_last());
        if let Some(all) = found(root, included, exclude, cwd, walk) {
            let before = found(root, included, exclude, cwd, walk.drop_last())->0;
            assert forall|i: int| 0 <= i < all.len() implies !any_matches(
                exclude,
                (#[trigger] all[i]).rel,
            ) by {
                if i < before.len() {
                    assert(all[i] == before[i]);
                }
            }
        }
    }
}

/// Without a list of wanted files and without excluded ones, every file is
/// taken in, and a walk whose paths can be made absolute does not fail.
pub proof fn law_no_globs_take_everything(
    root: Seq<char>,
    cwd: Option<Seq<char>>,
    walk: Seq<(Seq<char>, bool)>,
)
    requires
        forall|i: int|
            0 <= i < walk.len() ==> (#[trigger] walk[i]).1 && path::resolved(walk[i].0, cwd) is Some,
    ensures
        found(root, None, Seq::empty(), cwd, walk) matches Some(list) && list.len() == walk.len()
            && forall|i: int|
            0 <= i < walk.len() ==> (#[trigger] list[i]).path == path::resolved(walk[i].0, cwd)->0,
    decreases walk.len(),
{
    if walk.len() > 0 {
        let head = walk.drop_last();
        assert forall|i: int| 0 <= i < head.len() implies (#[trigger] head[i]).1 && path::resolved(
            head[i].0,
            cwd,
        ) is Some by {
            assert(head[i] == walk[i]);
        }
        law_no_globs_take_everything(root, cwd, head);
        assert(walk.last() == walk[walk.len() - 1]);
        assert(wanted(None, Seq::empty(), rel_path(root, walk.last().0)));
        let before = found(root, None, Seq::empty(), cwd, head)->0;
        let list = found(root, None, Seq::empty(), cwd, walk)->0;
        assert forall|i: int| 0 <= i < walk.len() implies (#[trigger] list[i]).path
            == path::resolved(walk[i].0, cwd)->0 by {
            if i < before.len() {
                assert(list[i] == before[i]);
                assert(head[i] == walk[i]);
            }
        }
    }
}

proof fn lemma_no_slash_at_the_end(s: Seq<char>)
    ensures
        without_slashes(s).len() <= s.len(),
        without_slashes(s) == s.take(without_slashes(s).len() as int),
        s.len() > 0 && s.last() != '/' ==> without_slashes(s) == s,
        without_slashes(s.push('/')) == without_slashes(s),
    decreases s.len(),
{
    assert(s.push('/').drop_last() =~= s);
    if s.len() > 0 && s.last() == '/' {
        lemma_no_slash_at_the_end(s.drop_last());
        let n = without_slashes(s).len() as int;
        assert(s.drop_last().take(n) =~= s.take(n));
    } else {
        assert(s.take(s.len() as int) =~= s);
    }
}

/// What stands below the root of a source is told by its path from there, with or
/// without a slash behind the root; the root itself has an empty one.
pub proof fn law_path_below_the_root(
    root: &str,
    with_slash: &str,
    p: &str,
    name: Seq<char>,
    out: String,
    again: String,
    none: String,
)
    requires
        root@.len() > 0,
        root@.last() != '/',
        with_slash@ == root@.push('/'),
        name.len() > 0,
        name[0] != '/',
        name.last() != '/',
        p@ == root@.push('/') + name,
        call_ensures(rel_of, (root, p), out),
        call_ensures(rel_of, (with_slash, p), again),
        call_ensures(rel_of, (root, root), none),
    ensures
        out@ == name,
        again@ == name,
        none@.len() == 0,
{
    reveal_strlit("/");
    lemma_no_slash_at_the_end(root@);
    lemma_no_slash_at_the_end(p@);
    let dir = root@ + "/"@;
    assert(dir =~= root@.push('/'));
    assert(p@.subrange(0, dir.len() as int) =~= dir);
    assert(p@.skip(dir.len() as int) =~= name);
}

/// A path that is not below the root of a source stands for itself.
pub proof fn law_path_elsewhere_stays(root: &str, p: &str, out: String)
    requires
        root@.len() > 0,
        root@.last() != '/',
        p@.len() > 0,
        p@.last() != '/',
        p@ != root@,
        forall|name: Seq<char>| p@ != #[trigger] (root@.push('/') + name),
        call_ensures(rel_of, (root, p), out),
    ensures
        out@ == p@,
{
    reveal_strlit("/");
    lemma_no_slash_at_the_end(root@);
    lemma_no_slash_at_the_end(p@);
    let dir = root@ + "/"@;
    assert(dir =~= root@.push('/'));
    if dir.is_prefix_of(p@) {
        let name = p@.skip(dir.len() as int);
        assert(p@ =~= root@.push('/') + name);
    }
}

/// A file is wanted unless it is excluded, or is not among the wanted ones where
/// there is a list of them.
pub proof fn law_excluded_file_is_not_wanted(included: Option<bool>, excluded: bool, r: bool)
    requires
        call_ensures(is_wanted, (included, excluded), r),
    ensures
        excluded ==> !r,
        included == Some(false) ==> !r,
        !excluded && included != Some(false) ==> r,
{
}

/// Whether a step of a walk is a file that is to be taken in: it matches one of the
/// wanted globs, where there are any, and none of the excluded ones.
pub open spec fn to_be_taken(
    root: Seq<char>,
    included: Option<Seq<Seq<char>>>,
    exclude: Seq<Seq<char>>,
    step: (Seq<char>, bool),
) -> bool {
    let rel = rel_path(root, step.0);
    &&& step.1
    &&& included matches Some(list) ==> exists|i: int|
        0 <= i < list.len() && glob_matches(#[trigger] list[i], rel)
    &&& forall|i: int| 0 <= i < exclude.len() ==> !glob_matches(#[trigger] exclude[i], rel)
}

/// Whether an entry is what a step of a walk is taken in as: under its path below
/// the root, with its absolute path.
pub open spec fn taken_as(
    root: Seq<char>,
    cwd: Option<Seq<char>>,
    step: (Seq<char>, bool),
    e: EntryView,
) -> bool {
    e.rel == rel_path(root, step.0) && path::resolved(step.0, cwd) == Some(e.path)
}

/// One more step of a walk adds an entry at the end where it is a file to be taken
/// in, and nothing where it is not.
pub proof fn law_one_more_step(
    root: Seq<char>,
    included: Option<Seq<Seq<char>>>,
    exclude: Seq<Seq<char>>,
    cwd: Option<Seq<char>>,
    walk: Seq<(Seq<char>, bool)>,
    step: (Seq<char>, bool),
)
    requires
        found(root, included, exclude, cwd, walk) is Some,
    ensures
        !to_be_taken(root, included, exclude, step) ==> found(
            root,
            included,
            exclude,
            cwd,
            walk.push(step),
        ) == found(root, included, exclude, cwd, walk),
        to_be_taken(root, included, exclude, step) ==> (match found(
            root,
            included,
            exclude,
            cwd,
            walk.push(step),
        ) {
            Some(all) => all.len() == found(root, included, exclude, cwd, walk)->0.len() + 1
                && all.drop_last() == found(root, included, exclude, cwd, walk)->0 && taken_as(
                root,
                cwd,
                step,
                all.last(),
            ),
            None => path::resolved(step.0, cwd) is None,
        }),
{
    let all = walk.push(step);
    assert(all.drop_last() =~= walk);
    assert(all.last() == step);
    let rel = rel_path(root, step.0);
    assert(to_be_taken(root, included, exclude, step) <==> step.1 && wanted(included, exclude, rel));
    if found(root, included, exclude, cwd, all) is Some {
        let before = found(root, included, exclude, cwd, walk)->0;
        let after = found(root, included, exclude, cwd, all)->0;
        if to_be_taken(root, included, exclude, step) {
            assert(after.drop_last() =~= before);
        }
    }
}

/// Whether a step of a walk is a file to be taken in, as this entry.
pub open spec fn gives_entry(
    s: DirSource,
    cwd: Option<Seq<char>>,
    step: (Seq<char>, bool),
    e: EntryView,
) -> bool {
    to_be_taken(s.source_root(), s.included(), s.excluded(), step) && taken_as(
        s.source_root(),
        cwd,
        step,
        e,
    )
}

proof fn lemma_found_entries(
    s: DirSource,
    cwd: Option<Seq<char>>,
    walk: Seq<(Seq<char>, bool)>,
    e: EntryView,
)
    ensures
        match found(s.source_root(), s.included(), s.excluded(), cwd, walk) {
            Some(list) => list.contains(e) <==> exists|k: int|
                0 <= k < walk.len() && gives_entry(s, cwd, #[trigger] walk[k], e),
            None => exists|k: int|
                0 <= k < walk.len() && to_be_taken(
                    s.source_root(),
                    s.included(),
                    s.excluded(),
                    #[trigger] walk[k],
                ) && path::resolved(walk[k].0, cwd) is None,
        },
    decreases walk.len(),
{
    let root = s.source_root();
    let included = s.included();
    let exclude = s.excluded();
    if walk.len() > 0 {
        let head = walk.drop_last();
        let step = walk.last();
        lemma_found_entries(s, cwd, head, e);
        assert(head.push(step) =~= walk);
        assert(walk[walk.len() - 1] == step);
        match found(root, included, exclude, cwd, head) {
            None => {
                let k = choose|k: int|
                    0 <= k < head.len() && to_be_taken(root, included, exclude, #[trigger] head[k])
                        && path::resolved(head[k].0, cwd) is None;
                assert(walk[k] == head[k]);
                lemma_found_none_stays(root, included, exclude, cwd, walk, head.len() as int);
                assert(walk.take(head.len() as int) =~= head);
            },
            Some(before) => {
                law_one_more_step(root, included, exclude, cwd, head, step);
                if let Some(list) = found(root, included, exclude, cwd, walk) {
                    if list.contains(e) {
                        let i = choose|i: int| 0 <= i < list.len() && list[i] == e;
                        if i < before.len() {
                            if list.len() > before.len() {
                                assert(list.drop_last()[i] == list[i]);
                            }
                            assert(before.contains(e)) by {
                                assert(before[i] == e);
                            }
                            let k = choose|k: int|
                                0 <= k < head.len() && gives_entry(s, cwd, #[trigger] head[k], e);
                            assert(walk[k] == head[k]);
                        } else {
                            assert(gives_entry(s, cwd, walk[walk.len() - 1], e));
                        }
                    }
                    if exists|k: int|
                        0 <= k < walk.len() && gives_entry(s, cwd, #[trigger] walk[k], e) {
                        let k = choose|k: int|
                            0 <= k < walk.len() && gives_entry(s, cwd, #[trigger] walk[k], e);
                        if k < head.len() {
                            assert(head[k] == walk[k]);
                            assert(before.contains(e));
                            let i = choose|i: int| 0 <= i < before.len() && before[i] == e;
                            if list.len() > before.len() {
                                assert(list.drop_last()[i] == list[i]);
                            }
                            assert(list[i] == e);
                        } else {
                            assert(list.last() == e);
                            assert(list[list.len() - 1] == e);
                        }
                    }
                }
            },
        }
    }
}

/// The files of a source are those that a walk comes upon and that are to be taken
/// in, all of them and no others; a scan fails just where the path of one of them
/// cannot be made absolute.
pub proof fn law_scan_takes_what_is_wanted(
    s: &DirSource,
    walk: &Vec<Walked>,
    cwd: &Option<String>,
    r: Result<Vec<FileEntry>, String>,
    e: EntryView,
)
    requires
        call_ensures(DirSource::scan, (s, walk, cwd), r),
    ensures
        r matches Ok(out) ==> ((exists|i: int| 0 <= i < out@.len() && (#[trigger] out@[i])@ == e)
            <==> exists|k: int|
            0 <= k < walk@.len() && gives_entry(
                *s,
                text::opt_view(*cwd),
                ((#[trigger] walk@[k]).path@, walk@[k].is_file),
                e,
            )),
        r is Err ==> exists|k: int|
            0 <= k < walk@.len() && to_be_taken(
                s.source_root(),
                s.included(),
                s.excluded(),
                ((#[trigger] walk@[k]).path@, walk@[k].is_file),
            ) && path::resolved(walk@[k].path@, text::opt_view(*cwd)) is None,
        r matches Err(w) ==> w@ == "遍历 "@ + s.source_root() + " 失败"@,
{
    let steps = walk_views(walk@);
    let dir = text::opt_view(*cwd);
    lemma_found_entries(*s, dir, steps, e);
    match r {
        Ok(out) => {
            let views = found(s.source_root(), s.included(), s.excluded(), dir, steps)->0;
            let list = choose|list: Seq<FileEntry>| #[trigger]
                order::stable_sort_of(out@, list, by_path()) && entry_views(list) == views;
            if exists|i: int| 0 <= i < out@.len() && (#[trigger] out@[i])@ == e {
                let i = choose|i: int| 0 <= i < out@.len() && (#[trigger] out@[i])@ == e;
                order::lemma_sorted_item(out@, list, by_path(), i);
                let k = choose|k: int| 0 <= k < list.len() && list[k] == out@[i];
                assert(views[k] == e);
                assert(views.contains(e));
                let n = choose|n: int| 0 <= n < steps.len() && gives_entry(*s, dir, #[trigger] steps[n], e);
                assert(steps[n] == (walk@[n].path@, walk@[n].is_file));
            }
            if exists|k: int|
                0 <= k < walk@.len() && gives_entry(
                    *s,
                    dir,
                    ((#[trigger] walk@[k]).path@, walk@[k].is_file),
                    e,
                ) {
                let k = choose|k: int|
                    0 <= k < walk@.len() && gives_entry(
                        *s,
                        dir,
                        ((#[trigger] walk@[k]).path@, walk@[k].is_file),
                        e,
                    );
                assert(gives_entry(*s, dir, steps[k], e));
                assert(views.contains(e));
                let n = choose|n: int| 0 <= n < views.len() && views[n] == e;
                assert(list[n]@ == e);
                order::lemma_item_is_sorted_in(out@, list, by_path(), list[n]);
                let i = choose|i: int| 0 <= i < out@.len() && out@[i] == list[n];
                assert(out@[i]@ == e);
            }
        },
        Err(w) => {
            let k = choose|k: int|
                0 <= k < steps.len() && to_be_taken(
                    s.source_root(),
                    s.included(),
                    s.excluded(),
                    #[trigger] steps[k],
                ) && path::resolved(steps[k].0, dir) is None;
            assert(steps[k] == (walk@[k].path@, walk@[k].is_file));
        },
    }
}

/// The files of a source come in the order of their paths: of two in one directory,
/// or below two of its directories, the one whose name in that directory comes
/// first comes first.
pub proof fn law_files_come_by_their_paths(
    s: &DirSource,
    walk: &Vec<Walked>,
    cwd: &Option<String>,
    out: Vec<FileEntry>,
    i: int,
    j: int,
    dir: Seq<char>,
    a: Seq<char>,
    b: Seq<char>,
    below_a: Seq<char>,
    below_b: Seq<char>,
)
    requires
        call_ensures(DirSource::scan, (s, walk, cwd), Ok(out)),
        0 <= i < out@.len(),
        0 <= j < out@.len(),
        dir.len() > 0 && dir[0] == '/',
        path::plain_name(a),
        path::plain_name(b),
        a != b,
        path::text_first(a, b),
        path::end_or_below(below_a),
        path::end_or_below(below_b),
        out@[i].path@ == dir + "/"@ + (a + below_a),
        out@[j].path@ == dir + "/"@ + (b + below_b),
    ensures
        i < j,
{
    let views = found(
        s.source_root(),
        s.included(),
        s.excluded(),
        text::opt_view(*cwd),
        walk_views(walk@),
    )->0;
    let list = choose|list: Seq<FileEntry>| #[trigger]
        order::stable_sort_of(out@, list, by_path()) && entry_views(list) == views;
    let x = seq![0u32] + path::text_key(out@[i].rel@);
    let y = seq![0u32] + path::text_key(out@[j].rel@);
    path::law_names_in_a_directory_sort_as_texts(dir, a, b, below_a, below_b, x, y);
    assert(entry_key(out@[i]@) =~= path::path_key(out@[i].path@) + x);
    assert(entry_key(out@[j]@) =~= path::path_key(out@[j].path@) + y);
    if j <= i {
        let leq = by_path();
        assert(leq(out@[j], out@[i]));
    }
}

/// A source is named and rooted as it is configured, and goes by the globs that are
/// configured: without wanted ones it has no list of them. Without its directory
/// there is none, and neither where a text is no glob; the error says which.
pub proof fn law_source_is_what_is_configured(
    name: &str,
    cfg: &SourceConfig,
    present: bool,
    r: Result<DirSource, String>,
    i: int,
)
    requires
        call_ensures(DirSource::new, (name, cfg, present), r),
    ensures
        r matches Ok(s) ==> s.source_name() == name@ && s.source_root() == cfg.path@ && s.excluded()
            == text::views(cfg.exclude@) && (s.included() is None <==> cfg.included@.len() == 0)
            && (s.included() matches Some(list) ==> list == text::views(cfg.included@)),
        !present ==> (r matches Err(w) && w@ == "源 "@ + name@ + " 目录不存在: "@ + cfg.path@),
        0 <= i < cfg.included@.len() && !is_glob(cfg.included@[i]@) ==> r is Err,
        0 <= i < cfg.exclude@.len() && !is_glob(cfg.exclude@[i]@) ==> r is Err,
        present && 0 <= i < cfg.included@.len() && !is_glob(cfg.included@[i]@) && (forall|j: int|
            0 <= j < i ==> is_glob((#[trigger] cfg.included@[j])@)) ==> (r matches Err(w) && w@
            == "非法 glob: "@ + cfg.included@[i]@),
        present && cfg.included@.len() == 0 && cfg.exclude@.len() == 0 ==> r is Ok,
{
    let included = text::views(cfg.included@);
    let exclude = text::views(cfg.exclude@);
    if 0 <= i < included.len() && !is_glob(included[i]) {
        lemma_bad_glob_is_found(included, i);
    }
    if 0 <= i < exclude.len() && !is_glob(exclude[i]) {
        lemma_bad_glob_is_found(exclude, i);
    }
    if 0 <= i < included.len() && !is_glob(included[i]) && (forall|j: int|
        0 <= j < i ==> is_glob((#[trigger] cfg.included@[j])@)) {
        assert forall|j: int| 0 <= j < i implies is_glob(#[trigger] included[j]) by {
            assert(is_glob(cfg.included@[j]@));
        }
        lemma_first_bad_is(included, i);
    }
}

proof fn lemma_bad_glob_is_found(patterns: Seq<Seq<char>>, i: int)
    requires
        0 <= i < patterns.len(),
        !is_glob(patterns[i]),
    ensures
        first_bad(patterns) is Some,
    decreases patterns.len(),
{
    if i < patterns.len() - 1 {
        lemma_bad_glob_is_found(patterns.drop_last(), i);
    }
}

proof fn lemma_first_bad_is(patterns: Seq<Seq<char>>, i: int)
    requires
        0 <= i < patterns.len(),
        !is_glob(patterns[i]),
        forall|j: int| 0 <= j < i ==> is_glob(#[trigger] patterns[j]),
    ensures
        first_bad(patterns) == Some(patterns[i]),
    decreases patterns.len(),
{
    let head = patterns.drop_last();
    if i < patterns.len() - 1 {
        lemma_first_bad_is(head, i);
    } else {
        lemma_no_bad_glob(head);
    }
}

proof fn lemma_no_bad_glob(patterns: Seq<Seq<char>>)
    requires
        forall|j: int| 0 <= j < patterns.len() ==> is_glob(#[trigger] patterns[j]),
    ensures
        first_bad(patterns) is None,
    decreases patterns.len(),
{
    if patterns.len() > 0 {
        assert(is_glob(patterns[patterns.len() - 1]));
        lemma_no_bad_glob(patterns.drop_last());
    }
}

/// Slashes more between the root and what is below it, or behind the root, make no
/// difference.
pub proof fn law_more_slashes_make_no_difference(
    root: &str,
    p: &str,
    q: &str,
    name: Seq<char>,
    out: String,
    none: String,
)
    requires
        root@.len() > 0,
        root@.last() != '/',
        name.len() > 0,
        name[0] != '/',
        name.last() != '/',
        p@ == root@.push('/').push('/') + name,
        q@ == root@.push('/'),
        call_ensures(rel_of, (root, p), out),
        call_ensures(rel_of, (root, q), none),
    ensures
        out@ == name,
        none@.len() == 0,
{
    reveal_strlit("/");
    lemma_no_slash_at_the_end(root@);
    lemma_no_slash_at_the_end(p@);
    let dir = root@ + "/"@;
    assert(dir =~= root@.push('/'));
    assert(p@.subrange(0, dir.len() as int) =~= dir);
    let tail = p@.skip(dir.len() as int);
    assert(tail =~= seq!['/'] + name);
    assert(tail.drop_first() =~= name);
    reveal_with_fuel(past_slashes, 3);
}

} // verus!
