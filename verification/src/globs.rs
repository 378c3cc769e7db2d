//! Glob matching for rule scopes, over the `globset` crate.
//!
//! The verified code never looks inside a compiled glob: a `Glob` is
//! abstracted by the pattern it was compiled from, and a `GlobSet` by the
//! set of patterns it holds.  Whether a pattern compiles, and whether it
//! matches a path, are named functions of the pattern text alone, since
//! `globset` decides both deterministically from its arguments.

use vstd::prelude::*;

verus! {

#[verifier::external_type_specification]
#[verifier::external_body]
pub struct ExGlob(globset::Glob);

#[verifier::external_type_specification]
#[verifier::external_body]
pub struct ExGlobSet(globset::GlobSet);

#[verifier::external_type_specification]
#[verifier::external_body]
pub struct ExGlobSetBuilder(globset::GlobSetBuilder);

/// Whether `globset::Glob::new` accepts this pattern.
pub uninterp spec fn glob_ok(pattern: Seq<char>) -> bool;

/// Whether the glob compiled from `pattern` matches `path`.
pub uninterp spec fn glob_matches(pattern: Seq<char>, path: Seq<char>) -> bool;

/// The pattern a compiled glob was built from.
pub uninterp spec fn glob_pattern(g: globset::Glob) -> Seq<char>;

/// The patterns a glob set holds.
pub uninterp spec fn globset_patterns(s: globset::GlobSet) -> Set<Seq<char>>;

/// The patterns added to a builder so far.
pub uninterp spec fn builder_patterns(b: globset::GlobSetBuilder) -> Set<Seq<char>>;

/// Whether `globset::GlobSetBuilder::build` assembles a matcher from
/// these patterns: it compiles each glob's matching strategy and regex
/// set from the pattern texts alone, so success is a function of them.
pub uninterp spec fn globset_build_ok(patterns: Set<Seq<char>>) -> bool;

/// Relies on globset::Glob::new: compilation succeeds or fails by the
/// pattern text alone, and the compiled glob carries that pattern.
#[verifier::external_body]
fn glob_new(pattern: &str) -> (r: Option<globset::Glob>)
    ensures
        r is Some <==> glob_ok(pattern@),
        r matches Some(g) ==> glob_pattern(g) == pattern@,
{
    globset::Glob::new(pattern).ok()
}

/// Relies on globset::GlobSetBuilder::new: a fresh builder holds no patterns.
#[verifier::external_body]
fn builder_new() -> (b: globset::GlobSetBuilder)
    ensures
        builder_patterns(b) == Set::<Seq<char>>::empty(),
{
    globset::GlobSetBuilder::new()
}

/// Relies on globset::GlobSetBuilder::add: adds the glob's pattern to the set.
#[verifier::external_body]
fn builder_add(b: &mut globset::GlobSetBuilder, g: globset::Glob)
    ensures
        builder_patterns(*final(b)) == builder_patterns(*old(b)).insert(glob_pattern(g)),
{
    b.add(g);
}

/// Relies on globset::GlobSetBuilder::build: whether assembly succeeds
/// is decided by the added patterns, and on success the set holds
/// exactly those patterns.
#[verifier::external_body]
fn builder_build(b: &globset::GlobSetBuilder) -> (r: Option<globset::GlobSet>)
    ensures
        r is Some <==> globset_build_ok(builder_patterns(*b)),
        r matches Some(s) ==> globset_patterns(s) == builder_patterns(*b),
{
    b.build().ok()
}

/// Relies on globset::GlobSet::is_match: true exactly when some glob of
/// the set matches the path.
#[verifier::external_body]
fn globset_is_match(s: &globset::GlobSet, path: &str) -> (r: bool)
    ensures
        r == (exists|p: Seq<char>| globset_patterns(*s).contains(p) && glob_matches(p, path@)),
{
    s.is_match(path)
}

/// The patterns of `ps` that compile, as a set.
pub open spec fn compiled_patterns(ps: Seq<Seq<char>>) -> Set<Seq<char>>
    decreases ps.len(),
{
    if ps.len() == 0 {
        Set::empty()
    } else {
        let rest = compiled_patterns(ps.drop_last());
        if glob_ok(ps.last()) {
            rest.insert(ps.last())
        } else {
            rest
        }
    }
}

/// Whether some compiling pattern of the list matches `path`.
pub open spec fn globs_match(patterns: Seq<Seq<char>>, path: Seq<char>) -> bool {
    exists|i: int|
        0 <= i < patterns.len() && glob_ok(patterns[i]) && glob_matches(patterns[i], path)
}

pub proof fn lemma_compiled_patterns_match(ps: Seq<Seq<char>>, path: Seq<char>)
    ensures
        (exists|p: Seq<char>| compiled_patterns(ps).contains(p) && glob_matches(p, path))
            == globs_match(ps, path),
    decreases ps.len(),
{
    if ps.len() == 0 {
    } else {
        let d = ps.drop_last();
        lemma_compiled_patterns_match(d, path);
        assert(forall|i: int| 0 <= i < d.len() ==> d[i] == ps[i]);
        if globs_match(ps, path) {
            let i = choose|i: int|
                0 <= i < ps.len() && glob_ok(ps[i]) && glob_matches(ps[i], path);
            if i < ps.len() - 1 {
                assert(globs_match(d, path));
                let p = choose|p: Seq<char>|
                    compiled_patterns(d).contains(p) && glob_matches(p, path);
                assert(compiled_patterns(ps).contains(p));
            } else {
                assert(compiled_patterns(ps).contains(ps.last()));
            }
        }
        if exists|p: Seq<char>| compiled_patterns(ps).contains(p) && glob_matches(p, path) {
            let p = choose|p: Seq<char>|
                compiled_patterns(ps).contains(p) && glob_matches(p, path);
            if compiled_patterns(d).contains(p) {
                assert(globs_match(d, path));
                let i = choose|i: int|
                    0 <= i < d.len() && glob_ok(d[i]) && glob_matches(d[i], path);
                assert(glob_ok(ps[i]) && glob_matches(ps[i], path));
            } else {
                assert(glob_ok(ps.last()) && glob_matches(ps.last(), path));
                assert(glob_ok(ps[ps.len() - 1]) && glob_matches(ps[ps.len() - 1], path));
            }
        }
    }
}

/// Compiles the patterns of a rule into one matcher; a pattern that does
/// not compile is skipped, never fatal.  `None` exactly when `globset`
/// refuses to assemble the set of patterns that did compile.
pub fn build_globset(patterns: &Vec<String>) -> (r: Option<globset::GlobSet>)
    ensures
        r is Some <==> globset_build_ok(compiled_patterns(patterns.deep_view())),
        r matches Some(s) ==> globset_patterns(s) == compiled_patterns(patterns.deep_view()),
{
    let ghost dv = patterns.deep_view();
    let mut b = builder_new();
    let mut i: usize = 0;
    while i < patterns.len()
        invariant
            dv == patterns.deep_view(),
            i <= patterns.len(),
            builder_patterns(b) == compiled_patterns(dv.take(i as int)),
        decreases patterns.len() - i,
    {
        proof {
            assert(dv[i as int] == patterns@[i as int]@);
            assert(dv.take(i + 1).drop_last() =~= dv.take(i as int));
            assert(dv.take(i + 1).last() == dv[i as int]);
        }
        match glob_new(patterns[i].as_str()) {
            Some(g) => {
                builder_add(&mut b, g);
            },
            None => {
            },
        }
        i += 1;
    }
    proof {
        assert(dv.take(patterns@.len() as int) =~= dv);
    }
    builder_build(&b)
}

/// A path is selected for a rule when some scope pattern matches it and
/// no exclude pattern does.
pub open spec fn file_selected(
    scope: Seq<Seq<char>>,
    exclude: Seq<Seq<char>>,
    path: Seq<char>,
) -> bool {
    globs_match(scope, path) && !globs_match(exclude, path)
}

/// The files a rule selects, in their given order.
pub open spec fn filtered_files(
    scope: Seq<Seq<char>>,
    exclude: Seq<Seq<char>>,
    files: Seq<Seq<char>>,
) -> Seq<Seq<char>> {
    files.filter(|f: Seq<char>| file_selected(scope, exclude, f))
}

/// Keeps the files that match `scope_set` and not `exclude_set`.
pub fn filter_files_with(
    scope_set: &globset::GlobSet,
    exclude_set: &globset::GlobSet,
    files: &Vec<String>,
    Ghost(scope): Ghost<Seq<Seq<char>>>,
    Ghost(exclude): Ghost<Seq<Seq<char>>>,
) -> (r: Vec<String>)
    requires
        globset_patterns(*scope_set) == compiled_patterns(scope),
        globset_patterns(*exclude_set) == compiled_patterns(exclude),
    ensures
        r.deep_view() == filtered_files(scope, exclude, files.deep_view()),
{
    let ghost fdv = files.deep_view();
    let ghost pred = |f: Seq<char>| file_selected(scope, exclude, f);
    let mut out: Vec<String> = Vec::new();
    let mut i: usize = 0;
    proof {
        reveal_with_fuel(Seq::filter, 2);
        assert(fdv.take(0).filter(pred) =~= Seq::<Seq<char>>::empty());
    }
    while i < files.len()
        invariant
            fdv == files.deep_view(),
            pred == (|f: Seq<char>| file_selected(scope, exclude, f)),
            globset_patterns(*scope_set) == compiled_patterns(scope),
            globset_patterns(*exclude_set) == compiled_patterns(exclude),
            i <= files.len(),
            out.deep_view() == fdv.take(i as int).filter(pred),
        decreases files.len() - i,
    {
        let ghost prev = out.deep_view();
        proof {
            assert(fdv[i as int] == files@[i as int]@);
            lemma_compiled_patterns_match(scope, fdv[i as int]);
            lemma_compiled_patterns_match(exclude, fdv[i as int]);
        }
        let in_scope = globset_is_match(scope_set, files[i].as_str());
        let excluded = globset_is_match(exclude_set, files[i].as_str());
        if in_scope && !excluded {
            out.push(files[i].clone());
            proof {
                assert(out.deep_view() =~= prev.push(fdv[i as int]));
            }
        }
        proof {
            reveal_with_fuel(Seq::filter, 2);
            assert(fdv.take(i + 1) =~= fdv.take(i as int) + seq![fdv[i as int]]);
            Seq::filter_distributes_over_add(fdv.take(i as int), seq![fdv[i as int]], pred);
            if pred(fdv[i as int]) {
                assert(seq![fdv[i as int]].filter(pred) =~= seq![fdv[i as int]]);
                assert(out.deep_view() =~= fdv.take(i + 1).filter(pred));
            } else {
                assert(seq![fdv[i as int]].filter(pred) =~= Seq::<Seq<char>>::empty());
                assert(out.deep_view() =~= fdv.take(i + 1).filter(pred));
            }
        }
        i += 1;
    }
    proof {
        assert(fdv.take(files@.len() as int) =~= fdv);
    }
    out
}

proof fn lemma_seq_filter_idem<A>(s: Seq<A>, p: spec_fn(A) -> bool)
    ensures
        s.filter(p).filter(p) == s.filter(p),
    decreases s.len(),
{
    reveal_with_fuel(Seq::filter, 2);
    if s.len() == 0 {
        assert(s.filter(p) =~= Seq::<A>::empty());
        assert(s.filter(p).filter(p) =~= s.filter(p));
    } else {
        let d = s.drop_last();
        lemma_seq_filter_idem(d, p);
        if p(s.last()) {
            assert(s.filter(p) == d.filter(p).push(s.last()));
            assert(d.filter(p).push(s.last()) =~= d.filter(p) + seq![s.last()]);
            Seq::filter_distributes_over_add(d.filter(p), seq![s.last()], p);
            assert(seq![s.last()].filter(p) =~= seq![s.last()]);
            assert(s.filter(p).filter(p) =~= s.filter(p));
        } else {
            assert(s.filter(p) == d.filter(p));
        }
    }
}

/// Filtering is idempotent: filtering an already-filtered file list with
/// the same scope and exclude patterns is a no-op.
pub proof fn lemma_filter_files_idempotent(
    scope: Seq<Seq<char>>,
    exclude: Seq<Seq<char>>,
    files: Seq<Seq<char>>,
)
    ensures
        filtered_files(scope, exclude, filtered_files(scope, exclude, files))
            == filtered_files(scope, exclude, files),
{
    lemma_seq_filter_idem(files, |f: Seq<char>| file_selected(scope, exclude, f));
}

} // verus!
