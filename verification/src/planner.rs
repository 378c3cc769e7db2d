//! Task planning: filter each rule's files by its globs, then cut the
//! selection into balanced chunks, none larger than the effective
//! files-per-task cap and any two differing in size by at most one.

use vstd::prelude::*;
use vstd::arithmetic::div_mod::{lemma_fundamental_div_mod, lemma_mod_division_less_than_divisor};

use crate::globs;
use crate::globs::{compiled_patterns, filtered_files, globset_build_ok,
    lemma_filter_files_idempotent};
use crate::rule::{RuleBody, RuleSpec};

verus! {

/// One unit of review work: a rule (by its position in the rule list)
/// and the ordered, non-empty file subset it focuses on.
pub struct Task {
    pub rule_index: usize,
    pub files: Vec<String>,
}

/// The mathematical value of a task.
#[verifier::ext_equal]
pub struct TaskSpec {
    pub rule_index: int,
    pub files: Seq<Seq<char>>,
}

impl View for Task {
    type V = TaskSpec;

    open spec fn view(&self) -> TaskSpec {
        TaskSpec { rule_index: self.rule_index as int, files: self.files.deep_view() }
    }
}

/// The tasks of a list, as their mathematical values.
pub open spec fn tasks_view(tasks: Seq<Task>) -> Seq<TaskSpec> {
    tasks.map_values(|t: Task| t@)
}

/// The cap on files per task for one rule: its own override, or the
/// global default.
pub open spec fn effective_max(rule: RuleSpec, global_max: int) -> int {
    match rule.max_files_per_task {
        Some(m) => m as int,
        None => global_max,
    }
}

/// How many chunks a selection of `n` files takes under cap `max`:
/// the least number of groups of at most `max`.
pub open spec fn chunk_count(n: int, max: int) -> int
    recommends
        n >= 1,
        max >= 1,
{
    if n % max == 0 {
        n / max
    } else {
        n / max + 1
    }
}

/// The size of chunk `i` when `n` files fall into `k` chunks: the first
/// `n % k` chunks take one file more than the rest.
pub open spec fn chunk_size(n: int, k: int, i: int) -> int {
    n / k + if i < n % k {
        1int
    } else {
        0int
    }
}

/// Where chunk `i` begins.
pub open spec fn chunk_start(n: int, k: int, i: int) -> int {
    i * (n / k) + if i <= n % k {
        i
    } else {
        n % k
    }
}

proof fn lemma_chunk_arith(n: int, max: int)
    requires
        1 <= n,
        1 <= max,
    ensures
        ({
            let k = chunk_count(n, max);
            let base = n / k;
            let rem = n % k;
            &&& 1 <= k <= n
            &&& 0 <= rem < k
            &&& n == base * k + rem
            &&& 1 <= base
            &&& base <= max
            &&& rem > 0 ==> base + 1 <= max
        }),
{
    lemma_fundamental_div_mod(n, max);
    lemma_mod_division_less_than_divisor(n, max);
    let q = n / max;
    let s = n % max;
    let k = chunk_count(n, max);
    // k >= 1, and n <= k * max
    if s == 0 {
        assert(q >= 1) by (nonlinear_arith)
            requires
                n >= 1,
                max >= 1,
                n == max * q,
        ;
        assert(n <= k * max) by (nonlinear_arith)
            requires
                n == max * q,
                k == q,
        ;
    } else {
        assert(q >= 0) by (nonlinear_arith)
            requires
                n >= 1,
                max >= 1,
                n == max * q + s,
                0 <= s < max,
        ;
        assert(n <= k * max) by (nonlinear_arith)
            requires
                n == max * q + s,
                0 <= s < max,
                k == q + 1,
        ;
    }
    // k <= n
    assert(q <= n) by (nonlinear_arith)
        requires
            n >= 1,
            max >= 1,
            n == max * q + s,
            0 <= s < max,
    ;
    if s != 0 {
        assert(q < n) by (nonlinear_arith)
            requires
                n >= 1,
                max >= 1,
                n == max * q + s,
                0 < s < max,
        ;
    }
    assert(1 <= k <= n);
    lemma_fundamental_div_mod(n, k);
    lemma_mod_division_less_than_divisor(n, k);
    let base = n / k;
    let rem = n % k;
    assert(n == base * k + rem) by (nonlinear_arith)
        requires
            n == k * base + rem,
    ;
    // base >= 1
    assert(base >= 1) by (nonlinear_arith)
        requires
            n == k * base + rem,
            0 <= rem < k,
            k <= n,
            1 <= n,
    ;
    // base <= max, and base < max when rem > 0
    assert(base <= max) by (nonlinear_arith)
        requires
            n == k * base + rem,
            0 <= rem < k,
            n <= k * max,
            1 <= k,
    ;
    if rem > 0 {
        // were base == max, n == k * max + rem > k * max would contradict n <= k * max
        assert(base < max) by (nonlinear_arith)
            requires
                n == k * base + rem,
                0 < rem,
                n <= k * max,
                1 <= k,
                base <= max,
        ;
    }
}

proof fn lemma_chunk_step(n: int, k: int, i: int)
    requires
        1 <= k,
        0 <= i,
    ensures
        chunk_start(n, k, i + 1) == chunk_start(n, k, i) + chunk_size(n, k, i),
{
    let base = n / k;
    assert((i + 1) * base == i * base + base) by (nonlinear_arith);
}

proof fn lemma_chunk_end(n: int, k: int)
    requires
        1 <= k,
        0 <= n % k < k,
        n == (n / k) * k + n % k,
    ensures
        chunk_start(n, k, k) == n,
{
    let base = n / k;
    let rem = n % k;
    assert(chunk_start(n, k, k) == k * base + rem) by (nonlinear_arith)
        requires
            0 <= rem < k,
            chunk_start(n, k, k) == k * base + (if k <= rem {
                k
            } else {
                rem
            }),
    ;
    assert(k * base == base * k) by (nonlinear_arith);
}

proof fn lemma_chunk_start_le(n: int, k: int, i: int)
    requires
        1 <= k,
        0 <= i <= k,
        0 <= n % k < k,
        n == (n / k) * k + n % k,
        0 <= n / k,
    ensures
        0 <= chunk_start(n, k, i),
        chunk_start(n, k, i) + (if i < k {
            chunk_size(n, k, i)
        } else {
            0int
        }) <= n,
    decreases k - i,
{
    assert(i * (n / k) >= 0) by (nonlinear_arith)
        requires
            i >= 0,
            n / k >= 0,
    ;
    if i == k {
        lemma_chunk_end(n, k);
    } else {
        lemma_chunk_step(n, k, i);
        lemma_chunk_start_le(n, k, i + 1);
        if i + 1 < k {
            assert(chunk_size(n, k, i + 1) >= 0);
        }
    }
}

/// Splits `files` into balanced chunks: no chunk exceeds `max_per_task`,
/// any two chunks differ in size by at most one, and in order the chunks
/// partition the input.
pub fn split_files(files: &Vec<String>, max_per_task: usize) -> (r: Vec<Vec<String>>)
    requires
        max_per_task >= 1,
    ensures
        files@.len() == 0 ==> r@.len() == 0,
        files@.len() > 0 ==> r@.len() == chunk_count(files@.len() as int, max_per_task as int),
        forall|i: int|
            0 <= i < r@.len() ==> #[trigger] r.deep_view()[i] == files.deep_view().subrange(
                chunk_start(
                    files@.len() as int,
                    chunk_count(files@.len() as int, max_per_task as int),
                    i,
                ),
                chunk_start(
                    files@.len() as int,
                    chunk_count(files@.len() as int, max_per_task as int),
                    i,
                ) + chunk_size(
                    files@.len() as int,
                    chunk_count(files@.len() as int, max_per_task as int),
                    i,
                ),
            ),
        forall|i: int| 0 <= i < r@.len() ==> 1 <= #[trigger] r.deep_view()[i].len()
            <= max_per_task,
        forall|i: int, j: int|
            0 <= i < r@.len() && 0 <= j < r@.len() ==> #[trigger] r.deep_view()[i].len()
                - #[trigger] r.deep_view()[j].len() <= 1,
{
    let n = files.len();
    let mut out: Vec<Vec<String>> = Vec::new();
    if n == 0 {
        return out;
    }
    let ghost fdv = files.deep_view();
    proof {
        lemma_chunk_arith(n as int, max_per_task as int);
    }
    let k = n / max_per_task + if n % max_per_task == 0 {
        0
    } else {
        1
    };
    let base = n / k;
    let rem = n % k;
    proof {
        lemma_fundamental_div_mod(n as int, k as int);
        lemma_mod_division_less_than_divisor(n as int, k as int);
    }
    let mut pos: usize = 0;
    let mut i: usize = 0;
    while i < k
        invariant
            n == files@.len(),
            fdv == files.deep_view(),
            max_per_task >= 1,
            1 <= k <= n,
            k == chunk_count(n as int, max_per_task as int),
            base == n as int / k as int,
            rem == n as int % k as int,
            0 <= rem < k,
            n as int == base * k + rem,
            1 <= base,
            base <= max_per_task,
            rem > 0 ==> base + 1 <= max_per_task,
            i <= k,
            out@.len() == i,
            pos == chunk_start(n as int, k as int, i as int),
            pos <= n,
            forall|j: int|
                0 <= j < i ==> #[trigger] out.deep_view()[j] == fdv.subrange(
                    chunk_start(n as int, k as int, j),
                    chunk_start(n as int, k as int, j) + chunk_size(n as int, k as int, j),
                ),
        decreases k - i,
    {
        proof {
            lemma_chunk_start_le(n as int, k as int, i as int);
        }
        let sz = if i < rem {
            base + 1
        } else {
            base
        };
        assert(sz == chunk_size(n as int, k as int, i as int));
        assert(pos + sz <= n);
        let mut chunk: Vec<String> = Vec::new();
        let mut t: usize = 0;
        proof {
            assert(chunk.deep_view() =~= fdv.subrange(pos as int, pos as int));
        }
        while t < sz
            invariant
                n == files@.len(),
                fdv == files.deep_view(),
                pos + sz <= n,
                t <= sz,
                chunk.deep_view() == fdv.subrange(pos as int, pos + t),
            decreases sz - t,
        {
            let ghost prev = chunk.deep_view();
            chunk.push(files[pos + t].clone());
            proof {
                assert(files@[pos + t]@ == fdv[pos + t]);
                assert(chunk.deep_view() =~= prev.push(fdv[pos + t]));
                assert(chunk.deep_view() =~= fdv.subrange(pos as int, pos + t + 1));
            }
            t += 1;
        }
        let ghost prev_out = out.deep_view();
        out.push(chunk);
        proof {
            assert(out.deep_view() =~= prev_out.push(fdv.subrange(pos as int, pos + sz)));
            lemma_chunk_step(n as int, k as int, i as int);
        }
        pos = pos + sz;
        i += 1;
    }
    proof {
        assert forall|j: int| 0 <= j < k implies #[trigger] out.deep_view()[j].len()
            == chunk_size(n as int, k as int, j) by {
            lemma_chunk_start_le(n as int, k as int, j);
        }
    }
    out
}

/// Whether both of a rule's glob matchers assemble.
pub open spec fn rule_globs_ok(rule: RuleSpec) -> bool {
    globset_build_ok(compiled_patterns(rule.scope)) && globset_build_ok(
        compiled_patterns(rule.exclude),
    )
}

/// The files a rule selects: the glob filter when both of its matchers
/// assemble, and nothing at all otherwise.
pub open spec fn rule_selection(rule: RuleSpec, files: Seq<Seq<char>>) -> Seq<Seq<char>> {
    if rule_globs_ok(rule) {
        filtered_files(rule.scope, rule.exclude, files)
    } else {
        Seq::empty()
    }
}

/// Filtering is idempotent: a rule's selection, filtered again by the
/// same rule, is unchanged — through the assembly outcome as well as
/// through the glob filter itself.
pub proof fn lemma_selection_idempotent(rule: RuleSpec, files: Seq<Seq<char>>)
    ensures
        rule_selection(rule, rule_selection(rule, files)) == rule_selection(rule, files),
{
    if rule_globs_ok(rule) {
        lemma_filter_files_idempotent(rule.scope, rule.exclude, files);
    } else {
        assert(rule_selection(rule, rule_selection(rule, files)) =~= rule_selection(
            rule,
            files,
        ));
    }
}

/// The files of a rule that survive its scope and exclude globs: exactly
/// the glob filter when both matchers assemble, exactly nothing when
/// `globset` refuses either one.
pub fn filter_files_by_scope(rule: &RuleBody, files: &Vec<String>) -> (r: Vec<String>)
    ensures
        r.deep_view() == rule_selection(rule@, files.deep_view()),
{
    let scope_set = match globs::build_globset(&rule.scope) {
        Some(s) => s,
        None => {
            let r: Vec<String> = Vec::new();
            proof {
                assert(r.deep_view() =~= Seq::<Seq<char>>::empty());
            }
            return r;
        },
    };
    let exclude_set = match globs::build_globset(&rule.exclude) {
        Some(s) => s,
        None => {
            let r: Vec<String> = Vec::new();
            proof {
                assert(r.deep_view() =~= Seq::<Seq<char>>::empty());
            }
            return r;
        },
    };
    globs::filter_files_with(
        &scope_set,
        &exclude_set,
        files,
        Ghost(rule@.scope),
        Ghost(rule@.exclude),
    )
}

/// The chunks of one rule's selected files, as values.
pub open spec fn rule_chunks(sel: Seq<Seq<char>>, max: int) -> Seq<Seq<Seq<char>>> {
    if sel.len() == 0 {
        Seq::empty()
    } else {
        let n = sel.len() as int;
        let k = chunk_count(n, max);
        Seq::new(
            k as nat,
            |i: int| sel.subrange(chunk_start(n, k, i), chunk_start(n, k, i) + chunk_size(n, k, i)),
        )
    }
}

/// The tasks of one rule: its chunks, each tagged with the rule's index.
pub open spec fn rule_tasks(rule_index: int, sel: Seq<Seq<char>>, max: int) -> Seq<TaskSpec> {
    rule_chunks(sel, max).map_values(|c: Seq<Seq<char>>| TaskSpec { rule_index, files: c })
}

/// The planned tasks of the first `i` rules: per rule its selection cut
/// into balanced chunks under its effective cap, rule order first, chunk
/// order within.
pub open spec fn plan_prefix(
    rules: Seq<RuleSpec>,
    files: Seq<Seq<char>>,
    global_max: int,
    i: int,
) -> Seq<TaskSpec>
    decreases i,
{
    if i <= 0 {
        Seq::empty()
    } else {
        let j = i - 1;
        plan_prefix(rules, files, global_max, j) + rule_tasks(
            j,
            rule_selection(rules[j], files),
            effective_max(rules[j], global_max),
        )
    }
}

/// Splits rules and changed files into review tasks: per rule the files
/// its globs select, cut into balanced chunks under the rule's effective
/// cap, in rule order then chunk order.  A rule whose matchers cannot be
/// assembled selects nothing and contributes no tasks.
pub fn orchestrate(rules: &Vec<RuleBody>, changed_files: &Vec<String>, global_max: usize) -> (r:
    Vec<Task>)
    requires
        global_max >= 1,
        forall|j: int|
            0 <= j < rules@.len() ==> (#[trigger] rules@[j]@.max_files_per_task matches Some(m)
                ==> m >= 1),
    ensures
        tasks_view(r@) == plan_prefix(
            rules@.map_values(|ru: RuleBody| ru@),
            changed_files.deep_view(),
            global_max as int,
            rules@.len() as int,
        ),
        forall|t: int| 0 <= t < r@.len() ==> #[trigger] r@[t]@.rule_index < rules@.len(),
        forall|t: int|
            0 <= t < r@.len() ==> 1 <= #[trigger] r@[t]@.files.len() <= effective_max(
                rules@.map_values(|ru: RuleBody| ru@)[r@[t]@.rule_index],
                global_max as int,
            ),
{
    let ghost rviews = rules@.map_values(|ru: RuleBody| ru@);
    let ghost fdv = changed_files.deep_view();
    let mut out: Vec<Task> = Vec::new();
    let mut i: usize = 0;
    while i < rules.len()
        invariant
            global_max >= 1,
            forall|j: int|
                0 <= j < rules@.len() ==> (#[trigger] rules@[j]@.max_files_per_task matches Some(
                    m,
                ) ==> m >= 1),
            rviews == rules@.map_values(|ru: RuleBody| ru@),
            fdv == changed_files.deep_view(),
            i <= rules@.len(),
            tasks_view(out@) == plan_prefix(rviews, fdv, global_max as int, i as int),
            forall|t: int| 0 <= t < out@.len() ==> #[trigger] out@[t]@.rule_index < rules@.len(),
            forall|t: int|
                0 <= t < out@.len() ==> 1 <= #[trigger] out@[t]@.files.len() <= effective_max(
                    rviews[out@[t]@.rule_index],
                    global_max as int,
                ),
        decreases rules.len() - i,
    {
        let rule = &rules[i];
        let matched = filter_files_by_scope(rule, changed_files);
        let ghost sel = matched.deep_view();
        proof {
            assert(rviews[i as int] == rules@[i as int]@);
            assert(sel == rule_selection(rviews[i as int], fdv));
        }
        let max_files = match rule.max_files_per_task {
            Some(m) => m,
            None => global_max,
        };
        proof {
            assert(effective_max(rviews[i as int], global_max as int) == max_files as int);
        }
        let ghost plan_before = tasks_view(out@);
        if matched.len() > 0 {
            let chunks = split_files(&matched, max_files);
            let ghost chv = chunks.deep_view();
            proof {
                assert(chv =~= rule_chunks(sel, max_files as int));
            }
            let mut c: usize = 0;
            while c < chunks.len()
                invariant
                    c <= chunks@.len(),
                    chv == chunks.deep_view(),
                    chv.len() == chunks@.len(),
                    chv == rule_chunks(sel, max_files as int),
                    i < rules@.len(),
                    global_max >= 1,
                    rviews == rules@.map_values(|ru: RuleBody| ru@),
                    effective_max(rviews[i as int], global_max as int) == max_files as int,
                    forall|t: int|
                        0 <= t < out@.len() ==> #[trigger] out@[t]@.rule_index < rules@.len(),
                    forall|t: int|
                        0 <= t < out@.len() ==> 1 <= #[trigger] out@[t]@.files.len()
                            <= effective_max(rviews[out@[t]@.rule_index], global_max as int),
                    forall|j: int|
                        0 <= j < chv.len() ==> 1 <= #[trigger] chv[j].len() <= max_files,
                    tasks_view(out@) == plan_before + rule_tasks(
                        i as int,
                        sel,
                        max_files as int,
                    ).take(c as int),
                decreases chunks.len() - c,
            {
                let ghost prev = out@;
                let mut files_c: Vec<String> = Vec::new();
                // move the chunk out by cloning its strings
                let chunk = &chunks[c];
                let mut t: usize = 0;
                while t < chunk.len()
                    invariant
                        t <= chunk@.len(),
                        files_c.deep_view() == chunk.deep_view().take(t as int),
                    decreases chunk.len() - t,
                {
                    let ghost fprev = files_c.deep_view();
                    files_c.push(chunk[t].clone());
                    proof {
                        assert(files_c.deep_view() =~= fprev.push(chunk.deep_view()[t as int]));
                        assert(files_c.deep_view() =~= chunk.deep_view().take(t + 1));
                    }
                    t += 1;
                }
                proof {
                    assert(files_c.deep_view() =~= chunk.deep_view());
                }
                out.push(Task { rule_index: i, files: files_c });
                proof {
                    assert(tasks_view(out@) =~= tasks_view(prev).push(
                        TaskSpec { rule_index: i as int, files: chv[c as int] },
                    ));
                    assert(rule_tasks(i as int, sel, max_files as int).take(c + 1)
                        =~= rule_tasks(i as int, sel, max_files as int).take(c as int).push(
                        rule_tasks(i as int, sel, max_files as int)[c as int],
                    ));
                    assert(tasks_view(out@) =~= plan_before + rule_tasks(
                        i as int,
                        sel,
                        max_files as int,
                    ).take(c + 1));
                }
                c += 1;
            }
            proof {
                assert(rule_tasks(i as int, sel, max_files as int).take(chv.len() as int)
                    =~= rule_tasks(i as int, sel, max_files as int));
            }
        } else {
            proof {
                assert(rule_chunks(sel, max_files as int) =~= Seq::<Seq<Seq<char>>>::empty());
                assert(rule_tasks(i as int, sel, max_files as int)
                    =~= Seq::<TaskSpec>::empty());
                assert(tasks_view(out@) =~= plan_before + rule_tasks(
                    i as int,
                    sel,
                    max_files as int,
                ));
            }
        }
        proof {
            assert(tasks_view(out@) == plan_prefix(rviews, fdv, global_max as int, i + 1));
        }
        i += 1;
    }
    out
}

} // verus!
