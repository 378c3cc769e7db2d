//! Run configuration values and the parsing of command-line overrides.

use vstd::prelude::*;

verus! {

/// The provider endpoint used when none is configured.
pub fn default_base_url() -> (r: String)
    ensures
        r@ == "https://openrouter.ai/api/v1"@,
{
    String::from_str("https://openrouter.ai/api/v1")
}

/// The model used when none is configured.
pub fn default_model() -> (r: String)
    ensures
        r@ == "google/gemini-3-flash-preview"@,
{
    String::from_str("google/gemini-3-flash-preview")
}

/// The files-per-task cap used when none is configured.
pub fn default_max_files_per_task() -> (r: usize)
    ensures
        r == 5,
{
    5
}

/// Worker configuration.
pub struct WorkerConfig {
    /// Maximum number of files to review per task.
    pub max_files_per_task: usize,
    /// Maximum number of parallel workers; absent means unlimited.
    pub max_parallel_workers: Option<usize>,
}

impl Default for WorkerConfig {
    /// The configuration a run gets when none is written.
    fn default() -> (r: WorkerConfig)
        ensures
            r.max_files_per_task == 5,
            r.max_parallel_workers is None,
    {
        WorkerConfig { max_files_per_task: 5, max_parallel_workers: None }
    }
}

/// Where the first `=` of an override stands, or the length if none.
pub open spec fn first_eq(s: Seq<char>) -> int
    decreases s.len(),
{
    if s.len() == 0 {
        0
    } else if s[0] == '=' {
        0
    } else {
        1 + first_eq(s.drop_first())
    }
}

proof fn lemma_first_eq_at(s: Seq<char>, i: int)
    requires
        0 <= i <= s.len(),
        forall|j: int| 0 <= j < i ==> s[j] != '=',
        i == s.len() || s[i] == '=',
    ensures
        first_eq(s) == i,
    decreases s.len(),
{
    if s.len() == 0 {
    } else if s[0] == '=' {
    } else {
        assert(forall|j: int| 0 <= j < i - 1 ==> s.drop_first()[j] == s[j + 1]);
        if i < s.len() {
            assert(s.drop_first()[i - 1] == s[i]);
        }
        lemma_first_eq_at(s.drop_first(), i - 1);
    }
}

/// What splitting an override at its first `=` yields: the key and the
/// value, or nothing when no `=` occurs.
pub open spec fn split_override_spec(s: Seq<char>) -> Option<(Seq<char>, Seq<char>)> {
    let i = first_eq(s);
    if i == s.len() {
        None
    } else {
        Some((s.take(i), s.skip(i + 1)))
    }
}

/// Splits a `key=value` override at its first `=`; an override without
/// one is invalid and rejected.
pub fn split_override(s: &str) -> (r: Option<(String, String)>)
    ensures
        match r {
            Some(kv) => split_override_spec(s@) == Some((kv.0@, kv.1@)),
            None => split_override_spec(s@) is None,
        },
{
    let n = s.unicode_len();
    let mut k: usize = 0;
    while k < n && s.get_char(k) != '='
        invariant
            n == s@.len() <= usize::MAX,
            k <= n,
            forall|j: int| 0 <= j < k ==> s@[j] != '=',
        decreases n - k,
    {
        k += 1;
    }
    proof {
        lemma_first_eq_at(s@, k as int);
    }
    if k == n {
        None
    } else {
        let key = s.substring_char(0, k);
        let value = s.substring_char(k + 1, n);
        proof {
            assert(s@.subrange(0, k as int) =~= s@.take(k as int));
            assert(s@.subrange(k + 1, n as int) =~= s@.skip(k + 1));
        }
        Some((String::from_str(key), String::from_str(value)))
    }
}

/// The pieces of a dotted key path, every separator splitting.
pub open spec fn dotted_path(s: Seq<char>) -> Seq<Seq<char>>
    decreases s.len(),
{
    let i = first_dot(s);
    if 0 <= i && i < s.len() {
        seq![s.take(i)] + dotted_path(s.skip(i + 1))
    } else {
        seq![s]
    }
}

/// Where the first `.` of a key stands, or the length if none.
pub open spec fn first_dot(s: Seq<char>) -> int
    decreases s.len(),
{
    if s.len() == 0 {
        0
    } else if s[0] == '.' {
        0
    } else {
        1 + first_dot(s.drop_first())
    }
}

proof fn lemma_first_dot_at(s: Seq<char>, i: int)
    requires
        0 <= i <= s.len(),
        forall|j: int| 0 <= j < i ==> s[j] != '.',
        i == s.len() || s[i] == '.',
    ensures
        first_dot(s) == i,
    decreases s.len(),
{
    if s.len() == 0 {
    } else if s[0] == '.' {
    } else {
        assert(forall|j: int| 0 <= j < i - 1 ==> s.drop_first()[j] == s[j + 1]);
        if i < s.len() {
            assert(s.drop_first()[i - 1] == s[i]);
        }
        lemma_first_dot_at(s.drop_first(), i - 1);
    }
}

/// Splits a dotted override key into its path parts, as navigating the
/// configuration needs them.
pub fn split_key_path(s: &str) -> (r: Vec<String>)
    ensures
        r.deep_view() == dotted_path(s@),
    decreases s@.len(),
{
    let n = s.unicode_len();
    let mut k: usize = 0;
    while k < n && s.get_char(k) != '.'
        invariant
            n == s@.len() <= usize::MAX,
            k <= n,
            forall|j: int| 0 <= j < k ==> s@[j] != '.',
        decreases n - k,
    {
        k += 1;
    }
    proof {
        lemma_first_dot_at(s@, k as int);
    }
    if k == n {
        let mut out: Vec<String> = Vec::new();
        out.push(String::from_str(s));
        proof {
            assert(out.deep_view() =~= seq![s@]);
        }
        out
    } else {
        let head = s.substring_char(0, k);
        let rest = s.substring_char(k + 1, n);
        proof {
            assert(s@.subrange(0, k as int) =~= s@.take(k as int));
            assert(s@.subrange(k + 1, n as int) =~= s@.skip(k + 1));
        }
        let tail = split_key_path(rest);
        let mut out: Vec<String> = Vec::new();
        out.push(String::from_str(head));
        let ghost tdv = tail.deep_view();
        let ghost mut t: int = 0;
        proof {
            assert(out.deep_view() =~= seq![s@.take(k as int)] + tdv.take(0));
        }
        let mut tail = tail;
        while tail.len() > 0
            invariant
                tdv == dotted_path(s@.skip(k + 1)),
                0 <= t <= tdv.len(),
                tail.deep_view() == tdv.skip(t),
                out.deep_view() == seq![s@.take(k as int)] + tdv.take(t),
            decreases tail.len(),
    {
            let ghost braw = tail.deep_view();
            let piece = tail.remove(0);
            proof {
                assert(tail.deep_view() =~= braw.drop_first());
                assert(braw.drop_first() =~= tdv.skip(t + 1));
                assert(piece@ == braw[0]);
                assert(braw[0] == tdv.skip(t)[0]);
                assert(tdv.skip(t)[0] == tdv[t]);
            }
            let ghost prev = out.deep_view();
            out.push(piece);
            proof {
                assert(out.deep_view() =~= prev.push(tdv[t]));
                assert(out.deep_view() =~= seq![s@.take(k as int)] + tdv.take(t + 1));
                t = t + 1;
            }
        }
        proof {
            assert(tdv.take(tdv.len() as int) =~= tdv);
            assert(out.deep_view() =~= dotted_path(s@));
        }
        out
    }
}

} // verus!
