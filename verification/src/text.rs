//! String helpers shared by the planner, the renderers and the tools:
//! decimal formatting, substring tests, line splitting, joining and
//! ASCII case folding, each with an exact specification.

use vstd::prelude::*;

verus! {

/// The decimal digit character for a value in 0..10.
pub open spec fn dec_digit(d: int) -> char {
    if d == 0 {
        '0'
    } else if d == 1 {
        '1'
    } else if d == 2 {
        '2'
    } else if d == 3 {
        '3'
    } else if d == 4 {
        '4'
    } else if d == 5 {
        '5'
    } else if d == 6 {
        '6'
    } else if d == 7 {
        '7'
    } else if d == 8 {
        '8'
    } else {
        '9'
    }
}

/// Decimal rendering of a non-negative integer, most significant digit first.
pub open spec fn dec_str(n: int) -> Seq<char>
    decreases n,
{
    if n < 10 {
        seq![dec_digit(n)]
    } else {
        dec_str(n / 10).push(dec_digit(n % 10))
    }
}

/// Relies on String::push: appends exactly one character.
#[verifier::external_body]
pub fn push_char(s: &mut String, c: char)
    ensures
        final(s)@ == old(s)@.push(c),
{
    s.push(c);
}

fn digit_char(d: usize) -> (c: char)
    requires
        d < 10,
    ensures
        c == dec_digit(d as int),
{
    if d == 0 {
        '0'
    } else if d == 1 {
        '1'
    } else if d == 2 {
        '2'
    } else if d == 3 {
        '3'
    } else if d == 4 {
        '4'
    } else if d == 5 {
        '5'
    } else if d == 6 {
        '6'
    } else if d == 7 {
        '7'
    } else if d == 8 {
        '8'
    } else {
        '9'
    }
}

/// Renders a number in decimal, as the report and hint texts need it.
pub fn usize_to_string(n: usize) -> (s: String)
    ensures
        s@ == dec_str(n as int),
    decreases n,
{
    if n < 10 {
        let mut s = String::new();
        let c = digit_char(n);
        push_char(&mut s, c);
        assert(s@ =~= dec_str(n as int));
        s
    } else {
        let mut s = usize_to_string(n / 10);
        let c = digit_char(n % 10);
        push_char(&mut s, c);
        s
    }
}

/// Renders a 64-bit number in decimal.
pub fn u64_to_string(n: u64) -> (s: String)
    ensures
        s@ == dec_str(n as int),
    decreases n,
{
    if n < 10 {
        let mut s = String::new();
        let c = digit_char((n % 10) as usize);
        push_char(&mut s, c);
        assert(s@ =~= dec_str(n as int));
        s
    } else {
        let mut s = u64_to_string(n / 10);
        let c = digit_char((n % 10) as usize);
        push_char(&mut s, c);
        s
    }
}

/// Renders the sum of two machine words in decimal; the wide
/// intermediate cannot overflow.
pub fn sum_to_string(a: usize, b: usize) -> (s: String)
    ensures
        s@ == dec_str(a as int + b as int),
{
    u128_to_string(a as u128 + b as u128)
}

fn u128_to_string(n: u128) -> (s: String)
    ensures
        s@ == dec_str(n as int),
    decreases n,
{
    if n < 10 {
        let mut s = String::new();
        let c = digit_char((n % 10) as usize);
        push_char(&mut s, c);
        assert(s@ =~= dec_str(n as int));
        s
    } else {
        let mut s = u128_to_string(n / 10);
        let c = digit_char((n % 10) as usize);
        push_char(&mut s, c);
        s
    }
}

/// Every line of a split is no longer than the text it came from.
pub proof fn lemma_line_split_lens(s: Seq<char>)
    ensures
        forall|i: int| 0 <= i < line_split(s).len() ==> (#[trigger] line_split(s)[i]).len()
            <= s.len(),
    decreases s.len(),
{
    if s.len() == 0 {
    } else {
        lemma_first_nl_bounds(s);
        let k = first_nl(s);
        if 0 <= k && k < s.len() {
            lemma_line_split_lens(s.skip(k + 1));
            assert(forall|i: int|
                1 <= i < line_split(s).len() ==> line_split(s)[i] == line_split(s.skip(k + 1))[i
                    - 1]);
        }
    }
}

/// Appends one string to another; the name mirrors what it does to the view.
pub fn append_str(s: &mut String, t: &str)
    ensures
        final(s)@ == old(s)@ + t@,
{
    s.append(t);
}

/// Whether `needle` occurs at position `i` of `hay`.
pub open spec fn matches_at(hay: Seq<char>, needle: Seq<char>, i: int) -> bool {
    0 <= i && i + needle.len() <= hay.len() && hay.subrange(i, i + needle.len()) == needle
}

/// Whether `needle` occurs anywhere in `hay`.
pub open spec fn contains_sub(hay: Seq<char>, needle: Seq<char>) -> bool {
    exists|i: int| matches_at(hay, needle, i)
}

/// Whether `hay` ends in `needle`.
pub open spec fn ends_with(hay: Seq<char>, needle: Seq<char>) -> bool {
    needle.len() <= hay.len() && hay.subrange(hay.len() - needle.len(), hay.len() as int)
        == needle
}

/// Whether `hay` begins with `needle`.
pub open spec fn starts_with(hay: Seq<char>, needle: Seq<char>) -> bool {
    needle.len() <= hay.len() && hay.subrange(0, needle.len() as int) == needle
}

fn eq_at(hay: &str, needle: &str, i: usize) -> (r: bool)
    requires
        i + needle@.len() <= hay@.len() <= usize::MAX,
    ensures
        r == matches_at(hay@, needle@, i as int),
{
    let n = needle.unicode_len();
    let mut j: usize = 0;
    while j < n
        invariant
            n == needle@.len(),
            i + n <= hay@.len() <= usize::MAX,
            j <= n,
            forall|k: int| 0 <= k < j ==> hay@[i + k] == needle@[k],
        decreases n - j,
    {
        if hay.get_char(i + j) != needle.get_char(j) {
            assert(hay@.subrange(i as int, i + n) != needle@) by {
                assert(hay@.subrange(i as int, i + n)[j as int] == hay@[i + j]);
            }
            return false;
        }
        j += 1;
    }
    assert(hay@.subrange(i as int, i + n) =~= needle@);
    true
}

/// Substring search, as `str::contains` decides it.
pub fn contains_str(hay: &str, needle: &str) -> (r: bool)
    ensures
        r == contains_sub(hay@, needle@),
{
    let h = hay.unicode_len();
    let n = needle.unicode_len();
    if n > h {
        assert(!contains_sub(hay@, needle@));
        return false;
    }
    if n == 0 {
        assert(matches_at(hay@, needle@, 0)) by {
            assert(hay@.subrange(0, 0) =~= needle@);
        }
        return true;
    }
    let mut i: usize = 0;
    while i <= h - n
        invariant
            h == hay@.len(),
            n == needle@.len(),
            1 <= n <= h,
            i <= h - n + 1,
            forall|k: int| 0 <= k < i ==> !matches_at(hay@, needle@, k),
        decreases h - i,
    {
        if eq_at(hay, needle, i) {
            return true;
        }
        i += 1;
    }
    assert(forall|k: int| matches_at(hay@, needle@, k) ==> 0 <= k <= h - n);
    false
}

/// Suffix test, as `str::ends_with` decides it.
pub fn ends_with_str(hay: &str, needle: &str) -> (r: bool)
    ensures
        r == ends_with(hay@, needle@),
{
    let h = hay.unicode_len();
    let n = needle.unicode_len();
    if n > h {
        return false;
    }
    eq_at(hay, needle, h - n)
}

/// Prefix test, as `str::starts_with` decides it.
pub fn starts_with_str(hay: &str, needle: &str) -> (r: bool)
    ensures
        r == starts_with(hay@, needle@),
{
    let h = hay.unicode_len();
    let n = needle.unicode_len();
    if n > h {
        return false;
    }
    eq_at(hay, needle, 0)
}

/// Index of the first newline in `s`, or `s.len()` if there is none.
pub open spec fn first_nl(s: Seq<char>) -> int
    decreases s.len(),
{
    if s.len() == 0 {
        0
    } else if s[0] == '\n' {
        0
    } else {
        1 + first_nl(s.drop_first())
    }
}

pub proof fn lemma_first_nl_bounds(s: Seq<char>)
    ensures
        0 <= first_nl(s) <= s.len(),
        forall|j: int| 0 <= j < first_nl(s) ==> s[j] != '\n',
        first_nl(s) < s.len() ==> s[first_nl(s)] == '\n',
    decreases s.len(),
{
    if s.len() == 0 {
    } else if s[0] == '\n' {
    } else {
        lemma_first_nl_bounds(s.drop_first());
        assert(forall|j: int| 1 <= j < first_nl(s) ==> s[j] == s.drop_first()[j - 1]);
    }
}

pub proof fn lemma_first_nl_at(s: Seq<char>, i: int)
    requires
        0 <= i <= s.len(),
        forall|j: int| 0 <= j < i ==> s[j] != '\n',
        i == s.len() || s[i] == '\n',
    ensures
        first_nl(s) == i,
    decreases s.len(),
{
    if s.len() == 0 {
    } else if s[0] == '\n' {
    } else {
        assert(forall|j: int| 0 <= j < i - 1 ==> s.drop_first()[j] == s[j + 1]);
        if i < s.len() {
            assert(s.drop_first()[i - 1] == s[i]);
        }
        lemma_first_nl_at(s.drop_first(), i - 1);
    }
}

/// The lines of `s`, split at `'\n'`; a trailing newline adds no final
/// empty line, as `str::lines` has it.
pub open spec fn line_split(s: Seq<char>) -> Seq<Seq<char>>
    decreases s.len(),
{
    if s.len() == 0 {
        seq![]
    } else {
        let i = first_nl(s);
        if 0 <= i && i < s.len() {
            seq![s.take(i)] + line_split(s.skip(i + 1))
        } else {
            seq![s]
        }
    }
}

/// Splits into lines at `'\n'`, as `str::lines` does on newline-terminated
/// or plain text.
pub fn split_lines(s: &str) -> (r: Vec<String>)
    ensures
        r@.map_values(|l: String| l@) == line_split(s@),
{
    let n = s.unicode_len();
    let mut out: Vec<String> = Vec::new();
    let mut p: usize = 0;
    proof {
        assert(s@.skip(0) =~= s@);
    }
    while p < n
        invariant
            n == s@.len() <= usize::MAX,
            p <= n,
            out@.map_values(|l: String| l@) + line_split(s@.skip(p as int)) =~= line_split(
                s@,
            ),
        decreases n - p,
    {
        let ghost tail = s@.skip(p as int);
        let mut k: usize = p;
        while k < n && s.get_char(k) != '\n'
            invariant
                n == s@.len() <= usize::MAX,
                p <= k <= n,
                forall|j: int| p <= j < k ==> s@[j] != '\n',
            decreases n - k,
        {
            k += 1;
        }
        proof {
            assert(forall|j: int| 0 <= j < k - p ==> tail[j] == s@[p + j]);
            if k < n {
                assert(tail[k - p] == s@[k as int]);
            }
            lemma_first_nl_at(tail, k - p);
        }
        let ghost prev = out@;
        let line = s.substring_char(p, k);
        out.push(String::from_str(line));
        proof {
            assert(tail.take(k - p) =~= s@.subrange(p as int, k as int));
            if k < n {
                assert(tail.skip(k - p + 1) =~= s@.skip(k + 1));
            } else {
                assert(tail =~= s@.subrange(p as int, k as int));
            }
            assert(out@.map_values(|l: String| l@) =~= prev.map_values(|l: String| l@).push(
                s@.subrange(p as int, k as int),
            ));
        }
        if k < n {
            p = k + 1;
        } else {
            p = n;
            proof {
                assert(line_split(s@.skip(p as int)) =~= Seq::<Seq<char>>::empty());
            }
        }
    }
    proof {
        assert(line_split(s@.skip(p as int)) =~= Seq::<Seq<char>>::empty());
        assert(out@.map_values(|l: String| l@) =~= line_split(s@));
    }
    out
}

/// Concatenation of `items` with `sep` between neighbours.
pub open spec fn join_sep(items: Seq<Seq<char>>, sep: Seq<char>) -> Seq<char>
    decreases items.len(),
{
    if items.len() == 0 {
        Seq::empty()
    } else if items.len() == 1 {
        items[0]
    } else {
        items[0] + sep + join_sep(items.drop_first(), sep)
    }
}

proof fn lemma_join_sep_take(items: Seq<Seq<char>>, sep: Seq<char>, i: int)
    requires
        1 <= i < items.len(),
    ensures
        join_sep(items.take(i + 1), sep) == join_sep(items.take(i), sep) + sep + items[i],
    decreases i,
{
    if i == 1 {
        assert(items.take(2).drop_first() =~= seq![items[1]]);
        assert(items.take(1) =~= seq![items[0]]);
        assert(join_sep(items.take(2), sep) == items.take(2)[0] + sep + join_sep(
            items.take(2).drop_first(),
            sep,
        ));
        assert(join_sep(items.take(2), sep) == items[0] + sep + items[1]);
        assert(join_sep(items.take(1), sep) == items[0]);
    } else {
        let d = items.drop_first();
        lemma_join_sep_take(d, sep, i - 1);
        assert(items.take(i + 1).drop_first() =~= d.take(i));
        assert(items.take(i).drop_first() =~= d.take(i - 1));
        assert(join_sep(items.take(i + 1), sep) == items[0] + sep + join_sep(d.take(i), sep));
        assert(join_sep(items.take(i), sep) == items[0] + sep + join_sep(d.take(i - 1), sep));
        assert(d[i - 1] == items[i]);
        assert(items[0] + sep + (join_sep(d.take(i - 1), sep) + sep + items[i]) =~= (items[0]
            + sep + join_sep(d.take(i - 1), sep)) + sep + items[i]);
    }
}

/// Joins strings with a separator, as `slice::join` does.
pub fn join_strings(items: &Vec<String>, sep: &str) -> (r: String)
    ensures
        r@ == join_sep(items@.map_values(|l: String| l@), sep@),
{
    let ghost view_items = items@.map_values(|l: String| l@);
    let mut out = String::new();
    let mut i: usize = 0;
    while i < items.len()
        invariant
            view_items == items@.map_values(|l: String| l@),
            i <= items.len(),
            out@ == join_sep(view_items.take(i as int), sep@),
        decreases items.len() - i,
    {
        if i > 0 {
            append_str(&mut out, sep);
        }
        append_str(&mut out, items[i].as_str());
        proof {
            if i == 0 {
                assert(view_items.take(1) =~= seq![view_items[0]]);
            } else {
                lemma_join_sep_take(view_items, sep@, i as int);
            }
        }
        i += 1;
    }
    proof {
        assert(view_items.take(items@.len() as int) =~= view_items);
    }
    out
}

/// `c` repeated `n` times.
pub fn repeat_char(c: char, n: usize) -> (r: String)
    ensures
        r@ == Seq::new(n as nat, |i: int| c),
{
    let mut out = String::new();
    let mut i: usize = 0;
    while i < n
        invariant
            i <= n,
            out@ =~= Seq::new(i as nat, |j: int| c),
        decreases n - i,
    {
        push_char(&mut out, c);
        proof {
            assert(out@ =~= Seq::new((i + 1) as nat, |j: int| c));
        }
        i += 1;
    }
    out
}

/// ASCII whitespace, the characters that trimming strips here.
pub open spec fn is_space(c: char) -> bool {
    c == ' ' || c == '\t' || c == '\n' || c == '\r'
}

/// `s` with leading and trailing whitespace removed.
pub open spec fn trim_spec(s: Seq<char>) -> Seq<char>
    decreases s.len(),
{
    if s.len() == 0 {
        s
    } else if is_space(s[0]) {
        trim_spec(s.drop_first())
    } else if is_space(s.last()) {
        trim_spec(s.drop_last())
    } else {
        s
    }
}

proof fn lemma_trim_all_space(s: Seq<char>)
    requires
        forall|j: int| 0 <= j < s.len() ==> is_space(s[j]),
    ensures
        trim_spec(s) == Seq::<char>::empty(),
    decreases s.len(),
{
    if s.len() == 0 {
        assert(trim_spec(s) =~= Seq::<char>::empty());
    } else {
        assert(forall|j: int|
            0 <= j < s.drop_first().len() ==> s.drop_first()[j] == s[j + 1]);
        lemma_trim_all_space(s.drop_first());
    }
}

proof fn lemma_trim_inner(s: Seq<char>, a: int, b: int)
    requires
        0 <= a < b <= s.len(),
        forall|j: int| 0 <= j < a ==> is_space(s[j]),
        forall|j: int| b <= j < s.len() ==> is_space(s[j]),
        !is_space(s[a]),
        !is_space(s[b - 1]),
    ensures
        trim_spec(s) == s.subrange(a, b),
    decreases s.len(),
{
    if is_space(s[0]) {
        assert(a >= 1);
        let t = s.drop_first();
        assert(forall|j: int| 0 <= j < t.len() ==> t[j] == s[j + 1]);
        lemma_trim_inner(t, a - 1, b - 1);
        assert(t.subrange(a - 1, b - 1) =~= s.subrange(a, b));
    } else if is_space(s.last()) {
        assert(b < s.len());
        let t = s.drop_last();
        assert(forall|j: int| 0 <= j < t.len() ==> t[j] == s[j]);
        lemma_trim_inner(t, a, b);
        assert(t.subrange(a, b) =~= s.subrange(a, b));
    } else {
        assert(a == 0);
        assert(b == s.len());
        assert(s.subrange(0, s.len() as int) =~= s);
    }
}

/// Strips leading and trailing whitespace, as `str::trim` does on ASCII text.
pub fn trim(s: &str) -> (r: &str)
    ensures
        r@ == trim_spec(s@),
{
    let n = s.unicode_len();
    let mut a: usize = 0;
    while a < n && is_space_char(s.get_char(a))
        invariant
            n == s@.len() <= usize::MAX,
            a <= n,
            forall|j: int| 0 <= j < a ==> is_space(s@[j]),
        decreases n - a,
    {
        a += 1;
    }
    let mut b: usize = n;
    while b > a && is_space_char(s.get_char(b - 1))
        invariant
            n == s@.len() <= usize::MAX,
            a <= b <= n,
            forall|j: int| 0 <= j < a ==> is_space(s@[j]),
            forall|j: int| b <= j < n ==> is_space(s@[j]),
        decreases b,
    {
        b -= 1;
    }
    proof {
        if a == b {
            if a < n {
                assert(is_space(s@[a as int]));
                assert(false);
            }
            assert(forall|j: int| 0 <= j < n ==> is_space(s@[j]));
            lemma_trim_all_space(s@);
            assert(s@.subrange(a as int, b as int) =~= Seq::<char>::empty());
        } else {
            lemma_trim_inner(s@, a as int, b as int);
        }
    }
    s.substring_char(a, b)
}

fn is_space_char(c: char) -> (r: bool)
    ensures
        r == is_space(c),
{
    c == ' ' || c == '\t' || c == '\n' || c == '\r'
}

/// Character-wise string equality.
pub fn str_eq(a: &str, b: &str) -> (r: bool)
    ensures
        r == (a@ == b@),
{
    let n = a.unicode_len();
    if n != b.unicode_len() {
        return false;
    }
    let r = eq_at(a, b, 0);
    proof {
        assert(a@.subrange(0, a@.len() as int) =~= a@);
    }
    r
}

/// `s` with trailing whitespace removed.
pub open spec fn trim_end_spec(s: Seq<char>) -> Seq<char>
    decreases s.len(),
{
    if s.len() == 0 {
        s
    } else if is_space(s.last()) {
        trim_end_spec(s.drop_last())
    } else {
        s
    }
}

/// Strips trailing whitespace, as `str::trim_end` does on ASCII text.
pub fn trim_end(s: &str) -> (r: &str)
    ensures
        r@ == trim_end_spec(s@),
{
    let n = s.unicode_len();
    let mut b: usize = n;
    proof {
        assert(s@.take(n as int) =~= s@);
    }
    while b > 0 && is_space_char(s.get_char(b - 1))
        invariant
            n == s@.len() <= usize::MAX,
            b <= n,
            trim_end_spec(s@) == trim_end_spec(s@.take(b as int)),
        decreases b,
    {
        proof {
            assert(s@.take(b as int).last() == s@[b - 1]);
            assert(s@.take(b as int).drop_last() =~= s@.take(b - 1));
        }
        b -= 1;
    }
    proof {
        if b > 0 {
            assert(s@.take(b as int).last() == s@[b - 1]);
        }
        assert(trim_end_spec(s@.take(b as int)) == s@.take(b as int));
        assert(s@.subrange(0, b as int) =~= s@.take(b as int));
    }
    s.substring_char(0, b)
}

/// ASCII lower-casing of one character; other characters pass through.
pub open spec fn lower_char(c: char) -> char {
    if 'A' <= c && c <= 'Z' {
        (((c as u8) + 32) as char)
    } else {
        c
    }
}

/// ASCII lower-casing of a whole string.
pub open spec fn lower(s: Seq<char>) -> Seq<char> {
    s.map_values(|c: char| lower_char(c))
}

/// Case folding for file-path tests; ASCII letters only, as paths need.
pub fn to_lower(s: &str) -> (r: String)
    ensures
        r@ == lower(s@),
{
    let n = s.unicode_len();
    let mut out = String::new();
    let mut i: usize = 0;
    while i < n
        invariant
            n == s@.len(),
            i <= n,
            out@ == lower(s@).take(i as int),
        decreases n - i,
    {
        let c = s.get_char(i);
        let lc: char = if 'A' <= c && c <= 'Z' {
            ((c as u8) + 32) as char
        } else {
            c
        };
        assert(lc == lower_char(c));
        push_char(&mut out, lc);
        assert(out@ =~= lower(s@).take(i + 1));
        i += 1;
    }
    assert(out@ =~= lower(s@));
    out
}

} // verus!
