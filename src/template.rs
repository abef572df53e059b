use vstd::prelude::*;

verus! {

/// The positional placeholder marker `{}`.
pub open spec fn marker() -> Seq<char> {
    seq!['{', '}']
}

/// Number of non-overlapping markers in `s`, scanning from the left.
pub open spec fn marker_count(s: Seq<char>) -> nat
    decreases s.len(),
{
    if s.len() < 2 {
        0
    } else if s[0] == '{' && s[1] == '}' {
        1 + marker_count(s.subrange(2, s.len() as int))
    } else {
        marker_count(s.subrange(1, s.len() as int))
    }
}

/// `t` stands in `s` starting at position `i`.
pub open spec fn occurs_at(s: Seq<char>, t: Seq<char>, i: int) -> bool {
    0 <= i && i + t.len() <= s.len() && s.subrange(i, i + t.len()) == t
}

/// `i` is the leftmost position at which `t` stands in `s`.
pub open spec fn is_first_occurrence(s: Seq<char>, t: Seq<char>, i: int) -> bool {
    occurs_at(s, t, i) && forall|j: int| 0 <= j < i ==> !occurs_at(s, t, j)
}

/// `s` with its leftmost occurrence of `t` replaced by `r`; `s` itself when `t`
/// does not occur.
pub open spec fn replace_first(s: Seq<char>, t: Seq<char>, r: Seq<char>) -> Seq<char> {
    if exists|i: int| occurs_at(s, t, i) {
        let i = choose|i: int| is_first_occurrence(s, t, i);
        s.subrange(0, i) + r + s.subrange(i + t.len(), s.len() as int)
    } else {
        s
    }
}

/// The template `t` after each of `vals`, in order, has replaced the leftmost
/// marker that remains in the working text.
pub open spec fn substitute(t: Seq<char>, vals: Seq<Seq<char>>) -> Seq<char>
    decreases vals.len(),
{
    if vals.len() == 0 {
        t
    } else {
        replace_first(substitute(t, vals.drop_last()), marker(), vals.last())
    }
}

proof fn lemma_first_occurrence_unique(s: Seq<char>, t: Seq<char>, i: int, j: int)
    requires
        is_first_occurrence(s, t, i),
        is_first_occurrence(s, t, j),
    ensures
        i == j,
{
}

/// Reveals which position `replace_first` picks once that position is known.
pub proof fn lemma_replace_first_at(s: Seq<char>, t: Seq<char>, r: Seq<char>, i: int)
    requires
        is_first_occurrence(s, t, i),
    ensures
        replace_first(s, t, r) == s.subrange(0, i) + r + s.subrange(i + t.len(), s.len() as int),
{
    let k = choose|k: int| is_first_occurrence(s, t, k);
    lemma_first_occurrence_unique(s, t, i, k);
}

/// The characters of `s`, one per element.
fn chars_of(s: &str) -> (r: Vec<char>)
    ensures
        r@ == s@,
{
    let n = s.unicode_len();
    let mut r: Vec<char> = Vec::new();
    let mut i: usize = 0;
    while i < n
        invariant
            n == s@.len(),
            i <= n,
            r@ == s@.subrange(0, i as int),
        decreases n - i,
    {
        r.push(s.get_char(i));
        i = i + 1;
        assert(r@ =~= s@.subrange(0, i as int));
    }
    assert(r@ =~= s@);
    r
}

/// Counts the placeholder markers `{}` in a message template, left to right and
/// without overlap.
pub fn count_placeholders(message: &str) -> (r: usize)
    ensures
        r == marker_count(message@),
{
    let cs = chars_of(message);
    let n = cs.len();
    let mut count: usize = 0;
    let mut i: usize = 0;
    assert(cs@.subrange(0, n as int) =~= cs@);
    while i < n
        invariant
            cs@ == message@,
            n == cs@.len(),
            i <= n,
            count <= i,
            count + marker_count(cs@.subrange(i as int, n as int)) == marker_count(cs@),
        decreases n - i,
    {
        let rest = Ghost(cs@.subrange(i as int, n as int));
        if i + 1 < n && cs[i] == '{' && cs[i + 1] == '}' {
            assert(rest@.subrange(2, rest@.len() as int) =~= cs@.subrange(i + 2, n as int));
            count = count + 1;
            i = i + 2;
        } else {
            if i + 1 < n {
                assert(rest@.subrange(1, rest@.len() as int) =~= cs@.subrange(i + 1, n as int));
            } else {
                assert(marker_count(cs@.subrange(i + 1, n as int)) == 0);
            }
            i = i + 1;
        }
    }
    assert(cs@.subrange(n as int, n as int).len() == 0);
    count
}

/// Whether `t` stands in `s` at position `i`.
fn matches_at(s: &Vec<char>, t: &Vec<char>, i: usize) -> (r: bool)
    requires
        i + t@.len() <= s@.len(),
    ensures
        r == occurs_at(s@, t@, i as int),
{
    let len = s.len();
    let mut k: usize = 0;
    while k < t.len()
        invariant
            len == s@.len(),
            i + t@.len() <= s@.len(),
            k <= t@.len(),
            forall|m: int| 0 <= m < k ==> s@[i + m] == t@[m],
        decreases t@.len() - k,
    {
        if s[i + k] != t[k] {
            assert(s@.subrange(i as int, i + t@.len())[k as int] != t@[k as int]);
            return false;
        }
        k = k + 1;
    }
    assert(s@.subrange(i as int, i + t@.len()) =~= t@);
    true
}

/// Replaces the leftmost occurrence of `target` in `original` by `replacement`;
/// returns `original` unchanged when `target` does not occur. An empty `target`
/// occurs at the start.
pub fn replace_first_occurrence(original: &str, target: &str, replacement: &str) -> (r: String)
    ensures
        r@ == replace_first(original@, target@, replacement@),
{
    let s = chars_of(original);
    let t = chars_of(target);
    let n = s.len();
    let m = t.len();
    if m > n {
        assert forall|j: int| !occurs_at(original@, target@, j) by {}
        return String::from_str(original);
    }
    let last = n - m;
    let mut i: usize = 0;
    loop
        invariant
            s@ == original@,
            t@ == target@,
            n == s@.len(),
            m == t@.len(),
            last == n - m,
            i <= last,
            forall|j: int| 0 <= j < i ==> !occurs_at(s@, t@, j),
        ensures
            forall|j: int| 0 <= j <= last ==> !occurs_at(s@, t@, j),
        decreases last - i,
    {
        if matches_at(&s, &t, i) {
            proof {
                lemma_replace_first_at(original@, target@, replacement@, i as int);
            }
            let mut r = String::from_str(original.substring_char(0, i));
            r.append(replacement);
            r.append(original.substring_char(i + m, n));
            return r;
        }
        if i == last {
            break;
        }
        i = i + 1;
    }
    assert forall|j: int| !occurs_at(original@, target@, j) by {
        if j > last {
            assert(j + m > n);
        }
    }
    String::from_str(original)
}

} // verus!
